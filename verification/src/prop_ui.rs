//! The decisions behind a parameter's widget: the label of the file button,
//! which menu entry a click selects, and when the animator popup opens and closes.
use vstd::prelude::*;

use crate::graph::NodeId;
use crate::strings::str_eq;

verus! {

/// The number of bytes of a path that the file button shows at most.
pub const PATH_LABEL_MAX: usize = 30;

/// The UTF-8 bytes of a string.
pub open spec fn utf8_of(s: &str) -> Seq<u8> {
    vstd::utf8::encode_utf8(s@)
}

/// The text of a file button. `path` is `None` where no file is chosen and
/// `Some(None)` where the chosen path is not valid Unicode: the button then
/// reads "Open" or "???". Otherwise it shows the path, cut to its last
/// `PATH_LABEL_MAX` bytes where it is longer; the cut must fall on a character
/// boundary.
pub fn path_label<'a>(path: Option<Option<&'a str>>) -> (r: &'a str)
    requires
        match path {
            Some(Some(s)) => {
                &&& utf8_of(s).len() <= usize::MAX
                &&& PATH_LABEL_MAX < utf8_of(s).len()
                    ==> vstd::utf8::is_char_boundary(utf8_of(s), utf8_of(s).len() - PATH_LABEL_MAX)
            },
            _ => true,
        },
    ensures
        match path {
            None => r@ == "Open"@,
            Some(None) => r@ == "???"@,
            Some(Some(s)) => {
                let b = utf8_of(s);
                if PATH_LABEL_MAX < b.len() {
                    utf8_of(r) == b.subrange(b.len() - PATH_LABEL_MAX, b.len() as int)
                } else {
                    r@ == s@
                }
            },
        },
{
    match path {
        None => "Open",
        Some(None) => "???",
        Some(Some(s)) => {
            let len = s.len();
            assert(len == utf8_of(s).len());
            if PATH_LABEL_MAX < len {
                let (_, tail) = s.split_at(len - PATH_LABEL_MAX);
                tail
            } else {
                s
            }
        },
    }
}

/// Whether some entry of `clicked` is set.
pub open spec fn any_clicked(clicked: Seq<bool>) -> bool {
    exists|i: int| 0 <= i < clicked.len() && clicked[i]
}

/// `i` is the last index at which `clicked` is set.
pub open spec fn last_clicked(clicked: Seq<bool>, i: int) -> bool {
    &&& 0 <= i < clicked.len()
    &&& clicked[i]
    &&& forall|j: int| i < j < clicked.len() ==> !clicked[j]
}

/// The value of a menu after one frame, and whether it changed: each clicked
/// entry sets the value in turn, so the last clicked entry wins; with no click
/// the value stays and nothing changed.
pub fn select_menu_value(value: i32, mapping: &Vec<(String, i32)>, clicked: &Vec<bool>) -> (r: (i32, bool))
    requires
        clicked.len() == mapping.len(),
    ensures
        r.1 == any_clicked(clicked@),
        !any_clicked(clicked@) ==> r.0 == value,
        forall|i: int| last_clicked(clicked@, i) ==> r.0 == mapping@[i].1,
{
    let mut v = value;
    let mut changed = false;
    let mut i: usize = 0;
    while i < mapping.len()
        invariant
            clicked.len() == mapping.len(),
            0 <= i <= mapping.len(),
            changed == any_clicked(clicked@.subrange(0, i as int)),
            !changed ==> v == value,
            forall|k: int| last_clicked(clicked@.subrange(0, i as int), k) ==> v == mapping@[k].1,
        decreases mapping.len() - i,
    {
        let ghost before = clicked@.subrange(0, i as int);
        let ghost after = clicked@.subrange(0, i + 1);
        assert(after =~= before.push(clicked@[i as int]));
        if clicked[i] {
            v = mapping[i].1;
            changed = true;
            assert(after[i as int]);
            assert forall|k: int| last_clicked(after, k) implies v == mapping@[k].1 by {
                if k < i {
                    assert(after[i as int]);
                }
            }
        } else {
            assert forall|k: int| last_clicked(after, k) implies v == mapping@[k].1 by {
                assert(k != i);
                assert(last_clicked(before, k));
            }
        }
        assert(any_clicked(after) == (changed)) by {
            if any_clicked(before) {
                let k = choose|k: int| 0 <= k < before.len() && before[k];
                assert(after[k]);
            }
            if clicked@[i as int] {
                assert(after[i as int]);
            }
        }
        i = i + 1;
    }
    assert(clicked@.subrange(0, mapping.len() as int) =~= clicked@);
    (v, changed)
}

/// A parameter of a node, as the animator popup knows it: the node and the
/// parameter's name.
#[derive(Clone, Debug)]
pub struct ParamKey {
    pub node: NodeId,
    pub name: String,
}

/// The two keys name the same parameter.
pub open spec fn same_param(a: ParamKey, b: ParamKey) -> bool {
    a.node == b.node && a.name@ == b.name@
}

/// Whether two keys name the same parameter.
pub fn param_key_eq(a: &ParamKey, b: &ParamKey) -> (r: bool)
    ensures
        r == same_param(*a, *b),
{
    a.node == b.node && str_eq(a.name.as_str(), b.name.as_str())
}

/// What the pointer did to a parameter's widget and its popup in one frame.
#[derive(Clone, Copy, Debug)]
pub struct ParamClicks {
    /// The pointer is over the widget and its secondary button was clicked.
    pub secondary_on_param: bool,
    /// The widget was clicked.
    pub param_clicked: bool,
    /// A click landed outside the widget.
    pub param_clicked_elsewhere: bool,
    /// A click landed outside the popup.
    pub popup_clicked_elsewhere: bool,
    /// The widget changed the parameter's value.
    pub changed: bool,
}

/// Which parameter's popup is open after a frame, and whether the popup of
/// `key` was shown in it. A secondary click on the widget opens its popup; an
/// open popup is shown, and closes on a click on the widget or on a click
/// outside both; a change of the value closes any popup.
pub fn popup_owner_after(owner: Option<ParamKey>, key: &ParamKey, clicks: ParamClicks) -> (r: (Option<ParamKey>, bool))
    ensures
        ({
            let opened = if clicks.secondary_on_param { Some(*key) } else { owner };
            let shown = opened matches Some(k) && same_param(k, *key);
            let closed = shown && ((clicks.popup_clicked_elsewhere && clicks.param_clicked_elsewhere)
                || clicks.param_clicked);
            &&& r.1 == shown
            &&& (clicks.changed || closed) ==> r.0 is None
            &&& !(clicks.changed || closed) ==> match (r.0, opened) {
                (Some(a), Some(b)) => same_param(a, b),
                (None, None) => true,
                _ => false,
            }
        }),
{
    let opened = if clicks.secondary_on_param {
        Some(ParamKey { node: key.node, name: key.name.clone() })
    } else {
        owner
    };
    let shown = match &opened {
        Some(k) => param_key_eq(k, key),
        None => false,
    };
    let mut result = opened;
    if shown && ((clicks.popup_clicked_elsewhere && clicks.param_clicked_elsewhere) || clicks.param_clicked) {
        result = None;
    }
    if clicks.changed {
        result = None;
    }
    (result, shown)
}

} // verus!
