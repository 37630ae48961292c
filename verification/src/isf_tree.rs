//! The tree of ISF shader files offered when adding a node, and its filter.
use vstd::prelude::*;

use crate::isf::{isf_input_at, isf_input_count, isf_inputs, IsfInfo, IsfInputKind};
use crate::strings::{contains_seq, lowercase, str_contains, to_lowercase};

verus! {

/// An entry of the tree: a file or folder, its name, whether the filter shows
/// it, and the shader it holds where it is one.
#[derive(Debug)]
pub struct TreeItem {
    pub name: String,
    pub path: std::path::PathBuf,
    pub visible: bool,
    pub isf: Option<IsfInfo>,
}

impl TreeItem {
    /// An entry for the file or folder at `path`, named `name`, holding the
    /// shader read from it where it is one; shown until filtered.
    pub fn new(name: String, path: std::path::PathBuf, isf: Option<IsfInfo>) -> (r: Self)
        ensures
            r.name == name,
            r.path == path,
            r.visible,
            r.isf == isf,
    {
        TreeItem { name, path, visible: true, isf }
    }
}

/// Whether a shader has an image input.
pub open spec fn has_image_input(info: IsfInfo) -> bool {
    exists|i: int| 0 <= i < isf_inputs(info.def).len() && (#[trigger] isf_inputs(info.def)[i]).1 == IsfInputKind::Image
}

/// Whether a shader has an image input.
pub fn isf_has_image_input(info: &IsfInfo) -> (b: bool)
    ensures
        b == has_image_input(*info),
{
    let n = isf_input_count(&info.def);
    let mut i: usize = 0;
    while i < n
        invariant
            n == isf_inputs(info.def).len(),
            0 <= i <= n,
            forall|k: int| 0 <= k < i ==> (#[trigger] isf_inputs(info.def)[k]).1 != IsfInputKind::Image,
        decreases n - i,
    {
        let (_, kind) = isf_input_at(&info.def, i);
        if kind == IsfInputKind::Image {
            return true;
        }
        i = i + 1;
    }
    false
}

/// The filter of the tree: a search text, and whether to keep only shaders
/// with an image input, or only those without.
#[derive(Debug)]
pub struct FilterState {
    pub image_inputs: bool,
    pub no_image_inputs: bool,
    pub text: String,
}

/// Whether the filter shows an entry: it holds a shader, its name contains the
/// search text (case aside) or the text is empty, and the shader has an image
/// input if those are asked for, and none if those are.
pub open spec fn tree_filter_passes(
    image_inputs: bool,
    no_image_inputs: bool,
    text: Seq<char>,
    item: TreeItem,
) -> bool {
    let text_pass = text.len() == 0 || contains_seq(lowercase(item.name@), lowercase(text));
    match item.isf {
        Some(info) => {
            let has_inputs = has_image_input(info);
            text_pass && (!image_inputs || has_inputs) && (!no_image_inputs || !has_inputs)
        },
        None => false,
    }
}

/// Law of the tree: the filter it starts with shows exactly the entries that
/// hold a shader.
pub proof fn law_default_filter_shows_shaders(item: TreeItem)
    ensures
        tree_filter_passes(false, false, Seq::empty(), item) <==> item.isf is Some,
{
}

impl FilterState {
    /// An empty search that shows every shader.
    pub fn default() -> (r: Self)
        ensures
            !r.image_inputs,
            !r.no_image_inputs,
            r.text@.len() == 0,
    {
        FilterState { image_inputs: false, no_image_inputs: false, text: String::new() }
    }

    /// Whether the filter shows an entry (see `tree_filter_passes`).
    pub fn filter_item(&self, item: &TreeItem) -> (b: bool)
        ensures
            b == tree_filter_passes(self.image_inputs, self.no_image_inputs, self.text@, *item),
    {
        let text_pass = self.text.as_str().is_empty() || {
            let name = to_lowercase(item.name.as_str());
            let text = to_lowercase(self.text.as_str());
            str_contains(name.as_str(), text.as_str())
        };
        let isf_pass = match &item.isf {
            Some(isf) => {
                let has_inputs = isf_has_image_input(isf);
                (!self.image_inputs || has_inputs) && (!self.no_image_inputs || !has_inputs)
            },
            None => true,
        };
        text_pass && isf_pass && item.isf.is_some()
    }

    /// Shows or hides each entry by the filter.
    pub fn apply(&self, items: &mut Vec<TreeItem>)
        ensures
            final(items)@.len() == old(items)@.len(),
            forall|i: int|
                0 <= i < final(items)@.len() ==> (#[trigger] final(items)@[i]).visible == tree_filter_passes(
                    self.image_inputs,
                    self.no_image_inputs,
                    self.text@,
                    old(items)@[i],
                ) && final(items)@[i].name == old(items)@[i].name && final(items)@[i].path == old(items)@[i].path
                    && final(items)@[i].isf == old(items)@[i].isf,
    {
        let n = items.len();
        let mut i: usize = 0;
        while i < n
            invariant
                n == items@.len(),
                n == old(items)@.len(),
                0 <= i <= n,
                forall|k: int|
                    0 <= k < i ==> (#[trigger] items@[k]).visible == tree_filter_passes(
                        self.image_inputs,
                        self.no_image_inputs,
                        self.text@,
                        old(items)@[k],
                    ) && items@[k].name == old(items)@[k].name && items@[k].path == old(items)@[k].path
                        && items@[k].isf == old(items)@[k].isf,
                forall|k: int| i <= k < n ==> #[trigger] items@[k] == old(items)@[k],
            decreases n - i,
        {
            let visible = self.filter_item(&items[i]);
            items[i].visible = visible;
            i = i + 1;
        }
    }
}

} // verus!
