//! Unique, code-friendly names for the nodes of a graph.
use vstd::prelude::*;
use vstd::string::StringExecFns;

use crate::strings::{decimal, lowercase, replace_spaces, spaces_to_underscores, to_lowercase, usize_to_string};

verus! {

/// A node's display name, its number among nodes of the same name, and the
/// identifier derived from both.
#[derive(Debug, Clone)]
pub struct UniqueNodeName {
    pub name: String,
    pub num: usize,
    pub code_name: String,
}

/// The identifier for `name` and `num`: the name in lower case with spaces
/// turned into underscores, followed by the number unless it is zero.
pub open spec fn code_name_of(name: Seq<char>, num: nat) -> Seq<char> {
    let base = spaces_to_underscores(lowercase(name));
    if 0 < num {
        base + decimal(num)
    } else {
        base
    }
}

impl UniqueNodeName {
    /// Builds the name, deriving its identifier.
    pub fn new(name: String, num: usize) -> (r: Self)
        ensures
            r.name == name,
            r.num == num,
            r.code_name@ == code_name_of(name@, num as nat),
    {
        let lower = to_lowercase(name.as_str());
        let mut code_name = replace_spaces(lower.as_str());
        if 0 < num {
            let digits = usize_to_string(num);
            code_name.append(digits.as_str());
        }
        UniqueNodeName { name, num, code_name }
    }

    /// The identifier, as the name is displayed.
    pub fn to_string(&self) -> (r: String)
        ensures
            r@ == self.code_name@,
    {
        self.code_name.clone()
    }
}

proof fn lemma_decimal_has_no_space(n: nat)
    ensures
        !decimal(n).contains(' '),
    decreases n,
{
    if n >= 10 {
        lemma_decimal_has_no_space(n / 10);
        let d = decimal(n / 10) + seq![crate::strings::digit_char(n % 10)];
        assert(decimal(n) == d);
        assert forall|i: int| 0 <= i < d.len() implies d[i] != ' ' by {
            if i < decimal(n / 10).len() {
                assert(d[i] == decimal(n / 10)[i]);
            }
        }
    } else {
        assert(decimal(n)[0] != ' ');
    }
}

/// Law of node names: the identifier derived for a node never holds a space,
/// whatever its display name and number.
pub proof fn law_code_name_has_no_space(name: Seq<char>, num: nat)
    ensures
        !code_name_of(name, num).contains(' '),
{
    let base = spaces_to_underscores(lowercase(name));
    assert forall|i: int| 0 <= i < base.len() implies base[i] != ' ' by {}
    if 0 < num {
        lemma_decimal_has_no_space(num);
        let full = base + decimal(num);
        assert forall|i: int| 0 <= i < full.len() implies full[i] != ' ' by {
            if i >= base.len() {
                assert(full[i] == decimal(num)[i - base.len()]);
            }
        }
    }
}

} // verus!
