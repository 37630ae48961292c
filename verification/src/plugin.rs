//! Naming of the parameters a graph exposes to a host application.
use vstd::prelude::*;
use vstd::string::StrSliceExecFns;
use vstd::string::StringExecFns;

verus! {

/// The name of a parameter shown by the host: the first three characters of
/// the node's name, a dot, and the input's name.
pub open spec fn param_name_spec(node_name: Seq<char>, input_name: Seq<char>) -> Seq<char> {
    let prefix = if node_name.len() < 3 { node_name } else { node_name.subrange(0, 3) };
    prefix + "."@ + input_name
}

/// The name of a parameter shown by the host (see `param_name_spec`).
pub fn param_name(node_name: &str, input_name: &str) -> (r: String)
    ensures
        r@ == param_name_spec(node_name@, input_name@),
{
    let n = node_name.unicode_len();
    let take = if n < 3 { n } else { 3 };
    let mut r = String::from_str(node_name.substring_char(0, take));
    r.append(".");
    r.append(input_name);
    assert(n < 3 ==> node_name@.subrange(0, n as int) =~= node_name@);
    r
}

} // verus!
