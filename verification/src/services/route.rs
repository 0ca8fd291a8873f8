//! Paths with a name from outside in them.

use vstd::prelude::*;
use vstd::string::StringExecFns;
use crate::percent::{escape, lemma_escape_is_injective, push_escaped, Place};

verus! {

/// The path `prefix`, the escaped `name` as one segment, `suffix`.
pub fn route(prefix: &str, name: &str, suffix: &str) -> (path: String)
    ensures
        path@ == prefix@ + escape(Place::Segment, name@) + suffix@,
{
    let mut path = String::from_str(prefix);
    push_escaped(&mut path, Place::Segment, name);
    path.append(suffix);
    path
}

/// Two paths that differ in nothing but the name in them are the same path
/// only where the names are the same: a path names one resource.
pub proof fn lemma_route_tells_names_apart(
    prefix: Seq<char>,
    a: Seq<char>,
    b: Seq<char>,
    suffix: Seq<char>,
)
    requires
        prefix + escape(Place::Segment, a) + suffix == prefix + escape(Place::Segment, b) + suffix,
    ensures
        a == b,
{
    let x = escape(Place::Segment, a);
    let y = escape(Place::Segment, b);
    let left = prefix + x + suffix;
    let right = prefix + y + suffix;
    assert(left.len() == right.len());
    assert(x =~= left.subrange(prefix.len() as int, (prefix.len() + x.len()) as int));
    assert(y =~= right.subrange(prefix.len() as int, (prefix.len() + y.len()) as int));
    lemma_escape_is_injective(Place::Segment, a, b);
}

} // verus!
