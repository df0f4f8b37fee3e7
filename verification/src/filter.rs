//! The module filter: allow and deny lists of path prefixes.

use crate::text::starts_with;
use vstd::prelude::*;

verus! {

/// The texts that a list of strings holds, in order.
pub open spec fn texts(entries: Seq<String>) -> Seq<Seq<char>> {
    Seq::new(entries.len(), |i: int| entries[i]@)
}

/// Some entry of the list is a prefix of the path. The match is on
/// characters, not on path segments: `"a"` is a prefix of `"ab"`.
pub open spec fn any_prefix(path: Seq<char>, entries: Seq<Seq<char>>) -> bool {
    exists|i: int| 0 <= i < entries.len() && (#[trigger] entries[i]).is_prefix_of(path)
}

/// The filter's verdict. An empty allow list admits every path, any other
/// admits the paths that begin with one of its entries; an admitted path is
/// still rejected where it begins with an entry of the deny list.
pub open spec fn filter_admits(
    path: Seq<char>,
    allow: Seq<Seq<char>>,
    deny: Seq<Seq<char>>,
) -> bool {
    (allow.len() == 0 || any_prefix(path, allow)) && !any_prefix(path, deny)
}

/// Whether the path begins with one of the entries.
pub fn starts_with_any(path: &str, entries: &[String]) -> (r: bool)
    ensures
        r == any_prefix(path@, texts(entries@)),
{
    let mut i: usize = 0;
    while i < entries.len()
        invariant
            i <= entries.len(),
            forall|k: int| 0 <= k < i ==> !(#[trigger] texts(entries@)[k]).is_prefix_of(path@),
        decreases entries.len() - i,
    {
        if starts_with(path, entries[i].as_str()) {
            assert(texts(entries@)[i as int].is_prefix_of(path@));
            return true;
        }
        i += 1;
    }
    false
}

/// Whether a message from the module at `path` is to be emitted under the given
/// allow and deny lists.
pub fn matches_module_filter(path: &str, allow: &[String], deny: &[String]) -> (r: bool)
    ensures
        r == filter_admits(path@, texts(allow@), texts(deny@)),
{
    let allowed = allow.len() == 0 || starts_with_any(path, allow);
    if !allowed {
        return false;
    }
    !starts_with_any(path, deny)
}

/// With an empty allow list the filter admits exactly the paths that begin
/// with no entry of the deny list.
pub proof fn lemma_empty_allow(path: Seq<char>, deny: Seq<Seq<char>>)
    ensures
        filter_admits(path, Seq::empty(), deny) == !any_prefix(path, deny),
{
}

/// With an empty deny list and an allow list that is not empty, the filter
/// admits exactly the paths that begin with some entry of the allow list.
pub proof fn lemma_empty_deny(path: Seq<char>, allow: Seq<Seq<char>>)
    requires
        allow.len() > 0,
    ensures
        filter_admits(path, allow, Seq::empty()) == any_prefix(path, allow),
{
}

/// Deny wins: a path that begins with an entry of the deny list is rejected
/// whatever the allow list holds.
pub proof fn lemma_deny_overrides(path: Seq<char>, allow: Seq<Seq<char>>, deny: Seq<Seq<char>>)
    requires
        any_prefix(path, deny),
    ensures
        !filter_admits(path, allow, deny),
{
}

} // verus!
