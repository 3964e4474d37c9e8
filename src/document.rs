//! A generic document tree, as a structured-text deserializer yields it.
use vstd::prelude::*;

verus! {

/// One node of a document tree.
#[derive(Debug)]
pub enum Doc {
    Str(String),
    Array(Vec<Doc>),
    /// Key/value pairs in document order.
    Table(Vec<(String, Doc)>),
    /// Any scalar that is not a string (number, boolean, date).
    Other,
}

/// The value stored under `key` in a table's entries: the first pair whose key matches.
pub open spec fn lookup(entries: Seq<(String, Doc)>, key: Seq<char>) -> Option<Doc>
    decreases entries.len(),
{
    if entries.len() == 0 {
        None
    } else if entries[0].0@ == key {
        Some(entries[0].1)
    } else {
        lookup(entries.drop_first(), key)
    }
}

/// Text equality of two strings.
pub fn same_text(a: &str, b: &str) -> (r: bool)
    ensures
        r == (a@ == b@),
{
    String::from_str(a) == String::from_str(b)
}

/// Finds the value stored under `key` in a table's entries.
pub fn get<'a>(entries: &'a Vec<(String, Doc)>, key: &str) -> (r: Option<&'a Doc>)
    ensures
        match r {
            Some(d) => lookup(entries@, key@) == Some(*d),
            None => lookup(entries@, key@) is None,
        },
{
    let n = entries.len();
    let mut i: usize = 0;
    assert(entries@.subrange(0, n as int) =~= entries@);
    while i < n
        invariant
            n == entries@.len(),
            i <= n,
            lookup(entries@, key@) == lookup(entries@.subrange(i as int, n as int), key@),
        decreases n - i,
    {
        let ghost rest = entries@.subrange(i as int, n as int);
        assert(rest.drop_first() =~= entries@.subrange(i + 1, n as int));
        if same_text(entries[i].0.as_str(), key) {
            return Some(&entries[i].1);
        }
        i = i + 1;
    }
    assert(entries@.subrange(n as int, n as int).len() == 0);
    None
}

} // verus!
