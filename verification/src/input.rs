//! Editing a line of text at a position that is counted in characters.
use vstd::prelude::*;

verus! {

/// Inserts a character before the one at `at`, or at the end.
pub fn insert_char(s: &mut String, at: usize, c: char)
    requires
        at <= old(s)@.len(),
    ensures
        final(s)@ == old(s)@.insert(at as int, c),
{
    let n: usize = s.as_str().unicode_len();
    let mut res = s.as_str().substring_char(0, at).to_owned();
    res.push(c);
    res.append(s.as_str().substring_char(at, n));
    assert(res@ =~= s@.insert(at as int, c));
    *s = res;
}

/// Removes the character at `at`.
pub fn remove_char(s: &mut String, at: usize)
    requires
        at < old(s)@.len(),
    ensures
        final(s)@ == old(s)@.remove(at as int),
{
    let n: usize = s.as_str().unicode_len();
    let mut res = s.as_str().substring_char(0, at).to_owned();
    res.append(s.as_str().substring_char(at + 1, n));
    assert(res@ =~= s@.remove(at as int));
    *s = res;
}

} // verus!
