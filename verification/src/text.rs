//! Prefix and substring tests on strings, stated over their characters.

use vstd::prelude::*;
use vstd::std_specs::iter::IteratorSpec;
use vstd::string::*;

verus! {

/// `needle` stands in `hay` at position `at`.
pub open spec fn occurs_at(hay: Seq<char>, needle: Seq<char>, at: int) -> bool {
    &&& 0 <= at
    &&& at + needle.len() <= hay.len()
    &&& hay.subrange(at, at + needle.len()) == needle
}

/// `hay` begins with `prefix`.
pub open spec fn has_prefix(hay: Seq<char>, prefix: Seq<char>) -> bool {
    occurs_at(hay, prefix, 0)
}

/// `needle` stands somewhere in `hay`.
pub open spec fn has_substring(hay: Seq<char>, needle: Seq<char>) -> bool {
    exists|at: int| occurs_at(hay, needle, at)
}

/// The characters of `s`, in order.
pub fn chars_of(s: &str) -> (out: Vec<char>)
    ensures
        out@ == s@,
{
    let mut out: Vec<char> = Vec::new();
    for c in it: s.chars()
        invariant
            out@ == it.seq().take(it.index() as int),
            it.seq() == s@,
    {
        out.push(c);
    }
    out
}

/// Whether `s` begins with `prefix`. Reads no more of `s` than `prefix` is long.
pub fn starts_with(s: &str, prefix: &str) -> (found: bool)
    ensures
        found == has_prefix(s@, prefix@),
{
    let mut rest = s.chars();
    let mut want = prefix.chars();
    let ghost mut n: int = 0;
    loop
        invariant
            0 <= n <= prefix@.len(),
            n <= s@.len(),
            want.remaining() == prefix@.skip(n),
            rest.remaining() == s@.skip(n),
            s@.take(n) == prefix@.take(n),
        decreases prefix@.len() - n,
    {
        match want.next() {
            None => {
                assert(prefix@.take(n) == prefix@);
                assert(s@.take(n) == s@.subrange(0, n));
                return true;
            },
            Some(w) => {
                match rest.next() {
                    None => {
                        return false;
                    },
                    Some(c) => {
                        if c != w {
                            assert(!has_prefix(s@, prefix@)) by {
                                if prefix@.len() <= s@.len() {
                                    assert(s@.subrange(0, prefix@.len() as int)[n] == s@[n]);
                                }
                            }
                            return false;
                        }
                    },
                }
            },
        }
        proof {
            assert(s@.take(n + 1) == s@.take(n).push(s@[n]));
            assert(prefix@.take(n + 1) == prefix@.take(n).push(prefix@[n]));
            n = n + 1;
        }
    }
}

/// Whether `needle` stands in `hay` at `at`.
fn matches_at(hay: &Vec<char>, needle: &Vec<char>, at: usize) -> (same: bool)
    requires
        at + needle.len() <= hay.len(),
    ensures
        same == occurs_at(hay@, needle@, at as int),
{
    let mut k: usize = 0;
    while k < needle.len()
        invariant
            at + needle.len() <= hay.len(),
            k <= needle.len(),
            hay@.subrange(at as int, at + k) == needle@.take(k as int),
        decreases needle.len() - k,
    {
        if hay[at + k] != needle[k] {
            assert(hay@.subrange(at as int, at + needle.len())[k as int] == hay@[at + k]);
            return false;
        }
        proof {
            assert(hay@.subrange(at as int, at + k + 1) == hay@.subrange(at as int, at + k).push(
                hay@[at + k],
            ));
            assert(needle@.take(k + 1) == needle@.take(k as int).push(needle@[k as int]));
        }
        k = k + 1;
    }
    assert(needle@.take(k as int) == needle@);
    true
}

/// Whether `needle` stands somewhere in `hay`. The empty string stands in every string.
pub fn contains(hay: &str, needle: &str) -> (found: bool)
    ensures
        found == has_substring(hay@, needle@),
{
    let hay_chars = chars_of(hay);
    let needle_chars = chars_of(needle);
    if needle_chars.len() > hay_chars.len() {
        return false;
    }
    let last: usize = hay_chars.len() - needle_chars.len();
    let mut at: usize = 0;
    while at < last
        invariant
            hay_chars@ == hay@,
            needle_chars@ == needle@,
            last == hay@.len() - needle@.len(),
            at <= last,
            forall|k: int| 0 <= k < at ==> !occurs_at(hay@, needle@, k),
        decreases last - at,
    {
        if matches_at(&hay_chars, &needle_chars, at) {
            return true;
        }
        at = at + 1;
    }
    matches_at(&hay_chars, &needle_chars, last)
}

} // verus!
