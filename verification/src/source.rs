//! Classification of configured source strings by their scheme prefix.
//!
//! A source is a single fetchable location.  Its scheme prefix decides the
//! fetch strategy: `http://` and `https://` name remote endpoints, `file://`
//! names a local file.  Anything else is an unrecognized scheme and is treated
//! as a permanently failing source.

use vstd::prelude::*;

verus! {

/// How a configured source string is to be fetched, decided by its prefix.
#[derive(Clone, Copy, PartialEq, Eq, Structural, Debug)]
pub enum Scheme {
    Http,
    Https,
    File,
    Invalid,
}

/// `p` is a prefix of `s`.
pub open spec fn is_prefix(p: Seq<char>, s: Seq<char>) -> bool {
    p.len() <= s.len() && s.subrange(0, p.len() as int) == p
}

/// The scheme of a source string.  The three recognized prefixes are mutually
/// exclusive, so the order of the tests does not matter.
pub open spec fn spec_scheme(s: Seq<char>) -> Scheme {
    if is_prefix("http://"@, s) {
        Scheme::Http
    } else if is_prefix("https://"@, s) {
        Scheme::Https
    } else if is_prefix("file://"@, s) {
        Scheme::File
    } else {
        Scheme::Invalid
    }
}

/// Whether `s` starts with `p`, character by character.
pub fn starts_with(s: &str, p: &str) -> (r: bool)
    ensures
        r == is_prefix(p@, s@),
{
    let pl: usize = p.unicode_len();
    let sl: usize = s.unicode_len();
    if pl > sl {
        return false;
    }
    let mut i: usize = 0;
    while i < pl
        invariant
            i <= pl,
            pl <= sl,
            pl == p@.len(),
            sl == s@.len(),
            forall|j: int| 0 <= j < i ==> s@[j] == p@[j],
        decreases pl - i,
    {
        if s.get_char(i) != p.get_char(i) {
            proof {
                if is_prefix(p@, s@) {
                    assert(s@.subrange(0, p@.len() as int)[i as int] == s@[i as int]);
                }
            }
            return false;
        }
        i = i + 1;
    }
    proof {
        assert(s@.subrange(0, p@.len() as int) =~= p@);
    }
    true
}

/// Classifies a source string by its scheme prefix.
pub fn classify(s: &str) -> (r: Scheme)
    ensures
        r == spec_scheme(s@),
{
    if starts_with(s, "http://") {
        Scheme::Http
    } else if starts_with(s, "https://") {
        Scheme::Https
    } else if starts_with(s, "file://") {
        Scheme::File
    } else {
        Scheme::Invalid
    }
}

/// The filesystem path carried by a `file://` source: everything after the
/// seven characters of the scheme prefix.
pub fn file_path<'a>(s: &'a str) -> (r: &'a str)
    requires
        spec_scheme(s@) == Scheme::File,
    ensures
        r@ == s@.subrange(7, s@.len() as int),
{
    proof {
        reveal_strlit("file://");
    }
    let n: usize = s.unicode_len();
    s.substring_char(7, n)
}

} // verus!
