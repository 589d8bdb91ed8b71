//! Source groups and the parsing of a configuration token into one.
//!
//! A source group is an ordered, non-empty list of alternative sources for
//! the same metric: earlier alternatives are preferred, later ones are
//! fallbacks.  A group is written in the configuration as a single token,
//! its alternatives separated by commas; surrounding whitespace of the token
//! is ignored.

use vstd::prelude::*;

verus! {

/// The whitespace characters stripped from the ends of a configuration token.
pub open spec fn is_space(c: char) -> bool {
    c == ' ' || c == '\t' || c == '\n' || c == '\r'
}

/// `s` without its leading whitespace.
pub open spec fn trim_front(s: Seq<char>) -> Seq<char>
    decreases s.len(),
{
    if s.len() > 0 && is_space(s[0]) {
        trim_front(s.drop_first())
    } else {
        s
    }
}

/// `s` without its trailing whitespace.
pub open spec fn trim_back(s: Seq<char>) -> Seq<char>
    decreases s.len(),
{
    if s.len() > 0 && is_space(s.last()) {
        trim_back(s.drop_last())
    } else {
        s
    }
}

/// `s` without leading and trailing whitespace.
pub open spec fn spec_trim(s: Seq<char>) -> Seq<char> {
    trim_back(trim_front(s))
}

/// `s` split on every comma.  Splitting the empty string gives one empty
/// piece, so the result always holds at least one piece.
pub open spec fn split_commas(s: Seq<char>) -> Seq<Seq<char>>
    decreases s.len(),
{
    if s.len() == 0 {
        seq![Seq::<char>::empty()]
    } else if s.last() == ',' {
        split_commas(s.drop_last()).push(Seq::<char>::empty())
    } else {
        let r = split_commas(s.drop_last());
        r.update(r.len() - 1, r.last().push(s.last()))
    }
}

/// The views of a sequence of owned strings.
pub open spec fn views_of_strings(v: Seq<String>) -> Seq<Seq<char>> {
    v.map(|i: int, a: String| a@)
}

proof fn lemma_views_push(v: Seq<String>, x: String)
    ensures
        views_of_strings(v.push(x)) == views_of_strings(v).push(x@),
{
    assert(views_of_strings(v.push(x)) =~= views_of_strings(v).push(x@));
}

fn is_space_char(c: char) -> (r: bool)
    ensures
        r == is_space(c),
{
    c == ' ' || c == '\t' || c == '\n' || c == '\r'
}

/// Strips leading and trailing whitespace from a configuration token.
pub fn trim<'a>(s: &'a str) -> (r: &'a str)
    ensures
        r@ == spec_trim(s@),
{
    let n: usize = s.unicode_len();
    let mut a: usize = 0;
    proof {
        assert(s@.skip(0) =~= s@);
    }
    while a < n && is_space_char(s.get_char(a))
        invariant
            a <= n,
            n == s@.len(),
            trim_front(s@) == trim_front(s@.skip(a as int)),
        decreases n - a,
    {
        proof {
            assert(s@.skip(a as int)[0] == s@[a as int]);
            assert(s@.skip(a as int).drop_first() =~= s@.skip(a as int + 1));
        }
        a = a + 1;
    }
    proof {
        if a < n {
            assert(s@.skip(a as int)[0] == s@[a as int]);
        } else {
            assert(s@.skip(a as int) =~= Seq::<char>::empty());
        }
        assert(trim_front(s@) == s@.skip(a as int));
        assert(s@.skip(a as int) =~= s@.subrange(a as int, n as int));
    }
    let mut b: usize = n;
    while b > a && is_space_char(s.get_char(b - 1))
        invariant
            a <= b <= n,
            n == s@.len(),
            trim_front(s@) == s@.skip(a as int),
            trim_back(s@.skip(a as int)) == trim_back(s@.subrange(a as int, b as int)),
        decreases b,
    {
        proof {
            assert(s@.subrange(a as int, b as int).last() == s@[b as int - 1]);
            assert(s@.subrange(a as int, b as int).drop_last() =~= s@.subrange(
                a as int,
                b as int - 1,
            ));
        }
        b = b - 1;
    }
    proof {
        if b > a {
            assert(s@.subrange(a as int, b as int).last() == s@[b as int - 1]);
        } else {
            assert(s@.subrange(a as int, b as int) =~= Seq::<char>::empty());
        }
        assert(trim_back(s@.subrange(a as int, b as int)) == s@.subrange(a as int, b as int));
    }
    s.substring_char(a, b)
}

/// Splits a trimmed token into its comma-separated pieces.
pub fn split_on_commas(s: &str) -> (r: Vec<String>)
    ensures
        views_of_strings(r@) == split_commas(s@),
        r@.len() >= 1,
{
    let n: usize = s.unicode_len();
    let mut done: Vec<String> = Vec::new();
    let mut cur: String = String::new();
    let mut i: usize = 0;
    while i < n
        invariant
            i <= n,
            n == s@.len(),
            split_commas(s@.take(i as int)) == views_of_strings(done@).push(cur@),
        decreases n - i,
    {
        let c = s.get_char(i);
        proof {
            assert(s@.take(i as int + 1).drop_last() =~= s@.take(i as int));
            assert(s@.take(i as int + 1).last() == s@[i as int]);
        }
        if c == ',' {
            let ghost old_done = done@;
            let ghost old_cur = cur@;
            done.push(cur);
            cur = String::new();
            proof {
                lemma_views_push(old_done, done@.last());
                assert(views_of_strings(done@) == views_of_strings(old_done).push(old_cur));
            }
        } else {
            let ghost old_cur = cur@;
            let piece = s.substring_char(i, i + 1);
            cur.append(piece);
            proof {
                let r = views_of_strings(done@).push(old_cur);
                assert(cur@ =~= old_cur.push(s@[i as int]));
                assert(r.update(r.len() - 1, r.last().push(s@[i as int])) =~= views_of_strings(
                    done@,
                ).push(cur@));
            }
        }
        i = i + 1;
    }
    proof {
        assert(s@.take(n as int) =~= s@);
    }
    let ghost old_done = done@;
    done.push(cur);
    proof {
        lemma_views_push(old_done, done@.last());
    }
    done
}

/// An ordered, non-empty list of alternative sources for one metric.
#[derive(Clone)]
pub struct SourceGroup {
    alternatives: Vec<String>,
}

impl View for SourceGroup {
    type V = Seq<Seq<char>>;

    closed spec fn view(&self) -> Seq<Seq<char>> {
        views_of_strings(self.alternatives@)
    }
}

impl SourceGroup {
    /// A group always holds at least one alternative.
    pub open spec fn wf(self) -> bool {
        self@.len() >= 1
    }

    /// Parses one configuration token: the token is trimmed, then split on
    /// commas into the ordered list of alternatives.
    pub fn parse(token: &str) -> (r: SourceGroup)
        ensures
            r@ == split_commas(spec_trim(token@)),
            r.wf(),
    {
        let trimmed = trim(token);
        let alternatives = split_on_commas(trimmed);
        SourceGroup { alternatives }
    }

    /// Builds a group directly from a non-empty list of alternatives.
    pub fn from_alternatives(alternatives: Vec<String>) -> (r: SourceGroup)
        requires
            alternatives@.len() >= 1,
        ensures
            r@ == views_of_strings(alternatives@),
            r.wf(),
    {
        SourceGroup { alternatives }
    }

    /// The number of alternatives.
    pub fn len(&self) -> (r: usize)
        ensures
            r == self@.len(),
    {
        self.alternatives.len()
    }

    /// The `i`-th alternative, in fallback order.
    pub fn alternative(&self, i: usize) -> (r: &String)
        requires
            i < self@.len(),
        ensures
            r@ == self@[i as int],
    {
        &self.alternatives[i]
    }
}

} // verus!
