//! Assembly of the merged response body.
//!
//! The assembler takes one outcome per group, in configuration order, drops
//! the empty ones, and joins the remaining bodies with a single newline.  A
//! group that failed contributes nothing, not even a blank line, and when
//! every group failed the body is the empty string.

use crate::outcome::FetchOutcome;
use vstd::prelude::*;

verus! {

/// The views of a sequence of outcomes.
pub open spec fn views_of_outcomes(os: Seq<FetchOutcome>) -> Seq<Option<Seq<char>>> {
    os.map(|i: int, o: FetchOutcome| o@)
}

/// Whether any outcome carries a body.
pub open spec fn has_body(os: Seq<Option<Seq<char>>>) -> bool {
    exists|i: int| 0 <= i < os.len() && os[i] is Some
}

/// The merged body: the successful bodies in order, joined by one newline.
pub open spec fn spec_assemble(os: Seq<Option<Seq<char>>>) -> Seq<char>
    decreases os.len(),
{
    if os.len() == 0 {
        Seq::empty()
    } else {
        match os.last() {
            None => spec_assemble(os.drop_last()),
            Some(b) => if has_body(os.drop_last()) {
                spec_assemble(os.drop_last()) + seq!['\n'] + b
            } else {
                b
            },
        }
    }
}

proof fn lemma_has_body_push(os: Seq<Option<Seq<char>>>, o: Option<Seq<char>>)
    ensures
        has_body(os.push(o)) == (has_body(os) || o is Some),
{
    if has_body(os) {
        let i = choose|i: int| 0 <= i < os.len() && os[i] is Some;
        assert(os.push(o)[i] is Some);
    }
    if o is Some {
        assert(os.push(o)[os.len() as int] is Some);
    }
    if has_body(os.push(o)) && o is None {
        let i = choose|i: int| 0 <= i < os.push(o).len() && os.push(o)[i] is Some;
        assert(os[i] is Some);
    }
}

/// Joins the successful outcomes with single newlines, in the given order.
pub fn assemble(outcomes: &Vec<FetchOutcome>) -> (r: String)
    ensures
        r@ == spec_assemble(views_of_outcomes(outcomes@)),
{
    let ghost vs = views_of_outcomes(outcomes@);
    let mut r = String::new();
    let mut any: bool = false;
    let mut i: usize = 0;
    while i < outcomes.len()
        invariant
            i <= outcomes@.len(),
            vs == views_of_outcomes(outcomes@),
            vs.len() == outcomes@.len(),
            any == has_body(vs.take(i as int)),
            r@ == spec_assemble(vs.take(i as int)),
        decreases outcomes@.len() - i,
    {
        proof {
            assert(vs.take(i as int + 1).drop_last() =~= vs.take(i as int));
            assert(vs.take(i as int + 1).last() == vs[i as int]);
            lemma_has_body_push(vs.take(i as int), vs[i as int]);
            assert(vs.take(i as int).push(vs[i as int]) =~= vs.take(i as int + 1));
        }
        match &outcomes[i] {
            FetchOutcome::Success(s) => {
                if any {
                    r.append("\n");
                }
                r.append(s.as_str());
                proof {
                    reveal_strlit("\n");
                    if has_body(vs.take(i as int)) {
                        assert(r@ =~= spec_assemble(vs.take(i as int)) + seq!['\n'] + s@);
                    } else {
                        lemma_assemble_no_body(vs.take(i as int));
                        assert(r@ =~= s@);
                    }
                }
            },
            FetchOutcome::Empty => {},
        }
        any = any || outcomes[i].is_success();
        i = i + 1;
    }
    proof {
        assert(vs.take(vs.len() as int) =~= vs);
    }
    r
}

/// With no successful outcome there is nothing to join: the merged body of
/// an all-failed or empty outcome list is the empty string.  In particular a
/// configuration with zero groups always yields the empty body.
pub proof fn lemma_assemble_no_body(os: Seq<Option<Seq<char>>>)
    requires
        !has_body(os),
    ensures
        spec_assemble(os) == Seq::<char>::empty(),
    decreases os.len(),
{
    if os.len() > 0 {
        assert(os.last() is None) by {
            if os.last() is Some {
                assert(os[os.len() - 1] is Some);
            }
        }
        assert(!has_body(os.drop_last())) by {
            if has_body(os.drop_last()) {
                let i = choose|i: int| 0 <= i < os.drop_last().len() && os.drop_last()[i] is Some;
                assert(os[i] is Some);
            }
        }
        lemma_assemble_no_body(os.drop_last());
    }
}

/// The non-empty bodies of `os`, in order, failures dropped.
pub open spec fn successful_bodies(os: Seq<Option<Seq<char>>>) -> Seq<Seq<char>>
    decreases os.len(),
{
    if os.len() == 0 {
        Seq::empty()
    } else {
        match os.last() {
            None => successful_bodies(os.drop_last()),
            Some(b) => successful_bodies(os.drop_last()).push(b),
        }
    }
}

/// `bodies` joined by a single newline between neighbours.
pub open spec fn spec_join(bodies: Seq<Seq<char>>) -> Seq<char>
    decreases bodies.len(),
{
    if bodies.len() == 0 {
        Seq::empty()
    } else if bodies.len() == 1 {
        bodies[0]
    } else {
        spec_join(bodies.drop_last()) + seq!['\n'] + bodies.last()
    }
}

proof fn lemma_successful_bodies_len(os: Seq<Option<Seq<char>>>)
    ensures
        has_body(os) == (successful_bodies(os).len() > 0),
    decreases os.len(),
{
    if os.len() > 0 {
        lemma_has_body_push(os.drop_last(), os.last());
        assert(os.drop_last().push(os.last()) =~= os);
        lemma_successful_bodies_len(os.drop_last());
    }
}

/// What assembly means, stated the other way round: the merged body is the
/// failed outcomes filtered out, and the remaining bodies, in their original
/// order, joined by single newlines.  A group that failed contributes
/// nothing — in particular no blank line — and concurrency in fetching never
/// reorders the output, which follows configuration order alone.
pub proof fn lemma_assemble_is_filter_then_join(os: Seq<Option<Seq<char>>>)
    ensures
        spec_assemble(os) == spec_join(successful_bodies(os)),
    decreases os.len(),
{
    if os.len() > 0 {
        lemma_assemble_is_filter_then_join(os.drop_last());
        lemma_successful_bodies_len(os.drop_last());
        match os.last() {
            None => {},
            Some(b) => {
                let sb = successful_bodies(os.drop_last());
                if sb.len() > 0 {
                    assert(sb.push(b).drop_last() =~= sb);
                    assert(sb.push(b).last() == b);
                } else {
                    assert(sb.push(b).len() == 1);
                    assert(sb.push(b)[0] == b);
                }
            },
        }
    }
}

/// Output order, and no blank line for a failed group: when of three groups
/// in configuration order the first succeeds with body `a`, the second fails
/// entirely and the third succeeds with body `c`, the merged body is exactly
/// `a`, one newline, `c`.
pub proof fn lemma_failed_group_leaves_no_gap(a: Seq<char>, c: Seq<char>)
    requires
        a.len() > 0,
        c.len() > 0,
    ensures
        spec_assemble(seq![Some(a), None, Some(c)]) == a + seq!['\n'] + c,
{
    let os = seq![Some(a), None::<Seq<char>>, Some(c)];
    assert(os.drop_last() =~= seq![Some(a), None::<Seq<char>>]);
    assert(os.drop_last().drop_last() =~= seq![Some(a)]);
    assert(os.drop_last().drop_last().drop_last() =~= Seq::<Option<Seq<char>>>::empty());
    assert(has_body(os.drop_last())) by {
        assert(os.drop_last()[0] is Some);
    }
    assert(!has_body(os.drop_last().drop_last().drop_last()));
    assert(spec_assemble(seq![Some(a)]) == a);
    assert(os.drop_last().last() is None);
    assert(spec_assemble(os.drop_last()) == a);
}

/// Repeating a request changes nothing: the merged body is a function of
/// the per-group outcomes alone, so identical outcomes from unchanged
/// upstream sources give an identical body, however many times they are
/// fetched and merged.
pub proof fn lemma_merge_is_deterministic(os1: Seq<Option<Seq<char>>>, os2: Seq<Option<Seq<char>>>)
    requires
        os1 == os2,
    ensures
        spec_assemble(os1) == spec_assemble(os2),
{
}

} // verus!
