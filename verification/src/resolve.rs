//! Ordered-fallback resolution of one source group.
//!
//! Within a group, alternatives are attempted strictly in order and the first
//! success ends the walk; the fetches themselves happen outside the library.
//! A `GroupResolver` drives the walk: the caller asks for the pending
//! alternative, fetches it, and records the outcome, until nothing is
//! pending; the resolver guarantees that the final result is the first
//! successful outcome and that no alternative after a success is ever handed
//! out.

use crate::group::SourceGroup;
use crate::outcome::FetchOutcome;
use vstd::prelude::*;

verus! {

/// The body of the first successful outcome, if any.
pub open spec fn first_success(bodies: Seq<Option<Seq<char>>>) -> Option<Seq<char>>
    decreases bodies.len(),
{
    if bodies.len() == 0 {
        None
    } else if bodies[0] is Some {
        bodies[0]
    } else {
        first_success(bodies.drop_first())
    }
}

/// A walk in which every outcome failed resolves to nothing.
pub proof fn lemma_first_success_all_none(bodies: Seq<Option<Seq<char>>>)
    requires
        forall|i: int| 0 <= i < bodies.len() ==> bodies[i] is None,
    ensures
        first_success(bodies) is None,
    decreases bodies.len(),
{
    if bodies.len() > 0 {
        assert forall|i: int| 0 <= i < bodies.drop_first().len() implies bodies.drop_first()[i]
            is None by {
            assert(bodies.drop_first()[i] == bodies[i + 1]);
        }
        lemma_first_success_all_none(bodies.drop_first());
    }
}

/// A walk whose only success is its last outcome resolves to that success.
pub proof fn lemma_first_success_at_end(bodies: Seq<Option<Seq<char>>>, b: Seq<char>)
    requires
        bodies.len() > 0,
        forall|i: int| 0 <= i < bodies.len() - 1 ==> bodies[i] is None,
        bodies.last() == Some(b),
    ensures
        first_success(bodies) == Some(b),
    decreases bodies.len(),
{
    if bodies.len() == 1 {
        assert(bodies[0] == Some(b));
    } else {
        assert(bodies[0] is None);
        assert forall|i: int| 0 <= i < bodies.drop_first().len() - 1 implies bodies.drop_first()[i]
            is None by {
            assert(bodies.drop_first()[i] == bodies[i + 1]);
        }
        assert(bodies.drop_first().last() == bodies.last());
        lemma_first_success_at_end(bodies.drop_first(), b);
    }
}

/// When a group's first alternative fails and its second succeeds with body
/// `b`, the group resolves to exactly `b`, whatever any later alternatives
/// would have returned.
pub proof fn lemma_second_alternative_wins(bodies: Seq<Option<Seq<char>>>, b: Seq<char>)
    requires
        bodies.len() >= 2,
        bodies[0] is None,
        bodies[1] == Some(b),
    ensures
        first_success(bodies) == Some(b),
{
    assert(bodies.drop_first()[0] == bodies[1]);
    assert(first_success(bodies) == first_success(bodies.drop_first()));
    assert(first_success(bodies.drop_first()) == Some(b));
}

/// Drives the ordered-fallback walk over one group's alternatives.
pub struct GroupResolver {
    group: SourceGroup,
    next: usize,
    found: Option<String>,
    history: Ghost<Seq<Option<Seq<char>>>>,
}

impl GroupResolver {
    /// The alternatives of the group being resolved, in fallback order.
    pub closed spec fn alternatives(self) -> Seq<Seq<char>> {
        self.group@
    }

    /// The outcomes recorded so far, one per attempted alternative, in order.
    pub closed spec fn history(self) -> Seq<Option<Seq<char>>> {
        self.history@
    }

    /// The body the group has resolved to, if an alternative has succeeded.
    pub closed spec fn resolved(self) -> Option<Seq<char>> {
        match self.found {
            Some(s) => Some(s@),
            None => None,
        }
    }

    /// No further alternative will be attempted: one has succeeded, or all
    /// are exhausted.
    pub closed spec fn done(self) -> bool {
        self.found is Some || self.next == self.group@.len()
    }

    pub closed spec fn wf(self) -> bool {
        &&& self.group.wf()
        &&& self.next <= self.group@.len()
        &&& self.history@.len() == self.next
        &&& match self.found {
            None => forall|i: int| 0 <= i < self.history@.len() ==> self.history@[i] is None,
            Some(s) => {
                &&& s@.len() > 0
                &&& self.next > 0
                &&& self.history@.last() == Some(s@)
                &&& forall|i: int| 0 <= i < self.history@.len() - 1 ==> self.history@[i] is None
            },
        }
    }

    /// Begins the walk over a group, nothing attempted yet.
    pub fn start(group: SourceGroup) -> (r: GroupResolver)
        requires
            group.wf(),
        ensures
            r.wf(),
            r.alternatives() == group@,
            r.history() == Seq::<Option<Seq<char>>>::empty(),
            !r.done(),
    {
        GroupResolver { group, next: 0, found: None, history: Ghost(Seq::empty()) }
    }

    /// The next alternative to attempt; nothing once the group is resolved
    /// or exhausted.
    pub fn pending(&self) -> (r: Option<&String>)
        requires
            self.wf(),
        ensures
            (r is Some) == !self.done(),
            r matches Some(s) ==> s@ == self.alternatives()[self.history().len() as int],
    {
        if self.found.is_some() {
            None
        } else if self.next < self.group.len() {
            Some(self.group.alternative(self.next))
        } else {
            None
        }
    }

    /// Records the outcome of the pending alternative.  A success resolves
    /// the group at once; a failure moves the walk to the next alternative.
    pub fn record(&mut self, outcome: FetchOutcome)
        requires
            old(self).wf(),
            !old(self).done(),
            outcome.wf(),
        ensures
            final(self).wf(),
            final(self).alternatives() == old(self).alternatives(),
            final(self).history() == old(self).history().push(outcome@),
            final(self).resolved() == first_success(final(self).history()),
            outcome@ is Some ==> final(self).resolved() == outcome@,
            outcome@ is None ==> final(self).resolved() is None,
            final(self).done() == (final(self).resolved() is Some || final(self).history().len()
                == final(self).alternatives().len()),
    {
        self.history = Ghost(self.history@.push(outcome@));
        // The group length is a usize, so the undone walk bounds the step
        // below away from overflow.
        let bound: usize = self.group.len();
        proof {
            assert(self.next < bound);
        }
        self.next = self.next + 1;
        match outcome {
            FetchOutcome::Success(s) => {
                self.found = Some(s);
            },
            FetchOutcome::Empty => {},
        }
        proof {
            assert forall|i: int| 0 <= i < self.history@.len() - 1 implies self.history@[i]
                is None by {
                assert(self.history@[i] == old(self).history()[i]);
            }
            match &self.found {
                Some(s) => lemma_first_success_at_end(self.history@, s@),
                None => lemma_first_success_all_none(self.history@),
            }
        }
    }

    /// The group's final outcome: the first success of the walk, or the
    /// empty outcome when every alternative failed.
    pub fn result(&self) -> (r: FetchOutcome)
        requires
            self.wf(),
            self.done(),
        ensures
            r@ == self.resolved(),
            r@ == first_success(self.history()),
            r.wf(),
    {
        proof {
            match &self.found {
                Some(s) => lemma_first_success_at_end(self.history@, s@),
                None => lemma_first_success_all_none(self.history@),
            }
        }
        match &self.found {
            Some(s) => FetchOutcome::Success(s.clone()),
            None => FetchOutcome::Empty,
        }
    }
}

} // verus!
