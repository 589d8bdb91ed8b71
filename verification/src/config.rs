//! The immutable configuration of the merge endpoint.
//!
//! A configuration is an ordered list of source groups together with the
//! per-fetch timeout, in seconds.  It is built once at startup, before the
//! first request, and never changes afterwards; every request resolves the
//! same groups in the same order.

use crate::group::SourceGroup;
use crate::group::spec_trim;
use crate::group::split_commas;
use vstd::prelude::*;

verus! {

/// The ordered source groups to merge, and the timeout of every fetch.
pub struct Configuration {
    groups: Vec<SourceGroup>,
    timeout_secs: u64,
}

impl Configuration {
    /// The configured groups, each a non-empty list of alternatives, in the
    /// order their bodies appear in the merged response.
    pub closed spec fn groups(self) -> Seq<Seq<Seq<char>>> {
        self.groups@.map(|i: int, g: SourceGroup| g@)
    }

    /// The timeout applied to every fetch attempt, in seconds.
    pub closed spec fn timeout(self) -> u64 {
        self.timeout_secs
    }

    pub closed spec fn wf(self) -> bool {
        forall|i: int| 0 <= i < self.groups@.len() ==> self.groups@[i].wf()
    }

    /// Builds the configuration from the group tokens of the environment, in
    /// order: each token is trimmed and split on commas into one group.
    pub fn from_tokens(tokens: &Vec<String>, timeout_secs: u64) -> (r: Configuration)
        ensures
            r.wf(),
            r.timeout() == timeout_secs,
            r.groups().len() == tokens@.len(),
            forall|i: int|
                0 <= i < tokens@.len() ==> r.groups()[i] == split_commas(spec_trim(tokens@[i]@)),
    {
        let mut groups: Vec<SourceGroup> = Vec::new();
        let mut i: usize = 0;
        while i < tokens.len()
            invariant
                i <= tokens@.len(),
                groups@.len() == i,
                forall|j: int| 0 <= j < i ==> groups@[j].wf(),
                forall|j: int|
                    0 <= j < i ==> groups@[j]@ == split_commas(spec_trim(tokens@[j]@)),
            decreases tokens@.len() - i,
        {
            groups.push(SourceGroup::parse(tokens[i].as_str()));
            i = i + 1;
        }
        Configuration { groups, timeout_secs }
    }

    /// Builds the configuration from already-parsed groups.
    pub fn from_groups(groups: Vec<SourceGroup>, timeout_secs: u64) -> (r: Configuration)
        requires
            forall|i: int| 0 <= i < groups@.len() ==> groups@[i].wf(),
        ensures
            r.wf(),
            r.timeout() == timeout_secs,
            r.groups().len() == groups@.len(),
            forall|i: int| 0 <= i < groups@.len() ==> r.groups()[i] == groups@[i]@,
    {
        Configuration { groups, timeout_secs }
    }

    /// The number of configured groups.
    pub fn group_count(&self) -> (r: usize)
        ensures
            r == self.groups().len(),
    {
        self.groups.len()
    }

    /// The `i`-th group, in configuration order.
    pub fn group(&self, i: usize) -> (r: &SourceGroup)
        requires
            self.wf(),
            i < self.groups().len(),
        ensures
            r@ == self.groups()[i as int],
            r.wf(),
    {
        &self.groups[i]
    }

    /// The per-fetch timeout, in seconds.
    pub fn timeout_secs(&self) -> (r: u64)
        ensures
            r == self.timeout(),
    {
        self.timeout_secs
    }
}

} // verus!
