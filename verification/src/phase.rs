//! Phase aggregation. A phase runs every plugin instance of the
//! transaction under one shared deadline; each instance settles as
//! completed (with its current decision and tags), errored, or timed out.
//! The phase result folds the completed contributions into one decision
//! and the union of their tag sets; errored and timed-out instances
//! contribute neither mass nor tags.

use vstd::prelude::*;
use crate::decision::{combine, spec_combine, Decision};
use crate::tags::{merge_tags, tag_set, tags_strictly_sorted};

verus! {

/// What one plugin instance contributes to a phase: its decision and its
/// tags.
#[derive(Clone, Debug)]
pub struct DecisionComponents {
    pub decision: Decision,
    pub tags: Vec<String>,
}

/// How one plugin instance settled within a phase.
#[derive(Clone, Debug)]
pub enum PhaseOutcome {
    /// The entry point returned, or was not implemented: the instance's
    /// accumulated decision state counts.
    Completed(DecisionComponents),
    /// The entry point trapped or failed in the host.
    Errored,
    /// The shared deadline passed before the entry point returned.
    TimedOut,
}

impl PhaseOutcome {
    /// Whether this instance's contribution counts toward the phase
    /// result.
    pub open spec fn counts(self) -> bool {
        self is Completed
    }
}

/// How one entry-point call ended, as the sandbox reports it.
#[derive(Clone, Copy, PartialEq, Eq, Structural, Debug)]
pub enum EntryPointResult {
    /// The entry point ran to completion.
    Returned,
    /// The plugin does not implement this entry point.
    NotImplemented,
    /// The plugin trapped.
    Trap,
    /// A host call made by the plugin failed.
    HostError,
    /// The shared deadline passed before the entry point returned.
    DeadlineExceeded,
}

/// Classifies one instance's entry-point result. A completed call keeps
/// the instance's accumulated state, and so does an unimplemented entry
/// point, which is expected and tolerated silently; a trap, a host
/// failure, or a missed deadline excludes the instance from the phase.
pub fn classify_entry_point(result: EntryPointResult, current: DecisionComponents) -> (r:
    PhaseOutcome)
    ensures
        match result {
            EntryPointResult::Returned => r == PhaseOutcome::Completed(current),
            EntryPointResult::NotImplemented => r == PhaseOutcome::Completed(current),
            EntryPointResult::Trap => r is Errored,
            EntryPointResult::HostError => r is Errored,
            EntryPointResult::DeadlineExceeded => r is TimedOut,
        },
{
    match result {
        EntryPointResult::Returned => PhaseOutcome::Completed(current),
        EntryPointResult::NotImplemented => PhaseOutcome::Completed(current),
        EntryPointResult::Trap => PhaseOutcome::Errored,
        EntryPointResult::HostError => PhaseOutcome::Errored,
        EntryPointResult::DeadlineExceeded => PhaseOutcome::TimedOut,
    }
}

/// The decisions of the instances that completed, in instance order.
pub open spec fn spec_completed_decisions(rs: Seq<PhaseOutcome>) -> Seq<Decision>
    decreases rs.len(),
{
    if rs.len() == 0 {
        Seq::empty()
    } else {
        let rest = spec_completed_decisions(rs.drop_last());
        match rs.last() {
            PhaseOutcome::Completed(dc) => rest.push(dc.decision),
            _ => rest,
        }
    }
}

/// The union of the tag sets of the instances that completed.
pub open spec fn spec_completed_tag_union(rs: Seq<PhaseOutcome>) -> Set<Seq<char>>
    decreases rs.len(),
{
    if rs.len() == 0 {
        Set::empty()
    } else {
        let rest = spec_completed_tag_union(rs.drop_last());
        match rs.last() {
            PhaseOutcome::Completed(dc) => rest + tag_set(dc.tags@),
            _ => rest,
        }
    }
}

/// Every decision a phase may hold is well formed.
pub open spec fn spec_outcomes_valid(rs: Seq<PhaseOutcome>) -> bool {
    forall|i: int|
        0 <= i < rs.len() ==> (#[trigger] rs[i] matches PhaseOutcome::Completed(dc)
            ==> dc.decision.valid())
}

/// An instance that errored or timed out contributes neither mass nor
/// tags: adding it to a phase leaves the phase result untouched.
pub proof fn lemma_failed_instance_contributes_nothing(rs: Seq<PhaseOutcome>, r: PhaseOutcome)
    requires
        !r.counts(),
    ensures
        spec_completed_decisions(rs.push(r)) == spec_completed_decisions(rs),
        spec_completed_tag_union(rs.push(r)) == spec_completed_tag_union(rs),
{
    assert(rs.push(r).drop_last() =~= rs);
    assert(rs.push(r).last() == r);
}

/// Folds the settled instances of one phase into a single decision and a
/// canonical tag list: the Dempster combination of the completed
/// decisions, and exactly the union of the completed instances' tag sets.
pub fn aggregate_phase(rs: &Vec<PhaseOutcome>) -> (r: DecisionComponents)
    requires
        spec_outcomes_valid(rs@),
    ensures
        r.decision == spec_combine(spec_completed_decisions(rs@)),
        r.decision.valid(),
        tag_set(r.tags@) == spec_completed_tag_union(rs@),
        tags_strictly_sorted(r.tags@),
{
    let mut decisions: Vec<Decision> = Vec::new();
    let mut tags: Vec<String> = Vec::new();
    let mut i: usize = 0;
    proof {
        assert(rs@.take(0) =~= Seq::<PhaseOutcome>::empty());
        assert(tag_set(tags@) =~= spec_completed_tag_union(rs@.take(0)));
        assert(decisions@ =~= spec_completed_decisions(rs@.take(0)));
    }
    while i < rs.len()
        invariant
            0 <= i <= rs@.len(),
            spec_outcomes_valid(rs@),
            decisions@ == spec_completed_decisions(rs@.take(i as int)),
            forall|j: int| 0 <= j < decisions@.len() ==> decisions@[j].valid(),
            tag_set(tags@) == spec_completed_tag_union(rs@.take(i as int)),
            tags_strictly_sorted(tags@),
        decreases rs@.len() - i,
    {
        proof {
            assert(rs@.take(i + 1).drop_last() =~= rs@.take(i as int));
            assert(rs@.take(i + 1).last() == rs@[i as int]);
        }
        match &rs[i] {
            PhaseOutcome::Completed(dc) => {
                decisions.push(dc.decision);
                merge_tags(&mut tags, &dc.tags);
            },
            PhaseOutcome::Errored => {},
            PhaseOutcome::TimedOut => {},
        }
        i += 1;
    }
    proof {
        assert(rs@.take(rs@.len() as int) =~= rs@);
    }
    let decision = combine(&decisions);
    DecisionComponents { decision, tags }
}

}
