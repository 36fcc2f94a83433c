use vstd::prelude::*;

use crate::bus::{Server, Servers};
use crate::stats::{spec_update, ResponseStats};

verus! {

/// What one polling visit to a peer observed: its statistics lock was held
/// by someone else and the peer was skipped, the probe timed out or failed,
/// or the probe came back within the deadline after the given number of
/// nanoseconds.
#[derive(Clone, Copy, Debug, PartialEq, Eq, Structural)]
pub enum PollOutcome {
    Contended,
    NoResponse,
    Response(u64),
}

/// The statistics record after one polling visit: only a completed probe
/// advances it.
pub open spec fn spec_poll(st: ResponseStats, o: PollOutcome) -> ResponseStats {
    match o {
        PollOutcome::Response(d) => spec_update(st, d),
        _ => st,
    }
}

/// The statistics record after a whole sequence of visits.
pub open spec fn stats_after_rounds(st: ResponseStats, outs: Seq<PollOutcome>) -> ResponseStats
    decreases outs.len(),
{
    if outs.len() == 0 {
        st
    } else {
        spec_poll(stats_after_rounds(st, outs.drop_last()), outs.last())
    }
}

/// THE ABSORPTION LAW. Rounds in which the probe never completed — every
/// visit either contended or unanswered — leave the statistics exactly as
/// they were: a peer that always exceeds the timeout keeps its fresh,
/// all-unset record, however many rounds pass.
pub proof fn lemma_unanswered_rounds(st: ResponseStats, outs: Seq<PollOutcome>)
    requires
        forall|i: int| 0 <= i < outs.len() ==> !((#[trigger] outs[i]) is Response),
    ensures
        stats_after_rounds(st, outs) == st,
    decreases outs.len(),
{
    if outs.len() > 0 {
        lemma_unanswered_rounds(st, outs.drop_last());
    }
}

/// The poll outcome a completed-or-not probe measurement stands for.
pub open spec fn outcome_of(probe: Option<u64>) -> PollOutcome {
    match probe {
        Some(d) => PollOutcome::Response(d),
        None => PollOutcome::NoResponse,
    }
}

impl Server {
    /// Record the outcome of one probe of this peer: a measured round trip
    /// is fed into the statistics, while a timed-out or failed probe is
    /// absorbed without a trace.
    pub fn record_probe(&mut self, probe: Option<u64>)
        requires
            old(self).stats.wf(),
            old(self).stats.samples < u32::MAX,
        ensures
            final(self).stats == spec_poll(old(self).stats, outcome_of(probe)),
            final(self).stats.wf(),
            final(self).accessible_name == old(self).accessible_name,
            final(self).bus_name == old(self).bus_name,
    {
        match probe {
            Some(d) => self.update_rtt_stats(d),
            None => {},
        }
    }
}

/// Apply the outcomes of one polling round, one per peer in directory
/// order: every peer whose probe completed advances by exactly its own
/// sample; every contended or unanswered peer is untouched.
pub fn poll_round(servers: &mut Servers, outcomes: &Vec<PollOutcome>)
    requires
        old(servers).wf(),
        outcomes@.len() == old(servers).bus@.len(),
        forall|i: int|
            0 <= i < old(servers).bus@.len() ==> (#[trigger] old(servers).bus@[i]).stats.samples
                < u32::MAX,
    ensures
        final(servers).bus@.len() == old(servers).bus@.len(),
        forall|i: int|
            0 <= i < old(servers).bus@.len() ==> {
                let before = old(servers).bus@[i];
                let after = #[trigger] final(servers).bus@[i];
                &&& after.stats == spec_poll(before.stats, outcomes@[i])
                &&& after.accessible_name == before.accessible_name
                &&& after.bus_name == before.bus_name
            },
        final(servers).wf(),
{
    let mut idx: usize = 0;
    while idx < servers.bus.len()
        invariant
            idx <= servers.bus@.len(),
            servers.bus@.len() == old(servers).bus@.len(),
            outcomes@.len() == old(servers).bus@.len(),
            forall|i: int|
                0 <= i < old(servers).bus@.len() ==> (#[trigger] old(
                    servers,
                ).bus@[i]).stats.samples < u32::MAX,
            forall|i: int|
                idx <= i < servers.bus@.len() ==> #[trigger] servers.bus@[i] == old(
                    servers,
                ).bus@[i],
            forall|i: int|
                0 <= i < idx ==> {
                    let before = old(servers).bus@[i];
                    let after = #[trigger] servers.bus@[i];
                    &&& after.stats == spec_poll(before.stats, outcomes@[i])
                    &&& after.accessible_name == before.accessible_name
                    &&& after.bus_name == before.bus_name
                },
            forall|i: int|
                0 <= i < servers.bus@.len() ==> (#[trigger] servers.bus@[i]).stats.wf(),
        decreases servers.bus@.len() - idx,
    {
        match outcomes[idx] {
            PollOutcome::Response(d) => {
                servers.bus[idx].update_rtt_stats(d);
            },
            _ => {},
        }
        idx = idx + 1;
    }
}

} // verus!
