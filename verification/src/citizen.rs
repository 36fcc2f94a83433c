use vstd::prelude::*;

use crate::stats::{fresh_stats, spec_update};

pub use crate::stats::ResponseStats;

verus! {

/// One validated peer found by scanning all bus addresses. As with the
/// registry-based directory, the capability handles stay with the transport
/// shell; the record keeps the display name, the bus address, and the
/// running latency statistics.
#[derive(Debug, Clone)]
pub struct BusCitizen {
    pub accessible_name: String,
    pub bus_name: String,
    pub stats: ResponseStats,
}

impl BusCitizen {
    /// Feed one measured round-trip latency (in nanoseconds) into this
    /// peer's running statistics.
    pub fn update_rtt_stats(&mut self, res: u64)
        requires
            old(self).stats.wf(),
            old(self).stats.samples < u32::MAX,
        ensures
            final(self).stats == spec_update(old(self).stats, res),
            final(self).stats.wf(),
            final(self).accessible_name == old(self).accessible_name,
            final(self).bus_name == old(self).bus_name,
    {
        self.stats.update(res);
    }

    /// An owned copy of the record.
    pub fn duplicate(&self) -> (r: BusCitizen)
        ensures
            r == *self,
    {
        BusCitizen {
            accessible_name: self.accessible_name.clone(),
            bus_name: self.bus_name.clone(),
            stats: self.stats,
        }
    }
}

/// What an address scan observed about one bus address: the address text,
/// whether a root capability handle could be built for it, whether the
/// secondary capability probe confirmed a real peer, the display name if
/// reading it succeeded, and whether the application-aspect handle could be
/// built.
pub struct CitizenCandidate {
    pub bus_name: String,
    pub reachable: bool,
    pub capability_ok: bool,
    pub accessible_name: Option<String>,
    pub application_ok: bool,
}

/// Addresses the scan considers at all: those following the recognized
/// naming convention of a leading `'x'`.
pub open spec fn follows_convention(s: Seq<char>) -> bool {
    s.len() > 0 && s[0] == 'x'
}

/// A scanned candidate that the directory retains. The address scan is not
/// authoritative, so besides the name and application checks of the
/// registry path, the secondary capability probe must have confirmed the
/// candidate.
pub open spec fn is_valid_citizen(c: CitizenCandidate) -> bool {
    &&& follows_convention(c.bus_name@)
    &&& c.reachable
    &&& c.capability_ok
    &&& c.accessible_name is Some
    &&& c.application_ok
}

/// The peer record a valid scanned candidate materializes into, with
/// fresh, zeroed statistics.
pub open spec fn citizen_of(c: CitizenCandidate) -> BusCitizen {
    BusCitizen { accessible_name: c.accessible_name->0, bus_name: c.bus_name, stats: fresh_stats() }
}

/// Whether the address follows the recognized naming convention.
fn check_convention(s: &str) -> (r: bool)
    ensures
        r == follows_convention(s@),
{
    s.unicode_len() > 0 && s.get_char(0) == 'x'
}

/// The directory of peers found by the address scan, in scan order.
pub struct BusCitizens {
    pub citizens: Vec<BusCitizen>,
}

impl BusCitizens {
    /// Every peer's statistics record is internally consistent.
    pub open spec fn wf(self) -> bool {
        forall|i: int| 0 <= i < self.citizens@.len() ==> (#[trigger] self.citizens@[i]).stats.wf()
    }

    /// Materialize the directory from what the scan observed about each
    /// bus address. Every failure is local to its candidate: whatever does
    /// not follow the naming convention, or fails any of the probes, is
    /// skipped and the scan goes on.
    pub fn new(candidates: Vec<CitizenCandidate>) -> (r: BusCitizens)
        ensures
            r.citizens@ == candidates@.filter(|c: CitizenCandidate| is_valid_citizen(c)).map_values(
                |c: CitizenCandidate| citizen_of(c),
            ),
            r.wf(),
    {
        let mut citizens: Vec<BusCitizen> = Vec::new();
        let mut idx: usize = 0;
        while idx < candidates.len()
            invariant
                idx <= candidates@.len(),
                citizens@ == candidates@.subrange(0, idx as int).filter(
                    |c: CitizenCandidate| is_valid_citizen(c),
                ).map_values(|c: CitizenCandidate| citizen_of(c)),
                forall|i: int|
                    0 <= i < citizens@.len() ==> (#[trigger] citizens@[i]).stats.wf(),
            decreases candidates@.len() - idx,
        {
            proof {
                reveal(Seq::<_>::filter);
                let longer = candidates@.subrange(0, idx + 1);
                assert(longer.drop_last() =~= candidates@.subrange(0, idx as int));
                assert(longer.last() == candidates@[idx as int]);
            }
            let c = &candidates[idx];
            if check_convention(c.bus_name.as_str()) && c.reachable && c.capability_ok
                && c.application_ok {
                match &c.accessible_name {
                    None => {},
                    Some(an) => {
                        citizens.push(
                            BusCitizen {
                                accessible_name: an.clone(),
                                bus_name: c.bus_name.clone(),
                                stats: ResponseStats::default(),
                            },
                        );
                        proof {
                            let ghost pred = |c: CitizenCandidate| is_valid_citizen(c);
                            let ghost f = |c: CitizenCandidate| citizen_of(c);
                            let longer = candidates@.subrange(0, idx + 1);
                            assert(longer.filter(pred).map_values(f) =~= longer.drop_last().filter(
                                pred,
                            ).map_values(f).push(f(longer.last())));
                        }
                    },
                }
            }
            idx = idx + 1;
        }
        proof {
            assert(candidates@.subrange(0, candidates@.len() as int) =~= candidates@);
        }
        BusCitizens { citizens }
    }

    /// The first peer whose bus address equals `name`, if any.
    pub fn get_citizen(&self, name: &str) -> (r: Option<&BusCitizen>)
        ensures
            match r {
                Some(s) => exists|i: int|
                    {
                        &&& 0 <= i < self.citizens@.len()
                        &&& *s == self.citizens@[i]
                        &&& s.bus_name@ == name@
                        &&& forall|j: int|
                            0 <= j < i ==> (#[trigger] self.citizens@[j]).bus_name@ != name@
                    },
                None => forall|i: int|
                    0 <= i < self.citizens@.len() ==> (#[trigger] self.citizens@[i]).bus_name@
                        != name@,
            },
    {
        let key: String = name.to_owned();
        let mut idx: usize = 0;
        while idx < self.citizens.len()
            invariant
                idx <= self.citizens@.len(),
                key@ == name@,
                forall|j: int| 0 <= j < idx ==> (#[trigger] self.citizens@[j]).bus_name@ != name@,
            decreases self.citizens@.len() - idx,
        {
            if self.citizens[idx].bus_name == key {
                return Some(&self.citizens[idx]);
            }
            idx = idx + 1;
        }
        None
    }
}

} // verus!
