use vstd::prelude::*;

use crate::names::{bus_name_valid, check_bus_name, trim_spec, trim_text};
use crate::stats::{fresh_stats, spec_update};

pub use crate::stats::ResponseStats;

verus! {

/// One validated peer of the bus directory. The capability handles used to
/// reach the live peer stay with the transport shell; the record keeps what
/// the telemetry logic reads: the display name, the bus address, and the
/// running latency statistics owned by the health poller.
pub struct Server {
    pub accessible_name: String,
    pub bus_name: String,
    pub stats: ResponseStats,
}

impl Server {
    /// Feed one measured round-trip latency (in nanoseconds) into this
    /// peer's running statistics.
    pub fn update_rtt_stats(&mut self, res: u64)
        requires
            old(self).stats.wf(),
            old(self).stats.samples < u32::MAX,
        ensures
            final(self).stats == spec_update(old(self).stats, res),
            final(self).stats.wf(),
            final(self).accessible_name == old(self).accessible_name,
            final(self).bus_name == old(self).bus_name,
    {
        self.stats.update(res);
    }

    /// An owned copy of the record.
    pub fn duplicate(&self) -> (r: Server)
        ensures
            r == *self,
    {
        Server {
            accessible_name: self.accessible_name.clone(),
            bus_name: self.bus_name.clone(),
            stats: self.stats,
        }
    }
}

/// What discovery observed about one candidate address reported by the
/// registry: the raw address text, whether the root capability handle could
/// be built, the display name if reading it succeeded, and whether the
/// application-aspect handle could be built.
pub struct Candidate {
    pub name: String,
    pub reachable: bool,
    pub accessible_name: Option<String>,
    pub application_ok: bool,
}

/// The two failures that abort a whole enumeration: a candidate address
/// that is not a syntactically valid bus name, and a candidate whose root
/// capability handle could not be built at all.
#[derive(Clone, Copy, Debug, PartialEq, Eq, Structural)]
pub enum DirectoryError {
    MalformedBusName,
    Unreachable,
}

/// A candidate that enumeration retains: its address (trimmed and raw) is a
/// valid bus name, it was reachable, and both the display name and the
/// application aspect resolved.
pub open spec fn is_valid_candidate(c: Candidate) -> bool {
    &&& bus_name_valid(trim_spec(c.name@))
    &&& c.reachable
    &&& c.accessible_name is Some
    &&& c.application_ok
    &&& bus_name_valid(c.name@)
}

/// The peer record a valid candidate materializes into, with fresh, zeroed
/// statistics.
pub open spec fn server_of(c: Candidate) -> Server {
    Server { accessible_name: c.accessible_name->0, bus_name: c.name, stats: fresh_stats() }
}

/// What enumeration does with one candidate: a malformed address (checked
/// on the trimmed text used to reach the peer, and again on the raw text
/// kept as its key) or an unbuildable root handle aborts the whole
/// enumeration; a missing display name or application aspect only skips the
/// candidate.
pub open spec fn candidate_step(c: Candidate) -> Result<Option<Server>, DirectoryError> {
    if !bus_name_valid(trim_spec(c.name@)) {
        Err(DirectoryError::MalformedBusName)
    } else if !c.reachable {
        Err(DirectoryError::Unreachable)
    } else if c.accessible_name is None {
        Ok(None)
    } else if !c.application_ok {
        Ok(None)
    } else if !bus_name_valid(c.name@) {
        Err(DirectoryError::MalformedBusName)
    } else {
        Ok(Some(server_of(c)))
    }
}

/// The outcome of enumerating the candidates in order: the retained peer
/// records, or the first aborting failure.
pub open spec fn spec_enumerate(cands: Seq<Candidate>) -> Result<Seq<Server>, DirectoryError>
    decreases cands.len(),
{
    if cands.len() == 0 {
        Ok(Seq::empty())
    } else {
        match spec_enumerate(cands.drop_last()) {
            Err(e) => Err(e),
            Ok(list) => match candidate_step(cands.last()) {
                Err(e) => Err(e),
                Ok(None) => Ok(list),
                Ok(Some(srv)) => Ok(list.push(srv)),
            },
        }
    }
}

/// Once a prefix of the candidates aborts, the whole sequence aborts with
/// the same failure.
proof fn lemma_enumerate_err_extends(prefix: Seq<Candidate>, cands: Seq<Candidate>)
    requires
        prefix.len() <= cands.len(),
        prefix == cands.subrange(0, prefix.len() as int),
        spec_enumerate(prefix) is Err,
    ensures
        spec_enumerate(cands) == spec_enumerate(prefix),
    decreases cands.len() - prefix.len(),
{
    if prefix.len() == cands.len() {
        assert(prefix =~= cands);
    } else {
        let shorter = cands.drop_last();
        assert(prefix =~= shorter.subrange(0, prefix.len() as int));
        lemma_enumerate_err_extends(prefix, shorter);
    }
}

/// THE DIRECTORY LAW. A successful enumeration returns exactly the valid
/// candidates, in order, each materialized with fresh statistics: partial
/// failures skip single candidates and never shrink or disturb the rest.
pub proof fn lemma_enumerate_ok(cands: Seq<Candidate>)
    requires
        spec_enumerate(cands) is Ok,
    ensures
        spec_enumerate(cands)->Ok_0 == cands.filter(|c: Candidate| is_valid_candidate(c)).map_values(
            |c: Candidate| server_of(c),
        ),
    decreases cands.len(),
{
    reveal(Seq::<_>::filter);
    let pred = |c: Candidate| is_valid_candidate(c);
    let f = |c: Candidate| server_of(c);
    if cands.len() == 0 {
        assert(cands.filter(pred) =~= Seq::<Candidate>::empty());
        assert(spec_enumerate(cands)->Ok_0 =~= cands.filter(pred).map_values(f));
    } else {
        let shorter = cands.drop_last();
        let c = cands.last();
        lemma_enumerate_ok(shorter);
        assert(cands.filter(pred) == if pred(c) {
            shorter.filter(pred).push(c)
        } else {
            shorter.filter(pred)
        });
        if pred(c) {
            assert(shorter.filter(pred).push(c).map_values(f) =~= shorter.filter(pred).map_values(
                f,
            ).push(f(c)));
        }
    }
}

/// The directory of validated peers, in the order the registry reported
/// them.
pub struct Servers {
    pub bus: Vec<Server>,
}

impl Servers {
    /// Every peer's statistics record is internally consistent.
    pub open spec fn wf(self) -> bool {
        forall|i: int| 0 <= i < self.bus@.len() ==> (#[trigger] self.bus@[i]).stats.wf()
    }

    /// Materialize the directory from what discovery observed about each
    /// candidate the registry reported. Candidates whose display name or
    /// application aspect did not resolve are skipped; a malformed address
    /// or an unbuildable root handle aborts the whole enumeration.
    pub fn new(candidates: Vec<Candidate>) -> (r: Result<Servers, DirectoryError>)
        ensures
            match r {
                Ok(servers) => {
                    &&& spec_enumerate(candidates@) == Ok::<Seq<Server>, DirectoryError>(
                        servers.bus@,
                    )
                    &&& servers.bus@ == candidates@.filter(
                        |c: Candidate| is_valid_candidate(c),
                    ).map_values(|c: Candidate| server_of(c))
                    &&& servers.wf()
                },
                Err(e) => spec_enumerate(candidates@) == Err::<Seq<Server>, DirectoryError>(e),
            },
    {
        let mut bus: Vec<Server> = Vec::new();
        let mut idx: usize = 0;
        while idx < candidates.len()
            invariant
                idx <= candidates@.len(),
                spec_enumerate(candidates@.subrange(0, idx as int)) == Ok::<
                    Seq<Server>,
                    DirectoryError,
                >(bus@),
            decreases candidates@.len() - idx,
        {
            proof {
                let longer = candidates@.subrange(0, idx + 1);
                assert(longer.drop_last() =~= candidates@.subrange(0, idx as int));
                assert(longer.last() == candidates@[idx as int]);
            }
            let c = &candidates[idx];
            let trimmed = trim_text(c.name.as_str());
            if !check_bus_name(trimmed.as_str()) {
                proof {
                    lemma_enumerate_err_extends(candidates@.subrange(0, idx + 1), candidates@);
                }
                return Err(DirectoryError::MalformedBusName);
            }
            if !c.reachable {
                proof {
                    lemma_enumerate_err_extends(candidates@.subrange(0, idx + 1), candidates@);
                }
                return Err(DirectoryError::Unreachable);
            }
            match &c.accessible_name {
                None => {},
                Some(an) => {
                    if c.application_ok {
                        if !check_bus_name(c.name.as_str()) {
                            proof {
                                lemma_enumerate_err_extends(
                                    candidates@.subrange(0, idx + 1),
                                    candidates@,
                                );
                            }
                            return Err(DirectoryError::MalformedBusName);
                        }
                        bus.push(
                            Server {
                                accessible_name: an.clone(),
                                bus_name: c.name.clone(),
                                stats: ResponseStats::default(),
                            },
                        );
                    }
                },
            }
            idx = idx + 1;
        }
        proof {
            assert(candidates@.subrange(0, candidates@.len() as int) =~= candidates@);
            lemma_enumerate_ok(candidates@);
        }
        Ok(Servers { bus })
    }

    /// The first peer whose bus address equals `name`, if any.
    pub fn get_server(&self, name: &str) -> (r: Option<&Server>)
        ensures
            match r {
                Some(s) => exists|i: int|
                    {
                        &&& 0 <= i < self.bus@.len()
                        &&& *s == self.bus@[i]
                        &&& s.bus_name@ == name@
                        &&& forall|j: int|
                            0 <= j < i ==> (#[trigger] self.bus@[j]).bus_name@ != name@
                    },
                None => forall|i: int|
                    0 <= i < self.bus@.len() ==> (#[trigger] self.bus@[i]).bus_name@ != name@,
            },
    {
        let key: String = name.to_owned();
        let mut idx: usize = 0;
        while idx < self.bus.len()
            invariant
                idx <= self.bus@.len(),
                key@ == name@,
                forall|j: int| 0 <= j < idx ==> (#[trigger] self.bus@[j]).bus_name@ != name@,
            decreases self.bus@.len() - idx,
        {
            if self.bus[idx].bus_name == key {
                return Some(&self.bus[idx]);
            }
            idx = idx + 1;
        }
        None
    }

    /// Drop every peer whose bus address equals `name`, keeping the order
    /// of the rest.
    pub fn remove_server(&mut self, name: &str)
        ensures
            final(self).bus@ == old(self).bus@.filter(|s: Server| s.bus_name@ != name@),
    {
        proof {
            reveal(Seq::<_>::filter);
        }
        let key: String = name.to_owned();
        let mut kept: Vec<Server> = Vec::new();
        let mut idx: usize = 0;
        while idx < self.bus.len()
            invariant
                idx <= self.bus@.len(),
                key@ == name@,
                self.bus@ == old(self).bus@,
                kept@ == self.bus@.subrange(0, idx as int).filter(|s: Server| s.bus_name@ != name@),
            decreases self.bus@.len() - idx,
        {
            proof {
                reveal(Seq::<_>::filter);
                let longer = self.bus@.subrange(0, idx + 1);
                assert(longer.drop_last() =~= self.bus@.subrange(0, idx as int));
                assert(longer.last() == self.bus@[idx as int]);
            }
            let s = &self.bus[idx];
            if !(s.bus_name == key) {
                kept.push(s.duplicate());
            }
            idx = idx + 1;
        }
        proof {
            reveal(Seq::<_>::filter);
            assert(self.bus@.subrange(0, self.bus@.len() as int) =~= self.bus@);
        }
        self.bus = kept;
    }
}

} // verus!
