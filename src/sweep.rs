use crate::range::{AddressRange, Candidates};
use vstd::prelude::*;

verus! {

/// What the coordinator of a sweep does next.
#[derive(Clone, Copy, Debug, PartialEq, Eq)]
pub enum SweepAction {
    /// A budget unit has been taken for this candidate: start a probe of it.
    Dispatch(u32),
    /// Every budget unit is held, or every candidate is out: wait for a probe
    /// to finish and report it.
    Wait,
    /// Every candidate has been probed and every probe has been reported.
    Finished,
}

/// The state of one sweep over an address block: the candidates not yet
/// dispatched, the concurrency budget, and the verdicts reported so far.
pub struct Sweep {
    cursor: Candidates,
    capacity: usize,
    in_flight: usize,
    outstanding: Ghost<Set<u32>>,
    verdicts: Ghost<Map<u32, bool>>,
}

impl Sweep {
    pub closed spec fn range(self) -> AddressRange {
        self.cursor.range()
    }

    /// How many candidates have been dispatched: always the lowest ones.
    pub closed spec fn dispatched_count(self) -> nat {
        self.cursor.position()
    }

    /// The most probes that may run at once.
    pub closed spec fn capacity(self) -> nat {
        self.capacity as nat
    }

    /// How many budget units are held: one by each running probe.
    pub closed spec fn in_flight(self) -> nat {
        self.in_flight as nat
    }

    /// The candidates whose probe runs and has not been reported.
    pub closed spec fn outstanding(self) -> Set<u32> {
        self.outstanding@
    }

    /// The verdict of each candidate whose probe has been reported.
    pub closed spec fn verdicts(self) -> Map<u32, bool> {
        self.verdicts@
    }

    /// Whether `addr` has been handed to a probe.
    pub open spec fn dispatched(self, addr: u32) -> bool {
        self.range().first() <= addr < self.range().first() + self.dispatched_count()
    }

    /// Whether every candidate has been dispatched and every probe reported.
    pub open spec fn finished(self) -> bool {
        self.dispatched_count() == self.range().size() && self.in_flight() == 0
    }

    /// The addresses reported live.
    pub open spec fn live_set(self) -> Set<u32> {
        Set::new(|a: u32| self.verdicts().contains_key(a) && self.verdicts()[a])
    }

    /// The budget is never overdrawn and each held unit belongs to one running
    /// probe; a dispatched candidate is either running or has its verdict, and
    /// never both.
    pub open spec fn wf(self) -> bool {
        &&& self.range().wf()
        &&& self.dispatched_count() <= self.range().size()
        &&& 1 <= self.capacity()
        &&& self.in_flight() <= self.capacity()
        &&& self.outstanding().finite()
        &&& self.outstanding().len() == self.in_flight()
        &&& forall|a: u32| #[trigger] self.outstanding().contains(a) ==> self.dispatched(a)
        &&& forall|a: u32| #[trigger]
            self.verdicts().contains_key(a) <==> (self.dispatched(a)
                && !self.outstanding().contains(a))
    }

    proof fn lemma_cursor(self)
        requires
            self.wf(),
        ensures
            self.cursor.wf(),
            self.cursor.range() == self.range(),
            self.cursor.position() == self.dispatched_count(),
    {
    }

    /// A sweep over `range` that lets at most `capacity` probes run at once.
    pub fn new(range: AddressRange, capacity: usize) -> (r: Sweep)
        requires
            range.wf(),
            capacity >= 1,
        ensures
            r.wf(),
            r.range() == range,
            r.capacity() == capacity,
            r.dispatched_count() == 0,
            r.in_flight() == 0,
            r.outstanding() == Set::<u32>::empty(),
            r.verdicts() == Map::<u32, bool>::empty(),
    {
        Sweep {
            cursor: range.candidates_iter(),
            capacity,
            in_flight: 0,
            outstanding: Ghost(Set::empty()),
            verdicts: Ghost(Map::empty()),
        }
    }

    /// Takes the next step: while a candidate is left and a budget unit is
    /// free, takes the unit and dispatches the lowest candidate not yet
    /// dispatched; otherwise waits for a running probe, or ends the sweep once
    /// none runs and no candidate is left.
    pub fn step(&mut self) -> (r: SweepAction)
        requires
            old(self).wf(),
        ensures
            final(self).wf(),
            final(self).range() == old(self).range(),
            final(self).capacity() == old(self).capacity(),
            final(self).verdicts() == old(self).verdicts(),
            ({
                let s = *old(self);
                let t = *final(self);
                if s.dispatched_count() < s.range().size() && s.in_flight() < s.capacity() {
                    let addr = s.range().candidates()[s.dispatched_count() as int];
                    &&& r == SweepAction::Dispatch(addr)
                    &&& !s.dispatched(addr)
                    &&& t.dispatched_count() == s.dispatched_count() + 1
                    &&& t.in_flight() == s.in_flight() + 1
                    &&& t.outstanding() == s.outstanding().insert(addr)
                } else {
                    &&& r == (if s.finished() {
                        SweepAction::Finished
                    } else {
                        SweepAction::Wait
                    })
                    &&& t == s
                }
            }),
    {
        let ghost s = *self;
        proof {
            self.lemma_cursor();
        }
        if self.in_flight < self.capacity && !self.cursor.is_exhausted() {
            match self.cursor.next() {
                Some(addr) => {
                    self.in_flight = self.in_flight + 1;
                    proof {
                        assert(!self.outstanding@.contains(addr));
                        self.outstanding@ = self.outstanding@.insert(addr);
                        assert forall|a: u32| #[trigger]
                            self.verdicts().contains_key(a) <==> (self.dispatched(a)
                                && !self.outstanding().contains(a)) by {
                            assert(s.verdicts().contains_key(a) <==> (s.dispatched(a)
                                && !s.outstanding().contains(a)));
                        }
                        assert forall|a: u32| #[trigger]
                            self.outstanding().contains(a) implies self.dispatched(a) by {
                            if a != addr {
                                assert(s.outstanding().contains(a));
                            }
                        }
                    }
                    SweepAction::Dispatch(addr)
                },
                // the cursor is not exhausted, so it hands out an address
                None => SweepAction::Wait,
            }
        } else if self.in_flight == 0 {
            SweepAction::Finished
        } else {
            SweepAction::Wait
        }
    }

    /// Reports the verdict of the probe of `addr`, which releases its budget
    /// unit. Returns the address to emit when the host is live.
    pub fn complete(&mut self, addr: u32, live: bool) -> (r: Option<u32>)
        requires
            old(self).wf(),
            old(self).outstanding().contains(addr),
        ensures
            final(self).wf(),
            final(self).range() == old(self).range(),
            final(self).capacity() == old(self).capacity(),
            final(self).dispatched_count() == old(self).dispatched_count(),
            final(self).in_flight() == old(self).in_flight() - 1,
            final(self).outstanding() == old(self).outstanding().remove(addr),
            final(self).verdicts() == old(self).verdicts().insert(addr, live),
            r == (if live {
                Some(addr)
            } else {
                None::<u32>
            }),
    {
        let ghost s = *self;
        proof {
            assert(self.outstanding@.len() > 0);
        }
        self.in_flight = self.in_flight - 1;
        proof {
            self.outstanding@ = self.outstanding@.remove(addr);
            self.verdicts@ = self.verdicts@.insert(addr, live);
            assert forall|a: u32| #[trigger]
                self.verdicts().contains_key(a) <==> (self.dispatched(a)
                    && !self.outstanding().contains(a)) by {
                assert(s.verdicts().contains_key(a) <==> (s.dispatched(a)
                    && !s.outstanding().contains(a)));
            }
            assert forall|a: u32| #[trigger]
                self.outstanding().contains(a) implies self.dispatched(a) by {
                assert(s.outstanding().contains(a));
            }
        }
        if live {
            Some(addr)
        } else {
            None
        }
    }

    /// How many probes run now.
    pub fn running(&self) -> (r: usize)
        ensures
            r == self.in_flight(),
    {
        self.in_flight
    }
}

/// At every point of a sweep, at most `capacity` probes hold a budget unit.
pub proof fn lemma_budget_never_exceeded(s: Sweep)
    requires
        s.wf(),
    ensures
        s.outstanding().len() <= s.capacity(),
{
}

/// When a sweep has finished, every candidate of its block has exactly one
/// verdict and none is still running.
pub proof fn lemma_every_candidate_concluded(s: Sweep)
    requires
        s.wf(),
        s.finished(),
    ensures
        s.outstanding() == Set::<u32>::empty(),
        forall|a: u32| #[trigger] s.verdicts().contains_key(a) <==> s.range().contains(a),
{
    assert(s.outstanding().len() == 0);
    assert(s.outstanding() =~= Set::<u32>::empty());
}

/// A finished sweep against a fixed set of live hosts, where the probe of each
/// address `a` came to `target(a)`, reports exactly the live addresses of the
/// block.
pub proof fn lemma_reports_exactly_live(s: Sweep, target: spec_fn(u32) -> bool)
    requires
        s.wf(),
        s.finished(),
        forall|a: u32| #[trigger] s.verdicts().contains_key(a) ==> s.verdicts()[a] == target(a),
    ensures
        s.live_set() == Set::new(|a: u32| s.range().contains(a) && target(a)),
{
    lemma_every_candidate_concluded(s);
    assert(s.live_set() =~= Set::new(|a: u32| s.range().contains(a) && target(a)));
}

/// Two finished sweeps over one block against the same fixed set of live
/// hosts report the same live addresses.
pub proof fn lemma_sweep_idempotent(s1: Sweep, s2: Sweep, target: spec_fn(u32) -> bool)
    requires
        s1.wf(),
        s2.wf(),
        s1.finished(),
        s2.finished(),
        s1.range() == s2.range(),
        forall|a: u32| #[trigger] s1.verdicts().contains_key(a) ==> s1.verdicts()[a] == target(a),
        forall|a: u32| #[trigger] s2.verdicts().contains_key(a) ==> s2.verdicts()[a] == target(a),
    ensures
        s1.live_set() == s2.live_set(),
{
    lemma_reports_exactly_live(s1, target);
    lemma_reports_exactly_live(s2, target);
}

} // verus!
