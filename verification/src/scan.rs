//! Bounded-concurrency port discovery, as a state machine.
//!
//! The connection attempts themselves happen outside this crate; the
//! scheduler decides which port to launch next, enforces the in-flight
//! budget, and records resolutions. The driver asks `next_action`,
//! performs the attempt or waits for one to resolve, and reports back
//! through `on_complete`; the proofs pin down that every port of the
//! range is launched exactly once, in order, and that only ports of the
//! range enter the open set.

use vstd::prelude::*;

verus! {

/// What the scheduler asks the driver to do next.
#[derive(Clone, Copy, Debug, PartialEq, Eq, Structural)]
pub enum ScanAction {
    /// Launch a connection attempt against this port.
    Launch(u16),
    /// Wait for at least one outstanding attempt to resolve.
    Wait,
    /// Every port of the range has been launched and has resolved.
    Done,
}

/// The port-discovery state machine: an inclusive port range, a bound on
/// outstanding attempts, and the ports found open so far, in discovery
/// order.
pub struct ScanScheduler {
    start: u16,
    end: u16,
    next: u32,
    in_flight: usize,
    max_in_flight: usize,
    open_ports: Vec<u16>,
    attempted: Ghost<Seq<u16>>,
}

impl ScanScheduler {
    /// First port of the range.
    pub closed spec fn spec_start(&self) -> u16 {
        self.start
    }

    /// Last port of the range, inclusive.
    pub closed spec fn spec_end(&self) -> u16 {
        self.end
    }

    /// The next port to launch; one past `spec_end` once the whole range
    /// has been launched.
    pub closed spec fn spec_next(&self) -> int {
        self.next as int
    }

    /// How many attempts are outstanding.
    pub closed spec fn spec_in_flight(&self) -> int {
        self.in_flight as int
    }

    /// The configured bound on outstanding attempts.
    pub closed spec fn spec_max_in_flight(&self) -> int {
        self.max_in_flight as int
    }

    /// The ports found open so far, in discovery order.
    pub closed spec fn spec_open_ports(&self) -> Seq<u16> {
        self.open_ports@
    }

    /// The ports launched so far, in launch order.
    pub closed spec fn spec_attempted(&self) -> Seq<u16> {
        self.attempted@
    }

    /// The scheduler's invariant: the launch cursor stays inside the
    /// range, the in-flight count respects the budget and never exceeds
    /// the number of launched-but-unresolved attempts, the launched ports
    /// are exactly the range prefix before the cursor, and every open
    /// port lies inside the range.
    pub open spec fn wf(&self) -> bool {
        &&& self.spec_start() <= self.spec_end()
        &&& self.spec_start() as int <= self.spec_next() <= self.spec_end() + 1
        &&& 1 <= self.spec_max_in_flight()
        &&& 0 <= self.spec_in_flight() <= self.spec_max_in_flight()
        &&& self.spec_in_flight() <= self.spec_next() - self.spec_start()
        &&& self.spec_attempted().len() == self.spec_next() - self.spec_start()
        &&& forall|k: int|
            0 <= k < self.spec_attempted().len() ==> #[trigger] self.spec_attempted()[k] as int
                == self.spec_start() + k
        &&& forall|k: int|
            0 <= k < self.spec_open_ports().len() ==> self.spec_start() <= #[trigger] self.spec_open_ports()[k]
                <= self.spec_end()
    }

    /// A scheduler for the given inclusive range and in-flight budget.
    pub fn new(start: u16, end: u16, max_in_flight: usize) -> (s: ScanScheduler)
        requires
            start <= end,
            max_in_flight >= 1,
        ensures
            s.wf(),
            s.spec_start() == start,
            s.spec_end() == end,
            s.spec_next() == start as int,
            s.spec_in_flight() == 0,
            s.spec_max_in_flight() == max_in_flight as int,
            s.spec_open_ports() == Seq::<u16>::empty(),
            s.spec_attempted() == Seq::<u16>::empty(),
    {
        let s = ScanScheduler {
            start,
            end,
            next: start as u32,
            in_flight: 0,
            max_in_flight,
            open_ports: Vec::new(),
            attempted: Ghost(Seq::empty()),
        };
        assert(s.spec_open_ports() =~= Seq::<u16>::empty());
        s
    }

    /// The action the current state calls for: launch while the range is
    /// not exhausted and a slot is free, wait while attempts are
    /// outstanding, done once everything has resolved.
    pub open spec fn spec_next_action(&self) -> ScanAction {
        if self.spec_next() <= self.spec_end() as int && self.spec_in_flight()
            < self.spec_max_in_flight() {
            ScanAction::Launch((self.spec_next()) as u16)
        } else if self.spec_in_flight() > 0 {
            ScanAction::Wait
        } else {
            ScanAction::Done
        }
    }

    /// What the driver should do next.
    pub fn next_action(&self) -> (a: ScanAction)
        requires
            self.wf(),
        ensures
            a == self.spec_next_action(),
    {
        if self.next <= self.end as u32 && self.in_flight < self.max_in_flight {
            ScanAction::Launch(self.next as u16)
        } else if self.in_flight > 0 {
            ScanAction::Wait
        } else {
            ScanAction::Done
        }
    }

    /// Takes the next port out of the range and occupies one in-flight
    /// slot for it. Each call hands out the next port in order, so no
    /// port is launched twice.
    pub fn launch(&mut self) -> (port: u16)
        requires
            old(self).wf(),
            old(self).spec_next() <= old(self).spec_end() as int,
            old(self).spec_in_flight() < old(self).spec_max_in_flight(),
        ensures
            final(self).wf(),
            port as int == old(self).spec_next(),
            final(self).spec_next() == old(self).spec_next() + 1,
            final(self).spec_in_flight() == old(self).spec_in_flight() + 1,
            final(self).spec_attempted() == old(self).spec_attempted().push(port),
            final(self).spec_open_ports() == old(self).spec_open_ports(),
            final(self).spec_start() == old(self).spec_start(),
            final(self).spec_end() == old(self).spec_end(),
            final(self).spec_max_in_flight() == old(self).spec_max_in_flight(),
    {
        let port = self.next as u16;
        self.next = self.next + 1;
        self.in_flight = self.in_flight + 1;
        proof {
            self.attempted@ = self.attempted@.push(port);
            let old_att = old(self).spec_attempted();
            assert forall|k: int| 0 <= k < self.spec_attempted().len() implies #[trigger] self.spec_attempted()[k] as int
                == self.spec_start() + k by {
                if k < old_att.len() {
                    assert(self.spec_attempted()[k] == old_att[k]);
                }
            }
            assert(self.spec_open_ports() == old(self).spec_open_ports());
            assert forall|k: int| 0 <= k < self.spec_open_ports().len() implies self.spec_start()
                <= #[trigger] self.spec_open_ports()[k] <= self.spec_end() by {
                assert(old(self).spec_open_ports()[k] == self.spec_open_ports()[k]);
            }
        }
        port
    }

    /// Records that one outstanding attempt resolved: an open port joins
    /// the open set in discovery order, a closed or timed-out one only
    /// frees its slot.
    pub fn on_complete(&mut self, port: u16, open: bool)
        requires
            old(self).wf(),
            old(self).spec_in_flight() > 0,
            old(self).spec_start() <= port <= old(self).spec_end(),
        ensures
            final(self).wf(),
            final(self).spec_in_flight() == old(self).spec_in_flight() - 1,
            final(self).spec_open_ports() == if open {
                old(self).spec_open_ports().push(port)
            } else {
                old(self).spec_open_ports()
            },
            final(self).spec_next() == old(self).spec_next(),
            final(self).spec_attempted() == old(self).spec_attempted(),
            final(self).spec_start() == old(self).spec_start(),
            final(self).spec_end() == old(self).spec_end(),
            final(self).spec_max_in_flight() == old(self).spec_max_in_flight(),
    {
        self.in_flight = self.in_flight - 1;
        if open {
            self.open_ports.push(port);
            proof {
                assert(self.spec_open_ports() == old(self).spec_open_ports().push(port));
                assert forall|k: int| 0 <= k < self.spec_open_ports().len() implies self.spec_start()
                    <= #[trigger] self.spec_open_ports()[k] <= self.spec_end() by {
                    if k < old(self).spec_open_ports().len() {
                        assert(old(self).spec_open_ports()[k] == self.spec_open_ports()[k]);
                    }
                }
            }
        } else {
            proof {
                assert(self.spec_open_ports() == old(self).spec_open_ports());
                assert forall|k: int| 0 <= k < self.spec_open_ports().len() implies self.spec_start()
                    <= #[trigger] self.spec_open_ports()[k] <= self.spec_end() by {
                    assert(old(self).spec_open_ports()[k] == self.spec_open_ports()[k]);
                }
            }
        }
    }

    /// The ports found open so far, in discovery order.
    pub fn open_ports(&self) -> (r: &Vec<u16>)
        ensures
            r@ == self.spec_open_ports(),
    {
        &self.open_ports
    }

    /// Hands the open set over once the scan is complete.
    pub fn into_open_ports(self) -> (r: Vec<u16>)
        ensures
            r@ == self.spec_open_ports(),
    {
        self.open_ports
    }
}

/// Once the scheduler reports `Done`, every port of the range was
/// launched exactly once — the launch log is precisely the range, in
/// order — and the open set holds only ports of the range.
pub proof fn lemma_done_coverage(s: ScanScheduler)
    requires
        s.wf(),
        s.spec_next_action() == ScanAction::Done,
    ensures
        s.spec_attempted() =~= Seq::new(
            (s.spec_end() - s.spec_start() + 1) as nat,
            |k: int| (s.spec_start() + k) as u16,
        ),
        forall|p: u16|
            s.spec_start() <= p <= s.spec_end() ==> #[trigger] s.spec_attempted().contains(p),
        forall|k1: int, k2: int|
            0 <= k1 < s.spec_attempted().len() && 0 <= k2 < s.spec_attempted().len() && k1 != k2
                ==> s.spec_attempted()[k1] != s.spec_attempted()[k2],
        forall|k: int|
            0 <= k < s.spec_open_ports().len() ==> s.spec_start() <= #[trigger] s.spec_open_ports()[k]
                <= s.spec_end(),
{
    assert(s.spec_next() == s.spec_end() + 1);
    assert forall|p: u16| s.spec_start() <= p <= s.spec_end() implies #[trigger] s.spec_attempted().contains(
        p,
    ) by {
        let k = p - s.spec_start();
        assert(s.spec_attempted()[k as int] == p);
    }
}

} // verus!
