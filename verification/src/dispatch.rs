//! The scan dispatcher: a state machine that hands out one probe task per
//! port of an inclusive range, keeps the number of in-flight probes under a
//! fixed ceiling, and aggregates the outcomes into the final scan result.
//!
//! The driver that owns the sockets asks for work with [`Dispatcher::try_launch`],
//! runs each probe however it likes (probes may finish in any order), and
//! hands every outcome back exactly once with [`Dispatcher::record`]. The
//! ghost state tracks which ports have been probed and what each probe
//! reported, so the contracts can pin the final result down.

use vstd::prelude::*;
use vstd::set_lib::set_int_range;
use vstd::set_lib::lemma_int_range;
use vstd::set_lib::lemma_len_subset;
use vstd::set_lib::lemma_subset_equality;

verus! {

/// Drives one scan of the inclusive port range `start..=end`.
///
/// Ports are handed out in ascending order. At most `max_concurrency`
/// probes are outstanding at once: `try_launch` refuses a new task while
/// the ceiling is reached. Every completed probe is recorded exactly once,
/// and an open port is appended to `open_ports` in completion order.
pub struct Dispatcher {
    /// First port of the range.
    pub start: u16,
    /// Last port of the range, at least `start`.
    pub end: u16,
    /// Next port to hand out; `end + 1` once the whole range is launched.
    pub next: u32,
    /// Number of probes handed out but not yet recorded.
    pub in_flight: usize,
    /// Number of probes recorded.
    pub completed: u32,
    /// Ceiling on simultaneously outstanding probes.
    pub max_concurrency: usize,
    /// Ports reported open, in completion order, each at most once.
    pub open_ports: Vec<u16>,
    /// Ghost: the ports whose outcome has been recorded.
    pub probed: Ghost<Set<int>>,
    /// Ghost: what each recorded probe reported, by port.
    pub outcomes: Ghost<Map<int, bool>>,
}

impl Dispatcher {
    /// Number of ports in the range.
    pub open spec fn total(self) -> int {
        self.end - self.start + 1
    }

    /// Number of probes handed out so far.
    pub open spec fn launched(self) -> int {
        self.next - self.start
    }

    /// The whole range as a set of ports.
    pub open spec fn port_set(self) -> Set<int> {
        set_int_range(self.start as int, self.end as int + 1)
    }

    /// A new probe may start: the ceiling leaves room and ports remain.
    pub open spec fn can_launch(self) -> bool {
        self.in_flight < self.max_concurrency && self.next as int <= self.end as int
    }

    /// The scan is finished: every port of the range has been recorded.
    pub open spec fn done(self) -> bool {
        self.completed as int == self.total()
    }

    /// Well-formedness, established by `new` and preserved by every method.
    pub open spec fn wf(self) -> bool {
        &&& self.start <= self.end
        &&& self.start as int <= self.next as int <= self.end as int + 1
        &&& 1 <= self.max_concurrency
        &&& self.in_flight as int + self.completed as int == self.launched()
        &&& self.in_flight <= self.max_concurrency
        &&& self.probed@.finite()
        &&& self.completed as int == self.probed@.len()
        &&& self.probed@.subset_of(set_int_range(self.start as int, self.next as int))
        &&& self.outcomes@.dom() =~= self.probed@
        &&& forall|i: int, j: int|
            0 <= i < j < self.open_ports@.len()
                ==> #[trigger] self.open_ports@[i] != #[trigger] self.open_ports@[j]
        &&& forall|p: u16|
            #![trigger self.open_ports@.contains(p)]
            #![trigger self.outcomes@[p as int]]
            self.open_ports@.contains(p) <==> self.probed@.contains(p as int)
                && self.outcomes@[p as int]
    }

    /// Sets up a scan of `start..=end` with the given concurrency ceiling.
    pub fn new(start: u16, end: u16, max_concurrency: usize) -> (d: Dispatcher)
        requires
            start <= end,
            max_concurrency >= 1,
        ensures
            d.wf(),
            d.start == start,
            d.end == end,
            d.max_concurrency == max_concurrency,
            d.next == start as u32,
            d.in_flight == 0,
            d.completed == 0,
            d.open_ports@ =~= Seq::<u16>::empty(),
            d.probed@ =~= Set::<int>::empty(),
            d.outcomes@ =~= Map::<int, bool>::empty(),
    {
        let d = Dispatcher {
            start,
            end,
            next: start as u32,
            in_flight: 0,
            completed: 0,
            max_concurrency,
            open_ports: Vec::new(),
            probed: Ghost(Set::empty()),
            outcomes: Ghost(Map::empty()),
        };
        d
    }

    /// Hands out the next probe task, in ascending port order, unless the
    /// range is exhausted or `max_concurrency` probes are already in flight.
    pub fn try_launch(&mut self) -> (r: Option<u16>)
        requires
            old(self).wf(),
        ensures
            final(self).wf(),
            final(self).start == old(self).start,
            final(self).end == old(self).end,
            final(self).max_concurrency == old(self).max_concurrency,
            final(self).completed == old(self).completed,
            final(self).open_ports == old(self).open_ports,
            final(self).probed == old(self).probed,
            final(self).outcomes == old(self).outcomes,
            old(self).can_launch() ==> {
                &&& r == Some(old(self).next as u16)
                &&& final(self).next == old(self).next + 1
                &&& final(self).in_flight == old(self).in_flight + 1
            },
            !old(self).can_launch() ==> r is None && *final(self) == *old(self),
    {
        if self.in_flight < self.max_concurrency && self.next <= self.end as u32 {
            let port: u16 = self.next as u16;
            self.next = self.next + 1;
            self.in_flight = self.in_flight + 1;
            Some(port)
        } else {
            None
        }
    }

    /// Records the outcome of one launched probe. An open port joins the
    /// result; a closed one only counts toward completion. Each port is
    /// recorded at most once, and only after it was handed out.
    pub fn record(&mut self, port: u16, open: bool)
        requires
            old(self).wf(),
            old(self).in_flight > 0,
            old(self).start <= port,
            (port as int) < old(self).next as int,
            !old(self).probed@.contains(port as int),
        ensures
            final(self).wf(),
            final(self).start == old(self).start,
            final(self).end == old(self).end,
            final(self).next == old(self).next,
            final(self).max_concurrency == old(self).max_concurrency,
            final(self).in_flight == old(self).in_flight - 1,
            final(self).completed == old(self).completed + 1,
            final(self).probed@ == old(self).probed@.insert(port as int),
            final(self).outcomes@ == old(self).outcomes@.insert(port as int, open),
            final(self).open_ports@ == if open {
                old(self).open_ports@.push(port)
            } else {
                old(self).open_ports@
            },
    {
        proof {
            broadcast use vstd::seq_lib::lemma_seq_contains_after_push;

            assert(!self.open_ports@.contains(port));
        }
        self.in_flight = self.in_flight - 1;
        self.completed = self.completed + 1;
        if open {
            self.open_ports.push(port);
        }
        proof {
            self.probed@ = self.probed@.insert(port as int);
            self.outcomes@ = self.outcomes@.insert(port as int, open);
        }
    }

    /// The ports found open so far, in completion order.
    pub fn open_port_list(&self) -> (r: &Vec<u16>)
        ensures
            r@ == self.open_ports@,
    {
        &self.open_ports
    }

    /// How many probes have completed; the payload of one progress event.
    pub fn completed_count(&self) -> (r: u32)
        ensures
            r == self.completed,
    {
        self.completed
    }

    /// How many probes are outstanding right now.
    pub fn in_flight_count(&self) -> (r: usize)
        ensures
            r == self.in_flight,
    {
        self.in_flight
    }

    /// The number of ports the scan covers; never overflows, even for the
    /// full range of ports.
    pub fn total_ports(&self) -> (r: u32)
        requires
            self.wf(),
        ensures
            r as int == self.total(),
    {
        (self.end - self.start) as u32 + 1
    }

    /// Whether every port of the range has been probed and recorded.
    pub fn is_done(&self) -> (r: bool)
        requires
            self.wf(),
        ensures
            r == self.done(),
    {
        self.completed == (self.end - self.start) as u32 + 1
    }

    /// Whether the scan found no open port at all.
    pub fn found_none(&self) -> (r: bool)
        ensures
            r == (self.open_ports@.len() == 0),
    {
        self.open_ports.len() == 0
    }
}

/// Completion accounting: the scan counts as done exactly when the set of
/// probed ports is the whole range. Since recorded ports form a set that
/// `record` only extends with ports not yet probed, and the completed count
/// equals that set's size, a finished scan has probed each of the
/// `end - start + 1` ports exactly once; and a finished scan has no probe
/// left in flight and no port left to hand out.
pub proof fn lemma_probe_accounting(d: Dispatcher)
    requires
        d.wf(),
    ensures
        d.done() <==> d.probed@ =~= d.port_set(),
        d.done() ==> d.in_flight == 0 && d.next as int == d.end as int + 1,
{
    lemma_int_range(d.start as int, d.end as int + 1);
    lemma_int_range(d.start as int, d.next as int);
    lemma_len_subset(d.probed@, set_int_range(d.start as int, d.next as int));
    if d.done() {
        assert(d.next as int == d.end as int + 1);
        lemma_subset_equality(d.probed@, d.port_set());
    }
    if d.probed@ =~= d.port_set() {
        assert(d.completed as int == d.port_set().len());
    }
}

/// The result never strays outside the request: every port in the open list
/// lies within the scanned range, at any point of the scan.
pub proof fn lemma_open_ports_within_range(d: Dispatcher)
    requires
        d.wf(),
    ensures
        forall|i: int|
            0 <= i < d.open_ports@.len()
                ==> d.start <= #[trigger] d.open_ports@[i] <= d.end,
{
    assert forall|i: int|
        0 <= i < d.open_ports@.len() implies d.start <= #[trigger] d.open_ports@[i]
        <= d.end by {
        let p = d.open_ports@[i];
        assert(d.open_ports@.contains(p));
        assert(d.probed@.contains(p as int));
        assert(set_int_range(d.start as int, d.next as int).contains(p as int));
    }
}

/// The concurrency ceiling is respected: the dispatcher never has more than
/// `max_concurrency` probes outstanding, whatever the driver does.
pub proof fn lemma_concurrency_ceiling(d: Dispatcher)
    requires
        d.wf(),
    ensures
        d.in_flight <= d.max_concurrency,
{
}

/// A finished scan's result is exactly the recorded outcomes restricted to
/// the range: a port is in the open list precisely when it lies in the range
/// and its probe reported it open — whatever order the probes completed in.
pub proof fn lemma_result_characterized(d: Dispatcher)
    requires
        d.wf(),
        d.done(),
    ensures
        forall|p: u16|
            #[trigger] d.open_ports@.contains(p)
                <==> d.start <= p <= d.end && d.outcomes@[p as int],
{
    lemma_probe_accounting(d);
    assert forall|p: u16|
        #[trigger] d.open_ports@.contains(p)
            <==> d.start <= p <= d.end && d.outcomes@[p as int] by {
        assert(d.port_set().contains(p as int) <==> d.start <= p <= d.end);
        assert(d.probed@.contains(p as int) <==> d.port_set().contains(p as int));
    }
}

/// Two finished scans of the same range whose probes reported the same
/// outcome for every port agree on the open-port set: the result depends on
/// the range and the per-port outcomes alone, not on scheduling, completion
/// order, or how often the scan is repeated.
pub proof fn lemma_scan_deterministic(d1: Dispatcher, d2: Dispatcher)
    requires
        d1.wf(),
        d2.wf(),
        d1.done(),
        d2.done(),
        d1.start == d2.start,
        d1.end == d2.end,
        forall|p: int|
            d1.start as int <= p <= d1.end as int
                ==> #[trigger] d1.outcomes@[p] == #[trigger] d2.outcomes@[p],
    ensures
        forall|p: u16|
            #![trigger d1.open_ports@.contains(p)]
            #![trigger d2.open_ports@.contains(p)]
            d1.open_ports@.contains(p) <==> d2.open_ports@.contains(p),
{
    lemma_result_characterized(d1);
    lemma_result_characterized(d2);
}

} // verus!
