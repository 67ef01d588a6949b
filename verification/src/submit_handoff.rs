//! The handoff from the emit thread to the submit thread of a paced output.
//!
//! The emit thread stamps a frame and hands it over; the submit thread sends
//! it. This is the decision layer between them: a bounded queue that keeps the
//! freshest frames, the lateness of a frame where it leaves, and the counters
//! that go into the health report.

use crate::pacing_stats::PacingStats;
use std::collections::VecDeque;
use vstd::prelude::*;
use vstd::relations::{sorted_by, total_ordering};

verus! {

/// Slots the submit thread may fall behind before a frame is dropped.
pub const SUBMIT_HANDOFF_BOUND: usize = 2;

/// A frame is late when it began to leave more than this (2 ms) past its stamp.
pub const SUBMIT_LATE_THRESHOLD_100NS: i64 = 20_000;

/// Number of submit costs the percentile is taken over.
pub const SUBMIT_COST_RING: usize = 256;

/// One decoded frame on its way through the pacer, with the audio that belongs
/// to it. `V` is the picture, `A` one block of audio.
pub struct PacedFrame<V, A> {
    pub pts_ns: i64,
    pub width: u32,
    pub height: u32,
    pub stride: u32,
    pub video: V,
    pub audio: Vec<A>,
}

/// One stamped frame for the submit thread. `V` is the (shared) picture, `A`
/// one block of audio.
pub struct SubmitJob<V, A> {
    pub width: u32,
    pub height: u32,
    pub stride: u32,
    pub video: V,
    /// The boundary's audio.
    pub audio: Vec<A>,
    /// On-grid video timecode (100 ns since the epoch): the frame's stamp.
    pub video_tc_100ns: i64,
    /// Wall-clock audio timecode (100 ns since the epoch).
    pub audio_tc_100ns: i64,
}

/// `copy` holds clones of the elements of `original`, in order.
pub open spec fn cloned_blocks<A: Clone>(original: Seq<A>, copy: Seq<A>) -> bool {
    &&& copy.len() == original.len()
    &&& forall|i: int| 0 <= i < original.len() ==> cloned(original[i], #[trigger] copy[i])
}

fn clone_blocks<A: Clone>(blocks: &[A]) -> (r: Vec<A>)
    ensures
        cloned_blocks(blocks@, r@),
{
    let mut out: Vec<A> = Vec::new();
    let mut i: usize = 0;
    while i < blocks.len()
        invariant
            i <= blocks@.len(),
            out@.len() == i,
            forall|j: int| 0 <= j < i ==> cloned(blocks@[j], #[trigger] out@[j]),
        decreases blocks@.len() - i,
    {
        out.push(blocks[i].clone());
        i = i + 1;
    }
    out
}

impl<V: Clone, A: Clone> Clone for SubmitJob<V, A> {
    fn clone(&self) -> (r: Self)
        ensures
            r.width == self.width,
            r.height == self.height,
            r.stride == self.stride,
            cloned(self.video, r.video),
            cloned_blocks(self.audio@, r.audio@),
            r.video_tc_100ns == self.video_tc_100ns,
            r.audio_tc_100ns == self.audio_tc_100ns,
    {
        SubmitJob {
            width: self.width,
            height: self.height,
            stride: self.stride,
            video: self.video.clone(),
            audio: clone_blocks(&self.audio),
            video_tc_100ns: self.video_tc_100ns,
            audio_tc_100ns: self.audio_tc_100ns,
        }
    }
}

impl<V, A> SubmitJob<V, A> {
    /// The deadline that the submit lateness is measured against.
    pub fn stamp_boundary_100ns(&self) -> (r: i64)
        ensures
            r == self.video_tc_100ns,
    {
        self.video_tc_100ns
    }
}

impl<V: Clone, A: Clone> SubmitJob<V, A> {
    /// The job for a paced frame and its boundary audio, stamped for the given
    /// timecodes. The frame's own audio is not part of it.
    pub fn from_paced(
        frame: &PacedFrame<V, A>,
        audio: &[A],
        video_tc_100ns: i64,
        audio_tc_100ns: i64,
    ) -> (r: Self)
        ensures
            r.width == frame.width,
            r.height == frame.height,
            r.stride == frame.stride,
            cloned(frame.video, r.video),
            cloned_blocks(audio@, r.audio@),
            r.video_tc_100ns == video_tc_100ns,
            r.audio_tc_100ns == audio_tc_100ns,
    {
        SubmitJob {
            width: frame.width,
            height: frame.height,
            stride: frame.stride,
            video: frame.video.clone(),
            audio: clone_blocks(audio),
            video_tc_100ns,
            audio_tc_100ns,
        }
    }
}

/// What [`SubmitQueue::offer`] did.
#[derive(Clone, Copy, Debug, PartialEq, Eq, Structural)]
pub enum HandoffOutcome {
    /// Appended; `depth` is the depth after it.
    Enqueued { depth: usize },
    /// The queue was at its bound: the oldest job was dropped and this one
    /// appended. `depth` is the bound.
    Coalesced { depth: usize },
}

/// A bounded FIFO of jobs between one producer and one consumer.
pub struct SubmitQueue<T> {
    buf: VecDeque<T>,
    bound: usize,
}

/// The queue after `job` is offered to `queue` under `bound`: at the bound the
/// oldest job leaves.
pub open spec fn queue_after_offer<T>(queue: Seq<T>, bound: int, job: T) -> Seq<T> {
    if queue.len() >= bound {
        queue.skip(1).push(job)
    } else {
        queue.push(job)
    }
}

impl<T> View for SubmitQueue<T> {
    type V = Seq<T>;

    closed spec fn view(&self) -> Seq<T> {
        self.buf@
    }
}

impl<T> SubmitQueue<T> {
    /// Most jobs the queue holds.
    pub closed spec fn bound(&self) -> int {
        self.bound as int
    }

    /// The bound is at least one and never exceeded.
    pub open spec fn wf(&self) -> bool {
        &&& 1 <= self.bound() <= usize::MAX
        &&& self@.len() <= self.bound()
    }

    /// An empty queue of at most `bound` jobs.
    pub fn new(bound: usize) -> (r: Self)
        requires
            bound >= 1,
        ensures
            r.wf(),
            r@ == Seq::<T>::empty(),
            r.bound() == bound,
    {
        SubmitQueue { buf: VecDeque::with_capacity(bound), bound }
    }

    /// Jobs waiting.
    pub fn depth(&self) -> (r: usize)
        ensures
            r == self@.len(),
    {
        self.buf.len()
    }

    /// The queue is at its bound: the consumer has not kept up.
    pub fn is_full(&self) -> (r: bool)
        ensures
            r <==> self@.len() >= self.bound(),
    {
        self.buf.len() >= self.bound
    }

    pub fn is_empty(&self) -> (r: bool)
        ensures
            r <==> self@.len() == 0,
    {
        self.buf.len() == 0
    }

    /// Hand over `job`. At the bound the oldest job, the one that would leave
    /// furthest past its stamp, is dropped for it.
    pub fn offer(&mut self, job: T) -> (r: HandoffOutcome)
        requires
            old(self).wf(),
        ensures
            final(self).wf(),
            final(self).bound() == old(self).bound(),
            final(self)@ == queue_after_offer(old(self)@, old(self).bound(), job),
            r == if old(self)@.len() >= old(self).bound() {
                HandoffOutcome::Coalesced { depth: final(self)@.len() as usize }
            } else {
                HandoffOutcome::Enqueued { depth: final(self)@.len() as usize }
            },
    {
        if self.is_full() {
            let _ = self.buf.pop_front();
            self.buf.push_back(job);
            assert(self.buf@ == old(self)@.skip(1).push(job));
            HandoffOutcome::Coalesced { depth: self.buf.len() }
        } else {
            self.buf.push_back(job);
            HandoffOutcome::Enqueued { depth: self.buf.len() }
        }
    }

    /// The oldest job, or `None` when the queue is empty.
    pub fn take(&mut self) -> (r: Option<T>)
        requires
            old(self).wf(),
        ensures
            final(self).wf(),
            final(self).bound() == old(self).bound(),
            match r {
                Some(job) => old(self)@.len() > 0 && job == old(self)@[0] && final(self)@ == old(
                    self,
                )@.skip(1),
                None => old(self)@.len() == 0 && final(self)@ == old(self)@,
            },
    {
        let r = self.buf.pop_front();
        proof {
            if r is Some {
                assert(self.buf@ == old(self)@.skip(1));
            }
        }
        r
    }
}

/// The queue after every job of `jobs` is offered in order.
pub open spec fn queue_after_offers<T>(queue: Seq<T>, bound: int, jobs: Seq<T>) -> Seq<T>
    decreases jobs.len(),
{
    if jobs.len() == 0 {
        queue
    } else {
        queue_after_offer(queue_after_offers(queue, bound, jobs.drop_last()), bound, jobs.last())
    }
}

/// Whatever is offered, an unread queue holds exactly the freshest `bound`
/// jobs, oldest first: a slow consumer loses old jobs, never new ones.
pub proof fn law_queue_keeps_the_freshest<T>(bound: int, jobs: Seq<T>)
    requires
        bound >= 1,
    ensures
        queue_after_offers(Seq::empty(), bound, jobs) == if jobs.len() <= bound {
            jobs
        } else {
            jobs.skip(jobs.len() - bound)
        },
    decreases jobs.len(),
{
    if jobs.len() > 0 {
        law_queue_keeps_the_freshest(bound, jobs.drop_last());
        let before = queue_after_offers(Seq::empty(), bound, jobs.drop_last());
        let after = queue_after_offer(before, bound, jobs.last());
        if jobs.len() <= bound {
            assert(after =~= jobs);
        } else {
            assert(after =~= jobs.skip(jobs.len() - bound));
        }
    }
}

/// How long after its stamp a frame began to leave; 0 when it was early.
pub fn submit_late_100ns(stamp_boundary_100ns: i64, submit_start_100ns: i64) -> (r: i64)
    requires
        i64::MIN <= submit_start_100ns - stamp_boundary_100ns <= i64::MAX,
    ensures
        r == if submit_start_100ns > stamp_boundary_100ns {
            submit_start_100ns - stamp_boundary_100ns
        } else {
            0
        },
{
    let late: i64 = submit_start_100ns - stamp_boundary_100ns;
    if late > 0 {
        late
    } else {
        0
    }
}

/// Whether a lateness counts as a late frame: strictly more than 2 ms.
pub fn is_submit_late(late_100ns: i64) -> (r: bool)
    ensures
        r <==> late_100ns > SUBMIT_LATE_THRESHOLD_100NS,
{
    late_100ns > SUBMIT_LATE_THRESHOLD_100NS
}

/// 100 ns units as whole microseconds, 0 when negative.
pub open spec fn whole_us(x: int) -> int {
    if x > 0 {
        x / 10
    } else {
        0
    }
}

fn to_us(x_100ns: i64) -> (r: u64)
    ensures
        r == whole_us(x_100ns as int),
{
    if x_100ns > 0 {
        (x_100ns / 10) as u64
    } else {
        0
    }
}

/// Ascending order of costs.
pub open spec fn ascending() -> spec_fn(u64, u64) -> bool {
    |a: u64, b: u64| a <= b
}

/// The costs in ascending order.
pub open spec fn sorted_costs(costs: Seq<u64>) -> Seq<u64> {
    costs.sort_by(ascending())
}

/// The `p`-th percentile by nearest rank: the element of rank
/// `floor(len * p / 100)` of the sorted costs, clamped to the last one; 0 when
/// there is none.
pub open spec fn percentile_of(costs: Seq<u64>, p: int) -> int {
    if costs.len() == 0 {
        0
    } else {
        let rank = (costs.len() * p) / 100;
        let last = costs.len() - 1;
        sorted_costs(costs)[if rank < last { rank } else { last }] as int
    }
}

/// `recent` after one more cost, keeping at most the capacity of the ring.
pub open spec fn recent_after(recent: Seq<u64>, cost: u64) -> Seq<u64> {
    if recent.len() >= SUBMIT_COST_RING {
        recent.skip(1).push(cost)
    } else {
        recent.push(cost)
    }
}

proof fn lemma_ascending_total()
    ensures
        total_ordering(ascending()),
{
}

/// Sort by insertion.
fn sort_costs(costs: &Vec<u64>) -> (r: Vec<u64>)
    ensures
        r@ == sorted_costs(costs@),
        r@.len() == costs@.len(),
{
    let mut out: Vec<u64> = Vec::new();
    let mut i: usize = 0;
    assert(costs@.take(0) =~= out@);
    while i < costs.len()
        invariant
            i <= costs@.len(),
            out@.len() == i,
            out@.to_multiset() == costs@.take(i as int).to_multiset(),
            forall|a: int, b: int| 0 <= a < b < out@.len() ==> out@[a] <= out@[b],
        decreases costs@.len() - i,
    {
        let x: u64 = costs[i];
        let mut at: usize = out.len();
        while at > 0 && out[at - 1] > x
            invariant
                at <= out@.len(),
                forall|a: int| at <= a < out@.len() ==> out@[a] > x,
                forall|a: int, b: int| 0 <= a < b < out@.len() ==> out@[a] <= out@[b],
            decreases at,
        {
            at = at - 1;
        }
        let ghost before = out@;
        out.insert(at, x);
        proof {
            broadcast use vstd::seq_lib::group_to_multiset_ensures;

            assert(costs@.take(i + 1) =~= costs@.take(i as int).push(x));
            before.to_multiset_ensures();
            assert(out@.to_multiset() =~= before.to_multiset().insert(x));
        }
        i = i + 1;
    }
    proof {
        assert(costs@.take(i as int) =~= costs@);
        lemma_ascending_total();
        costs@.lemma_sort_by_ensures(ascending());
        assert(sorted_by(out@, ascending()));
        vstd::seq_lib::lemma_sorted_unique(out@, sorted_costs(costs@), ascending());
    }
    out
}

/// The most recent submit costs (us), oldest first in its view.
#[derive(Clone, Debug)]
pub struct CostRing {
    ring: [u64; SUBMIT_COST_RING],
    idx: usize,
    len: usize,
}

impl View for CostRing {
    type V = Seq<u64>;

    closed spec fn view(&self) -> Seq<u64> {
        if self.len < SUBMIT_COST_RING {
            self.ring@.take(self.len as int)
        } else {
            self.ring@.skip(self.idx as int) + self.ring@.take(self.idx as int)
        }
    }
}

impl CostRing {
    /// The ring is filled from its start and wraps once it is full.
    pub closed spec fn wf(&self) -> bool {
        &&& self.idx < SUBMIT_COST_RING
        &&& self.len <= SUBMIT_COST_RING
        &&& self.len < SUBMIT_COST_RING ==> self.idx == self.len
    }

    pub fn new() -> (r: Self)
        ensures
            r.wf(),
            r@ == Seq::<u64>::empty(),
    {
        let r = CostRing { ring: [0; 256], idx: 0, len: 0 };
        assert(r@ =~= Seq::<u64>::empty());
        r
    }

    /// Append one cost; a full ring forgets its oldest.
    pub fn push(&mut self, cost_us: u64)
        requires
            old(self).wf(),
        ensures
            final(self).wf(),
            final(self)@ == recent_after(old(self)@, cost_us),
    {
        let at: usize = self.idx;
        self.ring[at] = cost_us;
        self.idx = (at + 1) % SUBMIT_COST_RING;
        if self.len < SUBMIT_COST_RING {
            self.len = self.len + 1;
        }
        proof {
            assert(self.ring@ =~= old(self).ring@.update(at as int, cost_us));
            assert(self@ =~= recent_after(old(self)@, cost_us));
        }
    }

    /// The `p`-th percentile by nearest rank; 0 when nothing was recorded.
    pub fn percentile(&self, p: usize) -> (r: u64)
        requires
            self.wf(),
            SUBMIT_COST_RING * p <= usize::MAX,
        ensures
            r == percentile_of(self@, p as int),
    {
        if self.len == 0 {
            return 0;
        }
        let mut costs: Vec<u64> = Vec::new();
        let start: usize = if self.len < SUBMIT_COST_RING { 0 } else { self.idx };
        let mut i: usize = 0;
        while i < self.len
            invariant
                self.wf(),
                i <= self.len,
                start == if self.len < SUBMIT_COST_RING { 0 } else { self.idx },
                costs@ == self@.take(i as int),
            decreases self.len - i,
        {
            costs.push(self.ring[(start + i) % SUBMIT_COST_RING]);
            proof {
                assert(self.ring@[(start + i) % SUBMIT_COST_RING as int] == self@[i as int]);
                assert(self@.take(i + 1) =~= self@.take(i as int).push(self@[i as int]));
            }
            i = i + 1;
        }
        assert(costs@ =~= self@);
        let sorted: Vec<u64> = sort_costs(&costs);
        proof {
            assert(self.len * p <= SUBMIT_COST_RING * p) by (nonlinear_arith)
                requires
                    self.len <= SUBMIT_COST_RING,
                    0 <= p,
            ;
        }
        let rank: usize = (self.len * p) / 100;
        let last: usize = self.len - 1;
        let idx: usize = if rank < last { rank } else { last };
        sorted[idx]
    }
}

/// What the submit thread measured where frames leave.
#[derive(Clone, Debug)]
pub struct SubmitCounters {
    /// Frames handed to the sender.
    pub submitted: u64,
    /// Those that began to leave late.
    pub late_frames: u64,
    /// Worst lateness (us).
    pub max_late_us: u64,
    /// Jobs the handoff dropped.
    pub dropped: u64,
    /// Wall clock (100 ns) of the last submit; 0 when there was none.
    pub last_submit_100ns: i64,
    /// Recent submit costs.
    pub costs: CostRing,
}

impl Default for SubmitCounters {
    fn default() -> (r: Self)
        ensures
            r.wf(),
            r.is_zero(),
    {
        Self::new()
    }
}

impl SubmitCounters {
    /// No more frames were late than were submitted.
    pub open spec fn wf(&self) -> bool {
        &&& self.costs.wf()
        &&& self.late_frames <= self.submitted
    }

    /// Nothing recorded.
    pub open spec fn is_zero(&self) -> bool {
        &&& self.submitted == 0
        &&& self.late_frames == 0
        &&& self.max_late_us == 0
        &&& self.dropped == 0
        &&& self.last_submit_100ns == 0
        &&& self.costs@ == Seq::<u64>::empty()
    }

    pub fn new() -> (r: Self)
        ensures
            r.wf(),
            r.is_zero(),
    {
        SubmitCounters {
            submitted: 0,
            late_frames: 0,
            max_late_us: 0,
            dropped: 0,
            last_submit_100ns: 0,
            costs: CostRing::new(),
        }
    }

    /// `after` is these counters after one more frame: what it was late by, what its
    /// send cost, and when that was done.
    pub open spec fn records(&self, late: i64, cost: i64, done: i64, after: &Self) -> bool {
        &&& after.submitted == self.submitted + 1
        &&& after.late_frames == self.late_frames + if late > SUBMIT_LATE_THRESHOLD_100NS {
            1int
        } else {
            0int
        }
        &&& after.max_late_us == if whole_us(late as int) > self.max_late_us {
            whole_us(late as int)
        } else {
            self.max_late_us as int
        }
        &&& after.dropped == self.dropped
        &&& after.last_submit_100ns == done
        &&& after.costs@ == recent_after(self.costs@, whole_us(cost as int) as u64)
    }

    /// Record one submitted frame: its lateness, the cost of the send, and the
    /// wall clock after it.
    pub fn record_submit(&mut self, late_100ns: i64, cost_100ns: i64, submit_done_100ns: i64)
        requires
            old(self).wf(),
            old(self).submitted < u64::MAX,
        ensures
            final(self).wf(),
            old(self).records(late_100ns, cost_100ns, submit_done_100ns, final(self)),
            final(self).submitted == old(self).submitted + 1,
            final(self).late_frames == old(self).late_frames + if late_100ns
                > SUBMIT_LATE_THRESHOLD_100NS {
                1int
            } else {
                0int
            },
            final(self).max_late_us == if whole_us(late_100ns as int) > old(self).max_late_us {
                whole_us(late_100ns as int)
            } else {
                old(self).max_late_us as int
            },
            final(self).dropped == old(self).dropped,
            final(self).last_submit_100ns == submit_done_100ns,
            final(self).costs@ == recent_after(
                old(self).costs@,
                whole_us(cost_100ns as int) as u64,
            ),
    {
        self.submitted = self.submitted + 1;
        if is_submit_late(late_100ns) {
            self.late_frames = self.late_frames + 1;
        }
        let late_us: u64 = to_us(late_100ns);
        if late_us > self.max_late_us {
            self.max_late_us = late_us;
        }
        self.last_submit_100ns = submit_done_100ns;
        self.costs.push(to_us(cost_100ns));
    }

    /// Record one job that the handoff dropped.
    pub fn record_drop(&mut self)
        requires
            old(self).wf(),
            old(self).dropped < u64::MAX,
        ensures
            final(self).wf(),
            *final(self) == (SubmitCounters {
                dropped: (old(self).dropped + 1) as u64,
                ..*old(self)
            }),
    {
        self.dropped = self.dropped + 1;
    }

    /// The `p`-th percentile of the recent submit costs (us).
    pub fn cost_percentile_us(&self, p: usize) -> (r: u64)
        requires
            self.wf(),
            SUBMIT_COST_RING * p <= usize::MAX,
        ensures
            r == percentile_of(self.costs@, p as int),
    {
        self.costs.percentile(p)
    }

    /// 99th-percentile submit cost (us).
    pub fn submit_p99_us(&self) -> (r: u64)
        requires
            self.wf(),
        ensures
            r == percentile_of(self.costs@, 99),
    {
        self.cost_percentile_us(99)
    }
}

/// Worst single send call of a heartbeat window (us).
#[derive(Clone, Copy, Debug, Default, PartialEq, Eq, Structural)]
pub struct PacedSubmitStats {
    pub submit_call_us_max: u64,
    pub submit_call_us_p99: u64,
}

/// Fold one drained sub-window into the running gauge, keeping the worst of
/// each, so that a quiet sub-window never hides a spike.
pub fn paced_submit_snapshot(prev: PacedSubmitStats, max: u64, p99: u64) -> (r: PacedSubmitStats)
    ensures
        r.submit_call_us_max == if prev.submit_call_us_max >= max {
            prev.submit_call_us_max
        } else {
            max
        },
        r.submit_call_us_p99 == if prev.submit_call_us_p99 >= p99 {
            prev.submit_call_us_p99
        } else {
            p99
        },
{
    PacedSubmitStats {
        submit_call_us_max: if prev.submit_call_us_max >= max {
            prev.submit_call_us_max
        } else {
            max
        },
        submit_call_us_p99: if prev.submit_call_us_p99 >= p99 {
            prev.submit_call_us_p99
        } else {
            p99
        },
    }
}

/// The report of both sides: lateness, costs and send calls of the submit thread, the
/// drops of both, and the rest of the pacer.
pub open spec fn merged<E>(
    pacer: PacingStats<E>,
    submit: &SubmitCounters,
    paced_submit: PacedSubmitStats,
) -> PacingStats<E> {
    PacingStats {
        late_frames: submit.late_frames,
        max_late_us: submit.max_late_us,
        iter_p99_us: percentile_of(submit.costs@, 99) as u64,
        dropped: (pacer.dropped + submit.dropped) as u64,
        submit_call_us_max: paced_submit.submit_call_us_max,
        submit_call_us_p99: paced_submit.submit_call_us_p99,
        ..pacer
    }
}

/// One report out of the pacer's scheduling counters and the submit thread's
/// output counters. The frame leaves at the submit thread, so lateness and cost
/// are its own; drops are the sum of both sides; the rest is the pacer's.
pub fn merge_pacing_stats<E>(
    pacer: PacingStats<E>,
    submit: &SubmitCounters,
    paced_submit: PacedSubmitStats,
) -> (r: PacingStats<E>)
    requires
        submit.wf(),
        pacer.dropped + submit.dropped <= u64::MAX,
    ensures
        r == merged(pacer, submit, paced_submit),
        r == (PacingStats {
            late_frames: submit.late_frames,
            max_late_us: submit.max_late_us,
            iter_p99_us: percentile_of(submit.costs@, 99) as u64,
            dropped: (pacer.dropped + submit.dropped) as u64,
            submit_call_us_max: paced_submit.submit_call_us_max,
            submit_call_us_p99: paced_submit.submit_call_us_p99,
            ..pacer
        }),
{
    let dropped: u64 = pacer.dropped + submit.dropped;
    PacingStats {
        late_frames: submit.late_frames,
        max_late_us: submit.max_late_us,
        iter_p99_us: submit.submit_p99_us(),
        dropped,
        submit_call_us_max: paced_submit.submit_call_us_max,
        submit_call_us_p99: paced_submit.submit_call_us_p99,
        ..pacer
    }
}

/// The percentile is the cost at its rank of the costs in ascending order, however they
/// are arranged: `p` hundredths of their number, rounded down, or the largest.
pub proof fn law_the_percentile_has_its_rank(
    costs: Seq<u64>,
    p: int,
    sorted: Seq<u64>,
    rank: int,
)
    requires
        costs.len() > 0,
        sorted.to_multiset() == costs.to_multiset(),
        forall|a: int, b: int| 0 <= a < b < sorted.len() ==> sorted[a] <= sorted[b],
        0 <= 100 * rank <= costs.len() * p < 100 * rank + 100,
    ensures
        percentile_of(costs, p) == sorted[if rank < costs.len() {
            rank
        } else {
            costs.len() - 1
        }],
{
    broadcast use vstd::seq_lib::group_to_multiset_ensures;

    lemma_ascending_total();
    costs.lemma_sort_by_ensures(ascending());
    assert(sorted_by(sorted, ascending()));
    vstd::seq_lib::lemma_sorted_unique(sorted, sorted_costs(costs), ascending());
    assert(sorted.len() == sorted.to_multiset().len());
    assert(costs.len() == costs.to_multiset().len());
    assert((costs.len() * p) / 100 == rank);
}

/// The order in which costs came plays no part in a percentile, and none is 0.
pub proof fn law_the_percentile_ignores_the_order(a: Seq<u64>, b: Seq<u64>, p: int)
    requires
        a.to_multiset() == b.to_multiset(),
        p >= 0,
    ensures
        percentile_of(a, p) == percentile_of(b, p),
        percentile_of(Seq::empty(), p) == 0,
{
    broadcast use vstd::seq_lib::group_to_multiset_ensures;

    lemma_ascending_total();
    assert(a.len() == a.to_multiset().len() && b.len() == b.to_multiset().len());
    a.lemma_sort_by_ensures(ascending());
    b.lemma_sort_by_ensures(ascending());
    vstd::seq_lib::lemma_sorted_unique(sorted_costs(a), sorted_costs(b), ascending());
}

/// The ring keeps the last 256 costs, in the order in which they came: it is a queue of
/// that bound.
pub proof fn law_the_ring_keeps_the_last_costs(recent: Seq<u64>, cost: u64)
    ensures
        recent_after(recent, cost) == queue_after_offer(recent, 256, cost),
        recent_after(recent, cost).last() == cost,
        recent.len() <= 256 ==> recent_after(recent, cost).len() <= 256,
{
}

/// Microseconds are whole and rounded down, and a negative time is none.
pub proof fn law_microseconds_are_whole(x: int)
    ensures
        x >= 0 ==> 10 * whole_us(x) <= x < 10 * whole_us(x) + 10,
        x < 0 ==> whole_us(x) == 0,
{
}

/// A frame counts as late exactly past two milliseconds, the worst lateness never falls
/// and is at least its own, and the cost of its send is the latest of the costs.
pub proof fn law_what_a_frame_adds_to_the_counters(
    before: SubmitCounters,
    late: i64,
    cost: i64,
    done: i64,
    after: SubmitCounters,
)
    requires
        before.records(late, cost, done, &after),
    ensures
        after.submitted - before.submitted == 1,
        late > 20_000 ==> after.late_frames == before.late_frames + 1,
        late <= 20_000 ==> after.late_frames == before.late_frames,
        after.max_late_us >= before.max_late_us,
        10 * after.max_late_us + 10 > late,
        after.max_late_us == before.max_late_us || 10 * after.max_late_us <= late,
        after.last_submit_100ns == done,
        after.dropped == before.dropped,
        after.costs@.len() > 0,
        cost >= 0 ==> 10 * after.costs@.last() <= cost < 10 * after.costs@.last() + 10,
{
    if cost >= 0 {
        assert(0 <= whole_us(cost as int) <= u64::MAX);
    }
}

/// A lateness is the time past the stamp, never negative, and late means more than two
/// milliseconds of it.
pub proof fn law_lateness_is_time_past_the_stamp(stamp: i64, start: i64, late: i64, is_late: bool)
    requires
        call_ensures(submit_late_100ns, (stamp, start), late),
        call_ensures(is_submit_late, (late,), is_late),
    ensures
        start >= stamp ==> late == start - stamp,
        start < stamp ==> late == 0,
        is_late <==> start > stamp + 20_000,
{
}

/// A gauge keeps the worst it has seen: folding never lowers it, and the order of the
/// windows plays no part.
pub proof fn law_the_gauge_keeps_the_worst(
    prev: PacedSubmitStats,
    a: (u64, u64),
    b: (u64, u64),
    after_a: PacedSubmitStats,
    after_ab: PacedSubmitStats,
    after_b: PacedSubmitStats,
    after_ba: PacedSubmitStats,
)
    requires
        call_ensures(paced_submit_snapshot, (prev, a.0, a.1), after_a),
        call_ensures(paced_submit_snapshot, (after_a, b.0, b.1), after_ab),
        call_ensures(paced_submit_snapshot, (prev, b.0, b.1), after_b),
        call_ensures(paced_submit_snapshot, (after_b, a.0, a.1), after_ba),
    ensures
        after_ab == after_ba,
        after_a.submit_call_us_max >= prev.submit_call_us_max,
        after_a.submit_call_us_max >= a.0,
        after_a.submit_call_us_max == prev.submit_call_us_max || after_a.submit_call_us_max == a.0,
        after_a.submit_call_us_p99 >= prev.submit_call_us_p99,
        after_a.submit_call_us_p99 >= a.1,
        after_a.submit_call_us_p99 == prev.submit_call_us_p99 || after_a.submit_call_us_p99 == a.1,
{
}

/// In the report of both sides the drops of both count, lateness and costs are those of
/// the submit thread, and what the pacer decides is the pacer's.
pub proof fn law_a_report_takes_each_gauge_from_its_side<E>(
    pacer: PacingStats<E>,
    submit: SubmitCounters,
    paced_submit: PacedSubmitStats,
)
    requires
        pacer.dropped + submit.dropped <= u64::MAX,
    ensures
        ({
            let r = merged(pacer, &submit, paced_submit);
            &&& r.dropped == pacer.dropped + submit.dropped
            &&& r.late_frames == submit.late_frames
            &&& r.max_late_us == submit.max_late_us
            &&& r.submit_call_us_max == paced_submit.submit_call_us_max
            &&& r.submit_call_us_p99 == paced_submit.submit_call_us_p99
            &&& r.enabled == pacer.enabled
            &&& r.seq == pacer.seq
            &&& r.jitter_p99_us == pacer.jitter_p99_us
            &&& r.repeats == pacer.repeats
            &&& r.resyncs == pacer.resyncs
            &&& r.relatches == pacer.relatches
            &&& r.lag_slots == pacer.lag_slots
            &&& r.prep_p99_us == pacer.prep_p99_us
            &&& r.av_align_err_ms == pacer.av_align_err_ms
            &&& r.av_corrections == pacer.av_corrections
            &&& r.av_corrected_samples == pacer.av_corrected_samples
            &&& r.wall_anchor_max_step_us == pacer.wall_anchor_max_step_us
            &&& r.wall_anchor_wide_brackets == pacer.wall_anchor_wide_brackets
            &&& r.wall_anchor_slewed_us == pacer.wall_anchor_slewed_us
        }),
{
}

/// A job is made of its frame: its size, its stride and its picture, with the audio of
/// the boundary and both stamps as they were given.
pub proof fn law_a_job_carries_its_frame<V: Clone, A: Clone>(
    frame: PacedFrame<V, A>,
    audio: &[A],
    video_tc_100ns: i64,
    audio_tc_100ns: i64,
    job: SubmitJob<V, A>,
)
    requires
        call_ensures(
            SubmitJob::<V, A>::from_paced,
            (&frame, audio, video_tc_100ns, audio_tc_100ns),
            job,
        ),
    ensures
        job.width == frame.width,
        job.height == frame.height,
        job.stride == frame.stride,
        cloned(frame.video, job.video),
        job.audio@.len() == audio@.len(),
        forall|i: int| 0 <= i < audio@.len() ==> cloned(audio@[i], #[trigger] job.audio@[i]),
        job.video_tc_100ns == video_tc_100ns,
        job.audio_tc_100ns == audio_tc_100ns,
{
}

/// A copy of a job is whole: every number is the same, the picture is a copy of its
/// picture, and the audio is a copy of its audio, block by block.
pub proof fn law_a_copy_of_a_job_is_whole<V: Clone, A: Clone>(
    job: SubmitJob<V, A>,
    copy: SubmitJob<V, A>,
)
    requires
        call_ensures(SubmitJob::<V, A>::clone, (&job,), copy),
    ensures
        copy.width == job.width,
        copy.height == job.height,
        copy.stride == job.stride,
        copy.video_tc_100ns == job.video_tc_100ns,
        copy.audio_tc_100ns == job.audio_tc_100ns,
        cloned(job.video, copy.video),
        copy.audio@.len() == job.audio@.len(),
        forall|i: int|
            0 <= i < job.audio@.len() ==> cloned(job.audio@[i], #[trigger] copy.audio@[i]),
{
}

} // verus!
