//! The program bus: which source's frame goes out on the program output at
//! each boundary of the shared grid.
//!
//! Every paced source offers its boundary job right after its own submit. The
//! bus forwards a job only when that source owns the boundary, so the program
//! frame at a boundary is the selected source's frame at that boundary.
//!
//! **Ownership** is a short list of `(first_stamp, source)` segments. A cut
//! adds a segment a little ahead of what the sources have emitted; the previous
//! owner keeps every stamp before it.
//!
//! **Order.** Two sources offer from two threads, so frames may arrive out of
//! order. A stamp-ordered buffer holds them and boundaries are released
//! strictly one after the other. A boundary nobody delivers is missed and gets
//! the program's own standby pair. Only the program sender, on its own clock,
//! declares a boundary missed by time ([`ProgramCore::release`]); an offer
//! forwards, and fills only a gap that the owner is already past.
//!
//! More than [`GENLOCK_MAX_CATCHUP_INTERVALS`] missed slots in a row are
//! skipped instead of filled one by one.

use crate::genlock::{
    floor_boundary_100ns, interval_100ns, lag_slots_100ns, strict_next_boundary_100ns,
    GENLOCK_GRID_FPS, GENLOCK_MAX_CATCHUP_INTERVALS, UNITS_PER_SECOND,
};
use crate::submit_handoff::{HandoffOutcome, SubmitJob, SubmitQueue};
use std::collections::{BTreeMap, HashMap};
use vstd::prelude::*;

verus! {

/// The program output's source name.
pub const PROGRAM_NDI_NAME: &'static str = "SP-program";

/// The setting that keeps the selected source (a playlist id).
pub const SETTING_PROGRAM_SOURCE: &'static str = "program_source";

/// A cut takes effect this many slots after the next boundary.
pub const CUT_LEAD_SLOTS: i64 = 1;

/// Slots the program waits for a live source's boundary before it fills it.
pub const PROGRAM_FILL_GRACE_SLOTS: i64 = 3;

/// A source that has offered nothing for this long is absent.
pub const PROGRAM_LIVE_WINDOW_100NS: i64 = UNITS_PER_SECOND;

/// Depth of the queue to the program sender: one full catch-up, the frame
/// behind it, and one to spare.
pub const PROGRAM_QUEUE_BOUND: usize = 10;

/// More frames than this waiting behind one missing boundary force it.
pub const PROGRAM_PENDING_BOUND: usize = 16;

/// Most boundaries settled by one call.
pub const MAX_RELEASE_STEPS: usize = 64;

/// Times and stamps lie within this distance of the epoch (over 7000 years), so
/// that the difference of two of them fits in 64 bits.
pub const TIME_LIMIT_100NS: i64 = 0x2000_0000_0000_0000;

/// One program boundary for the program sender.
pub enum ProgramJob<V, A> {
    /// A source's own boundary job, unchanged.
    Source(SubmitJob<V, A>),
    /// The program's own standby pair for a missed boundary.
    Standby { stamp_100ns: i64 },
}

impl<V, A> ProgramJob<V, A> {
    /// The boundary the job is stamped on.
    pub open spec fn stamp(self) -> i64 {
        match self {
            ProgramJob::Source(job) => job.video_tc_100ns,
            ProgramJob::Standby { stamp_100ns } => stamp_100ns,
        }
    }

    /// The boundary this job is stamped on.
    pub fn stamp_100ns(&self) -> (r: i64)
        ensures
            r == self.stamp(),
    {
        match self {
            ProgramJob::Source(job) => job.video_tc_100ns,
            ProgramJob::Standby { stamp_100ns } => *stamp_100ns,
        }
    }
}

/// What became of an offered job.
#[derive(Clone, Copy, Debug, PartialEq, Eq, Structural)]
pub enum OfferOutcome {
    /// Another source owns the boundary.
    NotOwner,
    /// The boundary was already served, or a job for it is waiting.
    Late,
    /// Taken into the program.
    Accepted,
}

/// Program telemetry.
#[derive(Clone, Copy, Debug, PartialEq, Eq, Structural)]
pub struct ProgramHealth {
    /// Source boundaries forwarded.
    pub forwarded: u64,
    /// Missed boundaries filled with the standby pair.
    pub filled: u64,
    /// Owned jobs that came after their boundary was served.
    pub late_dropped: u64,
    /// Runs of missed slots that were skipped.
    pub resyncs: u64,
    /// Program jobs dropped because the sender fell a full queue behind.
    pub coalesced: u64,
    /// Cuts recorded.
    pub cuts: u64,
    /// Pairs the program sender submitted.
    pub submitted: u64,
    /// Receivers connected to the program output.
    pub connections: i32,
    /// Boundary of the last submitted pair; 0 when there was none.
    pub last_stamp_100ns: i64,
}

impl ProgramHealth {
    /// All zero.
    pub open spec fn zero() -> ProgramHealth {
        ProgramHealth {
            forwarded: 0,
            filled: 0,
            late_dropped: 0,
            resyncs: 0,
            coalesced: 0,
            cuts: 0,
            submitted: 0,
            connections: 0,
            last_stamp_100ns: 0,
        }
    }

    /// Every counter can still take `n` more.
    pub open spec fn room(self, n: int) -> bool {
        &&& self.forwarded + n <= u64::MAX
        &&& self.filled + n <= u64::MAX
        &&& self.late_dropped + n <= u64::MAX
        &&& self.resyncs + n <= u64::MAX
        &&& self.coalesced + n <= u64::MAX
        &&& self.cuts + n <= u64::MAX
        &&& self.submitted + n <= u64::MAX
    }
}

impl Default for ProgramHealth {
    fn default() -> (r: Self)
        ensures
            r == ProgramHealth::zero(),
    {
        ProgramHealth {
            forwarded: 0,
            filled: 0,
            late_dropped: 0,
            resyncs: 0,
            coalesced: 0,
            cuts: 0,
            submitted: 0,
            connections: 0,
            last_stamp_100ns: 0,
        }
    }
}

/// The program state for the API.
#[derive(Clone, Debug, PartialEq, Eq)]
pub struct ProgramStatus {
    pub ndi_name: &'static str,
    /// The selected source; `None` while nothing is selected.
    pub source: Option<i64>,
    /// The source before the latest cut, while it still owns boundaries.
    pub previous: Option<i64>,
    /// First boundary the selected source owns; `None` when it owns every one.
    pub cut_boundary_100ns: Option<i64>,
    pub health: ProgramHealth,
}

/// The program as a mathematical value.
#[verifier::ext_equal]
pub struct ProgramState<V, A> {
    /// `(first_stamp, source)`, ascending by `first_stamp`.
    pub segments: Seq<(i64, i64)>,
    /// The last boundary committed to the queue.
    pub last: Option<i64>,
    /// Owned jobs waiting for an earlier boundary, by stamp.
    pub pending: Map<i64, SubmitJob<V, A>>,
    /// The last stamp each source reported.
    pub last_offer: Map<i64, i64>,
    /// Boundaries queued for the sender, oldest first.
    pub queue: Seq<ProgramJob<V, A>>,
    pub health: ProgramHealth,
}

/// The first boundary after `x` on the program grid.
pub open spec fn next_slot(x: int) -> int {
    crate::genlock::next_of(x, GENLOCK_GRID_FPS as int)
}

/// The last boundary at or before `x` on the program grid.
pub open spec fn floor_slot(x: int) -> int {
    crate::genlock::floor_of(x, GENLOCK_GRID_FPS as int)
}

/// Whole slots from `boundary` to `now` on the program grid.
pub open spec fn lag_slots(boundary: int, now: int) -> int {
    crate::genlock::lag_of(boundary, now, GENLOCK_GRID_FPS as int)
}

/// Whether `x` is a boundary of the program grid.
pub open spec fn is_boundary(x: int) -> bool {
    crate::genlock::on_grid(x, GENLOCK_GRID_FPS as int)
}

/// A time or stamp the program computes with.
pub open spec fn in_time(x: int) -> bool {
    -TIME_LIMIT_100NS <= x <= TIME_LIMIT_100NS
}

/// The source that owns `stamp`: that of the last segment begun by then.
pub open spec fn owner_in(segments: Seq<(i64, i64)>, stamp: int) -> Option<i64>
    decreases segments.len(),
{
    if segments.len() == 0 {
        None
    } else if segments.last().0 <= stamp {
        Some(segments.last().1)
    } else {
        owner_in(segments.drop_last(), stamp)
    }
}

/// `segments` without those that own no boundary from `next` on.
pub open spec fn pruned(segments: Seq<(i64, i64)>, next: int) -> Seq<(i64, i64)>
    decreases segments.len(),
{
    if segments.len() >= 2 && segments[1].0 <= next {
        pruned(segments.skip(1), next)
    } else {
        segments
    }
}

/// The segments of `segments` that begin before `boundary`.
pub open spec fn begun_before(segments: Seq<(i64, i64)>, boundary: int) -> Seq<(i64, i64)>
    decreases segments.len(),
{
    if segments.len() > 0 && segments.last().0 >= boundary {
        begun_before(segments.drop_last(), boundary)
    } else {
        segments
    }
}

/// `k` is the smallest key of `m`.
pub open spec fn is_first_key<J>(m: Map<i64, J>, k: i64) -> bool {
    &&& m.contains_key(k)
    &&& forall|j: i64| #[trigger] m.contains_key(j) ==> k <= j
}

/// The smallest key of `m`.
pub open spec fn first_key<J>(m: Map<i64, J>) -> Option<i64> {
    if exists|k: i64| is_first_key(m, k) {
        Some(choose|k: i64| is_first_key(m, k))
    } else {
        None
    }
}

/// The later of two times that may be absent.
pub open spec fn later(a: Option<i64>, b: Option<i64>) -> Option<i64> {
    match (a, b) {
        (Some(x), Some(y)) => Some(if x >= y { x } else { y }),
        (Some(x), None) => Some(x),
        (None, y) => y,
    }
}

/// The latest stamp any source of `segments` reported.
pub open spec fn latest_offer(
    segments: Seq<(i64, i64)>,
    last_offer: Map<i64, i64>,
) -> Option<i64>
    decreases segments.len(),
{
    if segments.len() == 0 {
        None
    } else {
        later(
            latest_offer(segments.drop_last(), last_offer),
            last_offer.get(segments.last().1),
        )
    }
}

impl<V, A> ProgramState<V, A> {
    /// An empty program.
    pub open spec fn empty() -> ProgramState<V, A> {
        ProgramState {
            segments: Seq::empty(),
            last: None,
            pending: Map::empty(),
            last_offer: Map::empty(),
            queue: Seq::empty(),
            health: ProgramHealth::zero(),
        }
    }

    /// The source that owns `stamp`.
    pub open spec fn owner(self, stamp: int) -> Option<i64> {
        owner_in(self.segments, stamp)
    }

    /// `pid` owns, or may still own, a boundary.
    pub open spec fn candidate(self, pid: i64) -> bool {
        exists|i: int| 0 <= i < self.segments.len() && (#[trigger] self.segments[i]).1 == pid
    }

    /// The target of the latest cut.
    pub open spec fn selected(self) -> Option<i64> {
        if self.segments.len() == 0 {
            None
        } else {
            Some(self.segments.last().1)
        }
    }

    /// `stamp` was already forwarded or filled.
    pub open spec fn served(self, stamp: i64) -> bool {
        self.last matches Some(l) && stamp <= l
    }

    /// The owner of `boundary` has reported a later boundary: since one source
    /// reports in stamp order, `boundary` will never come.
    pub open spec fn owner_past(self, boundary: int) -> bool {
        match self.owner(boundary) {
            Some(p) => self.last_offer.contains_key(p) && self.last_offer[p] >= next_slot(boundary),
            None => false,
        }
    }

    /// `boundary`, not delivered yet, counts as missed at `now`: it has been
    /// reached and has no owner, an owner that never reported, one that is
    /// already past it, one that is absent, or one that is a full grace late.
    pub open spec fn missed(self, boundary: int, now: int) -> bool {
        now >= boundary && match self.owner(boundary) {
            None => true,
            Some(p) => {
                ||| !self.last_offer.contains_key(p)
                ||| self.last_offer[p] >= next_slot(boundary)
                ||| now - self.last_offer[p] > PROGRAM_LIVE_WINDOW_100NS
                ||| now >= boundary + PROGRAM_FILL_GRACE_SLOTS * crate::genlock::interval_of(
                    GENLOCK_GRID_FPS as int,
                )
            },
        }
    }

    /// Too many jobs wait behind one missing boundary.
    pub open spec fn overflowing(self) -> bool {
        self.pending.dom().len() > PROGRAM_PENDING_BOUND
    }

    /// The boundary to serve next; `fallback` when nothing was served yet and
    /// nothing waits.
    pub open spec fn expected(self, fallback: int) -> int {
        match self.last {
            Some(l) => next_slot(l as int),
            None => match first_key(self.pending) {
                Some(k) => k as int,
                None => fallback,
            },
        }
    }

    /// `source` reports its progress.
    pub open spec fn touched(self, pid: i64, stamp: i64) -> ProgramState<V, A> {
        ProgramState { last_offer: self.last_offer.insert(pid, stamp), ..self }
    }

    /// One boundary goes to the sender.
    pub open spec fn committed(self, job: ProgramJob<V, A>) -> ProgramState<V, A> {
        ProgramState {
            last: Some(job.stamp()),
            queue: crate::submit_handoff::queue_after_offer(
                self.queue,
                PROGRAM_QUEUE_BOUND as int,
                job,
            ),
            segments: pruned(self.segments, next_slot(job.stamp() as int)),
            health: ProgramHealth {
                coalesced: if self.queue.len() >= PROGRAM_QUEUE_BOUND {
                    (self.health.coalesced + 1) as u64
                } else {
                    self.health.coalesced
                },
                ..self.health
            },
            ..self
        }
    }

    /// The waiting job of `boundary` goes out.
    pub open spec fn forwarded(self, boundary: i64) -> ProgramState<V, A> {
        let s = ProgramState {
            pending: self.pending.remove(boundary),
            health: ProgramHealth {
                forwarded: (self.health.forwarded + 1) as u64,
                ..self.health
            },
            ..self
        };
        s.committed(ProgramJob::Source(self.pending[boundary]))
    }

    /// The standby pair goes out on `boundary`.
    pub open spec fn filled(self, boundary: i64) -> ProgramState<V, A> {
        let s = ProgramState {
            health: ProgramHealth { filled: (self.health.filled + 1) as u64, ..self.health },
            ..self
        };
        s.committed(ProgramJob::Standby { stamp_100ns: boundary })
    }

    /// Skip to the boundary at `target`, which is served next.
    pub open spec fn resynced(self, target: int) -> ProgramState<V, A> {
        ProgramState {
            last: Some(floor_slot(target - 1) as i64),
            health: ProgramHealth { resyncs: (self.health.resyncs + 1) as u64, ..self.health },
            ..self
        }
    }

    /// Settle the boundary `expected` once it is known to be missed at
    /// `horizon`: skip to `target` after too many missed slots, else fill.
    pub open spec fn settled(
        self,
        expected: int,
        horizon: int,
        target: int,
    ) -> ProgramState<V, A> {
        if lag_slots(expected, horizon) > GENLOCK_MAX_CATCHUP_INTERVALS {
            self.resynced(target)
        } else {
            self.filled(expected as i64)
        }
    }

    /// Where the sender's check skips to: the first waiting boundary, or the last one
    /// reached, whichever comes first.
    pub open spec fn skip_target(self, floor_now: int) -> int {
        match first_key(self.pending) {
            Some(k) => if k <= floor_now {
                k as int
            } else {
                floor_now
            },
            None => floor_now,
        }
    }

    /// The program after the sender submitted the pair stamped `stamp`.
    pub open spec fn recorded(self, stamp: i64) -> ProgramState<V, A> {
        ProgramState {
            health: ProgramHealth {
                submitted: (self.health.submitted + 1) as u64,
                last_stamp_100ns: stamp,
                ..self.health
            },
            ..self
        }
    }

    /// The program after `n` receivers were counted.
    pub open spec fn counted(self, n: i32) -> ProgramState<V, A> {
        ProgramState { health: ProgramHealth { connections: n, ..self.health }, ..self }
    }

    /// The program after `pid` was selected for every boundary.
    pub open spec fn selected_initially(self, pid: i64) -> ProgramState<V, A> {
        ProgramState { segments: seq![(i64::MIN, pid)], ..self }
    }

    /// The program after the sender took what is queued first, if anything.
    pub open spec fn after_take(self) -> ProgramState<V, A> {
        ProgramState {
            queue: if self.queue.len() > 0 {
                self.queue.skip(1)
            } else {
                self.queue
            },
            ..self
        }
    }

    /// One step of the sender's check at `now`: `None` when the next boundary
    /// is neither here nor missed.
    pub open spec fn release_step(self, now: int) -> Option<ProgramState<V, A>> {
        let floor_now = floor_slot(now);
        let expected = self.expected(floor_now);
        if self.pending.contains_key(expected as i64) {
            Some(self.forwarded(expected as i64))
        } else if !self.overflowing() && !self.missed(expected, now) {
            None
        } else {
            Some(self.settled(expected, floor_now, self.skip_target(floor_now)))
        }
    }

    /// At most `n` steps of the sender's check.
    pub open spec fn released(self, now: int, n: nat) -> ProgramState<V, A>
        decreases n,
    {
        if n == 0 {
            self
        } else {
            match self.release_step(now) {
                Some(t) => t.released(now, (n - 1) as nat),
                None => self,
            }
        }
    }

    /// One step after an offer: forward the next boundary if its job waits, and
    /// settle it if jobs wait behind it and its owner is past it (or too many
    /// wait). No clock takes part.
    pub open spec fn ready_step(self) -> Option<ProgramState<V, A>> {
        match first_key(self.pending) {
            None => None,
            Some(first) => {
                let expected = self.expected(first as int);
                if self.pending.contains_key(expected as i64) {
                    Some(self.forwarded(expected as i64))
                } else if !self.overflowing() && !self.owner_past(expected) {
                    None
                } else {
                    Some(self.settled(expected, first as int, first as int))
                }
            },
        }
    }

    /// At most `n` steps after an offer.
    pub open spec fn readied(self, n: nat) -> ProgramState<V, A>
        decreases n,
    {
        if n == 0 {
            self
        } else {
            match self.ready_step() {
                Some(t) => t.readied((n - 1) as nat),
                None => self,
            }
        }
    }

    /// What an offer of `job` by `pid` comes to.
    pub open spec fn offer_outcome(self, pid: i64, stamp: i64) -> OfferOutcome {
        if self.owner(stamp as int) != Some(pid) {
            OfferOutcome::NotOwner
        } else if self.served(stamp) || self.pending.contains_key(stamp) {
            OfferOutcome::Late
        } else {
            OfferOutcome::Accepted
        }
    }

    /// The program after `pid` offered `job`.
    pub open spec fn offered(self, pid: i64, job: SubmitJob<V, A>) -> ProgramState<V, A> {
        let stamp = job.video_tc_100ns;
        let s = self.touched(pid, stamp);
        match self.offer_outcome(pid, stamp) {
            OfferOutcome::NotOwner => s,
            OfferOutcome::Late => ProgramState {
                health: ProgramHealth {
                    late_dropped: (s.health.late_dropped + 1) as u64,
                    ..s.health
                },
                ..s
            },
            OfferOutcome::Accepted => (ProgramState {
                pending: s.pending.insert(stamp, job),
                ..s
            }).readied(MAX_RELEASE_STEPS as nat),
        }
    }

    /// The instant a cut to `pid` is placed after: the furthest that the program
    /// sources, `pid` and the program itself have come; `now` when none of them
    /// has emitted anything.
    pub open spec fn cut_reference(self, pid: i64, now: i64) -> i64 {
        let seen = later(
            later(latest_offer(self.segments, self.last_offer), self.last_offer.get(pid)),
            self.last,
        );
        match seen {
            Some(x) => x,
            None => now,
        }
    }

    /// The first boundary that `pid` owns after a cut at `now`.
    pub open spec fn cut_boundary(self, pid: i64, now: i64) -> int {
        next_slot(next_slot(self.cut_reference(pid, now) as int))
    }

    /// The segments after a cut to `pid` on `boundary`, before pruning. Cutting
    /// back to the owner before `boundary` cancels what was recorded after it.
    pub open spec fn segments_after_cut(self, pid: i64, boundary: i64) -> Seq<(i64, i64)> {
        let kept = begun_before(self.segments, boundary as int);
        if kept.len() > 0 && kept.last().1 == pid {
            kept
        } else {
            kept.push((boundary, pid))
        }
    }

    /// The program after a cut to `pid` at `now`.
    pub open spec fn cut_to(self, pid: i64, now: i64) -> ProgramState<V, A> {
        if self.selected() == Some(pid) {
            self
        } else {
            let segments = self.segments_after_cut(pid, self.cut_boundary(pid, now) as i64);
            ProgramState {
                segments: match self.last {
                    Some(l) => pruned(segments, next_slot(l as int)),
                    None => segments,
                },
                health: ProgramHealth { cuts: (self.health.cuts + 1) as u64, ..self.health },
                ..self
            }
        }
    }

    /// What the API reports.
    pub open spec fn status(self) -> (Option<i64>, Option<i64>, Option<i64>, ProgramHealth) {
        let n = self.segments.len();
        (
            self.selected(),
            if n >= 2 {
                Some(self.segments[n - 2].1)
            } else {
                None
            },
            if n >= 1 && self.segments.last().0 != i64::MIN {
                Some(self.segments.last().0)
            } else {
                None
            },
            self.health,
        )
    }

    /// The invariant of every program.
    pub open spec fn wf(self) -> bool {
        &&& segments_wf(self.segments)
        &&& self.last matches Some(l) ==> -TIME_LIMIT_100NS - UNITS_PER_SECOND <= l
            <= TIME_LIMIT_100NS + MAX_RELEASE_STEPS * UNITS_PER_SECOND
        &&& pending_wf(self.pending)
        &&& offers_wf(self.last_offer)
        &&& self.queue.len() <= PROGRAM_QUEUE_BOUND
    }

    /// The last boundary served is a time like any other.
    pub open spec fn timely(self) -> bool {
        self.last matches Some(l) ==> l <= TIME_LIMIT_100NS
    }

    /// Every stamp lies on the grid and the program runs forward: what waits
    /// comes after what was served, and the queue is in ascending order. It
    /// holds of every program that was only offered on-grid stamps.
    pub open spec fn aligned(self) -> bool {
        &&& self.timely()
        &&& self.last matches Some(l) ==> is_boundary(l as int)
        &&& waits_in_order(self.last, self.pending)
        &&& queued_in_order(self.last, self.queue)
    }
}

/// Segments begin one after the other, and a segment never repeats the source
/// before it.
pub open spec fn segments_wf(segments: Seq<(i64, i64)>) -> bool {
    &&& forall|i: int, j: int|
        0 <= i < j < segments.len() ==> (#[trigger] segments[i]).0 < (#[trigger] segments[j]).0
    &&& forall|i: int, j: int|
        0 <= i < segments.len() && j == i + 1 && j < segments.len() ==> (
        #[trigger] segments[i]).1 != (#[trigger] segments[j]).1
    &&& forall|i: int|
        0 <= i < segments.len() ==> (#[trigger] segments[i]).0 <= TIME_LIMIT_100NS + 128
            * UNITS_PER_SECOND
}

/// Waiting jobs are filed under their stamp.
pub open spec fn pending_wf<V, A>(pending: Map<i64, SubmitJob<V, A>>) -> bool {
    &&& pending.dom().finite()
    &&& forall|k: i64| #[trigger]
        pending.contains_key(k) ==> in_time(k as int) && pending[k].video_tc_100ns == k
}

/// Reported stamps are times.
pub open spec fn offers_wf(last_offer: Map<i64, i64>) -> bool {
    forall|p: i64| #[trigger] last_offer.contains_key(p) ==> in_time(last_offer[p] as int)
}

/// What waits lies on the grid, after the last boundary served.
pub open spec fn waits_in_order<V, A>(
    last: Option<i64>,
    pending: Map<i64, SubmitJob<V, A>>,
) -> bool {
    forall|k: i64| #[trigger]
        pending.contains_key(k) ==> is_boundary(k as int) && (last is Some ==> last->0 < k)
}

/// What is queued lies on the grid, in ascending order, up to the last boundary
/// served.
pub open spec fn queued_in_order<V, A>(last: Option<i64>, queue: Seq<ProgramJob<V, A>>) -> bool {
    &&& forall|i: int, j: int|
        0 <= i < j < queue.len() ==> (#[trigger] queue[i]).stamp() < (#[trigger] queue[j]).stamp()
    &&& forall|i: int|
        0 <= i < queue.len() ==> is_boundary((#[trigger] queue[i]).stamp() as int) && last is Some
            && queue[i].stamp() <= last->0
}

proof fn lemma_first_key_unique<J>(m: Map<i64, J>, k: i64)
    requires
        is_first_key(m, k),
    ensures
        first_key(m) == Some(k),
{
    let c = choose|c: i64| is_first_key(m, c);
    assert(m.contains_key(c) && m.contains_key(k));
}

pub(crate) proof fn lemma_slot_bounds(x: int)
    ensures
        x < next_slot(x) <= x + 333_334,
        x - 333_334 < floor_slot(x) <= x,
{
    crate::genlock::law_next_is_near(x, GENLOCK_GRID_FPS as int);
    assert(crate::genlock::interval_of(30) == 333_333);
}

/// The program's decisions: ownership, the reorder buffer, the standby fill and
/// the bounded queue to the program sender. It reads no clock; every call takes
/// the time it needs.
pub struct ProgramCore<V, A> {
    segments: Vec<(i64, i64)>,
    last: Option<i64>,
    pending: BTreeMap<i64, SubmitJob<V, A>>,
    last_offer: HashMap<i64, i64>,
    queue: SubmitQueue<ProgramJob<V, A>>,
    health: ProgramHealth,
}

impl<V, A> View for ProgramCore<V, A> {
    type V = ProgramState<V, A>;

    closed spec fn view(&self) -> ProgramState<V, A> {
        ProgramState {
            segments: self.segments@,
            last: self.last,
            pending: self.pending@,
            last_offer: self.last_offer@,
            queue: self.queue@,
            health: self.health,
        }
    }
}

impl<V, A> Default for ProgramCore<V, A> {
    fn default() -> (r: Self)
        ensures
            r.wf(),
            r@ == ProgramState::<V, A>::empty(),
    {
        Self::new()
    }
}

impl<V, A> ProgramCore<V, A> {
    /// The invariant of every program.
    pub closed spec fn wf(&self) -> bool {
        &&& self@.wf()
        &&& self.queue.wf()
        &&& self.queue.bound() == PROGRAM_QUEUE_BOUND
    }

    /// An empty program: no source selected.
    pub fn new() -> (r: Self)
        ensures
            r.wf(),
            r@ == ProgramState::<V, A>::empty(),
            r@.aligned(),
    {
        let r = ProgramCore {
            segments: Vec::new(),
            last: None,
            pending: BTreeMap::new(),
            last_offer: HashMap::new(),
            queue: SubmitQueue::new(PROGRAM_QUEUE_BOUND),
            health: ProgramHealth::default(),
        };
        assert(r@ =~= ProgramState::<V, A>::empty());
        r
    }

    /// The source that owns boundary `stamp_100ns`, if any.
    pub fn owner_of(&self, stamp_100ns: i64) -> (r: Option<i64>)
        ensures
            r == self@.owner(stamp_100ns as int),
    {
        let mut n: usize = self.segments.len();
        proof {
            assert(self.segments@.take(n as int) =~= self.segments@);
        }
        while n > 0
            invariant
                n <= self.segments@.len(),
                self@.owner(stamp_100ns as int) == owner_in(
                    self.segments@.take(n as int),
                    stamp_100ns as int,
                ),
            decreases n,
        {
            let (first, pid) = self.segments[n - 1];
            proof {
                assert(self.segments@.take(n as int).last() == self.segments@[n - 1]);
                assert(self.segments@.take(n as int).drop_last() =~= self.segments@.take(n - 1));
            }
            if first <= stamp_100ns {
                return Some(pid);
            }
            n = n - 1;
        }
        None
    }

    /// Whether `pid` owns, or may still own, a program boundary.
    pub fn is_candidate(&self, pid: i64) -> (r: bool)
        ensures
            r == self@.candidate(pid),
    {
        let mut i: usize = 0;
        while i < self.segments.len()
            invariant
                i <= self.segments@.len(),
                forall|j: int| 0 <= j < i ==> (#[trigger] self.segments@[j]).1 != pid,
            decreases self.segments@.len() - i,
        {
            if self.segments[i].1 == pid {
                assert(self@.segments[i as int].1 == pid);
                return true;
            }
            i = i + 1;
        }
        false
    }

    /// The selected source (the latest cut's target).
    pub fn selected(&self) -> (r: Option<i64>)
        ensures
            r == self@.selected(),
    {
        let n: usize = self.segments.len();
        if n == 0 {
            None
        } else {
            Some(self.segments[n - 1].1)
        }
    }

    /// Select `pid` as the source of every boundary (there is nothing to cut
    /// away from).
    pub fn select_initial(&mut self, pid: i64)
        requires
            old(self).wf(),
        ensures
            final(self).wf(),
            final(self)@ == old(self)@.selected_initially(pid),
            old(self)@.aligned() ==> final(self)@.aligned(),
    {
        let mut segments: Vec<(i64, i64)> = Vec::new();
        segments.push((i64::MIN, pid));
        self.segments = segments;
        assert(self.segments@ =~= seq![(i64::MIN, pid)]);
        assert(self@.pending == old(self)@.pending && self@.queue == old(self)@.queue);
    }

    /// The last stamp `pid` reported.
    fn offered_by(&self, pid: i64) -> (r: Option<i64>)
        ensures
            r == self@.last_offer.get(pid),
    {
        match self.last_offer.get(&pid) {
            Some(x) => Some(*x),
            None => None,
        }
    }

    /// `pid` reports that it has come to `stamp_100ns`. Returns whether it may
    /// own a program boundary.
    pub fn touch(&mut self, pid: i64, stamp_100ns: i64) -> (r: bool)
        requires
            old(self).wf(),
            in_time(stamp_100ns as int),
        ensures
            final(self).wf(),
            final(self)@ == old(self)@.touched(pid, stamp_100ns),
            old(self)@.aligned() ==> final(self)@.aligned(),
            r == old(self)@.candidate(pid),
    {
        self.last_offer.insert(pid, stamp_100ns);
        assert(self@ =~= old(self)@.touched(pid, stamp_100ns));
        assert(self@.pending == old(self)@.pending && self@.queue == old(self)@.queue);
        self.is_candidate(pid)
    }

    /// The smallest waiting stamp.
    fn first_pending(&self) -> (r: Option<i64>)
        requires
            self.wf(),
        ensures
            r == first_key(self@.pending),
            r is None ==> forall|k: i64| !self@.pending.contains_key(k),
    {
        let mut first: Option<i64> = None;
        for k in it: self.pending.keys()
            invariant
                it.seq().unref().to_set() == self@.pending.dom(),
                forall|j: i64| #[trigger]
                    self@.pending.contains_key(j) ==> exists|i: int|
                        0 <= i < it.seq().len() && *(#[trigger] it.seq()[i]) == j,
                match first {
                    Some(f) => self@.pending.contains_key(f) && forall|i: int|
                        0 <= i < it.index() ==> f <= *#[trigger] it.seq()[i],
                    None => it.index() == 0,
                },
        {
            assert(it.seq().unref().to_set().contains(*k)) by {
                assert(it.seq().unref()[it.index()] == *k);
            }
            first = match first {
                Some(f) => if f <= *k {
                    Some(f)
                } else {
                    Some(*k)
                },
                None => Some(*k),
            };
        }
        proof {
            if first is Some {
                assert(is_first_key(self@.pending, first.unwrap()));
                lemma_first_key_unique(self@.pending, first.unwrap());
            }
        }
        first
    }

    /// Forget segments that can no longer own a boundary still to come.
    fn prune(&mut self)
        requires
            old(self).wf(),
        ensures
            final(self).wf(),
            final(self)@ == (ProgramState {
                segments: match old(self)@.last {
                    Some(l) => pruned(old(self)@.segments, next_slot(l as int)),
                    None => old(self)@.segments,
                },
                ..old(self)@
            }),
    {
        let last: i64 = match self.last {
            Some(l) => l,
            None => {
                return;
            },
        };
        let next: i64 = strict_next_boundary_100ns(last, GENLOCK_GRID_FPS);
        while self.segments.len() >= 2 && self.segments[1].0 <= next
            invariant
                self.wf(),
                next == next_slot(last as int),
                old(self)@.last == Some(last),
                pruned(self.segments@, next as int) == pruned(old(self)@.segments, next as int),
                self@ == (ProgramState { segments: self.segments@, ..old(self)@ }),
            decreases self.segments@.len(),
        {
            let ghost before = self.segments@;
            let _ = self.segments.remove(0);
            proof {
                assert(self.segments@ =~= before.skip(1));
                assert(segments_wf(self.segments@));
            }
        }
        assert(self@.segments == pruned(old(self)@.segments, next as int));
    }

    /// Queue one boundary for the program sender and advance.
    fn commit(&mut self, job: ProgramJob<V, A>)
        requires
            old(self).wf(),
            old(self)@.health.coalesced < u64::MAX,
            -TIME_LIMIT_100NS - UNITS_PER_SECOND <= job.stamp() <= TIME_LIMIT_100NS
                + MAX_RELEASE_STEPS * UNITS_PER_SECOND,
        ensures
            final(self).wf(),
            final(self)@ == old(self)@.committed(job),
    {
        self.last = Some(job.stamp_100ns());
        let outcome = self.queue.offer(job);
        match outcome {
            HandoffOutcome::Coalesced { .. } => {
                self.health.coalesced = self.health.coalesced + 1;
            },
            HandoffOutcome::Enqueued { .. } => {},
        }
        self.prune();
        assert(self@ =~= old(self)@.committed(job));
    }

    /// Whether boundary `boundary_100ns`, not delivered yet, counts as missed
    /// at `now_100ns`: never before it is reached.
    pub fn fill_due(&self, boundary_100ns: i64, now_100ns: i64) -> (r: bool)
        requires
            self.wf(),
            in_time(now_100ns as int),
            boundary_100ns <= TIME_LIMIT_100NS + 128 * UNITS_PER_SECOND,
        ensures
            r == self@.missed(boundary_100ns as int, now_100ns as int),
    {
        if now_100ns < boundary_100ns {
            return false;
        }
        let owner: i64 = match self.owner_of(boundary_100ns) {
            Some(p) => p,
            None => {
                return true;
            },
        };
        let offered: i64 = match self.offered_by(owner) {
            Some(x) => x,
            None => {
                return true;
            },
        };
        if offered >= strict_next_boundary_100ns(boundary_100ns, GENLOCK_GRID_FPS) {
            return true;
        }
        if now_100ns - offered > PROGRAM_LIVE_WINDOW_100NS {
            return true;
        }
        let width: i64 = interval_100ns(GENLOCK_GRID_FPS);
        now_100ns >= boundary_100ns + PROGRAM_FILL_GRACE_SLOTS * width
    }

    /// Whether the owner of `boundary_100ns` has already reported a later one.
    fn is_owner_past(&self, boundary_100ns: i64) -> (r: bool)
        requires
            self.wf(),
            boundary_100ns <= TIME_LIMIT_100NS + 128 * UNITS_PER_SECOND,
        ensures
            r == self@.owner_past(boundary_100ns as int),
    {
        match self.owner_of(boundary_100ns) {
            Some(p) => match self.offered_by(p) {
                Some(x) => x >= strict_next_boundary_100ns(boundary_100ns, GENLOCK_GRID_FPS),
                None => false,
            },
            None => false,
        }
    }

    /// Skip or fill the missed boundary `expected`.
    fn settle(&mut self, expected: i64, horizon: i64, target: i64)
        requires
            old(self).wf(),
            old(self)@.health.room(1),
            -TIME_LIMIT_100NS - UNITS_PER_SECOND <= expected <= TIME_LIMIT_100NS
                + MAX_RELEASE_STEPS * UNITS_PER_SECOND,
            -TIME_LIMIT_100NS - 333_334 <= horizon <= TIME_LIMIT_100NS,
            -TIME_LIMIT_100NS - 333_334 <= target <= TIME_LIMIT_100NS,
        ensures
            final(self).wf(),
            final(self)@ == old(self)@.settled(expected as int, horizon as int, target as int),
    {
        if lag_slots_100ns(expected, horizon, GENLOCK_GRID_FPS) > GENLOCK_MAX_CATCHUP_INTERVALS {
            proof {
                lemma_slot_bounds(target - 1);
            }
            self.last = Some(floor_boundary_100ns(target - 1, GENLOCK_GRID_FPS));
            self.health.resyncs = self.health.resyncs + 1;
            assert(self@ =~= old(self)@.resynced(target as int));
        } else {
            self.health.filled = self.health.filled + 1;
            let ghost mid = self@;
            assert(mid =~= (ProgramState {
                health: ProgramHealth {
                    filled: (old(self)@.health.filled + 1) as u64,
                    ..old(self)@.health
                },
                ..old(self)@
            }));
            self.commit(ProgramJob::Standby { stamp_100ns: expected });
        }
    }

    /// Forward the waiting job of `expected`.
    fn forward(&mut self, expected: i64) -> (r: bool)
        requires
            old(self).wf(),
            old(self)@.health.room(1),
        ensures
            final(self).wf(),
            r == old(self)@.pending.contains_key(expected),
            final(self)@ == if r {
                old(self)@.forwarded(expected)
            } else {
                old(self)@
            },
    {
        match self.pending.remove(&expected) {
            Some(job) => {
                self.health.forwarded = self.health.forwarded + 1;
                let ghost mid = self@;
                assert(mid =~= (ProgramState {
                    pending: old(self)@.pending.remove(expected),
                    health: ProgramHealth {
                        forwarded: (old(self)@.health.forwarded + 1) as u64,
                        ..old(self)@.health
                    },
                    ..old(self)@
                }));
                assert(pending_wf(mid.pending));
                self.commit(ProgramJob::Source(job));
                true
            },
            None => {
                assert(self@ =~= old(self)@);
                false
            },
        }
    }

    /// One step of the sender's check; `false` when nothing is ready.
    fn release_one(&mut self, now_100ns: i64) -> (more: bool)
        requires
            old(self).wf(),
            old(self)@.health.room(1),
            in_time(now_100ns as int),
            old(self)@.last matches Some(l) ==> l + 333_334 <= TIME_LIMIT_100NS + MAX_RELEASE_STEPS
                * UNITS_PER_SECOND,
        ensures
            final(self).wf(),
            match old(self)@.release_step(now_100ns as int) {
                Some(t) => more && final(self)@ == t,
                None => !more && final(self)@ == old(self)@,
            },
    {
        let floor_now: i64 = floor_boundary_100ns(now_100ns, GENLOCK_GRID_FPS);
        let first: Option<i64> = self.first_pending();
        proof {
            lemma_slot_bounds(now_100ns as int);
            if self@.last is Some {
                lemma_slot_bounds(self@.last->0 as int);
            }
        }
        let expected: i64 = match self.last {
            Some(last) => strict_next_boundary_100ns(last, GENLOCK_GRID_FPS),
            None => match first {
                Some(k) => k,
                None => floor_now,
            },
        };
        assert(expected == self@.expected(floor_now as int));
        if self.forward(expected) {
            return true;
        }
        let overflow: bool = self.pending.len() > PROGRAM_PENDING_BOUND;
        if !overflow && !self.fill_due(expected, now_100ns) {
            return false;
        }
        let target: i64 = match first {
            Some(k) => if k <= floor_now {
                k
            } else {
                floor_now
            },
            None => floor_now,
        };
        self.settle(expected, floor_now, target);
        true
    }

    /// Release, in stamp order, every boundary that is ready at `now_100ns`, the
    /// program sender's own clock: the waiting job when it is here, the standby
    /// pair when the boundary is missed, a skip when too many slots were. Stops
    /// at the first boundary that is neither here nor missed yet.
    pub fn release(&mut self, now_100ns: i64)
        requires
            old(self).wf(),
            old(self)@.timely(),
            old(self)@.health.room(MAX_RELEASE_STEPS as int),
            in_time(now_100ns as int),
        ensures
            final(self).wf(),
            final(self)@ == old(self)@.released(now_100ns as int, MAX_RELEASE_STEPS as nat),
            old(self)@.aligned() ==> final(self)@.aligned(),
    {
        let mut steps: usize = 0;
        while steps < MAX_RELEASE_STEPS
            invariant
                self.wf(),
                steps <= MAX_RELEASE_STEPS,
                in_time(now_100ns as int),
                self@.health.room(MAX_RELEASE_STEPS - steps),
                self@.last matches Some(l) ==> l <= TIME_LIMIT_100NS + steps * 333_334,
                old(self)@.released(now_100ns as int, MAX_RELEASE_STEPS as nat) == self@.released(
                    now_100ns as int,
                    (MAX_RELEASE_STEPS - steps) as nat,
                ),
                old(self)@.aligned() ==> self@.aligned(),
            decreases MAX_RELEASE_STEPS - steps,
        {
            let ghost before = self@;
            let more: bool = self.release_one(now_100ns);
            if !more {
                return;
            }
            proof {
                lemma_release_step_last(before, now_100ns as int);
                if before.aligned() {
                    lemma_release_step_aligned(before, now_100ns as int);
                }
            }
            steps = steps + 1;
        }
    }

    /// One step after an offer; `false` when nothing is ready.
    fn ready_one(&mut self) -> (more: bool)
        requires
            old(self).wf(),
            old(self)@.health.room(1),
            old(self)@.last matches Some(l) ==> l + 333_334 <= TIME_LIMIT_100NS + MAX_RELEASE_STEPS
                * UNITS_PER_SECOND,
        ensures
            final(self).wf(),
            match old(self)@.ready_step() {
                Some(t) => more && final(self)@ == t,
                None => !more && final(self)@ == old(self)@,
            },
    {
        let first: i64 = match self.first_pending() {
            Some(k) => k,
            None => {
                return false;
            },
        };
        proof {
            lemma_first_key_is_first(self@.pending);
            if self@.last is Some {
                lemma_slot_bounds(self@.last->0 as int);
            }
        }
        let expected: i64 = match self.last {
            Some(last) => strict_next_boundary_100ns(last, GENLOCK_GRID_FPS),
            None => first,
        };
        if self.forward(expected) {
            return true;
        }
        let overflow: bool = self.pending.len() > PROGRAM_PENDING_BOUND;
        if !overflow && !self.is_owner_past(expected) {
            return false;
        }
        self.settle(expected, first, first);
        true
    }

    /// Release what an offer made ready.
    fn release_ready(&mut self)
        requires
            old(self).wf(),
            old(self)@.timely(),
            old(self)@.health.room(MAX_RELEASE_STEPS as int),
        ensures
            final(self).wf(),
            final(self)@ == old(self)@.readied(MAX_RELEASE_STEPS as nat),
            old(self)@.aligned() ==> final(self)@.aligned(),
    {
        let mut steps: usize = 0;
        while steps < MAX_RELEASE_STEPS
            invariant
                self.wf(),
                steps <= MAX_RELEASE_STEPS,
                self@.health.room(MAX_RELEASE_STEPS - steps),
                self@.last matches Some(l) ==> l <= TIME_LIMIT_100NS + steps * 333_334,
                old(self)@.readied(MAX_RELEASE_STEPS as nat) == self@.readied(
                    (MAX_RELEASE_STEPS - steps) as nat,
                ),
                old(self)@.aligned() ==> self@.aligned(),
            decreases MAX_RELEASE_STEPS - steps,
        {
            let ghost before = self@;
            let more: bool = self.ready_one();
            if !more {
                return;
            }
            proof {
                lemma_ready_step_last(before);
                if before.aligned() {
                    lemma_ready_step_aligned(before);
                }
            }
            steps = steps + 1;
        }
    }

    /// A source offers its boundary job, right after its own submit. Records the
    /// source's progress, keeps the job only when the source owns the boundary
    /// and the boundary is still open, then releases whatever is ready. The
    /// source's clock takes no part.
    pub fn offer(&mut self, pid: i64, job: SubmitJob<V, A>, _now_100ns: i64) -> (r: OfferOutcome)
        requires
            old(self).wf(),
            old(self)@.timely(),
            old(self)@.health.room(MAX_RELEASE_STEPS as int),
            in_time(job.video_tc_100ns as int),
        ensures
            final(self).wf(),
            r == old(self)@.offer_outcome(pid, job.video_tc_100ns),
            final(self)@ == old(self)@.offered(pid, job),
            old(self)@.aligned() && is_boundary(job.video_tc_100ns as int)
                ==> final(self)@.aligned(),
    {
        let stamp: i64 = job.video_tc_100ns;
        let _ = self.touch(pid, stamp);
        if self.owner_of(stamp) != Some(pid) {
            return OfferOutcome::NotOwner;
        }
        let served: bool = match self.last {
            Some(l) => stamp <= l,
            None => false,
        };
        if served || self.pending.contains_key(&stamp) {
            self.health.late_dropped = self.health.late_dropped + 1;
            assert(self@ =~= old(self)@.offered(pid, job));
            return OfferOutcome::Late;
        }
        let ghost touched = self@;
        let ghost given = job;
        self.pending.insert(stamp, job);
        proof {
            assert(self@ =~= (ProgramState {
                pending: touched.pending.insert(stamp, given),
                ..touched
            }));
            assert(pending_wf(self@.pending));
            if old(self)@.aligned() && is_boundary(stamp as int) {
                assert(waits_in_order(self@.last, self@.pending));
            }
        }
        self.release_ready();
        OfferOutcome::Accepted
    }

    /// The latest stamp that a program source reported.
    fn latest_program_offer(&self) -> (r: Option<i64>)
        ensures
            r == latest_offer(self@.segments, self@.last_offer),
    {
        let mut seen: Option<i64> = None;
        let mut i: usize = 0;
        while i < self.segments.len()
            invariant
                i <= self.segments@.len(),
                seen == latest_offer(self.segments@.take(i as int), self@.last_offer),
            decreases self.segments@.len() - i,
        {
            let pid: i64 = self.segments[i].1;
            proof {
                assert(self.segments@.take(i + 1).drop_last() =~= self.segments@.take(i as int));
                assert(self.segments@.take(i + 1).last() == self.segments@[i as int]);
            }
            seen = later_of(seen, self.offered_by(pid));
            i = i + 1;
        }
        assert(self.segments@.take(i as int) =~= self.segments@);
        seen
    }

    /// Cut the program to `pid`. The cut lands one slot after the next boundary
    /// of what the program sources, `pid` and the program itself have emitted;
    /// `now_100ns` takes their place only when none of them has. The previous
    /// owner keeps every stamp before it, and a later cut replaces one recorded
    /// on the same or a later boundary. Returns `false`, recording nothing, when
    /// `pid` is already selected.
    pub fn cut(&mut self, pid: i64, now_100ns: i64) -> (r: bool)
        requires
            old(self).wf(),
            old(self)@.health.room(1),
            in_time(now_100ns as int),
        ensures
            final(self).wf(),
            r <==> old(self)@.selected() != Some(pid),
            final(self)@ == old(self)@.cut_to(pid, now_100ns),
            old(self)@.aligned() ==> final(self)@.aligned(),
    {
        if self.selected() == Some(pid) {
            return false;
        }
        let seen: Option<i64> = later_of(
            later_of(self.latest_program_offer(), self.offered_by(pid)),
            self.last,
        );
        let reference: i64 = match seen {
            Some(x) => x,
            None => now_100ns,
        };
        proof {
            lemma_latest_offer_in_time(self@.segments, self@.last_offer);
            lemma_slot_bounds(reference as int);
            lemma_slot_bounds(next_slot(reference as int));
        }
        let mut boundary: i64 = strict_next_boundary_100ns(reference, GENLOCK_GRID_FPS);
        let mut lead: i64 = 0;
        while lead < CUT_LEAD_SLOTS
            invariant
                0 <= lead <= CUT_LEAD_SLOTS,
                CUT_LEAD_SLOTS == 1,
                reference <= TIME_LIMIT_100NS + MAX_RELEASE_STEPS * UNITS_PER_SECOND,
                next_slot(reference as int) <= reference + 333_334,
                lead == 0 ==> boundary == next_slot(reference as int),
                lead == 1 ==> boundary == next_slot(next_slot(reference as int)),
            decreases CUT_LEAD_SLOTS - lead,
        {
            boundary = strict_next_boundary_100ns(boundary, GENLOCK_GRID_FPS);
            lead = lead + 1;
        }
        assert(self.segments@.take(self.segments@.len() as int) =~= self.segments@);
        while self.segments.len() > 0 && self.segments[self.segments.len() - 1].0 >= boundary
            invariant
                self.wf(),
                begun_before(self.segments@, boundary as int) == begun_before(
                    old(self)@.segments,
                    boundary as int,
                ),
                self@ == (ProgramState { segments: self.segments@, ..old(self)@ }),
            decreases self.segments@.len(),
        {
            let ghost before = self.segments@;
            let _ = self.segments.pop();
            proof {
                assert(self.segments@ =~= before.drop_last());
                assert(segments_wf(self.segments@));
            }
        }
        let ghost kept = self.segments@;
        let n: usize = self.segments.len();
        if n == 0 || self.segments[n - 1].1 != pid {
            self.segments.push((boundary, pid));
            proof {
                assert(self.segments@ =~= kept.push((boundary, pid)));
                assert(segments_wf(self.segments@));
            }
        }
        self.health.cuts = self.health.cuts + 1;
        self.prune();
        proof {
            assert(self@ =~= old(self)@.cut_to(pid, now_100ns));
            assert(self@.pending == old(self)@.pending && self@.queue == old(self)@.queue);
        }
        true
    }

    /// The next queued program boundary for the sender.
    pub fn take(&mut self) -> (r: Option<ProgramJob<V, A>>)
        requires
            old(self).wf(),
        ensures
            final(self).wf(),
            r == if old(self)@.queue.len() > 0 {
                Some(old(self)@.queue[0])
            } else {
                None
            },
            final(self)@ == old(self)@.after_take(),
            old(self)@.aligned() ==> final(self)@.aligned(),
    {
        let r = self.queue.take();
        assert(self@.pending == old(self)@.pending);
        r
    }

    /// The last boundary committed to the queue.
    pub fn last_served(&self) -> (r: Option<i64>)
        ensures
            r == self@.last,
    {
        self.last
    }

    /// Program boundaries queued for the sender.
    pub fn queued(&self) -> (r: usize)
        ensures
            r == self@.queue.len(),
    {
        self.queue.depth()
    }

    /// The sender submitted the pair stamped `stamp_100ns`.
    pub fn record_submitted(&mut self, stamp_100ns: i64)
        requires
            old(self).wf(),
            old(self)@.health.room(1),
        ensures
            final(self).wf(),
            final(self)@ == old(self)@.recorded(stamp_100ns),
            final(self)@ == (ProgramState {
                health: ProgramHealth {
                    submitted: (old(self)@.health.submitted + 1) as u64,
                    last_stamp_100ns: stamp_100ns,
                    ..old(self)@.health
                },
                ..old(self)@
            }),
            old(self)@.aligned() ==> final(self)@.aligned(),
    {
        self.health.submitted = self.health.submitted + 1;
        self.health.last_stamp_100ns = stamp_100ns;
        assert(self@.pending == old(self)@.pending && self@.queue == old(self)@.queue);
    }

    /// Latest number of receivers on the program output.
    pub fn set_connections(&mut self, n: i32)
        requires
            old(self).wf(),
        ensures
            final(self).wf(),
            final(self)@ == old(self)@.counted(n),
            final(self)@ == (ProgramState {
                health: ProgramHealth { connections: n, ..old(self)@.health },
                ..old(self)@
            }),
            old(self)@.aligned() ==> final(self)@.aligned(),
    {
        self.health.connections = n;
        assert(self@.pending == old(self)@.pending && self@.queue == old(self)@.queue);
    }

    /// The program state for the API.
    pub fn status(&self) -> (r: ProgramStatus)
        ensures
            r.ndi_name == PROGRAM_NDI_NAME,
            (r.source, r.previous, r.cut_boundary_100ns, r.health) == self@.status(),
    {
        let n: usize = self.segments.len();
        let previous: Option<i64> = if n >= 2 {
            Some(self.segments[n - 2].1)
        } else {
            None
        };
        let cut_boundary_100ns: Option<i64> = if n >= 1 && self.segments[n - 1].0 != i64::MIN {
            Some(self.segments[n - 1].0)
        } else {
            None
        };
        ProgramStatus {
            ndi_name: PROGRAM_NDI_NAME,
            source: self.selected(),
            previous,
            cut_boundary_100ns,
            health: self.health,
        }
    }
}

/// The later of two times that may be absent.
fn later_of(a: Option<i64>, b: Option<i64>) -> (r: Option<i64>)
    ensures
        r == later(a, b),
{
    match (a, b) {
        (Some(x), Some(y)) => Some(if x >= y { x } else { y }),
        (Some(x), None) => Some(x),
        (None, y) => y,
    }
}

proof fn lemma_latest_offer_in_time(segments: Seq<(i64, i64)>, last_offer: Map<i64, i64>)
    requires
        offers_wf(last_offer),
    ensures
        latest_offer(segments, last_offer) matches Some(x) ==> in_time(x as int),
    decreases segments.len(),
{
    if segments.len() > 0 {
        lemma_latest_offer_in_time(segments.drop_last(), last_offer);
    }
}

pub(crate) proof fn lemma_first_key_is_first<J>(m: Map<i64, J>)
    ensures
        first_key(m) matches Some(k) ==> is_first_key(m, k),
{
}

proof fn lemma_least_exists(s: Set<i64>)
    requires
        s.finite(),
        s.len() > 0,
    ensures
        exists|k: i64| #[trigger] s.contains(k) && forall|j: i64| #[trigger] s.contains(j) ==> k <= j,
    decreases s.len(),
{
    let x = s.choose();
    let rest = s.remove(x);
    if rest.len() == 0 {
        assert forall|j: i64| #[trigger] s.contains(j) implies x <= j by {
            if j != x {
                assert(rest.contains(j));
            }
        }
        assert(s.contains(x));
    } else {
        lemma_least_exists(rest);
        let k = choose|k: i64| #[trigger]
            rest.contains(k) && forall|j: i64| #[trigger] rest.contains(j) ==> k <= j;
        let least = if x <= k {
            x
        } else {
            k
        };
        assert(s.contains(least));
        assert forall|j: i64| #[trigger] s.contains(j) implies least <= j by {
            if j != x {
                assert(rest.contains(j));
            }
        }
    }
}

proof fn lemma_first_key_exists<J>(m: Map<i64, J>, k: i64)
    requires
        m.dom().finite(),
        m.contains_key(k),
    ensures
        first_key(m) is Some,
        is_first_key(m, first_key(m)->0),
{
    assert(m.dom().contains(k));
    lemma_least_exists(m.dom());
    let least = choose|c: i64| #[trigger]
        m.dom().contains(c) && forall|j: i64| #[trigger] m.dom().contains(j) ==> c <= j;
    assert(is_first_key(m, least));
    lemma_first_key_unique(m, least);
}

pub(crate) proof fn lemma_release_step_last<V, A>(s: ProgramState<V, A>, now: int)
    requires
        s.wf(),
        in_time(now),
    ensures
        s.release_step(now) matches Some(t) ==> (t.last matches Some(n) && (n <= TIME_LIMIT_100NS || (
        s.last matches Some(l) && n <= l + 333_334)) && (forall|k: int|
            #![trigger t.health.room(k)]
            s.health.room(k + 1) ==> t.health.room(k))),
{
    lemma_slot_bounds(now);
    lemma_first_key_is_first(s.pending);
    if s.last is Some {
        lemma_slot_bounds(s.last->0 as int);
    }
    let floor_now = floor_slot(now);
    let target = s.skip_target(floor_now);
    lemma_slot_bounds(target - 1);
}

pub(crate) proof fn lemma_ready_step_last<V, A>(s: ProgramState<V, A>)
    requires
        s.wf(),
    ensures
        s.ready_step() matches Some(t) ==> (t.last matches Some(n) && (n <= TIME_LIMIT_100NS || (
        s.last matches Some(l) && n <= l + 333_334)) && (forall|k: int|
            #![trigger t.health.room(k)]
            s.health.room(k + 1) ==> t.health.room(k))),
{
    lemma_first_key_is_first(s.pending);
    if s.last is Some {
        lemma_slot_bounds(s.last->0 as int);
    }
    if first_key(s.pending) is Some {
        lemma_slot_bounds(first_key(s.pending)->0 - 1);
    }
}

proof fn lemma_pruned_wf(segments: Seq<(i64, i64)>, next: int)
    requires
        segments_wf(segments),
    ensures
        segments_wf(pruned(segments, next)),
    decreases segments.len(),
{
    if segments.len() >= 2 && segments[1].0 <= next {
        assert(segments_wf(segments.skip(1)));
        lemma_pruned_wf(segments.skip(1), next);
    }
}

pub(crate) proof fn lemma_release_step_wf<V, A>(s: ProgramState<V, A>, now: int)
    requires
        s.wf(),
        s.aligned(),
        in_time(now),
    ensures
        s.release_step(now) matches Some(t) ==> t.wf(),
{
    if s.release_step(now) is Some {
        let t = s.release_step(now)->0;
        lemma_release_step_last(s, now);
        lemma_slot_bounds(now);
        lemma_first_key_is_first(s.pending);
        let floor_now = floor_slot(now);
        let target = s.skip_target(floor_now);
        lemma_slot_bounds(target - 1);
        if s.last is Some {
            lemma_slot_bounds(s.last->0 as int);
        }
        lemma_pruned_wf(s.segments, next_slot(t.last->0 as int));
        assert(pending_wf(t.pending));
    }
}

pub(crate) proof fn lemma_ready_step_wf<V, A>(s: ProgramState<V, A>)
    requires
        s.wf(),
        s.aligned(),
    ensures
        s.ready_step() matches Some(t) ==> t.wf(),
{
    if s.ready_step() is Some {
        let t = s.ready_step()->0;
        lemma_ready_step_last(s);
        lemma_first_key_is_first(s.pending);
        lemma_slot_bounds(first_key(s.pending)->0 - 1);
        if s.last is Some {
            lemma_slot_bounds(s.last->0 as int);
        }
        lemma_pruned_wf(s.segments, next_slot(t.last->0 as int));
        assert(pending_wf(t.pending));
    }
}

/// Serving an on-grid boundary that comes next keeps the program aligned.
proof fn lemma_committed_aligned<V, A>(s: ProgramState<V, A>, job: ProgramJob<V, A>)
    requires
        s.timely(),
        queued_in_order(s.last, s.queue),
        s.last is Some ==> s.last->0 < job.stamp(),
        is_boundary(job.stamp() as int),
        job.stamp() <= TIME_LIMIT_100NS,
        waits_in_order(Some(job.stamp()), s.pending),
    ensures
        s.committed(job).aligned(),
{
    let t = s.committed(job);
    assert forall|i: int| 0 <= i < t.queue.len() - 1 implies exists|j: int|
        0 <= j < s.queue.len() && #[trigger] t.queue[i] == s.queue[j] && j == i + (s.queue.len() + 1
            - t.queue.len()) by {
        let j = i + (s.queue.len() + 1 - t.queue.len());
        assert(t.queue[i] == s.queue[j]);
    }
    assert(t.queue.last() == job);
    assert(queued_in_order(t.last, t.queue));
}

pub(crate) proof fn lemma_release_step_aligned<V, A>(s: ProgramState<V, A>, now: int)
    requires
        s.wf(),
        s.aligned(),
        in_time(now),
    ensures
        s.release_step(now) matches Some(t) ==> t.aligned(),
{
    let fps = GENLOCK_GRID_FPS as int;
    let floor_now = floor_slot(now);
    lemma_slot_bounds(now);
    crate::genlock::law_floor_is_the_last_boundary(now, fps);
    lemma_first_key_is_first(s.pending);
    let expected = s.expected(floor_now);
    let target = s.skip_target(floor_now);
    assert forall|k: i64| #[trigger] s.pending.contains_key(k) implies target <= k by {
        lemma_first_key_exists(s.pending, k);
    }
    lemma_settling_aligned(s, floor_now, floor_now, target);
    if s.overflowing() {
        assert(s.pending.dom().contains(s.pending.dom().choose()));
        assert(s.pending.contains_key(s.pending.dom().choose()));
    }
}

pub(crate) proof fn lemma_ready_step_aligned<V, A>(s: ProgramState<V, A>)
    requires
        s.wf(),
        s.aligned(),
    ensures
        s.ready_step() matches Some(t) ==> t.aligned(),
{
    lemma_first_key_is_first(s.pending);
    if first_key(s.pending) is Some {
        let first = first_key(s.pending)->0 as int;
        lemma_settling_aligned(s, first, first, first);
    }
}

/// Forwarding or settling the expected boundary keeps the program aligned.
proof fn lemma_settling_aligned<V, A>(
    s: ProgramState<V, A>,
    fallback: int,
    horizon: int,
    target: int,
)
    requires
        s.wf(),
        s.aligned(),
        -TIME_LIMIT_100NS - 333_334 <= fallback <= TIME_LIMIT_100NS,
        is_boundary(fallback),
        horizon <= TIME_LIMIT_100NS,
        target <= horizon,
        target == horizon || s.pending.contains_key(target as i64),
        forall|k: i64| #[trigger] s.pending.contains_key(k) ==> target <= k,
        -TIME_LIMIT_100NS - 333_334 <= target,
    ensures
        ({
            let expected = s.expected(fallback);
            if s.pending.contains_key(expected as i64) {
                s.forwarded(expected as i64).aligned()
            } else {
                (expected <= TIME_LIMIT_100NS || exists|k: i64| s.pending.contains_key(k))
                    ==> s.settled(expected, horizon, target).aligned()
            }
        }),
{
    let fps = GENLOCK_GRID_FPS as int;
    let expected = s.expected(fallback);
    lemma_first_key_is_first(s.pending);
    if s.last is Some {
        lemma_slot_bounds(s.last->0 as int);
        crate::genlock::law_next_is_the_first_boundary_after(s.last->0 as int, fps);
    }
    if exists|k: i64| s.pending.contains_key(k) {
        let k = choose|k: i64| s.pending.contains_key(k);
        lemma_first_key_exists(s.pending, k);
    }
    assert(is_boundary(expected));
    assert forall|k: i64| #[trigger] s.pending.contains_key(k) implies expected <= k by {
        assert(is_boundary(k as int));
    }
    if s.pending.contains_key(expected as i64) {
        let e = expected as i64;
        let t = ProgramState {
            pending: s.pending.remove(e),
            health: ProgramHealth { forwarded: (s.health.forwarded + 1) as u64, ..s.health },
            ..s
        };
        lemma_committed_aligned(t, ProgramJob::Source(s.pending[e]));
    } else if expected <= TIME_LIMIT_100NS || (exists|k: i64| s.pending.contains_key(k)) {
        if lag_slots(expected, horizon) > GENLOCK_MAX_CATCHUP_INTERVALS {
            assert(horizon > expected);
            assert(target > expected);
            lemma_slot_bounds(target - 1);
            crate::genlock::law_floor_is_the_last_boundary(target - 1, fps);
            let t = s.resynced(target);
            assert(t.last->0 == floor_slot(target - 1));
            assert(waits_in_order(t.last, t.pending));
            assert(queued_in_order(t.last, t.queue));
        } else {
            let t = ProgramState {
                health: ProgramHealth { filled: (s.health.filled + 1) as u64, ..s.health },
                ..s
            };
            lemma_committed_aligned(t, ProgramJob::Standby { stamp_100ns: expected as i64 });
        }
    }
}


/// What the program sender got from [`ProgramBus::take_now`].
pub enum Take<V, A> {
    Job(ProgramJob<V, A>),
    /// Nothing is queued: check for missed boundaries.
    Idle,
    /// The bus was stopped and the queue is drained.
    Stopped,
}

/// The program and its stop flag: what the sender thread and the submit threads
/// share, one call at a time.
pub struct ProgramBus<V, A> {
    pub core: ProgramCore<V, A>,
    pub stop: bool,
}

impl<V, A> Default for ProgramBus<V, A> {
    fn default() -> (r: Self)
        ensures
            r.wf(),
            r.core@ == ProgramState::<V, A>::empty(),
            !r.stop,
    {
        Self::new()
    }
}

impl<V, A> ProgramBus<V, A> {
    /// The program is well formed.
    pub open spec fn wf(&self) -> bool {
        self.core.wf()
    }

    pub fn new() -> (r: Self)
        ensures
            r.wf(),
            r.core@ == ProgramState::<V, A>::empty(),
            !r.stop,
    {
        ProgramBus { core: ProgramCore::new(), stop: false }
    }

    /// See [`ProgramCore::is_candidate`].
    pub fn is_candidate(&self, pid: i64) -> (r: bool)
        ensures
            r == self.core@.candidate(pid),
    {
        self.core.is_candidate(pid)
    }

    /// See [`ProgramCore::offer`].
    pub fn offer(&mut self, pid: i64, job: SubmitJob<V, A>, now_100ns: i64) -> (r: OfferOutcome)
        requires
            old(self).wf(),
            old(self).core@.health.room(MAX_RELEASE_STEPS as int),
            old(self).core@.timely(),
            in_time(job.video_tc_100ns as int),
        ensures
            final(self).wf(),
            old(self).core@.aligned() && is_boundary(job.video_tc_100ns as int)
                ==> final(self).core@.aligned(),
            final(self).stop == old(self).stop,
            r == old(self).core@.offer_outcome(pid, job.video_tc_100ns),
            final(self).core@ == old(self).core@.offered(pid, job),
    {
        self.core.offer(pid, job, now_100ns)
    }

    /// Release what is ready or missed at the sender's own clock.
    pub fn release_due(&mut self, now_100ns: i64)
        requires
            old(self).wf(),
            old(self).core@.health.room(MAX_RELEASE_STEPS as int),
            old(self).core@.timely(),
            in_time(now_100ns as int),
        ensures
            final(self).wf(),
            old(self).core@.aligned() ==> final(self).core@.aligned(),
            final(self).stop == old(self).stop,
            final(self).core@ == old(self).core@.released(
                now_100ns as int,
                MAX_RELEASE_STEPS as nat,
            ),
    {
        self.core.release(now_100ns);
    }

    /// Cut the program to `pid` and return the new state.
    pub fn cut(&mut self, pid: i64, now_100ns: i64) -> (r: ProgramStatus)
        requires
            old(self).wf(),
            old(self).core@.health.room(1),
            in_time(now_100ns as int),
        ensures
            final(self).wf(),
            final(self).stop == old(self).stop,
            old(self).core@.aligned() ==> final(self).core@.aligned(),
            final(self).core@ == old(self).core@.cut_to(pid, now_100ns),
            r.ndi_name == PROGRAM_NDI_NAME,
            (r.source, r.previous, r.cut_boundary_100ns, r.health) == final(self).core@.status(),
    {
        let _ = self.core.cut(pid, now_100ns);
        self.core.status()
    }

    /// See [`ProgramCore::select_initial`].
    pub fn select_initial(&mut self, pid: i64)
        requires
            old(self).wf(),
        ensures
            final(self).wf(),
            final(self).stop == old(self).stop,
            old(self).core@.aligned() ==> final(self).core@.aligned(),
            final(self).core@ == old(self).core@.selected_initially(pid),
    {
        self.core.select_initial(pid);
    }

    pub fn status(&self) -> (r: ProgramStatus)
        ensures
            r.ndi_name == PROGRAM_NDI_NAME,
            (r.source, r.previous, r.cut_boundary_100ns, r.health) == self.core@.status(),
    {
        self.core.status()
    }

    /// The sender has nothing to do yet: nothing is queued and the bus runs.
    pub fn must_wait(&self) -> (r: bool)
        ensures
            r <==> self.core@.queue.len() == 0 && !self.stop,
    {
        self.core.queued() == 0 && !self.stop
    }

    /// The next queued boundary. A stopped bus still hands out what is queued.
    pub fn take_now(&mut self) -> (r: Take<V, A>)
        requires
            old(self).wf(),
        ensures
            final(self).wf(),
            final(self).stop == old(self).stop,
            old(self).core@.aligned() ==> final(self).core@.aligned(),
            r == if old(self).core@.queue.len() > 0 {
                Take::Job(old(self).core@.queue[0])
            } else if old(self).stop {
                Take::Stopped
            } else {
                Take::Idle
            },
            final(self).core@ == old(self).core@.after_take(),
    {
        match self.core.take() {
            Some(job) => Take::Job(job),
            None => if self.stop {
                Take::Stopped
            } else {
                Take::Idle
            },
        }
    }

    /// See [`ProgramCore::record_submitted`].
    pub fn record_submitted(&mut self, stamp_100ns: i64)
        requires
            old(self).wf(),
            old(self).core@.health.room(1),
        ensures
            final(self).wf(),
            final(self).stop == old(self).stop,
            old(self).core@.aligned() ==> final(self).core@.aligned(),
            final(self).core@ == old(self).core@.recorded(stamp_100ns),
            final(self).core@ == (ProgramState {
                health: ProgramHealth {
                    submitted: (old(self).core@.health.submitted + 1) as u64,
                    last_stamp_100ns: stamp_100ns,
                    ..old(self).core@.health
                },
                ..old(self).core@
            }),
    {
        self.core.record_submitted(stamp_100ns);
    }

    /// See [`ProgramCore::set_connections`].
    pub fn set_connections(&mut self, n: i32)
        requires
            old(self).wf(),
        ensures
            final(self).wf(),
            final(self).stop == old(self).stop,
            old(self).core@.aligned() ==> final(self).core@.aligned(),
            final(self).core@ == old(self).core@.counted(n),
            final(self).core@ == (ProgramState {
                health: ProgramHealth { connections: n, ..old(self).core@.health },
                ..old(self).core@
            }),
    {
        self.core.set_connections(n);
    }

    /// Stop the sender once the queue is drained.
    pub fn stop(&mut self)
        requires
            old(self).wf(),
        ensures
            final(self).wf(),
            final(self).stop,
            final(self).core@ == old(self).core@,
    {
        self.stop = true;
    }

    /// Whether the last boundary served lies in the range that an offer and a
    /// release compute with. It always does while every offered stamp is on the
    /// grid.
    pub fn is_timely(&self) -> (r: bool)
        ensures
            r <==> self.core@.timely(),
    {
        match self.core.last_served() {
            Some(l) => l <= TIME_LIMIT_100NS,
            None => true,
        }
    }

    /// Whether every call still has room in the telemetry counters: what an
    /// offer, a release, a cut and a submit ask for.
    pub fn has_room(&self) -> (r: bool)
        ensures
            r <==> self.core@.health.room(MAX_RELEASE_STEPS as int),
    {
        let h: ProgramHealth = self.core.status().health;
        let top: u64 = u64::MAX - MAX_RELEASE_STEPS as u64;
        h.forwarded <= top && h.filled <= top && h.late_dropped <= top && h.resyncs <= top
            && h.coalesced <= top && h.cuts <= top && h.submitted <= top
    }
}

/// A copy of a source's boundary job for the program, taken before the source's
/// own submit. Records the source's progress in any case, and copies only when
/// `pid` may own a program boundary.
pub fn program_copy<V: Clone, A: Clone>(
    bus: &mut ProgramBus<V, A>,
    pid: i64,
    job: &SubmitJob<V, A>,
) -> (r: Option<SubmitJob<V, A>>)
    requires
        old(bus).wf(),
        in_time(job.video_tc_100ns as int),
    ensures
        final(bus).wf(),
        final(bus).stop == old(bus).stop,
        old(bus).core@.aligned() ==> final(bus).core@.aligned(),
        final(bus).core@ == old(bus).core@.touched(pid, job.video_tc_100ns),
        r is Some <==> old(bus).core@.candidate(pid),
        r matches Some(copy) ==> call_ensures(SubmitJob::clone, (job,), copy),
{
    if bus.core.touch(pid, job.video_tc_100ns) {
        Some(job.clone())
    } else {
        None
    }
}

/// How the selected source is persisted under [`SETTING_PROGRAM_SOURCE`].
pub fn persisted_source(pid: i64) -> (r: String)
    ensures
        r@ == crate::text::decimal(pid as int),
{
    crate::text::int_text(pid)
}

/// Restore the persisted source into `bus` at startup. A missing setting, or one
/// that is not a playlist id, leaves the program on its standby pair.
pub fn restore_selected_source<V, A>(bus: &mut ProgramBus<V, A>, raw: Option<&str>) -> (r: Option<
    i64,
>)
    requires
        old(bus).wf(),
    ensures
        final(bus).wf(),
        final(bus).stop == old(bus).stop,
        old(bus).core@.aligned() ==> final(bus).core@.aligned(),
        match r {
            Some(pid) => {
                &&& raw matches Some(s) && crate::text::parsed_int(s@) == Some(pid as int)
                &&& final(bus).core@ == old(bus).core@.selected_initially(pid)
            },
            None => {
                &&& raw matches Some(s) ==> crate::text::parsed_int(s@) is None
                &&& final(bus).core@ == old(bus).core@
            },
        },
{
    match raw {
        Some(s) => match crate::text::parse_int(s) {
            Some(pid) => {
                bus.select_initial(pid);
                Some(pid)
            },
            None => None,
        },
        None => None,
    }
}

/// Whether a time lies in the range that the program computes with.
pub fn is_in_time(x_100ns: i64) -> (r: bool)
    ensures
        r <==> in_time(x_100ns as int),
{
    -TIME_LIMIT_100NS <= x_100ns && x_100ns <= TIME_LIMIT_100NS
}

} // verus!
