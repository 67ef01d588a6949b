//! What holds of the program bus over several calls.

use crate::genlock::{GENLOCK_GRID_FPS, GENLOCK_MAX_CATCHUP_INTERVALS};
use crate::program_bus::{ProgramJob, ProgramState, MAX_RELEASE_STEPS, TIME_LIMIT_100NS};
use vstd::prelude::*;

verus! {

/// A stamp that no boundary has been served at or after: one that still matters.
pub open spec fn to_come<V, A>(s: ProgramState<V, A>, stamp: int) -> bool {
    s.last matches Some(l) ==> crate::program_bus::next_slot(l as int) <= stamp
}

/// Every waiting job's boundary is owned, by a source that has reported at least
/// that boundary.
pub open spec fn waits_owned<V, A>(s: ProgramState<V, A>) -> bool {
    forall|k: i64| #[trigger]
        s.pending.contains_key(k) ==> {
            &&& s.owner(k as int) is Some
            &&& s.last_offer.contains_key(s.owner(k as int)->0)
            &&& s.last_offer[s.owner(k as int)->0] >= k
        }
}

proof fn lemma_owner_is_a_source(segments: Seq<(i64, i64)>, stamp: int)
    ensures
        crate::program_bus::owner_in(segments, stamp) matches Some(p) ==> exists|i: int|
            0 <= i < segments.len() && (#[trigger] segments[i]).1 == p && segments[i].0 <= stamp,
    decreases segments.len(),
{
    if segments.len() > 0 {
        if segments.last().0 <= stamp {
            assert(segments[segments.len() - 1].1 == segments.last().1);
        } else {
            lemma_owner_is_a_source(segments.drop_last(), stamp);
            if crate::program_bus::owner_in(segments.drop_last(), stamp) is Some {
                let i = choose|i: int|
                    0 <= i < segments.drop_last().len() && (
                    #[trigger] segments.drop_last()[i]).1 == crate::program_bus::owner_in(
                        segments.drop_last(),
                        stamp,
                    )->0 && segments.drop_last()[i].0 <= stamp;
                assert(segments[i] == segments.drop_last()[i]);
            }
        }
    }
}

proof fn lemma_owner_skips_the_first(segments: Seq<(i64, i64)>, stamp: int)
    requires
        segments.len() >= 2,
        segments[1].0 <= stamp,
    ensures
        crate::program_bus::owner_in(segments.skip(1), stamp) == crate::program_bus::owner_in(
            segments,
            stamp,
        ),
    decreases segments.len(),
{
    assert(segments.skip(1).last() == segments.last());
    if segments.last().0 > stamp {
        assert(segments.len() > 2);
        assert(segments.skip(1).drop_last() =~= segments.drop_last().skip(1));
        lemma_owner_skips_the_first(segments.drop_last(), stamp);
    }
}

proof fn lemma_pruning_keeps_owners(segments: Seq<(i64, i64)>, next: int, stamp: int)
    requires
        next <= stamp,
    ensures
        crate::program_bus::owner_in(crate::program_bus::pruned(segments, next), stamp)
            == crate::program_bus::owner_in(segments, stamp),
    decreases segments.len(),
{
    if segments.len() >= 2 && segments[1].0 <= next {
        lemma_owner_skips_the_first(segments, stamp);
        lemma_pruning_keeps_owners(segments.skip(1), next, stamp);
    }
}

proof fn lemma_owner_before_the_cut(segments: Seq<(i64, i64)>, boundary: int, stamp: int)
    requires
        stamp < boundary,
    ensures
        crate::program_bus::owner_in(crate::program_bus::begun_before(segments, boundary), stamp)
            == crate::program_bus::owner_in(segments, stamp),
    decreases segments.len(),
{
    if segments.len() > 0 && segments.last().0 >= boundary {
        lemma_owner_before_the_cut(segments.drop_last(), boundary, stamp);
    }
}

proof fn lemma_begun_before_ends_early(segments: Seq<(i64, i64)>, boundary: int)
    ensures
        crate::program_bus::begun_before(segments, boundary).len() > 0
            ==> crate::program_bus::begun_before(segments, boundary).last().0 < boundary,
    decreases segments.len(),
{
    if segments.len() > 0 && segments.last().0 >= boundary {
        lemma_begun_before_ends_early(segments.drop_last(), boundary);
    }
}

pub(crate) proof fn lemma_cut_boundary_is_a_stamp<V, A>(s: ProgramState<V, A>, pid: i64, now: i64)
    requires
        s.wf(),
        crate::program_bus::in_time(now as int),
    ensures
        s.cut_boundary(pid, now) as i64 == s.cut_boundary(pid, now),
{
    lemma_latest_bounds(s.segments, s.last_offer);
    let r = s.cut_reference(pid, now) as int;
    crate::genlock::law_next_is_near(r, GENLOCK_GRID_FPS as int);
    crate::genlock::law_next_is_near(
        crate::program_bus::next_slot(r),
        GENLOCK_GRID_FPS as int,
    );
    assert(crate::genlock::interval_of(30) == 333_333);
}

pub(crate) proof fn lemma_latest_bounds(segments: Seq<(i64, i64)>, last_offer: Map<i64, i64>)
    ensures
        crate::program_bus::offers_wf(last_offer) ==> (crate::program_bus::latest_offer(
            segments,
            last_offer,
        ) matches Some(x) ==> crate::program_bus::in_time(x as int)),
        forall|i: int|
            0 <= i < segments.len() && last_offer.contains_key((#[trigger] segments[i]).1)
                ==> crate::program_bus::latest_offer(segments, last_offer) is Some
                && last_offer[segments[i].1] <= crate::program_bus::latest_offer(
                segments,
                last_offer,
            )->0,
    decreases segments.len(),
{
    if segments.len() > 0 {
        lemma_latest_bounds(segments.drop_last(), last_offer);
        assert forall|i: int|
            0 <= i < segments.len() && last_offer.contains_key(
                (#[trigger] segments[i]).1,
            ) implies crate::program_bus::latest_offer(segments, last_offer) is Some
            && last_offer[segments[i].1] <= crate::program_bus::latest_offer(
            segments,
            last_offer,
        )->0 by {
            if i < segments.len() - 1 {
                assert(segments.drop_last()[i] == segments[i]);
            }
        }
    }
}

/// A cut switches ownership exactly on its boundary: of the boundaries still to
/// come, the new source owns those from the cut boundary on, and those before
/// keep the owner they had. So every boundary has one owner: no hole, no double.
pub proof fn law_cut_switches_on_its_boundary<V, A>(
    s: ProgramState<V, A>,
    pid: i64,
    now: i64,
    stamp: int,
)
    requires
        s.wf(),
        crate::program_bus::in_time(now as int),
        s.selected() != Some(pid),
        to_come(s, stamp),
    ensures
        s.cut_to(pid, now).owner(stamp) == if stamp >= s.cut_boundary(pid, now) {
            Some(pid)
        } else {
            s.owner(stamp)
        },
{
    lemma_cut_boundary_is_a_stamp(s, pid, now);
    let boundary = s.cut_boundary(pid, now);
    let kept = crate::program_bus::begun_before(s.segments, boundary);
    let segments = s.segments_after_cut(pid, boundary as i64);
    lemma_begun_before_ends_early(s.segments, boundary);
    if stamp < boundary {
        lemma_owner_before_the_cut(s.segments, boundary, stamp);
        if segments != kept {
            assert(segments.last().0 == boundary);
            assert(segments.drop_last() =~= kept);
        }
    } else {
        assert(segments.last().0 <= stamp && segments.last().1 == pid);
    }
    if s.last is Some {
        lemma_pruning_keeps_owners(
            segments,
            crate::program_bus::next_slot(s.last->0 as int),
            stamp,
        );
    }
}

/// A cut lands at least one full slot after everything that the program, its
/// sources and the new source have emitted: both sources emit the cut boundary
/// after the cut was recorded.
pub proof fn law_cut_lands_ahead_of_the_sources<V, A>(s: ProgramState<V, A>, pid: i64, now: i64)
    ensures
        s.last matches Some(l) ==> crate::program_bus::next_slot(l as int) < s.cut_boundary(
            pid,
            now,
        ),
        s.last_offer.contains_key(pid) ==> crate::program_bus::next_slot(
            s.last_offer[pid] as int,
        ) < s.cut_boundary(pid, now),
        forall|p: i64| #[trigger]
            s.candidate(p) && s.last_offer.contains_key(p) ==> crate::program_bus::next_slot(
                s.last_offer[p] as int,
            ) < s.cut_boundary(pid, now),
{
    lemma_latest_bounds(s.segments, s.last_offer);
    let r = s.cut_reference(pid, now) as int;
    if s.last is Some {
        lemma_next_is_monotone(s.last->0 as int, r);
    }
    if s.last_offer.contains_key(pid) {
        lemma_next_is_monotone(s.last_offer[pid] as int, r);
    }
    assert forall|p: i64| #[trigger]
        s.candidate(p) && s.last_offer.contains_key(p) implies crate::program_bus::next_slot(
        s.last_offer[p] as int,
    ) < s.cut_boundary(pid, now) by {
        let i = choose|i: int| 0 <= i < s.segments.len() && (#[trigger] s.segments[i]).1 == p;
        lemma_next_is_monotone(s.last_offer[p] as int, r);
    }
    crate::genlock::law_next_is_the_first_boundary_after(
        crate::program_bus::next_slot(r),
        GENLOCK_GRID_FPS as int,
    );
}

proof fn lemma_next_is_monotone(x: int, y: int)
    requires
        x <= y,
    ensures
        crate::program_bus::next_slot(x) <= crate::program_bus::next_slot(y),
{
    crate::genlock::law_next_is_the_first_boundary_after(x, GENLOCK_GRID_FPS as int);
    crate::genlock::law_next_is_the_first_boundary_after(y, GENLOCK_GRID_FPS as int);
}

/// Cutting away and back, the second cut landing on the same or an earlier
/// boundary than the first, cancels the first: every boundary still to come has
/// the owner it had.
pub proof fn law_cutting_back_cancels<V, A>(
    s: ProgramState<V, A>,
    away: i64,
    then: i64,
    back: i64,
    stamp: int,
)
    requires
        s.wf(),
        crate::program_bus::in_time(then as int),
        crate::program_bus::in_time(back as int),
        s.segments.len() > 0,
        s.segments.last().1 != away,
        to_come(s, stamp),
        s.cut_to(away, then).cut_boundary(s.segments.last().1, back) <= s.cut_boundary(away, then),
        s.segments.last().0 < s.cut_to(away, then).cut_boundary(s.segments.last().1, back),
    ensures
        s.cut_to(away, then).cut_to(s.segments.last().1, back).owner(stamp) == s.owner(stamp),
{
    let home = s.segments.last().1;
    let t = s.cut_to(away, then);
    lemma_cut_keeps_wf(s, away, then);
    law_cut_selects_its_target(s, away, then);
    law_cut_switches_on_its_boundary(s, away, then, stamp);
    law_cut_switches_on_its_boundary(t, home, back, stamp);
}

proof fn lemma_pruned_is_a_tail(segments: Seq<(i64, i64)>, next: int)
    ensures
        exists|d: int|
            0 <= d <= segments.len() && crate::program_bus::pruned(segments, next)
                == segments.skip(d),
        segments.len() > 0 ==> crate::program_bus::pruned(segments, next).len() > 0
            && crate::program_bus::pruned(segments, next).last() == segments.last(),
    decreases segments.len(),
{
    if segments.len() >= 2 && segments[1].0 <= next {
        lemma_pruned_is_a_tail(segments.skip(1), next);
        let d = choose|d: int|
            0 <= d <= segments.skip(1).len() && crate::program_bus::pruned(segments.skip(1), next)
                == segments.skip(1).skip(d);
        assert(segments.skip(1).skip(d) =~= segments.skip(d + 1));
    } else {
        assert(segments.skip(0) =~= segments);
    }
}

proof fn lemma_begun_before_is_a_head(segments: Seq<(i64, i64)>, boundary: int)
    ensures
        exists|n: int|
            0 <= n <= segments.len() && crate::program_bus::begun_before(segments, boundary)
                == segments.take(n),
    decreases segments.len(),
{
    if segments.len() > 0 && segments.last().0 >= boundary {
        lemma_begun_before_is_a_head(segments.drop_last(), boundary);
        let n = choose|n: int|
            0 <= n <= segments.drop_last().len() && crate::program_bus::begun_before(
                segments.drop_last(),
                boundary,
            ) == segments.drop_last().take(n);
        assert(segments.drop_last().take(n) =~= segments.take(n));
    } else {
        assert(segments.take(segments.len() as int) =~= segments);
    }
}

proof fn lemma_cut_keeps_wf<V, A>(s: ProgramState<V, A>, pid: i64, now: i64)
    requires
        s.wf(),
        crate::program_bus::in_time(now as int),
    ensures
        s.cut_to(pid, now).wf(),
{
    if s.selected() != Some(pid) {
        lemma_cut_boundary_is_a_stamp(s, pid, now);
        let boundary = s.cut_boundary(pid, now);
        lemma_latest_bounds(s.segments, s.last_offer);
        let r = s.cut_reference(pid, now) as int;
        crate::genlock::law_next_is_near(r, GENLOCK_GRID_FPS as int);
        crate::genlock::law_next_is_near(
            crate::program_bus::next_slot(r),
            GENLOCK_GRID_FPS as int,
        );
        assert(crate::genlock::interval_of(30) == 333_333);
        lemma_begun_before_is_a_head(s.segments, boundary);
        lemma_begun_before_ends_early(s.segments, boundary);
        let segments = s.segments_after_cut(pid, boundary as i64);
        assert(crate::program_bus::segments_wf(segments));
        if s.last is Some {
            lemma_pruned_is_a_tail(
                segments,
                crate::program_bus::next_slot(s.last->0 as int),
            );
        }
    }
}

/// After a cut to `pid` the selected source is `pid`, whatever was selected.
pub proof fn law_cut_selects_its_target<V, A>(s: ProgramState<V, A>, pid: i64, now: i64)
    ensures
        s.cut_to(pid, now).selected() == Some(pid),
{
    if s.selected() != Some(pid) && s.last is Some {
        lemma_pruned_is_a_tail(
            s.segments_after_cut(pid, s.cut_boundary(pid, now) as i64),
            crate::program_bus::next_slot(s.last->0 as int),
        );
    }
}

/// A cut never takes a frame that already waits away from its source: it stays
/// owned by the same source.
pub proof fn law_cut_keeps_waiting_frames<V, A>(s: ProgramState<V, A>, pid: i64, now: i64)
    requires
        s.wf(),
        s.aligned(),
        waits_owned(s),
        crate::program_bus::in_time(now as int),
    ensures
        waits_owned(s.cut_to(pid, now)),
        forall|k: i64| #[trigger]
            s.pending.contains_key(k) ==> s.cut_to(pid, now).owner(k as int) == s.owner(k as int),
{
    let t = s.cut_to(pid, now);
    if s.selected() != Some(pid) {
        law_cut_lands_ahead_of_the_sources(s, pid, now);
        assert forall|k: i64| #[trigger] s.pending.contains_key(k) implies t.owner(k as int)
            == s.owner(k as int) by {
            let p = s.owner(k as int)->0;
            lemma_owner_is_a_source(s.segments, k as int);
            let i = choose|i: int|
                0 <= i < s.segments.len() && (#[trigger] s.segments[i]).1 == p && s.segments[i].0
                    <= k;
            assert(s.candidate(p));
            crate::genlock::law_next_is_the_first_boundary_after(
                s.last_offer[p] as int,
                GENLOCK_GRID_FPS as int,
            );
            if s.last is Some {
                crate::genlock::law_next_is_the_first_boundary_after(
                    s.last->0 as int,
                    GENLOCK_GRID_FPS as int,
                );
            }
            law_cut_switches_on_its_boundary(s, pid, now, k as int);
        }
    }
}

/// An offer in stamp order by its owner waits as an owned frame; so does
/// everything that waited before it.
pub proof fn law_offer_keeps_waiting_frames_owned<V, A>(
    s: ProgramState<V, A>,
    pid: i64,
    job: crate::submit_handoff::SubmitJob<V, A>,
)
    requires
        s.wf(),
        s.aligned(),
        waits_owned(s),
        crate::program_bus::in_time(job.video_tc_100ns as int),
        crate::program_bus::is_boundary(job.video_tc_100ns as int),
        s.last_offer.contains_key(pid) ==> s.last_offer[pid] <= job.video_tc_100ns,
    ensures
        waits_owned(s.offered(pid, job)),
{
    let stamp = job.video_tc_100ns;
    let t = s.touched(pid, stamp);
    assert(waits_owned(t));
    if s.offer_outcome(pid, stamp) == crate::program_bus::OfferOutcome::Accepted {
        let u = ProgramState { pending: t.pending.insert(stamp, job), ..t };
        assert(waits_owned(u)) by {
            assert forall|k: i64| #[trigger] u.pending.contains_key(k) implies {
                &&& u.owner(k as int) is Some
                &&& u.last_offer.contains_key(u.owner(k as int)->0)
                &&& u.last_offer[u.owner(k as int)->0] >= k
            } by {
                if k != stamp {
                    assert(t.pending.contains_key(k));
                }
            }
        }
        assert(u.aligned()) by {
            assert(crate::program_bus::waits_in_order(u.last, u.pending));
        }
        assert(u.wf()) by {
            assert(crate::program_bus::pending_wf(u.pending));
        }
        lemma_readied_keeps_owned(u, MAX_RELEASE_STEPS as nat);
    }
}

proof fn lemma_readied_keeps_owned<V, A>(s: ProgramState<V, A>, n: nat)
    requires
        s.wf(),
        s.aligned(),
        waits_owned(s),
    ensures
        waits_owned(s.readied(n)),
    decreases n,
{
    if n > 0 && s.ready_step() is Some {
        let t = s.ready_step()->0;
        crate::program_bus::lemma_ready_step_aligned(s);
        lemma_step_keeps_owned(s, t);
        crate::program_bus::lemma_ready_step_wf(s);
        lemma_readied_keeps_owned(t, (n - 1) as nat);
    }
}

/// Whatever the sender's check serves, the frames that still wait stay owned.
pub proof fn law_release_keeps_waiting_frames_owned<V, A>(s: ProgramState<V, A>, now: int, n: nat)
    requires
        s.wf(),
        s.aligned(),
        waits_owned(s),
        crate::program_bus::in_time(now),
    ensures
        waits_owned(s.released(now, n)),
    decreases n,
{
    if n > 0 && s.release_step(now) is Some {
        let t = s.release_step(now)->0;
        crate::program_bus::lemma_release_step_aligned(s, now);
        lemma_step_keeps_owned(s, t);
        crate::program_bus::lemma_release_step_wf(s, now);
        law_release_keeps_waiting_frames_owned(t, now, (n - 1) as nat);
    }
}

/// A step that serves or skips keeps the waiting frames' owners.
proof fn lemma_step_keeps_owned<V, A>(s: ProgramState<V, A>, t: ProgramState<V, A>)
    requires
        waits_owned(s),
        t.aligned(),
        t.last_offer == s.last_offer,
        t.segments == s.segments || (t.last is Some && t.segments == crate::program_bus::pruned(
            s.segments,
            crate::program_bus::next_slot(t.last->0 as int),
        )),
        forall|k: i64| #[trigger] t.pending.contains_key(k) ==> s.pending.contains_key(k),
    ensures
        waits_owned(t),
{
    assert forall|k: i64| #[trigger] t.pending.contains_key(k) implies t.owner(k as int)
        == s.owner(k as int) by {
        if t.segments != s.segments {
            crate::genlock::law_next_is_the_first_boundary_after(
                t.last->0 as int,
                GENLOCK_GRID_FPS as int,
            );
            lemma_pruning_keeps_owners(
                s.segments,
                crate::program_bus::next_slot(t.last->0 as int),
                k as int,
            );
        }
    }
}

/// The sender's check serves boundaries strictly one after the other: each step
/// either serves the boundary right after the last one, or, once more than the
/// catch-up bound of slots has been missed, skips forward and serves nothing.
pub proof fn law_release_serves_the_next_boundary<V, A>(s: ProgramState<V, A>, now: int)
    requires
        s.wf(),
        s.last is Some,
        s.last->0 <= TIME_LIMIT_100NS,
        s.release_step(now) is Some,
    ensures
        ({
            let next = crate::program_bus::next_slot(s.last->0 as int);
            let t = s.release_step(now)->0;
            ||| t.last == Some(next as i64) && t.queue.last().stamp() == next
            ||| t.queue == s.queue && crate::program_bus::lag_slots(
                next,
                crate::program_bus::floor_slot(now),
            ) > GENLOCK_MAX_CATCHUP_INTERVALS
        }),
{
    crate::genlock::law_next_is_near(s.last->0 as int, GENLOCK_GRID_FPS as int);
    assert(crate::genlock::interval_of(30) == 333_333);
}

/// A boundary is never missed before it is reached, and once missed it stays
/// missed.
pub proof fn law_missed_is_reached_and_final<V, A>(
    s: ProgramState<V, A>,
    boundary: int,
    now: int,
    after: int,
)
    requires
        s.missed(boundary, now),
        now <= after,
    ensures
        now >= boundary,
        s.missed(boundary, after),
{
}

/// One call on a program.
pub enum ProgramCall<V, A> {
    Select { pid: i64 },
    Touch { pid: i64, stamp: i64 },
    Cut { pid: i64, now: i64 },
    Offer { pid: i64, job: crate::submit_handoff::SubmitJob<V, A> },
    Release { now: i64 },
    Take,
}

/// A program after one call.
pub open spec fn after_call<V, A>(
    s: ProgramState<V, A>,
    call: ProgramCall<V, A>,
) -> ProgramState<V, A> {
    match call {
        ProgramCall::Select { pid } => s.selected_initially(pid),
        ProgramCall::Touch { pid, stamp } => s.touched(pid, stamp),
        ProgramCall::Cut { pid, now } => s.cut_to(pid, now),
        ProgramCall::Offer { pid, job } => s.offered(pid, job),
        ProgramCall::Release { now } => s.released(now as int, MAX_RELEASE_STEPS as nat),
        ProgramCall::Take => s.after_take(),
    }
}

/// What one call hands to the sender.
pub open spec fn handed_by<V, A>(
    s: ProgramState<V, A>,
    call: ProgramCall<V, A>,
) -> Seq<ProgramJob<V, A>> {
    if call is Take && s.queue.len() > 0 {
        seq![s.queue[0]]
    } else {
        Seq::empty()
    }
}

/// A program after `calls`, one after the other from an empty one, and everything the
/// sender took.
pub open spec fn after_program_calls<V, A>(calls: Seq<ProgramCall<V, A>>) -> (
    ProgramState<V, A>,
    Seq<ProgramJob<V, A>>,
)
    decreases calls.len(),
{
    if calls.len() == 0 {
        (ProgramState::empty(), Seq::empty())
    } else {
        let (s, taken) = after_program_calls(calls.drop_last());
        (after_call(s, calls.last()), taken + handed_by(s, calls.last()))
    }
}

/// A call with times in range, an offer on the grid, and room in the counters.
pub open spec fn may_call<V, A>(s: ProgramState<V, A>, call: ProgramCall<V, A>) -> bool {
    &&& s.health.room(MAX_RELEASE_STEPS as int)
    &&& match call {
        ProgramCall::Select { .. } => true,
        ProgramCall::Touch { stamp, .. } => crate::program_bus::in_time(stamp as int),
        ProgramCall::Cut { now, .. } => crate::program_bus::in_time(now as int),
        ProgramCall::Offer { job, .. } => crate::program_bus::in_time(job.video_tc_100ns as int)
            && crate::program_bus::is_boundary(job.video_tc_100ns as int),
        ProgramCall::Release { now } => crate::program_bus::in_time(now as int),
        ProgramCall::Take => true,
    }
}

/// Every one of `calls` may be made where it stands.
pub open spec fn may_run<V, A>(calls: Seq<ProgramCall<V, A>>) -> bool
    decreases calls.len(),
{
    calls.len() > 0 ==> may_run(calls.drop_last()) && may_call(
        after_program_calls(calls.drop_last()).0,
        calls.last(),
    )
}

/// Boundaries that were served, less those that wait in the queue or fell out of it:
/// what the sender must have taken.
pub open spec fn owed<V, A>(s: ProgramState<V, A>) -> int {
    s.health.forwarded + s.health.filled - s.queue.len() - s.health.coalesced
}

/// What was taken ascends, and lies before everything that is queued and at or before
/// the last boundary served.
pub open spec fn taken_in_order<V, A>(
    s: ProgramState<V, A>,
    taken: Seq<ProgramJob<V, A>>,
) -> bool {
    &&& forall|i: int, j: int|
        0 <= i < j < taken.len() ==> (#[trigger] taken[i]).stamp() < (#[trigger] taken[j]).stamp()
    &&& taken.len() > 0 ==> s.last is Some
    &&& forall|i: int| 0 <= i < taken.len() ==> (#[trigger] taken[i]).stamp() <= s.last->0
    &&& forall|i: int, j: int|
        0 <= i < taken.len() && 0 <= j < s.queue.len() ==> (#[trigger] taken[i]).stamp() < (
        #[trigger] s.queue[j]).stamp()
}

/// `t` comes of `s` by serving boundaries: nothing served is lost, and whatever is new
/// comes after all that was.
pub open spec fn serves_on<V, A>(s: ProgramState<V, A>, t: ProgramState<V, A>) -> bool {
    &&& owed(t) == owed(s)
    &&& s.last is Some ==> t.last is Some && s.last->0 <= t.last->0
    &&& forall|j: int|
        0 <= j < t.queue.len() ==> s.queue.contains(#[trigger] t.queue[j]) || (s.last is Some
            ==> s.last->0 < t.queue[j].stamp())
}

proof fn lemma_serving_on<V, A>(
    s: ProgramState<V, A>,
    t: ProgramState<V, A>,
    u: ProgramState<V, A>,
)
    requires
        serves_on(s, t),
        serves_on(t, u),
    ensures
        serves_on(s, u),
{
    assert forall|j: int| 0 <= j < u.queue.len() implies s.queue.contains(
        #[trigger] u.queue[j],
    ) || (s.last is Some ==> s.last->0 < u.queue[j].stamp()) by {
        if t.queue.contains(u.queue[j]) {
            let k = choose|k: int| 0 <= k < t.queue.len() && t.queue[k] == u.queue[j];
            assert(s.queue.contains(t.queue[k]) || (s.last is Some ==> s.last->0
                < t.queue[k].stamp()));
        }
    }
}

proof fn lemma_taken_stays_in_order<V, A>(
    s: ProgramState<V, A>,
    t: ProgramState<V, A>,
    taken: Seq<ProgramJob<V, A>>,
)
    requires
        serves_on(s, t),
        taken_in_order(s, taken),
    ensures
        taken_in_order(t, taken),
{
    assert forall|i: int, j: int| 0 <= i < taken.len() && 0 <= j < t.queue.len() implies (
    #[trigger] taken[i]).stamp() < (#[trigger] t.queue[j]).stamp() by {
        if s.queue.contains(t.queue[j]) {
            let k = choose|k: int| 0 <= k < s.queue.len() && s.queue[k] == t.queue[j];
            assert(taken[i].stamp() < s.queue[k].stamp());
        }
    }
}

/// Serving `job`, which comes after the last boundary.
proof fn lemma_commit_serves_on<V, A>(
    s: ProgramState<V, A>,
    counted: ProgramState<V, A>,
    job: ProgramJob<V, A>,
)
    requires
        counted.queue == s.queue,
        counted.last == s.last,
        counted.health.forwarded + counted.health.filled == s.health.forwarded + s.health.filled
            + 1,
        counted.health.coalesced == s.health.coalesced,
        s.health.coalesced < u64::MAX,
        s.last is Some ==> s.last->0 < job.stamp(),
    ensures
        serves_on(s, counted.committed(job)),
{
    let t = counted.committed(job);
    assert forall|j: int| 0 <= j < t.queue.len() implies s.queue.contains(#[trigger] t.queue[j])
        || (s.last is Some ==> s.last->0 < t.queue[j].stamp()) by {
        if j < t.queue.len() - 1 {
            let k = if s.queue.len() >= crate::program_bus::PROGRAM_QUEUE_BOUND {
                j + 1
            } else {
                j
            };
            assert(t.queue[j] == s.queue[k]);
        } else {
            assert(t.queue[j] == job);
        }
    }
}

/// One step that forwards or settles the boundary `expected` serves on.
proof fn lemma_step_serves_on<V, A>(
    s: ProgramState<V, A>,
    fallback: int,
    horizon: int,
    target: int,
)
    requires
        s.wf(),
        s.aligned(),
        s.health.room(1),
        -TIME_LIMIT_100NS - 333_334 <= fallback <= TIME_LIMIT_100NS,
        -TIME_LIMIT_100NS - 333_334 <= target <= horizon <= TIME_LIMIT_100NS,
        crate::program_bus::is_boundary(horizon),
        target == horizon || s.pending.contains_key(target as i64),
    ensures
        ({
            let expected = s.expected(fallback);
            if s.pending.contains_key(expected as i64) {
                serves_on(s, s.forwarded(expected as i64))
            } else {
                serves_on(s, s.settled(expected, horizon, target))
            }
        }),
{
    let fps = GENLOCK_GRID_FPS as int;
    let expected = s.expected(fallback);
    crate::program_bus::lemma_first_key_is_first(s.pending);
    if s.last is Some {
        crate::program_bus::lemma_slot_bounds(s.last->0 as int);
        crate::genlock::law_next_is_the_first_boundary_after(s.last->0 as int, fps);
    }
    if s.pending.contains_key(expected as i64) {
        let e = expected as i64;
        let counted = ProgramState {
            pending: s.pending.remove(e),
            health: crate::program_bus::ProgramHealth {
                forwarded: (s.health.forwarded + 1) as u64,
                ..s.health
            },
            ..s
        };
        lemma_commit_serves_on(s, counted, ProgramJob::Source(s.pending[e]));
    } else if crate::program_bus::lag_slots(expected, horizon) > GENLOCK_MAX_CATCHUP_INTERVALS {
        crate::program_bus::lemma_slot_bounds(target - 1);
        crate::genlock::law_floor_is_the_last_boundary(target - 1, fps);
        assert(serves_on(s, s.resynced(target))) by {
            assert(s.resynced(target).queue == s.queue);
            if s.last is Some {
                if target != horizon {
                    assert(crate::program_bus::is_boundary(target));
                }
                assert(s.last->0 <= target - 1);
            }
        }
    } else {
        let counted = ProgramState {
            health: crate::program_bus::ProgramHealth {
                filled: (s.health.filled + 1) as u64,
                ..s.health
            },
            ..s
        };
        lemma_commit_serves_on(
            s,
            counted,
            ProgramJob::Standby { stamp_100ns: expected as i64 },
        );
    }
}

proof fn lemma_release_serves_on<V, A>(s: ProgramState<V, A>, now: int, n: nat)
    requires
        s.wf(),
        s.aligned(),
        s.health.room(n as int),
        crate::program_bus::in_time(now),
    ensures
        s.released(now, n).wf(),
        s.released(now, n).aligned(),
        serves_on(s, s.released(now, n)),
    decreases n,
{
    assert(serves_on(s, s));
    if n > 0 && s.release_step(now) is Some {
        let t = s.release_step(now)->0;
        let floor_now = crate::program_bus::floor_slot(now);
        crate::program_bus::lemma_slot_bounds(now);
        crate::genlock::law_floor_is_the_last_boundary(now, GENLOCK_GRID_FPS as int);
        crate::program_bus::lemma_first_key_is_first(s.pending);
        lemma_step_serves_on(s, floor_now, floor_now, s.skip_target(floor_now));
        crate::program_bus::lemma_release_step_last(s, now);
        crate::program_bus::lemma_release_step_wf(s, now);
        crate::program_bus::lemma_release_step_aligned(s, now);
        assert(t.health.room(n - 1));
        lemma_release_serves_on(t, now, (n - 1) as nat);
        lemma_serving_on(s, t, t.released(now, (n - 1) as nat));
    }
}

proof fn lemma_ready_serves_on<V, A>(s: ProgramState<V, A>, n: nat)
    requires
        s.wf(),
        s.aligned(),
        s.health.room(n as int),
    ensures
        s.readied(n).wf(),
        s.readied(n).aligned(),
        serves_on(s, s.readied(n)),
    decreases n,
{
    assert(serves_on(s, s));
    if n > 0 && s.ready_step() is Some {
        let t = s.ready_step()->0;
        crate::program_bus::lemma_first_key_is_first(s.pending);
        let first = crate::program_bus::first_key(s.pending)->0 as int;
        lemma_step_serves_on(s, first, first, first);
        crate::program_bus::lemma_ready_step_last(s);
        crate::program_bus::lemma_ready_step_wf(s);
        crate::program_bus::lemma_ready_step_aligned(s);
        assert(t.health.room(n - 1));
        lemma_ready_serves_on(t, (n - 1) as nat);
        lemma_serving_on(s, t, t.readied((n - 1) as nat));
    }
}

/// What one call does to a program in order, and to what was taken.
proof fn lemma_call_keeps_order<V, A>(
    s: ProgramState<V, A>,
    taken: Seq<ProgramJob<V, A>>,
    call: ProgramCall<V, A>,
)
    requires
        s.wf(),
        s.aligned(),
        taken_in_order(s, taken),
        may_call(s, call),
    ensures
        ({
            let t = after_call(s, call);
            let handed = handed_by(s, call);
            &&& t.wf()
            &&& t.aligned()
            &&& owed(t) == owed(s) + handed.len()
            &&& taken_in_order(t, taken + handed)
        }),
{
    let t = after_call(s, call);
    let handed = handed_by(s, call);
    match call {
        ProgramCall::Take => {
            if s.queue.len() > 0 {
                let all = taken + handed;
                assert(crate::program_bus::queued_in_order(t.last, t.queue)) by {
                    assert forall|i: int| 0 <= i < t.queue.len() implies #[trigger] t.queue[i]
                        == s.queue[i + 1] by {}
                }
                assert forall|i: int| 0 <= i < all.len() implies #[trigger] all[i] == if i
                    < taken.len() {
                    taken[i]
                } else {
                    s.queue[0]
                } by {}
                assert forall|i: int, j: int| 0 <= i < all.len() && 0 <= j < t.queue.len() implies (
                #[trigger] all[i]).stamp() < (#[trigger] t.queue[j]).stamp() by {
                    assert(t.queue[j] == s.queue[j + 1]);
                    assert(s.queue[0].stamp() < s.queue[j + 1].stamp());
                }
            } else {
                assert(taken + handed =~= taken);
            }
        },
        _ => {
            assert(taken + handed =~= taken);
            match call {
                ProgramCall::Release { now } => {
                    lemma_release_serves_on(s, now as int, MAX_RELEASE_STEPS as nat);
                },
                ProgramCall::Offer { pid, job } => {
                    let stamp = job.video_tc_100ns;
                    let u = s.touched(pid, stamp);
                    assert(u.wf() && u.aligned());
                    if s.offer_outcome(pid, stamp) == crate::program_bus::OfferOutcome::Accepted {
                        let v = ProgramState { pending: u.pending.insert(stamp, job), ..u };
                        assert(crate::program_bus::pending_wf(v.pending));
                        assert(crate::program_bus::waits_in_order(v.last, v.pending));
                        lemma_ready_serves_on(v, MAX_RELEASE_STEPS as nat);
                        assert(serves_on(s, v));
                        lemma_serving_on(s, v, t);
                    }
                },
                ProgramCall::Cut { pid, now } => {
                    lemma_cut_keeps_wf(s, pid, now);
                },
                ProgramCall::Select { pid } => {
                    assert(crate::program_bus::segments_wf(t.segments));
                },
                _ => {},
            }
            assert(serves_on(s, t));
            lemma_taken_stays_in_order(s, t, taken);
        },
    }
}

/// Over a whole run of a program, whatever its sources offer on the grid and however it
/// is cut: the boundaries that the sender takes ascend, none twice and none out of
/// order; every boundary that was forwarded or filled was taken, waits in the queue, or
/// fell out of it and was counted; and the queue stays within its bound.
pub proof fn law_a_run_serves_in_order<V, A>(calls: Seq<ProgramCall<V, A>>)
    requires
        may_run(calls),
    ensures
        ({
            let (s, taken) = after_program_calls(calls);
            &&& s.wf()
            &&& s.aligned()
            &&& forall|i: int, j: int|
                0 <= i < j < taken.len() ==> (#[trigger] taken[i]).stamp() < (
                #[trigger] taken[j]).stamp()
            &&& s.health.forwarded + s.health.filled == taken.len() + s.queue.len()
                + s.health.coalesced
            &&& s.queue.len() <= crate::program_bus::PROGRAM_QUEUE_BOUND
            &&& taken_in_order(s, taken)
        }),
    decreases calls.len(),
{
    if calls.len() == 0 {
        assert(crate::program_bus::segments_wf(Seq::<(i64, i64)>::empty()));
    } else {
        law_a_run_serves_in_order(calls.drop_last());
        let (s, taken) = after_program_calls(calls.drop_last());
        lemma_call_keeps_order(s, taken, calls.last());
    }
}

/// The sender's check never fills a boundary before it is reached: unless too many
/// frames wait, a standby pair that it queues is stamped no later than its clock.
pub proof fn law_release_fills_only_what_is_reached<V, A>(
    s: ProgramState<V, A>,
    now: int,
    n: nat,
)
    requires
        s.wf(),
        s.aligned(),
        crate::program_bus::in_time(now),
        !s.overflowing(),
    ensures
        forall|i: int|
            0 <= i < s.released(now, n).queue.len() ==> s.queue.contains(
                #[trigger] s.released(now, n).queue[i],
            ) || s.released(now, n).queue[i] is Source || s.released(now, n).queue[i].stamp()
                <= now,
    decreases n,
{
    if n > 0 && s.release_step(now) is Some {
        let t = s.release_step(now)->0;
        let expected = s.expected(crate::program_bus::floor_slot(now));
        crate::program_bus::lemma_slot_bounds(now);
        crate::program_bus::lemma_release_step_wf(s, now);
        crate::program_bus::lemma_release_step_aligned(s, now);
        crate::program_bus::lemma_first_key_is_first(s.pending);
        if s.last is Some {
            crate::program_bus::lemma_slot_bounds(s.last->0 as int);
        }
        assert(!t.overflowing()) by {
            if s.pending.contains_key(expected as i64) {
                assert(t.pending.dom() =~= s.pending.dom().remove(expected as i64));
            }
        }
        law_release_fills_only_what_is_reached(t, now, (n - 1) as nat);
        let u = t.released(now, (n - 1) as nat);
        assert forall|i: int| 0 <= i < u.queue.len() implies s.queue.contains(
            #[trigger] u.queue[i],
        ) || u.queue[i] is Source || u.queue[i].stamp() <= now by {
            if t.queue.contains(u.queue[i]) {
                let k = choose|k: int| 0 <= k < t.queue.len() && t.queue[k] == u.queue[i];
                lemma_queue_after_step(s, t, k);
            }
        }
    }
}

/// A job that one step of the check leaves in the queue was there, or is the one served.
proof fn lemma_queue_after_step<V, A>(s: ProgramState<V, A>, t: ProgramState<V, A>, k: int)
    requires
        0 <= k < t.queue.len(),
        t.queue == s.queue || exists|job: ProgramJob<V, A>|
            t.queue == #[trigger] crate::submit_handoff::queue_after_offer(
                s.queue,
                crate::program_bus::PROGRAM_QUEUE_BOUND as int,
                job,
            ),
    ensures
        s.queue.contains(t.queue[k]) || t.queue != s.queue && t.queue[k] == t.queue.last(),
{
    if t.queue != s.queue && k < t.queue.len() - 1 {
        let at = if s.queue.len() >= crate::program_bus::PROGRAM_QUEUE_BOUND {
            k + 1
        } else {
            k
        };
        assert(t.queue[k] == s.queue[at]);
    }
}

} // verus!
