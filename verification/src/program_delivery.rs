//! What the program bus delivers: whose frames, which of them, and when.

use crate::genlock::GENLOCK_GRID_FPS;
use crate::program_bus::{OfferOutcome, ProgramJob, ProgramState, MAX_RELEASE_STEPS};
use crate::program_laws::{after_call, after_program_calls, handed_by, may_call, may_run, ProgramCall};
use crate::submit_handoff::SubmitJob;
use vstd::prelude::*;

verus! {

/// One of `calls` offered `job`, by the source that owned its boundary when it did.
pub open spec fn offered_by_its_owner<V, A>(
    calls: Seq<ProgramCall<V, A>>,
    job: SubmitJob<V, A>,
) -> bool {
    exists|i: int|
        0 <= i < calls.len() && (#[trigger] calls[i] matches ProgramCall::Offer { pid, job: j } && j
            == job && after_program_calls(calls.take(i)).0.owner(job.video_tc_100ns as int) == Some(
            pid,
        ))
}

/// Every frame that waits, and every source's frame that is queued, is one of `ok`.
spec fn holds_only<V, A>(s: ProgramState<V, A>, ok: spec_fn(SubmitJob<V, A>) -> bool) -> bool {
    &&& forall|k: i64| #[trigger] s.pending.contains_key(k) ==> ok(s.pending[k])
    &&& sources_only(s.queue, ok)
}

/// Every source's frame among `jobs` is one of `ok`.
spec fn sources_only<V, A>(
    jobs: Seq<ProgramJob<V, A>>,
    ok: spec_fn(SubmitJob<V, A>) -> bool,
) -> bool {
    forall|i: int|
        0 <= i < jobs.len() ==> (#[trigger] jobs[i] matches ProgramJob::Source(job) ==> ok(job))
}

proof fn lemma_forwarding_holds_only<V, A>(
    s: ProgramState<V, A>,
    boundary: i64,
    ok: spec_fn(SubmitJob<V, A>) -> bool,
)
    requires
        holds_only(s, ok),
        s.pending.contains_key(boundary),
    ensures
        holds_only(s.forwarded(boundary), ok),
{
    let t = s.forwarded(boundary);
    lemma_queued_only(s.queue, ProgramJob::Source(s.pending[boundary]), ok);
    assert forall|k: i64| #[trigger] t.pending.contains_key(k) implies ok(t.pending[k]) by {
        assert(s.pending.contains_key(k));
    }
}

proof fn lemma_queued_only<V, A>(
    queue: Seq<ProgramJob<V, A>>,
    job: ProgramJob<V, A>,
    ok: spec_fn(SubmitJob<V, A>) -> bool,
)
    requires
        sources_only(queue, ok),
        job matches ProgramJob::Source(j) ==> ok(j),
    ensures
        sources_only(
            crate::submit_handoff::queue_after_offer(
                queue,
                crate::program_bus::PROGRAM_QUEUE_BOUND as int,
                job,
            ),
            ok,
        ),
{
    let after = crate::submit_handoff::queue_after_offer(
        queue,
        crate::program_bus::PROGRAM_QUEUE_BOUND as int,
        job,
    );
    assert forall|i: int| 0 <= i < after.len() implies (
    #[trigger] after[i] matches ProgramJob::Source(j) ==> ok(j)) by {
        if i < after.len() - 1 {
            let k = i + queue.len() - (after.len() - 1);
            assert(after[i] == queue[k]);
        } else {
            assert(after[i] == job);
        }
    }
}

proof fn lemma_settling_holds_only<V, A>(
    s: ProgramState<V, A>,
    expected: int,
    horizon: int,
    target: int,
    ok: spec_fn(SubmitJob<V, A>) -> bool,
)
    requires
        holds_only(s, ok),
    ensures
        holds_only(s.settled(expected, horizon, target), ok),
{
    lemma_queued_only(s.queue, ProgramJob::Standby { stamp_100ns: expected as i64 }, ok);
}

proof fn lemma_release_holds_only<V, A>(
    s: ProgramState<V, A>,
    now: int,
    n: nat,
    ok: spec_fn(SubmitJob<V, A>) -> bool,
)
    requires
        holds_only(s, ok),
    ensures
        holds_only(s.released(now, n), ok),
    decreases n,
{
    if n > 0 && s.release_step(now) is Some {
        let floor_now = crate::program_bus::floor_slot(now);
        let expected = s.expected(floor_now);
        if s.pending.contains_key(expected as i64) {
            lemma_forwarding_holds_only(s, expected as i64, ok);
        } else {
            lemma_settling_holds_only(s, expected, floor_now, s.skip_target(floor_now), ok);
        }
        lemma_release_holds_only(s.release_step(now)->0, now, (n - 1) as nat, ok);
    }
}

proof fn lemma_ready_holds_only<V, A>(
    s: ProgramState<V, A>,
    n: nat,
    ok: spec_fn(SubmitJob<V, A>) -> bool,
)
    requires
        holds_only(s, ok),
    ensures
        holds_only(s.readied(n), ok),
    decreases n,
{
    if n > 0 && s.ready_step() is Some {
        let first = crate::program_bus::first_key(s.pending)->0 as int;
        let expected = s.expected(first);
        if s.pending.contains_key(expected as i64) {
            lemma_forwarding_holds_only(s, expected as i64, ok);
        } else {
            lemma_settling_holds_only(s, expected, first, first, ok);
        }
        lemma_ready_holds_only(s.ready_step()->0, (n - 1) as nat, ok);
    }
}

/// A call adds no frame but the one it offers, and that only from its owner.
proof fn lemma_call_holds_only<V, A>(
    s: ProgramState<V, A>,
    call: ProgramCall<V, A>,
    ok: spec_fn(SubmitJob<V, A>) -> bool,
)
    requires
        holds_only(s, ok),
        call matches ProgramCall::Offer { pid, job } ==> s.owner(job.video_tc_100ns as int) == Some(
            pid,
        ) ==> ok(job),
    ensures
        holds_only(after_call(s, call), ok),
        sources_only(handed_by(s, call), ok),
{
    let t = after_call(s, call);
    match call {
        ProgramCall::Release { now } => {
            lemma_release_holds_only(s, now as int, MAX_RELEASE_STEPS as nat, ok);
        },
        ProgramCall::Offer { pid, job } => {
            let stamp = job.video_tc_100ns;
            let u = s.touched(pid, stamp);
            assert(holds_only(u, ok)) by {
                assert forall|k: i64| #[trigger] u.pending.contains_key(k) implies ok(
                    u.pending[k],
                ) by {
                    assert(s.pending.contains_key(k));
                }
            }
            if s.offer_outcome(pid, stamp) == OfferOutcome::Accepted {
                let v = ProgramState { pending: u.pending.insert(stamp, job), ..u };
                assert forall|k: i64| #[trigger] v.pending.contains_key(k) implies ok(
                    v.pending[k],
                ) by {
                    if k != stamp {
                        assert(s.pending.contains_key(k));
                    }
                }
                lemma_ready_holds_only(v, MAX_RELEASE_STEPS as nat, ok);
            }
        },
        ProgramCall::Take => {
            assert forall|i: int| 0 <= i < t.queue.len() implies (
            #[trigger] t.queue[i] matches ProgramJob::Source(j) ==> ok(j)) by {
                if s.queue.len() > 0 {
                    assert(t.queue[i] == s.queue[i + 1]);
                } else {
                    assert(t.queue[i] == s.queue[i]);
                }
            }
        },
        _ => {},
    }
}

proof fn lemma_offered_stays_offered<V, A>(calls: Seq<ProgramCall<V, A>>, job: SubmitJob<V, A>)
    requires
        calls.len() > 0,
        offered_by_its_owner(calls.drop_last(), job),
    ensures
        offered_by_its_owner(calls, job),
{
    let before = calls.drop_last();
    let i = choose|i: int|
        0 <= i < before.len() && (#[trigger] before[i] matches ProgramCall::Offer { pid, job: j }
            && j == job && after_program_calls(before.take(i)).0.owner(job.video_tc_100ns as int)
            == Some(pid));
    assert(before.take(i) =~= calls.take(i));
    assert(calls[i] == before[i]);
}

/// Over any run of calls, every frame of a source that the sender takes, and every one
/// that is queued for it or waits, is one that was offered, in every field the same:
/// its size, its stride, its picture, its audio blocks and both timecodes. It was
/// offered for its own boundary, by the source that owned that boundary.
pub proof fn law_only_offered_frames_go_out<V, A>(calls: Seq<ProgramCall<V, A>>)
    ensures
        ({
            let (s, taken) = after_program_calls(calls);
            &&& forall|i: int|
                0 <= i < taken.len() ==> (#[trigger] taken[i] matches ProgramJob::Source(job)
                    ==> offered_by_its_owner(calls, job))
            &&& forall|i: int|
                0 <= i < s.queue.len() ==> (#[trigger] s.queue[i] matches ProgramJob::Source(job)
                    ==> offered_by_its_owner(calls, job))
            &&& forall|k: i64| #[trigger]
                s.pending.contains_key(k) ==> offered_by_its_owner(calls, s.pending[k])
        }),
    decreases calls.len(),
{
    let ok = |job: SubmitJob<V, A>| offered_by_its_owner(calls, job);
    if calls.len() > 0 {
        let before = calls.drop_last();
        law_only_offered_frames_go_out(before);
        let (s, taken) = after_program_calls(before);
        assert forall|job: SubmitJob<V, A>| #[trigger]
            offered_by_its_owner(before, job) implies offered_by_its_owner(calls, job) by {
            lemma_offered_stays_offered(calls, job);
        }
        assert(holds_only(s, ok));
        assert(sources_only(taken, ok));
        let call = calls.last();
        if let ProgramCall::Offer { pid, job } = call {
            if s.owner(job.video_tc_100ns as int) == Some(pid) {
                assert(calls.take(calls.len() - 1) =~= before);
                assert(calls[calls.len() - 1] == call);
                assert(ok(job));
            }
        }
        lemma_call_holds_only(s, call, ok);
        let all = after_program_calls(calls).1;
        let handed = handed_by(s, call);
        assert forall|i: int| 0 <= i < all.len() implies (
        #[trigger] all[i] matches ProgramJob::Source(job) ==> ok(job)) by {
            if i < taken.len() {
                assert(all[i] == taken[i]);
            } else {
                assert(all[i] == handed[i - taken.len()]);
            }
        }
    }
}

/// How many of `calls` were accepted offers.
pub open spec fn accepted_in<V, A>(calls: Seq<ProgramCall<V, A>>) -> int
    decreases calls.len(),
{
    if calls.len() == 0 {
        0
    } else {
        let s = after_program_calls(calls.drop_last()).0;
        let taken_in = calls.last() matches ProgramCall::Offer { pid, job } && s.offer_outcome(
            pid,
            job.video_tc_100ns,
        ) == OfferOutcome::Accepted;
        accepted_in(calls.drop_last()) + if taken_in {
            1int
        } else {
            0
        }
    }
}

/// Frames that were forwarded, and those that still wait.
spec fn forwarded_or_waiting<V, A>(s: ProgramState<V, A>) -> int {
    s.health.forwarded + s.pending.dom().len()
}

proof fn lemma_release_loses_nothing<V, A>(s: ProgramState<V, A>, now: int, n: nat)
    requires
        s.wf(),
        s.aligned(),
        s.health.room(n as int),
        crate::program_bus::in_time(now),
    ensures
        forwarded_or_waiting(s.released(now, n)) == forwarded_or_waiting(s),
    decreases n,
{
    if n > 0 && s.release_step(now) is Some {
        let t = s.release_step(now)->0;
        crate::program_bus::lemma_release_step_wf(s, now);
        crate::program_bus::lemma_release_step_aligned(s, now);
        crate::program_bus::lemma_slot_bounds(now);
        let expected = s.expected(crate::program_bus::floor_slot(now));
        if s.pending.contains_key(expected as i64) {
            assert(t.pending.dom() =~= s.pending.dom().remove(expected as i64));
        }
        lemma_release_loses_nothing(t, now, (n - 1) as nat);
    }
}

proof fn lemma_ready_loses_nothing<V, A>(s: ProgramState<V, A>, n: nat)
    requires
        s.wf(),
        s.aligned(),
        s.health.room(n as int),
    ensures
        forwarded_or_waiting(s.readied(n)) == forwarded_or_waiting(s),
    decreases n,
{
    if n > 0 && s.ready_step() is Some {
        let t = s.ready_step()->0;
        crate::program_bus::lemma_ready_step_wf(s);
        crate::program_bus::lemma_ready_step_aligned(s);
        let expected = s.expected(crate::program_bus::first_key(s.pending)->0 as int);
        if s.pending.contains_key(expected as i64) {
            assert(t.pending.dom() =~= s.pending.dom().remove(expected as i64));
        }
        lemma_ready_loses_nothing(t, (n - 1) as nat);
    }
}

/// A call forwards or keeps what waits, and adds one frame where it is accepted.
proof fn lemma_call_loses_nothing<V, A>(s: ProgramState<V, A>, call: ProgramCall<V, A>)
    requires
        s.wf(),
        s.aligned(),
        may_call(s, call),
    ensures
        forwarded_or_waiting(after_call(s, call)) == forwarded_or_waiting(s) + if (
        call matches ProgramCall::Offer { pid, job } && s.offer_outcome(pid, job.video_tc_100ns)
            == OfferOutcome::Accepted) {
            1int
        } else {
            0
        },
{
    match call {
        ProgramCall::Release { now } => {
            lemma_release_loses_nothing(s, now as int, MAX_RELEASE_STEPS as nat);
        },
        ProgramCall::Offer { pid, job } => {
            let stamp = job.video_tc_100ns;
            let u = s.touched(pid, stamp);
            if s.offer_outcome(pid, stamp) == OfferOutcome::Accepted {
                let v = ProgramState { pending: u.pending.insert(stamp, job), ..u };
                assert(v.pending.dom() =~= s.pending.dom().insert(stamp));
                assert(crate::program_bus::pending_wf(v.pending));
                assert(crate::program_bus::waits_in_order(v.last, v.pending));
                lemma_ready_loses_nothing(v, MAX_RELEASE_STEPS as nat);
            }
        },
        _ => {},
    }
}

/// Over any run of calls no accepted frame is lost on its way: each was forwarded once,
/// or still waits for its turn.
pub proof fn law_every_accepted_frame_is_forwarded_or_waits<V, A>(calls: Seq<ProgramCall<V, A>>)
    requires
        may_run(calls),
    ensures
        ({
            let s = after_program_calls(calls).0;
            s.health.forwarded + s.pending.dom().len() == accepted_in(calls)
        }),
    decreases calls.len(),
{
    if calls.len() == 0 {
        assert(after_program_calls(calls).0.pending.dom() =~= Set::empty());
    } else {
        let before = calls.drop_last();
        law_every_accepted_frame_is_forwarded_or_waits(before);
        crate::program_laws::law_a_run_serves_in_order(before);
        lemma_call_loses_nothing(after_program_calls(before).0, calls.last());
    }
}

/// The owner's frame for the next boundary goes out the moment it is offered: where
/// nothing else waits it is queued last, as it was offered, and nothing waits after it.
/// The first frame of all needs no turn.
pub proof fn law_a_frame_in_its_turn_goes_out_at_once<V, A>(
    s: ProgramState<V, A>,
    pid: i64,
    job: SubmitJob<V, A>,
)
    requires
        s.wf(),
        s.aligned(),
        s.pending == Map::<i64, SubmitJob<V, A>>::empty(),
        s.owner(job.video_tc_100ns as int) == Some(pid),
        s.last matches Some(l) ==> job.video_tc_100ns == crate::program_bus::next_slot(l as int),
        crate::program_bus::in_time(job.video_tc_100ns as int),
        crate::program_bus::is_boundary(job.video_tc_100ns as int),
    ensures
        ({
            let t = s.offered(pid, job);
            &&& t.queue.len() > 0
            &&& t.queue.last() == ProgramJob::Source(job)
            &&& t.last == Some(job.video_tc_100ns)
            &&& t.pending == Map::<i64, SubmitJob<V, A>>::empty()
            &&& t.last_offer == s.last_offer.insert(pid, job.video_tc_100ns)
        }),
{
    let stamp = job.video_tc_100ns;
    if s.last is Some {
        crate::program_bus::lemma_slot_bounds(s.last->0 as int);
    }
    let u = s.touched(pid, stamp);
    let v = ProgramState { pending: u.pending.insert(stamp, job), ..u };
    crate::program_bus::lemma_first_key_is_first(v.pending);
    assert(v.pending.contains_key(stamp));
    assert(crate::program_bus::is_first_key(v.pending, stamp));
    let w = v.forwarded(stamp);
    assert(v.ready_step() == Some(w));
    assert(w.pending =~= Map::empty());
    assert(w.ready_step() is None) by {
        if crate::program_bus::first_key(w.pending) is Some {
            let k = crate::program_bus::first_key(w.pending)->0;
            assert(crate::program_bus::is_first_key(w.pending, k));
        }
    }
    reveal_with_fuel(ProgramState::readied, 3);
    assert(v.readied(MAX_RELEASE_STEPS as nat) == w);
}

/// An offer by a source that does not own the boundary, or for a boundary that was
/// served or has a frame, changes nothing of what goes out: only how far the source has
/// come, and in the second case the count of frames that came too late.
pub proof fn law_a_refused_offer_changes_nothing_that_goes_out<V, A>(
    s: ProgramState<V, A>,
    pid: i64,
    job: SubmitJob<V, A>,
)
    ensures
        ({
            let stamp = job.video_tc_100ns;
            let t = s.offered(pid, job);
            let stranger = s.owner(stamp as int) != Some(pid);
            let late = !stranger && ((s.last is Some && stamp <= s.last->0)
                || s.pending.contains_key(stamp));
            &&& s.offer_outcome(pid, stamp) == (if stranger {
                OfferOutcome::NotOwner
            } else if late {
                OfferOutcome::Late
            } else {
                OfferOutcome::Accepted
            })
            &&& stranger || late ==> {
                &&& t.queue == s.queue
                &&& t.pending == s.pending
                &&& t.last == s.last
                &&& t.segments == s.segments
                &&& t.last_offer == s.last_offer.insert(pid, stamp)
                &&& t.health.forwarded == s.health.forwarded
                &&& t.health.filled == s.health.filled
            }
            &&& stranger ==> t.health == s.health
            &&& late && s.health.late_dropped < u64::MAX ==> t.health.late_dropped
                == s.health.late_dropped + 1
        }),
{
}

/// The sender's check waits for a live owner: while the owner of the next boundary has
/// not gone past it, reported within the last second, and is less than three slots
/// late, nothing is filled and nothing changes.
pub proof fn law_a_live_owner_is_waited_for<V, A>(s: ProgramState<V, A>, now: int, n: nat, pid: i64)
    requires
        s.last is Some,
        !s.pending.contains_key(crate::program_bus::next_slot(s.last->0 as int) as i64),
        s.pending.dom().len() <= 16,
        s.owner(crate::program_bus::next_slot(s.last->0 as int)) == Some(pid),
        s.last_offer.contains_key(pid),
        s.last_offer[pid] <= crate::program_bus::next_slot(s.last->0 as int),
        now - s.last_offer[pid] <= 10_000_000,
        now < crate::program_bus::next_slot(s.last->0 as int) + 3 * 333_333,
    ensures
        s.released(now, n) == s,
{
    let next = crate::program_bus::next_slot(s.last->0 as int);
    crate::program_bus::lemma_slot_bounds(next);
    assert(crate::genlock::interval_of(30) == 333_333);
}

/// A boundary that was reached and that nobody will deliver in time is filled by the
/// sender's check with the program's own pair, stamped on it: nobody owns it, its owner
/// never reported or is past it, has been silent for more than a second, or is three
/// slots late.
pub proof fn law_a_missed_boundary_is_filled<V, A>(s: ProgramState<V, A>, now: int)
    requires
        s.wf(),
        s.aligned(),
        s.last is Some,
        !s.pending.contains_key(crate::program_bus::next_slot(s.last->0 as int) as i64),
        ({
            let next = crate::program_bus::next_slot(s.last->0 as int);
            &&& next <= now
            &&& crate::program_bus::floor_slot(now) - next < 9 * 333_333
            &&& match s.owner(next) {
                None => true,
                Some(p) => !s.last_offer.contains_key(p) || s.last_offer[p] > next + 333_334 || now
                    - s.last_offer[p] > 10_000_000 || now >= next + 3 * 333_333,
            }
        }),
    ensures
        ({
            let next = crate::program_bus::next_slot(s.last->0 as int);
            &&& s.release_step(now) matches Some(t) && t.queue.len() > 0 && t.queue.last() == (
            ProgramJob::<V, A>::Standby { stamp_100ns: next as i64 }) && t.last == Some(next as i64)
                && t.pending == s.pending
        }),
{
    let next = crate::program_bus::next_slot(s.last->0 as int);
    crate::program_bus::lemma_slot_bounds(s.last->0 as int);
    crate::program_bus::lemma_slot_bounds(next);
    assert(crate::genlock::interval_of(30) == 333_333);
}

/// A frame that waits for the boundary that is served next is what the sender's check
/// queues for it, unchanged.
pub proof fn law_a_waiting_frame_goes_out_in_its_turn<V, A>(s: ProgramState<V, A>, now: int)
    requires
        s.wf(),
        s.last is Some,
        s.pending.contains_key(crate::program_bus::next_slot(s.last->0 as int) as i64),
    ensures
        ({
            let next = crate::program_bus::next_slot(s.last->0 as int) as i64;
            &&& s.release_step(now) matches Some(t) && t.queue.len() > 0 && t.queue.last()
                == ProgramJob::Source(s.pending[next]) && t.last == Some(next) && t.pending
                == s.pending.remove(next)
        }),
{
}

/// After a run of missed slots is skipped, the boundary skipped to is served next.
pub proof fn law_a_skip_lands_on_its_target<V, A>(s: ProgramState<V, A>, target: int)
    requires
        crate::program_bus::in_time(target),
        crate::program_bus::is_boundary(target),
    ensures
        s.resynced(target).last matches Some(l) && l < target && crate::program_bus::next_slot(
            l as int,
        ) == target,
        s.resynced(target).queue == s.queue,
        s.resynced(target).pending == s.pending,
{
    let fps = GENLOCK_GRID_FPS as int;
    crate::program_bus::lemma_slot_bounds(target - 1);
    let l = crate::program_bus::floor_slot(target - 1);
    crate::genlock::law_floor_is_the_last_boundary(target - 1, fps);
    crate::genlock::law_next_is_the_first_boundary_after(l, fps);
    crate::program_bus::lemma_slot_bounds(l);
}

/// Whoever is selected first owns every boundary there is.
pub proof fn law_the_first_selection_owns_everything<V, A>(
    s: ProgramState<V, A>,
    pid: i64,
    stamp: i64,
)
    ensures
        s.selected_initially(pid).owner(stamp as int) == Some(pid),
        s.selected_initially(pid).selected() == Some(pid),
        s.selected_initially(pid).queue == s.queue,
        s.selected_initially(pid).pending == s.pending,
        s.selected_initially(pid).last == s.last,
{
}

/// A boundary belongs to exactly one source: the one whose turn has begun by then while
/// the next one's has not. Before the first turn it belongs to nobody.
pub proof fn law_turns_do_not_overlap(segments: Seq<(i64, i64)>, i: int, stamp: int)
    requires
        crate::program_bus::segments_wf(segments),
        0 <= i < segments.len(),
        i + 1 < segments.len() ==> stamp < segments[i + 1].0,
    ensures
        segments[i].0 <= stamp ==> crate::program_bus::owner_in(segments, stamp) == Some(
            segments[i].1,
        ),
        i == 0 && stamp < segments[0].0 ==> crate::program_bus::owner_in(segments, stamp) is None,
    decreases segments.len(),
{
    reveal_with_fuel(crate::program_bus::owner_in, 2);
    if i + 1 < segments.len() {
        let head = segments.drop_last();
        assert(segments[segments.len() - 1].0 >= segments[i + 1].0);
        assert(crate::program_bus::segments_wf(head)) by {
            assert forall|a: int, b: int| 0 <= a < b < head.len() implies (#[trigger] head[a]).0 < (
            #[trigger] head[b]).0 by {
                assert(segments[a].0 < segments[b].0);
            }
            assert forall|a: int, b: int|
                0 <= a < head.len() && b == a + 1 && b < head.len() implies (#[trigger] head[a]).1
                != (#[trigger] head[b]).1 by {
                assert(segments[a].1 != segments[b].1);
            }
            assert forall|a: int| 0 <= a < head.len() implies (#[trigger] head[a]).0
                <= crate::program_bus::TIME_LIMIT_100NS + 128
                * crate::genlock::UNITS_PER_SECOND by {
                assert(segments[a] == head[a]);
            }
        }
        law_turns_do_not_overlap(head, i, stamp);
    }
}

/// A cut changes whose boundaries are to come and nothing that was offered, waits or is
/// queued; cutting to the selected source changes nothing at all.
pub proof fn law_a_cut_touches_no_frame<V, A>(s: ProgramState<V, A>, pid: i64, now: i64)
    ensures
        s.cut_to(pid, now).queue == s.queue,
        s.cut_to(pid, now).pending == s.pending,
        s.cut_to(pid, now).last == s.last,
        s.cut_to(pid, now).last_offer == s.last_offer,
        s.selected() == Some(pid) ==> s.cut_to(pid, now) == s,
        s.selected() != Some(pid) && s.health.cuts < u64::MAX ==> s.cut_to(pid, now).health.cuts
            == s.health.cuts + 1,
{
}

/// A cut lands two boundaries after the furthest that anything has come, and no later:
/// a source of the program, the new source, or the program itself; after the time of
/// the cut where nothing has been emitted.
pub proof fn law_a_cut_lands_no_later_than_it_must<V, A>(
    s: ProgramState<V, A>,
    pid: i64,
    now: i64,
    limit: int,
)
    requires
        forall|p: i64| #[trigger]
            s.last_offer.contains_key(p) && (p == pid || s.candidate(p)) ==> s.last_offer[p]
                <= limit,
        s.last matches Some(l) ==> l <= limit,
        now <= limit,
    ensures
        s.cut_boundary(pid, now) <= crate::program_bus::next_slot(
            crate::program_bus::next_slot(limit),
        ),
{
    lemma_latest_is_within(s.segments, s.last_offer, limit, pid);
    let fps = GENLOCK_GRID_FPS as int;
    let r = s.cut_reference(pid, now) as int;
    assert(r <= limit);
    crate::genlock::law_next_is_the_first_boundary_after(r, fps);
    crate::genlock::law_next_is_the_first_boundary_after(limit, fps);
    let (a, b) = (crate::program_bus::next_slot(r), crate::program_bus::next_slot(limit));
    assert(a <= b);
    crate::genlock::law_next_is_the_first_boundary_after(a, fps);
    crate::genlock::law_next_is_the_first_boundary_after(b, fps);
}

proof fn lemma_latest_is_within(
    segments: Seq<(i64, i64)>,
    last_offer: Map<i64, i64>,
    limit: int,
    pid: i64,
)
    requires
        forall|p: i64| #[trigger]
            last_offer.contains_key(p) && (p == pid || exists|i: int|
                0 <= i < segments.len() && (#[trigger] segments[i]).1 == p) ==> last_offer[p]
                <= limit,
    ensures
        crate::program_bus::latest_offer(segments, last_offer) matches Some(x) ==> x <= limit,
    decreases segments.len(),
{
    if segments.len() > 0 {
        let head = segments.drop_last();
        assert forall|p: i64| #[trigger]
            last_offer.contains_key(p) && (p == pid || exists|i: int|
                0 <= i < head.len() && (#[trigger] head[i]).1 == p) implies last_offer[p]
            <= limit by {
            if p != pid {
                let i = choose|i: int| 0 <= i < head.len() && (#[trigger] head[i]).1 == p;
                assert(segments[i].1 == p);
            }
        }
        lemma_latest_is_within(head, last_offer, limit, pid);
        assert(segments[segments.len() - 1].1 == segments.last().1);
    }
}

/// After a cut the state that is shown names the new source, the boundary from which it
/// owns the program, and, while it still owns one, the source before it.
pub proof fn law_the_status_shows_the_cut<V, A>(s: ProgramState<V, A>, pid: i64, now: i64)
    requires
        s.wf(),
        s.last is None,
        s.segments.len() == 1,
        crate::program_bus::in_time(now as int),
        s.segments[0].1 != pid,
        s.segments[0].0 < s.cut_boundary(pid, now),
    ensures
        ({
            let (source, previous, boundary, health) = s.cut_to(pid, now).status();
            &&& source == Some(pid)
            &&& previous == Some(s.segments[0].1)
            &&& boundary == Some(s.cut_boundary(pid, now) as i64)
            &&& health == s.cut_to(pid, now).health
        }),
        s.selected_initially(pid).status().0 == Some(pid),
        s.selected_initially(pid).status().1 is None,
        s.selected_initially(pid).status().2 is None,
{
    let t = s.cut_to(pid, now);
    let boundary = s.cut_boundary(pid, now);
    crate::program_laws::lemma_cut_boundary_is_a_stamp(s, pid, now);
    assert(s.segments.last() == s.segments[0]);
    assert(crate::program_bus::begun_before(s.segments, boundary) == s.segments);
    assert(t.segments =~= s.segments.push((boundary as i64, pid)));
    assert(boundary as i64 != i64::MIN);
}

/// The source that is kept over a restart is the one that was selected.
pub proof fn law_the_kept_source_is_restored(pid: i64, kept: String)
    requires
        call_ensures(crate::program_bus::persisted_source, (pid,), kept),
    ensures
        crate::text::parsed_int(kept@) == Some(pid as int),
{
    crate::text::law_written_integers_read_back(pid);
}

/// An offer forwards what is next and fills only what its owner has already passed: a
/// gap whose owner may still deliver it stays, while no more than sixteen frames wait
/// behind it.
pub proof fn law_an_offer_fills_only_what_its_owner_passed<V, A>(s: ProgramState<V, A>)
    requires
        s.wf(),
        s.aligned(),
        s.last is Some,
        s.pending.dom().len() <= 16,
        !s.pending.contains_key(crate::program_bus::next_slot(s.last->0 as int) as i64),
        ({
            let next = crate::program_bus::next_slot(s.last->0 as int);
            s.owner(next) matches Some(p) ==> s.last_offer.contains_key(p) ==> s.last_offer[p]
                <= next
        }),
    ensures
        s.ready_step() is None,
        forall|n: nat| #[trigger] s.readied(n) == s,
{
    let next = crate::program_bus::next_slot(s.last->0 as int);
    crate::program_bus::lemma_slot_bounds(next);
}

/// A gap that its owner has passed is filled as soon as a frame waits behind it, with
/// the program's own pair and stamped on it; a gap of more than eight slots is skipped
/// to that frame instead.
pub proof fn law_a_passed_gap_is_settled<V, A>(s: ProgramState<V, A>, pid: i64)
    requires
        s.wf(),
        s.aligned(),
        s.last is Some,
        crate::program_bus::first_key(s.pending) is Some,
        !s.pending.contains_key(crate::program_bus::next_slot(s.last->0 as int) as i64),
        s.owner(crate::program_bus::next_slot(s.last->0 as int)) == Some(pid),
        s.last_offer.contains_key(pid),
        s.last_offer[pid] > crate::program_bus::next_slot(s.last->0 as int) + 333_334,
    ensures
        ({
            let next = crate::program_bus::next_slot(s.last->0 as int);
            let first = crate::program_bus::first_key(s.pending)->0;
            &&& s.ready_step() matches Some(t)
            &&& t.pending == s.pending
            &&& first - next < 9 * 333_333 ==> t.queue.len() > 0 && t.queue.last() == (
            ProgramJob::<V, A>::Standby { stamp_100ns: next as i64 }) && t.last == Some(next as i64)
            &&& first - next >= 9 * 333_333 ==> t.queue == s.queue && t.last is Some
                && crate::program_bus::next_slot(t.last->0 as int) == first
        }),
{
    let next = crate::program_bus::next_slot(s.last->0 as int);
    let first = crate::program_bus::first_key(s.pending)->0;
    crate::program_bus::lemma_slot_bounds(s.last->0 as int);
    crate::program_bus::lemma_slot_bounds(next);
    crate::program_bus::lemma_first_key_is_first(s.pending);
    assert(crate::genlock::interval_of(30) == 333_333);
    law_a_skip_lands_on_its_target(s, first as int);
}

/// A run of more than eight missed slots is skipped by the sender's check, to the first
/// frame that waits or to the last boundary reached, whichever comes first; nothing is
/// queued for what is skipped, and nothing that waits is lost.
pub proof fn law_a_long_gap_is_skipped<V, A>(s: ProgramState<V, A>, now: int)
    requires
        s.wf(),
        s.aligned(),
        crate::program_bus::in_time(now),
        s.last is Some,
        !s.pending.contains_key(crate::program_bus::next_slot(s.last->0 as int) as i64),
        s.missed(crate::program_bus::next_slot(s.last->0 as int), now),
        crate::program_bus::floor_slot(now) - crate::program_bus::next_slot(s.last->0 as int) >= 9
            * 333_333,
    ensures
        ({
            let floor = crate::program_bus::floor_slot(now);
            let first = crate::program_bus::first_key(s.pending);
            &&& s.release_step(now) matches Some(t)
            &&& t.queue == s.queue
            &&& t.pending == s.pending
            &&& t.last is Some
            &&& first is Some && first->0 <= floor ==> crate::program_bus::next_slot(
                t.last->0 as int,
            ) == first->0
            &&& first is None || first->0 > floor ==> crate::program_bus::next_slot(
                t.last->0 as int,
            ) == floor
        }),
{
    let fps = GENLOCK_GRID_FPS as int;
    let floor = crate::program_bus::floor_slot(now);
    crate::program_bus::lemma_slot_bounds(now);
    crate::program_bus::lemma_slot_bounds(s.last->0 as int);
    crate::program_bus::lemma_first_key_is_first(s.pending);
    crate::genlock::law_floor_is_the_last_boundary(now, fps);
    assert(crate::genlock::interval_of(30) == 333_333);
    let target = s.skip_target(floor);
    lemma_skip(s, target);
}

/// A skip to a boundary makes that boundary next, also just before the range of times.
proof fn lemma_skip<V, A>(s: ProgramState<V, A>, target: int)
    requires
        -crate::program_bus::TIME_LIMIT_100NS - 333_334 <= target
            <= crate::program_bus::TIME_LIMIT_100NS,
        crate::program_bus::is_boundary(target),
    ensures
        s.resynced(target).last matches Some(l) && crate::program_bus::next_slot(l as int)
            == target,
{
    let fps = GENLOCK_GRID_FPS as int;
    crate::program_bus::lemma_slot_bounds(target - 1);
    let l = crate::program_bus::floor_slot(target - 1);
    crate::genlock::law_floor_is_the_last_boundary(target - 1, fps);
    crate::genlock::law_next_is_the_first_boundary_after(l, fps);
    crate::program_bus::lemma_slot_bounds(l);
}

/// Where anything has been emitted, the time of a cut plays no part in where it lands.
pub proof fn law_a_cut_follows_the_sources_not_the_clock<V, A>(
    s: ProgramState<V, A>,
    pid: i64,
    now: i64,
    later: i64,
)
    requires
        s.last is Some || s.last_offer.contains_key(pid) || exists|i: int|
            0 <= i < s.segments.len() && s.last_offer.contains_key((#[trigger] s.segments[i]).1),
    ensures
        s.cut_boundary(pid, now) == s.cut_boundary(pid, later),
{
    if s.last is None && !s.last_offer.contains_key(pid) {
        crate::program_laws::lemma_latest_bounds(s.segments, s.last_offer);
    }
}

/// A submitted pair is counted once and its stamp shown as the last; the receivers are
/// shown as they were counted. Neither touches what goes out, nor any other figure.
pub proof fn law_telemetry_touches_nothing_that_goes_out<V, A>(
    s: ProgramState<V, A>,
    stamp: i64,
    n: i32,
)
    requires
        s.health.submitted < u64::MAX,
    ensures
        ({
            let t = s.recorded(stamp).counted(n);
            &&& t.queue == s.queue
            &&& t.pending == s.pending
            &&& t.segments == s.segments
            &&& t.last == s.last
            &&& t.last_offer == s.last_offer
            &&& t.health.submitted == s.health.submitted + 1
            &&& t.health.last_stamp_100ns == stamp
            &&& t.health.connections == n
            &&& t.health.forwarded == s.health.forwarded
            &&& t.health.filled == s.health.filled
            &&& t.health.late_dropped == s.health.late_dropped
            &&& t.health.resyncs == s.health.resyncs
            &&& t.health.coalesced == s.health.coalesced
            &&& t.health.cuts == s.health.cuts
            &&& s.recorded(stamp).health.connections == s.health.connections
        }),
{
}

} // verus!
