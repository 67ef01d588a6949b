//! The life of the preview's encoder child: starting it, feeding it, watching
//! it, and deciding what follows when it ends. Processes, sockets and threads
//! are the caller's; this is what it decides by.

use crate::audio_align::{
    align_block, align_timeout, audio_preroll_samples, block_tail_range, pad_of, skip_of,
    AlignAction, MAX_AHEAD_FRAMES, PREVIEW_AUDIO_FRAMES_PER_MS,
};
use crate::encoder_args::same_text;
use std::collections::VecDeque;
use vstd::prelude::*;

verus! {

/// The child is stopped this long after the last viewer left.
pub const VIEWER_TTL_MS: u64 = 5_000;

/// Restarts allowed within [`RESTART_WINDOW_MS`].
pub const RESTART_MAX: usize = 3;

/// The rolling window of the restart budget.
pub const RESTART_WINDOW_MS: u64 = 60_000;

/// The child must connect an input within this time.
pub const ACCEPT_DEADLINE_MS: u64 = 5_000;

/// Samples of silence written at once.
pub const SILENCE_CHUNK_SAMPLES: usize = 8_192;

/// Error lines of one child that are logged.
pub const STDERR_MAX_LINES: usize = 20;

/// The feeder logs its alignment this often.
pub const AFEED_LOG_EVERY_MS: u64 = 10_000;

/// Bounds how often a dying child is started again.
#[derive(Debug)]
pub struct RestartBudget {
    restarts_ms: VecDeque<u64>,
}

/// `restarts` without those that left the window by `now`.
pub open spec fn in_window(restarts: Seq<u64>, now: u64) -> Seq<u64>
    decreases restarts.len(),
{
    if restarts.len() > 0 && now >= restarts[0] && now - restarts[0] >= RESTART_WINDOW_MS {
        in_window(restarts.skip(1), now)
    } else {
        restarts
    }
}

/// Whether one more restart at `now` is within the budget.
pub open spec fn allowed(restarts: Seq<u64>, now: u64) -> bool {
    in_window(restarts, now).len() < RESTART_MAX
}

/// The recorded restarts after one is asked for at `now`.
pub open spec fn after_request(restarts: Seq<u64>, now: u64) -> Seq<u64> {
    if allowed(restarts, now) {
        in_window(restarts, now).push(now)
    } else {
        in_window(restarts, now)
    }
}

impl View for RestartBudget {
    type V = Seq<u64>;

    closed spec fn view(&self) -> Seq<u64> {
        self.restarts_ms@
    }
}

impl Default for RestartBudget {
    fn default() -> (r: Self)
        ensures
            r@ == Seq::<u64>::empty(),
    {
        RestartBudget { restarts_ms: VecDeque::new() }
    }
}

impl RestartBudget {
    /// Ask for a restart at `now_ms`. Restarts that left the window are
    /// forgotten first; one that is allowed is recorded.
    pub fn allow(&mut self, now_ms: u64) -> (r: bool)
        ensures
            r == allowed(old(self)@, now_ms),
            final(self)@ == after_request(old(self)@, now_ms),
    {
        while self.restarts_ms.len() > 0 && now_ms.saturating_sub(self.restarts_ms[0])
            >= RESTART_WINDOW_MS
            invariant
                in_window(self@, now_ms) == in_window(old(self)@, now_ms),
            decreases self@.len(),
        {
            let ghost before = self@;
            let _ = self.restarts_ms.pop_front();
            assert(self@ =~= before.skip(1));
        }
        if self.restarts_ms.len() >= RESTART_MAX {
            return false;
        }
        self.restarts_ms.push_back(now_ms);
        true
    }
}

/// The restarts recorded, and those allowed so far, after requests at `times`.
pub open spec fn restarts_after(times: Seq<u64>) -> (Seq<u64>, Seq<u64>)
    decreases times.len(),
{
    if times.len() == 0 {
        (Seq::empty(), Seq::empty())
    } else {
        let (recorded, granted) = restarts_after(times.drop_last());
        let now = times.last();
        (
            after_request(recorded, now),
            if allowed(recorded, now) {
                granted.push(now)
            } else {
                granted
            },
        )
    }
}

proof fn lemma_in_window(restarts: Seq<u64>, now: u64)
    ensures
        exists|d: int|
            0 <= d <= restarts.len() && in_window(restarts, now) == restarts.skip(d) && forall|
                i: int,
            |
                0 <= i < d ==> now >= #[trigger] restarts[i] && now - restarts[i]
                    >= RESTART_WINDOW_MS,
    decreases restarts.len(),
{
    if restarts.len() > 0 && now >= restarts[0] && now - restarts[0] >= RESTART_WINDOW_MS {
        let rest = restarts.skip(1);
        lemma_in_window(rest, now);
        let d = choose|d: int|
            0 <= d <= rest.len() && in_window(rest, now) == rest.skip(d) && forall|i: int|
                0 <= i < d ==> now >= #[trigger] rest[i] && now - rest[i] >= RESTART_WINDOW_MS;
        assert(rest.skip(d) =~= restarts.skip(d + 1));
        assert forall|i: int| 0 <= i < d + 1 implies now >= #[trigger] restarts[i] && now
            - restarts[i] >= RESTART_WINDOW_MS by {
            if i > 0 {
                assert(rest[i - 1] == restarts[i]);
            }
        }
    } else {
        assert(restarts.skip(0) =~= restarts);
    }
}

/// The recorded restarts are the last granted ones, and every older one has left
/// the window of the latest request.
proof fn lemma_recorded_is_the_tail(times: Seq<u64>)
    requires
        forall|i: int, j: int| 0 <= i <= j < times.len() ==> times[i] <= times[j],
    ensures
        ({
            let (recorded, granted) = restarts_after(times);
            &&& recorded.len() <= RESTART_MAX
            &&& recorded.len() <= granted.len()
            &&& recorded == granted.skip(granted.len() - recorded.len())
            &&& times.len() > 0 ==> forall|i: int|
                0 <= i < granted.len() - recorded.len() ==> times.last() - #[trigger] granted[i]
                    >= RESTART_WINDOW_MS
            &&& forall|i: int|
                0 <= i < granted.len() - RESTART_MAX ==> #[trigger] granted[i + 3] - granted[i]
                    >= RESTART_WINDOW_MS
        }),
    decreases times.len(),
{
    if times.len() > 0 {
        let before = times.drop_last();
        let now = times.last();
        lemma_recorded_is_the_tail(before);
        let (recorded, granted) = restarts_after(before);
        let gone = granted.len() - recorded.len();
        lemma_in_window(recorded, now);
        let d = choose|d: int|
            0 <= d <= recorded.len() && in_window(recorded, now) == recorded.skip(d) && forall|
                i: int,
            |
                0 <= i < d ==> now >= #[trigger] recorded[i] && now - recorded[i]
                    >= RESTART_WINDOW_MS;
        let live = recorded.skip(d);
        let (recorded1, granted1) = restarts_after(times);
        assert forall|i: int| 0 <= i < gone + d implies now - #[trigger] granted[i]
            >= RESTART_WINDOW_MS by {
            if i >= gone {
                assert(granted[i] == recorded[i - gone]);
            } else {
                assert(before.len() > 0) by {
                    if before.len() == 0 {
                        assert(granted.len() == 0);
                    }
                }
                assert(before.last() == times[times.len() - 2]);
                assert(times[times.len() - 2] <= times[times.len() - 1]);
            }
        }
        assert(live =~= granted.skip(granted.len() - live.len()));
        if allowed(recorded, now) {
            assert(recorded1 =~= granted1.skip(granted1.len() - recorded1.len()));
            assert forall|i: int| 0 <= i < granted1.len() - RESTART_MAX implies #[trigger] granted1[i
                + 3] - granted1[i] >= RESTART_WINDOW_MS by {
                if i + 3 < granted.len() {
                    assert(granted[i + 3] - granted[i] >= RESTART_WINDOW_MS);
                } else {
                    assert(i < gone + d);
                    assert(now - granted[i] >= RESTART_WINDOW_MS);
                }
            }
        }
    }
}

/// However often a restart is asked for, any four granted ones span at least the
/// whole window: never more than three within one minute.
pub proof fn law_at_most_three_restarts_per_window(times: Seq<u64>, i: int)
    requires
        forall|i: int, j: int| 0 <= i <= j < times.len() ==> times[i] <= times[j],
        0 <= i,
        i + 3 < restarts_after(times).1.len(),
    ensures
        restarts_after(times).1[i + 3] - restarts_after(times).1[i] >= RESTART_WINDOW_MS,
{
    lemma_recorded_is_the_tail(times);
}

/// The encoders this process knows of.
pub struct EncoderChoice {
    /// The one that was found to work after the probed one failed.
    pub pinned: Option<String>,
    /// The one the probe selected.
    pub probed: Option<String>,
}

/// The encoder in use: the pinned one, else the probed one.
pub fn chosen_encoder(choice: &EncoderChoice) -> (r: Option<String>)
    ensures
        match r {
            Some(s) => if choice.pinned is Some {
                s@ == choice.pinned->0@
            } else {
                choice.probed is Some && s@ == choice.probed->0@
            },
            None => choice.pinned is None && choice.probed is None,
        },
{
    match &choice.pinned {
        Some(s) => Some(s.clone()),
        None => match &choice.probed {
            Some(s) => Some(s.clone()),
            None => None,
        },
    }
}

/// How one run of the child ended.
#[derive(Debug, Clone, Copy, PartialEq, Eq, Structural)]
pub enum RunOutcome {
    /// The viewers have been gone past their time.
    ViewersGone,
    /// The child ended, or could not be set up.
    ChildExited,
    /// The child ended, or never connected, without any output.
    ChildExitedNoInit,
}

/// What the supervisor does after a run.
#[derive(Debug, Clone, Copy, PartialEq, Eq, Structural)]
pub enum SuperviseStep {
    /// Nobody watches: forget the cached start of the stream and end.
    Stop,
    /// Run again with the software encoder, and pin it for every later child.
    FallBack,
    /// Run again. `close_relay`: the viewers hold the old child's start of
    /// stream, so they must connect anew.
    Respawn { close_relay: bool },
    /// Close the stream and end.
    GiveUp,
}

/// The supervisor of one output's encoder child.
pub struct Supervisor {
    pub encoder: String,
    pub allow_fallback: bool,
    pub budget: RestartBudget,
}

impl Supervisor {
    pub fn new(encoder: String) -> (r: Self)
        ensures
            r.encoder == encoder,
            r.allow_fallback == (encoder@ != "libx264"@),
            r.budget@ == Seq::<u64>::empty(),
    {
        let software: bool = same_text(encoder.as_str(), "libx264");
        Supervisor { encoder, allow_fallback: !software, budget: RestartBudget::default() }
    }

    /// What follows a run that ended with `outcome`.
    pub open spec fn step_of(
        &self,
        outcome: RunOutcome,
        has_viewer: bool,
        now_ms: u64,
    ) -> SuperviseStep {
        if outcome == RunOutcome::ViewersGone {
            SuperviseStep::Stop
        } else if outcome == RunOutcome::ChildExitedNoInit && self.allow_fallback {
            SuperviseStep::FallBack
        } else if has_viewer && allowed(self.budget@, now_ms) {
            SuperviseStep::Respawn { close_relay: outcome == RunOutcome::ChildExited }
        } else {
            SuperviseStep::GiveUp
        }
    }

    /// `after` is this supervisor once `step` was decided.
    pub open spec fn becomes(
        &self,
        step: SuperviseStep,
        has_viewer: bool,
        now_ms: u64,
        after: &Supervisor,
    ) -> bool {
        match step {
            SuperviseStep::FallBack => {
                &&& after.encoder@ == "libx264"@
                &&& !after.allow_fallback
                &&& after.budget == self.budget
            },
            SuperviseStep::Stop => *after == *self,
            _ => {
                &&& after.encoder == self.encoder
                &&& after.allow_fallback == self.allow_fallback
                &&& after.budget@ == if has_viewer {
                    after_request(self.budget@, now_ms)
                } else {
                    self.budget@
                }
            },
        }
    }

    /// Decide after a run. A hardware encoder that produced nothing is replaced
    /// once by the software encoder; a child that died under its viewers is
    /// started again within the budget; else the stream is closed.
    pub fn after_run(&mut self, outcome: RunOutcome, has_viewer: bool, now_ms: u64) -> (r:
        SuperviseStep)
        ensures
            r == old(self).step_of(outcome, has_viewer, now_ms),
            old(self).becomes(r, has_viewer, now_ms, final(self)),
            match r {
                SuperviseStep::FallBack => {
                    &&& final(self).encoder@ == "libx264"@
                    &&& !final(self).allow_fallback
                    &&& final(self).budget == old(self).budget
                },
                SuperviseStep::Stop => *final(self) == *old(self),
                _ => {
                    &&& final(self).encoder == old(self).encoder
                    &&& final(self).allow_fallback == old(self).allow_fallback
                    &&& final(self).budget@ == if has_viewer {
                        after_request(old(self).budget@, now_ms)
                    } else {
                        old(self).budget@
                    }
                },
            },
    {
        match outcome {
            RunOutcome::ViewersGone => {
                return SuperviseStep::Stop;
            },
            RunOutcome::ChildExitedNoInit => if self.allow_fallback {
                self.encoder = String::from_str("libx264");
                self.allow_fallback = false;
                return SuperviseStep::FallBack;
            },
            RunOutcome::ChildExited => {},
        }
        if has_viewer && self.budget.allow(now_ms) {
            SuperviseStep::Respawn { close_relay: outcome == RunOutcome::ChildExited }
        } else {
            SuperviseStep::GiveUp
        }
    }
}

/// Where the set-up of one run stands: what is to be tried next.
#[derive(Debug, Clone, Copy, PartialEq, Eq, Structural)]
pub enum ChildStage {
    BindVideo,
    BindAudio,
    VideoPort,
    AudioPort,
    Spawn,
    StderrReader,
    AcceptVideo,
    VideoFeeder,
    AcceptAudio,
    AudioFeeder,
    StdoutReader,
    /// Everything runs: watch the child until it ends.
    Monitor,
}

/// What runs, and must be stopped and joined when the run ends.
#[derive(Debug, Clone, Copy, PartialEq, Eq, Structural)]
pub struct Running {
    pub child: bool,
    pub stderr_reader: bool,
    pub video_feeder: bool,
    pub audio_feeder: bool,
    pub stdout_reader: bool,
}

/// What follows one stage.
#[derive(Debug, Clone, Copy, PartialEq, Eq, Structural)]
pub enum ChildStep {
    /// Go on with `stage`. `reset_relay`: first forget the cached start of an
    /// earlier child's stream.
    Go { stage: ChildStage, reset_relay: bool },
    /// Stop and join what runs, then report `outcome`.
    End { outcome: RunOutcome, running: Running, reset_relay: bool },
}

/// The order of the stages.
pub open spec fn stage_rank(stage: ChildStage) -> int {
    match stage {
        ChildStage::BindVideo => 0,
        ChildStage::BindAudio => 1,
        ChildStage::VideoPort => 2,
        ChildStage::AudioPort => 3,
        ChildStage::Spawn => 4,
        ChildStage::StderrReader => 5,
        ChildStage::AcceptVideo => 6,
        ChildStage::VideoFeeder => 7,
        ChildStage::AcceptAudio => 8,
        ChildStage::AudioFeeder => 9,
        ChildStage::StdoutReader => 10,
        ChildStage::Monitor => 11,
    }
}

/// What runs when `stage` is about to be tried: everything an earlier stage
/// started.
pub open spec fn running_at(stage: ChildStage) -> Running {
    Running {
        child: stage_rank(stage) > stage_rank(ChildStage::Spawn),
        stderr_reader: stage_rank(stage) > stage_rank(ChildStage::StderrReader),
        video_feeder: stage_rank(stage) > stage_rank(ChildStage::VideoFeeder),
        audio_feeder: stage_rank(stage) > stage_rank(ChildStage::AudioFeeder),
        stdout_reader: stage_rank(stage) > stage_rank(ChildStage::StdoutReader),
    }
}

/// The outcome of a run whose `stage` failed: a child that did not connect an
/// input has produced nothing, and may be tried with another encoder.
pub open spec fn failed_at(stage: ChildStage) -> RunOutcome {
    if stage == ChildStage::AcceptVideo || stage == ChildStage::AcceptAudio {
        RunOutcome::ChildExitedNoInit
    } else {
        RunOutcome::ChildExited
    }
}

fn rank(stage: ChildStage) -> (r: u8)
    ensures
        r == stage_rank(stage),
{
    match stage {
        ChildStage::BindVideo => 0,
        ChildStage::BindAudio => 1,
        ChildStage::VideoPort => 2,
        ChildStage::AudioPort => 3,
        ChildStage::Spawn => 4,
        ChildStage::StderrReader => 5,
        ChildStage::AcceptVideo => 6,
        ChildStage::VideoFeeder => 7,
        ChildStage::AcceptAudio => 8,
        ChildStage::AudioFeeder => 9,
        ChildStage::StdoutReader => 10,
        ChildStage::Monitor => 11,
    }
}

/// What runs when `stage` is about to be tried.
pub fn running(stage: ChildStage) -> (r: Running)
    ensures
        r == running_at(stage),
{
    let n: u8 = rank(stage);
    Running {
        child: n > 4,
        stderr_reader: n > 5,
        video_feeder: n > 7,
        audio_feeder: n > 9,
        stdout_reader: n > 10,
    }
}

/// What follows a set-up stage that succeeded or failed.
pub fn child_step(stage: ChildStage, ok: bool) -> (r: ChildStep)
    requires
        stage != ChildStage::Monitor,
    ensures
        match r {
            ChildStep::Go { stage: next, reset_relay } => {
                &&& ok
                &&& stage_rank(next) == stage_rank(stage) + 1
                &&& reset_relay == (stage == ChildStage::Spawn)
            },
            ChildStep::End { outcome, running, reset_relay } => {
                &&& !ok
                &&& outcome == failed_at(stage)
                &&& running == running_at(stage)
                &&& !reset_relay
            },
        },
{
    if !ok {
        let outcome: RunOutcome = match stage {
            ChildStage::AcceptVideo => RunOutcome::ChildExitedNoInit,
            ChildStage::AcceptAudio => RunOutcome::ChildExitedNoInit,
            _ => RunOutcome::ChildExited,
        };
        return ChildStep::End { outcome, running: running(stage), reset_relay: false };
    }
    let (next, reset_relay): (ChildStage, bool) = match stage {
        ChildStage::BindVideo => (ChildStage::BindAudio, false),
        ChildStage::BindAudio => (ChildStage::VideoPort, false),
        ChildStage::VideoPort => (ChildStage::AudioPort, false),
        ChildStage::AudioPort => (ChildStage::Spawn, false),
        ChildStage::Spawn => (ChildStage::StderrReader, true),
        ChildStage::StderrReader => (ChildStage::AcceptVideo, false),
        ChildStage::AcceptVideo => (ChildStage::VideoFeeder, false),
        ChildStage::VideoFeeder => (ChildStage::AcceptAudio, false),
        ChildStage::AcceptAudio => (ChildStage::AudioFeeder, false),
        ChildStage::AudioFeeder => (ChildStage::StdoutReader, false),
        _ => (ChildStage::Monitor, false),
    };
    ChildStep::Go { stage: next, reset_relay }
}

/// What follows when the watch over a running child ends with `outcome`:
/// everything is stopped and joined, and the cached start of its stream
/// forgotten.
pub fn child_ended(outcome: RunOutcome) -> (r: ChildStep)
    ensures
        r == (ChildStep::End {
            outcome,
            running: running_at(ChildStage::Monitor),
            reset_relay: true,
        }),
{
    ChildStep::End { outcome, running: running(ChildStage::Monitor), reset_relay: true }
}

/// No run leaves anything behind: at whichever stage it fails, what was started
/// so far is what it stops; and the feeder of an input runs before the next
/// input is waited for, since the child connects one input after reading from
/// the other.
pub proof fn law_a_failed_run_stops_what_it_started(stage: ChildStage, earlier: ChildStage)
    requires
        stage_rank(earlier) < stage_rank(stage),
    ensures
        earlier == ChildStage::Spawn ==> running_at(stage).child,
        earlier == ChildStage::StderrReader ==> running_at(stage).stderr_reader,
        earlier == ChildStage::VideoFeeder ==> running_at(stage).video_feeder,
        earlier == ChildStage::AudioFeeder ==> running_at(stage).audio_feeder,
        earlier == ChildStage::StdoutReader ==> running_at(stage).stdout_reader,
        running_at(ChildStage::AcceptAudio).video_feeder,
{
}

/// The watch over a running child.
#[derive(Debug, Clone, Copy, PartialEq, Eq, Structural)]
pub struct Monitor {
    /// Since when nobody has watched.
    pub empty_since_ms: Option<u64>,
}

impl Monitor {
    pub fn new() -> (r: Self)
        ensures
            r.empty_since_ms == None::<u64>,
    {
        Monitor { empty_since_ms: None }
    }

    /// The watch after a look.
    pub open spec fn after_look(self, exited: bool, has_viewer: bool, now: u64) -> Monitor {
        if exited {
            self
        } else if has_viewer {
            Monitor { empty_since_ms: None }
        } else if self.empty_since_ms is Some {
            self
        } else {
            Monitor { empty_since_ms: Some(now) }
        }
    }

    /// What a look comes to: how the run ended, if it has.
    pub open spec fn seen(self, exited: bool, produced: bool, has_viewer: bool, now: u64) -> Option<
        RunOutcome,
    > {
        if exited {
            Some(
                if produced {
                    RunOutcome::ChildExited
                } else {
                    RunOutcome::ChildExitedNoInit
                },
            )
        } else if !has_viewer && (self.empty_since_ms matches Some(t) && now - t >= VIEWER_TTL_MS) {
            Some(RunOutcome::ViewersGone)
        } else {
            None
        }
    }

    /// One look at the child and its viewers: how the run ended, if it has. A
    /// child that ended without any output may be tried with another encoder.
    pub fn poll(&mut self, exited: bool, produced: bool, has_viewer: bool, now_ms: u64) -> (r:
        Option<RunOutcome>)
        ensures
            r == old(self).seen(exited, produced, has_viewer, now_ms),
            *final(self) == old(self).after_look(exited, has_viewer, now_ms),
            ({
                let since = match old(self).empty_since_ms {
                    Some(t) => t,
                    None => now_ms,
                };
                r == if exited {
                    Some(
                        if produced {
                            RunOutcome::ChildExited
                        } else {
                            RunOutcome::ChildExitedNoInit
                        },
                    )
                } else if !has_viewer && now_ms >= since && now_ms - since >= VIEWER_TTL_MS {
                    Some(RunOutcome::ViewersGone)
                } else {
                    None
                }
            }),
            final(self).empty_since_ms == if exited {
                old(self).empty_since_ms
            } else if has_viewer {
                None
            } else if old(self).empty_since_ms is Some {
                old(self).empty_since_ms
            } else {
                Some(now_ms)
            },
    {
        if exited {
            return Some(
                if produced {
                    RunOutcome::ChildExited
                } else {
                    RunOutcome::ChildExitedNoInit
                },
            );
        }
        if has_viewer {
            self.empty_since_ms = None;
            return None;
        }
        let since: u64 = match self.empty_since_ms {
            Some(t) => t,
            None => now_ms,
        };
        self.empty_since_ms = Some(since);
        if now_ms.saturating_sub(since) >= VIEWER_TTL_MS {
            Some(RunOutcome::ViewersGone)
        } else {
            None
        }
    }
}

/// What came of one look at a listening socket.
#[derive(Debug, Clone, Copy, PartialEq, Eq, Structural)]
pub enum AcceptEvent {
    Connected,
    Nothing,
    Failed,
}

/// What to do about it.
#[derive(Debug, Clone, Copy, PartialEq, Eq, Structural)]
pub enum AcceptStep {
    Take,
    /// Look again a little later.
    Again,
    GiveUp,
}

/// Wait for one connection, but not past the deadline.
pub fn accept_step(event: AcceptEvent, elapsed_ms: u64, deadline_ms: u64) -> (r: AcceptStep)
    ensures
        r == match event {
            AcceptEvent::Connected => AcceptStep::Take,
            AcceptEvent::Failed => AcceptStep::GiveUp,
            AcceptEvent::Nothing => if elapsed_ms >= deadline_ms {
                AcceptStep::GiveUp
            } else {
                AcceptStep::Again
            },
        },
{
    match event {
        AcceptEvent::Connected => AcceptStep::Take,
        AcceptEvent::Failed => AcceptStep::GiveUp,
        AcceptEvent::Nothing => if elapsed_ms >= deadline_ms {
            AcceptStep::GiveUp
        } else {
            AcceptStep::Again
        },
    }
}

/// The stamp of the first video write: set once, never 0, which stands for
/// "none yet".
pub fn first_write_stamp(stamp_us: u64, elapsed_us: u64) -> (r: u64)
    ensures
        r == if stamp_us != 0 {
            stamp_us
        } else if elapsed_us == 0 {
            1
        } else {
            elapsed_us
        },
{
    if stamp_us != 0 {
        stamp_us
    } else if elapsed_us == 0 {
        1
    } else {
        elapsed_us
    }
}

/// Samples of the next piece of `remaining` samples of silence.
pub fn silence_chunk(remaining: usize) -> (r: usize)
    ensures
        r == if remaining < SILENCE_CHUNK_SAMPLES {
            remaining
        } else {
            SILENCE_CHUNK_SAMPLES
        },
        remaining > 0 ==> 0 < r <= remaining,
{
    if remaining < SILENCE_CHUNK_SAMPLES {
        remaining
    } else {
        SILENCE_CHUNK_SAMPLES
    }
}

/// What the feeder writes for one block or one wait.
#[derive(Debug, PartialEq, Eq)]
pub struct FeedWrite {
    /// Frames of silence first.
    pub pad_frames: usize,
    /// Then these samples of the block.
    pub samples: core::ops::Range<usize>,
}

/// The audio feeder of one child: the written audio is kept on the wall clock in
/// both directions.
#[derive(Debug, Clone, Copy, PartialEq, Eq, Structural)]
pub struct AudioFeeder {
    /// Frames of the preroll.
    pub base_frames: u64,
    pub written_frames: u64,
    pub padded_frames: u64,
    pub skipped_frames: u64,
}

/// Milliseconds the video has run before the audio input connected: none when no
/// video was written yet.
pub open spec fn connect_gap_ms(first_video_us: u64, elapsed_us: u64) -> int {
    if first_video_us == 0 || elapsed_us < first_video_us {
        0
    } else {
        (elapsed_us - first_video_us) / 1000
    }
}

/// Samples of silence before the first block.
pub open spec fn preroll_of(first_video_us: u64, elapsed_us: u64, lead_ms: u32) -> int {
    let gap = connect_gap_ms(first_video_us, elapsed_us);
    ((if gap < crate::audio_align::MAX_PREROLL_GAP_MS {
        gap
    } else {
        crate::audio_align::MAX_PREROLL_GAP_MS as int
    }) + lead_ms) * 96
}

impl AudioFeeder {
    /// The wall position `elapsed` microseconds after the preroll.
    pub open spec fn wall(self, elapsed: int) -> int {
        self.base_frames + elapsed * 48 / 1000
    }

    /// What was written holds the preroll and what was padded.
    pub open spec fn wf(self) -> bool {
        self.base_frames + self.padded_frames <= self.written_frames
    }

    /// The wall position `elapsed` microseconds after the preroll fits 64 bits, and so
    /// does what it is computed by.
    pub open spec fn reaches(self, elapsed: int) -> bool {
        elapsed * 48 <= u64::MAX && self.wall(elapsed) <= u64::MAX
    }

    /// The feeder starts once its input connects: the samples of silence to
    /// write first, and its timeline after them.
    pub fn start(first_video_us: u64, elapsed_us: u64, lead_ms: u32) -> (r: (usize, AudioFeeder))
        requires
            (crate::audio_align::MAX_PREROLL_GAP_MS + lead_ms) * 96 <= usize::MAX,
        ensures
            r.1.wf(),
            r.0 == preroll_of(first_video_us, elapsed_us, lead_ms),
            r.1 == (AudioFeeder {
                base_frames: (preroll_of(first_video_us, elapsed_us, lead_ms) / 2) as u64,
                written_frames: (preroll_of(first_video_us, elapsed_us, lead_ms) / 2) as u64,
                padded_frames: 0,
                skipped_frames: 0,
            }),
    {
        let gap_ms: u64 = if first_video_us == 0 {
            0
        } else {
            elapsed_us.saturating_sub(first_video_us) / 1000
        };
        let preroll: usize = audio_preroll_samples(gap_ms, lead_ms);
        let base_frames: u64 = (preroll / 2) as u64;
        (
            preroll,
            AudioFeeder {
                base_frames,
                written_frames: base_frames,
                padded_frames: 0,
                skipped_frames: 0,
            },
        )
    }

    /// The wall position `elapsed_us` after the preroll.
    pub fn wall_frames(&self, elapsed_us: u64) -> (r: u64)
        requires
            self.reaches(elapsed_us as int),
        ensures
            r == self.wall(elapsed_us as int),
    {
        self.base_frames + elapsed_us * PREVIEW_AUDIO_FRAMES_PER_MS / 1000
    }

    /// The frames that a block of `frames` frames loses at its start, `elapsed` after the
    /// preroll.
    pub open spec fn cut_from(self, elapsed: int, frames: int) -> int {
        skip_of(self.wall(elapsed), self.written_frames + self.owes(elapsed), frames)
    }

    /// The frames of silence owed `elapsed` after the preroll.
    pub open spec fn owes(self, elapsed: int) -> int {
        pad_of(self.wall(elapsed), self.written_frames as int)
    }

    /// The feeder after a block of `frames` frames.
    pub open spec fn after_block(self, elapsed: int, frames: int) -> AudioFeeder {
        let (pad, skip) = (self.owes(elapsed), self.cut_from(elapsed, frames));
        AudioFeeder {
            written_frames: (self.written_frames + pad + frames - skip) as u64,
            padded_frames: (self.padded_frames + pad) as u64,
            skipped_frames: (self.skipped_frames + skip) as u64,
            ..self
        }
    }

    /// A block of `len` samples came.
    pub fn block(&mut self, elapsed_us: u64, len: usize) -> (r: FeedWrite)
        requires
            old(self).wf(),
            old(self).reaches(elapsed_us as int),
            old(self).wall(elapsed_us as int) + MAX_AHEAD_FRAMES <= u64::MAX,
            old(self).wall(elapsed_us as int) + len / 2 <= u64::MAX,
            old(self).wall(elapsed_us as int) - old(self).written_frames <= usize::MAX,
            old(self).written_frames + len / 2 <= u64::MAX,
            old(self).skipped_frames + len / 2 <= u64::MAX,
        ensures
            final(self).wf(),
            *final(self) == old(self).after_block(elapsed_us as int, (len / 2) as int),
            r.pad_frames == old(self).owes(elapsed_us as int),
            r.samples.start == 2 * old(self).cut_from(elapsed_us as int, (len / 2) as int),
            r.samples.end == 2 * (len / 2),
            ({
                let wall = old(self).wall(elapsed_us as int);
                let pad = pad_of(wall, old(self).written_frames as int);
                let frames = (len / 2) as int;
                let skip = skip_of(wall, old(self).written_frames + pad, frames);
                &&& r.pad_frames == pad
                &&& r.samples.start == skip * 2
                &&& r.samples.end == frames * 2
                &&& *final(self) == (AudioFeeder {
                    written_frames: (old(self).written_frames + pad + frames - skip) as u64,
                    padded_frames: (old(self).padded_frames + pad) as u64,
                    skipped_frames: (old(self).skipped_frames + skip) as u64,
                    ..*old(self)
                })
            }),
    {
        let wall: u64 = self.wall_frames(elapsed_us);
        let a: AlignAction = align_block(wall, self.written_frames, len / 2);
        let samples: core::ops::Range<usize> = block_tail_range(a.skip_frames, len);
        proof {
            crate::audio_align::law_block_ends_in_the_band(
                wall as int,
                self.written_frames as int,
                (len / 2) as int,
            );
        }
        self.padded_frames = self.padded_frames + a.pad_frames as u64;
        self.written_frames = self.written_frames + a.pad_frames as u64 + ((samples.end
            - samples.start) / 2) as u64;
        self.skipped_frames = self.skipped_frames + a.skip_frames as u64;
        FeedWrite { pad_frames: a.pad_frames, samples }
    }

    /// No block came within the wait: frames of silence that keep the encoder
    /// from starving.
    pub fn timeout(&mut self, elapsed_us: u64) -> (r: usize)
        requires
            old(self).wf(),
            old(self).reaches(elapsed_us as int),
            old(self).wall(elapsed_us as int) - old(self).written_frames <= usize::MAX,
        ensures
            final(self).wf(),
            r == old(self).owes(elapsed_us as int),
            *final(self) == old(self).after_block(elapsed_us as int, 0),
            r == pad_of(old(self).wall(elapsed_us as int), old(self).written_frames as int),
            *final(self) == (AudioFeeder {
                written_frames: (old(self).written_frames + r) as u64,
                padded_frames: (old(self).padded_frames + r) as u64,
                ..*old(self)
            }),
    {
        let wall: u64 = self.wall_frames(elapsed_us);
        let pad: usize = align_timeout(wall, self.written_frames);
        self.written_frames = self.written_frames + pad as u64;
        self.padded_frames = self.padded_frames + pad as u64;
        pad
    }

    /// What the feeder logs: milliseconds ahead of the wall, padded, skipped.
    pub fn report(&self, elapsed_us: u64) -> (r: (i64, u64, u64))
        requires
            self.reaches(elapsed_us as int),
            i64::MIN <= self.written_frames - self.wall(elapsed_us as int) <= i64::MAX,
        ensures
            ({
                let ahead = self.written_frames - self.wall(elapsed_us as int);
                r.0 == if ahead >= 0 {
                    ahead / 48
                } else {
                    -((-ahead) / 48)
                }
            }),
            r.1 == self.padded_frames / 48,
            r.2 == self.skipped_frames / 48,
    {
        let wall: u64 = self.wall_frames(elapsed_us);
        let ahead_ms: i64 = if self.written_frames >= wall {
            ((self.written_frames - wall) / PREVIEW_AUDIO_FRAMES_PER_MS) as i64
        } else {
            -(((wall - self.written_frames) / PREVIEW_AUDIO_FRAMES_PER_MS) as i64)
        };
        (
            ahead_ms,
            self.padded_frames / PREVIEW_AUDIO_FRAMES_PER_MS,
            self.skipped_frames / PREVIEW_AUDIO_FRAMES_PER_MS,
        )
    }
}

/// The log of one child's error lines: the first few are shown, the rest
/// counted.
#[derive(Debug, Clone, Copy, PartialEq, Eq, Structural)]
pub struct StderrLog {
    pub shown: usize,
    pub suppressed: usize,
}

/// A line of white space only.
pub open spec fn is_blank(line: Seq<char>) -> bool {
    crate::text::trim_start(line).len() == 0
}

impl StderrLog {
    pub fn new() -> (r: Self)
        ensures
            r.shown == 0,
            r.suppressed == 0,
    {
        StderrLog { shown: 0, suppressed: 0 }
    }

    /// The log after a line, and whether the line is shown.
    pub open spec fn after_line(self, line: Seq<char>) -> (StderrLog, bool) {
        if is_blank(line) {
            (self, false)
        } else if self.shown < STDERR_MAX_LINES {
            (StderrLog { shown: (self.shown + 1) as usize, ..self }, true)
        } else {
            (StderrLog { suppressed: (self.suppressed + 1) as usize, ..self }, false)
        }
    }

    /// One line came. Returns whether to show it.
    pub fn line(&mut self, line: &str) -> (r: bool)
        requires
            old(self).shown <= STDERR_MAX_LINES,
            old(self).suppressed < usize::MAX,
        ensures
            (*final(self), r) == old(self).after_line(line@),
            r == (!is_blank(line@) && old(self).shown < STDERR_MAX_LINES),
            final(self).shown == old(self).shown + if r {
                1int
            } else {
                0int
            },
            final(self).suppressed == old(self).suppressed + if !is_blank(line@) && !r {
                1int
            } else {
                0int
            },
            final(self).shown <= STDERR_MAX_LINES,
    {
        let cs: Vec<char> = crate::text::chars_of(line);
        let mut i: usize = 0;
        assert(cs@.skip(0) =~= cs@);
        while i < cs.len() && crate::text::is_space_char(cs[i])
            invariant
                i <= cs@.len(),
                crate::text::trim_start(cs@.skip(i as int)) == crate::text::trim_start(cs@),
            decreases cs@.len() - i,
        {
            assert(cs@.skip(i as int).skip(1) =~= cs@.skip(i + 1));
            i = i + 1;
        }
        let ghost rest = cs@.skip(i as int);
        assert(rest.len() > 0 ==> rest[0] == cs@[i as int]);
        if i == cs.len() {
            return false;
        }
        if self.shown < STDERR_MAX_LINES {
            self.shown = self.shown + 1;
            true
        } else {
            self.suppressed = self.suppressed + 1;
            false
        }
    }
}

/// A restart is granted exactly unless the third last one was granted less than a
/// minute ago: three a minute are always granted, and a fourth never.
pub proof fn law_three_restarts_a_minute_are_granted(restarts: Seq<u64>, now: u64)
    requires
        forall|i: int, j: int| 0 <= i <= j < restarts.len() ==> restarts[i] <= restarts[j],
        forall|i: int| 0 <= i < restarts.len() ==> #[trigger] restarts[i] <= now,
    ensures
        allowed(restarts, now) <==> restarts.len() < 3 || now - restarts[restarts.len() - 3]
            >= 60_000,
    decreases restarts.len(),
{
    if restarts.len() > 0 && now - restarts[0] >= RESTART_WINDOW_MS {
        let rest = restarts.skip(1);
        assert forall|i: int, j: int| 0 <= i <= j < rest.len() implies rest[i] <= rest[j] by {
            assert(restarts[i + 1] <= restarts[j + 1]);
        }
        assert forall|i: int| 0 <= i < rest.len() implies #[trigger] rest[i] <= now by {
            assert(restarts[i + 1] <= now);
        }
        law_three_restarts_a_minute_are_granted(rest, now);
        if rest.len() >= 3 {
            assert(rest[rest.len() - 3] == restarts[restarts.len() - 3]);
        }
    } else if restarts.len() >= 3 {
        assert(restarts[0] <= restarts[restarts.len() - 3]);
    }
}

/// A granted restart is remembered as the latest, and a refused one is not.
pub proof fn law_granted_restarts_are_remembered(restarts: Seq<u64>, now: u64)
    ensures
        allowed(restarts, now) ==> after_request(restarts, now).len() > 0 && after_request(
            restarts,
            now,
        ).last() == now,
        !allowed(restarts, now) ==> after_request(restarts, now) == in_window(restarts, now),
{
}

/// The stream ends without a word exactly when the viewers are gone; another encoder is
/// tried exactly for a child that gave nothing, while one is left to try; the child is
/// started again only for a viewer and within the budget, and its viewers must connect
/// anew exactly when they hold the start of its stream. Else the stream is closed.
pub proof fn law_what_follows_a_run(
    s: &Supervisor,
    outcome: RunOutcome,
    has_viewer: bool,
    now_ms: u64,
)
    ensures
        ({
            let step = s.step_of(outcome, has_viewer, now_ms);
            let gone = outcome == RunOutcome::ViewersGone;
            let other = outcome == RunOutcome::ChildExitedNoInit && s.allow_fallback;
            let again = has_viewer && allowed(s.budget@, now_ms);
            &&& step == SuperviseStep::Stop <==> gone
            &&& step == SuperviseStep::FallBack <==> other
            &&& step is Respawn <==> !gone && !other && again
            &&& step == SuperviseStep::GiveUp <==> !gone && !other && !again
            &&& step matches SuperviseStep::Respawn { close_relay } ==> (close_relay <==> outcome
                == RunOutcome::ChildExited)
        }),
{
}

/// A run is set up in order: both sockets, their ports, the child, its errors; then the
/// video input and its feeder, the audio input and its feeder, and the output.
pub proof fn law_the_order_of_a_run()
    ensures
        stage_rank(ChildStage::BindVideo) < stage_rank(ChildStage::BindAudio) < stage_rank(
            ChildStage::VideoPort,
        ) < stage_rank(ChildStage::AudioPort) < stage_rank(ChildStage::Spawn) < stage_rank(
            ChildStage::StderrReader,
        ) < stage_rank(ChildStage::AcceptVideo) < stage_rank(ChildStage::VideoFeeder) < stage_rank(
            ChildStage::AcceptAudio,
        ) < stage_rank(ChildStage::AudioFeeder) < stage_rank(ChildStage::StdoutReader)
            < stage_rank(ChildStage::Monitor),
{
}

/// A stage that fails stops nothing that was not started, and one that succeeds is
/// followed by the next; only the start of a child makes its predecessor's stream
/// forgotten. A run that fails gave nothing exactly when an input did not connect.
pub proof fn law_a_stage_and_what_follows(stage: ChildStage, ok: bool, step: ChildStep)
    requires
        stage != ChildStage::Monitor,
        call_ensures(child_step, (stage, ok), step),
    ensures
        ok ==> (step matches ChildStep::Go { stage: next, reset_relay } && stage_rank(next)
            == stage_rank(stage) + 1 && (reset_relay <==> stage == ChildStage::Spawn)),
        !ok ==> (step matches ChildStep::End { outcome, running, reset_relay } && !reset_relay && (
        running.child ==> stage_rank(ChildStage::Spawn) < stage_rank(stage)) && (
        running.stderr_reader ==> stage_rank(ChildStage::StderrReader) < stage_rank(stage)) && (
        running.video_feeder ==> stage_rank(ChildStage::VideoFeeder) < stage_rank(stage)) && (
        running.audio_feeder ==> stage_rank(ChildStage::AudioFeeder) < stage_rank(stage)) && (
        running.stdout_reader ==> stage_rank(ChildStage::StdoutReader) < stage_rank(stage)) && (
        outcome == RunOutcome::ChildExitedNoInit <==> stage == ChildStage::AcceptVideo || stage
            == ChildStage::AcceptAudio) && outcome != RunOutcome::ViewersGone),
{
}

/// A child that runs to its end leaves nothing running, and nothing of its stream.
pub proof fn law_a_run_ends_whole(outcome: RunOutcome, step: ChildStep)
    requires
        call_ensures(child_ended, (outcome,), step),
    ensures
        step matches ChildStep::End { outcome: o, running, reset_relay } && o == outcome
            && reset_relay && running.child && running.stderr_reader && running.video_feeder
            && running.audio_feeder && running.stdout_reader,
{
}

/// The pinned encoder is used before the probed one, and one is used wherever one is
/// known.
pub proof fn law_a_pinned_encoder_comes_first(choice: EncoderChoice, r: Option<String>)
    requires
        call_ensures(chosen_encoder, (&choice,), r),
    ensures
        choice.pinned is Some ==> r is Some && r->0@ == choice.pinned->0@,
        choice.pinned is None && choice.probed is Some ==> r is Some && r->0@
            == choice.probed->0@,
        r is None <==> choice.pinned is None && choice.probed is None,
{
}

/// The gap is none before the first picture, and from then on grows with the clock, a
/// millisecond for a millisecond.
pub proof fn law_the_gap_runs_from_the_first_picture(first: u64, elapsed: u64, ms: u64)
    requires
        first > 0,
        first + 1000 * ms <= u64::MAX,
    ensures
        connect_gap_ms(0, elapsed) == 0,
        elapsed <= first ==> connect_gap_ms(first, elapsed) == 0,
        connect_gap_ms(first, (first + 1000 * ms) as u64) == ms,
{
}

/// The preroll covers the gap, at most five seconds of it, and the lead: 96 samples a
/// millisecond, both sides of 48 frames.
pub proof fn law_the_preroll_covers_gap_and_lead(
    first_video_us: u64,
    elapsed_us: u64,
    lead_ms: u32,
    feeder: (usize, AudioFeeder),
)
    requires
        call_ensures(AudioFeeder::start, (first_video_us, elapsed_us, lead_ms), feeder),
        (5_000 + lead_ms) * 96 <= usize::MAX,
    ensures
        ({
            let gap = connect_gap_ms(first_video_us, elapsed_us);
            &&& gap <= 5_000 ==> feeder.0 == 96 * (gap + lead_ms)
            &&& gap > 5_000 ==> feeder.0 == 96 * (5_000 + lead_ms)
            &&& feeder.1.base_frames * 2 == feeder.0
            &&& feeder.1.written_frames == feeder.1.base_frames
            &&& feeder.1.padded_frames == 0 && feeder.1.skipped_frames == 0
        }),
{
}

/// The wall moves 48 frames a millisecond from the preroll on.
pub proof fn law_the_wall_moves_with_the_clock(feeder: AudioFeeder, ms: int)
    ensures
        feeder.wall(0) == feeder.base_frames,
        feeder.wall(1000 * ms) == feeder.base_frames + 48 * ms,
{
}

/// A look at a socket takes a connection, gives up on a failure or past the deadline,
/// and else looks again.
pub proof fn law_an_input_is_waited_for(
    event: AcceptEvent,
    elapsed_ms: u64,
    deadline_ms: u64,
    step: AcceptStep,
)
    requires
        call_ensures(accept_step, (event, elapsed_ms, deadline_ms), step),
    ensures
        step == AcceptStep::Take <==> event == AcceptEvent::Connected,
        step == AcceptStep::Again <==> event == AcceptEvent::Nothing && elapsed_ms < deadline_ms,
{
}

/// The first write is stamped once: a later write keeps the stamp, and a stamp is never
/// taken for none.
pub proof fn law_the_first_write_is_stamped_once(
    elapsed_us: u64,
    later_us: u64,
    stamp: u64,
    again: u64,
)
    requires
        call_ensures(first_write_stamp, (0u64, elapsed_us), stamp),
        call_ensures(first_write_stamp, (stamp, later_us), again),
    ensures
        stamp > 0,
        again == stamp,
        elapsed_us > 0 ==> stamp == elapsed_us,
{
}

/// A line is blank exactly when it holds nothing but white space.
pub proof fn law_blank_lines_hold_only_space(line: Seq<char>)
    ensures
        is_blank(line) <==> forall|i: int|
            0 <= i < line.len() ==> crate::text::is_space(#[trigger] line[i]),
    decreases line.len(),
{
    if line.len() > 0 && crate::text::is_space(line[0]) {
        let rest = line.skip(1);
        law_blank_lines_hold_only_space(rest);
        assert forall|i: int| 0 < i < line.len() implies line[i] == #[trigger] rest[i - 1] by {}
        if is_blank(line) {
            assert forall|i: int| 0 <= i < line.len() implies crate::text::is_space(
                #[trigger] line[i],
            ) by {
                if i > 0 {
                    assert(crate::text::is_space(rest[i - 1]));
                }
            }
        } else {
            let k = choose|k: int| 0 <= k < rest.len() && !crate::text::is_space(#[trigger] rest[k]);
            assert(!crate::text::is_space(line[k + 1]));
        }
    }
}

/// The watch after looks at `looks`: whether somebody watched, and when.
pub open spec fn watched(looks: Seq<(bool, u64)>) -> Monitor
    decreases looks.len(),
{
    if looks.len() == 0 {
        Monitor { empty_since_ms: None }
    } else {
        watched(looks.drop_last()).after_look(false, looks.last().0, looks.last().1)
    }
}

/// However often the watch looks, it remembers when the last viewer was first missed:
/// nothing while somebody watches, else the first look without one since.
pub proof fn law_the_watch_counts_from_the_first_empty_look(looks: Seq<(bool, u64)>)
    ensures
        match watched(looks).empty_since_ms {
            None => looks.len() == 0 || looks.last().0,
            Some(t) => exists|i: int|
                0 <= i < looks.len() && (#[trigger] looks[i]).1 == t && (forall|j: int|
                    i <= j < looks.len() ==> !(#[trigger] looks[j]).0) && (i > 0 ==> looks[i
                    - 1].0),
        },
    decreases looks.len(),
{
    if looks.len() > 0 {
        let front = looks.drop_last();
        law_the_watch_counts_from_the_first_empty_look(front);
        let n = looks.len() - 1;
        if !looks.last().0 {
            match watched(front).empty_since_ms {
                None => {
                    assert(looks[n].1 == looks.last().1);
                    if n > 0 {
                        assert(looks[n - 1] == front.last());
                    }
                },
                Some(t) => {
                    let i = choose|i: int|
                        0 <= i < front.len() && (#[trigger] front[i]).1 == t && (forall|j: int|
                            i <= j < front.len() ==> !(#[trigger] front[j]).0) && (i > 0 ==> front[i
                            - 1].0);
                    assert(looks[i] == front[i]);
                    assert forall|j: int| i <= j < looks.len() implies !(#[trigger] looks[j]).0 by {
                        if j < n {
                            assert(looks[j] == front[j]);
                        }
                    }
                    if i > 0 {
                        assert(looks[i - 1] == front[i - 1]);
                    }
                },
            }
        }
    }
}

/// A run ends for want of viewers exactly when none has been there for five seconds; a
/// viewer that comes back in time starts the count anew. A child that ended ends the
/// run at once, and gave nothing exactly when it produced nothing.
pub proof fn law_when_a_run_ends(
    m: Monitor,
    exited: bool,
    produced: bool,
    has_viewer: bool,
    now: u64,
)
    ensures
        m.seen(exited, produced, has_viewer, now) == Some(RunOutcome::ViewersGone) <==> !exited
            && !has_viewer && m.empty_since_ms is Some && now >= m.empty_since_ms->0 + 5_000,
        m.seen(exited, produced, has_viewer, now) == Some(RunOutcome::ChildExited) <==> exited
            && produced,
        m.seen(exited, produced, has_viewer, now) == Some(RunOutcome::ChildExitedNoInit) <==> exited
            && !produced,
        m.after_look(false, true, now).empty_since_ms is None,
{
}

/// Another encoder is tried once: after a fall-back the software encoder is in use, and
/// a run that gives nothing is no reason for another. Nothing but a fall-back changes
/// the encoder, and only a request for a restart the budget.
pub proof fn law_the_encoder_is_replaced_once(
    s: Supervisor,
    outcome: RunOutcome,
    has_viewer: bool,
    now_ms: u64,
    after: Supervisor,
    later: RunOutcome,
    viewer: bool,
    later_ms: u64,
)
    requires
        s.becomes(s.step_of(outcome, has_viewer, now_ms), has_viewer, now_ms, &after),
    ensures
        ({
            let step = s.step_of(outcome, has_viewer, now_ms);
            &&& step == SuperviseStep::FallBack ==> after.encoder@ == "libx264"@ && after.budget@
                == s.budget@ && after.step_of(later, viewer, later_ms) != SuperviseStep::FallBack
            &&& step != SuperviseStep::FallBack ==> after.encoder@ == s.encoder@
                && after.allow_fallback == s.allow_fallback
            &&& step is Respawn ==> after.budget@.len() > 0 && after.budget@.last() == now_ms
            &&& !has_viewer ==> after.budget@ == s.budget@
        }),
{
}

/// A supervisor may fall back exactly from an encoder that is not the software one.
pub proof fn law_software_has_no_fallback(encoder: String, s: Supervisor)
    requires
        call_ensures(Supervisor::new, (encoder,), s),
    ensures
        s.encoder@ == encoder@,
        s.allow_fallback <==> encoder@ != "libx264"@,
        s.budget@.len() == 0,
{
}

/// Every frame of a block is written or counted as skipped, all silence is counted as
/// padded, and the written audio ends within the band round the wall.
pub proof fn law_the_feeder_counts_every_frame(feeder: AudioFeeder, elapsed: int, frames: int)
    requires
        feeder.wf(),
        0 <= elapsed,
        0 <= frames,
        feeder.wall(elapsed) + 14_400 + frames <= u64::MAX,
        feeder.written_frames + frames <= u64::MAX,
        feeder.skipped_frames + frames <= u64::MAX,
    ensures
        ({
            let after = feeder.after_block(elapsed, frames);
            let padded = after.padded_frames - feeder.padded_frames;
            let skipped = after.skipped_frames - feeder.skipped_frames;
            &&& after.written_frames - feeder.written_frames == padded + frames - skipped
            &&& padded >= 0
            &&& 0 <= skipped <= frames
            &&& feeder.wall(elapsed) - 7_200 <= after.written_frames
            &&& after.written_frames <= feeder.wall(elapsed) + 14_400 || after.written_frames
                == feeder.written_frames
            &&& after.base_frames == feeder.base_frames
            &&& padded == feeder.owes(elapsed)
            &&& skipped == feeder.cut_from(elapsed, frames)
        }),
{
    crate::audio_align::law_block_ends_in_the_band(
        feeder.wall(elapsed),
        feeder.written_frames as int,
        frames,
    );
}

/// The log after `lines`, and how many of them were shown.
pub open spec fn logged(lines: Seq<Seq<char>>) -> (StderrLog, int)
    decreases lines.len(),
{
    if lines.len() == 0 {
        (StderrLog { shown: 0, suppressed: 0 }, 0)
    } else {
        let (log, shown) = logged(lines.drop_last());
        let (after, show) = log.after_line(lines.last());
        (
            after,
            shown + if show {
                1int
            } else {
                0
            },
        )
    }
}

/// Of a child's error lines the first twenty that are not blank are shown; every other
/// one is counted.
pub proof fn law_twenty_error_lines_are_shown(lines: Seq<Seq<char>>)
    requires
        lines.len() <= usize::MAX,
    ensures
        ({
            let (log, shown) = logged(lines);
            let said = lines.filter(|l: Seq<char>| !is_blank(l)).len();
            &&& shown == log.shown
            &&& log.shown == (if said < 20 {
                said
            } else {
                20
            })
            &&& log.shown + log.suppressed == said
            &&& said <= lines.len()
        }),
    decreases lines.len(),
{
    reveal(Seq::filter);
    if lines.len() > 0 {
        law_twenty_error_lines_are_shown(lines.drop_last());
    }
}

/// Silence is written in pieces of at most 8192 samples until none is left.
pub proof fn law_silence_is_written_in_pieces(remaining: usize, piece: usize)
    requires
        call_ensures(silence_chunk, (remaining,), piece),
    ensures
        piece <= 8_192,
        piece <= remaining,
        remaining <= 8_192 ==> piece == remaining,
        remaining > 8_192 ==> piece == 8_192,
{
}

/// The feeder's report is in whole milliseconds, 48 frames each, ahead of the wall or
/// behind it alike.
pub proof fn law_the_feeder_reports_milliseconds(
    feeder: AudioFeeder,
    elapsed_us: u64,
    r: (i64, u64, u64),
)
    requires
        call_ensures(AudioFeeder::report, (&feeder, elapsed_us), r),
    ensures
        ({
            let ahead = feeder.written_frames - feeder.wall(elapsed_us as int);
            &&& ahead >= 0 ==> 48 * r.0 <= ahead < 48 * r.0 + 48
            &&& ahead < 0 ==> 48 * r.0 - 48 < ahead <= 48 * r.0
        }),
        48 * r.1 <= feeder.padded_frames < 48 * r.1 + 48,
        48 * r.2 <= feeder.skipped_frames < 48 * r.2 + 48,
{
}

} // verus!
