//! Playing a song on the wall-clock grid.
//!
//! One thread decodes ahead into a bounded queue, one serves a frame at every
//! boundary, one submits. Here are the decisions of the first two, and of the idle
//! turn between songs; the queue, the pacer and the clock are asked in between.

use crate::pacer_sink::{plan_sleep_100ns, SleepDecision};
use crate::pacing_stats::PacingStats;
use crate::pipeline::{song_command, CommandStep, Polled, POSITION_REPORT_NS};
use crate::pipeline_types::{DecodeResult, PipelineCommand, PipelineEvent, PlaybackStateLabel};
use crate::preview_stream::DecodedVideoFrame;
use crate::submit_handoff::PacedFrame;
use vstd::prelude::*;

verus! {

/// Frames that are decoded ahead.
pub const DECODE_QUEUE_BOUND: usize = 12;

/// The last part of a wait is spun instead of slept (100 ns).
pub const SPIN_MARGIN_100NS: i64 = 20_000;

/// Milliseconds from `offset` to `timestamp`; 0 when it lies before.
pub open spec fn relative_ms(timestamp: u64, offset: u64) -> int {
    if timestamp >= offset {
        timestamp - offset
    } else {
        0
    }
}

/// Milliseconds as nanoseconds in 64 signed bits: the bits of the milliseconds
/// read as signed, the product held at the bounds.
pub open spec fn pts_ns_of(ms: int) -> int {
    let signed = if ms > i64::MAX {
        ms - 0x1_0000_0000_0000_0000
    } else {
        ms
    };
    if signed * 1_000_000 > i64::MAX {
        i64::MAX as int
    } else if signed * 1_000_000 < i64::MIN {
        i64::MIN as int
    } else {
        signed * 1_000_000
    }
}

/// The time of a picture, in nanoseconds from where playback began.
pub fn paced_pts_ns(timestamp_ms: u64, pts_offset_ms: u64) -> (r: i64)
    ensures
        r == pts_ns_of(relative_ms(timestamp_ms, pts_offset_ms)),
{
    let rel: u64 = timestamp_ms.saturating_sub(pts_offset_ms);
    let signed: i128 = if rel > i64::MAX as u64 {
        rel as i128 - 0x1_0000_0000_0000_0000
    } else {
        rel as i128
    };
    let scaled: i128 = signed * 1_000_000;
    if scaled > i64::MAX as i128 {
        i64::MAX
    } else if scaled < i64::MIN as i128 {
        i64::MIN
    } else {
        scaled as i64
    }
}

/// A decoded picture and its audio, on their way to the pacer: the same pixels and
/// blocks, with the time counted from where playback began.
pub fn to_paced_frame<A>(video: DecodedVideoFrame, audio: Vec<A>, pts_offset_ms: u64) -> (r:
    PacedFrame<Vec<u8>, A>)
    ensures
        r.pts_ns == pts_ns_of(relative_ms(video.timestamp_ms, pts_offset_ms)),
        r.width == video.width,
        r.height == video.height,
        r.stride == video.stride,
        r.video == video.data,
        r.audio == audio,
{
    PacedFrame {
        pts_ns: paced_pts_ns(video.timestamp_ms, pts_offset_ms),
        width: video.width,
        height: video.height,
        stride: video.stride,
        video: video.data,
        audio,
    }
}

/// Later pictures never get earlier times, as long as the times fit.
pub proof fn law_pts_keeps_the_order(a: u64, b: u64, offset: u64)
    requires
        a <= b,
        relative_ms(b, offset) <= i64::MAX,
    ensures
        0 <= pts_ns_of(relative_ms(a, offset)) <= pts_ns_of(relative_ms(b, offset)),
{
}

/// How to wait for a boundary.
#[derive(Debug, Clone, Copy, PartialEq, Eq, Structural)]
pub enum BoundaryWait {
    /// Do not wait: the clock stepped backward.
    Relatch,
    /// Sleep this long, then spin.
    Sleep { coarse_ns: u64 },
    /// Spin at once.
    Spin,
}

/// Plan the wait at `now_100ns` for `until_100ns` on a grid of `interval_100ns`
/// wide slots.
pub fn plan_boundary_wait(now_100ns: i64, until_100ns: i64, interval_100ns: i64) -> (r:
    BoundaryWait)
    requires
        i64::MIN <= until_100ns - now_100ns <= i64::MAX,
        interval_100ns <= i64::MAX - 2,
    ensures
        ({
            let delta = until_100ns - now_100ns;
            let sleep = crate::pacer_sink::clamped_to_one_second(delta);
            r == if interval_100ns > 0 && delta > interval_100ns + 2 {
                BoundaryWait::Relatch
            } else if sleep > SPIN_MARGIN_100NS {
                BoundaryWait::Sleep { coarse_ns: ((sleep - SPIN_MARGIN_100NS) * 100) as u64 }
            } else {
                BoundaryWait::Spin
            }
        }),
{
    let plan: SleepDecision = plan_sleep_100ns(now_100ns, until_100ns, interval_100ns);
    if plan.relatch {
        return BoundaryWait::Relatch;
    }
    if plan.sleep_100ns > SPIN_MARGIN_100NS {
        BoundaryWait::Sleep { coarse_ns: ((plan.sleep_100ns - SPIN_MARGIN_100NS) * 100) as u64 }
    } else {
        BoundaryWait::Spin
    }
}

/// Whether to spin on: the boundary is ahead, and no further than one slot.
pub fn keep_spinning(now_100ns: i64, until_100ns: i64, interval_100ns: i64) -> (r: bool)
    requires
        i64::MIN <= until_100ns - now_100ns <= i64::MAX,
    ensures
        r <==> until_100ns > now_100ns && !(interval_100ns > 0 && until_100ns - now_100ns
            > interval_100ns),
{
    let delta: i64 = until_100ns - now_100ns;
    delta > 0 && !(interval_100ns > 0 && delta > interval_100ns)
}

/// A wait never sleeps a second or more, and what a sleep leaves is spun.
pub proof fn law_boundary_wait_is_bounded(delta: int)
    ensures
        crate::pacer_sink::clamped_to_one_second(delta) > SPIN_MARGIN_100NS ==> 0 < (
        crate::pacer_sink::clamped_to_one_second(delta) - SPIN_MARGIN_100NS) * 100 < 1_000_000_000,
{
}

/// What a song did to the counters that run on across songs.
#[derive(Debug, Clone, Copy, PartialEq, Eq, Structural)]
pub struct SongSummary {
    pub emits: u64,
    pub repeats: u64,
    pub dropped: u64,
    pub resyncs: u64,
    pub relatches: u64,
}

/// From `base` to `now`; 0 when the counter went back.
pub open spec fn grown(now: u64, base: u64) -> u64 {
    if now >= base {
        (now - base) as u64
    } else {
        0
    }
}

/// The counters of one song: what they grew by since it began.
pub fn song_summary<E>(now: &PacingStats<E>, base: &PacingStats<E>) -> (r: SongSummary)
    ensures
        r == (SongSummary {
            emits: grown(now.seq, base.seq),
            repeats: grown(now.repeats, base.repeats),
            dropped: grown(now.dropped, base.dropped),
            resyncs: grown(now.resyncs, base.resyncs),
            relatches: grown(now.relatches, base.relatches),
        }),
{
    SongSummary {
        emits: now.seq.saturating_sub(base.seq),
        repeats: now.repeats.saturating_sub(base.repeats),
        dropped: now.dropped.saturating_sub(base.dropped),
        resyncs: now.resyncs.saturating_sub(base.resyncs),
        relatches: now.relatches.saturating_sub(base.relatches),
    }
}

/// The rate of a file, `num / den`, in millionths of a frame per second; 0 for no
/// rate.
pub fn source_rate(num: u32, den: u32) -> (r: u64)
    ensures
        r == if den == 0 {
            0
        } else {
            (num * 1_000_000) / (den as int)
        },
{
    if den == 0 {
        0
    } else {
        (num as u64 * 1_000_000) / den as u64
    }
}

/// What the queue answers to the thread that decodes.
#[derive(Debug, Clone, Copy, PartialEq, Eq, Structural)]
pub enum ProducerAction {
    /// Decode on.
    Continue,
    /// Seek; frames of an older epoch are dropped.
    Seek { position_ms: u64, epoch: u64 },
    /// End.
    Stop,
}

/// The thread that decodes: where playback began, and which epoch its frames are
/// of.
#[derive(Debug, Clone, Copy, PartialEq, Eq, Structural)]
pub struct Producer {
    pub pts_offset_ms: u64,
    pub epoch: u64,
}

/// What the thread that decodes does next.
#[derive(Debug, Clone, Copy, PartialEq, Eq, Structural)]
pub enum ProducerStep {
    /// Decode the next frame.
    Decode,
    /// Seek the decoder, then decode; a seek that fails is no failure.
    SeekAndDecode { position_ms: u64 },
    /// Drop the decoder and end.
    Exit,
}

/// What the thread that decodes got from its decoder.
pub enum Produced<A> {
    Frame(DecodedVideoFrame, Vec<A>),
    /// The end of the song.
    End,
    /// A failure: the song ends here.
    Failed,
}

/// What the thread that decodes hands on.
pub enum Handed<A> {
    /// Push the frame and its decoded position, in the producer's epoch; the queue
    /// answers.
    Push { frame: PacedFrame<Vec<u8>, A>, decoded_ms: u64, epoch: u64 },
    /// Mark the end of the song and wait; the queue answers.
    EndOfStream,
}

impl Producer {
    /// Begin at the start position. Where the seek to it failed, the song plays from
    /// its beginning.
    pub fn start(start_position_ms: Option<u64>, seek_ok: bool) -> (r: Self)
        ensures
            r.epoch == 0,
            r.pts_offset_ms == match start_position_ms {
                Some(ms) => if seek_ok {
                    ms
                } else {
                    0
                },
                None => 0,
            },
    {
        let pts_offset_ms: u64 = match start_position_ms {
            Some(ms) => if seek_ok {
                ms
            } else {
                0
            },
            None => 0,
        };
        Producer { pts_offset_ms, epoch: 0 }
    }

    /// What to hand on of what was decoded.
    pub fn produced<A>(&self, produced: Produced<A>) -> (r: Handed<A>)
        ensures
            match produced {
                Produced::Frame(video, audio) => {
                    &&& r matches Handed::Push { frame, decoded_ms, epoch }
                    &&& epoch == self.epoch
                    &&& decoded_ms == video.timestamp_ms
                    &&& frame.pts_ns == pts_ns_of(
                        relative_ms(video.timestamp_ms, self.pts_offset_ms),
                    )
                    &&& frame.width == video.width
                    &&& frame.height == video.height
                    &&& frame.stride == video.stride
                    &&& frame.video == video.data
                    &&& frame.audio == audio
                },
                Produced::End => r is EndOfStream,
                Produced::Failed => r is EndOfStream,
            },
    {
        match produced {
            Produced::Frame(video, audio) => {
                let decoded_ms: u64 = video.timestamp_ms;
                let frame: PacedFrame<Vec<u8>, A> = to_paced_frame(
                    video,
                    audio,
                    self.pts_offset_ms,
                );
                Handed::Push { frame, decoded_ms, epoch: self.epoch }
            },
            Produced::End => Handed::EndOfStream,
            Produced::Failed => Handed::EndOfStream,
        }
    }

    /// The thread that decodes after `action`.
    pub open spec fn after_answer(self, action: ProducerAction) -> Producer {
        match action {
            ProducerAction::Seek { position_ms, epoch } => Producer {
                pts_offset_ms: position_ms,
                epoch,
            },
            _ => self,
        }
    }

    /// What it does after `action`.
    pub open spec fn step_on(action: ProducerAction) -> ProducerStep {
        match action {
            ProducerAction::Continue => ProducerStep::Decode,
            ProducerAction::Seek { position_ms, .. } => ProducerStep::SeekAndDecode { position_ms },
            ProducerAction::Stop => ProducerStep::Exit,
        }
    }

    /// Act on the queue's answer. A seek moves the origin and the epoch, whether or
    /// not the decoder will follow.
    pub fn answered(&mut self, action: ProducerAction) -> (r: ProducerStep)
        ensures
            r == Self::step_on(action),
            *final(self) == old(self).after_answer(action),
            match action {
                ProducerAction::Continue => r == ProducerStep::Decode && *final(self)
                    == *old(self),
                ProducerAction::Seek { position_ms, epoch } => {
                    &&& r == ProducerStep::SeekAndDecode { position_ms }
                    &&& *final(self) == (Producer { pts_offset_ms: position_ms, epoch })
                },
                ProducerAction::Stop => r == ProducerStep::Exit && *final(self) == *old(self),
            },
    {
        match action {
            ProducerAction::Continue => ProducerStep::Decode,
            ProducerAction::Seek { position_ms, epoch } => {
                self.pts_offset_ms = position_ms;
                self.epoch = epoch;
                ProducerStep::SeekAndDecode { position_ms }
            },
            ProducerAction::Stop => ProducerStep::Exit,
        }
    }
}

/// What the thread that decodes reported after it opened the song.
pub enum OpenReply {
    Opened { duration_ms: u64, source_fps: u64 },
    Failed(String),
    /// Nothing: it is gone.
    Gone,
}

/// Why a song ended, for the log.
#[derive(Debug, Clone, Copy, PartialEq, Eq, Structural)]
pub enum EndReason {
    Shutdown,
    Stop,
    Next,
    Disconnected,
    Ended,
    ProducerDied,
}

/// What follows a look for a command while a song plays on the grid.
pub enum PacedCommand {
    Go,
    /// Drop the audio backlog of the pause; the grid goes on as it is.
    ResumeAudio,
    /// Route the seek to the thread that decodes, and anchor the grid anew.
    Seek { position_ms: u64 },
    Finish { result: DecodeResult, reason: EndReason },
}

/// What a turn at the pacer came to.
#[derive(Debug, Clone, Copy, PartialEq, Eq, Structural)]
pub enum Served {
    /// Nothing was due before this time.
    Wait { until_100ns: i64 },
    /// The song fell too far behind and was anchored anew, due at this time.
    Reanchored { lag_slots: i64, until_100ns: i64 },
    /// A frame went out: the next one, the last one again, or none was there yet.
    Emitted,
    Repeated,
    Starved,
}

/// What follows a turn at the pacer.
pub enum ServedStep<E, A> {
    /// Wait for this time.
    Wait { until_100ns: i64 },
    /// Go on; report health when that is due, and the position, if any.
    Go { position: Option<PipelineEvent<E, A>> },
    /// Report as in `Go`; then the song has ended, with what audio is left.
    Finish { position: Option<PipelineEvent<E, A>>, reason: EndReason },
}

/// A song that plays on the grid.
#[derive(Debug, Clone, Copy, PartialEq, Eq, Structural)]
pub struct PacedSong {
    pub paused: bool,
    pub duration_ms: u64,
    pub source_fps: u64,
    /// The decoded position of the frame served last.
    pub last_decoded_ms: u64,
    /// When the position was last reported.
    pub last_position_ns: u64,
}

/// The song has ended: everything decoded was shown, or the thread that decodes is
/// gone and left something.
pub open spec fn song_over(drained: bool, pending: bool, producer_finished: bool) -> bool {
    (drained && !pending) || (producer_finished && !drained)
}

/// The command step after `polled`.
pub open spec fn paced_command_of(polled: Polled) -> PacedCommand {
    match polled {
        Polled::Empty => PacedCommand::Go,
        Polled::Closed => PacedCommand::Finish {
            result: DecodeResult::Shutdown,
            reason: EndReason::Disconnected,
        },
        Polled::Command(PipelineCommand::Shutdown) => PacedCommand::Finish {
            result: DecodeResult::Shutdown,
            reason: EndReason::Shutdown,
        },
        Polled::Command(PipelineCommand::Stop) => PacedCommand::Finish {
            result: DecodeResult::Stopped,
            reason: EndReason::Stop,
        },
        Polled::Command(PipelineCommand::Play { video, audio, start_position_ms }) => {
            PacedCommand::Finish {
                result: DecodeResult::NewPlay { video, audio, start_position_ms },
                reason: EndReason::Next,
            }
        },
        Polled::Command(PipelineCommand::Resume) => PacedCommand::ResumeAudio,
        Polled::Command(PipelineCommand::Seek { position_ms }) => PacedCommand::Seek {
            position_ms,
        },
        _ => PacedCommand::Go,
    }
}

impl PacedSong {
    /// Begin, or fail, by what the thread that decodes reported. A song begins
    /// unpaused, at its start position.
    pub fn start<E, A>(reply: OpenReply, start_position_ms: Option<u64>, now_ns: u64) -> (r: Result<
        (Self, PipelineEvent<E, A>),
        DecodeResult,
    >)
        ensures
            match reply {
                OpenReply::Opened { duration_ms, source_fps } => r == Ok::<
                    (PacedSong, PipelineEvent<E, A>),
                    DecodeResult,
                >(
                    (
                        PacedSong {
                            paused: false,
                            duration_ms,
                            source_fps,
                            last_decoded_ms: match start_position_ms {
                                Some(ms) => ms,
                                None => 0,
                            },
                            last_position_ns: now_ns,
                        },
                        PipelineEvent::<E, A>::Started { duration_ms },
                    ),
                ),
                OpenReply::Failed(e) => r matches Err(DecodeResult::Error(msg)) && msg == e,
                OpenReply::Gone => r matches Err(DecodeResult::Error(msg)) && msg@
                    == "paced decode producer exited before open"@,
            },
    {
        match reply {
            OpenReply::Opened { duration_ms, source_fps } => Ok(
                (
                    PacedSong {
                        paused: false,
                        duration_ms,
                        source_fps,
                        last_decoded_ms: match start_position_ms {
                            Some(ms) => ms,
                            None => 0,
                        },
                        last_position_ns: now_ns,
                    },
                    PipelineEvent::Started { duration_ms },
                ),
            ),
            OpenReply::Failed(msg) => Err(DecodeResult::Error(msg)),
            OpenReply::Gone => Err(
                DecodeResult::Error(String::from_str("paced decode producer exited before open")),
            ),
        }
    }

    /// The song after `polled`: held by a pause, and from a seek on where it goes.
    pub open spec fn after_command(self, polled: Polled) -> PacedSong {
        PacedSong {
            paused: crate::pipeline::held_after(self.paused, polled),
            last_decoded_ms: match polled {
                Polled::Command(PipelineCommand::Seek { position_ms }) => position_ms,
                _ => self.last_decoded_ms,
            },
            ..self
        }
    }

    /// Act on what came out of the command channel. A seek is where playback is
    /// from then on.
    pub fn command(&mut self, polled: Polled) -> (r: PacedCommand)
        ensures
            r == paced_command_of(polled),
            *final(self) == old(self).after_command(polled),
            *final(self) == (PacedSong {
                paused: crate::pipeline::held_after(old(self).paused, polled),
                last_decoded_ms: match polled {
                    Polled::Command(PipelineCommand::Seek { position_ms }) => position_ms,
                    _ => old(self).last_decoded_ms,
                },
                ..*old(self)
            }),
    {
        let reason: EndReason = match &polled {
            Polled::Closed => EndReason::Disconnected,
            Polled::Command(PipelineCommand::Shutdown) => EndReason::Shutdown,
            Polled::Command(PipelineCommand::Stop) => EndReason::Stop,
            _ => EndReason::Next,
        };
        let resumed: bool = matches!(&polled, Polled::Command(PipelineCommand::Resume));
        let mut paused: bool = self.paused;
        let step: CommandStep = song_command(&mut paused, polled);
        self.paused = paused;
        match step {
            CommandStep::Go => if resumed {
                PacedCommand::ResumeAudio
            } else {
                PacedCommand::Go
            },
            CommandStep::Seek { position_ms } => {
                self.last_decoded_ms = position_ms;
                PacedCommand::Seek { position_ms }
            },
            CommandStep::Finish(result) => PacedCommand::Finish { result, reason },
        }
    }

    /// A frame of this position left the queue.
    pub fn popped(&mut self, decoded_ms: u64)
        ensures
            *final(self) == (PacedSong { last_decoded_ms: decoded_ms, ..*old(self) }),
    {
        self.last_decoded_ms = decoded_ms;
    }

    /// Every boundary of a held song is served with its last frame; this is the
    /// wait, if any.
    pub fn standby(&self, served: Served) -> (r: Option<i64>)
        ensures
            r == match served {
                Served::Wait { until_100ns } => Some(until_100ns),
                _ => None,
            },
    {
        match served {
            Served::Wait { until_100ns } => Some(until_100ns),
            _ => None,
        }
    }

    /// The state it reports.
    pub fn label(&self) -> (r: PlaybackStateLabel)
        ensures
            r == if self.paused {
                PlaybackStateLabel::Paused
            } else {
                PlaybackStateLabel::Playing
            },
    {
        if self.paused {
            PlaybackStateLabel::Paused
        } else {
            PlaybackStateLabel::Playing
        }
    }

    /// A position report is due at `now`.
    pub open spec fn position_due(self, now: u64) -> bool {
        crate::pipeline_heartbeat::since(now, self.last_position_ns) >= POSITION_REPORT_NS
    }

    /// The report that is due at `now`, if any.
    pub open spec fn position_at<E, A>(self, now: u64) -> Option<PipelineEvent<E, A>> {
        if self.position_due(now) {
            Some(
                PipelineEvent::Position {
                    position_ms: self.last_decoded_ms,
                    duration_ms: self.duration_ms,
                },
            )
        } else {
            None
        }
    }

    /// What follows a turn that served a boundary at `now`.
    pub open spec fn step_after<E, A>(
        self,
        drained: bool,
        pending: bool,
        producer_finished: bool,
        now: u64,
    ) -> ServedStep<E, A> {
        let position = self.position_at::<E, A>(now);
        if song_over(drained, pending, producer_finished) {
            ServedStep::Finish {
                position,
                reason: if producer_finished && !drained {
                    EndReason::ProducerDied
                } else {
                    EndReason::Ended
                },
            }
        } else {
            ServedStep::Go { position }
        }
    }

    /// Act on a turn at the pacer. `drained`: the song is decoded and its queue
    /// empty; `pending`: the pacer still holds a frame; `producer_finished`: the
    /// thread that decodes is gone.
    pub fn served<E, A>(
        &mut self,
        served: Served,
        drained: bool,
        pending: bool,
        producer_finished: bool,
        now_ns: u64,
    ) -> (r: ServedStep<E, A>)
        ensures
            match served {
                Served::Wait { until_100ns } => r == (ServedStep::<E, A>::Wait { until_100ns })
                    && *final(self) == *old(self),
                Served::Reanchored { until_100ns, .. } => r == (ServedStep::<E, A>::Wait {
                    until_100ns,
                }) && *final(self) == *old(self),
                _ => {
                    &&& *final(self) == (PacedSong {
                        last_position_ns: if old(self).position_due(now_ns) {
                            now_ns
                        } else {
                            old(self).last_position_ns
                        },
                        ..*old(self)
                    })
                    &&& r == old(self).step_after::<E, A>(
                        drained,
                        pending,
                        producer_finished,
                        now_ns,
                    )
                    &&& r == if song_over(drained, pending, producer_finished) {
                        ServedStep::<E, A>::Finish {
                            position: old(self).position_at::<E, A>(now_ns),
                            reason: if producer_finished && !drained {
                                EndReason::ProducerDied
                            } else {
                                EndReason::Ended
                            },
                        }
                    } else {
                        ServedStep::<E, A>::Go { position: old(self).position_at::<E, A>(now_ns) }
                    }
                },
            },
    {
        match served {
            Served::Wait { until_100ns } => {
                return ServedStep::Wait { until_100ns };
            },
            Served::Reanchored { until_100ns, .. } => {
                return ServedStep::Wait { until_100ns };
            },
            _ => {},
        }
        let position: Option<PipelineEvent<E, A>> = if now_ns.saturating_sub(self.last_position_ns)
            >= POSITION_REPORT_NS {
            self.last_position_ns = now_ns;
            Some(
                PipelineEvent::Position {
                    position_ms: self.last_decoded_ms,
                    duration_ms: self.duration_ms,
                },
            )
        } else {
            None
        };
        let producer_dead: bool = producer_finished && !drained;
        if (drained && !pending) || producer_dead {
            ServedStep::Finish {
                position,
                reason: if producer_dead {
                    EndReason::ProducerDied
                } else {
                    EndReason::Ended
                },
            }
        } else {
            ServedStep::Go { position }
        }
    }
}

/// The audio that is left at the end of a song, with the time it is stamped with;
/// nothing when none is left.
pub fn eos_tail<A>(tail: Vec<A>, now_100ns: i64) -> (r: Option<(Vec<A>, i64)>)
    ensures
        r == if tail@.len() == 0 {
            None
        } else {
            Some((tail, now_100ns))
        },
{
    if tail.len() == 0 {
        None
    } else {
        Some((tail, now_100ns))
    }
}

/// What a pipeline without a song does next.
#[derive(Debug, Clone, Copy, PartialEq, Eq, Structural)]
pub enum IdleStep {
    /// Off the grid: report health once and go back to the commands.
    ReportOnce,
    /// Serve a black picture at the next boundary.
    Fill,
    /// A command came: end the fill and go back to the commands.
    Leave,
}

/// The idle turn: off the grid one report, on the grid a fill until a command
/// comes.
pub fn idle_step(genlock_pacing: bool, command_waits: bool) -> (r: IdleStep)
    ensures
        r == if !genlock_pacing {
            IdleStep::ReportOnce
        } else if command_waits {
            IdleStep::Leave
        } else {
            IdleStep::Fill
        },
{
    if !genlock_pacing {
        IdleStep::ReportOnce
    } else if command_waits {
        IdleStep::Leave
    } else {
        IdleStep::Fill
    }
}

/// The state a pipeline without a song reports.
pub fn idle_label(paused: bool) -> (r: PlaybackStateLabel)
    ensures
        r == if paused {
            PlaybackStateLabel::Paused
        } else {
            PlaybackStateLabel::Idle
        },
{
    if paused {
        PlaybackStateLabel::Paused
    } else {
        PlaybackStateLabel::Idle
    }
}

/// A song whose thread that decodes is gone always ends: drained and shown, or as
/// died.
pub proof fn law_a_dead_producer_ends_the_song(drained: bool)
    ensures
        song_over(drained, false, true),
        !drained ==> song_over(drained, true, true),
{
}

/// A frame that waits in the pacer is shown before the song ends at its end.
pub proof fn law_the_last_frame_is_shown(pending: bool, producer_finished: bool)
    requires
        song_over(true, pending, producer_finished),
    ensures
        !pending,
{
}

/// On the grid and off it the same commands end a song, with the same result.
pub proof fn law_both_paths_end_alike(polled: Polled)
    ensures
        match crate::pipeline::command_step_of(polled) {
            CommandStep::Finish(a) => paced_command_of(polled) matches PacedCommand::Finish {
                result,
                ..
            } && result == a,
            CommandStep::Seek { position_ms } => paced_command_of(polled) == (PacedCommand::Seek {
                position_ms,
            }),
            CommandStep::Go => paced_command_of(polled) is Go || paced_command_of(
                polled,
            ) is ResumeAudio,
        },
{
}

/// The time of a picture is what has passed since playback began, in nanoseconds: none
/// for a picture before that, and a million for each millisecond after.
pub proof fn law_times_count_from_the_start(offset: u64, ms: u64, before: u64)
    requires
        offset + ms <= u64::MAX,
        ms * 1_000_000 <= i64::MAX,
        before <= offset,
    ensures
        pts_ns_of(relative_ms((offset + ms) as u64, offset)) == ms * 1_000_000,
        pts_ns_of(relative_ms(before, offset)) == 0,
{
}

/// A decoded picture goes to the pacer as it is: its own pixels, size and stride, with
/// its own blocks of audio.
pub proof fn law_a_paced_frame_is_the_decoded_one<A>(
    video: DecodedVideoFrame,
    audio: Vec<A>,
    pts_offset_ms: u64,
    frame: PacedFrame<Vec<u8>, A>,
)
    requires
        call_ensures(to_paced_frame::<A>, (video, audio, pts_offset_ms), frame),
    ensures
        frame.width == video.width,
        frame.height == video.height,
        frame.stride == video.stride,
        frame.video@ == video.data@,
        frame.audio@ == audio@,
        video.timestamp_ms <= pts_offset_ms ==> frame.pts_ns == 0,
{
}

/// What the thread that decodes hands on is the decoded frame, at its own position and
/// in the thread's epoch; the end of a song and a failure both end the stream.
pub proof fn law_what_is_decoded_is_handed_on<A>(
    producer: Producer,
    produced: Produced<A>,
    handed: Handed<A>,
)
    requires
        call_ensures(Producer::produced::<A>, (&producer, produced), handed),
    ensures
        produced matches Produced::Frame(video, audio) ==> (handed matches Handed::Push {
            frame,
            decoded_ms,
            epoch,
        } && decoded_ms == video.timestamp_ms && epoch == producer.epoch && frame.width
            == video.width && frame.height == video.height && frame.stride == video.stride
            && frame.video@ == video.data@ && frame.audio@ == audio@ && (video.timestamp_ms
            <= producer.pts_offset_ms ==> frame.pts_ns == 0)),
        handed is EndOfStream <==> !(produced is Frame),
{
}

/// The thread that decodes begins at the position it sought, and at the beginning where
/// it did not seek or could not.
pub proof fn law_decoding_begins_where_it_sought(
    start_position_ms: Option<u64>,
    seek_ok: bool,
    producer: Producer,
)
    requires
        call_ensures(Producer::start, (start_position_ms, seek_ok), producer),
    ensures
        producer.epoch == 0,
        start_position_ms is Some && seek_ok ==> producer.pts_offset_ms == start_position_ms->0,
        start_position_ms is None || !seek_ok ==> producer.pts_offset_ms == 0,
{
}

/// A boundary that lies on the next slot is waited for to the full, but for the two
/// milliseconds that are spun; one further ahead is not waited for.
pub proof fn law_a_boundary_is_slept_to_and_spun(
    now: i64,
    until: i64,
    interval: i64,
    wait: BoundaryWait,
)
    requires
        call_ensures(plan_boundary_wait, (now, until, interval), wait),
        0 < interval <= 9_999_998,
    ensures
        wait == BoundaryWait::Relatch <==> until > now + interval + 2,
        wait matches BoundaryWait::Sleep { coarse_ns } ==> now + coarse_ns / 100 + 20_000 == until
            && coarse_ns > 0,
        wait == BoundaryWait::Spin <==> until <= now + interval + 2 && until <= now + 20_000,
{
    let delta = until - now;
    let sleep = crate::pacer_sink::clamped_to_one_second(delta);
    assert(((sleep - 20_000) * 100) / 100 == sleep - 20_000);
}

/// A spin ends on its boundary, and gives up on one that lies more than a slot ahead.
pub proof fn law_a_spin_ends(now: i64, until: i64, interval: i64, on: bool)
    requires
        call_ensures(keep_spinning, (now, until, interval), on),
    ensures
        until <= now ==> !on,
        interval > 0 && until > now + interval ==> !on,
        on ==> now < until,
        now < until && (interval <= 0 || until <= now + interval) ==> on,
{
}

/// The summary of a song is what each counter grew by in it, each counter its own.
pub proof fn law_a_summary_is_the_growth<E>(
    now: PacingStats<E>,
    base: PacingStats<E>,
    r: SongSummary,
)
    requires
        call_ensures(song_summary::<E>, (&now, &base), r),
        base.seq <= now.seq,
        base.repeats <= now.repeats,
        base.dropped <= now.dropped,
        base.resyncs <= now.resyncs,
        base.relatches <= now.relatches,
    ensures
        base.seq + r.emits == now.seq,
        base.repeats + r.repeats == now.repeats,
        base.dropped + r.dropped == now.dropped,
        base.resyncs + r.resyncs == now.resyncs,
        base.relatches + r.relatches == now.relatches,
{
}

/// The rate of a file is its fraction in millionths, rounded down, and none without a
/// denominator.
pub proof fn law_the_rate_of_a_file(num: u32, den: u32, rate: u64)
    requires
        call_ensures(source_rate, (num, den), rate),
    ensures
        den == 0 ==> rate == 0,
        den > 0 ==> rate * den <= num * 1_000_000 < (rate + 1) * den,
{
    if den > 0 {
        let n = num * 1_000_000;
        vstd::arithmetic::div_mod::lemma_fundamental_div_mod(n, den as int);
        assert(rate * den <= n < (rate + 1) * den) by (nonlinear_arith)
            requires
                n == den * rate + n % (den as int),
                0 <= n % (den as int) < den,
        ;
    }
}

/// A song that opened plays unheld from its start position, with its own duration and
/// rate, and is reported with that duration; one that did not open ends with what was
/// said of it.
pub proof fn law_a_paced_song_begins_as_it_opened<E, A>(
    reply: OpenReply,
    start_position_ms: Option<u64>,
    now_ns: u64,
    r: Result<(PacedSong, PipelineEvent<E, A>), DecodeResult>,
)
    requires
        call_ensures(PacedSong::start::<E, A>, (reply, start_position_ms, now_ns), r),
    ensures
        reply matches OpenReply::Opened { duration_ms, source_fps } ==> (r matches Ok((song, event))
            && !song.paused && song.duration_ms == duration_ms && song.source_fps == source_fps
            && song.last_position_ns == now_ns && (start_position_ms is Some
            ==> song.last_decoded_ms == start_position_ms->0) && (start_position_ms is None
            ==> song.last_decoded_ms == 0) && event == (PipelineEvent::<E, A>::Started {
            duration_ms,
        })),
        r is Ok <==> reply is Opened,
        reply matches OpenReply::Failed(text) ==> (r matches Err(DecodeResult::Error(msg)) && msg@
            == text@),
{
}

/// A command changes of a song only whether it is held and, for a seek, where it is.
pub proof fn law_what_a_command_changes(song: PacedSong, polled: Polled)
    ensures
        ({
            let after = song.after_command(polled);
            &&& after.duration_ms == song.duration_ms
            &&& after.source_fps == song.source_fps
            &&& after.last_position_ns == song.last_position_ns
            &&& polled matches Polled::Command(PipelineCommand::Seek { position_ms })
                ==> after.last_decoded_ms == position_ms && after.paused == song.paused
            &&& !(polled matches Polled::Command(c) && c is Seek) ==> after.last_decoded_ms
                == song.last_decoded_ms
            &&& (polled matches Polled::Command(c) && c is Pause) ==> after.paused
            &&& (polled matches Polled::Command(c) && c is Resume) ==> !after.paused
            &&& !(polled matches Polled::Command(c) && (c is Pause || c is Resume)) ==> after.paused
                == song.paused
        }),
{
}

/// What a command does on the grid: a play, a stop, a shutdown and a closed channel each
/// end the song as what they are; only a resume drops the audio of a pause.
pub proof fn law_how_a_command_ends_a_paced_song(polled: Polled)
    ensures
        ({
            let step = paced_command_of(polled);
            &&& step is ResumeAudio <==> (polled matches Polled::Command(c) && c is Resume)
            &&& step is Finish <==> (polled is Closed || (polled matches Polled::Command(c) && (
            c is Stop || c is Shutdown || c is Play)))
            &&& polled is Closed ==> step == (PacedCommand::Finish {
                result: DecodeResult::Shutdown,
                reason: EndReason::Disconnected,
            })
            &&& (polled matches Polled::Command(c) && c is Shutdown) ==> step == (
            PacedCommand::Finish { result: DecodeResult::Shutdown, reason: EndReason::Shutdown })
            &&& (polled matches Polled::Command(c) && c is Stop) ==> step == (PacedCommand::Finish {
                result: DecodeResult::Stopped,
                reason: EndReason::Stop,
            })
            &&& polled matches Polled::Command(
                PipelineCommand::Play { video, audio, start_position_ms },
            ) ==> step == (PacedCommand::Finish {
                result: DecodeResult::NewPlay { video, audio, start_position_ms },
                reason: EndReason::Next,
            })
        }),
{
}

/// A song ends exactly when all of it was shown, or when the thread that decodes is gone
/// before all of it was; only then is it said to have died.
pub proof fn law_when_a_paced_song_ends<E, A>(
    song: PacedSong,
    drained: bool,
    pending: bool,
    producer_finished: bool,
    now: u64,
)
    ensures
        ({
            let step = song.step_after::<E, A>(drained, pending, producer_finished, now);
            &&& step is Finish <==> (drained && !pending) || (!drained && producer_finished)
            &&& step matches ServedStep::Finish { reason, .. } ==> (reason
                == EndReason::ProducerDied <==> !drained) && (reason == EndReason::Ended
                <==> drained)
            &&& !(step is Wait)
        }),
{
}

/// A position report says where the frame served last lies in the song, and comes half a
/// second after the one before.
pub proof fn law_a_position_report_says_where_the_song_is<E, A>(song: PacedSong, now: u64)
    ensures
        song.position_at::<E, A>(now) is Some <==> now >= song.last_position_ns + 500_000_000,
        song.position_at::<E, A>(now) matches Some(event) ==> event == (PipelineEvent::<
            E,
            A,
        >::Position { position_ms: song.last_decoded_ms, duration_ms: song.duration_ms }),
        forall|drained: bool, pending: bool, finished: bool|
            match #[trigger] song.step_after::<E, A>(drained, pending, finished, now) {
                ServedStep::Finish { position, .. } => position == song.position_at::<E, A>(now),
                ServedStep::Go { position } => position == song.position_at::<E, A>(now),
                ServedStep::Wait { .. } => false,
            },
{
}

/// The audio that is left at the end of a song goes out whole, stamped with the time at
/// which it does; where none is left nothing goes out.
pub proof fn law_the_rest_of_the_audio_goes_out<A>(
    tail: Vec<A>,
    now_100ns: i64,
    r: Option<(Vec<A>, i64)>,
)
    requires
        call_ensures(eos_tail::<A>, (tail, now_100ns), r),
    ensures
        r is None <==> tail@.len() == 0,
        r matches Some((audio, stamp)) ==> audio@ == tail@ && stamp == now_100ns,
{
}

/// Without a song, the grid is filled until a command comes, and off the grid there is
/// one report.
pub proof fn law_an_idle_grid_is_filled(genlock_pacing: bool, command_waits: bool, step: IdleStep)
    requires
        call_ensures(idle_step, (genlock_pacing, command_waits), step),
    ensures
        step == IdleStep::ReportOnce <==> !genlock_pacing,
        step == IdleStep::Fill <==> genlock_pacing && !command_waits,
{
}

/// A seek goes where it was asked, and from then on times count from there and frames
/// are of its epoch; any other answer changes neither. The thread ends exactly on a
/// stop.
pub proof fn law_a_seek_moves_the_origin(producer: Producer, action: ProducerAction)
    ensures
        action matches ProducerAction::Seek { position_ms, epoch } ==> Producer::step_on(action)
            == (ProducerStep::SeekAndDecode { position_ms }) && producer.after_answer(
            action,
        ).pts_offset_ms == position_ms && producer.after_answer(action).epoch == epoch,
        !(action is Seek) ==> producer.after_answer(action) == producer,
        Producer::step_on(action) == ProducerStep::Exit <==> action == ProducerAction::Stop,
        Producer::step_on(action) == ProducerStep::Decode <==> action == ProducerAction::Continue,
{
}

/// A held song waits only where nothing was due, and until then.
pub proof fn law_a_held_song_waits_for_the_boundary(song: PacedSong, served: Served, r: Option<i64>)
    requires
        call_ensures(PacedSong::standby, (&song, served), r),
    ensures
        r is Some <==> served is Wait,
        served matches Served::Wait { until_100ns } ==> r == Some(until_100ns),
{
}

/// A song reports whether it is held, and a pipeline without one whether it is paused.
pub proof fn law_a_pause_is_reported(
    song: PacedSong,
    label: PlaybackStateLabel,
    paused: bool,
    idle: PlaybackStateLabel,
)
    requires
        call_ensures(PacedSong::label, (&song,), label),
        call_ensures(idle_label, (paused,), idle),
    ensures
        label == PlaybackStateLabel::Paused <==> song.paused,
        label == PlaybackStateLabel::Playing <==> !song.paused,
        idle == PlaybackStateLabel::Paused <==> paused,
        idle == PlaybackStateLabel::Idle <==> !paused,
{
}

} // verus!
