//! The decode-to-sender loop of one pipeline.
//!
//! The loop alternates between commands, the decoder and the sender. Here are its
//! decisions: what to do next, given what came back.

use crate::pipeline_types::{DecodeResult, PipelineCommand, PipelineEvent};
use std::path::PathBuf;
use vstd::prelude::*;

verus! {

/// The size of the black picture between songs.
pub const BLACK_W: u32 = 1920;

pub const BLACK_H: u32 = 1080;

/// Time between two looks for a command while a song is held.
pub const PAUSED_POLL_MS: u64 = 100;

/// Time between two position reports.
pub const POSITION_REPORT_NS: u64 = 500_000_000;

/// What came of creating the sender.
pub enum SenderOutcome {
    /// There is nothing to create one with.
    NoBackend,
    /// It failed, with this text.
    Failed(String),
    /// It is there, and advertises this address, if any.
    Ready(Option<String>),
}

/// What follows the creation of the sender.
pub enum StartStep<E, A> {
    /// Report the output as ready without an address, send the event, and wait
    /// for the shutdown.
    Unusable { event: PipelineEvent<E, A> },
    /// Report the address, send a black picture, and take commands.
    Run { url: Option<String> },
}

/// The text of the failure of a sender.
pub open spec fn sender_failure(error: Seq<char>) -> Seq<char> {
    "Failed to create NDI sender: "@ + error
}

/// Decide after the creation of the sender.
pub fn after_sender<E, A>(outcome: SenderOutcome) -> (r: StartStep<E, A>)
    ensures
        match outcome {
            SenderOutcome::NoBackend => r matches StartStep::Unusable {
                event: PipelineEvent::Error(msg),
            } && msg@ == "NDI SDK not available"@,
            SenderOutcome::Failed(e) => r matches StartStep::Unusable {
                event: PipelineEvent::Error(msg),
            } && msg@ == sender_failure(e@),
            SenderOutcome::Ready(url) => r == (StartStep::<E, A>::Run { url }),
        },
{
    match outcome {
        SenderOutcome::NoBackend => StartStep::Unusable {
            event: PipelineEvent::Error(String::from_str("NDI SDK not available")),
        },
        SenderOutcome::Failed(e) => {
            let mut msg: String = String::from_str("Failed to create NDI sender: ");
            msg.append(e.as_str());
            StartStep::Unusable { event: PipelineEvent::Error(msg) }
        },
        SenderOutcome::Ready(url) => StartStep::Run { url },
    }
}

/// How the sender and its audio are clocked.
#[derive(Debug, Clone, Copy, PartialEq, Eq, Structural)]
pub struct Clocking {
    /// The sender paces the pictures itself.
    pub clock_video: bool,
    /// The sender paces the audio itself.
    pub clock_audio: bool,
    /// Audio has a thread of its own.
    pub audio_emitter: bool,
}

/// The clocking of a pipeline: on the grid the pipeline paces everything, off the
/// grid the sender paces the pictures and a thread the audio.
pub fn clocking(genlock_pacing: bool) -> (r: Clocking)
    ensures
        r == (Clocking {
            clock_video: !genlock_pacing,
            clock_audio: false,
            audio_emitter: !genlock_pacing,
        }),
{
    Clocking {
        clock_video: !genlock_pacing,
        clock_audio: false,
        audio_emitter: !genlock_pacing,
    }
}

/// What came out of the command channel.
pub enum Polled {
    /// Nothing yet.
    Empty,
    /// Nothing, and nothing more will come.
    Closed,
    Command(PipelineCommand),
}

/// A pipeline without a sender waits only for its end.
pub fn ends_unusable(polled: &Polled) -> (r: bool)
    ensures
        r <==> (polled is Closed || (polled matches Polled::Command(c) && c is Shutdown)),
{
    match polled {
        Polled::Closed => true,
        Polled::Command(PipelineCommand::Shutdown) => true,
        _ => false,
    }
}

/// What a pipeline does next, between songs.
pub enum LoopStep {
    /// Take an idle turn, then look for a command.
    Idle,
    /// Look for a command.
    Await,
    /// Send a black picture, then look for a command.
    Black,
    /// Play this song.
    Decode { video: PathBuf, audio: PathBuf, start_position_ms: Option<u64> },
    /// Flush the sender and end.
    Exit,
}

/// What follows the end of a song.
pub enum SongStep<E, A> {
    /// Send a black picture, then the event, if any; then look for a command.
    Black { event: Option<PipelineEvent<E, A>> },
    /// Play the next song at once.
    Decode { video: PathBuf, audio: PathBuf, start_position_ms: Option<u64> },
    /// Flush the sender and end.
    Exit,
}

/// A pipeline between songs.
#[derive(Debug, Clone, Copy, PartialEq, Eq, Structural)]
pub struct PipelineLoop {
    pub paused: bool,
}

/// The step after `polled`, between songs.
pub open spec fn loop_step_of(polled: Polled) -> LoopStep {
    match polled {
        Polled::Empty => LoopStep::Idle,
        Polled::Closed => LoopStep::Exit,
        Polled::Command(PipelineCommand::Shutdown) => LoopStep::Exit,
        Polled::Command(PipelineCommand::Play { video, audio, start_position_ms }) => {
            LoopStep::Decode { video, audio, start_position_ms }
        },
        Polled::Command(PipelineCommand::Stop) => LoopStep::Black,
        _ => LoopStep::Await,
    }
}

/// The step after a song that ended with `result`.
pub open spec fn song_step_of<E, A>(result: DecodeResult) -> SongStep<E, A> {
    match result {
        DecodeResult::Ended => SongStep::Black { event: Some(PipelineEvent::<E, A>::Ended) },
        DecodeResult::Stopped => SongStep::Black { event: None },
        DecodeResult::Shutdown => SongStep::Exit,
        DecodeResult::NewPlay { video, audio, start_position_ms } => {
            SongStep::Decode { video, audio, start_position_ms }
        },
        DecodeResult::Error(msg) => SongStep::Black {
            event: Some(PipelineEvent::<E, A>::Error(msg)),
        },
    }
}

/// Whether the pipeline is paused after a song that ended with `result`.
pub open spec fn paused_after_song(paused: bool, result: DecodeResult) -> bool {
    paused && result is Shutdown
}

/// Whether the pipeline is paused after `polled`, between songs or in one: a pause
/// holds until a resume or the next song.
pub open spec fn paused_after(paused: bool, polled: Polled) -> bool {
    match polled {
        Polled::Command(PipelineCommand::Play { .. }) => false,
        Polled::Command(PipelineCommand::Pause) => true,
        Polled::Command(PipelineCommand::Resume) => false,
        _ => paused,
    }
}

impl PipelineLoop {
    pub fn new() -> (r: Self)
        ensures
            !r.paused,
    {
        PipelineLoop { paused: false }
    }

    /// Act on what came out of the command channel.
    pub fn step(&mut self, polled: Polled) -> (r: LoopStep)
        ensures
            r == loop_step_of(polled),
            final(self).paused == paused_after(old(self).paused, polled),
    {
        match polled {
            Polled::Empty => LoopStep::Idle,
            Polled::Closed => LoopStep::Exit,
            Polled::Command(cmd) => match cmd {
                PipelineCommand::Shutdown => LoopStep::Exit,
                PipelineCommand::Play { video, audio, start_position_ms } => {
                    self.paused = false;
                    LoopStep::Decode { video, audio, start_position_ms }
                },
                PipelineCommand::Pause => {
                    self.paused = true;
                    LoopStep::Await
                },
                PipelineCommand::Resume => {
                    self.paused = false;
                    LoopStep::Await
                },
                PipelineCommand::Seek { .. } => LoopStep::Await,
                PipelineCommand::Stop => LoopStep::Black,
                PipelineCommand::RecreateSender => LoopStep::Await,
            },
        }
    }

    /// Act on the end of a song. A pause in it does not outlive it, but for a
    /// shutdown.
    pub fn song_ended<E, A>(&mut self, result: DecodeResult) -> (r: SongStep<E, A>)
        ensures
            final(self).paused == paused_after_song(old(self).paused, result),
            final(self).paused == (old(self).paused && result is Shutdown),
            r == song_step_of::<E, A>(result),
    {
        match result {
            DecodeResult::Ended => {
                self.paused = false;
                SongStep::Black { event: Some(PipelineEvent::Ended) }
            },
            DecodeResult::Stopped => {
                self.paused = false;
                SongStep::Black { event: None }
            },
            DecodeResult::Shutdown => SongStep::Exit,
            DecodeResult::NewPlay { video, audio, start_position_ms } => {
                self.paused = false;
                SongStep::Decode { video, audio, start_position_ms }
            },
            DecodeResult::Error(msg) => {
                self.paused = false;
                SongStep::Black { event: Some(PipelineEvent::Error(msg)) }
            },
        }
    }
}

/// Which part of a song failed to open.
#[derive(Debug, Clone, Copy, PartialEq, Eq, Structural)]
pub enum OpenStage {
    Video,
    Audio,
    /// Both opened, but not together.
    Pairing,
}

/// The text of the failure to open `path`.
pub open spec fn open_failure(stage: OpenStage, path: Seq<char>, error: Seq<char>) -> Seq<char> {
    match stage {
        OpenStage::Video => "failed to open video "@ + path + ": "@ + error,
        OpenStage::Audio => "failed to open audio "@ + path + ": "@ + error,
        OpenStage::Pairing => "SplitSyncedDecoder::new failed: "@ + error,
    }
}

/// The text of the failure to open a song. The path plays no part when both files
/// opened.
pub fn open_error(stage: OpenStage, path: &str, error: &str) -> (r: String)
    ensures
        r@ == open_failure(stage, path@, error@),
{
    let mut msg: String = match stage {
        OpenStage::Video => String::from_str("failed to open video "),
        OpenStage::Audio => String::from_str("failed to open audio "),
        OpenStage::Pairing => String::from_str("SplitSyncedDecoder::new failed: "),
    };
    if !matches!(stage, OpenStage::Pairing) {
        msg.append(path);
        msg.append(": ");
    }
    msg.append(error);
    msg
}

/// What follows a look for a command while a song plays.
pub enum CommandStep {
    /// Go on with the song.
    Go,
    /// Seek the decoder, drop the audio that waits, and go on; a seek that fails
    /// is no failure of the song.
    Seek { position_ms: u64 },
    /// Flush the sender; the song has ended.
    Finish(DecodeResult),
}

/// The step after `polled`, in a song.
pub open spec fn command_step_of(polled: Polled) -> CommandStep {
    match polled {
        Polled::Empty => CommandStep::Go,
        Polled::Closed => CommandStep::Finish(DecodeResult::Shutdown),
        Polled::Command(PipelineCommand::Shutdown) => CommandStep::Finish(DecodeResult::Shutdown),
        Polled::Command(PipelineCommand::Stop) => CommandStep::Finish(DecodeResult::Stopped),
        Polled::Command(PipelineCommand::Play { video, audio, start_position_ms }) => {
            CommandStep::Finish(DecodeResult::NewPlay { video, audio, start_position_ms })
        },
        Polled::Command(PipelineCommand::Seek { position_ms }) => CommandStep::Seek { position_ms },
        _ => CommandStep::Go,
    }
}

/// Whether a song is held after `polled`. A next song ends this one and leaves the
/// pause to it.
pub open spec fn held_after(paused: bool, polled: Polled) -> bool {
    match polled {
        Polled::Command(PipelineCommand::Pause) => true,
        Polled::Command(PipelineCommand::Resume) => false,
        _ => paused,
    }
}

/// Act on what came out of the command channel in a song.
pub fn song_command(paused: &mut bool, polled: Polled) -> (r: CommandStep)
    ensures
        r == command_step_of(polled),
        *final(paused) == held_after(*old(paused), polled),
{
    match polled {
        Polled::Empty => CommandStep::Go,
        Polled::Closed => CommandStep::Finish(DecodeResult::Shutdown),
        Polled::Command(cmd) => match cmd {
            PipelineCommand::Shutdown => CommandStep::Finish(DecodeResult::Shutdown),
            PipelineCommand::Stop => CommandStep::Finish(DecodeResult::Stopped),
            PipelineCommand::Play { video, audio, start_position_ms } => CommandStep::Finish(
                DecodeResult::NewPlay { video, audio, start_position_ms },
            ),
            PipelineCommand::Pause => {
                *paused = true;
                CommandStep::Go
            },
            PipelineCommand::Resume => {
                *paused = false;
                CommandStep::Go
            },
            PipelineCommand::Seek { position_ms } => CommandStep::Seek { position_ms },
            PipelineCommand::RecreateSender => CommandStep::Go,
        },
    }
}

/// What the decoder gave.
pub enum Decoded {
    /// A picture of this time, with its audio.
    Frame { timestamp_ms: u64 },
    /// The end of the song.
    End,
    /// A failure, with this text.
    Failed(String),
}

/// What follows the decoder's answer.
pub enum FrameStep<E, A> {
    /// Go on with the song; report the position, if any.
    Submit { position: Option<PipelineEvent<E, A>> },
    /// Let the audio run out when `drain_audio`, flush the sender; the song has
    /// ended.
    Finish { drain_audio: bool, result: DecodeResult },
}

/// A song that plays on the sender's clock.
#[derive(Debug, Clone, Copy, PartialEq, Eq, Structural)]
pub struct Song {
    pub duration_ms: u64,
    /// Frames submitted.
    pub frame_count: u64,
    /// When the position was last reported.
    pub last_position_ns: u64,
}

/// The text of a failure after `frames` frames.
pub open spec fn decode_failure(frames: u64, error: Seq<char>) -> Seq<char> {
    "Decode error at frame "@ + crate::text::decimal_nat(frames as nat) + ": "@ + error
}

impl Song {
    /// A song that begins, and the report of it.
    pub fn start<E, A>(duration_ms: u64, now_ns: u64) -> (r: (Self, PipelineEvent<E, A>))
        ensures
            r.0 == (Song { duration_ms, frame_count: 0, last_position_ns: now_ns }),
            r.1 == (PipelineEvent::<E, A>::Started { duration_ms }),
    {
        (
            Song { duration_ms, frame_count: 0, last_position_ns: now_ns },
            PipelineEvent::Started { duration_ms },
        )
    }

    /// A position report is due at `now`.
    pub open spec fn position_due(self, now: u64) -> bool {
        crate::pipeline_heartbeat::since(now, self.last_position_ns) >= POSITION_REPORT_NS
    }

    /// The report that is due at `now` of a frame of this time, if any.
    pub open spec fn position_at<E, A>(self, timestamp_ms: u64, now: u64) -> Option<
        PipelineEvent<E, A>,
    > {
        if self.position_due(now) {
            Some(
                PipelineEvent::Position {
                    position_ms: timestamp_ms,
                    duration_ms: self.duration_ms,
                },
            )
        } else {
            None
        }
    }

    /// The song after a frame that was submitted at `now`.
    pub open spec fn after_frame(self, now: u64) -> Song {
        Song {
            frame_count: (self.frame_count + 1) as u64,
            last_position_ns: if self.position_due(now) {
                now
            } else {
                self.last_position_ns
            },
            ..self
        }
    }

    /// Act on the decoder's answer. By then a frame has been offered to the taps, its
    /// audio routed, the frame submitted, and health reported when that was due; `now_ns`
    /// is the time after all that.
    pub fn decoded<E, A>(&mut self, decoded: Decoded, now_ns: u64) -> (r: FrameStep<E, A>)
        requires
            old(self).frame_count < u64::MAX,
        ensures
            final(self).duration_ms == old(self).duration_ms,
            match decoded {
                Decoded::Frame { timestamp_ms } => {
                    &&& *final(self) == old(self).after_frame(now_ns)
                    &&& r == (FrameStep::<E, A>::Submit {
                        position: old(self).position_at(timestamp_ms, now_ns),
                    })
                    &&& final(self).frame_count == old(self).frame_count + 1
                    &&& final(self).last_position_ns == if old(self).position_due(now_ns) {
                        now_ns
                    } else {
                        old(self).last_position_ns
                    }
                    &&& r == (FrameStep::<E, A>::Submit {
                        position: if old(self).position_due(now_ns) {
                            Some(
                                PipelineEvent::Position {
                                    position_ms: timestamp_ms,
                                    duration_ms: old(self).duration_ms,
                                },
                            )
                        } else {
                            None
                        },
                    })
                },
                Decoded::End => {
                    &&& *final(self) == *old(self)
                    &&& r == (FrameStep::<E, A>::Finish {
                        drain_audio: true,
                        result: DecodeResult::Ended,
                    })
                },
                Decoded::Failed(e) => {
                    &&& *final(self) == *old(self)
                    &&& r matches FrameStep::Finish {
                        drain_audio: false,
                        result: DecodeResult::Error(msg),
                    } && msg@ == decode_failure(old(self).frame_count, e@)
                },
            },
    {
        match decoded {
            Decoded::Frame { timestamp_ms } => {
                self.frame_count = self.frame_count + 1;
                if now_ns.saturating_sub(self.last_position_ns) >= POSITION_REPORT_NS {
                    self.last_position_ns = now_ns;
                    FrameStep::Submit {
                        position: Some(
                            PipelineEvent::Position {
                                position_ms: timestamp_ms,
                                duration_ms: self.duration_ms,
                            },
                        ),
                    }
                } else {
                    FrameStep::Submit { position: None }
                }
            },
            Decoded::End => FrameStep::Finish { drain_audio: true, result: DecodeResult::Ended },
            Decoded::Failed(e) => {
                let mut msg: String = String::from_str("Decode error at frame ");
                msg.append(crate::text::nat_text(self.frame_count).as_str());
                msg.append(": ");
                msg.append(e.as_str());
                FrameStep::Finish { drain_audio: false, result: DecodeResult::Error(msg) }
            },
        }
    }
}

/// What a pipeline that cannot decode does next.
pub enum StubStep<E, A> {
    Ignore,
    /// Send this event.
    Report(PipelineEvent<E, A>),
    Exit,
}

/// Act on what came out of the command channel where nothing can be decoded:
/// every song fails.
pub fn stub_step<E, A>(polled: Polled) -> (r: StubStep<E, A>)
    ensures
        match polled {
            Polled::Closed => r is Exit,
            Polled::Command(PipelineCommand::Shutdown) => r is Exit,
            Polled::Command(PipelineCommand::Play { .. }) => r matches StubStep::Report(
                PipelineEvent::Error(msg),
            ) && msg@ == "Video decode requires Windows (Media Foundation)"@,
            _ => r is Ignore,
        },
{
    match polled {
        Polled::Closed => StubStep::Exit,
        Polled::Command(PipelineCommand::Shutdown) => StubStep::Exit,
        Polled::Command(PipelineCommand::Play { .. }) => StubStep::Report(
            PipelineEvent::Error(
                String::from_str("Video decode requires Windows (Media Foundation)"),
            ),
        ),
        _ => StubStep::Ignore,
    }
}

/// A song never begins held: whatever came before, playing clears a pause.
pub proof fn law_a_song_never_begins_paused(paused: bool, polled: Polled)
    requires
        loop_step_of(polled) is Decode,
    ensures
        !paused_after(paused, polled),
{
}

/// A song that arrives while another plays is played, with its own files and its
/// own start.
pub proof fn law_a_new_song_is_never_lost<E, A>(
    video: PathBuf,
    audio: PathBuf,
    start_position_ms: Option<u64>,
)
    ensures
        command_step_of(
            Polled::Command(PipelineCommand::Play { video, audio, start_position_ms }),
        ) == CommandStep::Finish(DecodeResult::NewPlay { video, audio, start_position_ms }),
        song_step_of::<E, A>(DecodeResult::NewPlay { video, audio, start_position_ms })
            == (SongStep::<E, A>::Decode { video, audio, start_position_ms }),
{
}

/// Only a stop, a next song, a shutdown or a closed channel ends a song by command.
pub proof fn law_only_these_end_a_song(polled: Polled)
    ensures
        command_step_of(polled) is Finish <==> (polled is Closed || (polled matches Polled::Command(
            c,
        ) && (c is Stop || c is Shutdown || c is Play))),
{
}

/// A song is played with its own picture file, its own sound file and its own
/// start, whether it arrives between songs or ends the song that plays: both ways
/// lead to the same three.
pub proof fn law_a_song_keeps_its_files<E, A>(
    video: PathBuf,
    audio: PathBuf,
    start_position_ms: Option<u64>,
)
    ensures
        ({
            let polled = Polled::Command(
                PipelineCommand::Play { video, audio, start_position_ms },
            );
            &&& loop_step_of(polled) matches LoopStep::Decode {
                video: v,
                audio: a,
                start_position_ms: s,
            } && v == video && a == audio && s == start_position_ms
            &&& command_step_of(polled) matches CommandStep::Finish(result) && (song_step_of::<
                E,
                A,
            >(result) matches SongStep::Decode { video: v, audio: a, start_position_ms: s } && v
                == video && a == audio && s == start_position_ms)
        }),
{
}

/// Between songs a song begins exactly on a play command, the pipeline ends exactly
/// on a shutdown or a closed channel, it goes black exactly on a stop, and it takes
/// an idle turn exactly when nothing came. Everything else only waits on.
pub proof fn law_what_ends_the_wait_between_songs(polled: Polled)
    ensures
        loop_step_of(polled) is Decode <==> (polled matches Polled::Command(c) && c is Play),
        loop_step_of(polled) is Exit <==> (polled is Closed || (polled matches Polled::Command(c)
            && c is Shutdown)),
        loop_step_of(polled) is Black <==> (polled matches Polled::Command(c) && c is Stop),
        loop_step_of(polled) is Idle <==> polled is Empty,
{
}

/// A pause and a resume each undo the other, between songs and in one; no other
/// command but a play changes whether the pipeline is held, and what holds a song
/// holds the pipeline.
pub proof fn law_only_pause_and_resume_hold(paused: bool, polled: Polled)
    ensures
        paused_after(paused, Polled::Command(PipelineCommand::Pause)),
        !paused_after(paused, Polled::Command(PipelineCommand::Resume)),
        !(polled matches Polled::Command(c) && (c is Pause || c is Resume || c is Play))
            ==> paused_after(paused, polled) == paused,
        !(polled matches Polled::Command(c) && c is Play) ==> held_after(paused, polled)
            == paused_after(paused, polled),
        (polled matches Polled::Command(c) && c is Play) ==> held_after(paused, polled) == paused,
{
}

/// A seek goes exactly to the position that was asked for, and nothing else seeks.
pub proof fn law_a_seek_goes_where_it_was_asked(polled: Polled, position_ms: u64)
    ensures
        command_step_of(polled) == (CommandStep::Seek { position_ms }) <==> polled
            == Polled::Command(PipelineCommand::Seek { position_ms }),
{
}

/// How a command ends a song: a stop as stopped, a shutdown or a closed channel as
/// shut down.
pub proof fn law_how_a_command_ends_a_song(polled: Polled)
    ensures
        command_step_of(polled) == CommandStep::Finish(DecodeResult::Stopped) <==> (
        polled matches Polled::Command(c) && c is Stop),
        command_step_of(polled) == CommandStep::Finish(DecodeResult::Shutdown) <==> (
        polled is Closed || (polled matches Polled::Command(c) && c is Shutdown)),
        command_step_of(polled) matches CommandStep::Finish(r) ==> !(r is Ended) && !(r is Error),
{
}

/// After a song the pipeline ends exactly when it was shut down, and plays on
/// exactly with a new song; else it goes black. The end is reported exactly of a
/// song that reached it, a failure exactly of one that failed, with its own text,
/// and nothing of a song that was stopped.
pub proof fn law_what_follows_a_song<E, A>(result: DecodeResult)
    ensures
        ({
            let step = song_step_of::<E, A>(result);
            &&& step is Exit <==> result is Shutdown
            &&& step is Decode <==> result is NewPlay
            &&& step matches SongStep::Black { event: Some(e) } ==> e is Ended || e is Error
            &&& (step matches SongStep::Black { event: Some(e) } && e is Ended) <==> result is Ended
            &&& (step matches SongStep::Black { event: None }) <==> result is Stopped
            &&& result matches DecodeResult::Error(msg) ==> step == (SongStep::<E, A>::Black {
                event: Some(PipelineEvent::<E, A>::Error(msg)),
            })
        }),
{
}

/// The reports of a song's position lie at least half a second apart, and after half
/// a second there is one.
pub proof fn law_positions_come_twice_a_second(song: Song, now: u64)
    ensures
        now >= song.last_position_ns + 500_000_000 <==> song.position_due(now),
{
}

/// A frame is reported where it lies and of the song it is of; half a second after a
/// report there is another, and each frame counts once.
pub proof fn law_a_frame_is_reported_where_it_lies<E, A>(
    song: Song,
    timestamp_ms: u64,
    now: u64,
    next: u64,
)
    requires
        song.frame_count < u64::MAX,
        now <= next,
    ensures
        song.position_at::<E, A>(timestamp_ms, now) is Some <==> now >= song.last_position_ns
            + 500_000_000,
        song.position_at::<E, A>(timestamp_ms, now) matches Some(event) ==> event == (
        PipelineEvent::<E, A>::Position { position_ms: timestamp_ms, duration_ms: song.duration_ms }),
        song.after_frame(now).frame_count == song.frame_count + 1,
        song.after_frame(now).duration_ms == song.duration_ms,
        song.position_due(now) ==> (song.after_frame(now).position_due(next) <==> next - now
            >= 500_000_000),
        !song.position_due(now) ==> song.after_frame(now).last_position_ns
            == song.last_position_ns,
{
}

/// A pause does not outlive the song it was made in, unless the pipeline ends with it.
pub proof fn law_a_pause_does_not_outlive_its_song(paused: bool, result: DecodeResult)
    ensures
        !(result is Shutdown) ==> !paused_after_song(paused, result),
        result is Shutdown ==> paused_after_song(paused, result) == paused,
{
}

/// The text of a failure tells what failed: songs that differ in the file or in the
/// error have another text, and so have the two files of one song.
pub proof fn law_a_failure_names_its_file(
    stage: OpenStage,
    path: Seq<char>,
    error: Seq<char>,
    other: Seq<char>,
)
    ensures
        open_failure(stage, path, error) == open_failure(stage, path, other) ==> error == other,
        stage != OpenStage::Pairing && open_failure(stage, path, error) == open_failure(
            stage,
            other,
            error,
        ) ==> path == other,
        open_failure(OpenStage::Video, path, error) != open_failure(OpenStage::Audio, path, error),
{
    let none = Seq::<char>::empty();
    let name = match stage {
        OpenStage::Video => "failed to open video "@,
        OpenStage::Audio => "failed to open audio "@,
        OpenStage::Pairing => "SplitSyncedDecoder::new failed: "@,
    };
    let head = if stage == OpenStage::Pairing {
        name
    } else {
        name + path + ": "@
    };
    assert(open_failure(stage, path, error) =~= head + error + none);
    assert(open_failure(stage, path, other) =~= head + other + none);
    if open_failure(stage, path, error) == open_failure(stage, path, other) {
        crate::text::lemma_same_middle(head, error, other, none);
    }
    if stage != OpenStage::Pairing {
        let tail = ": "@ + error;
        assert(open_failure(stage, path, error) =~= name + path + tail);
        assert(open_failure(stage, other, error) =~= name + other + tail);
        if open_failure(stage, path, error) == open_failure(stage, other, error) {
            crate::text::lemma_same_middle(name, path, other, tail);
        }
    }
    reveal_strlit("failed to open video ");
    reveal_strlit("failed to open audio ");
    let (video, audio) = (
        open_failure(OpenStage::Video, path, error),
        open_failure(OpenStage::Audio, path, error),
    );
    assert(video[15] == 'v' && audio[15] == 'a');
}

/// The text of a failure to decode tells the frame and the error: either one changes it.
pub proof fn law_a_failure_names_its_frame(
    frames: u64,
    other_frames: u64,
    error: Seq<char>,
    other: Seq<char>,
)
    ensures
        decode_failure(frames, error) == decode_failure(frames, other) ==> error == other,
        decode_failure(frames, error) == decode_failure(other_frames, error) ==> frames
            == other_frames,
        sender_failure(error) == sender_failure(other) ==> error == other,
{
    let none = Seq::<char>::empty();
    let name = "Decode error at frame "@;
    let (a, b) = (
        crate::text::decimal_nat(frames as nat),
        crate::text::decimal_nat(other_frames as nat),
    );
    let head = name + a + ": "@;
    let tail = ": "@ + error;
    assert(decode_failure(frames, error) =~= head + error + none);
    assert(decode_failure(frames, other) =~= head + other + none);
    if decode_failure(frames, error) == decode_failure(frames, other) {
        crate::text::lemma_same_middle(head, error, other, none);
    }
    assert(decode_failure(frames, error) =~= name + a + tail);
    assert(decode_failure(other_frames, error) =~= name + b + tail);
    if decode_failure(frames, error) == decode_failure(other_frames, error) {
        crate::text::lemma_same_middle(name, a, b, tail);
        crate::text::law_decimal_digits_write_the_number(frames as nat);
        crate::text::law_decimal_digits_write_the_number(other_frames as nat);
    }
    assert(sender_failure(error) =~= "Failed to create NDI sender: "@ + error + none);
    assert(sender_failure(other) =~= "Failed to create NDI sender: "@ + other + none);
    if sender_failure(error) == sender_failure(other) {
        crate::text::lemma_same_middle("Failed to create NDI sender: "@, error, other, none);
    }
}

/// A pipeline runs exactly with a sender, and reports the address that the sender has.
pub proof fn law_a_pipeline_runs_with_its_sender<E, A>(outcome: SenderOutcome, step: StartStep<E, A>)
    requires
        call_ensures(after_sender::<E, A>, (outcome,), step),
    ensures
        step is Run <==> outcome is Ready,
        outcome matches SenderOutcome::Ready(url) ==> step == (StartStep::<E, A>::Run { url }),
        step matches StartStep::Unusable { event } ==> event is Error,
{
}

/// Exactly one side paces the pictures: on the grid the pipeline, off it the sender; the
/// audio has a thread exactly off the grid, and the sender never paces it.
pub proof fn law_one_side_paces(genlock_pacing: bool, r: Clocking)
    requires
        call_ensures(clocking, (genlock_pacing,), r),
    ensures
        r.clock_video <==> !genlock_pacing,
        r.audio_emitter <==> !genlock_pacing,
        !r.clock_audio,
{
}

/// A song begins with no frame sent and no report due, and is reported with its own
/// duration.
pub proof fn law_a_song_begins_at_its_first_frame<E, A>(
    duration_ms: u64,
    now_ns: u64,
    r: (Song, PipelineEvent<E, A>),
)
    requires
        call_ensures(Song::start::<E, A>, (duration_ms, now_ns), r),
    ensures
        r.0.frame_count == 0,
        r.0.duration_ms == duration_ms,
        !r.0.position_due(now_ns),
        r.0.last_position_ns == now_ns,
        r.1 == (PipelineEvent::<E, A>::Started { duration_ms }),
{
}

/// Where nothing can be decoded every song is answered with a failure and nothing else
/// is, and the pipeline ends like any other.
pub proof fn law_a_stub_fails_every_song<E, A>(polled: Polled, step: StubStep<E, A>)
    requires
        call_ensures(stub_step::<E, A>, (polled,), step),
    ensures
        step is Report <==> (polled matches Polled::Command(c) && c is Play),
        step is Exit <==> loop_step_of(polled) is Exit,
        step matches StubStep::Report(event) ==> event is Error,
{
}

/// A pipeline without a sender ends on what ends any pipeline between songs, and on
/// nothing else.
pub proof fn law_an_unusable_pipeline_ends_alike(polled: Polled, ends: bool)
    requires
        call_ensures(ends_unusable, (&polled,), ends),
    ensures
        ends <==> loop_step_of(polled) is Exit,
{
}

} // verus!
