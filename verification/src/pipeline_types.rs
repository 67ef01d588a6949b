//! What goes into a pipeline and what comes out of it.

use crate::pacing_stats::PacingStats;
use crate::proc_mem::ProcMemGauge;
use std::path::PathBuf;
use vstd::prelude::*;

verus! {

/// `std::path::PathBuf`, carried through unread.
#[verifier::external_type_specification]
#[verifier::external_body]
pub struct ExPathBuf(PathBuf);

/// What the engine asks of a pipeline.
#[derive(Debug)]
pub enum PipelineCommand {
    /// Play a song: its picture file and its sound file. With a start position
    /// the decoder seeks before the first frame is sent.
    Play { video: PathBuf, audio: PathBuf, start_position_ms: Option<u64> },
    /// Hold playback.
    Pause,
    /// Go on after a pause.
    Resume,
    /// Go to this offset of the current song; nothing without a song.
    Seek { position_ms: u64 },
    /// Stop playback: black, and no song.
    Stop,
    /// End the pipeline.
    Shutdown,
    /// Asks for a new sender; every pipeline keeps the one it has.
    RecreateSender,
}

/// The state a pipeline reports of itself.
#[derive(Debug, Clone, Copy, PartialEq, Eq, Structural)]
pub enum PlaybackStateLabel {
    /// No song.
    Idle,
    /// A song is ready, its scene is not on program.
    WaitingForScene,
    Playing,
    Paused,
}

/// Gauges of the send calls and of the process.
#[derive(Debug, Clone, Copy, PartialEq, Eq, Structural)]
pub struct LoopStats {
    /// Worst single send call (us) of the window.
    pub submit_call_us_max: u64,
    /// 99th-percentile send call (us) of the window.
    pub submit_call_us_p99: u64,
    pub proc_mem: Option<ProcMemGauge>,
}

impl Default for LoopStats {
    fn default() -> (r: Self)
        ensures
            r == (LoopStats { submit_call_us_max: 0, submit_call_us_p99: 0, proc_mem: None }),
    {
        LoopStats { submit_call_us_max: 0, submit_call_us_p99: 0, proc_mem: None }
    }
}

/// What a pipeline reports to the engine.
///
/// Frame rates are millionths of a frame per second; times are nanoseconds of
/// the process clock. `E` is the fractional gauge of the pacing report, `A` the
/// audio report; nothing here reads either.
#[derive(Debug, Clone)]
pub enum PipelineEvent<E, A> {
    /// Playback began; the duration is known.
    Started { duration_ms: u64 },
    /// Where playback is.
    Position { position_ms: u64, duration_ms: u64 },
    /// The song reached its end.
    Ended,
    /// Playback failed.
    Error(String),
    /// The regular health report.
    HealthSnapshot {
        connections: i32,
        frames_submitted_total: u64,
        frames_submitted_last_5s: u32,
        observed_fps: u64,
        /// The rate of the output.
        nominal_fps: u64,
        /// The rate of the file.
        source_fps: u64,
        last_submit_ts: Option<u64>,
        last_heartbeat_ts: u64,
        consecutive_bad_polls: u32,
        reported_state: PlaybackStateLabel,
        pacing: PacingStats<E>,
        audio: A,
        loop_stats: LoopStats,
    },
}

/// How a song ended.
#[derive(Debug)]
pub enum DecodeResult {
    /// At its end.
    Ended,
    /// By a stop.
    Stopped,
    /// By a shutdown: the pipeline ends too.
    Shutdown,
    /// By another song.
    NewPlay { video: PathBuf, audio: PathBuf, start_position_ms: Option<u64> },
    /// By a failure.
    Error(String),
}

} // verus!
