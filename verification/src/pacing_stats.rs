//! Boundary-paced emission telemetry.

use vstd::prelude::*;

verus! {

/// What a paced output reports about its cadence. All zero with `enabled`
/// false is what an idle or SDK-clocked output reports.
///
/// `E` is the type of the one fractional gauge, `av_align_err_ms`; nothing here
/// reads it.
#[derive(Clone, Debug, Default, PartialEq)]
pub struct PacingStats<E> {
    /// Whether boundary-paced emission is active.
    pub enabled: bool,
    /// Boundaries serviced (one frame per boundary).
    pub seq: u64,
    /// Frames that left late.
    pub late_frames: u64,
    /// Worst lateness (us).
    pub max_late_us: u64,
    /// 99th-percentile emit jitter (us) over the recent window.
    pub jitter_p99_us: u64,
    /// Last-frame repeats on a starved boundary.
    pub repeats: u64,
    /// Grid resyncs: a lag beyond the catch-up bound with nothing buffered.
    pub resyncs: u64,
    /// Latches after a backward clock step.
    pub relatches: u64,
    /// Frames dropped before they were sent.
    pub dropped: u64,
    /// Whole slots the serviced boundary sat behind the clock at the last emit.
    pub lag_slots: i64,
    /// 99th-percentile cost (us) of one iteration.
    pub iter_p99_us: u64,
    /// 99th-percentile duration (us) of decoding ahead.
    pub prep_p99_us: u64,
    /// Worst single send call (us) of the window.
    pub submit_call_us_max: u64,
    /// 99th-percentile send call (us) of the window.
    pub submit_call_us_p99: u64,
    /// Audio minus picture (ms) at the last boundary, before its correction.
    pub av_align_err_ms: E,
    /// Boundaries whose audio was dropped or padded onto the picture.
    pub av_corrections: u64,
    /// Samples dropped and padded by that alignment.
    pub av_corrected_samples: u64,
    /// Largest wall-clock anchor correction (us) that was measured.
    pub wall_anchor_max_step_us: u64,
    /// Anchor samples whose best bracket was too wide.
    pub wall_anchor_wide_brackets: u64,
    /// Anchor correction (us) that was slewed in instead of stepped.
    pub wall_anchor_slewed_us: u64,
}

} // verus!
