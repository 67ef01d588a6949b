//! The grid and the waits on it.

use sp_playback::genlock::{
    floor_boundary_100ns, interval_100ns, lag_slots_100ns, strict_next_boundary_100ns,
};
use sp_playback::pacer_sink::{idle_poll, one_shot_frame, plan_sleep_100ns, SleepDecision};
use std::time::Duration;

/// The k-th boundary of the 30 fps grid after the epoch.
fn b(k: i64) -> i64 {
    let mut x = 0;
    for _ in 0..k {
        x = strict_next_boundary_100ns(x, 30);
    }
    x
}

#[test]
fn plan_sleep_clamps_to_one_second_and_flags_backward_relatch() {
    let i = 333_333;
    assert_eq!(
        plan_sleep_100ns(1000, 1000 + 200_000, i),
        SleepDecision {
            sleep_100ns: 200_000,
            relatch: false
        }
    );
    assert_eq!(plan_sleep_100ns(5000, 4000, i).sleep_100ns, 0);
    assert!(!plan_sleep_100ns(5000, 4000, i).relatch);
    let d = plan_sleep_100ns(0, 50_000_000, i);
    assert!(d.relatch);
    assert_eq!(d.sleep_100ns, 10_000_000);
    let d0 = plan_sleep_100ns(0, 50_000_000, 0);
    assert!(!d0.relatch);
    assert_eq!(d0.sleep_100ns, 10_000_000);
}

#[test]
fn plan_sleep_tolerates_the_exact_slot_width_on_wide_slots() {
    let fps = 30;
    let interval = interval_100ns(fps);
    let now = floor_boundary_100ns(4_666_667, fps);
    let until = strict_next_boundary_100ns(now, fps);
    assert_eq!(until - now, 333_334, "this is the wide slot");
    assert!(until - now > interval, "wider than the nominal interval");
    let d = plan_sleep_100ns(now, until, interval);
    assert!(
        !d.relatch,
        "the exact slot width must NOT trigger a spurious relatch"
    );
    assert_eq!(d.sleep_100ns, 333_334);
}

#[test]
fn plan_sleep_relatch_bound_is_strict_at_interval_plus_two() {
    let interval = 333_333;
    let d = plan_sleep_100ns(0, interval + 2, interval);
    assert!(
        !d.relatch,
        "delta == interval + 2 is NOT a backward jump (strict >)"
    );
    assert_eq!(d.sleep_100ns, interval + 2);
}

#[test]
fn plan_sleep_relatch_bound_is_interval_plus_two_not_times_two() {
    let interval = 333_333;
    let d = plan_sleep_100ns(0, 400_000, interval);
    assert!(
        d.relatch,
        "delta 400_000 > interval+2 (333_335) is a backward jump; the bound is +2 not *2"
    );
}

#[test]
fn lag_slots_100ns_counts_whole_slots_behind() {
    assert_eq!(lag_slots_100ns(b(5), b(5), 30), 0);
    assert_eq!(lag_slots_100ns(b(5), b(6), 30), 1);
    assert_eq!(lag_slots_100ns(b(5), b(15), 30), 10);
    assert_eq!(lag_slots_100ns(b(5), b(4), 30), 0);
    assert_eq!(lag_slots_100ns(b(5), b(15), 0), 0);
    let now = b(9) + 12_345;
    assert_eq!(lag_slots_100ns(b(1), floor_boundary_100ns(now, 30), 30), 8);
}

#[test]
fn the_paced_outer_loop_enters_the_idle_fill_at_once_legacy_keeps_5_s() {
    assert_eq!(
        Duration::from_millis(idle_poll(true)),
        Duration::ZERO,
        "paced: no 5 s hole before the idle fill after start / song end / stop"
    );
    assert_eq!(
        Duration::from_millis(idle_poll(false)),
        Duration::from_secs(5),
        "SDK-clocked: the unchanged 5 s heartbeat poll"
    );
}

#[test]
fn thirty_slots_make_a_second_and_ten_of_them_are_wide() {
    assert_eq!(interval_100ns(30), 333_333);
    assert_eq!(interval_100ns(0), 0);
    assert_eq!(b(30), 10_000_000);
    let wide = (0..30).filter(|&k| b(k + 1) - b(k) == 333_334).count();
    let narrow = (0..30).filter(|&k| b(k + 1) - b(k) == 333_333).count();
    assert_eq!((wide, narrow), (10, 20));
}

#[test]
fn the_floor_of_a_boundary_is_itself_and_the_next_lies_after_it() {
    for k in 0..40 {
        assert_eq!(floor_boundary_100ns(b(k), 30), b(k));
        assert_eq!(floor_boundary_100ns(b(k + 1) - 1, 30), b(k));
        assert_eq!(strict_next_boundary_100ns(b(k), 30), b(k + 1));
    }
    assert_eq!(floor_boundary_100ns(-1, 30), -333_334);
}

#[test]
fn a_one_shot_frame_carries_no_time_and_no_audio() {
    let f = one_shot_frame::<Vec<u8>, Vec<f32>>(4, 2, 8, vec![1, 2, 3]);
    assert_eq!((f.pts_ns, f.width, f.height, f.stride), (0, 4, 2, 8));
    assert_eq!(f.video, vec![1, 2, 3]);
    assert!(f.audio.is_empty());
}
