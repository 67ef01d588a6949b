//! The playback state machine.

use sp_playback::state::{PlayAction, PlayEvent, PlayState, PlaybackMode};

#[test]
fn idle_to_waiting_on_videos_available() {
    let (next, action) =
        PlayState::Idle.transition(PlayEvent::VideosAvailable, PlaybackMode::Continuous);
    assert_eq!(next, PlayState::WaitingForScene);
    assert_eq!(action, None);
}

#[test]
fn waiting_to_select_on_scene_on() {
    let (next, action) =
        PlayState::WaitingForScene.transition(PlayEvent::SceneOn, PlaybackMode::Continuous);
    assert_eq!(next, PlayState::WaitingForScene);
    assert_eq!(action, Some(PlayAction::SelectAndPlay));
}

#[test]
fn playing_to_waiting_on_scene_off() {
    let state = PlayState::Playing { video_id: 1 };
    let (next, action) = state.transition(PlayEvent::SceneOff, PlaybackMode::Continuous);
    assert_eq!(next, PlayState::WaitingForScene);
    assert_eq!(action, Some(PlayAction::Pause));
}

#[test]
fn playing_continuous_video_ended_selects_next() {
    let state = PlayState::Playing { video_id: 1 };
    let (next, action) = state.transition(PlayEvent::VideoEnded, PlaybackMode::Continuous);
    assert_eq!(next, PlayState::WaitingForScene);
    assert_eq!(action, Some(PlayAction::SelectAndPlay));
}

#[test]
fn playing_single_video_ended_sends_black() {
    let state = PlayState::Playing { video_id: 1 };
    let (next, action) = state.transition(PlayEvent::VideoEnded, PlaybackMode::Single);
    assert_eq!(next, PlayState::WaitingForScene);
    assert_eq!(action, Some(PlayAction::SendBlack));
}

#[test]
fn playing_loop_video_ended_replays() {
    let state = PlayState::Playing { video_id: 42 };
    let (next, action) = state.transition(PlayEvent::VideoEnded, PlaybackMode::Loop);
    assert_eq!(next, PlayState::Playing { video_id: 42 });
    assert_eq!(action, Some(PlayAction::ReplayCurrent));
}

#[test]
fn playing_skip_selects_next() {
    let state = PlayState::Playing { video_id: 5 };
    let (next, action) = state.transition(PlayEvent::Skip, PlaybackMode::Continuous);
    assert_eq!(next, PlayState::WaitingForScene);
    assert_eq!(action, Some(PlayAction::SelectAndPlay));
}

#[test]
fn playing_error_selects_next() {
    let state = PlayState::Playing { video_id: 3 };
    let (next, action) = state.transition(
        PlayEvent::VideoError("decode error".into()),
        PlaybackMode::Continuous,
    );
    assert_eq!(next, PlayState::WaitingForScene);
    assert_eq!(action, Some(PlayAction::SelectAndPlay));
}

#[test]
fn idle_ignores_scene_on() {
    let (next, action) =
        PlayState::Idle.transition(PlayEvent::SceneOn, PlaybackMode::Continuous);
    assert_eq!(next, PlayState::Idle);
    assert_eq!(action, None);
}

#[test]
fn waiting_ignores_video_ended() {
    let (next, action) =
        PlayState::WaitingForScene.transition(PlayEvent::VideoEnded, PlaybackMode::Continuous);
    assert_eq!(next, PlayState::WaitingForScene);
    assert_eq!(action, None);
}

#[test]
fn mode_change_no_state_change() {
    let (next, action) = PlayState::Idle.transition(
        PlayEvent::SetMode(PlaybackMode::Loop),
        PlaybackMode::Continuous,
    );
    assert_eq!(next, PlayState::Idle);
    assert_eq!(action, None);

    let (next, action) = PlayState::WaitingForScene.transition(
        PlayEvent::SetMode(PlaybackMode::Single),
        PlaybackMode::Continuous,
    );
    assert_eq!(next, PlayState::WaitingForScene);
    assert_eq!(action, None);

    let state = PlayState::Playing { video_id: 7 };
    let (next, action) = state.transition(
        PlayEvent::SetMode(PlaybackMode::Continuous),
        PlaybackMode::Loop,
    );
    assert_eq!(next, PlayState::Playing { video_id: 7 });
    assert_eq!(action, None);
}

#[test]
fn idle_ignores_scene_off() {
    let (next, action) =
        PlayState::Idle.transition(PlayEvent::SceneOff, PlaybackMode::Continuous);
    assert_eq!(next, PlayState::Idle);
    assert_eq!(action, None);
}

#[test]
fn idle_ignores_skip() {
    let (next, action) = PlayState::Idle.transition(PlayEvent::Skip, PlaybackMode::Continuous);
    assert_eq!(next, PlayState::Idle);
    assert_eq!(action, None);
}

#[test]
fn idle_ignores_video_error() {
    let (next, action) = PlayState::Idle.transition(
        PlayEvent::VideoError("err".into()),
        PlaybackMode::Continuous,
    );
    assert_eq!(next, PlayState::Idle);
    assert_eq!(action, None);
}

#[test]
fn waiting_ignores_scene_off() {
    let (next, action) =
        PlayState::WaitingForScene.transition(PlayEvent::SceneOff, PlaybackMode::Continuous);
    assert_eq!(next, PlayState::WaitingForScene);
    assert_eq!(action, None);
}

#[test]
fn playing_skip_in_loop_mode() {
    let state = PlayState::Playing { video_id: 10 };
    let (next, action) = state.transition(PlayEvent::Skip, PlaybackMode::Loop);
    assert_eq!(next, PlayState::WaitingForScene);
    assert_eq!(action, Some(PlayAction::SelectAndPlay));
}

#[test]
fn playing_error_in_single_mode() {
    let state = PlayState::Playing { video_id: 2 };
    let (next, action) =
        state.transition(PlayEvent::VideoError("broken".into()), PlaybackMode::Single);
    assert_eq!(next, PlayState::WaitingForScene);
    assert_eq!(action, Some(PlayAction::SelectAndPlay));
}

#[test]
fn the_default_mode_plays_on() {
    assert_eq!(PlaybackMode::default(), PlaybackMode::Continuous);
}

#[test]
fn every_event_but_the_end_ignores_the_mode() {
    let modes = [PlaybackMode::Continuous, PlaybackMode::Single, PlaybackMode::Loop];
    let states = [
        PlayState::Idle,
        PlayState::WaitingForScene,
        PlayState::Playing { video_id: 9 },
    ];
    for state in states {
        for event in [
            PlayEvent::VideosAvailable,
            PlayEvent::SceneOn,
            PlayEvent::SceneOff,
            PlayEvent::VideoError("x".into()),
            PlayEvent::Skip,
            PlayEvent::SetMode(PlaybackMode::Loop),
        ] {
            let first = state.transition(event.clone(), modes[0]);
            for mode in modes {
                let (next, action) = state.transition(event.clone(), mode);
                assert_eq!((next, action), first);
                if matches!(next, PlayState::Playing { .. }) {
                    assert_eq!(next, state);
                }
            }
        }
    }
}
