//! The playback state machine of one playlist.

use vstd::prelude::*;

verus! {

/// What follows the end of a video.
#[derive(Debug, Clone, Copy, PartialEq, Eq, Structural)]
pub enum PlaybackMode {
    /// Play on with another video.
    Continuous,
    /// Stop after this one.
    Single,
    /// Play the same one again.
    Loop,
}

impl Default for PlaybackMode {
    fn default() -> (r: Self)
        ensures
            r == PlaybackMode::Continuous,
    {
        PlaybackMode::Continuous
    }
}

/// Logical state of one playlist's player.
#[derive(Debug, Clone, Copy, PartialEq, Eq, Structural)]
pub enum PlayState {
    /// No videos yet.
    Idle,
    /// Videos, but the scene is not on program.
    WaitingForScene,
    /// A video plays.
    Playing { video_id: i64 },
}

/// What drives the player.
#[derive(Debug, Clone)]
pub enum PlayEvent {
    /// At least one video is ready.
    VideosAvailable,
    /// The playlist's source came on program.
    SceneOn,
    /// The playlist's source left program.
    SceneOff,
    /// The video reached its end.
    VideoEnded,
    /// The video failed.
    VideoError(String),
    /// The user skipped.
    Skip,
    /// The user changed the mode.
    SetMode(PlaybackMode),
}

/// What the engine does after a transition.
#[derive(Debug, Clone, Copy, PartialEq, Eq, Structural)]
pub enum PlayAction {
    /// Select the next video and play it.
    SelectAndPlay,
    /// Play the current video from its start.
    ReplayCurrent,
    /// Pause the pipeline.
    Pause,
    /// Send a black frame and stop.
    SendBlack,
    /// Stop playback.
    Stop,
}

/// The transition table. An event that is not in it changes nothing. A video
/// starts to play only when the engine has selected one, never by a transition.
pub open spec fn transition_of(state: PlayState, event: PlayEvent, mode: PlaybackMode) -> (
    PlayState,
    Option<PlayAction>,
) {
    match state {
        PlayState::Idle => if event is VideosAvailable {
            (PlayState::WaitingForScene, None)
        } else {
            (state, None)
        },
        PlayState::WaitingForScene => if event is SceneOn {
            (state, Some(PlayAction::SelectAndPlay))
        } else {
            (state, None)
        },
        PlayState::Playing { .. } => match event {
            PlayEvent::SceneOff => (PlayState::WaitingForScene, Some(PlayAction::Pause)),
            PlayEvent::VideoEnded => match mode {
                PlaybackMode::Continuous => (
                    PlayState::WaitingForScene,
                    Some(PlayAction::SelectAndPlay),
                ),
                PlaybackMode::Single => (PlayState::WaitingForScene, Some(PlayAction::SendBlack)),
                PlaybackMode::Loop => (state, Some(PlayAction::ReplayCurrent)),
            },
            PlayEvent::Skip => (PlayState::WaitingForScene, Some(PlayAction::SelectAndPlay)),
            PlayEvent::VideoError(_) => (
                PlayState::WaitingForScene,
                Some(PlayAction::SelectAndPlay),
            ),
            _ => (state, None),
        },
    }
}

impl PlayState {
    /// The next state, and what the engine has to do.
    pub fn transition(self, event: PlayEvent, mode: PlaybackMode) -> (r: (
        PlayState,
        Option<PlayAction>,
    ))
        ensures
            r == transition_of(self, event, mode),
    {
        match (self, event) {
            (PlayState::Idle, PlayEvent::VideosAvailable) => (PlayState::WaitingForScene, None),
            (PlayState::WaitingForScene, PlayEvent::SceneOn) => (
                PlayState::WaitingForScene,
                Some(PlayAction::SelectAndPlay),
            ),
            (PlayState::Playing { .. }, PlayEvent::SceneOff) => (
                PlayState::WaitingForScene,
                Some(PlayAction::Pause),
            ),
            (PlayState::Playing { .. }, PlayEvent::VideoEnded) => match mode {
                PlaybackMode::Continuous => (
                    PlayState::WaitingForScene,
                    Some(PlayAction::SelectAndPlay),
                ),
                PlaybackMode::Single => (PlayState::WaitingForScene, Some(PlayAction::SendBlack)),
                PlaybackMode::Loop => (self, Some(PlayAction::ReplayCurrent)),
            },
            (PlayState::Playing { .. }, PlayEvent::Skip) => (
                PlayState::WaitingForScene,
                Some(PlayAction::SelectAndPlay),
            ),
            (PlayState::Playing { .. }, PlayEvent::VideoError(_)) => (
                PlayState::WaitingForScene,
                Some(PlayAction::SelectAndPlay),
            ),
            _ => (self, None),
        }
    }
}

/// A change of mode changes neither state nor playback, in any state.
pub proof fn law_mode_change_is_silent(state: PlayState, new: PlaybackMode, mode: PlaybackMode)
    ensures
        transition_of(state, PlayEvent::SetMode(new), mode) == (state, None::<PlayAction>),
{
}

/// Only the end of a video depends on the mode.
pub proof fn law_mode_matters_only_at_the_end(
    state: PlayState,
    event: PlayEvent,
    a: PlaybackMode,
    b: PlaybackMode,
)
    requires
        !(event is VideoEnded),
    ensures
        transition_of(state, event, a) == transition_of(state, event, b),
{
}

/// No transition starts a video: a playing state is only ever kept, with the
/// same video.
pub proof fn law_transitions_never_start_a_video(
    state: PlayState,
    event: PlayEvent,
    mode: PlaybackMode,
)
    ensures
        transition_of(state, event, mode).0 is Playing ==> transition_of(state, event, mode).0
            == state,
{
}

/// A video plays on, with nothing to do, through every event but four: its scene
/// leaves, it ends, it is skipped, or it fails.
pub proof fn law_a_video_plays_on(video_id: i64, event: PlayEvent, mode: PlaybackMode)
    requires
        !(event is SceneOff),
        !(event is VideoEnded),
        !(event is Skip),
        !(event is VideoError),
    ensures
        transition_of(PlayState::Playing { video_id }, event, mode) == (
            PlayState::Playing { video_id },
            None::<PlayAction>,
        ),
{
}

/// A playing state is kept exactly when the event is none of the four that end a
/// video, or the video ends and is repeated; it is left for the wait alone.
pub proof fn law_a_video_is_left_only_for_the_wait(
    video_id: i64,
    event: PlayEvent,
    mode: PlaybackMode,
)
    ensures
        ({
            let next = transition_of(PlayState::Playing { video_id }, event, mode).0;
            let ends = event is SceneOff || event is Skip || event is VideoError || (
            event is VideoEnded && mode != PlaybackMode::Loop);
            &&& ends ==> next == PlayState::WaitingForScene
            &&& !ends ==> next == PlayState::Playing { video_id }
        }),
{
}

/// A pause is given exactly when the scene leaves under a playing video, in every
/// mode.
pub proof fn law_only_a_scene_that_leaves_pauses(
    state: PlayState,
    event: PlayEvent,
    mode: PlaybackMode,
)
    ensures
        transition_of(state, event, mode).1 == Some(PlayAction::Pause) <==> state is Playing
            && event is SceneOff,
{
}

/// The current video is played again exactly when it ends in a loop; black is sent
/// exactly when a single video ends. Nothing gives a stop.
pub proof fn law_what_the_end_of_a_video_brings(
    state: PlayState,
    event: PlayEvent,
    mode: PlaybackMode,
)
    ensures
        ({
            let action = transition_of(state, event, mode).1;
            let ended = state is Playing && event is VideoEnded;
            &&& action == Some(PlayAction::ReplayCurrent) <==> ended && mode == PlaybackMode::Loop
            &&& action == Some(PlayAction::SendBlack) <==> ended && mode == PlaybackMode::Single
            &&& action != Some(PlayAction::Stop)
        }),
{
}

/// Another video is selected exactly when the scene comes on while the player waits
/// for it, or when a playing video is skipped, fails, or ends in continuous mode.
pub proof fn law_when_a_video_is_selected(
    state: PlayState,
    event: PlayEvent,
    mode: PlaybackMode,
)
    ensures
        transition_of(state, event, mode).1 == Some(PlayAction::SelectAndPlay) <==> (match state {
            PlayState::Idle => false,
            PlayState::WaitingForScene => event is SceneOn,
            PlayState::Playing { .. } => event is Skip || event is VideoError || (
            event is VideoEnded && mode == PlaybackMode::Continuous),
        }),
{
}

/// A player without videos does nothing, and begins to wait exactly when the first
/// ones are there.
pub proof fn law_without_videos_nothing_happens(event: PlayEvent, mode: PlaybackMode)
    ensures
        transition_of(PlayState::Idle, event, mode).1 is None,
        transition_of(PlayState::Idle, event, mode).0 == if event is VideosAvailable {
            PlayState::WaitingForScene
        } else {
            PlayState::Idle
        },
{
}

/// Once there are videos the player never goes back to having none, and a wait is
/// left by no event: only a selected video ends it.
pub proof fn law_videos_are_not_forgotten(
    state: PlayState,
    event: PlayEvent,
    mode: PlaybackMode,
)
    ensures
        !(state is Idle) ==> !(transition_of(state, event, mode).0 is Idle),
        state is WaitingForScene ==> transition_of(state, event, mode).0 == state,
{
}

} // verus!
