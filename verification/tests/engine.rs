//! The playlists' pipelines.

use sp_playback::engine::{
    should_send_position_update, subtitles_signature, LyricsLines, PlaybackEngine, PlaylistRow,
    ResolumeCommand, SubtitleLines,
};
use sp_playback::state::PlayState;

type Engine = PlaybackEngine<(), u8>;

fn lines(en: &str) -> LyricsLines {
    LyricsLines {
        ws_line: Some(en.to_string()),
        subtitles: Some(SubtitleLines {
            en: en.to_string(),
            next_en: "next".to_string(),
            sk: Some("sk".to_string()),
            next_sk: None,
        }),
        presenter: Some((en.to_string(), "next".to_string())),
    }
}

/// An engine with one playlist that plays a song with lyrics.
fn playing(on_program: bool) -> Engine {
    let mut e = Engine::new(true);
    assert!(e.ensure_pipeline(1, "SP-a").is_some());
    let pp = e.pipelines.get_mut(&1).unwrap();
    pp.state = PlayState::Playing { video_id: 42 };
    pp.current_video_id = Some(42);
    pp.scene_active = on_program;
    pp.lyrics_state = Some(());
    pp.cached_song = "Song".to_string();
    pp.cached_artist = "Artist".to_string();
    pp.cached_duration_ms = 90_000;
    e
}

#[test]
fn a_pipeline_is_made_once() {
    let mut e = Engine::new(false);
    let plan = e.ensure_pipeline(7, "SP-slow").expect("a new one");
    assert_eq!((plan.ndi_name.as_str(), plan.genlock_pacing, plan.lead_ms), ("SP-slow", false, 1500));
    assert!(e.ensure_pipeline(7, "SP-other").is_none());
    assert_eq!(e.pipelines.len(), 1);
    assert_eq!(e.pipelines[&7].state, PlayState::Idle);
    let mut paced = Engine::new(true);
    assert_eq!(paced.ensure_pipeline(7, "SP-slow").unwrap().lead_ms, 0);
}

#[test]
fn only_an_active_playlist_with_a_name_gets_a_pipeline() {
    let row = |name: &str, is_active: i64| {
        Some(PlaylistRow { ndi_output_name: name.to_string(), is_active })
    };
    let mut e = Engine::new(true);
    assert!(e.ensure_pipeline_for_playlist(1, None).is_none());
    assert!(e.ensure_pipeline_for_playlist(1, row("SP-a", 0)).is_none());
    assert!(e.ensure_pipeline_for_playlist(1, row("", 1)).is_none());
    assert!(e.pipelines.is_empty());
    assert!(e.ensure_pipeline_for_playlist(1, row("SP-a", 1)).is_some());
    assert!(e.ensure_pipeline_for_playlist(1, row("SP-a", 1)).is_none());
}

#[test]
fn removing_a_pipeline_removes_its_lock_window() {
    let mut e = playing(true);
    e.lock_windows.insert(1, 9);
    e.lock_windows.insert(2, 8);
    assert!(!e.remove_pipeline(2));
    assert_eq!(e.lock_windows.len(), 2, "no pipeline, nothing removed");
    assert!(e.remove_pipeline(1));
    assert!(e.pipelines.is_empty());
    assert!(!e.lock_windows.contains_key(&1) && e.lock_windows.contains_key(&2));
    assert!(!e.remove_pipeline(1));
}

#[test]
fn a_signature_names_every_part() {
    let l = lines("line");
    assert_eq!(subtitles_signature(&l.subtitles, false), "show|line|next|sk||false");
    assert_eq!(subtitles_signature(&l.subtitles, true), "show|line|next|sk||true");
    assert_eq!(subtitles_signature(&None, true), "hide");
}

#[test]
fn a_new_line_goes_out_once() {
    let mut e = playing(true);
    let sent = e.dispatch_lyrics_if_changed(1, lines("one"));
    assert!(sent.ws);
    match sent.resolume {
        Some(ResolumeCommand::ShowSubtitles { lines, suppress_en }) => {
            assert_eq!((lines.en.as_str(), suppress_en), ("one", false));
        }
        _ => panic!("the wall is shown the line"),
    }
    let push = sent.presenter.expect("the presenter gets the line");
    assert_eq!((push.current.as_str(), push.next.as_str()), ("one", "next"));
    assert_eq!((push.song.as_str(), push.artist.as_str()), ("Song", "Artist"));
    assert_eq!(push.last_seen, None);
    e.presenter_shows(1, Some("one".to_string()));

    let again = e.dispatch_lyrics_if_changed(1, lines("one"));
    assert!(!again.ws && again.resolume.is_none());
    assert_eq!(again.presenter.unwrap().last_seen.as_deref(), Some("one"));

    let gap = LyricsLines { ws_line: None, subtitles: None, presenter: None };
    let hidden = e.dispatch_lyrics_if_changed(1, gap.clone());
    assert!(hidden.ws && hidden.presenter.is_none());
    assert!(matches!(hidden.resolume, Some(ResolumeCommand::HideSubtitles)));
    let hidden = e.dispatch_lyrics_if_changed(1, gap);
    assert!(!hidden.ws && hidden.resolume.is_none());
}

#[test]
fn off_program_the_wall_is_left_alone() {
    let mut e = playing(false);
    let sent = e.dispatch_lyrics_if_changed(1, lines("one"));
    assert!(sent.ws && sent.presenter.is_some());
    assert!(sent.resolume.is_none());
    assert_eq!(e.pipelines[&1].last_resolume_subtitles_signature, None);
}

#[test]
fn without_lyrics_or_song_nothing_goes_out() {
    let mut e = playing(true);
    assert!(!e.dispatch_lyrics_if_changed(9, lines("one")).ws);
    e.pipelines.get_mut(&1).unwrap().lyrics_state = None;
    let sent = e.dispatch_lyrics_if_changed(1, lines("one"));
    assert!(!sent.ws && sent.resolume.is_none() && sent.presenter.is_none());
    let mut e = playing(true);
    e.pipelines.get_mut(&1).unwrap().current_video_id = None;
    let sent = e.dispatch_lyrics_if_changed(1, lines("one"));
    assert!(!sent.ws && sent.resolume.is_none() && sent.presenter.is_none());
}

#[test]
fn positions_are_broadcast_at_most_twice_a_second() {
    assert!(should_send_position_update(500) && !should_send_position_update(499));
    let mut e = playing(true);
    let msg = e.maybe_broadcast_position_update(1, 10, 0, 1_000).expect("the first");
    assert_eq!((msg.playlist_id, msg.video_id), (1, 42));
    assert_eq!((msg.song.as_str(), msg.artist.as_str()), ("Song", "Artist"));
    assert_eq!((msg.position_ms, msg.duration_ms), (10, 90_000), "the duration on record");
    assert!(e.maybe_broadcast_position_update(1, 11, 5, 1_499).is_none());
    let msg = e.maybe_broadcast_position_update(1, 12, 5, 1_500).expect("due again");
    assert_eq!((msg.position_ms, msg.duration_ms), (12, 5));
    assert!(e.maybe_broadcast_position_update(9, 12, 5, 9_000).is_none());
    e.pipelines.get_mut(&1).unwrap().current_video_id = None;
    assert!(e.maybe_broadcast_position_update(1, 13, 5, 3_000).is_none());
    assert_eq!(e.pipelines[&1].last_now_playing_broadcast, Some(3_000), "the turn counts");
}

#[test]
fn a_recovered_wall_is_shown_what_plays_on_program() {
    let mut e = playing(true);
    e.ensure_pipeline(2, "SP-b");
    e.ensure_pipeline(3, "SP-c");
    e.pipelines.get_mut(&2).unwrap().scene_active = true;
    e.pipelines.get_mut(&3).unwrap().state = PlayState::Playing { video_id: 5 };
    assert_eq!(e.recovery_targets(), vec![(1, 42)]);
    let pp = &e.pipelines[&1];
    let shown = pp.recovery(lines("one").subtitles).expect("it plays");
    assert_eq!(shown.video_id, 42);
    assert!(matches!(shown.subtitles, Some(ResolumeCommand::ShowSubtitles { .. })));
    assert!(pp.recovery(None).expect("it plays").subtitles.is_none());
    assert!(e.pipelines[&3].recovery(None).is_none());
    e.pipelines.get_mut(&3).unwrap().scene_active = true;
    let mut targets = e.recovery_targets();
    targets.sort();
    assert_eq!(targets, vec![(1, 42), (3, 5)]);
}
