//! The playlists' pipelines: which exist, and what each of them shows elsewhere.

use crate::encoder_args::same_text;
use crate::preview_stream::lead_ms_for;
use crate::state::{PlayState, PlaybackMode};
use std::collections::{HashMap, VecDeque};
use vstd::prelude::*;

verus! {

broadcast use vstd::std_specs::hash::group_hash_axioms;

/// Time between two position broadcasts.
pub const POSITION_BROADCAST_INTERVAL_MS: u64 = 500;

/// The text of an optional string.
pub open spec fn text_of(s: Option<String>) -> Option<Seq<char>> {
    match s {
        Some(t) => Some(t@),
        None => None,
    }
}

/// The text of an optional string, empty for none.
pub open spec fn text_or_empty(s: Option<String>) -> Seq<char> {
    match s {
        Some(t) => t@,
        None => Seq::empty(),
    }
}

/// What the engine knows of one playlist's pipeline. `L` is the lyrics of the
/// current song.
pub struct PlaylistPipeline<L> {
    pub state: PlayState,
    pub mode: PlaybackMode,
    pub current_video_id: Option<i64>,
    /// The playlist's scene is on program.
    pub scene_active: bool,
    pub cached_song: String,
    pub cached_artist: String,
    pub cached_duration_ms: u64,
    /// Leave the English line out.
    pub cached_suppress_en: bool,
    pub cached_lyrics_reference: bool,
    /// When the position was last broadcast (ms).
    pub last_now_playing_broadcast: Option<u64>,
    /// Songs played before, for going back.
    pub history: VecDeque<i64>,
    pub lyrics_state: Option<L>,
    pub last_presenter_text: Option<String>,
    pub last_resolume_subtitles_signature: Option<String>,
    pub last_lyrics_ws_signature: Option<String>,
    pub cached_position_ms: u64,
    /// Since when the playlist is paused (ms).
    pub paused_at: Option<u64>,
}

/// The lines on the wall.
#[derive(Debug, Clone)]
pub struct SubtitleLines {
    pub en: String,
    pub next_en: String,
    pub sk: Option<String>,
    pub next_sk: Option<String>,
}

/// What the lyrics say at a position.
#[derive(Debug, Clone)]
pub struct LyricsLines {
    /// The line of the karaoke view.
    pub ws_line: Option<String>,
    /// The lines of the wall; none between lines.
    pub subtitles: Option<SubtitleLines>,
    /// The current and the next line of the presenter.
    pub presenter: Option<(String, String)>,
}

/// A command to the wall.
#[derive(Debug, Clone)]
pub enum ResolumeCommand {
    ShowSubtitles { lines: SubtitleLines, suppress_en: bool },
    HideSubtitles,
}

/// A line for the presenter.
#[derive(Debug, Clone)]
pub struct PresenterPush {
    pub current: String,
    pub next: String,
    /// The line it has.
    pub last_seen: Option<String>,
    pub song: String,
    pub artist: String,
}

/// What a change of lyrics sends.
#[derive(Debug, Clone)]
pub struct LyricsDispatch {
    /// Send the karaoke message.
    pub ws: bool,
    pub resolume: Option<ResolumeCommand>,
    /// Push this line; the text the push leaves goes to `presenter_shows`.
    pub presenter: Option<PresenterPush>,
}

/// A position broadcast.
#[derive(Debug, Clone)]
pub struct NowPlaying {
    pub playlist_id: i64,
    pub video_id: i64,
    pub song: String,
    pub artist: String,
    pub position_ms: u64,
    pub duration_ms: u64,
}

/// What a recovered wall is shown of a playlist.
#[derive(Debug, Clone)]
pub struct Recovery {
    /// Show the title of this video.
    pub video_id: i64,
    pub subtitles: Option<ResolumeCommand>,
}

/// What identifies the lines on the wall.
pub open spec fn signature_of(subtitles: Option<SubtitleLines>, suppress_en: bool) -> Seq<char> {
    match subtitles {
        None => "hide"@,
        Some(l) => "show|"@ + l.en@ + "|"@ + l.next_en@ + "|"@ + text_or_empty(l.sk) + "|"@
            + text_or_empty(l.next_sk) + "|"@ + (if suppress_en {
            "true"@
        } else {
            "false"@
        }),
    }
}

fn append_or_nothing(s: &mut String, part: &Option<String>)
    ensures
        final(s)@ == old(s)@ + text_or_empty(*part),
{
    match part {
        Some(t) => s.append(t.as_str()),
        None => {
            assert(s@ =~= s@ + Seq::<char>::empty());
        },
    }
}

/// What identifies the lines on the wall.
pub fn subtitles_signature(subtitles: &Option<SubtitleLines>, suppress_en: bool) -> (r: String)
    ensures
        r@ == signature_of(*subtitles, suppress_en),
{
    match subtitles {
        None => String::from_str("hide"),
        Some(l) => {
            let mut s: String = String::from_str("show|");
            s.append(l.en.as_str());
            s.append("|");
            s.append(l.next_en.as_str());
            s.append("|");
            append_or_nothing(&mut s, &l.sk);
            s.append("|");
            append_or_nothing(&mut s, &l.next_sk);
            s.append("|");
            s.append(
                if suppress_en {
                    "true"
                } else {
                    "false"
                },
            );
            s
        },
    }
}

fn same_optional_text(a: &Option<String>, b: &Option<String>) -> (r: bool)
    ensures
        r <==> text_of(*a) == text_of(*b),
{
    match (a, b) {
        (Some(x), Some(y)) => same_text(x.as_str(), y.as_str()),
        (None, None) => true,
        _ => false,
    }
}

/// Whether a position broadcast is due `elapsed_ms` after the last one.
pub fn should_send_position_update(elapsed_ms: u64) -> (r: bool)
    ensures
        r <==> elapsed_ms >= POSITION_BROADCAST_INTERVAL_MS,
{
    elapsed_ms >= POSITION_BROADCAST_INTERVAL_MS
}

impl<L> PlaylistPipeline<L> {
    /// As it was created: idle, with nothing known and nothing sent.
    pub open spec fn is_fresh(self) -> bool {
        &&& self.state == PlayState::Idle
        &&& self.mode == PlaybackMode::Continuous
        &&& self.current_video_id is None
        &&& !self.scene_active
        &&& self.cached_song@ == Seq::<char>::empty()
        &&& self.cached_artist@ == Seq::<char>::empty()
        &&& self.cached_duration_ms == 0
        &&& !self.cached_suppress_en
        &&& !self.cached_lyrics_reference
        &&& self.last_now_playing_broadcast is None
        &&& self.history@ == Seq::<i64>::empty()
        &&& self.lyrics_state is None
        &&& self.last_presenter_text is None
        &&& self.last_resolume_subtitles_signature is None
        &&& self.last_lyrics_ws_signature is None
        &&& self.cached_position_ms == 0
        &&& self.paused_at is None
    }

    pub fn new() -> (r: Self)
        ensures
            r.is_fresh(),
    {
        PlaylistPipeline {
            state: PlayState::Idle,
            mode: PlaybackMode::default(),
            current_video_id: None,
            scene_active: false,
            cached_song: String::new(),
            cached_artist: String::new(),
            cached_duration_ms: 0,
            cached_suppress_en: false,
            cached_lyrics_reference: false,
            last_now_playing_broadcast: None,
            history: VecDeque::new(),
            lyrics_state: None,
            last_presenter_text: None,
            last_resolume_subtitles_signature: None,
            last_lyrics_ws_signature: None,
            cached_position_ms: 0,
            paused_at: None,
        }
    }

    /// Lyrics are sent only for a song that has them.
    pub open spec fn has_lines(self) -> bool {
        self.lyrics_state is Some && self.current_video_id is Some
    }

    /// The karaoke view has another line.
    pub open spec fn ws_changed(self, lines: LyricsLines) -> bool {
        text_of(self.last_lyrics_ws_signature) != text_of(lines.ws_line)
    }

    /// The playlist is on program and the wall shows other lines.
    pub open spec fn wall_changed(self, lines: LyricsLines) -> bool {
        self.scene_active && text_of(self.last_resolume_subtitles_signature) != Some(
            signature_of(lines.subtitles, self.cached_suppress_en),
        )
    }

    /// The wall's command for these lines.
    pub open spec fn wall_command(self, subtitles: Option<SubtitleLines>) -> ResolumeCommand {
        match subtitles {
            Some(lines) => ResolumeCommand::ShowSubtitles {
                lines,
                suppress_en: self.cached_suppress_en,
            },
            None => ResolumeCommand::HideSubtitles,
        }
    }

    /// Everything but what the lyrics remember of what was sent.
    pub open spec fn same_song(self, other: Self) -> bool {
        &&& self.state == other.state
        &&& self.mode == other.mode
        &&& self.current_video_id == other.current_video_id
        &&& self.scene_active == other.scene_active
        &&& self.cached_song == other.cached_song
        &&& self.cached_artist == other.cached_artist
        &&& self.cached_duration_ms == other.cached_duration_ms
        &&& self.cached_suppress_en == other.cached_suppress_en
        &&& self.cached_lyrics_reference == other.cached_lyrics_reference
        &&& self.last_now_playing_broadcast == other.last_now_playing_broadcast
        &&& self.history == other.history
        &&& self.lyrics_state == other.lyrics_state
        &&& self.cached_position_ms == other.cached_position_ms
        &&& self.paused_at == other.paused_at
    }

    /// `after` is this pipeline, and `sent` what goes out, when the lyrics say
    /// `lines`: the karaoke view gets another line, the wall gets other lines while
    /// the playlist is on program, the presenter gets every line with the one it
    /// has.
    pub open spec fn dispatches(self, lines: LyricsLines, after: Self, sent: LyricsDispatch) -> bool {
        &&& after.same_song(self)
        &&& self.has_lines() ==> {
            &&& sent.ws == self.ws_changed(lines)
            &&& text_of(after.last_lyrics_ws_signature) == text_of(lines.ws_line)
            &&& sent.resolume == if self.wall_changed(lines) {
                Some(self.wall_command(lines.subtitles))
            } else {
                None
            }
            &&& text_of(after.last_resolume_subtitles_signature) == if self.scene_active {
                Some(signature_of(lines.subtitles, self.cached_suppress_en))
            } else {
                text_of(self.last_resolume_subtitles_signature)
            }
            &&& match lines.presenter {
                None => sent.presenter is None && after.last_presenter_text
                    == self.last_presenter_text,
                Some((current, next)) => {
                    &&& after.last_presenter_text is None
                    &&& sent.presenter matches Some(push)
                    &&& push.current == current
                    &&& push.next == next
                    &&& push.last_seen == self.last_presenter_text
                    &&& push.song@ == self.cached_song@
                    &&& push.artist@ == self.cached_artist@
                },
            }
        }
        &&& !self.has_lines() ==> {
            &&& !sent.ws
            &&& sent.resolume is None
            &&& sent.presenter is None
            &&& after.last_lyrics_ws_signature == self.last_lyrics_ws_signature
            &&& after.last_resolume_subtitles_signature == self.last_resolume_subtitles_signature
            &&& after.last_presenter_text == self.last_presenter_text
        }
    }

    /// Send what changed, given what the lyrics say now.
    pub fn dispatch_lyrics(&mut self, lines: LyricsLines) -> (r: LyricsDispatch)
        ensures
            old(self).dispatches(lines, *final(self), r),
    {
        let playing: bool = self.lyrics_state.is_some() && self.current_video_id.is_some();
        if !playing {
            return LyricsDispatch { ws: false, resolume: None, presenter: None };
        }
        let ws: bool = !same_optional_text(&self.last_lyrics_ws_signature, &lines.ws_line);
        if ws {
            self.last_lyrics_ws_signature = lines.ws_line;
        }
        let mut resolume: Option<ResolumeCommand> = None;
        if self.scene_active {
            let signature: Option<String> = Some(
                subtitles_signature(&lines.subtitles, self.cached_suppress_en),
            );
            if !same_optional_text(&self.last_resolume_subtitles_signature, &signature) {
                resolume = Some(
                    match lines.subtitles {
                        Some(l) => ResolumeCommand::ShowSubtitles {
                            lines: l,
                            suppress_en: self.cached_suppress_en,
                        },
                        None => ResolumeCommand::HideSubtitles,
                    },
                );
            }
            self.last_resolume_subtitles_signature = signature;
        }
        let presenter: Option<PresenterPush> = match lines.presenter {
            Some((current, next)) => Some(
                PresenterPush {
                    current,
                    next,
                    last_seen: self.last_presenter_text.take(),
                    song: self.cached_song.clone(),
                    artist: self.cached_artist.clone(),
                },
            ),
            None => None,
        };
        LyricsDispatch { ws, resolume, presenter }
    }

    /// A broadcast is due at `now`.
    pub open spec fn broadcast_due(self, now: u64) -> bool {
        match self.last_now_playing_broadcast {
            Some(t) => crate::pipeline_heartbeat::since(now, t) >= POSITION_BROADCAST_INTERVAL_MS,
            None => true,
        }
    }

    /// The record after a position at `now`: a due turn is noted.
    pub open spec fn after_position(self, now: u64) -> Self {
        PlaylistPipeline {
            last_now_playing_broadcast: if self.broadcast_due(now) {
                Some(now)
            } else {
                self.last_now_playing_broadcast
            },
            ..self
        }
    }

    /// `msg` is what is broadcast of this playlist at a position.
    pub open spec fn announces(
        self,
        playlist_id: i64,
        position_ms: u64,
        duration_ms: u64,
        msg: NowPlaying,
    ) -> bool {
        &&& msg.playlist_id == playlist_id
        &&& Some(msg.video_id) == self.current_video_id
        &&& msg.song@ == self.cached_song@
        &&& msg.artist@ == self.cached_artist@
        &&& msg.position_ms == position_ms
        &&& msg.duration_ms == if duration_ms > 0 {
            duration_ms
        } else {
            self.cached_duration_ms
        }
    }

    /// The broadcast at a position, when one is due: the file's duration, or the one
    /// on record where it has none. A due turn counts, song or no song.
    pub fn position_update(
        &mut self,
        playlist_id: i64,
        position_ms: u64,
        duration_ms: u64,
        now_ms: u64,
    ) -> (r: Option<NowPlaying>)
        ensures
            *final(self) == old(self).after_position(now_ms),
            r is Some <==> old(self).broadcast_due(now_ms) && old(self).current_video_id is Some,
            r matches Some(msg) ==> old(self).announces(playlist_id, position_ms, duration_ms, msg),
            r matches Some(msg) ==> {
                &&& msg.playlist_id == playlist_id
                &&& Some(msg.video_id) == old(self).current_video_id
                &&& msg.song@ == old(self).cached_song@
                &&& msg.artist@ == old(self).cached_artist@
                &&& msg.position_ms == position_ms
                &&& msg.duration_ms == if duration_ms > 0 {
                    duration_ms
                } else {
                    old(self).cached_duration_ms
                }
            },
    {
        let due: bool = match self.last_now_playing_broadcast {
            Some(t) => should_send_position_update(now_ms.saturating_sub(t)),
            None => true,
        };
        if !due {
            return None;
        }
        self.last_now_playing_broadcast = Some(now_ms);
        match self.current_video_id {
            Some(video_id) => Some(
                NowPlaying {
                    playlist_id,
                    video_id,
                    song: self.cached_song.clone(),
                    artist: self.cached_artist.clone(),
                    position_ms,
                    duration_ms: if duration_ms > 0 {
                        duration_ms
                    } else {
                        self.cached_duration_ms
                    },
                },
            ),
            None => None,
        }
    }

    /// A recovered wall is shown the playlists that play on program.
    pub open spec fn recovers(self) -> Option<i64> {
        if self.scene_active {
            match self.state {
                PlayState::Playing { video_id } => Some(video_id),
                _ => None,
            }
        } else {
            None
        }
    }

    /// The video a recovered wall is shown, if any.
    pub fn recovery_video(&self) -> (r: Option<i64>)
        ensures
            r == self.recovers(),
    {
        if !self.scene_active {
            return None;
        }
        match self.state {
            PlayState::Playing { video_id } => Some(video_id),
            _ => None,
        }
    }

    /// What a recovered wall is shown: the title, and the lines where the lyrics
    /// have some (`subtitles` is what they say at the position on record).
    pub fn recovery(&self, subtitles: Option<SubtitleLines>) -> (r: Option<Recovery>)
        ensures
            r is Some <==> self.recovers() is Some,
            r matches Some(shown) ==> {
                &&& Some(shown.video_id) == self.recovers()
                &&& shown.subtitles == if self.lyrics_state is Some && subtitles is Some {
                    Some(self.wall_command(subtitles))
                } else {
                    None
                }
            },
    {
        match self.recovery_video() {
            None => None,
            Some(video_id) => {
                let shown: Option<ResolumeCommand> = match subtitles {
                    Some(lines) => if self.lyrics_state.is_some() {
                        Some(
                            ResolumeCommand::ShowSubtitles {
                                lines,
                                suppress_en: self.cached_suppress_en,
                            },
                        )
                    } else {
                        None
                    },
                    None => None,
                };
                Some(Recovery { video_id, subtitles: shown })
            },
        }
    }
}

/// What a new pipeline is made of.
#[derive(Debug, Clone)]
pub struct PipelinePlan {
    pub ndi_name: String,
    pub genlock_pacing: bool,
    /// How far the preview's audio leads.
    pub lead_ms: u32,
}

/// The pipelines of the playlists. `W` is the lock window of one.
pub struct PlaybackEngine<L, W> {
    pub pipelines: HashMap<i64, PlaylistPipeline<L>>,
    pub lock_windows: HashMap<i64, W>,
    pub genlock_pacing: bool,
}

/// A playlist on record: its output name and whether it is active.
#[derive(Debug, Clone)]
pub struct PlaylistRow {
    pub ndi_output_name: String,
    pub is_active: i64,
}

/// A playlist on record gets a pipeline when it is active and its output has a name.
pub open spec fn wants_pipeline(row: Option<PlaylistRow>) -> bool {
    row matches Some(p) && p.is_active != 0 && p.ndi_output_name@.len() > 0
}

impl<L, W> PlaybackEngine<L, W> {
    pub fn new(genlock_pacing: bool) -> (r: Self)
        ensures
            r.pipelines@ == Map::<i64, PlaylistPipeline<L>>::empty(),
            r.lock_windows@ == Map::<i64, W>::empty(),
            r.genlock_pacing == genlock_pacing,
    {
        PlaybackEngine { pipelines: HashMap::new(), lock_windows: HashMap::new(), genlock_pacing }
    }

    /// Every pipeline but that of `id` is the same in `other`.
    pub open spec fn same_but(self, other: Self, id: i64) -> bool {
        &&& self.pipelines@.remove(id) == other.pipelines@.remove(id)
        &&& self.lock_windows@ == other.lock_windows@
        &&& self.genlock_pacing == other.genlock_pacing
    }

    /// `after` is this engine with a pipeline for `id`: the one it had, or a fresh
    /// one, which is then to be made by `plan`.
    pub open spec fn ensures_pipeline(
        self,
        id: i64,
        name: Seq<char>,
        after: Self,
        plan: Option<PipelinePlan>,
    ) -> bool {
        &&& after.same_but(self, id)
        &&& after.pipelines@.contains_key(id)
        &&& if self.pipelines@.contains_key(id) {
            &&& plan is None
            &&& after.pipelines@ == self.pipelines@
        } else {
            &&& after.pipelines@[id].is_fresh()
            &&& plan matches Some(p)
            &&& p.ndi_name@ == name
            &&& p.genlock_pacing == self.genlock_pacing
            &&& p.lead_ms == if self.genlock_pacing {
                0
            } else {
                crate::preview_stream::AUDIO_LOOKAHEAD_MS
            }
        }
    }

    /// See that the playlist has a pipeline. A plan comes back when one has to be
    /// made; a pipeline that exists stays as it is.
    pub fn ensure_pipeline(&mut self, playlist_id: i64, ndi_name: &str) -> (r: Option<PipelinePlan>)
        ensures
            old(self).ensures_pipeline(playlist_id, ndi_name@, *final(self), r),
    {
        if self.pipelines.contains_key(&playlist_id) {
            return None;
        }
        let ghost before = self.pipelines@;
        self.pipelines.insert(playlist_id, PlaylistPipeline::new());
        assert(self.pipelines@.remove(playlist_id) =~= before.remove(playlist_id));
        Some(
            PipelinePlan {
                ndi_name: String::from_str(ndi_name),
                genlock_pacing: self.genlock_pacing,
                lead_ms: lead_ms_for(self.genlock_pacing),
            },
        )
    }

    /// See that a playlist that was created or activated has a pipeline, by what is
    /// on record of it. Nothing for one that is not on record, inactive, or without
    /// an output name.
    pub fn ensure_pipeline_for_playlist(
        &mut self,
        playlist_id: i64,
        row: Option<PlaylistRow>,
    ) -> (r: Option<PipelinePlan>)
        ensures
            wants_pipeline(row) ==> old(self).ensures_pipeline(
                playlist_id,
                row->0.ndi_output_name@,
                *final(self),
                r,
            ),
            !wants_pipeline(row) ==> r is None && *final(self) == *old(self),
    {
        match row {
            None => None,
            Some(p) => if p.is_active != 0 && p.ndi_output_name.as_str().unicode_len() > 0 {
                self.ensure_pipeline(playlist_id, p.ndi_output_name.as_str())
            } else {
                None
            },
        }
    }

    /// `after` is this engine without the pipeline of `id`.
    pub open spec fn removes(self, id: i64, after: Self) -> bool {
        &&& after.pipelines@ == self.pipelines@.remove(id)
        &&& after.lock_windows@ == if self.pipelines@.contains_key(id) {
            self.lock_windows@.remove(id)
        } else {
            self.lock_windows@
        }
        &&& after.genlock_pacing == self.genlock_pacing
    }

    /// Take the playlist's pipeline and its lock window away; whether there was one.
    pub fn remove_pipeline(&mut self, playlist_id: i64) -> (r: bool)
        ensures
            r == old(self).pipelines@.contains_key(playlist_id),
            old(self).removes(playlist_id, *final(self)),
            final(self).pipelines@ == old(self).pipelines@.remove(playlist_id),
            final(self).lock_windows@ == if r {
                old(self).lock_windows@.remove(playlist_id)
            } else {
                old(self).lock_windows@
            },
            final(self).genlock_pacing == old(self).genlock_pacing,
    {
        match self.pipelines.remove(&playlist_id) {
            Some(_) => {
                self.lock_windows.remove(&playlist_id);
                true
            },
            None => false,
        }
    }

    /// Send what changed in a playlist's lyrics. Nothing for a playlist without a
    /// pipeline.
    pub fn dispatch_lyrics_if_changed(&mut self, playlist_id: i64, lines: LyricsLines) -> (r:
        LyricsDispatch)
        ensures
            final(self).same_but(*old(self), playlist_id),
            final(self).pipelines@.dom() == old(self).pipelines@.dom(),
            if old(self).pipelines@.contains_key(playlist_id) {
                old(self).pipelines@[playlist_id].dispatches(
                    lines,
                    final(self).pipelines@[playlist_id],
                    r,
                )
            } else {
                !r.ws && r.resolume is None && r.presenter is None
            },
    {
        let ghost before = self.pipelines@;
        match self.pipelines.remove(&playlist_id) {
            Some(mut pp) => {
                let sent: LyricsDispatch = pp.dispatch_lyrics(lines);
                self.pipelines.insert(playlist_id, pp);
                assert(self.pipelines@.remove(playlist_id) =~= before.remove(playlist_id));
                assert(self.pipelines@.dom() =~= before.dom());
                sent
            },
            None => {
                assert(self.pipelines@ =~= before);
                LyricsDispatch { ws: false, resolume: None, presenter: None }
            },
        }
    }

    /// `after` is this engine once the presenter shows `text` for playlist `id`.
    pub open spec fn notes_presenter(self, id: i64, text: Option<String>, after: Self) -> bool {
        &&& after.pipelines@.dom() == self.pipelines@.dom()
        &&& after.pipelines@.remove(id) == self.pipelines@.remove(id)
        &&& self.pipelines@.contains_key(id) ==> after.pipelines@[id] == (PlaylistPipeline {
            last_presenter_text: text,
            ..self.pipelines@[id]
        })
    }

    /// The presenter shows `text` for the playlist.
    pub fn presenter_shows(&mut self, playlist_id: i64, text: Option<String>)
        ensures
            old(self).notes_presenter(playlist_id, text, *final(self)),
            final(self).lock_windows@ == old(self).lock_windows@,
            final(self).genlock_pacing == old(self).genlock_pacing,
            final(self).pipelines@ == if old(self).pipelines@.contains_key(playlist_id) {
                old(self).pipelines@.insert(
                    playlist_id,
                    (PlaylistPipeline {
                        last_presenter_text: text,
                        ..old(self).pipelines@[playlist_id]
                    }),
                )
            } else {
                old(self).pipelines@
            },
    {
        let ghost before = self.pipelines@;
        match self.pipelines.remove(&playlist_id) {
            Some(mut pp) => {
                pp.last_presenter_text = text;
                self.pipelines.insert(playlist_id, pp);
                assert(self.pipelines@.dom() =~= before.dom());
                assert(self.pipelines@.remove(playlist_id) =~= before.remove(playlist_id));
                assert(self.pipelines@ =~= before.insert(playlist_id, pp));
            },
            None => {
                assert(self.pipelines@ =~= before);
            },
        }
    }

    /// The position broadcast of a playlist, when one is due. Nothing for a playlist
    /// without a pipeline.
    pub fn maybe_broadcast_position_update(
        &mut self,
        playlist_id: i64,
        position_ms: u64,
        duration_ms: u64,
        now_ms: u64,
    ) -> (r: Option<NowPlaying>)
        ensures
            final(self).lock_windows@ == old(self).lock_windows@,
            final(self).genlock_pacing == old(self).genlock_pacing,
            !old(self).pipelines@.contains_key(playlist_id) ==> r is None
                && final(self).pipelines@ == old(self).pipelines@,
            old(self).pipelines@.contains_key(playlist_id) ==> {
                let pp = old(self).pipelines@[playlist_id];
                &&& final(self).pipelines@ == old(self).pipelines@.insert(
                    playlist_id,
                    pp.after_position(now_ms),
                )
                &&& r is Some <==> pp.broadcast_due(now_ms) && pp.current_video_id is Some
                &&& r matches Some(msg) ==> pp.announces(
                    playlist_id,
                    position_ms,
                    duration_ms,
                    msg,
                )
                &&& r matches Some(msg) ==> {
                    &&& msg.playlist_id == playlist_id
                    &&& Some(msg.video_id) == pp.current_video_id
                    &&& msg.song@ == pp.cached_song@
                    &&& msg.artist@ == pp.cached_artist@
                    &&& msg.position_ms == position_ms
                    &&& msg.duration_ms == if duration_ms > 0 {
                        duration_ms
                    } else {
                        pp.cached_duration_ms
                    }
                }
            },
    {
        let ghost before = self.pipelines@;
        match self.pipelines.remove(&playlist_id) {
            Some(mut pp) => {
                let msg: Option<NowPlaying> = pp.position_update(
                    playlist_id,
                    position_ms,
                    duration_ms,
                    now_ms,
                );
                self.pipelines.insert(playlist_id, pp);
                assert(self.pipelines@ =~= before.insert(playlist_id, pp));
                msg
            },
            None => {
                assert(self.pipelines@ =~= before);
                None
            },
        }
    }

    /// The playlists that have a pipeline, in no particular order.
    fn playlist_ids(&self) -> (r: Vec<i64>)
        ensures
            r@.no_duplicates(),
            forall|id: i64| #[trigger]
                r@.contains(id) <==> self.pipelines@.contains_key(id),
    {
        let mut ids: Vec<i64> = Vec::new();
        for id in it: self.pipelines.keys()
            invariant
                it.seq().unref().to_set() == self.pipelines@.dom(),
                it.seq().no_duplicates(),
                ids@.len() == it.index(),
                forall|i: int| 0 <= i < ids@.len() ==> #[trigger] ids@[i] == *it.seq()[i],
                it.index() == it.seq().len() ==> ids@ == it.seq().unref(),
        {
            ids.push(*id);
            assert(it.index() + 1 == it.seq().len() ==> ids@ =~= it.seq().unref());
        }
        assert(ids@.to_set() == self.pipelines@.dom());
        assert forall|id: i64| #[trigger] ids@.contains(id) <==> self.pipelines@.contains_key(
            id,
        ) by {
            assert(ids@.to_set().contains(id) <==> ids@.contains(id));
        }
        ids
    }

    /// The playlists a recovered wall is shown, with the video of each, in no
    /// particular order.
    pub fn recovery_targets(&self) -> (r: Vec<(i64, i64)>)
        ensures
            r@.no_duplicates(),
            forall|id: i64, video: i64| #[trigger]
                r@.contains((id, video)) <==> self.pipelines@.contains_key(id)
                    && self.pipelines@[id].recovers() == Some(video),
    {
        let ids: Vec<i64> = self.playlist_ids();
        let mut out: Vec<(i64, i64)> = Vec::new();
        let mut i: usize = 0;
        while i < ids.len()
            invariant
                i <= ids@.len(),
                ids@.no_duplicates(),
                forall|id: i64| #[trigger]
                    ids@.contains(id) <==> self.pipelines@.contains_key(id),
                out@.no_duplicates(),
                forall|j: int|
                    0 <= j < out@.len() ==> {
                        let target = #[trigger] out@[j];
                        &&& ids@.take(i as int).contains(target.0)
                        &&& self.pipelines@[target.0].recovers() == Some(target.1)
                    },
                forall|k: int|
                    0 <= k < i && self.pipelines@[#[trigger] ids@[k]].recovers() is Some
                        ==> out@.contains(
                        (ids@[k], self.pipelines@[ids@[k]].recovers()->0),
                    ),
            decreases ids@.len() - i,
        {
            let id: i64 = ids[i];
            let ghost taken = ids@.take(i as int);
            let ghost before = out@;
            assert(ids@.contains(id));
            assert(ids@.take(i + 1) =~= taken.push(id));
            assert(!taken.contains(id));
            assert forall|x: i64| taken.contains(x) implies #[trigger] taken.push(id).contains(
                x,
            ) by {
                let at = choose|at: int| 0 <= at < taken.len() && taken[at] == x;
                assert(taken.push(id)[at] == x);
            }
            assert(taken.push(id)[i as int] == id);
            if let Some(pp) = self.pipelines.get(&id) {
                if let Some(video_id) = pp.recovery_video() {
                    out.push((id, video_id));
                    assert(out@[before.len() as int] == (id, video_id));
                }
            }
            assert forall|k: int|
                0 <= k < i + 1 && self.pipelines@[#[trigger] ids@[k]].recovers() is Some implies out@.contains(
            (ids@[k], self.pipelines@[ids@[k]].recovers()->0)) by {
                if k < i {
                    let t = (ids@[k], self.pipelines@[ids@[k]].recovers()->0);
                    assert(before.contains(t));
                    let at = choose|at: int| 0 <= at < before.len() && before[at] == t;
                    assert(out@[at] == t);
                }
            }
            i = i + 1;
        }
        proof {
            assert(ids@.take(i as int) =~= ids@);
            assert forall|id: i64, video: i64| #[trigger]
                out@.contains((id, video)) <==> self.pipelines@.contains_key(id)
                    && self.pipelines@[id].recovers() == Some(video) by {
                if self.pipelines@.contains_key(id) && self.pipelines@[id].recovers() == Some(
                    video,
                ) {
                    assert(ids@.contains(id));
                    let k = choose|k: int| 0 <= k < ids@.len() && ids@[k] == id;
                    assert(self.pipelines@[ids@[k]].recovers() is Some);
                }
            }
        }
        out
    }
}

/// The same lines go out once: when the lyrics still say what was sent, the karaoke
/// view and the wall get nothing.
pub proof fn law_same_lines_are_sent_once<L>(
    before: PlaylistPipeline<L>,
    lines: LyricsLines,
    between: PlaylistPipeline<L>,
    sent: LyricsDispatch,
    after: PlaylistPipeline<L>,
    again: LyricsDispatch,
)
    requires
        before.dispatches(lines, between, sent),
        between.dispatches(lines, after, again),
    ensures
        !again.ws,
        again.resolume is None,
{
}

/// A playlist that is off program never touches the wall.
pub proof fn law_off_program_leaves_the_wall<L>(
    before: PlaylistPipeline<L>,
    lines: LyricsLines,
    after: PlaylistPipeline<L>,
    sent: LyricsDispatch,
)
    requires
        before.dispatches(lines, after, sent),
        !before.scene_active,
    ensures
        sent.resolume is None,
        text_of(after.last_resolume_subtitles_signature) == text_of(
            before.last_resolume_subtitles_signature,
        ),
{
}

/// Two broadcasts are at least half a second apart: after one at `t` none is due
/// before that, nor with a clock that went backward.
pub proof fn law_broadcasts_are_half_a_second_apart<L>(
    before: PlaylistPipeline<L>,
    t: u64,
    now: u64,
)
    requires
        before.broadcast_due(t),
        now < t + POSITION_BROADCAST_INTERVAL_MS,
    ensures
        !before.after_position(t).broadcast_due(now),
        before.after_position(t).after_position(now) == before.after_position(t),
{
}

/// Seeing twice that a playlist has a pipeline makes one pipeline.
pub proof fn law_ensuring_twice_makes_one<L, W>(
    before: PlaybackEngine<L, W>,
    id: i64,
    name: Seq<char>,
    between: PlaybackEngine<L, W>,
    plan: Option<PipelinePlan>,
    other_name: Seq<char>,
    after: PlaybackEngine<L, W>,
    again: Option<PipelinePlan>,
)
    requires
        before.ensures_pipeline(id, name, between, plan),
        between.ensures_pipeline(id, other_name, after, again),
    ensures
        again is None,
        after.pipelines@ == between.pipelines@,
{
}

/// On program, the wall is sent the very lines that the lyrics say, with the
/// playlist's own choice of languages, or is cleared between lines; it is sent
/// something whenever it shows anything else.
pub proof fn law_the_wall_gets_the_lines<L>(
    before: PlaylistPipeline<L>,
    lines: LyricsLines,
    after: PlaylistPipeline<L>,
    sent: LyricsDispatch,
)
    requires
        before.dispatches(lines, after, sent),
        before.has_lines(),
    ensures
        sent.resolume matches Some(ResolumeCommand::ShowSubtitles { lines: shown, suppress_en })
            ==> lines.subtitles == Some(shown) && suppress_en == before.cached_suppress_en,
        sent.resolume matches Some(ResolumeCommand::HideSubtitles) ==> lines.subtitles is None,
        sent.resolume is Some ==> before.scene_active,
        before.scene_active && text_of(before.last_resolume_subtitles_signature) != text_of(
            after.last_resolume_subtitles_signature,
        ) ==> sent.resolume is Some,
        before.scene_active && before.last_resolume_subtitles_signature is None
            ==> sent.resolume is Some,
{
}

/// The presenter is pushed every line it is due, as the lyrics say it: the current
/// line as current, the next as next, with the song and the artist on record and the
/// line it has; what it has is not known until it says so.
pub proof fn law_the_presenter_gets_its_line<L>(
    before: PlaylistPipeline<L>,
    lines: LyricsLines,
    after: PlaylistPipeline<L>,
    sent: LyricsDispatch,
    current: String,
    next: String,
)
    requires
        before.dispatches(lines, after, sent),
        before.has_lines(),
        lines.presenter == Some((current, next)),
    ensures
        sent.presenter matches Some(push) && push.current@ == current@ && push.next@ == next@
            && push.song@ == before.cached_song@ && push.artist@ == before.cached_artist@
            && text_of(push.last_seen) == text_of(before.last_presenter_text),
        after.last_presenter_text is None,
{
}

/// The karaoke view is sent a line exactly when it has another, or had none.
pub proof fn law_the_karaoke_view_gets_new_lines<L>(
    before: PlaylistPipeline<L>,
    lines: LyricsLines,
    after: PlaylistPipeline<L>,
    sent: LyricsDispatch,
)
    requires
        before.dispatches(lines, after, sent),
        before.has_lines(),
    ensures
        sent.ws <==> text_of(before.last_lyrics_ws_signature) != text_of(
            after.last_lyrics_ws_signature,
        ),
        text_of(after.last_lyrics_ws_signature) == text_of(lines.ws_line),
{
}

/// Without a song, or without lyrics for it, nothing is sent and nothing changes.
pub proof fn law_nothing_is_sent_without_lyrics<L>(
    before: PlaylistPipeline<L>,
    lines: LyricsLines,
    after: PlaylistPipeline<L>,
    sent: LyricsDispatch,
)
    requires
        before.dispatches(lines, after, sent),
        before.lyrics_state is None || before.current_video_id is None,
    ensures
        !sent.ws,
        sent.resolume is None,
        sent.presenter is None,
        after == before,
{
}

proof fn lemma_en_is_in_the_signature(a: SubtitleLines, b: SubtitleLines, suppress_en: bool)
    requires
        signature_of(Some(a), suppress_en) == signature_of(Some(b), suppress_en),
        a.next_en@ == b.next_en@,
        a.sk == b.sk,
        a.next_sk == b.next_sk,
    ensures
        a.en@ == b.en@,
{
    let choice = if suppress_en {
        "true"@
    } else {
        "false"@
    };
    let bar = "|"@;
    let head = "show|"@;
    let tail = bar + a.next_en@ + bar + text_or_empty(a.sk) + bar + text_or_empty(a.next_sk) + bar + choice;
    assert(signature_of(Some(a), suppress_en) =~= head + a.en@ + tail);
    assert(signature_of(Some(b), suppress_en) =~= head + b.en@ + tail);
    crate::text::lemma_same_middle(head, a.en@, b.en@, tail);
}

proof fn lemma_next_en_is_in_the_signature(a: SubtitleLines, b: SubtitleLines, suppress_en: bool)
    requires
        signature_of(Some(a), suppress_en) == signature_of(Some(b), suppress_en),
        a.en@ == b.en@,
        a.sk == b.sk,
        a.next_sk == b.next_sk,
    ensures
        a.next_en@ == b.next_en@,
{
    let choice = if suppress_en {
        "true"@
    } else {
        "false"@
    };
    let bar = "|"@;
    let head = "show|"@ + a.en@ + bar;
    let tail = bar + text_or_empty(a.sk) + bar + text_or_empty(a.next_sk) + bar + choice;
    assert(signature_of(Some(a), suppress_en) =~= head + a.next_en@ + tail);
    assert(signature_of(Some(b), suppress_en) =~= head + b.next_en@ + tail);
    crate::text::lemma_same_middle(head, a.next_en@, b.next_en@, tail);
}

proof fn lemma_sk_is_in_the_signature(a: SubtitleLines, b: SubtitleLines, suppress_en: bool)
    requires
        signature_of(Some(a), suppress_en) == signature_of(Some(b), suppress_en),
        a.en@ == b.en@,
        a.next_en@ == b.next_en@,
        a.next_sk == b.next_sk,
    ensures
        text_or_empty(a.sk) == text_or_empty(b.sk),
{
    let choice = if suppress_en {
        "true"@
    } else {
        "false"@
    };
    let bar = "|"@;
    let head = "show|"@ + a.en@ + bar + a.next_en@ + bar;
    let tail = bar + text_or_empty(a.next_sk) + bar + choice;
    assert(signature_of(Some(a), suppress_en) =~= head + text_or_empty(a.sk) + tail);
    assert(signature_of(Some(b), suppress_en) =~= head + text_or_empty(b.sk) + tail);
    crate::text::lemma_same_middle(head, text_or_empty(a.sk), text_or_empty(b.sk), tail);
}

proof fn lemma_next_sk_is_in_the_signature(a: SubtitleLines, b: SubtitleLines, suppress_en: bool)
    requires
        signature_of(Some(a), suppress_en) == signature_of(Some(b), suppress_en),
        a.en@ == b.en@,
        a.next_en@ == b.next_en@,
        a.sk == b.sk,
    ensures
        text_or_empty(a.next_sk) == text_or_empty(b.next_sk),
{
    let choice = if suppress_en {
        "true"@
    } else {
        "false"@
    };
    let bar = "|"@;
    let head = "show|"@ + a.en@ + bar + a.next_en@ + bar + text_or_empty(a.sk) + bar;
    let tail = bar + choice;
    assert(signature_of(Some(a), suppress_en) =~= head + text_or_empty(a.next_sk) + tail);
    assert(signature_of(Some(b), suppress_en) =~= head + text_or_empty(b.next_sk) + tail);
    crate::text::lemma_same_middle(head, text_or_empty(a.next_sk), text_or_empty(b.next_sk), tail);
}

/// Lines that differ in one text are told apart, whichever it is.
pub proof fn law_other_lines_have_another_signature(
    a: SubtitleLines,
    b: SubtitleLines,
    suppress_en: bool,
)
    requires
        signature_of(Some(a), suppress_en) == signature_of(Some(b), suppress_en),
    ensures
        a.next_en@ == b.next_en@ && a.sk == b.sk && a.next_sk == b.next_sk ==> a.en@ == b.en@,
        a.en@ == b.en@ && a.sk == b.sk && a.next_sk == b.next_sk ==> a.next_en@ == b.next_en@,
        a.en@ == b.en@ && a.next_en@ == b.next_en@ && a.next_sk == b.next_sk ==> text_or_empty(
            a.sk,
        ) == text_or_empty(b.sk),
        a.en@ == b.en@ && a.next_en@ == b.next_en@ && a.sk == b.sk ==> text_or_empty(a.next_sk)
            == text_or_empty(b.next_sk),
{
    if a.next_en@ == b.next_en@ && a.sk == b.sk && a.next_sk == b.next_sk {
        lemma_en_is_in_the_signature(a, b, suppress_en);
    }
    if a.en@ == b.en@ && a.sk == b.sk && a.next_sk == b.next_sk {
        lemma_next_en_is_in_the_signature(a, b, suppress_en);
    }
    if a.en@ == b.en@ && a.next_en@ == b.next_en@ && a.next_sk == b.next_sk {
        lemma_sk_is_in_the_signature(a, b, suppress_en);
    }
    if a.en@ == b.en@ && a.next_en@ == b.next_en@ && a.sk == b.sk {
        lemma_next_sk_is_in_the_signature(a, b, suppress_en);
    }
}

/// The choice of languages is part of what identifies lines, and no lines at all are
/// told from any lines.
pub proof fn law_the_language_is_part_of_the_signature(lines: SubtitleLines, suppress_en: bool)
    ensures
        signature_of(Some(lines), true) != signature_of(Some(lines), false),
        signature_of(Some(lines), suppress_en) != signature_of(None, suppress_en),
{
    reveal_strlit("true");
    reveal_strlit("false");
    reveal_strlit("hide");
    reveal_strlit("show|");
    let (a, b) = (signature_of(Some(lines), true), signature_of(Some(lines), false));
    assert(a.len() + 1 == b.len());
    assert(signature_of(Some(lines), suppress_en)[0] == 's');
    assert(signature_of(None, suppress_en)[0] == 'h');
}

/// A recovered wall is shown exactly the videos that play on program.
pub proof fn law_recovery_shows_what_plays_on_program<L>(pp: PlaylistPipeline<L>, video_id: i64)
    ensures
        pp.recovers() == Some(video_id) <==> pp.scene_active && pp.state == (PlayState::Playing {
            video_id,
        }),
{
}

/// A broadcast is due exactly where none was made, or half a second after the last.
pub proof fn law_when_a_broadcast_is_due<L>(pp: PlaylistPipeline<L>, now: u64)
    ensures
        pp.broadcast_due(now) <==> (pp.last_now_playing_broadcast matches Some(t) ==> now >= t
            + 500),
        pp.broadcast_due(now) ==> pp.after_position(now).last_now_playing_broadcast == Some(now),
        !pp.broadcast_due(now) ==> pp.after_position(now) == pp,
        pp.after_position(now).same_song(
            (PlaylistPipeline {
                last_now_playing_broadcast: pp.after_position(now).last_now_playing_broadcast,
                ..pp
            }),
        ),
{
}

/// A playlist that has no pipeline gets a fresh one, planned under the name that was
/// asked for and on the engine's own clocking; on the grid its preview audio does not
/// lead. The other playlists keep theirs.
pub proof fn law_a_new_pipeline_is_planned_as_asked<L, W>(
    before: PlaybackEngine<L, W>,
    id: i64,
    name: Seq<char>,
    after: PlaybackEngine<L, W>,
    plan: Option<PipelinePlan>,
    other: i64,
)
    requires
        before.ensures_pipeline(id, name, after, plan),
    ensures
        plan is Some <==> !before.pipelines@.contains_key(id),
        plan matches Some(p) ==> p.ndi_name@ == name && p.genlock_pacing == before.genlock_pacing
            && (p.lead_ms == 0 <==> before.genlock_pacing),
        after.pipelines@.contains_key(id),
        plan is Some ==> after.pipelines@[id].is_fresh(),
        other != id ==> (before.pipelines@.contains_key(other) <==> after.pipelines@.contains_key(
            other,
        )),
        before.pipelines@.contains_key(other) ==> after.pipelines@[other]
            == before.pipelines@[other],
{
    if other != id {
        assert(before.pipelines@.remove(id).contains_key(other)
            == after.pipelines@.remove(id).contains_key(other));
        assert(before.pipelines@.remove(id)[other] == after.pipelines@.remove(id)[other]);
    }
}

/// A broadcast names the playlist it is of and its song as it is on record, the position
/// as it is, and the duration of the file; where the file has none, the one on record.
pub proof fn law_a_broadcast_names_its_song<L>(
    pp: PlaylistPipeline<L>,
    playlist_id: i64,
    position_ms: u64,
    duration_ms: u64,
    msg: NowPlaying,
)
    requires
        pp.announces(playlist_id, position_ms, duration_ms, msg),
    ensures
        msg.playlist_id == playlist_id,
        pp.current_video_id == Some(msg.video_id),
        msg.song@ == pp.cached_song@,
        msg.artist@ == pp.cached_artist@,
        msg.position_ms == position_ms,
        duration_ms > 0 ==> msg.duration_ms == duration_ms,
        duration_ms == 0 ==> msg.duration_ms == pp.cached_duration_ms,
{
}

/// A playlist that was removed has neither a pipeline nor, where it had one, a lock
/// window; it can get a fresh pipeline again, and the other playlists keep theirs.
pub proof fn law_a_removed_playlist_begins_anew<L, W>(
    before: PlaybackEngine<L, W>,
    id: i64,
    between: PlaybackEngine<L, W>,
    name: Seq<char>,
    after: PlaybackEngine<L, W>,
    plan: Option<PipelinePlan>,
    other: i64,
)
    requires
        before.removes(id, between),
        between.ensures_pipeline(id, name, after, plan),
    ensures
        !between.pipelines@.contains_key(id),
        before.pipelines@.contains_key(id) ==> !between.lock_windows@.contains_key(id),
        plan is Some,
        after.pipelines@[id].is_fresh(),
        other != id ==> (before.pipelines@.contains_key(other) <==> between.pipelines@.contains_key(
            other,
        )),
        other != id && before.pipelines@.contains_key(other) ==> between.pipelines@[other]
            == before.pipelines@[other],
        other != id ==> (before.lock_windows@.contains_key(other)
            <==> between.lock_windows@.contains_key(other)),
        between.genlock_pacing == before.genlock_pacing,
{
}

/// A playlist on record wants a pipeline exactly when it is active and its output has a
/// name.
pub proof fn law_which_playlists_want_a_pipeline(row: PlaylistRow)
    ensures
        row.is_active == 0 ==> !wants_pipeline(Some(row)),
        row.ndi_output_name@ == Seq::<char>::empty() ==> !wants_pipeline(Some(row)),
        row.is_active != 0 && row.ndi_output_name@ != Seq::<char>::empty() ==> wants_pipeline(
            Some(row),
        ),
        !wants_pipeline(None),
{
    if row.ndi_output_name@.len() == 0 {
        assert(row.ndi_output_name@ =~= Seq::<char>::empty());
    }
}

/// A recovered wall is shown the title of what plays on program, and its lines exactly
/// where the lyrics have some, as they are and in the playlist's languages.
pub proof fn law_what_a_recovered_wall_is_shown<L>(
    pp: PlaylistPipeline<L>,
    subtitles: Option<SubtitleLines>,
    r: Option<Recovery>,
)
    requires
        call_ensures(PlaylistPipeline::<L>::recovery, (&pp, subtitles), r),
    ensures
        r is Some <==> pp.scene_active && pp.state is Playing,
        r matches Some(shown) ==> pp.state == (PlayState::Playing { video_id: shown.video_id }) && (
        shown.subtitles is Some <==> pp.lyrics_state is Some && subtitles is Some),
        r matches Some(shown) ==> (shown.subtitles matches Some(cmd) ==> (
        cmd matches ResolumeCommand::ShowSubtitles { lines, suppress_en } && Some(lines) == subtitles
            && suppress_en == pp.cached_suppress_en)),
{
}

/// What the presenter shows comes back to it: the next line that is pushed says that it
/// has the text it reported last.
pub proof fn law_the_presenter_is_told_what_it_shows<L, W>(
    before: PlaybackEngine<L, W>,
    id: i64,
    text: Option<String>,
    between: PlaybackEngine<L, W>,
    lines: LyricsLines,
    after: PlaylistPipeline<L>,
    sent: LyricsDispatch,
)
    requires
        before.notes_presenter(id, text, between),
        before.pipelines@.contains_key(id),
        before.pipelines@[id].has_lines(),
        between.pipelines@[id].dispatches(lines, after, sent),
        lines.presenter is Some,
    ensures
        sent.presenter matches Some(push) && text_of(push.last_seen) == text_of(text),
{
}

} // verus!
