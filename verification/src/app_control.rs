//! Transport, recording, view switching, undo/redo, track creation and
//! the placing of imported or recorded clips.

use vstd::prelude::*;
use crate::app_data::{AppData, armed_ids, only_transport_changed, rest_same};
use crate::browser::{BrowserFilter, BrowserState, is_audio_extension, is_midi_extension};
use crate::commands::EngineCommand;
use crate::editor_state::{ActiveView, ArrangementState, Effect, PianoRollState, TransportState, send_all, sends};
use crate::ids::{ClipId, TrackId, is_v4_uuid};
use crate::project::{ProjectView, first_match, is_first_match, lemma_first_match, lemma_no_match};
use crate::selection::ClipSelection;
use crate::snap::SnapGrid;
use crate::track::{ClipState, ClipView, TrackKind, TrackState, TrackView, new_track_view};
use crate::undo::{UndoRecord, pushed};
use crate::undo_actions::{AddTrackAction, with_clips};

verus! {

/// The effects of starting to record on the armed tracks.
pub open spec fn record_effects(armed: Seq<TrackId>) -> Seq<Effect> {
    seq![Effect::Send(EngineCommand::Record)] + armed.map_values(|id: TrackId| Effect::StartDiskRecording { track_id: id })
}

/// The effects of stopping the recording of these tracks.
pub open spec fn stop_record_effects(tracks: Seq<TrackId>) -> Seq<Effect> {
    tracks.map_values(|id: TrackId| Effect::StopDiskRecording { track_id: id }) + seq![Effect::Send(EngineCommand::StopRecord)]
}

/// The track an imported audio clip goes to: the selected track if it is an
/// audio track, else the first audio track.
pub open spec fn audio_target(tracks: Seq<TrackView>, selected: Option<TrackId>) -> Option<TrackId> {
    let chosen = match selected {
        Some(id) => first_match(tracks, |t: TrackView| t.id == id && t.kind == TrackKind::Audio),
        None => None,
    };
    match chosen {
        Some(i) => Some(tracks[i].id),
        None => match first_match(tracks, |t: TrackView| t.kind == TrackKind::Audio) {
            Some(i) => Some(tracks[i].id),
            None => None,
        },
    }
}

/// The track an imported MIDI clip goes to: the first MIDI track.
pub open spec fn midi_target(tracks: Seq<TrackView>) -> Option<TrackId> {
    match first_match(tracks, |t: TrackView| t.kind == TrackKind::Midi) {
        Some(i) => Some(tracks[i].id),
        None => None,
    }
}

/// A clip without notes at the given place.
pub open spec fn empty_clip_view(
    id: ClipId,
    track_id: TrackId,
    start_tick: i64,
    duration_ticks: i64,
    name: Seq<char>,
    audio_file: Option<Seq<char>>,
    audio_length_samples: Option<u64>,
    audio_sample_rate: Option<u32>,
) -> ClipView {
    ClipView {
        id,
        track_id,
        start_tick,
        duration_ticks,
        name,
        notes: Seq::empty(),
        audio_file,
        audio_length_samples,
        audio_sample_rate,
    }
}

/// Name and colour of a new track of this kind.
pub open spec fn new_track_name(kind: TrackKind) -> Seq<char> {
    match kind {
        TrackKind::Audio => seq!['A', 'u', 'd', 'i', 'o'],
        TrackKind::Midi => seq!['M', 'I', 'D', 'I'],
    }
}

pub open spec fn new_track_color(kind: TrackKind) -> [u8; 3] {
    match kind {
        TrackKind::Audio => [80, 220, 120],
        TrackKind::Midi => [100, 160, 255],
    }
}

/// Position of the first track matching the predicate.
fn find_track(tracks: &Vec<TrackState>, want_id: Option<TrackId>, want_kind: TrackKind) -> (r: Option<usize>)
    ensures
        ({
            let p = match want_id {
                Some(id) => |t: TrackView| t.id == id && t.kind == want_kind,
                None => |t: TrackView| t.kind == want_kind,
            };
            let v = tracks@.map_values(|t: TrackState| t@);
            match r {
                Some(i) => first_match(v, p) == Some(i as int) && i < tracks@.len() && p(v[i as int]),
                None => first_match(v, p) == None::<int>,
            }
        }),
{
    let ghost p = match want_id {
        Some(id) => |t: TrackView| t.id == id && t.kind == want_kind,
        None => |t: TrackView| t.kind == want_kind,
    };
    let ghost v = tracks@.map_values(|t: TrackState| t@);
    let n = tracks.len();
    for i in 0..n
        invariant
            n == tracks@.len(),
            v == tracks@.map_values(|t: TrackState| t@),
            p == (match want_id {
                Some(id) => |t: TrackView| t.id == id && t.kind == want_kind,
                None => |t: TrackView| t.kind == want_kind,
            }),
            forall|j: int| 0 <= j < i ==> !p(#[trigger] v[j]),
    {
        let t = &tracks[i];
        let hit = t.kind == want_kind && match want_id {
            Some(id) => t.id == id,
            None => true,
        };
        proof {
            assert(v[i as int] == t@);
            assert(hit == p(v[i as int]));
        }
        if hit {
            proof {
                assert(is_first_match(v, p, i as int));
                lemma_first_match(v, p, i as int);
            }
            return Some(i);
        }
    }
    proof {
        lemma_no_match(v, p);
    }
    None
}

impl AppData {
    // -----------------------------------------------------------------------
    // Transport
    // -----------------------------------------------------------------------

    /// Start playback.
    pub fn play(&self) -> (fx: Vec<Effect>)
        ensures
            fx@ == seq![Effect::Send(EngineCommand::Play)],
    {
        vec![Effect::Send(EngineCommand::Play)]
    }

    /// Pause playback.
    pub fn pause(&self) -> (fx: Vec<Effect>)
        ensures
            fx@ == seq![Effect::Send(EngineCommand::Pause)],
    {
        vec![Effect::Send(EngineCommand::Pause)]
    }

    /// Ask the engine to move the playhead.
    pub fn set_position(&self, tick: i64) -> (fx: Vec<Effect>)
        ensures
            fx@ == seq![Effect::Send(EngineCommand::SetPosition(tick))],
    {
        vec![Effect::Send(EngineCommand::SetPosition(tick))]
    }

    /// Pause when playing, play otherwise.
    pub fn toggle_play_pause(&self) -> (fx: Vec<Effect>)
        ensures
            fx@ == seq![Effect::Send(if self.transport.is_playing { EngineCommand::Pause } else { EngineCommand::Play })],
    {
        if self.transport.is_playing {
            vec![Effect::Send(EngineCommand::Pause)]
        } else {
            vec![Effect::Send(EngineCommand::Play)]
        }
    }
}

/// How turning looping on or off changes the state `a` into `b`.
pub open spec fn toggle_loop_result(a: AppData, b: AppData) -> bool {
    &&& b.transport == (TransportState { loop_enabled: !a.transport.loop_enabled, ..a.transport })
    &&& only_transport_changed(a, b)
}

impl AppData {
    /// Turn looping on or off.
    pub fn toggle_loop(&mut self)
        ensures
            toggle_loop_result(*old(self), *final(self)),
    {
        self.transport.loop_enabled = !self.transport.loop_enabled;
    }
}

/// How turning the metronome on or off changes the state `a` into `b`.
pub open spec fn toggle_metronome_result(a: AppData, b: AppData) -> bool {
    &&& b.transport == (TransportState { metronome_enabled: !a.transport.metronome_enabled, ..a.transport })
    &&& only_transport_changed(a, b)
}

impl AppData {
    /// Turn the metronome on or off.
    pub fn toggle_metronome(&mut self)
        ensures
            toggle_metronome_result(*old(self), *final(self)),
    {
        self.transport.metronome_enabled = !self.transport.metronome_enabled;
    }
}

/// How turning playhead following on or off changes the state `a` into `b`.
pub open spec fn toggle_follow_playhead_result(a: AppData, b: AppData) -> bool {
    &&& b.transport == (TransportState { follow_playhead: !a.transport.follow_playhead, ..a.transport })
    &&& only_transport_changed(a, b)
}

impl AppData {
    /// Turn following the playhead on or off.
    pub fn toggle_follow_playhead(&mut self)
        ensures
            toggle_follow_playhead_result(*old(self), *final(self)),
    {
        self.transport.follow_playhead = !self.transport.follow_playhead;
    }
}

/// How setting the loop region changes the state `a` into `b`.
pub open spec fn set_loop_region_result(a: AppData, b: AppData, start: i64, end: i64) -> bool {
    &&& b.transport == (TransportState { loop_start: start, loop_end: end, loop_enabled: true, ..a.transport })
    &&& only_transport_changed(a, b)
}

impl AppData {
    /// Set the loop region and turn looping on.
    pub fn set_loop_region(&mut self, start: i64, end: i64)
        ensures
            set_loop_region_result(*old(self), *final(self), start, end),
    {
        self.transport.loop_start = start;
        self.transport.loop_end = end;
        self.transport.loop_enabled = true;
    }

    /// Take the engine's report of the playhead and play/record status.
    pub fn transport_update(&mut self, position: i64, is_playing: bool, is_recording: bool)
        ensures
            final(self).transport == (TransportState { position, is_playing, is_recording, ..old(self).transport }),
            only_transport_changed(*old(self), *final(self)),
    {
        self.transport.position = position;
        self.transport.is_playing = is_playing;
        self.transport.is_recording = is_recording;
    }
}

/// How starting to record changes the state `a` into `b` with effects `fx`.
pub open spec fn start_recording_result(a: AppData, b: AppData, fx: Seq<Effect>) -> bool {
    &&& armed_ids(a.project@.tracks).len() == 0 ==> b == a && fx.len() == 0
    &&& armed_ids(a.project@.tracks).len() > 0 ==> {
        &&& b.transport == (TransportState {
            record_start_position: Some(a.transport.position),
            recording_tracks: b.transport.recording_tracks,
            ..a.transport
        })
        &&& b.transport.recording_tracks@ == armed_ids(a.project@.tracks)
        &&& fx =~= record_effects(armed_ids(a.project@.tracks))
        &&& only_transport_changed(a, b)
    }
}

impl AppData {
    /// Start recording on the armed tracks: the start position and the
    /// tracks are remembered, the engine told, and disk recording started
    /// for each armed track. Without an armed track nothing happens.
    pub fn start_recording(&mut self) -> (fx: Vec<Effect>)
        ensures
            start_recording_result(*old(self), *final(self), fx@),
    {
        let ghost tv = self.project@.tracks;
        let ghost pred = |t: TrackView| t.record_armed;
        let mut armed: Vec<TrackId> = Vec::new();
        let n = self.project.tracks.len();
        for i in 0..n
            invariant
                n == self.project.tracks@.len(),
                tv == self.project@.tracks,
                pred == (|t: TrackView| t.record_armed),
                armed@ == tv.take(i as int).filter(pred).map_values(|t: TrackView| t.id),
        {
            proof {
                assert(tv.take(i as int + 1) == tv.take(i as int).push(tv[i as int]));
                tv.take(i as int).lemma_filter_push(tv[i as int], pred);
                assert(tv[i as int] == self.project.tracks@[i as int]@);
            }
            if self.project.tracks[i].record_armed {
                armed.push(self.project.tracks[i].id);
            }
            proof {
                assert(armed@ =~= tv.take(i as int + 1).filter(pred).map_values(|t: TrackView| t.id));
            }
        }
        proof {
            assert(tv.take(n as int) == tv);
        }
        if armed.len() == 0 {
            return Vec::new();
        }
        self.transport.record_start_position = Some(self.transport.position);
        let mut fx: Vec<Effect> = vec![Effect::Send(EngineCommand::Record)];
        let m = armed.len();
        for k in 0..m
            invariant
                m == armed@.len(),
                fx@ == seq![Effect::Send(EngineCommand::Record)] + armed@.take(k as int).map_values(
                    |id: TrackId| Effect::StartDiskRecording { track_id: id },
                ),
        {
            fx.push(Effect::StartDiskRecording { track_id: armed[k] });
            proof {
                assert(armed@.take(k as int + 1) == armed@.take(k as int).push(armed@[k as int]));
                assert(fx@ =~= seq![Effect::Send(EngineCommand::Record)] + armed@.take(k as int + 1).map_values(
                    |id: TrackId| Effect::StartDiskRecording { track_id: id },
                ));
            }
        }
        proof {
            assert(armed@.take(m as int) == armed@);
        }
        self.transport.recording_tracks = armed;
        fx
    }

    /// Stop recording when it is active: disk recording stops for each
    /// recording track and the engine is told; the recording tracks are
    /// forgotten.
    pub fn stop_recording_if_active(&mut self) -> (fx: Vec<Effect>)
        ensures
            !old(self).transport.is_recording ==> *final(self) == *old(self) && fx@.len() == 0,
            old(self).transport.is_recording ==> {
                &&& final(self).transport == (TransportState {
                    recording_tracks: final(self).transport.recording_tracks,
                    ..old(self).transport
                })
                &&& final(self).transport.recording_tracks@.len() == 0
                &&& fx@ == stop_record_effects(old(self).transport.recording_tracks@)
                &&& only_transport_changed(*old(self), *final(self))
            },
    {
        if !self.transport.is_recording {
            return Vec::new();
        }
        let mut tracks: Vec<TrackId> = Vec::new();
        std::mem::swap(&mut tracks, &mut self.transport.recording_tracks);
        let mut fx: Vec<Effect> = Vec::new();
        let m = tracks.len();
        for k in 0..m
            invariant
                m == tracks@.len(),
                fx@ == tracks@.take(k as int).map_values(|id: TrackId| Effect::StopDiskRecording { track_id: id }),
        {
            fx.push(Effect::StopDiskRecording { track_id: tracks[k] });
            proof {
                assert(tracks@.take(k as int + 1) == tracks@.take(k as int).push(tracks@[k as int]));
                assert(fx@ =~= tracks@.take(k as int + 1).map_values(|id: TrackId| Effect::StopDiskRecording { track_id: id }));
            }
        }
        proof {
            assert(tracks@.take(m as int) == tracks@);
        }
        fx.push(Effect::Send(EngineCommand::StopRecord));
        proof {
            assert(fx@ =~= stop_record_effects(tracks@));
        }
        fx
    }
}

/// How stopping the transport changes the state `a` into `b` with effects `fx`.
pub open spec fn stop_result(a: AppData, b: AppData, fx: Seq<Effect>) -> bool {
    &&& !a.transport.is_recording ==> b == a
        && fx =~= seq![Effect::Send(EngineCommand::Stop)]
    &&& a.transport.is_recording ==> {
        &&& b.transport == (TransportState {
            recording_tracks: b.transport.recording_tracks,
            ..a.transport
        })
        &&& b.transport.recording_tracks@.len() == 0
        &&& fx =~= stop_record_effects(a.transport.recording_tracks@).push(Effect::Send(EngineCommand::Stop))
        &&& only_transport_changed(a, b)
    }
}

impl AppData {
    /// Stop the transport (ending an active recording first).
    pub fn stop(&mut self) -> (fx: Vec<Effect>)
        ensures
            stop_result(*old(self), *final(self), fx@),
    {
        let mut fx = self.stop_recording_if_active();
        fx.push(Effect::Send(EngineCommand::Stop));
        fx
    }

    /// Take a finished recording's clip into the project: it starts where
    /// recording started (or at 0) and lasts at least one tick; the track
    /// stops counting as recording, and with no track left the start
    /// position is forgotten. Returns the new clip's id.
    pub fn add_recorded_clip(
        &mut self,
        track_id: TrackId,
        name: &str,
        path: &str,
        length_samples: u64,
        sample_rate: u32,
        length_ticks: i64,
    ) -> (r: ClipId)
        ensures
            is_v4_uuid(r.0),
            final(self).project@ == with_clips(old(self).project@, old(self).project@.clips.push(empty_clip_view(
                r,
                track_id,
                match old(self).transport.record_start_position { Some(s) => s, None => 0 },
                if length_ticks > 1 { length_ticks } else { 1 },
                name@,
                Some(path@),
                Some(length_samples),
                Some(sample_rate),
            ))),
            final(self).transport.recording_tracks@ == old(self).transport.recording_tracks@.filter(|t: TrackId| t != track_id),
            final(self).transport.record_start_position == if final(self).transport.recording_tracks@.len() == 0 {
                None
            } else {
                old(self).transport.record_start_position
            },
            final(self).transport.position == old(self).transport.position,
            final(self).transport.is_playing == old(self).transport.is_playing,
            final(self).transport.is_recording == old(self).transport.is_recording,
            final(self).piano_roll == old(self).piano_roll,
            final(self).undo_manager == old(self).undo_manager,
            final(self).arrangement == old(self).arrangement,
            final(self).active_view == old(self).active_view,
            final(self).browser == old(self).browser,
    {
        let start = match self.transport.record_start_position {
            Some(s) => s,
            None => 0,
        };
        let id = ClipId::new();
        let clip = ClipState {
            id,
            track_id,
            start_tick: start,
            duration_ticks: if length_ticks > 1 { length_ticks } else { 1 },
            name: name.to_owned(),
            notes: Vec::new(),
            audio_file: Some(path.to_owned()),
            audio_length_samples: Some(length_samples),
            audio_sample_rate: Some(sample_rate),
        };
        proof {
            assert(clip@.notes =~= Seq::empty());
        }
        self.project.push_clip(clip);
        let ghost pred = |t: TrackId| t != track_id;
        let mut kept: Vec<TrackId> = Vec::new();
        let n = self.transport.recording_tracks.len();
        for i in 0..n
            invariant
                n == self.transport.recording_tracks@.len(),
                pred == (|t: TrackId| t != track_id),
                kept@ == self.transport.recording_tracks@.take(i as int).filter(pred),
        {
            proof {
                let s = self.transport.recording_tracks@;
                assert(s.take(i as int + 1) == s.take(i as int).push(s[i as int]));
                s.take(i as int).lemma_filter_push(s[i as int], pred);
            }
            if self.transport.recording_tracks[i] != track_id {
                kept.push(self.transport.recording_tracks[i]);
            }
        }
        proof {
            assert(self.transport.recording_tracks@.take(n as int) == self.transport.recording_tracks@);
        }
        self.transport.recording_tracks = kept;
        if self.transport.recording_tracks.len() == 0 {
            self.transport.record_start_position = None;
        }
        id
    }

    // -----------------------------------------------------------------------
    // Importing clips
    // -----------------------------------------------------------------------

    /// The track an imported audio clip goes to.
    pub fn audio_target_track(&self) -> (r: Option<TrackId>)
        ensures
            r == audio_target(self.project@.tracks, self.arrangement.selected_track),
    {
        let chosen = match self.arrangement.selected_track {
            Some(id) => find_track(&self.project.tracks, Some(id), TrackKind::Audio),
            None => None,
        };
        match chosen {
            Some(i) => {
                proof {
                    assert(self.project.tracks@[i as int]@ == self.project@.tracks[i as int]);
                }
                Some(self.project.tracks[i].id)
            },
            None => match find_track(&self.project.tracks, None, TrackKind::Audio) {
                Some(i) => {
                    proof {
                        assert(self.project.tracks@[i as int]@ == self.project@.tracks[i as int]);
                    }
                    Some(self.project.tracks[i].id)
                },
                None => None,
            },
        }
    }

    /// Place an imported audio file as a clip at the start of the target
    /// track (at least one tick long). Returns the clip and track ids, or
    /// nothing when there is no audio track.
    pub fn load_audio_clip_into_track(
        &mut self,
        name: &str,
        path: &str,
        length_samples: u64,
        sample_rate: u32,
        length_ticks: i64,
    ) -> (r: Option<(ClipId, TrackId)>)
        ensures
            match audio_target(old(self).project@.tracks, old(self).arrangement.selected_track) {
                None => r is None && *final(self) == *old(self),
                Some(t) => r matches Some((cid, tid)) && tid == t && is_v4_uuid(cid.0) && final(self).project@ == with_clips(
                    old(self).project@,
                    old(self).project@.clips.push(empty_clip_view(
                        cid,
                        t,
                        0,
                        if length_ticks > 1 { length_ticks } else { 1 },
                        name@,
                        Some(path@),
                        Some(length_samples),
                        Some(sample_rate),
                    )),
                ) && final(self).piano_roll == old(self).piano_roll && final(self).undo_manager == old(self).undo_manager
                    && rest_same(*old(self), *final(self)),
            },
    {
        let track_id = match self.audio_target_track() {
            Some(t) => t,
            None => return None,
        };
        let id = ClipId::new();
        let clip = ClipState {
            id,
            track_id,
            start_tick: 0,
            duration_ticks: if length_ticks > 1 { length_ticks } else { 1 },
            name: name.to_owned(),
            notes: Vec::new(),
            audio_file: Some(path.to_owned()),
            audio_length_samples: Some(length_samples),
            audio_sample_rate: Some(sample_rate),
        };
        proof {
            assert(clip@.notes =~= Seq::empty());
        }
        self.project.push_clip(clip);
        Some((id, track_id))
    }

    /// Place an imported MIDI file as a clip at the start of the first MIDI
    /// track (its notes stay with the engine's copy). Returns the clip and
    /// track ids, or nothing when there is no MIDI track.
    pub fn load_midi_clip_into_track(&mut self, duration_ticks: i64, name: &str) -> (r: Option<(ClipId, TrackId)>)
        ensures
            match midi_target(old(self).project@.tracks) {
                None => r is None && *final(self) == *old(self),
                Some(t) => r matches Some((cid, tid)) && tid == t && is_v4_uuid(cid.0) && final(self).project@ == with_clips(
                    old(self).project@,
                    old(self).project@.clips.push(empty_clip_view(cid, t, 0, duration_ticks, name@, None, None, None)),
                ) && final(self).piano_roll == old(self).piano_roll && final(self).undo_manager == old(self).undo_manager
                    && rest_same(*old(self), *final(self)),
            },
    {
        let i = match find_track(&self.project.tracks, None, TrackKind::Midi) {
            Some(i) => i,
            None => return None,
        };
        proof {
            assert(self.project.tracks@[i as int]@ == self.project@.tracks[i as int]);
        }
        let track_id = self.project.tracks[i].id;
        let id = ClipId::new();
        let clip = ClipState {
            id,
            track_id,
            start_tick: 0,
            duration_ticks,
            name: name.to_owned(),
            notes: Vec::new(),
            audio_file: None,
            audio_length_samples: None,
            audio_sample_rate: None,
        };
        proof {
            assert(clip@.notes =~= Seq::empty());
        }
        self.project.push_clip(clip);
        Some((id, track_id))
    }
}

// ---------------------------------------------------------------------------
// Views and selection
// ---------------------------------------------------------------------------

/// How switching the view changes the state `a` into `b`.
pub open spec fn switch_view_result(a: AppData, b: AppData, view: ActiveView) -> bool {
    &&& b == (AppData { active_view: view, ..a })
}

impl AppData {
    /// Switch the main view.
    pub fn switch_view(&mut self, view: ActiveView)
        ensures
            switch_view_result(*old(self), *final(self), view),
    {
        self.active_view = view;
    }
}

/// How opening a clip in the piano roll changes the state `a` into `b`.
pub open spec fn open_piano_roll_result(a: AppData, b: AppData, clip_id: ClipId) -> bool {
    &&& b == (AppData {
        active_view: ActiveView::PianoRoll,
        piano_roll: PianoRollState { active_clip_id: Some(clip_id), ..a.piano_roll },
        ..a
    })
}

impl AppData {
    /// Open a clip in the piano roll.
    pub fn open_piano_roll(&mut self, clip_id: ClipId)
        ensures
            open_piano_roll_result(*old(self), *final(self), clip_id),
    {
        self.piano_roll.active_clip_id = Some(clip_id);
        self.active_view = ActiveView::PianoRoll;
    }
}

/// How selecting a track changes the state `a` into `b`.
pub open spec fn select_track_result(a: AppData, b: AppData, id: TrackId) -> bool {
    &&& b == (AppData {
        arrangement: ArrangementState { selected_track: Some(id), ..a.arrangement },
        ..a
    })
}

impl AppData {
    /// Select a track.
    pub fn select_track(&mut self, id: TrackId)
        ensures
            select_track_result(*old(self), *final(self), id),
    {
        self.arrangement.selected_track = Some(id);
    }
}

/// How replacing the clip selection changes the state `a` into `b`.
pub open spec fn select_clips_result(a: AppData, b: AppData, selection: ClipSelection) -> bool {
    &&& b == (AppData {
        arrangement: ArrangementState { selected_clips: selection, ..a.arrangement },
        ..a
    })
}

impl AppData {
    /// Replace the clip selection.
    pub fn select_clips(&mut self, selection: ClipSelection)
        ensures
            select_clips_result(*old(self), *final(self), selection),
    {
        self.arrangement.selected_clips = selection;
    }
}

/// How choosing the arrangement's snap grid changes the state `a` into `b`.
pub open spec fn set_snap_grid_result(a: AppData, b: AppData, grid: SnapGrid) -> bool {
    &&& b == (AppData {
        arrangement: ArrangementState { snap_grid: grid, ..a.arrangement },
        ..a
    })
}

impl AppData {
    /// Choose the arrangement snap grid.
    pub fn set_snap_grid(&mut self, grid: SnapGrid)
        ensures
            set_snap_grid_result(*old(self), *final(self), grid),
    {
        self.arrangement.snap_grid = grid;
    }
}

/// How showing or hiding the preferences changes the state `a` into `b`.
pub open spec fn set_show_preferences_result(a: AppData, b: AppData, show: bool) -> bool {
    &&& b == (AppData { show_preferences: show, ..a })
}

impl AppData {
    /// Show or hide the preferences panel.
    pub fn set_show_preferences(&mut self, show: bool)
        ensures
            set_show_preferences_result(*old(self), *final(self), show),
    {
        self.show_preferences = show;
    }
}

/// How showing or hiding the browser changes the state `a` into `b`; `shown`
/// tells whether it is now visible.
pub open spec fn toggle_browser_result(a: AppData, b: AppData, shown: bool) -> bool {
    &&& shown == !a.browser.visible
    &&& b == (AppData {
        browser: BrowserState { visible: shown, ..a.browser },
        active_view: if shown { ActiveView::Browser } else { ActiveView::Arrangement },
        ..a
    })
}

impl AppData {
    /// Show or hide the browser; showing it switches to the browser view,
    /// hiding it back to the arrangement. Returns whether it is now shown
    /// (its listing must then be re-read).
    pub fn toggle_browser(&mut self) -> (shown: bool)
        ensures
            toggle_browser_result(*old(self), *final(self), shown),
    {
        self.browser.visible = !self.browser.visible;
        if self.browser.visible {
            self.active_view = ActiveView::Browser;
        } else {
            self.active_view = ActiveView::Arrangement;
        }
        self.browser.visible
    }
}

/// How selecting a browser entry changes the state `a` into `b`.
pub open spec fn browser_select_result(a: AppData, b: AppData, index: usize) -> bool {
    &&& b == (AppData {
        browser: BrowserState { selected_index: Some(index), ..a.browser },
        ..a
    })
}

impl AppData {
    /// Select a browser entry.
    pub fn browser_select(&mut self, index: usize)
        ensures
            browser_select_result(*old(self), *final(self), index),
    {
        self.browser.selected_index = Some(index);
    }
}

/// How choosing the browser's filter changes the state `a` into `b`.
pub open spec fn browser_set_filter_result(a: AppData, b: AppData, filter: BrowserFilter) -> bool {
    &&& b == (AppData {
        browser: BrowserState { filter, ..a.browser },
        ..a
    })
}

impl AppData {
    /// Choose the browser's file filter (the listing must then be re-read).
    pub fn browser_set_filter(&mut self, filter: BrowserFilter)
        ensures
            browser_set_filter_result(*old(self), *final(self), filter),
    {
        self.browser.filter = filter;
    }
}

// ---------------------------------------------------------------------------
// Undo / redo and tracks
// ---------------------------------------------------------------------------

/// How undoing changes the state `a` into `b` with effects `fx`.
pub open spec fn undo_result(a: AppData, b: AppData, fx: Seq<Effect>) -> bool {
    &&& b.undo_manager.depth() == a.undo_manager.depth()
    &&& a.undo_manager.undo_seq().len() == 0 ==> {
        &&& b.undo_manager.undo_seq() == a.undo_manager.undo_seq()
        &&& b.undo_manager.redo_seq() == a.undo_manager.redo_seq()
        &&& b.project@ == a.project@
        &&& fx.len() == 0
    }
    &&& a.undo_manager.undo_seq().len() > 0 ==> {
        let r = a.undo_manager.undo_seq().last();
        &&& b.undo_manager.undo_seq() == a.undo_manager.undo_seq().drop_last()
        &&& b.undo_manager.redo_seq() == a.undo_manager.redo_seq().push(r)
        &&& b.project@ == r.reverted(a.project@)
        &&& fx =~= sends(r.revert_commands(a.project@))
    }
    &&& b.piano_roll == a.piano_roll
    &&& rest_same(a, b)
}

impl AppData {
    /// Undo the latest action (nothing when there is none).
    pub fn undo(&mut self) -> (fx: Vec<Effect>)
        ensures
            undo_result(*old(self), *final(self), fx@),
    {
        let cmds = self.undo_manager.undo(&mut self.project);
        send_all(cmds)
    }

    /// Whether the next redo, if any, can be applied without overflow.
    pub fn redo_fits(&self) -> (r: bool)
        ensures
            r == (self.undo_manager.redo_seq().len() > 0 ==> self.undo_manager.redo_seq().last().can_apply(self.project@)),
    {
        self.undo_manager.redo_fits(&self.project)
    }
}

/// How redoing changes the state `a` into `b` with effects `fx`.
pub open spec fn redo_result(a: AppData, b: AppData, fx: Seq<Effect>) -> bool {
    &&& b.undo_manager.depth() == a.undo_manager.depth()
    &&& a.undo_manager.redo_seq().len() == 0 ==> {
        &&& b.undo_manager.undo_seq() == a.undo_manager.undo_seq()
        &&& b.undo_manager.redo_seq() == a.undo_manager.redo_seq()
        &&& b.project@ == a.project@
        &&& fx.len() == 0
    }
    &&& a.undo_manager.redo_seq().len() > 0 ==> {
        let r = a.undo_manager.redo_seq().last();
        &&& b.undo_manager.undo_seq() == a.undo_manager.undo_seq().push(r)
        &&& b.undo_manager.redo_seq() == a.undo_manager.redo_seq().drop_last()
        &&& b.project@ == r.applied(a.project@)
        &&& fx =~= sends(r.apply_commands(a.project@))
    }
    &&& b.piano_roll == a.piano_roll
    &&& rest_same(a, b)
}

impl AppData {
    /// Redo the latest undone action (nothing when there is none).
    pub fn redo(&mut self) -> (fx: Vec<Effect>)
        requires
            old(self).undo_manager.redo_seq().len() > 0 ==> old(self).undo_manager.redo_seq().last().can_apply(old(self).project@),
        ensures
            redo_result(*old(self), *final(self), fx@),
    {
        let cmds = self.undo_manager.redo(&mut self.project);
        send_all(cmds)
    }

    /// Add a track of the given kind with the given id ("Audio" or "MIDI",
    /// in the kind's colour), recording it for undo.
    pub fn add_track_with_id(&mut self, kind: TrackKind, track_id: TrackId)
        ensures
            final(self).project@ == (ProjectView {
                tracks: old(self).project@.tracks.push(new_track_view(track_id, new_track_name(kind), kind, new_track_color(kind))),
                ..old(self).project@
            }),
            exists|a: AddTrackAction| {
                &&& a.track@ == new_track_view(track_id, new_track_name(kind), kind, new_track_color(kind))
                &&& #[trigger] pushed(old(self).undo_manager, final(self).undo_manager, UndoRecord::AddTrack(a))
            },
            final(self).piano_roll == old(self).piano_roll,
            rest_same(*old(self), *final(self)),
    {
        let track = match kind {
            TrackKind::Audio => TrackState::new_audio(track_id, "Audio", [80, 220, 120]),
            TrackKind::Midi => TrackState::new_midi(track_id, "MIDI", [100, 160, 255]),
        };
        proof {
            reveal_strlit("Audio");
            reveal_strlit("MIDI");
            assert("Audio"@ =~= seq!['A', 'u', 'd', 'i', 'o']);
            assert("MIDI"@ =~= seq!['M', 'I', 'D', 'I']);
        }
        let action = AddTrackAction { track };
        action.apply(&mut self.project);
        let ghost witness = action;
        self.undo_manager.push(UndoRecord::AddTrack(action));
        proof {
            assert(pushed(old(self).undo_manager, self.undo_manager, UndoRecord::AddTrack(witness)));
        }
    }
}

/// How adding a track of a kind changes the state `a` into `b`; `r` is the new track's id.
pub open spec fn add_track_result(a: AppData, b: AppData, kind: TrackKind, r: TrackId) -> bool {
    &&& b.project@ == (ProjectView {
        tracks: a.project@.tracks.push(new_track_view(r, new_track_name(kind), kind, new_track_color(kind))),
        ..a.project@
    })
    &&& exists|act: AddTrackAction| {
        &&& act.track@ == new_track_view(r, new_track_name(kind), kind, new_track_color(kind))
        &&& #[trigger] pushed(a.undo_manager, b.undo_manager, UndoRecord::AddTrack(act))
    }
    &&& is_v4_uuid(r.0)
    &&& b.piano_roll == a.piano_roll
    &&& rest_same(a, b)
}

impl AppData {
    /// Add a track of the given kind under a fresh random id, recording it
    /// for undo. Returns the new id.
    pub fn add_track(&mut self, kind: TrackKind) -> (r: TrackId)
        ensures
            add_track_result(*old(self), *final(self), kind, r),
    {
        let id = TrackId::new();
        self.add_track_with_id(kind, id);
        id
    }
}

/// What activating a browser entry asks of the application.
#[derive(Debug)]
pub enum BrowserActivation {
    /// A directory was entered; its listing must be read.
    EnteredDir,
    /// A MIDI file is to be loaded.
    LoadMidi { path: String, name: String },
    /// An audio file is to be loaded.
    LoadAudio { path: String, name: String },
    /// Nothing to do (no such entry, or an unsupported file).
    Nothing,
}

impl AppData {
    /// Activate (double-click) a browser entry: a directory is entered; a
    /// MIDI or audio file is handed back for loading.
    pub fn browser_activate(&mut self, index: usize) -> (r: BrowserActivation)
        ensures
            index >= old(self).browser.entries@.len() ==> r is Nothing && *final(self) == *old(self),
            index < old(self).browser.entries@.len() ==> {
                let e = old(self).browser.entries@[index as int]@;
                &&& e.is_dir ==> r is EnteredDir && final(self).browser.current_dir@ == e.path
                    && final(self).browser.entries@.len() == 0 && final(self).browser.selected_index is None
                    && final(self).browser.filter == old(self).browser.filter
                    && final(self).browser.visible == old(self).browser.visible
                &&& !e.is_dir ==> *final(self) == *old(self)
                &&& !e.is_dir && is_midi_extension(e.extension) ==> (r matches BrowserActivation::LoadMidi { path, name }
                    && path@ == e.path && name@ == e.name)
                &&& !e.is_dir && !is_midi_extension(e.extension) && is_audio_extension(e.extension)
                    ==> (r matches BrowserActivation::LoadAudio { path, name } && path@ == e.path && name@ == e.name)
                &&& !e.is_dir && !is_midi_extension(e.extension) && !is_audio_extension(e.extension) ==> r is Nothing
            },
            final(self).project == old(self).project,
            final(self).undo_manager == old(self).undo_manager,
            final(self).piano_roll == old(self).piano_roll,
            final(self).transport == old(self).transport,
            final(self).arrangement == old(self).arrangement,
    {
        if index >= self.browser.entries.len() {
            return BrowserActivation::Nothing;
        }
        let entry = self.browser.entries[index].clone();
        if entry.is_dir {
            self.browser.enter_dir(entry.path);
            BrowserActivation::EnteredDir
        } else if entry.is_midi() {
            BrowserActivation::LoadMidi { path: entry.path, name: entry.name }
        } else if entry.is_audio() {
            BrowserActivation::LoadAudio { path: entry.path, name: entry.name }
        } else {
            BrowserActivation::Nothing
        }
    }
}

} // verus!
