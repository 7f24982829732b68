//! The simulated audio engine used when no audio device is open: what it
//! does with each command and which tracks it lets be heard. Elapsed time,
//! the tempo and the meter levels are the application's.

use vstd::prelude::*;
use crate::commands::EngineCommand;
use crate::ids::TrackId;
use crate::project::{first_match, is_first_match, lemma_first_match, lemma_no_match};

verus! {

/// Bit pattern of the single-precision gain 1.0.
pub const UNITY_GAIN_BITS: u32 = 0x3F80_0000;

/// What the simulated engine keeps per track (gain and pan as the bit
/// patterns of their single-precision values).
#[derive(Debug, Clone, Copy, PartialEq, Eq, Structural)]
pub struct MockTrackState {
    pub id: TrackId,
    pub volume_bits: u32,
    pub pan_bits: u32,
    pub mute: bool,
    pub solo: bool,
}

/// The simulated engine's transport and tracks.
#[derive(Debug)]
pub struct MockState {
    pub is_playing: bool,
    pub is_recording: bool,
    pub position: i64,
    pub track_states: Vec<MockTrackState>,
}

/// Mathematical model of the simulated engine.
pub struct MockView {
    pub is_playing: bool,
    pub is_recording: bool,
    pub position: i64,
    pub tracks: Seq<MockTrackState>,
}

impl View for MockState {
    type V = MockView;

    open spec fn view(&self) -> MockView {
        MockView {
            is_playing: self.is_playing,
            is_recording: self.is_recording,
            position: self.position,
            tracks: self.track_states@,
        }
    }
}

/// A track of the simulated engine as it starts: unity gain, centred,
/// neither muted nor soloed.
pub open spec fn fresh_track(id: TrackId) -> MockTrackState {
    MockTrackState { id, volume_bits: UNITY_GAIN_BITS, pan_bits: 0, mute: false, solo: false }
}

/// Entries for this track.
pub open spec fn mock_track_for(id: TrackId) -> spec_fn(MockTrackState) -> bool {
    |t: MockTrackState| t.id == id
}

/// The tracks with the first one of this id changed by `f` (none changed
/// when no track has the id).
pub open spec fn first_edited(ts: Seq<MockTrackState>, id: TrackId, f: spec_fn(MockTrackState) -> MockTrackState) -> Seq<MockTrackState> {
    match first_match(ts, mock_track_for(id)) {
        Some(k) => ts.update(k, f(ts[k])),
        None => ts,
    }
}

impl MockView {
    /// The engine after a command: play clears recording, stop also returns
    /// to the start, record plays and records, a position jump moves the
    /// playhead, and track settings go to the first track of the id. Other
    /// commands change nothing here.
    pub open spec fn after(self, cmd: EngineCommand) -> MockView {
        match cmd {
            EngineCommand::Play => MockView { is_playing: true, is_recording: false, ..self },
            EngineCommand::Stop => MockView { is_playing: false, is_recording: false, position: 0, ..self },
            EngineCommand::Pause => MockView { is_playing: false, ..self },
            EngineCommand::Record => MockView { is_playing: true, is_recording: true, ..self },
            EngineCommand::SetPosition(tick) => MockView { position: tick, ..self },
            EngineCommand::SetTrackVolume { track_id, volume_bits } => MockView {
                tracks: first_edited(self.tracks, track_id, |t: MockTrackState| MockTrackState { volume_bits, ..t }),
                ..self
            },
            EngineCommand::SetTrackPan { track_id, pan_bits } => MockView {
                tracks: first_edited(self.tracks, track_id, |t: MockTrackState| MockTrackState { pan_bits, ..t }),
                ..self
            },
            EngineCommand::SetTrackMute { track_id, mute } => MockView {
                tracks: first_edited(self.tracks, track_id, |t: MockTrackState| MockTrackState { mute, ..t }),
                ..self
            },
            EngineCommand::SetTrackSolo { track_id, solo } => MockView {
                tracks: first_edited(self.tracks, track_id, |t: MockTrackState| MockTrackState { solo, ..t }),
                ..self
            },
            _ => self,
        }
    }

    /// Some track is soloed.
    pub open spec fn any_solo(self) -> bool {
        exists|k: int| 0 <= k < self.tracks.len() && #[trigger] self.tracks[k].solo
    }

    /// The track at `i` is heard: the transport plays, and the track is
    /// neither muted nor silenced by another track's solo.
    pub open spec fn audible(self, i: int) -> bool {
        self.is_playing && !(self.tracks[i].mute || (self.any_solo() && !self.tracks[i].solo))
    }
}

impl MockState {
    /// The engine at rest at the start, with a fresh state for each track.
    pub fn new(track_ids: &Vec<TrackId>) -> (r: Self)
        ensures
            r@ == (MockView {
                is_playing: false,
                is_recording: false,
                position: 0,
                tracks: track_ids@.map_values(|id: TrackId| fresh_track(id)),
            }),
    {
        let mut tracks: Vec<MockTrackState> = Vec::new();
        let n = track_ids.len();
        for k in 0..n
            invariant
                n == track_ids@.len(),
                tracks@ == track_ids@.take(k as int).map_values(|id: TrackId| fresh_track(id)),
        {
            tracks.push(MockTrackState { id: track_ids[k], volume_bits: UNITY_GAIN_BITS, pan_bits: 0, mute: false, solo: false });
            proof {
                assert(tracks@ =~= track_ids@.take(k as int + 1).map_values(|id: TrackId| fresh_track(id)));
            }
        }
        proof {
            assert(track_ids@.take(n as int) == track_ids@);
        }
        MockState { is_playing: false, is_recording: false, position: 0, track_states: tracks }
    }

    /// Position of the first track with this id.
    fn find_track(&self, id: TrackId) -> (r: Option<usize>)
        ensures
            match r {
                Some(k) => first_match(self.track_states@, mock_track_for(id)) == Some(k as int)
                    && k < self.track_states@.len(),
                None => first_match(self.track_states@, mock_track_for(id)) is None,
            },
    {
        let n = self.track_states.len();
        for k in 0..n
            invariant
                n == self.track_states@.len(),
                forall|j: int| 0 <= j < k ==> self.track_states@[j].id != id,
        {
            if self.track_states[k].id == id {
                proof {
                    assert(is_first_match(self.track_states@, mock_track_for(id), k as int));
                    lemma_first_match(self.track_states@, mock_track_for(id), k as int);
                }
                return Some(k);
            }
        }
        proof {
            lemma_no_match(self.track_states@, mock_track_for(id));
        }
        None
    }

    /// Carry out a command.
    pub fn handle_command(&mut self, cmd: EngineCommand)
        ensures
            final(self)@ == old(self)@.after(cmd),
    {
        match cmd {
            EngineCommand::Play => {
                self.is_playing = true;
                self.is_recording = false;
            },
            EngineCommand::Stop => {
                self.is_playing = false;
                self.is_recording = false;
                self.position = 0;
            },
            EngineCommand::Pause => {
                self.is_playing = false;
            },
            EngineCommand::Record => {
                self.is_playing = true;
                self.is_recording = true;
            },
            EngineCommand::SetPosition(tick) => {
                self.position = tick;
            },
            EngineCommand::SetTrackVolume { track_id, volume_bits } => {
                if let Some(k) = self.find_track(track_id) {
                    let t = self.track_states[k];
                    self.track_states.set(k, MockTrackState { volume_bits, ..t });
                }
            },
            EngineCommand::SetTrackPan { track_id, pan_bits } => {
                if let Some(k) = self.find_track(track_id) {
                    let t = self.track_states[k];
                    self.track_states.set(k, MockTrackState { pan_bits, ..t });
                }
            },
            EngineCommand::SetTrackMute { track_id, mute } => {
                if let Some(k) = self.find_track(track_id) {
                    let t = self.track_states[k];
                    self.track_states.set(k, MockTrackState { mute, ..t });
                }
            },
            EngineCommand::SetTrackSolo { track_id, solo } => {
                if let Some(k) = self.find_track(track_id) {
                    let t = self.track_states[k];
                    self.track_states.set(k, MockTrackState { solo, ..t });
                }
            },
            _ => {},
        }
    }

    /// Move the playhead on by `delta_ticks` while playing.
    pub fn advance(&mut self, delta_ticks: i64)
        requires
            old(self).is_playing ==> i64::MIN <= old(self).position + delta_ticks <= i64::MAX,
        ensures
            final(self)@ == (MockView {
                position: if old(self).is_playing { (old(self).position + delta_ticks) as i64 } else { old(self).position },
                ..old(self)@
            }),
    {
        if self.is_playing {
            self.position = self.position + delta_ticks;
        }
    }

    /// Whether some track is soloed.
    pub fn any_solo(&self) -> (r: bool)
        ensures
            r == self@.any_solo(),
    {
        let n = self.track_states.len();
        for k in 0..n
            invariant
                n == self.track_states@.len(),
                forall|j: int| 0 <= j < k ==> !self.track_states@[j].solo,
        {
            if self.track_states[k].solo {
                proof {
                    assert(self@.tracks[k as int].solo);
                }
                return true;
            }
        }
        false
    }

    /// Whether the track at `i` is heard.
    pub fn audible(&self, i: usize) -> (r: bool)
        requires
            i < self.track_states@.len(),
        ensures
            r == self@.audible(i as int),
    {
        let t = self.track_states[i];
        self.is_playing && !(t.mute || (self.any_solo() && !t.solo))
    }
}

} // verus!
