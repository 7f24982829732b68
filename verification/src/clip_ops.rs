//! Arrangement clip operations on the selected clips: move, resize, split,
//! duplicate, delete, copy and paste.

use vstd::prelude::*;
use crate::app_data::{AppData, rest_same};
use crate::editor_state::{Effect, clamp_int};
use crate::ids::{ClipId, TrackId, is_v4_uuid};
use crate::project::{ProjectView, clip_pos, clips_view, is_first_match, lemma_first_match, track_pos};
use crate::selection::ClipSelection;
use crate::track::{ClipState, ClipView, TrackView};
use crate::undo_actions::{clips_edited, lemma_clip_pos_facts, with_clips};
use crate::midi::Note;
use crate::clipboard::{ClipClipboard, ClipboardEntryView, clipboard_fits, earliest_start, entries_view, entry_of, index_or_zero, lemma_earliest_start, topmost_index, topmost_or_zero};
use crate::selection::track_map_index;
use crate::midi::NoteId;

verus! {

/// The clip at `i` is the first one with its id.
pub open spec fn first_of_its_id(clips: Seq<ClipView>, i: int) -> bool {
    clip_pos(clips, clips[i].id) == Some(i)
}

/// Two clip lists carry the same id at every position.
pub open spec fn same_ids(a: Seq<ClipView>, b: Seq<ClipView>) -> bool {
    &&& a.len() == b.len()
    &&& forall|i: int| 0 <= i < a.len() ==> #[trigger] a[i].id == b[i].id
}

/// Clip lists with the same ids find the same first position for an id.
pub proof fn lemma_same_ids_same_pos(a: Seq<ClipView>, b: Seq<ClipView>, id: ClipId)
    requires
        same_ids(a, b),
    ensures
        clip_pos(a, id) == clip_pos(b, id),
{
    lemma_clip_pos_facts(a, id);
    lemma_clip_pos_facts(b, id);
    let pa = |c: ClipView| c.id == id;
    match clip_pos(a, id) {
        Some(i) => {
            assert(is_first_match(b, pa, i)) by {
                assert forall|j: int| 0 <= j < i implies !pa(b[j]) by {
                    assert(a[j].id == b[j].id);
                }
                assert(a[i].id == b[i].id);
            }
            lemma_first_match(b, pa, i);
        },
        None => {
            match clip_pos(b, id) {
                Some(i) => {
                    assert(a[i].id == b[i].id);
                },
                None => {},
            }
        },
    }
}

/// Index of a track in the track list (0 when it is not there).
pub open spec fn track_index_or_zero(tracks: Seq<TrackView>, t: TrackId) -> int {
    match track_pos(tracks, t) {
        Some(i) => i,
        None => 0,
    }
}

/// A clip moved by `dt` ticks (not before 0) and `di` tracks (staying in
/// the track list).
pub open spec fn moved_clip(tracks: Seq<TrackView>, c: ClipView, dt: i64, di: i32) -> ClipView {
    let target = clamp_int(track_index_or_zero(tracks, c.track_id) + di, 0, tracks.len() - 1);
    ClipView {
        start_tick: if c.start_tick + dt < 0 { 0 } else { (c.start_tick + dt) as i64 },
        track_id: tracks[target].id,
        ..c
    }
}

/// The clips after moving the first clip of each selected id.
pub open spec fn clips_after_move(clips: Seq<ClipView>, tracks: Seq<TrackView>, sel: Set<ClipId>, dt: i64, di: i32) -> Seq<ClipView> {
    Seq::new(clips.len(), |i: int| if sel.contains(clips[i].id) && first_of_its_id(clips, i) {
        moved_clip(tracks, clips[i], dt, di)
    } else {
        clips[i]
    })
}

/// Taking each listed clip out of the engine and putting it back.
pub open spec fn reinstall_effects(clips: Seq<ClipView>, ids: Seq<ClipId>) -> Seq<Effect>
    decreases ids.len(),
{
    if ids.len() == 0 {
        Seq::empty()
    } else {
        reinstall_effects(clips, ids.drop_last()) + match clip_pos(clips, ids.last()) {
            Some(i) => seq![
                Effect::RemoveClipFromEngine { clip_id: ids.last(), track_id: clips[i].track_id, is_audio: clips[i].audio_file is Some },
                Effect::InstallClipInEngine { clip_id: ids.last() },
            ],
            None => Seq::empty(),
        }
    }
}

/// Moving the selected clips stays within machine integers.
pub open spec fn move_fits(a: AppData, dt: i64, di: i32) -> bool {
    let clips = a.project@.clips;
    let tracks = a.project@.tracks;
    &&& tracks.len() <= i32::MAX
    &&& forall|i: int| 0 <= i < clips.len() && a.arrangement.selected_clips@.contains(#[trigger] clips[i].id) ==> {
        &&& i64::MIN <= clips[i].start_tick + dt <= i64::MAX
        &&& i32::MIN <= track_index_or_zero(tracks, clips[i].track_id) + di <= i32::MAX
    }
}

/// What moving the selected clips by `dt` ticks and `di` tracks makes of
/// `a`: nothing without tracks; otherwise the moved clips, and each taken
/// out of the engine and reinstalled.
pub open spec fn move_clips_result(a: AppData, b: AppData, dt: i64, di: i32, fx: Seq<Effect>) -> bool {
    &&& a.project@.tracks.len() == 0 ==> b == a && fx.len() == 0
    &&& a.project@.tracks.len() > 0 ==> {
        &&& b.project@ == with_clips(a.project@, clips_after_move(
            a.project@.clips,
            a.project@.tracks,
            a.arrangement.selected_clips@,
            dt,
            di,
        ))
        &&& fx == reinstall_effects(a.project@.clips, a.arrangement.selected_clips.order())
        &&& b.piano_roll == a.piano_roll
        &&& b.undo_manager == a.undo_manager
        &&& rest_same(a, b)
    }
}

impl AppData {
    /// Move every selected clip by `delta_tick` ticks (not before 0) and
    /// `delta_track_index` tracks (staying within the track list), taking
    /// each out of the engine and reinstalling it. Nothing happens without
    /// tracks.
    pub fn move_clips(&mut self, delta_tick: i64, delta_track_index: i32) -> (fx: Vec<Effect>)
        requires
            move_fits(*old(self), delta_tick, delta_track_index),
        ensures
            move_clips_result(*old(self), *final(self), delta_tick, delta_track_index, fx@),
    {
        if self.project.tracks.len() == 0 {
            return Vec::new();
        }
        let ids = self.arrangement.selected_clips.ids();
        let ghost orig = self.project@.clips;
        let ghost tracks = self.project@.tracks;
        let ghost sel = self.arrangement.selected_clips@;
        let nt = self.project.tracks.len();
        let mut fx: Vec<Effect> = Vec::new();
        let n = ids.len();
        for k in 0..n
            invariant
                n == ids@.len(),
                ids@.no_duplicates(),
                ids@.to_set() == sel,
                nt == tracks.len(),
                nt > 0,
                move_fits(*old(self), delta_tick, delta_track_index),
                sel == old(self).arrangement.selected_clips@,
                orig == old(self).project@.clips,
                tracks == old(self).project@.tracks,
                self.project@.tracks == tracks,
                self.project@.clips == Seq::new(orig.len(), |i: int| if ids@.take(k as int).contains(orig[i].id) && first_of_its_id(orig, i) {
                    moved_clip(tracks, orig[i], delta_tick, delta_track_index)
                } else {
                    orig[i]
                }),
                fx@ == reinstall_effects(orig, ids@.take(k as int)),
                self.piano_roll == old(self).piano_roll,
                self.undo_manager == old(self).undo_manager,
                rest_same(*old(self), *self),
        {
            let id = ids[k];
            let ghost cur = self.project@.clips;
            proof {
                assert(same_ids(cur, orig));
                lemma_same_ids_same_pos(cur, orig, id);
                assert(ids@.take(k as int + 1) == ids@.take(k as int).push(id));
                assert(ids@.take(k as int + 1).drop_last() == ids@.take(k as int));
            }
            match self.project.clip_index(id) {
                Some(idx) => {
                    proof {
                        lemma_clip_pos_facts(orig, id);
                        assert(!ids@.take(k as int).contains(id)) by {
                            if ids@.take(k as int).contains(id) {
                                let j = choose|j: int| 0 <= j < k && #[trigger] ids@.take(k as int)[j] == id;
                                assert(ids@[j] == ids@[k as int]);
                            }
                        }
                        assert(cur[idx as int] == orig[idx as int]);
                        assert(sel.contains(id)) by {
                            assert(ids@.contains(id));
                        }
                    }
                    let clip = &self.project.clips[idx];
                    proof {
                        assert(clip@ == orig[idx as int]);
                    }
                    let is_audio = clip.audio_file.is_some();
                    let old_track = clip.track_id;
                    let new_start: i64 = if clip.start_tick + delta_tick < 0 { 0 } else { clip.start_tick + delta_tick };
                    let cur_idx: i64 = match self.project.track_index(old_track) {
                        Some(t) => t as i64,
                        None => 0,
                    };
                    let sum: i64 = cur_idx + delta_track_index as i64;
                    let target: usize = if sum < 0 {
                        0
                    } else if sum > (nt - 1) as i64 {
                        nt - 1
                    } else {
                        sum as usize
                    };
                    let new_track = self.project.tracks[target].id;
                    fx.push(Effect::RemoveClipFromEngine { clip_id: id, track_id: old_track, is_audio });
                    let mut moved = self.project.clips[idx].clone();
                    moved.start_tick = new_start;
                    moved.track_id = new_track;
                    proof {
                        assert(moved@ == moved_clip(tracks, orig[idx as int], delta_tick, delta_track_index));
                    }
                    self.project.set_clip(idx, moved);
                    fx.push(Effect::InstallClipInEngine { clip_id: id });
                    proof {
                        let nxt = Seq::new(orig.len(), |i: int| if ids@.take(k as int + 1).contains(orig[i].id) && first_of_its_id(orig, i) {
                            moved_clip(tracks, orig[i], delta_tick, delta_track_index)
                        } else {
                            orig[i]
                        });
                        assert forall|i: int| 0 <= i < orig.len() implies #[trigger] self.project@.clips[i] == nxt[i] by {
                            assert(ids@.take(k as int + 1).contains(orig[i].id) == (ids@.take(k as int).contains(orig[i].id) || orig[i].id == id)) by {
                                if ids@.take(k as int + 1).contains(orig[i].id) {
                                    let j = choose|j: int| 0 <= j < k + 1 && #[trigger] ids@.take(k as int + 1)[j] == orig[i].id;
                                    if j < k {
                                        assert(ids@.take(k as int)[j] == orig[i].id);
                                    }
                                }
                                if ids@.take(k as int).contains(orig[i].id) {
                                    let j = choose|j: int| 0 <= j < k && #[trigger] ids@.take(k as int)[j] == orig[i].id;
                                    assert(ids@.take(k as int + 1)[j] == orig[i].id);
                                }
                                if orig[i].id == id {
                                    assert(ids@.take(k as int + 1)[k as int] == id);
                                }
                            }
                            if i == idx {
                                assert(first_of_its_id(orig, i));
                            } else if orig[i].id == id {
                                assert(!first_of_its_id(orig, i));
                            }
                        }
                        assert(self.project@.clips =~= nxt);
                        assert(fx@ =~= reinstall_effects(orig, ids@.take(k as int + 1)));
                    }
                },
                None => {
                    proof {
                        lemma_clip_pos_facts(orig, id);
                        assert(self.project@.clips =~= Seq::new(orig.len(), |i: int| if ids@.take(k as int + 1).contains(orig[i].id) && first_of_its_id(orig, i) {
                            moved_clip(tracks, orig[i], delta_tick, delta_track_index)
                        } else {
                            orig[i]
                        }));
                        assert(fx@ =~= reinstall_effects(orig, ids@.take(k as int + 1)));
                    }
                },
            }
        }
        proof {
            assert(ids@.take(n as int) == ids@);
            assert(self.project@.clips =~= clips_after_move(orig, tracks, sel, delta_tick, delta_track_index)) by {
                assert forall|i: int| 0 <= i < orig.len() implies ids@.contains(orig[i].id) == sel.contains(orig[i].id) by {}
            }
        }
        fx
    }
}

/// Removing each listed clip from the engine (and dropping its audio).
pub open spec fn removal_effects(clips: Seq<ClipView>, ids: Seq<ClipId>) -> Seq<Effect>
    decreases ids.len(),
{
    if ids.len() == 0 {
        Seq::empty()
    } else {
        removal_effects(clips, ids.drop_last()) + match clip_pos(clips, ids.last()) {
            Some(i) => seq![
                Effect::RemoveClipFromEngine { clip_id: ids.last(), track_id: clips[i].track_id, is_audio: clips[i].audio_file is Some },
                Effect::ForgetAudio { clip_id: ids.last() },
            ],
            None => Seq::empty(),
        }
    }
}

/// Clips not in the selection.
pub open spec fn unselected(sel: Set<ClipId>) -> spec_fn(ClipView) -> bool {
    |c: ClipView| !sel.contains(c.id)
}

/// A note cut off at `end` (a length relative to its clip's start).
pub open spec fn trim_note(n: Note, end: i64) -> Note {
    Note { duration_ticks: if n.start_tick + n.duration_ticks > end { (end - n.start_tick) as i64 } else { n.duration_ticks }, ..n }
}

/// The notes that start before `end`, cut off at `end`.
pub open spec fn trimmed(notes: Seq<Note>, end: i64) -> Seq<Note> {
    notes.filter(|n: Note| n.start_tick < end).map_values(|n: Note| trim_note(n, end))
}

/// Trimming these notes at `end` stays within machine integers.
pub open spec fn trim_fits(notes: Seq<Note>, end: i64) -> bool {
    forall|k: int| 0 <= k < notes.len() && #[trigger] notes[k].start_tick < end ==> {
        &&& i64::MIN <= notes[k].start_tick + notes[k].duration_ticks <= i64::MAX
        &&& end - notes[k].start_tick <= i64::MAX
    }
}

/// Keep the notes that start before `end`, cut off at `end`.
pub fn trim_notes(notes: &Vec<Note>, end: i64) -> (r: Vec<Note>)
    requires
        trim_fits(notes@, end),
    ensures
        r@ == trimmed(notes@, end),
{
    let ghost pred = |n: Note| n.start_tick < end;
    let mut r: Vec<Note> = Vec::new();
    let n = notes.len();
    for k in 0..n
        invariant
            n == notes@.len(),
            trim_fits(notes@, end),
            pred == (|n: Note| n.start_tick < end),
            r@ == notes@.take(k as int).filter(pred).map_values(|n: Note| trim_note(n, end)),
    {
        proof {
            assert(notes@.take(k as int + 1) == notes@.take(k as int).push(notes@[k as int]));
            notes@.take(k as int).lemma_filter_push(notes@[k as int], pred);
        }
        let x = notes[k];
        if x.start_tick < end {
            let d = if x.start_tick + x.duration_ticks > end { end - x.start_tick } else { x.duration_ticks };
            r.push(Note { duration_ticks: d, ..x });
        }
        proof {
            assert(r@ =~= notes@.take(k as int + 1).filter(pred).map_values(|n: Note| trim_note(n, end)));
        }
    }
    proof {
        assert(notes@.take(n as int) == notes@);
    }
    r
}

/// A clip given a new start and length; a MIDI clip loses the notes
/// starting at or after the new length and has the others cut off there.
pub open spec fn resized_clip(c: ClipView, start: i64, duration: i64) -> ClipView {
    ClipView {
        start_tick: start,
        duration_ticks: duration,
        notes: if c.audio_file is None { trimmed(c.notes, duration) } else { c.notes },
        ..c
    }
}

/// Resizing this clip stays within machine integers.
pub open spec fn resize_fits(p: ProjectView, id: ClipId, duration: i64) -> bool {
    match clip_pos(p.clips, id) {
        Some(i) => p.clips[i].audio_file is None ==> trim_fits(p.clips[i].notes, duration),
        None => true,
    }
}

/// What giving clip `id` the start `start` and length `duration` makes of
/// `a`: the clip resized, taken out of the engine and reinstalled; nothing
/// when no clip has that id.
pub open spec fn resize_clip_result(a: AppData, b: AppData, id: ClipId, start: i64, duration: i64, fx: Seq<Effect>) -> bool {
    &&& b.project@ == with_clips(a.project@, clips_edited(
        a.project@.clips,
        id,
        |c: ClipView| resized_clip(c, start, duration),
    ))
    &&& fx == match clip_pos(a.project@.clips, id) {
        Some(i) => seq![
            Effect::RemoveClipFromEngine {
                clip_id: id,
                track_id: a.project@.clips[i].track_id,
                is_audio: a.project@.clips[i].audio_file is Some,
            },
            Effect::InstallClipInEngine { clip_id: id },
        ],
        None => Seq::<Effect>::empty(),
    }
    &&& b.piano_roll == a.piano_roll
    &&& b.undo_manager == a.undo_manager
    &&& rest_same(a, b)
}

/// How deleting the selected clips changes the state `a` into `b` with effects `fx`.
pub open spec fn delete_selected_clips_result(a: AppData, b: AppData, fx: Seq<Effect>) -> bool {
    &&& b.project@ == with_clips(a.project@, a.project@.clips.filter(unselected(a.arrangement.selected_clips@)))
    &&& fx =~= removal_effects(a.project@.clips, a.arrangement.selected_clips.order())
    &&& b.arrangement.selected_clips@ == Set::<ClipId>::empty()
    &&& b.arrangement.selected_track == a.arrangement.selected_track
    &&& b.arrangement.snap_grid == a.arrangement.snap_grid
    &&& b.arrangement.clipboard == a.arrangement.clipboard
    &&& b.piano_roll == a.piano_roll
    &&& b.undo_manager == a.undo_manager
    &&& b.transport == a.transport
    &&& b.active_view == a.active_view
    &&& b.browser == a.browser
    &&& b.show_preferences == a.show_preferences
}

impl AppData {
    /// Delete the selected clips (taking each out of the engine and dropping
    /// its audio) and clear the selection.
    pub fn delete_selected_clips(&mut self) -> (fx: Vec<Effect>)
        ensures
            delete_selected_clips_result(*old(self), *final(self), fx@),
    {
        let ids = self.arrangement.selected_clips.ids();
        let ghost orig = self.project@.clips;
        let mut fx: Vec<Effect> = Vec::new();
        let n = ids.len();
        for k in 0..n
            invariant
                n == ids@.len(),
                orig == self.project@.clips,
                fx@ == removal_effects(orig, ids@.take(k as int)),
        {
            let id = ids[k];
            proof {
                assert(ids@.take(k as int + 1).drop_last() == ids@.take(k as int));
                assert(ids@.take(k as int + 1).last() == id);
            }
            match self.project.clip_index(id) {
                Some(idx) => {
                    let c = &self.project.clips[idx];
                    proof {
                        assert(c@ == orig[idx as int]);
                    }
                    fx.push(Effect::RemoveClipFromEngine { clip_id: id, track_id: c.track_id, is_audio: c.audio_file.is_some() });
                    fx.push(Effect::ForgetAudio { clip_id: id });
                },
                None => {},
            }
            proof {
                assert(fx@ =~= removal_effects(orig, ids@.take(k as int + 1)));
            }
        }
        proof {
            assert(ids@.take(n as int) == ids@);
        }
        let ghost pred = unselected(self.arrangement.selected_clips@);
        let mut kept: Vec<ClipState> = Vec::new();
        let m = self.project.clips.len();
        for i in 0..m
            invariant
                m == self.project.clips@.len(),
                orig == self.project@.clips,
                pred == unselected(self.arrangement.selected_clips@),
                clips_view(kept@) == orig.take(i as int).filter(pred),
        {
            proof {
                assert(orig.take(i as int + 1) == orig.take(i as int).push(orig[i as int]));
                orig.take(i as int).lemma_filter_push(orig[i as int], pred);
                assert(orig[i as int] == self.project.clips@[i as int]@);
            }
            if !self.arrangement.selected_clips.contains(&self.project.clips[i].id) {
                let ghost before = kept@;
                kept.push(self.project.clips[i].clone());
                proof {
                    assert(clips_view(kept@) =~= clips_view(before).push(orig[i as int]));
                }
            }
        }
        proof {
            assert(orig.take(m as int) == orig);
        }
        self.project.clips = kept;
        self.arrangement.selected_clips = ClipSelection::new();
        fx
    }
}

/// How selecting every clip changes the state `a` into `b`.
pub open spec fn select_all_clips_result(a: AppData, b: AppData) -> bool {
    &&& b.arrangement.selected_clips@ == a.project@.clips.map_values(|c: ClipView| c.id).to_set()
    &&& b.arrangement.selected_track == a.arrangement.selected_track
    &&& b.arrangement.snap_grid == a.arrangement.snap_grid
    &&& b.arrangement.clipboard == a.arrangement.clipboard
    &&& b.project == a.project
    &&& b.piano_roll == a.piano_roll
    &&& b.undo_manager == a.undo_manager
    &&& b.transport == a.transport
    &&& b.active_view == a.active_view
    &&& b.browser == a.browser
    &&& b.show_preferences == a.show_preferences
}

impl AppData {
    /// Select every clip of the project.
    pub fn select_all_clips(&mut self)
        ensures
            select_all_clips_result(*old(self), *final(self)),
    {
        let mut ids: Vec<ClipId> = Vec::new();
        let n = self.project.clips.len();
        for i in 0..n
            invariant
                n == self.project.clips@.len(),
                ids@ == self.project@.clips.take(i as int).map_values(|c: ClipView| c.id),
        {
            ids.push(self.project.clips[i].id);
            proof {
                assert(self.project@.clips[i as int] == self.project.clips@[i as int]@);
                assert(self.project@.clips.take(i as int + 1) == self.project@.clips.take(i as int).push(self.project@.clips[i as int]));
                assert(ids@ =~= self.project@.clips.take(i as int + 1).map_values(|c: ClipView| c.id));
            }
        }
        proof {
            assert(self.project@.clips.take(n as int) == self.project@.clips);
        }
        self.arrangement.selected_clips = ClipSelection::from_ids(&ids);
    }

    /// Give a clip a new start and length (a MIDI clip's notes are trimmed
    /// to it), taking it out of the engine and reinstalling it.
    pub fn resize_clip(&mut self, clip_id: ClipId, new_start: i64, new_duration: i64) -> (fx: Vec<Effect>)
        requires
            resize_fits(old(self).project@, clip_id, new_duration),
        ensures
            resize_clip_result(*old(self), *final(self), clip_id, new_start, new_duration, fx@),
    {
        match self.project.clip_index(clip_id) {
            Some(idx) => {
                let mut c = self.project.clips[idx].clone();
                proof {
                    assert(self.project.clips@[idx as int]@ == self.project@.clips[idx as int]);
                }
                let mut fx: Vec<Effect> = Vec::new();
                fx.push(Effect::RemoveClipFromEngine { clip_id, track_id: c.track_id, is_audio: c.audio_file.is_some() });
                if c.audio_file.is_none() {
                    c.notes = trim_notes(&c.notes, new_duration);
                }
                c.start_tick = new_start;
                c.duration_ticks = new_duration;
                proof {
                    assert(c@ == resized_clip(self.project@.clips[idx as int], new_start, new_duration));
                }
                self.project.set_clip(idx, c);
                fx.push(Effect::InstallClipInEngine { clip_id });
                proof {
                    let a = old(self).project@.clips[idx as int];
                    assert(fx@ =~= seq![
                        Effect::RemoveClipFromEngine { clip_id, track_id: a.track_id, is_audio: a.audio_file is Some },
                        Effect::InstallClipInEngine { clip_id },
                    ]);
                }
                fx
            },
            None => {
                let fx: Vec<Effect> = Vec::new();
                proof {
                    assert(with_clips(self.project@, self.project@.clips) == self.project@);
                    assert(fx@ =~= Seq::<Effect>::empty());
                }
                fx
            },
        }
    }
}

/// Clips in the selection.
pub open spec fn selected(sel: Set<ClipId>) -> spec_fn(ClipView) -> bool {
    |c: ClipView| sel.contains(c.id)
}

/// The track map of a track list: each track's id with its position.
pub open spec fn track_map_of(tracks: Seq<TrackView>) -> Seq<(TrackId, usize)> {
    Seq::new(tracks.len(), |k: int| (tracks[k].id, k as usize))
}

/// Copying the selected clips stays within machine integers.
pub open spec fn copy_fits(a: AppData) -> bool {
    let clips = a.project@.clips;
    let sel = a.arrangement.selected_clips@;
    &&& a.project@.tracks.len() <= i32::MAX
    &&& forall|i: int, j: int| 0 <= i < clips.len() && 0 <= j < clips.len()
        && sel.contains(#[trigger] clips[i].id) && sel.contains(#[trigger] clips[j].id)
        ==> clips[i].start_tick - clips[j].start_tick <= i64::MAX
}

/// Every index a track map names is below `bound`.
pub open spec fn map_below(tm: Seq<(TrackId, usize)>, bound: int) -> bool {
    forall|k: int| 0 <= k < tm.len() ==> (#[trigger] tm[k]).1 < bound
}

proof fn lemma_map_index_below(tm: Seq<(TrackId, usize)>, bound: int, t: TrackId)
    requires
        map_below(tm, bound),
    ensures
        track_map_index(tm, t) matches Some(i) ==> i < bound,
{
    if exists|k: int| 0 <= k < tm.len() && crate::selection::entry_for(t)(tm[k]) {
        let w = crate::undo_actions::lemma_some_first_match(tm, crate::selection::entry_for(t));
        lemma_first_match(tm, crate::selection::entry_for(t), w);
    }
}

proof fn lemma_topmost_below(s: Seq<ClipState>, tm: Seq<(TrackId, usize)>, bound: int)
    requires
        map_below(tm, bound),
    ensures
        topmost_index(s, tm) matches Some(m) ==> m < bound,
    decreases s.len(),
{
    if s.len() > 0 {
        lemma_topmost_below(s.drop_last(), tm, bound);
        lemma_map_index_below(tm, bound, s.last().track_id);
    }
}

impl AppData {
    /// Each track's id with its position in the track list.
    pub fn track_map(&self) -> (r: Vec<(TrackId, usize)>)
        ensures
            r@ == track_map_of(self.project@.tracks),
    {
        let ghost tv = self.project@.tracks;
        let mut track_map: Vec<(TrackId, usize)> = Vec::new();
        let m = self.project.tracks.len();
        for k in 0..m
            invariant
                m == self.project.tracks@.len(),
                tv == self.project@.tracks,
                track_map@ == track_map_of(tv).take(k as int),
        {
            track_map.push((self.project.tracks[k].id, k));
            proof {
                assert(tv[k as int] == self.project.tracks@[k as int]@);
                assert(track_map@ =~= track_map_of(tv).take(k as int + 1));
            }
        }
        proof {
            assert(track_map_of(tv).take(m as int) =~= track_map_of(tv));
        }
        track_map
    }
}

/// How copying the selected clips changes the state `a` into `b`.
pub open spec fn copy_selected_clips_result(a: AppData, b: AppData) -> bool {
    &&& exists|s: Seq<ClipState>| {
        &&& clips_view(s) == a.project@.clips.filter(selected(a.arrangement.selected_clips@))
        &&& #[trigger] entries_view(b.arrangement.clipboard.entries@) == s.map_values(
            |c: ClipState| entry_of(c, s, track_map_of(a.project@.tracks)),
        )
    }
    &&& b.arrangement.selected_clips == a.arrangement.selected_clips
    &&& b.arrangement.selected_track == a.arrangement.selected_track
    &&& b.arrangement.snap_grid == a.arrangement.snap_grid
    &&& b.project == a.project
    &&& b.piano_roll == a.piano_roll
    &&& b.undo_manager == a.undo_manager
    &&& b.transport == a.transport
    &&& b.active_view == a.active_view
    &&& b.browser == a.browser
    &&& b.show_preferences == a.show_preferences
}

impl AppData {
    /// Copy the selected clips (in project order) to the clipboard, with
    /// offsets relative to the earliest clip and the topmost track.
    pub fn copy_selected_clips(&mut self)
        requires
            copy_fits(*old(self)),
        ensures
            copy_selected_clips_result(*old(self), *final(self)),
    {
        let ghost orig = self.project@.clips;
        let ghost sel = self.arrangement.selected_clips@;
        let ghost pred = selected(sel);
        let mut chosen: Vec<ClipState> = Vec::new();
        let ghost mut pos: Seq<int> = Seq::empty();
        let n = self.project.clips.len();
        for i in 0..n
            invariant
                n == self.project.clips@.len(),
                orig == self.project@.clips,
                sel == self.arrangement.selected_clips@,
                pred == selected(sel),
                clips_view(chosen@) == orig.take(i as int).filter(pred),
                pos.len() == chosen@.len(),
                forall|k: int| 0 <= k < chosen@.len() ==> 0 <= #[trigger] pos[k] < orig.len()
                    && chosen@[k]@ == orig[pos[k]] && sel.contains(orig[pos[k]].id),
        {
            proof {
                assert(orig.take(i as int + 1) == orig.take(i as int).push(orig[i as int]));
                orig.take(i as int).lemma_filter_push(orig[i as int], pred);
                assert(orig[i as int] == self.project.clips@[i as int]@);
            }
            if self.arrangement.selected_clips.contains(&self.project.clips[i].id) {
                let ghost before = chosen@;
                chosen.push(self.project.clips[i].clone());
                proof {
                    assert(clips_view(chosen@) =~= clips_view(before).push(orig[i as int]));
                    assert(chosen@[chosen@.len() - 1]@ == orig[i as int]);
                    pos = pos.push(i as int);
                }
            }
        }
        proof {
            assert(orig.take(n as int) == orig);
        }
        let track_map = self.track_map();
        let m = self.project.tracks.len();
        proof {
            let s = chosen@;
            let tm = track_map@;
            assert(m as int == self.project@.tracks.len() && m <= i32::MAX);
            assert(map_below(tm, m as int));
            lemma_topmost_below(s, tm, m as int);
            assert(clipboard_fits(s, tm)) by {
                assert forall|i: int| 0 <= i < s.len() implies {
                    &&& #[trigger] s[i].start_tick - earliest_start(s) <= i64::MAX
                    &&& i32::MIN <= (index_or_zero(s[i], tm) as i32) - (topmost_or_zero(s, tm) as i32) <= i32::MAX
                } by {
                    lemma_earliest_start(s);
                    let w = choose|w: int| 0 <= w < s.len() && earliest_start(s) == s[w].start_tick;
                    let a = pos[i];
                    let b = pos[w];
                    assert(sel.contains(orig[a].id) && sel.contains(orig[b].id));
                    assert(orig[a].start_tick == s[i].start_tick && orig[b].start_tick == s[w].start_tick);
                    lemma_map_index_below(tm, m as int, s[i].track_id);
                }
            }
        }
        let clipboard = ClipClipboard::from_clips(chosen.as_slice(), track_map.as_slice());
        self.arrangement.clipboard = clipboard;
    }
}

/// The first clip of each listed id that is in the project, in list order.
pub open spec fn sources(clips: Seq<ClipView>, ids: Seq<ClipId>) -> Seq<ClipView>
    decreases ids.len(),
{
    if ids.len() == 0 {
        Seq::empty()
    } else {
        sources(clips, ids.drop_last()) + match clip_pos(clips, ids.last()) {
            Some(i) => seq![clips[i]],
            None => Seq::empty(),
        }
    }
}

/// Number of notes in the clips.
pub open spec fn notes_total(s: Seq<ClipView>) -> int
    decreases s.len(),
{
    if s.len() == 0 {
        0
    } else {
        notes_total(s.drop_last()) + s.last().notes.len()
    }
}

/// Notes numbered afresh from `first` on.
pub open spec fn renumbered(notes: Seq<Note>, first: int) -> Seq<Note> {
    Seq::new(notes.len(), |k: int| Note { id: NoteId((first + k) as u64), ..notes[k] })
}

/// The suffix of a duplicate's name.
pub open spec fn copy_suffix() -> Seq<char> {
    seq![' ', '(', 'c', 'o', 'p', 'y', ')']
}

/// A duplicate of `c` right after it, under a new id, with its notes
/// numbered afresh from `first_note`.
pub open spec fn dup_clip(c: ClipView, first_note: int, id: ClipId) -> ClipView {
    ClipView {
        id,
        start_tick: (c.start_tick + c.duration_ticks) as i64,
        name: c.name + copy_suffix(),
        notes: renumbered(c.notes, first_note),
        ..c
    }
}

/// For each new clip: share the audio of its source and install it.
pub open spec fn added_effects(srcs: Seq<ClipView>, added: Seq<ClipView>) -> Seq<Effect>
    decreases srcs.len(),
{
    if srcs.len() == 0 {
        Seq::empty()
    } else {
        added_effects(srcs.drop_last(), added) + seq![
            Effect::ShareAudio { from: srcs.last().id, to: added[srcs.len() - 1].id },
            Effect::InstallClipInEngine { clip_id: added[srcs.len() - 1].id },
        ]
    }
}

/// Duplicating the selected clips stays within machine integers.
pub open spec fn duplicate_fits(a: AppData) -> bool {
    let clips = a.project@.clips;
    &&& forall|i: int| 0 <= i < clips.len() && a.arrangement.selected_clips@.contains(#[trigger] clips[i].id)
        && first_of_its_id(clips, i) ==> i64::MIN <= clips[i].start_tick + clips[i].duration_ticks <= i64::MAX
    &&& a.piano_roll.next_note_id + notes_total(sources(clips, a.arrangement.selected_clips.order())) <= u64::MAX
}

pub(crate) proof fn lemma_notes_total_push(s: Seq<ClipView>, c: ClipView)
    ensures
        notes_total(s.push(c)) == notes_total(s) + c.notes.len(),
{
    assert(s.push(c).drop_last() == s);
}

proof fn lemma_notes_total_nonneg(s: Seq<ClipView>)
    ensures
        notes_total(s) >= 0,
    decreases s.len(),
{
    if s.len() > 0 {
        lemma_notes_total_nonneg(s.drop_last());
    }
}

/// The notes of the sources of a prefix of the ids are no more than those
/// of all of them.
pub(crate) proof fn lemma_sources_notes_grow(clips: Seq<ClipView>, ids: Seq<ClipId>, k: int, j: int)
    requires
        0 <= k <= j <= ids.len(),
    ensures
        notes_total(sources(clips, ids.take(k))) <= notes_total(sources(clips, ids.take(j))),
    decreases j - k,
{
    if k < j {
        lemma_sources_notes_grow(clips, ids, k + 1, j);
        assert(ids.take(k + 1).drop_last() == ids.take(k));
        let base = sources(clips, ids.take(k));
        match clip_pos(clips, ids.take(k + 1).last()) {
            Some(i) => {
                assert(sources(clips, ids.take(k + 1)) == base.push(clips[i]));
                lemma_notes_total_push(base, clips[i]);
            },
            None => {
                assert(sources(clips, ids.take(k + 1)) == base);
            },
        }
    }
}

/// Position of the first clip of this id among the first `n` clips.
fn clip_index_before(clips: &Vec<ClipState>, n: usize, id: ClipId) -> (r: Option<usize>)
    requires
        n <= clips@.len(),
    ensures
        match r {
            Some(i) => i < n && clip_pos(clips_view(clips@).take(n as int), id) == Some(i as int),
            None => clip_pos(clips_view(clips@).take(n as int), id) == None::<int>,
        },
{
    let ghost v = clips_view(clips@).take(n as int);
    for i in 0..n
        invariant
            n <= clips@.len(),
            v == clips_view(clips@).take(n as int),
            forall|j: int| 0 <= j < i ==> v[j].id != id,
    {
        proof {
            assert(v[i as int] == clips@[i as int]@);
        }
        if clips[i].id == id {
            proof {
                lemma_first_match(v, |c: ClipView| c.id == id, i as int);
            }
            return Some(i);
        }
    }
    proof {
        crate::project::lemma_no_match(v, |c: ClipView| c.id == id);
    }
    None
}

impl AppData {
    /// Give each note a fresh id from the counter.
    fn renumber_notes(&mut self, notes: &mut Vec<Note>)
        requires
            old(self).piano_roll.next_note_id + old(notes)@.len() <= u64::MAX,
        ensures
            final(notes)@ == renumbered(old(notes)@, old(self).piano_roll.next_note_id as int),
            final(self).piano_roll.next_note_id == old(self).piano_roll.next_note_id + old(notes)@.len(),
            crate::app_data::piano_same_but_next_id(old(self).piano_roll, final(self).piano_roll),
            final(self).project == old(self).project,
            final(self).undo_manager == old(self).undo_manager,
            rest_same(*old(self), *final(self)),
    {
        let ghost first = self.piano_roll.next_note_id as int;
        let ghost orig = notes@;
        let n = notes.len();
        for k in 0..n
            invariant
                n == notes@.len(),
                n == orig.len(),
                first == old(self).piano_roll.next_note_id,
                first + n <= u64::MAX,
                self.piano_roll.next_note_id == first + k,
                notes@ == renumbered(orig.take(k as int), first) + orig.skip(k as int),
                crate::app_data::piano_same_but_next_id(old(self).piano_roll, self.piano_roll),
                self.project == old(self).project,
                self.undo_manager == old(self).undo_manager,
                rest_same(*old(self), *self),
        {
            let id = self.piano_roll.alloc_note_id();
            let x = notes[k];
            notes.set(k, Note { id, ..x });
            proof {
                assert(notes@ =~= renumbered(orig.take(k as int + 1), first) + orig.skip(k as int + 1));
            }
        }
        proof {
            assert(notes@ =~= renumbered(orig, first));
        }
    }
}

/// The clips from position `from` on carry random (version 4) UUIDs.
pub open spec fn fresh_ids_v4(clips: Seq<ClipView>, from: int) -> bool {
    forall|j: int| from <= j < clips.len() ==> is_v4_uuid(#[trigger] clips[j].id.0)
}

/// How duplicating the selected clips changes the state `a` into `b` with effects `fx`.
pub open spec fn duplicate_selected_clips_result(a: AppData, b: AppData, fx: Seq<Effect>) -> bool {
    &&& ({
        let orig = a.project@.clips;
        let srcs = sources(orig, a.arrangement.selected_clips.order());
        let added = b.project@.clips.skip(orig.len() as int);
        &&& fresh_ids_v4(b.project@.clips, orig.len() as int)
        &&& b.project@.clips.len() == orig.len() + srcs.len()
        &&& b.project@.clips.take(orig.len() as int) == orig
        &&& forall|j: int| 0 <= j < srcs.len() ==> #[trigger] added[j] == dup_clip(
            srcs[j],
            a.piano_roll.next_note_id + notes_total(srcs.take(j)),
            added[j].id,
        )
        &&& b.piano_roll.next_note_id == a.piano_roll.next_note_id + notes_total(srcs)
        &&& b.arrangement.selected_clips@ == added.map_values(|c: ClipView| c.id).to_set()
        &&& fx =~= added_effects(srcs, added)
    })
    &&& b.project@.tracks == a.project@.tracks
    &&& crate::app_data::piano_same_but_next_id(a.piano_roll, b.piano_roll)
    &&& b.arrangement.selected_track == a.arrangement.selected_track
    &&& b.arrangement.snap_grid == a.arrangement.snap_grid
    &&& b.arrangement.clipboard == a.arrangement.clipboard
    &&& b.undo_manager == a.undo_manager
    &&& b.transport == a.transport
    &&& b.active_view == a.active_view
    &&& b.browser == a.browser
    &&& b.show_preferences == a.show_preferences
}

impl AppData {
    /// Duplicate each selected clip of the project right after itself,
    /// under a fresh random id and with freshly numbered notes, and select
    /// the duplicates. Each duplicate shares its source's audio and is
    /// installed in the engine.
    pub fn duplicate_selected_clips(&mut self) -> (fx: Vec<Effect>)
        requires
            duplicate_fits(*old(self)),
        ensures
            duplicate_selected_clips_result(*old(self), *final(self), fx@),
    {
        let ids = self.arrangement.selected_clips.ids();
        let ghost orig = self.project@.clips;
        let ghost first = self.piano_roll.next_note_id as int;
        let n0 = self.project.clips.len();
        let mut new_ids: Vec<ClipId> = Vec::new();
        let mut fx: Vec<Effect> = Vec::new();
        let n = ids.len();
        proof {
            reveal_strlit(" (copy)");
            assert(" (copy)"@ =~= copy_suffix());
            lemma_sources_notes_grow(orig, ids@, 0, n as int);
            assert(ids@.take(n as int) == ids@);
            assert(ids@.take(0) == Seq::<ClipId>::empty());
        }
        for k in 0..n
            invariant
                n == ids@.len(),
                ids@ == old(self).arrangement.selected_clips.order(),
                ids@.to_set() == old(self).arrangement.selected_clips@,
                n0 == orig.len(),
                orig == old(self).project@.clips,
                first == old(self).piano_roll.next_note_id,
                duplicate_fits(*old(self)),
                " (copy)"@ == copy_suffix(),
                fresh_ids_v4(self.project@.clips, n0 as int),
                self.project@.clips.take(n0 as int) == orig,
                self.project@.clips.len() == n0 + sources(orig, ids@.take(k as int)).len(),
                forall|j: int| 0 <= j < sources(orig, ids@.take(k as int)).len() ==> #[trigger] self.project@.clips[n0 + j]
                    == dup_clip(
                        sources(orig, ids@.take(k as int))[j],
                        first + notes_total(sources(orig, ids@.take(k as int)).take(j)),
                        self.project@.clips[n0 + j].id,
                    ),
                self.piano_roll.next_note_id == first + notes_total(sources(orig, ids@.take(k as int))),
                new_ids@ == self.project@.clips.skip(n0 as int).map_values(|c: ClipView| c.id),
                fx@ == added_effects(sources(orig, ids@.take(k as int)), self.project@.clips.skip(n0 as int)),
                self.project@.tracks == old(self).project@.tracks,
                crate::app_data::piano_same_but_next_id(old(self).piano_roll, self.piano_roll),
                self.arrangement == old(self).arrangement,
                self.undo_manager == old(self).undo_manager,
                self.transport == old(self).transport,
                self.active_view == old(self).active_view,
                self.browser == old(self).browser,
                self.show_preferences == old(self).show_preferences,
        {
            let id = ids[k];
            let ghost srcs = sources(orig, ids@.take(k as int));
            let ghost cur = self.project@.clips;
            proof {
                assert(ids@.take(k as int + 1).drop_last() == ids@.take(k as int));
                assert(ids@.take(k as int + 1).last() == id);
                assert(clips_view(self.project.clips@).take(n0 as int) == orig);
                lemma_sources_notes_grow(orig, ids@, k as int + 1, n as int);
                assert(ids@.take(n as int) == ids@);
            }
            match clip_index_before(&self.project.clips, n0, id) {
                Some(idx) => {
                    let src = self.project.clips[idx].clone();
                    proof {
                        assert(src@ == orig[idx as int]);
                        lemma_clip_pos_facts(orig, id);
                        assert(first_of_its_id(orig, idx as int));
                        assert(ids@.contains(id));
                        assert(old(self).arrangement.selected_clips@.contains(orig[idx as int].id));
                        assert(sources(orig, ids@.take(k as int + 1)) == srcs.push(orig[idx as int]));
                        lemma_notes_total_push(srcs, orig[idx as int]);
                        lemma_notes_total_nonneg(srcs);
                        assert(i64::MIN <= orig[idx as int].start_tick + orig[idx as int].duration_ticks <= i64::MAX);
                        assert(first + notes_total(srcs) + orig[idx as int].notes.len() <= u64::MAX);
                    }
                    let new_id = ClipId::new();
                    let mut dup = src.clone();
                    dup.id = new_id;
                    dup.start_tick = src.start_tick + src.duration_ticks;
                    dup.name.append(" (copy)");
                    let mut notes = Vec::new();
                    std::mem::swap(&mut notes, &mut dup.notes);
                    self.renumber_notes(&mut notes);
                    dup.notes = notes;
                    proof {
                        assert(dup@ == dup_clip(orig[idx as int], first + notes_total(srcs), new_id));
                    }
                    fx.push(Effect::ShareAudio { from: id, to: new_id });
                    new_ids.push(new_id);
                    self.project.push_clip(dup);
                    fx.push(Effect::InstallClipInEngine { clip_id: new_id });
                    proof {
                        let nsrcs = srcs.push(orig[idx as int]);
                        let added = self.project@.clips.skip(n0 as int);
                        assert(self.project@.clips.take(n0 as int) =~= orig);
                        assert(nsrcs.drop_last() == srcs);
                        assert forall|j: int| 0 <= j < nsrcs.len() implies #[trigger] self.project@.clips[n0 + j] == dup_clip(
                            nsrcs[j],
                            first + notes_total(nsrcs.take(j)),
                            self.project@.clips[n0 + j].id,
                        ) by {
                            if j < srcs.len() {
                                assert(nsrcs.take(j) == srcs.take(j));
                                assert(self.project@.clips[n0 + j] == cur[n0 + j]);
                            } else {
                                assert(nsrcs.take(j) == srcs);
                            }
                        }
                        assert(new_ids@ =~= added.map_values(|c: ClipView| c.id));
                        assert(added.len() == nsrcs.len());
                        assert(added_effects(srcs, added) == added_effects(srcs, cur.skip(n0 as int))) by {
                            lemma_added_effects_prefix(srcs, cur.skip(n0 as int), added);
                        }
                        assert(fx@ =~= added_effects(nsrcs, added));
                    }
                },
                None => {
                    proof {
                        assert(sources(orig, ids@.take(k as int + 1)) == srcs);
                    }
                },
            }
        }
        proof {
            assert(ids@.take(n as int) == ids@);
            let added = self.project@.clips.skip(n0 as int);
            let srcs = sources(orig, ids@);
            assert forall|j: int| 0 <= j < srcs.len() implies #[trigger] added[j] == dup_clip(
                srcs[j],
                first + notes_total(srcs.take(j)),
                added[j].id,
            ) by {
                assert(added[j] == self.project@.clips[n0 + j]);
            }
        }
        self.arrangement.selected_clips = ClipSelection::from_ids(&new_ids);
        fx
    }
}

/// The effects for the first clips depend only on those clips.
proof fn lemma_added_effects_prefix(srcs: Seq<ClipView>, a: Seq<ClipView>, b: Seq<ClipView>)
    requires
        srcs.len() <= a.len(),
        srcs.len() <= b.len(),
        forall|j: int| 0 <= j < srcs.len() ==> a[j].id == b[j].id,
    ensures
        added_effects(srcs, a) == added_effects(srcs, b),
    decreases srcs.len(),
{
    if srcs.len() > 0 {
        lemma_added_effects_prefix(srcs.drop_last(), a, b);
    }
}

/// The track index pasting is relative to: the selected track's, else 0.
pub open spec fn paste_base(tracks: Seq<TrackView>, selected: Option<TrackId>) -> int {
    match selected {
        Some(t) => track_index_or_zero(tracks, t),
        None => 0,
    }
}

/// The clips held by clipboard entries.
pub open spec fn entry_clips(entries: Seq<ClipboardEntryView>) -> Seq<ClipView> {
    entries.map_values(|e: ClipboardEntryView| e.clip)
}

/// A clipboard entry pasted at the playhead under a new id: its track is
/// `base` plus the entry's track offset (kept within the track list) and its
/// notes are numbered afresh from `first_note`.
pub open spec fn pasted_clip(e: ClipboardEntryView, tracks: Seq<TrackView>, base: int, playhead: i64, first_note: int, id: ClipId) -> ClipView {
    ClipView {
        id,
        track_id: tracks[clamp_int(base + e.track_index_offset, 0, tracks.len() - 1)].id,
        start_tick: (playhead + e.tick_offset) as i64,
        notes: renumbered(e.clip.notes, first_note),
        ..e.clip
    }
}

/// Pasting stays within machine integers.
pub open spec fn paste_fits(a: AppData) -> bool {
    let entries = entries_view(a.arrangement.clipboard.entries@);
    let tracks = a.project@.tracks;
    &&& tracks.len() <= i32::MAX
    &&& forall|j: int| 0 <= j < entries.len() ==> {
        &&& i64::MIN <= a.transport.position + (#[trigger] entries[j]).tick_offset <= i64::MAX
        &&& i32::MIN <= paste_base(tracks, a.arrangement.selected_track) + entries[j].track_index_offset <= i32::MAX
    }
    &&& a.piano_roll.next_note_id + notes_total(entry_clips(entries)) <= u64::MAX
}

pub(crate) proof fn lemma_notes_total_prefix(s: Seq<ClipView>, k: int)
    requires
        0 <= k <= s.len(),
    ensures
        notes_total(s.take(k)) <= notes_total(s),
    decreases s.len() - k,
{
    if k < s.len() {
        lemma_notes_total_prefix(s, k + 1);
        assert(s.take(k + 1) == s.take(k).push(s[k]));
        lemma_notes_total_push(s.take(k), s[k]);
    } else {
        assert(s.take(k) == s);
    }
}

/// How pasting the clipboard changes the state `a` into `b` with effects `fx`.
pub open spec fn paste_clips_result(a: AppData, b: AppData, fx: Seq<Effect>) -> bool {
    &&& (a.arrangement.clipboard.entries@.len() == 0 || a.project@.tracks.len() == 0) ==> b
        == a && fx.len() == 0
    &&& (a.arrangement.clipboard.entries@.len() > 0 && a.project@.tracks.len() > 0) ==> {
        let orig = a.project@.clips;
        let entries = entries_view(a.arrangement.clipboard.entries@);
        let srcs = entry_clips(entries);
        let base = paste_base(a.project@.tracks, a.arrangement.selected_track);
        let added = b.project@.clips.skip(orig.len() as int);
        &&& fresh_ids_v4(b.project@.clips, orig.len() as int)
        &&& b.project@.clips.len() == orig.len() + entries.len()
        &&& b.project@.clips.take(orig.len() as int) == orig
        &&& forall|j: int| 0 <= j < entries.len() ==> #[trigger] added[j] == pasted_clip(
            entries[j],
            a.project@.tracks,
            base,
            a.transport.position,
            a.piano_roll.next_note_id + notes_total(srcs.take(j)),
            added[j].id,
        )
        &&& b.piano_roll.next_note_id == a.piano_roll.next_note_id + notes_total(srcs)
        &&& b.arrangement.selected_clips@ == added.map_values(|c: ClipView| c.id).to_set()
        &&& fx =~= added_effects(srcs, added)
        &&& b.project@.tracks == a.project@.tracks
        &&& crate::app_data::piano_same_but_next_id(a.piano_roll, b.piano_roll)
        &&& b.arrangement.selected_track == a.arrangement.selected_track
        &&& b.arrangement.snap_grid == a.arrangement.snap_grid
        &&& b.arrangement.clipboard == a.arrangement.clipboard
        &&& b.undo_manager == a.undo_manager
        &&& b.transport == a.transport
        &&& b.active_view == a.active_view
        &&& b.browser == a.browser
        &&& b.show_preferences == a.show_preferences
    }
}

impl AppData {
    /// Paste the clipboard at the playhead: each entry becomes a clip under
    /// a fresh random id, on the track found from the selected track (or the
    /// first) plus the entry's offset, with freshly numbered notes; the new
    /// clips share their sources' audio, are installed and become the
    /// selection. Nothing happens with an empty clipboard or no tracks.
    pub fn paste_clips(&mut self) -> (fx: Vec<Effect>)
        requires
            paste_fits(*old(self)),
        ensures
            paste_clips_result(*old(self), *final(self), fx@),
    {
        let nt = self.project.tracks.len();
        if self.arrangement.clipboard.entries.len() == 0 || nt == 0 {
            return Vec::new();
        }
        let playhead = self.transport.position;
        let ghost orig = self.project@.clips;
        let ghost tracks = self.project@.tracks;
        let ghost entries = entries_view(self.arrangement.clipboard.entries@);
        let ghost srcs = entry_clips(entries);
        let ghost first = self.piano_roll.next_note_id as int;
        let base: i64 = match self.arrangement.selected_track {
            Some(tid) => match self.project.track_index(tid) {
                Some(i) => i as i64,
                None => 0,
            },
            None => 0,
        };
        proof {
            assert(base == paste_base(tracks, self.arrangement.selected_track));
        }
        let n0 = self.project.clips.len();
        let mut new_ids: Vec<ClipId> = Vec::new();
        let mut fx: Vec<Effect> = Vec::new();
        let n = self.arrangement.clipboard.entries.len();
        for k in 0..n
            invariant
                n == entries.len(),
                n0 == orig.len(),
                nt == tracks.len(),
                nt > 0,
                playhead == old(self).transport.position,
                orig == old(self).project@.clips,
                tracks == old(self).project@.tracks,
                entries == entries_view(old(self).arrangement.clipboard.entries@),
                srcs == entry_clips(entries),
                first == old(self).piano_roll.next_note_id,
                base == paste_base(tracks, old(self).arrangement.selected_track),
                paste_fits(*old(self)),
                self.project@.tracks == tracks,
                fresh_ids_v4(self.project@.clips, n0 as int),
                self.project@.clips.take(n0 as int) == orig,
                self.project@.clips.len() == n0 + k,
                forall|j: int| 0 <= j < k ==> #[trigger] self.project@.clips[n0 + j] == pasted_clip(
                    entries[j],
                    tracks,
                    base as int,
                    playhead,
                    first + notes_total(srcs.take(j)),
                    self.project@.clips[n0 + j].id,
                ),
                self.piano_roll.next_note_id == first + notes_total(srcs.take(k as int)),
                new_ids@ == self.project@.clips.skip(n0 as int).map_values(|c: ClipView| c.id),
                fx@ == added_effects(srcs.take(k as int), self.project@.clips.skip(n0 as int)),
                crate::app_data::piano_same_but_next_id(old(self).piano_roll, self.piano_roll),
                self.arrangement == old(self).arrangement,
                self.undo_manager == old(self).undo_manager,
                self.transport == old(self).transport,
                self.active_view == old(self).active_view,
                self.browser == old(self).browser,
                self.show_preferences == old(self).show_preferences,
        {
            let ghost cur = self.project@.clips;
            let entry = &self.arrangement.clipboard.entries[k];
            proof {
                assert(entry@ == entries[k as int]);
                lemma_notes_total_prefix(srcs, k as int + 1);
                assert(srcs.take(k as int + 1) == srcs.take(k as int).push(srcs[k as int]));
                lemma_notes_total_push(srcs.take(k as int), srcs[k as int]);
                lemma_notes_total_nonneg(srcs.take(k as int));
                assert(srcs[k as int] == entry.clip@);
            }
            let sum: i64 = base + entry.track_index_offset as i64;
            let target: usize = if sum < 0 {
                0
            } else if sum > (nt - 1) as i64 {
                nt - 1
            } else {
                sum as usize
            };
            let new_id = ClipId::new();
            let mut clip = entry.clip.clone();
            let from = entry.clip.id;
            clip.id = new_id;
            clip.track_id = self.project.tracks[target].id;
            clip.start_tick = playhead + entry.tick_offset;
            let mut notes = Vec::new();
            std::mem::swap(&mut notes, &mut clip.notes);
            self.renumber_notes(&mut notes);
            clip.notes = notes;
            proof {
                assert(self.project@.tracks[target as int] == self.project.tracks@[target as int]@);
                assert(clip@ == pasted_clip(entries[k as int], tracks, base as int, playhead, first + notes_total(srcs.take(k as int)), new_id));
            }
            fx.push(Effect::ShareAudio { from, to: new_id });
            new_ids.push(new_id);
            self.project.push_clip(clip);
            fx.push(Effect::InstallClipInEngine { clip_id: new_id });
            proof {
                let added = self.project@.clips.skip(n0 as int);
                assert(self.project@.clips.take(n0 as int) =~= orig);
                assert forall|j: int| 0 <= j < k + 1 implies #[trigger] self.project@.clips[n0 + j] == pasted_clip(
                    entries[j],
                    tracks,
                    base as int,
                    playhead,
                    first + notes_total(srcs.take(j)),
                    self.project@.clips[n0 + j].id,
                ) by {
                    if j < k {
                        assert(self.project@.clips[n0 + j] == cur[n0 + j]);
                    }
                }
                assert(new_ids@ =~= added.map_values(|c: ClipView| c.id));
                assert(srcs.take(k as int + 1).drop_last() == srcs.take(k as int));
                lemma_added_effects_prefix(srcs.take(k as int), cur.skip(n0 as int), added);
                assert(fx@ =~= added_effects(srcs.take(k as int + 1), added));
            }
        }
        proof {
            assert(srcs.take(n as int) == srcs);
            let added = self.project@.clips.skip(n0 as int);
            assert forall|j: int| 0 <= j < entries.len() implies #[trigger] added[j] == pasted_clip(
                entries[j],
                tracks,
                base as int,
                playhead,
                first + notes_total(srcs.take(j)),
                added[j].id,
            ) by {
                assert(added[j] == self.project@.clips[n0 + j]);
            }
        }
        self.arrangement.selected_clips = ClipSelection::from_ids(&new_ids);
        fx
    }
}

/// The playhead lies strictly inside the clip.
pub open spec fn straddles(c: ClipView, playhead: i64) -> bool {
    c.start_tick < playhead < c.start_tick + c.duration_ticks
}

/// The first clip of each listed id that the playhead splits, in list order.
pub open spec fn split_sources(clips: Seq<ClipView>, ids: Seq<ClipId>, playhead: i64) -> Seq<ClipView>
    decreases ids.len(),
{
    if ids.len() == 0 {
        Seq::empty()
    } else {
        split_sources(clips, ids.drop_last(), playhead) + match clip_pos(clips, ids.last()) {
            Some(i) => if straddles(clips[i], playhead) { seq![clips[i]] } else { Seq::empty() },
            None => Seq::empty(),
        }
    }
}

/// `i64::saturating_sub`.
pub open spec fn sat_sub(a: int, b: int) -> int {
    if a - b < i64::MIN {
        i64::MIN as int
    } else if a - b > i64::MAX {
        i64::MAX as int
    } else {
        a - b
    }
}

/// Length of a note's part after the cut at `cut` (relative to the clip).
pub open spec fn right_len(n: Note, cut: i64) -> int {
    if n.start_tick < cut { sat_sub(n.duration_ticks as int, cut - n.start_tick) } else { n.duration_ticks as int }
}

/// A note has a part after the cut.
pub open spec fn keeps_right(cut: i64) -> spec_fn(Note) -> bool {
    |n: Note| n.start_tick + n.duration_ticks > cut && right_len(n, cut) != 0
}

/// A note's part after the cut, relative to the cut.
pub open spec fn right_note(n: Note, cut: i64) -> Note {
    Note {
        start_tick: if n.start_tick < cut { 0 } else { (n.start_tick - cut) as i64 },
        duration_ticks: right_len(n, cut) as i64,
        ..n
    }
}

/// The parts of the notes after the cut.
pub open spec fn right_notes(notes: Seq<Note>, cut: i64) -> Seq<Note> {
    notes.filter(keeps_right(cut)).map_values(|n: Note| right_note(n, cut))
}

/// The suffix of a right half's name.
pub open spec fn right_suffix() -> Seq<char> {
    seq![' ', '(', 'R', ')']
}

/// The part of a clip before the playhead (same id).
pub open spec fn left_part(c: ClipView, playhead: i64) -> ClipView {
    let cut = (playhead - c.start_tick) as i64;
    ClipView {
        duration_ticks: cut,
        notes: if c.audio_file is None { trimmed(c.notes, cut) } else { c.notes },
        ..c
    }
}

/// The part of a clip from the playhead on, under a new id.
pub open spec fn right_part(c: ClipView, playhead: i64, id: ClipId) -> ClipView {
    let cut = (playhead - c.start_tick) as i64;
    ClipView {
        id,
        start_tick: playhead,
        duration_ticks: (c.start_tick + c.duration_ticks - playhead) as i64,
        name: c.name + right_suffix(),
        notes: if c.audio_file is None { right_notes(c.notes, cut) } else { c.notes },
        ..c
    }
}

/// The clips before the appended right halves, after splitting.
pub open spec fn clips_after_split(clips: Seq<ClipView>, sel: Set<ClipId>, playhead: i64) -> Seq<ClipView> {
    Seq::new(clips.len(), |i: int| if sel.contains(clips[i].id) && first_of_its_id(clips, i) && straddles(clips[i], playhead) {
        left_part(clips[i], playhead)
    } else {
        clips[i]
    })
}

/// For each split clip: take it out of the engine, reinstall its left part
/// and install its right part.
pub open spec fn split_effects(srcs: Seq<ClipView>, added: Seq<ClipView>) -> Seq<Effect>
    decreases srcs.len(),
{
    if srcs.len() == 0 {
        Seq::empty()
    } else {
        split_effects(srcs.drop_last(), added) + seq![
            Effect::RemoveClipFromEngine { clip_id: srcs.last().id, track_id: srcs.last().track_id, is_audio: srcs.last().audio_file is Some },
            Effect::InstallClipInEngine { clip_id: srcs.last().id },
            Effect::InstallClipInEngine { clip_id: added[srcs.len() - 1].id },
        ]
    }
}

/// Splitting this clip at the playhead stays within machine integers.
pub open spec fn clip_split_fits(c: ClipView, playhead: i64) -> bool {
    &&& i64::MIN <= c.start_tick + c.duration_ticks <= i64::MAX
    &&& straddles(c, playhead) ==> {
        &&& playhead - c.start_tick <= i64::MAX
        &&& c.audio_file is None ==> forall|k: int| 0 <= k < c.notes.len() ==> {
            &&& i64::MIN <= #[trigger] c.notes[k].start_tick + c.notes[k].duration_ticks <= i64::MAX
            &&& c.notes[k].start_tick < playhead - c.start_tick ==> playhead - c.start_tick - c.notes[k].start_tick <= i64::MAX
        }
    }
}

/// Splitting the selected clips stays within machine integers.
pub open spec fn split_fits(a: AppData) -> bool {
    let clips = a.project@.clips;
    forall|i: int| 0 <= i < clips.len() && a.arrangement.selected_clips@.contains(#[trigger] clips[i].id)
        && first_of_its_id(clips, i) ==> clip_split_fits(clips[i], a.transport.position)
}

/// The parts of the notes after the cut, relative to it.
fn right_notes_of(notes: &Vec<Note>, cut: i64) -> (r: Vec<Note>)
    requires
        cut > 0,
        forall|k: int| 0 <= k < notes@.len() ==> {
            &&& i64::MIN <= #[trigger] notes@[k].start_tick + notes@[k].duration_ticks <= i64::MAX
            &&& notes@[k].start_tick < cut ==> cut - notes@[k].start_tick <= i64::MAX
        },
    ensures
        r@ == right_notes(notes@, cut),
{
    let ghost pred = keeps_right(cut);
    let mut r: Vec<Note> = Vec::new();
    let n = notes.len();
    for k in 0..n
        invariant
            n == notes@.len(),
            cut > 0,
            forall|k: int| 0 <= k < notes@.len() ==> {
                &&& i64::MIN <= #[trigger] notes@[k].start_tick + notes@[k].duration_ticks <= i64::MAX
                &&& notes@[k].start_tick < cut ==> cut - notes@[k].start_tick <= i64::MAX
            },
            pred == keeps_right(cut),
            r@ == notes@.take(k as int).filter(pred).map_values(|n: Note| right_note(n, cut)),
    {
        proof {
            assert(notes@.take(k as int + 1) == notes@.take(k as int).push(notes@[k as int]));
            notes@.take(k as int).lemma_filter_push(notes@[k as int], pred);
        }
        let x = notes[k];
        let note_end = x.start_tick + x.duration_ticks;
        if note_end > cut {
            let (new_start, new_dur) = if x.start_tick < cut {
                let overshoot = cut - x.start_tick;
                let d: i128 = x.duration_ticks as i128 - overshoot as i128;
                (0i64, if d < -0x8000_0000_0000_0000 { -0x8000_0000_0000_0000i64 } else { d as i64 })
            } else {
                (x.start_tick - cut, x.duration_ticks)
            };
            if new_dur != 0 {
                r.push(Note { start_tick: new_start, duration_ticks: new_dur, ..x });
            }
        }
        proof {
            assert(r@ =~= notes@.take(k as int + 1).filter(pred).map_values(|n: Note| right_note(n, cut)));
        }
    }
    proof {
        assert(notes@.take(n as int) == notes@);
    }
    r
}

/// The effects for the first clips depend only on those clips' ids.
proof fn lemma_split_effects_prefix(srcs: Seq<ClipView>, a: Seq<ClipView>, b: Seq<ClipView>)
    requires
        srcs.len() <= a.len(),
        srcs.len() <= b.len(),
        forall|j: int| 0 <= j < srcs.len() ==> a[j].id == b[j].id,
    ensures
        split_effects(srcs, a) == split_effects(srcs, b),
    decreases srcs.len(),
{
    if srcs.len() > 0 {
        lemma_split_effects_prefix(srcs.drop_last(), a, b);
    }
}

/// How splitting the selected clips at the playhead changes the state `a`
/// into `b` with effects `fx`.
pub open spec fn split_clips_at_playhead_result(a: AppData, b: AppData, fx: Seq<Effect>) -> bool {
    &&& ({
        let orig = a.project@.clips;
        let ph = a.transport.position;
        let srcs = split_sources(orig, a.arrangement.selected_clips.order(), ph);
        let added = b.project@.clips.skip(orig.len() as int);
        &&& fresh_ids_v4(b.project@.clips, orig.len() as int)
        &&& b.project@.clips.len() == orig.len() + srcs.len()
        &&& b.project@.clips.take(orig.len() as int) == clips_after_split(orig, a.arrangement.selected_clips@, ph)
        &&& forall|j: int| 0 <= j < srcs.len() ==> #[trigger] added[j] == right_part(srcs[j], ph, added[j].id)
        &&& b.arrangement.selected_clips@ == a.arrangement.selected_clips@.union(
            added.map_values(|c: ClipView| c.id).to_set(),
        )
        &&& fx =~= split_effects(srcs, added)
    })
    &&& b.project@.tracks == a.project@.tracks
    &&& b.piano_roll == a.piano_roll
    &&& b.arrangement.selected_track == a.arrangement.selected_track
    &&& b.arrangement.snap_grid == a.arrangement.snap_grid
    &&& b.arrangement.clipboard == a.arrangement.clipboard
    &&& b.undo_manager == a.undo_manager
    &&& b.transport == a.transport
    &&& b.active_view == a.active_view
    &&& b.browser == a.browser
    &&& b.show_preferences == a.show_preferences
}

impl AppData {
    /// Split each selected clip that the playhead lies strictly inside: the
    /// clip keeps its id and the part before the playhead (MIDI notes cut
    /// there); the part from the playhead on becomes a new clip under a
    /// fresh random id, named with " (R)", its notes moved to start at the
    /// cut. The right halves join the selection. Each split clip is
    /// reinstalled and its right half installed.
    pub fn split_clips_at_playhead(&mut self) -> (fx: Vec<Effect>)
        requires
            split_fits(*old(self)),
        ensures
            split_clips_at_playhead_result(*old(self), *final(self), fx@),
    {
        let playhead = self.transport.position;
        let ids = self.arrangement.selected_clips.ids();
        let ghost orig = self.project@.clips;
        let ghost sel = self.arrangement.selected_clips@;
        let n0 = self.project.clips.len();
        let mut new_ids: Vec<ClipId> = Vec::new();
        let mut fx: Vec<Effect> = Vec::new();
        let n = ids.len();
        proof {
            reveal_strlit(" (R)");
            assert(" (R)"@ =~= right_suffix());
        }
        for k in 0..n
            invariant
                n == ids@.len(),
                ids@.no_duplicates(),
                ids@ == old(self).arrangement.selected_clips.order(),
                ids@.to_set() == sel,
                sel == old(self).arrangement.selected_clips@,
                n0 == orig.len(),
                orig == old(self).project@.clips,
                playhead == old(self).transport.position,
                split_fits(*old(self)),
                " (R)"@ == right_suffix(),
                fresh_ids_v4(self.project@.clips, n0 as int),
                self.project@.clips.take(n0 as int) == Seq::new(orig.len(), |i: int| if ids@.take(k as int).contains(orig[i].id)
                    && first_of_its_id(orig, i) && straddles(orig[i], playhead) {
                    left_part(orig[i], playhead)
                } else {
                    orig[i]
                }),
                self.project@.clips.len() == n0 + split_sources(orig, ids@.take(k as int), playhead).len(),
                forall|j: int| 0 <= j < split_sources(orig, ids@.take(k as int), playhead).len() ==> #[trigger] self.project@.clips[n0 + j]
                    == right_part(split_sources(orig, ids@.take(k as int), playhead)[j], playhead, self.project@.clips[n0 + j].id),
                new_ids@ == self.project@.clips.skip(n0 as int).map_values(|c: ClipView| c.id),
                fx@ == split_effects(split_sources(orig, ids@.take(k as int), playhead), self.project@.clips.skip(n0 as int)),
                self.project@.tracks == old(self).project@.tracks,
                self.piano_roll == old(self).piano_roll,
                self.arrangement == old(self).arrangement,
                self.undo_manager == old(self).undo_manager,
                self.transport == old(self).transport,
                self.active_view == old(self).active_view,
                self.browser == old(self).browser,
                self.show_preferences == old(self).show_preferences,
        {
            let id = ids[k];
            let ghost srcs = split_sources(orig, ids@.take(k as int), playhead);
            let ghost cur = self.project@.clips;
            proof {
                assert(ids@.take(k as int + 1).drop_last() == ids@.take(k as int));
                assert(ids@.take(k as int + 1).last() == id);
                assert(same_ids(cur.take(n0 as int), orig));
                lemma_same_ids_same_pos(cur.take(n0 as int), orig, id);
                assert(clips_view(self.project.clips@).take(n0 as int) == cur.take(n0 as int));
            }
            match clip_index_before(&self.project.clips, n0, id) {
                Some(idx) => {
                    proof {
                        lemma_clip_pos_facts(orig, id);
                        assert(!ids@.take(k as int).contains(id)) by {
                            if ids@.take(k as int).contains(id) {
                                let j = choose|j: int| 0 <= j < k && #[trigger] ids@.take(k as int)[j] == id;
                                assert(ids@[j] == ids@[k as int]);
                            }
                        }
                        assert(cur[idx as int] == cur.take(n0 as int)[idx as int]);
                        assert(cur[idx as int] == orig[idx as int]);
                        assert(first_of_its_id(orig, idx as int));
                        assert(ids@.contains(id));
                        assert(sel.contains(orig[idx as int].id));
                        assert(clip_split_fits(orig[idx as int], playhead));
                    }
                    let clip = self.project.clips[idx].clone();
                    proof {
                        assert(self.project.clips@[idx as int]@ == cur[idx as int]);
                    }
                    let clip_end = clip.start_tick + clip.duration_ticks;
                    if playhead <= clip.start_tick || playhead >= clip_end {
                        proof {
                            assert(split_sources(orig, ids@.take(k as int + 1), playhead) == srcs);
                            assert(self.project@.clips.take(n0 as int) =~= Seq::new(orig.len(), |i: int| if ids@.take(k as int + 1).contains(orig[i].id)
                                && first_of_its_id(orig, i) && straddles(orig[i], playhead) {
                                left_part(orig[i], playhead)
                            } else {
                                orig[i]
                            })) by {
                                assert forall|i: int| 0 <= i < orig.len() implies #[trigger] self.project@.clips.take(n0 as int)[i] == (if ids@.take(k as int + 1).contains(orig[i].id)
                                    && first_of_its_id(orig, i) && straddles(orig[i], playhead) {
                                    left_part(orig[i], playhead)
                                } else {
                                    orig[i]
                                }) by {
                                    lemma_take_contains_step(ids@, k as int, orig[i].id);
                                    if orig[i].id == id && first_of_its_id(orig, i) {
                                        assert(i == idx);
                                    }
                                }
                            }
                        }
                    } else {
                        fx.push(Effect::RemoveClipFromEngine { clip_id: id, track_id: clip.track_id, is_audio: clip.audio_file.is_some() });
                        let cut = playhead - clip.start_tick;
                        let mut left = clip.clone();
                        left.duration_ticks = cut;
                        if clip.audio_file.is_none() {
                            proof {
                                assert forall|q: int| 0 <= q < clip@.notes.len() && #[trigger] clip@.notes[q].start_tick < cut implies {
                                    &&& i64::MIN <= clip@.notes[q].start_tick + clip@.notes[q].duration_ticks <= i64::MAX
                                    &&& cut - clip@.notes[q].start_tick <= i64::MAX
                                } by {}
                            }
                            left.notes = trim_notes(&clip.notes, cut);
                        }
                        proof {
                            assert(left@ == left_part(orig[idx as int], playhead));
                        }
                        let right_id = ClipId::new();
                        let mut right = clip.clone();
                        right.id = right_id;
                        right.start_tick = playhead;
                        right.duration_ticks = clip_end - playhead;
                        right.name.append(" (R)");
                        if clip.audio_file.is_none() {
                            right.notes = right_notes_of(&clip.notes, cut);
                        }
                        proof {
                            assert(right@ == right_part(orig[idx as int], playhead, right_id));
                        }
                        self.project.set_clip(idx, left);
                        fx.push(Effect::InstallClipInEngine { clip_id: id });
                        let ghost mid = self.project@.clips;
                        new_ids.push(right_id);
                        self.project.push_clip(right);
                        fx.push(Effect::InstallClipInEngine { clip_id: right_id });
                        proof {
                            let nsrcs = srcs.push(orig[idx as int]);
                            assert(split_sources(orig, ids@.take(k as int + 1), playhead) == nsrcs);
                            assert(nsrcs.drop_last() == srcs);
                            let added = self.project@.clips.skip(n0 as int);
                            assert(self.project@.clips.take(n0 as int) =~= Seq::new(orig.len(), |i: int| if ids@.take(k as int + 1).contains(orig[i].id)
                                && first_of_its_id(orig, i) && straddles(orig[i], playhead) {
                                left_part(orig[i], playhead)
                            } else {
                                orig[i]
                            })) by {
                                assert forall|i: int| 0 <= i < orig.len() implies #[trigger] self.project@.clips.take(n0 as int)[i] == (if ids@.take(k as int + 1).contains(orig[i].id)
                                    && first_of_its_id(orig, i) && straddles(orig[i], playhead) {
                                    left_part(orig[i], playhead)
                                } else {
                                    orig[i]
                                }) by {
                                    lemma_take_contains_step(ids@, k as int, orig[i].id);
                                    assert(self.project@.clips[i] == mid[i]);
                                    if i == idx {
                                        assert(first_of_its_id(orig, i));
                                    } else {
                                        assert(mid[i] == cur[i]);
                                        assert(cur[i] == cur.take(n0 as int)[i]);
                                        if orig[i].id == id {
                                            assert(!first_of_its_id(orig, i));
                                        }
                                    }
                                }
                            }
                            assert forall|j: int| 0 <= j < nsrcs.len() implies #[trigger] self.project@.clips[n0 + j]
                                == right_part(nsrcs[j], playhead, self.project@.clips[n0 + j].id) by {
                                if j < srcs.len() {
                                    assert(self.project@.clips[n0 + j] == cur[n0 + j]);
                                }
                            }
                            assert(new_ids@ =~= added.map_values(|c: ClipView| c.id));
                            lemma_split_effects_prefix(srcs, cur.skip(n0 as int), added);
                            assert(fx@ =~= split_effects(nsrcs, added));
                        }
                    }
                },
                None => {
                    proof {
                        lemma_clip_pos_facts(orig, id);
                        assert(split_sources(orig, ids@.take(k as int + 1), playhead) == srcs);
                        assert(self.project@.clips.take(n0 as int) =~= Seq::new(orig.len(), |i: int| if ids@.take(k as int + 1).contains(orig[i].id)
                            && first_of_its_id(orig, i) && straddles(orig[i], playhead) {
                            left_part(orig[i], playhead)
                        } else {
                            orig[i]
                        })) by {
                            assert forall|i: int| 0 <= i < orig.len() implies #[trigger] self.project@.clips.take(n0 as int)[i] == (if ids@.take(k as int + 1).contains(orig[i].id)
                                && first_of_its_id(orig, i) && straddles(orig[i], playhead) {
                                left_part(orig[i], playhead)
                            } else {
                                orig[i]
                            }) by {
                                lemma_take_contains_step(ids@, k as int, orig[i].id);
                            }
                        }
                    }
                },
            }
        }
        proof {
            assert(ids@.take(n as int) == ids@);
            let srcs = split_sources(orig, ids@, playhead);
            let added = self.project@.clips.skip(n0 as int);
            assert forall|j: int| 0 <= j < srcs.len() implies #[trigger] added[j] == right_part(srcs[j], playhead, added[j].id) by {
                assert(added[j] == self.project@.clips[n0 + j]);
            }
            assert(self.project@.clips.take(n0 as int) =~= clips_after_split(orig, sel, playhead)) by {
                assert forall|i: int| 0 <= i < orig.len() implies ids@.contains(orig[i].id) == sel.contains(orig[i].id) by {}
            }
        }
        if new_ids.len() > 0 {
            let mut sel_now = self.arrangement.selected_clips.clone();
            let m = new_ids.len();
            for q in 0..m
                invariant
                    m == new_ids@.len(),
                    sel_now@ == sel.union(new_ids@.take(q as int).to_set()),
            {
                sel_now.insert(new_ids[q]);
                proof {
                    assert(new_ids@.take(q as int + 1) == new_ids@.take(q as int).push(new_ids@[q as int]));
                    new_ids@.take(q as int).lemma_push_to_set_commute(new_ids@[q as int]);
                    assert(sel_now@ =~= sel.union(new_ids@.take(q as int + 1).to_set()));
                }
            }
            proof {
                assert(new_ids@.take(m as int) == new_ids@);
            }
            self.arrangement.selected_clips = sel_now;
        } else {
            proof {
                assert(new_ids@.to_set() =~= Set::<ClipId>::empty());
                assert(sel.union(new_ids@.to_set()) =~= sel);
            }
        }
        fx
    }
}

/// Membership in a one-longer prefix.
proof fn lemma_take_contains_step(ids: Seq<ClipId>, k: int, x: ClipId)
    requires
        0 <= k < ids.len(),
    ensures
        ids.take(k + 1).contains(x) == (ids.take(k).contains(x) || x == ids[k]),
{
    if ids.take(k + 1).contains(x) {
        let j = choose|j: int| 0 <= j < k + 1 && #[trigger] ids.take(k + 1)[j] == x;
        if j < k {
            assert(ids.take(k)[j] == x);
        }
    }
    if ids.take(k).contains(x) {
        let j = choose|j: int| 0 <= j < k && #[trigger] ids.take(k)[j] == x;
        assert(ids.take(k + 1)[j] == x);
    }
    if x == ids[k] {
        assert(ids.take(k + 1)[k] == x);
    }
}

/// Law: the halves of a split clip cover it exactly: the left part keeps
/// the clip's id and start, the right part starts where the left one ends
/// and ends where the clip ended.
pub proof fn lemma_split_halves_cover(c: ClipView, playhead: i64, id: ClipId)
    requires
        straddles(c, playhead),
        clip_split_fits(c, playhead),
    ensures
        left_part(c, playhead).id == c.id,
        left_part(c, playhead).start_tick == c.start_tick,
        left_part(c, playhead).duration_ticks > 0,
        right_part(c, playhead, id).duration_ticks > 0,
        left_part(c, playhead).start_tick + left_part(c, playhead).duration_ticks == right_part(c, playhead, id).start_tick,
        right_part(c, playhead, id).start_tick + right_part(c, playhead, id).duration_ticks == c.start_tick + c.duration_ticks,
{
}

/// Law: every note kept by trimming at `end` starts before `end` and ends
/// no later than it.
pub proof fn lemma_trimmed_within(notes: Seq<Note>, end: i64)
    requires
        trim_fits(notes, end),
    ensures
        forall|k: int| 0 <= k < trimmed(notes, end).len() ==> {
            &&& (#[trigger] trimmed(notes, end)[k]).start_tick < end
            &&& trimmed(notes, end)[k].start_tick + trimmed(notes, end)[k].duration_ticks <= end
        },
{
    broadcast use vstd::seq_lib::group_filter_ensures;
    let f = notes.filter(|n: Note| n.start_tick < end);
    assert forall|k: int| 0 <= k < trimmed(notes, end).len() implies {
        &&& (#[trigger] trimmed(notes, end)[k]).start_tick < end
        &&& trimmed(notes, end)[k].start_tick + trimmed(notes, end)[k].duration_ticks <= end
    } by {
        assert((|n: Note| n.start_tick < end)(f[k]));
    }
}

/// Law: a moved clip never starts before 0 and lands on a track of the
/// project.
pub proof fn lemma_moved_clip_in_bounds(tracks: Seq<TrackView>, c: ClipView, dt: i64, di: i32)
    requires
        tracks.len() > 0,
        c.start_tick + dt <= i64::MAX,
    ensures
        moved_clip(tracks, c, dt, di).start_tick >= 0,
        exists|t: int| 0 <= t < tracks.len() && tracks[t].id == moved_clip(tracks, c, dt, di).track_id,
{
    let target = clamp_int(track_index_or_zero(tracks, c.track_id) + di, 0, tracks.len() - 1);
    assert(0 <= target < tracks.len());
}

/// Law: after deleting the selected clips none of them is left, and every
/// other clip is.
pub proof fn lemma_deleted_clips_gone(clips: Seq<ClipView>, sel: Set<ClipId>)
    ensures
        forall|k: int| 0 <= k < clips.filter(unselected(sel)).len() ==> !sel.contains(#[trigger] clips.filter(unselected(sel))[k].id),
        forall|i: int| 0 <= i < clips.len() && !sel.contains(#[trigger] clips[i].id) ==> clips.filter(unselected(sel)).contains(clips[i]),
{
    broadcast use vstd::seq_lib::group_filter_ensures;
    assert forall|k: int| 0 <= k < clips.filter(unselected(sel)).len() implies !sel.contains(#[trigger] clips.filter(unselected(sel))[k].id) by {
        assert(unselected(sel)(clips.filter(unselected(sel))[k]));
    }
}

} // verus!
