//! Run-time tests of the conditions under which the editing operations
//! stay within machine integers, so that a caller can refuse an event
//! before handing it on.

use vstd::prelude::*;
use crate::app_data::AppData;
use crate::clip_ops::{
    clip_split_fits, copy_fits, duplicate_fits, entry_clips, first_of_its_id, lemma_notes_total_prefix,
    lemma_notes_total_push, lemma_sources_notes_grow, move_fits, notes_total, paste_base, paste_fits,
    resize_fits, sources, split_fits, straddles, track_index_or_zero, trim_fits,
};
use crate::clipboard::entries_view;
use crate::midi::Note;
use crate::note_selection::{id_listed, open_clip, selected_quantize_fits};
use crate::time::{quantize_ticks, snap_fits, snap_nearest_fits};
use crate::track::ClipState;

verus! {

/// Whether cutting these notes at `end` stays within machine integers.
fn trim_fits_check(notes: &Vec<Note>, end: i64) -> (r: bool)
    ensures
        r == trim_fits(notes@, end),
{
    let n = notes.len();
    for k in 0..n
        invariant
            n == notes@.len(),
            forall|j: int| 0 <= j < k && #[trigger] notes@[j].start_tick < end ==> {
                &&& i64::MIN <= notes@[j].start_tick + notes@[j].duration_ticks <= i64::MAX
                &&& end - notes@[j].start_tick <= i64::MAX
            },
    {
        let s = notes[k].start_tick;
        if s < end {
            let e: i128 = s as i128 + notes[k].duration_ticks as i128;
            let d: i128 = end as i128 - s as i128;
            if e < -0x8000_0000_0000_0000 || e > 0x7FFF_FFFF_FFFF_FFFF || d > 0x7FFF_FFFF_FFFF_FFFF {
                return false;
            }
        }
    }
    true
}

/// Whether splitting this clip at `playhead` stays within machine integers.
fn clip_split_fits_check(c: &ClipState, playhead: i64) -> (r: bool)
    ensures
        r == clip_split_fits(c@, playhead),
{
    let end: i128 = c.start_tick as i128 + c.duration_ticks as i128;
    if end < -0x8000_0000_0000_0000 || end > 0x7FFF_FFFF_FFFF_FFFF {
        return false;
    }
    if !(c.start_tick < playhead && (playhead as i128) < end) {
        return true;
    }
    let cut: i128 = playhead as i128 - c.start_tick as i128;
    if cut > 0x7FFF_FFFF_FFFF_FFFF {
        return false;
    }
    if c.audio_file.is_some() {
        return true;
    }
    let notes = &c.notes;
    let n = notes.len();
    for k in 0..n
        invariant
            n == notes@.len(),
            notes@ == c@.notes,
            cut == playhead - c.start_tick,
            cut <= i64::MAX,
            c@.audio_file is None,
            straddles(c@, playhead),
            i64::MIN <= c.start_tick + c.duration_ticks <= i64::MAX,
            forall|j: int| 0 <= j < k ==> {
                &&& i64::MIN <= #[trigger] notes@[j].start_tick + notes@[j].duration_ticks <= i64::MAX
                &&& notes@[j].start_tick < cut ==> cut - notes@[j].start_tick <= i64::MAX
            },
    {
        let s = notes[k].start_tick;
        let e: i128 = s as i128 + notes[k].duration_ticks as i128;
        if e < -0x8000_0000_0000_0000 || e > 0x7FFF_FFFF_FFFF_FFFF {
            proof {
                assert(c@.notes[k as int] == notes@[k as int]);
            }
            return false;
        }
        if (s as i128) < cut && cut - s as i128 > 0x7FFF_FFFF_FFFF_FFFF {
            proof {
                assert(c@.notes[k as int] == notes@[k as int]);
            }
            return false;
        }
    }
    true
}

impl AppData {
    /// Whether quantising the selected notes stays within machine integers.
    pub fn selected_quantize_fits_check(&self) -> (r: bool)
        ensures
            r == selected_quantize_fits(*self),
    {
        let cid = match self.piano_roll.active_clip_id {
            Some(c) => c,
            None => return true,
        };
        let i = match self.project.clip_index(cid) {
            Some(i) => i,
            None => return true,
        };
        let notes = &self.project.clips[i].notes;
        proof {
            assert(self.project.clips@[i as int]@ == self.project@.clips[i as int]);
            assert(open_clip(*self) == Some(self.project@.clips[i as int]));
        }
        let grid = self.piano_roll.quantize;
        let n = notes.len();
        for k in 0..n
            invariant
                n == notes@.len(),
                notes@ == open_clip(*self)->0.notes,
                open_clip(*self) is Some,
                grid == self.piano_roll.quantize,
                forall|j: int| 0 <= j < k && self.piano_roll.selected_notes@.contains(#[trigger] notes@[j].id)
                    ==> snap_nearest_fits(notes@[j].start_tick as int, quantize_ticks(grid)),
        {
            if id_listed(&self.piano_roll.selected_notes, notes[k].id) && !snap_fits(notes[k].start_tick, grid) {
                return false;
            }
        }
        true
    }

    /// Whether moving the selected clips by `delta_tick` ticks and
    /// `delta_track_index` tracks stays within machine integers.
    pub fn move_fits_check(&self, delta_tick: i64, delta_track_index: i32) -> (r: bool)
        ensures
            r == move_fits(*self, delta_tick, delta_track_index),
    {
        if self.project.tracks.len() > 0x7FFF_FFFF {
            return false;
        }
        let n = self.project.clips.len();
        for k in 0..n
            invariant
                n == self.project@.clips.len(),
                self.project@.tracks.len() <= i32::MAX,
                forall|i: int| 0 <= i < k && self.arrangement.selected_clips@.contains(#[trigger] self.project@.clips[i].id) ==> {
                    &&& i64::MIN <= self.project@.clips[i].start_tick + delta_tick <= i64::MAX
                    &&& i32::MIN <= track_index_or_zero(self.project@.tracks, self.project@.clips[i].track_id) + delta_track_index <= i32::MAX
                },
        {
            let c = &self.project.clips[k];
            proof {
                assert(c@ == self.project@.clips[k as int]);
            }
            if self.arrangement.selected_clips.contains(&c.id) {
                let s: i128 = c.start_tick as i128 + delta_tick as i128;
                let t0: i128 = match self.project.track_index(c.track_id) {
                    Some(i) => i as i128,
                    None => 0,
                };
                let t: i128 = t0 + delta_track_index as i128;
                proof {
                    assert(t0 == track_index_or_zero(self.project@.tracks, self.project@.clips[k as int].track_id));
                }
                if s < -0x8000_0000_0000_0000 || s > 0x7FFF_FFFF_FFFF_FFFF || t < -0x8000_0000 || t > 0x7FFF_FFFF {
                    proof {
                        assert(self.arrangement.selected_clips@.contains(self.project@.clips[k as int].id));
                    }
                    return false;
                }
            }
        }
        true
    }

    /// Whether resizing clip `clip_id` to `new_duration` stays within
    /// machine integers.
    pub fn resize_fits_check(&self, clip_id: crate::ids::ClipId, new_duration: i64) -> (r: bool)
        ensures
            r == resize_fits(self.project@, clip_id, new_duration),
    {
        match self.project.clip_index(clip_id) {
            None => true,
            Some(i) => {
                let c = &self.project.clips[i];
                proof {
                    assert(c@ == self.project@.clips[i as int]);
                }
                if c.audio_file.is_some() {
                    true
                } else {
                    trim_fits_check(&c.notes, new_duration)
                }
            },
        }
    }

    /// Whether splitting the selected clips at the playhead stays within
    /// machine integers.
    pub fn split_fits_check(&self) -> (r: bool)
        ensures
            r == split_fits(*self),
    {
        let playhead = self.transport.position;
        let n = self.project.clips.len();
        for k in 0..n
            invariant
                n == self.project@.clips.len(),
                playhead == self.transport.position,
                forall|i: int| 0 <= i < k && self.arrangement.selected_clips@.contains(#[trigger] self.project@.clips[i].id)
                    && first_of_its_id(self.project@.clips, i) ==> clip_split_fits(self.project@.clips[i], playhead),
        {
            let c = &self.project.clips[k];
            proof {
                assert(c@ == self.project@.clips[k as int]);
            }
            if self.arrangement.selected_clips.contains(&c.id) {
                let first = match self.project.clip_index(c.id) {
                    Some(j) => j == k,
                    None => false,
                };
                if first && !clip_split_fits_check(c, playhead) {
                    return false;
                }
            }
        }
        true
    }

    /// Whether duplicating the selected clips stays within machine integers.
    pub fn duplicate_fits_check(&self) -> (r: bool)
        ensures
            r == duplicate_fits(*self),
    {
        let ghost clips = self.project@.clips;
        let ghost sel = self.arrangement.selected_clips@;
        let n = self.project.clips.len();
        for k in 0..n
            invariant
                n == clips.len(),
                clips == self.project@.clips,
                sel == self.arrangement.selected_clips@,
                forall|i: int| 0 <= i < k && sel.contains(#[trigger] clips[i].id) && first_of_its_id(clips, i)
                    ==> i64::MIN <= clips[i].start_tick + clips[i].duration_ticks <= i64::MAX,
        {
            let c = &self.project.clips[k];
            proof {
                assert(c@ == clips[k as int]);
            }
            if self.arrangement.selected_clips.contains(&c.id) {
                let first = match self.project.clip_index(c.id) {
                    Some(j) => j == k,
                    None => false,
                };
                let end: i128 = c.start_tick as i128 + c.duration_ticks as i128;
                if first && (end < -0x8000_0000_0000_0000 || end > 0x7FFF_FFFF_FFFF_FFFF) {
                    proof {
                        assert(sel.contains(clips[k as int].id) && first_of_its_id(clips, k as int));
                    }
                    return false;
                }
            }
        }
        let ids = self.arrangement.selected_clips.ids();
        let base: u128 = self.piano_roll.next_note_id as u128;
        let mut total: u128 = 0;
        let m = ids.len();
        proof {
            assert(ids@.take(0) =~= Seq::<crate::ids::ClipId>::empty());
        }
        for k in 0..m
            invariant
                m == ids@.len(),
                ids@ == self.arrangement.selected_clips.order(),
                clips == self.project@.clips,
                sel == self.arrangement.selected_clips@,
                base == self.piano_roll.next_note_id,
                total == notes_total(sources(clips, ids@.take(k as int))),
                base + total <= u64::MAX,
                forall|i: int| 0 <= i < clips.len() && sel.contains(#[trigger] clips[i].id) && first_of_its_id(clips, i)
                    ==> i64::MIN <= clips[i].start_tick + clips[i].duration_ticks <= i64::MAX,
        {
            let ghost before = sources(clips, ids@.take(k as int));
            proof {
                assert(ids@.take(k as int + 1).drop_last() == ids@.take(k as int));
                assert(ids@.take(k as int + 1).last() == ids@[k as int]);
            }
            match self.project.clip_index(ids[k]) {
                Some(i) => {
                    let len = self.project.clips[i].notes.len();
                    proof {
                        assert(self.project.clips@[i as int]@ == clips[i as int]);
                        assert(sources(clips, ids@.take(k as int + 1)) == before + seq![clips[i as int]]);
                        assert(before + seq![clips[i as int]] =~= before.push(clips[i as int]));
                        lemma_notes_total_push(before, clips[i as int]);
                    }
                    total = total + len as u128;
                    if base + total > 0xFFFF_FFFF_FFFF_FFFF {
                        proof {
                            lemma_sources_notes_grow(clips, ids@, k as int + 1, m as int);
                            assert(ids@.take(m as int) == ids@);
                        }
                        return false;
                    }
                },
                None => {
                    proof {
                        assert(sources(clips, ids@.take(k as int + 1)) =~= before);
                    }
                },
            }
        }
        proof {
            assert(ids@.take(m as int) == ids@);
        }
        true
    }

    /// Whether copying the selected clips stays within machine integers.
    pub fn copy_fits_check(&self) -> (r: bool)
        ensures
            r == copy_fits(*self),
    {
        if self.project.tracks.len() > 0x7FFF_FFFF {
            return false;
        }
        let ghost clips = self.project@.clips;
        let ghost sel = self.arrangement.selected_clips@;
        let mut lo: i64 = 0;
        let mut hi: i64 = 0;
        let mut any = false;
        let ghost mut ilo: int = 0;
        let ghost mut ihi: int = 0;
        let n = self.project.clips.len();
        for k in 0..n
            invariant
                n == clips.len(),
                clips == self.project@.clips,
                sel == self.arrangement.selected_clips@,
                any ==> 0 <= ilo < k && 0 <= ihi < k && sel.contains(clips[ilo].id) && sel.contains(clips[ihi].id)
                    && clips[ilo].start_tick == lo && clips[ihi].start_tick == hi,
                forall|i: int| 0 <= i < k && sel.contains(#[trigger] clips[i].id) ==> any && lo <= clips[i].start_tick <= hi,
        {
            let c = &self.project.clips[k];
            proof {
                assert(c@ == clips[k as int]);
            }
            if self.arrangement.selected_clips.contains(&c.id) {
                if !any || c.start_tick < lo {
                    lo = c.start_tick;
                    proof {
                        ilo = k as int;
                    }
                }
                if !any || c.start_tick > hi {
                    hi = c.start_tick;
                    proof {
                        ihi = k as int;
                    }
                }
                any = true;
            }
        }
        if !any {
            return true;
        }
        let d: i128 = hi as i128 - lo as i128;
        proof {
            if d > i64::MAX {
                assert(sel.contains(clips[ihi].id) && sel.contains(clips[ilo].id));
                assert(!(clips[ihi].start_tick - clips[ilo].start_tick <= i64::MAX));
            }
        }
        d <= 0x7FFF_FFFF_FFFF_FFFF
    }

    /// Whether pasting the clipboard stays within machine integers.
    pub fn paste_fits_check(&self) -> (r: bool)
        ensures
            r == paste_fits(*self),
    {
        if self.project.tracks.len() > 0x7FFF_FFFF {
            return false;
        }
        let base: i128 = match self.arrangement.selected_track {
            Some(t) => match self.project.track_index(t) {
                Some(i) => i as i128,
                None => 0,
            },
            None => 0,
        };
        proof {
            assert(base == paste_base(self.project@.tracks, self.arrangement.selected_track));
        }
        let entries = &self.arrangement.clipboard.entries;
        let ghost ev = entries_view(entries@);
        let ghost cl = entry_clips(ev);
        let playhead = self.transport.position;
        let first: u128 = self.piano_roll.next_note_id as u128;
        let mut total: u128 = 0;
        let n = entries.len();
        proof {
            assert(cl.take(0) =~= Seq::<crate::track::ClipView>::empty());
        }
        for k in 0..n
            invariant
                n == ev.len(),
                ev == entries_view(entries@),
                cl == entry_clips(ev),
                entries == &self.arrangement.clipboard.entries,
                playhead == self.transport.position,
                base == paste_base(self.project@.tracks, self.arrangement.selected_track),
                0 <= base <= i32::MAX,
                first == self.piano_roll.next_note_id,
                total == notes_total(cl.take(k as int)),
                first + total <= u64::MAX,
                forall|j: int| 0 <= j < k ==> {
                    &&& i64::MIN <= playhead + (#[trigger] ev[j]).tick_offset <= i64::MAX
                    &&& i32::MIN <= base + ev[j].track_index_offset <= i32::MAX
                },
        {
            let e = &entries[k];
            proof {
                assert(ev[k as int] == e@);
            }
            let t: i128 = playhead as i128 + e.tick_offset as i128;
            let ti: i128 = base + e.track_index_offset as i128;
            if t < -0x8000_0000_0000_0000 || t > 0x7FFF_FFFF_FFFF_FFFF || ti < -0x8000_0000 || ti > 0x7FFF_FFFF {
                return false;
            }
            proof {
                assert(cl.take(k as int + 1) =~= cl.take(k as int).push(cl[k as int]));
                lemma_notes_total_push(cl.take(k as int), cl[k as int]);
            }
            total = total + e.clip.notes.len() as u128;
            if first + total > 0xFFFF_FFFF_FFFF_FFFF {
                proof {
                    lemma_notes_total_prefix(cl, k as int + 1);
                }
                return false;
            }
        }
        proof {
            assert(cl.take(n as int) == cl);
        }
        true
    }
}

} // verus!
