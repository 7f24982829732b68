//! Clipboard for arrangement clip copy/paste operations.

use vstd::prelude::*;
use crate::ids::TrackId;
use crate::selection::{lookup_track_index, track_map_index};
use crate::track::{ClipState, ClipView};

verus! {

/// A clip on the clipboard with its relative position preserved.
#[derive(Debug)]
pub struct ClipboardEntry {
    /// Full clip data (a new id is assigned on paste).
    pub clip: ClipState,
    /// Tick offset from the earliest clip in the copied selection.
    pub tick_offset: i64,
    /// Track index offset from the topmost track in the copied selection.
    pub track_index_offset: i32,
}

/// Mathematical model of a clipboard entry.
pub struct ClipboardEntryView {
    pub clip: ClipView,
    pub tick_offset: i64,
    pub track_index_offset: i32,
}

impl View for ClipboardEntry {
    type V = ClipboardEntryView;

    open spec fn view(&self) -> ClipboardEntryView {
        ClipboardEntryView { clip: self.clip@, tick_offset: self.tick_offset, track_index_offset: self.track_index_offset }
    }
}

impl Clone for ClipboardEntry {
    fn clone(&self) -> (r: Self)
        ensures
            r@ == self@,
    {
        ClipboardEntry { clip: self.clip.clone(), tick_offset: self.tick_offset, track_index_offset: self.track_index_offset }
    }
}

/// Clipboard for arrangement clip operations.
#[derive(Debug)]
pub struct ClipClipboard {
    pub entries: Vec<ClipboardEntry>,
}

pub open spec fn entries_view(v: Seq<ClipboardEntry>) -> Seq<ClipboardEntryView> {
    v.map_values(|e: ClipboardEntry| e@)
}

/// Earliest start among the clips (0 for none).
pub open spec fn earliest_start(s: Seq<ClipState>) -> int
    decreases s.len(),
{
    if s.len() == 0 {
        0
    } else if s.len() == 1 {
        s[0].start_tick as int
    } else {
        let m = earliest_start(s.drop_last());
        if s.last().start_tick < m { s.last().start_tick as int } else { m }
    }
}

/// Smallest track index among the clips whose track is in the map.
pub open spec fn topmost_index(s: Seq<ClipState>, track_map: Seq<(TrackId, usize)>) -> Option<usize>
    decreases s.len(),
{
    if s.len() == 0 {
        None
    } else {
        let rest = topmost_index(s.drop_last(), track_map);
        match track_map_index(track_map, s.last().track_id) {
            Some(i) => match rest {
                Some(m) => Some(if i < m { i } else { m }),
                None => Some(i),
            },
            None => rest,
        }
    }
}

/// Track index of a clip (0 when its track is not in the map).
pub open spec fn index_or_zero(c: ClipState, track_map: Seq<(TrackId, usize)>) -> usize {
    match track_map_index(track_map, c.track_id) {
        Some(i) => i,
        None => 0,
    }
}

/// Topmost track index (0 when no clip's track is in the map).
pub open spec fn topmost_or_zero(s: Seq<ClipState>, track_map: Seq<(TrackId, usize)>) -> usize {
    match topmost_index(s, track_map) {
        Some(m) => m,
        None => 0,
    }
}

/// The clipboard entry built for a clip.
pub open spec fn entry_of(c: ClipState, s: Seq<ClipState>, track_map: Seq<(TrackId, usize)>) -> ClipboardEntryView {
    ClipboardEntryView {
        clip: c@,
        tick_offset: (c.start_tick - earliest_start(s)) as i64,
        track_index_offset: ((index_or_zero(c, track_map) as i32) - (topmost_or_zero(s, track_map) as i32)) as i32,
    }
}

/// Building the clipboard from these clips stays within machine integers.
pub open spec fn clipboard_fits(s: Seq<ClipState>, track_map: Seq<(TrackId, usize)>) -> bool {
    forall|i: int| 0 <= i < s.len() ==> {
        &&& #[trigger] s[i].start_tick - earliest_start(s) <= i64::MAX
        &&& i32::MIN <= (index_or_zero(s[i], track_map) as i32) - (topmost_or_zero(s, track_map) as i32) <= i32::MAX
    }
}

impl Default for ClipClipboard {
    fn default() -> (r: Self)
        ensures
            r.entries@.len() == 0,
    {
        ClipClipboard { entries: Vec::new() }
    }
}

impl Clone for ClipClipboard {
    fn clone(&self) -> (r: Self)
        ensures
            entries_view(r.entries@) == entries_view(self.entries@),
    {
        let mut out: Vec<ClipboardEntry> = Vec::new();
        let n = self.entries.len();
        for i in 0..n
            invariant
                n == self.entries@.len(),
                entries_view(out@) == entries_view(self.entries@).take(i as int),
        {
            let ghost before = out@;
            out.push(self.entries[i].clone());
            proof {
                assert(entries_view(out@) =~= entries_view(before).push(self.entries@[i as int]@));
                assert(entries_view(self.entries@).take(i as int + 1) =~= entries_view(self.entries@).take(i as int).push(self.entries@[i as int]@));
            }
        }
        proof {
            assert(entries_view(self.entries@).take(n as int) == entries_view(self.entries@));
        }
        ClipClipboard { entries: out }
    }
}

impl ClipClipboard {
    pub fn is_empty(&self) -> (r: bool)
        ensures
            r == (self.entries@.len() == 0),
    {
        self.entries.len() == 0
    }

    /// Build the clipboard from selected clips, with offsets normalised so
    /// the earliest clip is at tick offset 0 and the topmost track at track
    /// offset 0.
    pub fn from_clips(clips: &[ClipState], track_map: &[(TrackId, usize)]) -> (r: Self)
        requires
            clipboard_fits(clips@, track_map@),
        ensures
            entries_view(r.entries@) == clips@.map_values(|c: ClipState| entry_of(c, clips@, track_map@)),
            clips@.len() > 0 && tracks_mapped(clips@, track_map@) ==> {
                &&& forall|i: int| 0 <= i < r.entries@.len() ==> {
                    &&& (#[trigger] entries_view(r.entries@)[i]).tick_offset >= 0
                    &&& entries_view(r.entries@)[i].track_index_offset >= 0
                }
                &&& exists|i: int| 0 <= i < r.entries@.len() && (#[trigger] entries_view(r.entries@)[i]).tick_offset == 0
                &&& exists|i: int| 0 <= i < r.entries@.len() && (#[trigger] entries_view(r.entries@)[i]).track_index_offset == 0
            },
    {
        if clips.len() == 0 {
            let r = ClipClipboard::default();
            proof {
                assert(entries_view(r.entries@) =~= clips@.map_values(|c: ClipState| entry_of(c, clips@, track_map@)));
            }
            return r;
        }
        let n = clips.len();
        let mut min_tick: i64 = clips[0].start_tick;
        let mut min_track: Option<usize> = None;
        for i in 0..n
            invariant
                n == clips@.len(),
                n > 0,
                i >= 1 ==> min_tick == earliest_start(clips@.take(i as int)),
                i == 0 ==> min_tick == clips@[0].start_tick,
                min_track == topmost_index(clips@.take(i as int), track_map@),
        {
            let ghost t = clips@.take(i as int + 1);
            proof {
                assert(t.drop_last() == clips@.take(i as int));
                assert(t.last() == clips@[i as int]);
                if i == 0 {
                    assert(t.len() == 1);
                    assert(clips@.take(0) == Seq::<ClipState>::empty());
                }
            }
            if clips[i].start_tick < min_tick {
                min_tick = clips[i].start_tick;
            }
            match lookup_track_index(track_map, clips[i].track_id) {
                Some(idx) => {
                    min_track = match min_track {
                        Some(m) => Some(if idx < m { idx } else { m }),
                        None => Some(idx),
                    };
                },
                None => {},
            }
        }
        proof {
            assert(clips@.take(n as int) == clips@);
        }
        let min_track_idx: usize = match min_track {
            Some(m) => m,
            None => 0,
        };
        let mut entries: Vec<ClipboardEntry> = Vec::new();
        proof {
            lemma_earliest_start(clips@);
        }
        for i in 0..n
            invariant
                n == clips@.len(),
                forall|j: int| 0 <= j < clips@.len() ==> earliest_start(clips@) <= #[trigger] clips@[j].start_tick,
                clipboard_fits(clips@, track_map@),
                min_tick == earliest_start(clips@),
                min_track_idx == topmost_or_zero(clips@, track_map@),
                entries_view(entries@) == clips@.take(i as int).map_values(|c: ClipState| entry_of(c, clips@, track_map@)),
        {
            let track_idx: usize = match lookup_track_index(track_map, clips[i].track_id) {
                Some(idx) => idx,
                None => 0,
            };
            proof {
                assert(track_idx == index_or_zero(clips@[i as int], track_map@));
                assert(clips@[i as int].start_tick - earliest_start(clips@) <= i64::MAX);
                assert(i32::MIN <= (index_or_zero(clips@[i as int], track_map@) as i32) - (topmost_or_zero(clips@, track_map@) as i32) <= i32::MAX);
                assert(earliest_start(clips@) <= clips@[i as int].start_tick);
            }
            let entry = ClipboardEntry {
                clip: clips[i].clone(),
                tick_offset: clips[i].start_tick - min_tick,
                track_index_offset: track_idx as i32 - min_track_idx as i32,
            };
            let ghost before = entries@;
            entries.push(entry);
            proof {
                assert(entries_view(entries@) =~= entries_view(before).push(entry@));
                assert(entry@ == entry_of(clips@[i as int], clips@, track_map@));
                assert(clips@.take(i as int + 1) == clips@.take(i as int).push(clips@[i as int]));
                assert(entries_view(entries@) =~= clips@.take(i as int + 1).map_values(|c: ClipState| entry_of(c, clips@, track_map@)));
            }
        }
        proof {
            assert(clips@.take(n as int) == clips@);
            let ev = entries_view(entries@);
            assert(ev.len() == n);
            assert(forall|i: int| 0 <= i < n ==> #[trigger] ev[i] == entry_of(clips@[i], clips@, track_map@));
            if tracks_mapped(clips@, track_map@) {
                lemma_clipboard_offsets_normalised(clips@, track_map@);
                let a = choose|i: int| 0 <= i < clips@.len() && (#[trigger] entry_of(clips@[i], clips@, track_map@)).tick_offset == 0;
                assert(ev[a].tick_offset == 0);
                let b = choose|i: int| 0 <= i < clips@.len() && (#[trigger] entry_of(clips@[i], clips@, track_map@)).track_index_offset == 0;
                assert(ev[b].track_index_offset == 0);
                assert forall|i: int| 0 <= i < entries@.len() implies {
                    &&& (#[trigger] ev[i]).tick_offset >= 0
                    &&& ev[i].track_index_offset >= 0
                } by {
                    assert(ev[i] == entry_of(clips@[i], clips@, track_map@));
                }
            }
        }
        ClipClipboard { entries }
    }
}

/// Law: the earliest start is the start of some clip and no clip starts
/// before it, so the entries' tick offsets are non-negative and one of them
/// is zero.
pub proof fn lemma_earliest_start(s: Seq<ClipState>)
    requires
        s.len() > 0,
    ensures
        forall|i: int| 0 <= i < s.len() ==> earliest_start(s) <= #[trigger] s[i].start_tick,
        exists|i: int| 0 <= i < s.len() && earliest_start(s) == s[i].start_tick,
    decreases s.len(),
{
    if s.len() > 1 {
        lemma_earliest_start(s.drop_last());
        let m = earliest_start(s.drop_last());
        let k = choose|k: int| 0 <= k < s.len() - 1 && m == s.drop_last()[k].start_tick;
        assert(s[k] == s.drop_last()[k]);
        assert forall|i: int| 0 <= i < s.len() implies earliest_start(s) <= #[trigger] s[i].start_tick by {
            if i < s.len() - 1 {
                assert(s[i] == s.drop_last()[i]);
            }
        }
    }
}

/// Every clip's track is in the map, at an index that fits an `i32`.
pub open spec fn tracks_mapped(s: Seq<ClipState>, track_map: Seq<(TrackId, usize)>) -> bool {
    forall|i: int| 0 <= i < s.len()
        ==> ((#[trigger] track_map_index(track_map, s[i].track_id)) matches Some(x) && x <= i32::MAX)
}

/// The topmost index is the smallest track index among the clips.
proof fn lemma_topmost_is_min(s: Seq<ClipState>, tm: Seq<(TrackId, usize)>)
    requires
        s.len() > 0,
        tracks_mapped(s, tm),
    ensures
        topmost_index(s, tm) is Some,
        forall|i: int| 0 <= i < s.len() ==> topmost_or_zero(s, tm) <= #[trigger] index_or_zero(s[i], tm),
        exists|i: int| 0 <= i < s.len() && topmost_or_zero(s, tm) == index_or_zero(s[i], tm),
    decreases s.len(),
{
    let d = s.drop_last();
    assert(track_map_index(tm, s[s.len() - 1].track_id) is Some);
    assert(s.last() == s[s.len() - 1]);
    if s.len() == 1 {
        assert(d.len() == 0);
        assert(index_or_zero(s[0], tm) == topmost_or_zero(s, tm));
    } else {
        assert forall|i: int| 0 <= i < d.len() implies
            ((#[trigger] track_map_index(tm, d[i].track_id)) matches Some(x) && x <= i32::MAX) by {
            assert(d[i] == s[i]);
        }
        lemma_topmost_is_min(d, tm);
        let k = choose|k: int| 0 <= k < d.len() && topmost_or_zero(d, tm) == index_or_zero(d[k], tm);
        assert(d[k] == s[k]);
        assert forall|i: int| 0 <= i < s.len() implies topmost_or_zero(s, tm) <= #[trigger] index_or_zero(s[i], tm) by {
            if i < s.len() - 1 {
                assert(d[i] == s[i]);
                assert(topmost_or_zero(d, tm) <= index_or_zero(d[i], tm));
            }
        }
        if index_or_zero(s.last(), tm) < topmost_or_zero(d, tm) {
            assert(topmost_or_zero(s, tm) == index_or_zero(s[s.len() - 1], tm));
        } else {
            assert(topmost_or_zero(s, tm) == index_or_zero(s[k], tm));
        }
    }
}

/// Law: copying clips whose tracks are all in the map gives entries whose
/// tick offsets count from the earliest clip and whose track offsets count
/// from the topmost (smallest-index) track: no offset is negative, some
/// entry has tick offset 0 and some has track offset 0, and two entries'
/// offsets differ exactly as their clips' starts and track indices do.
pub proof fn lemma_clipboard_offsets_normalised(s: Seq<ClipState>, track_map: Seq<(TrackId, usize)>)
    requires
        s.len() > 0,
        tracks_mapped(s, track_map),
        clipboard_fits(s, track_map),
    ensures
        forall|i: int| 0 <= i < s.len() ==> {
            &&& (#[trigger] entry_of(s[i], s, track_map)).tick_offset >= 0
            &&& entry_of(s[i], s, track_map).track_index_offset >= 0
        },
        exists|i: int| 0 <= i < s.len() && (#[trigger] entry_of(s[i], s, track_map)).tick_offset == 0,
        exists|i: int| 0 <= i < s.len() && (#[trigger] entry_of(s[i], s, track_map)).track_index_offset == 0,
        forall|i: int, j: int| 0 <= i < s.len() && 0 <= j < s.len() ==> {
            &&& (#[trigger] entry_of(s[i], s, track_map)).tick_offset - (#[trigger] entry_of(s[j], s, track_map)).tick_offset
                == s[i].start_tick - s[j].start_tick
            &&& entry_of(s[i], s, track_map).track_index_offset - entry_of(s[j], s, track_map).track_index_offset
                == track_map_index(track_map, s[i].track_id)->0 - track_map_index(track_map, s[j].track_id)->0
        },
{
    lemma_earliest_start(s);
    lemma_topmost_is_min(s, track_map);
    assert forall|i: int| 0 <= i < s.len() implies {
        &&& (#[trigger] entry_of(s[i], s, track_map)).tick_offset == s[i].start_tick - earliest_start(s)
        &&& entry_of(s[i], s, track_map).track_index_offset == index_or_zero(s[i], track_map) - topmost_or_zero(s, track_map)
        &&& index_or_zero(s[i], track_map) == track_map_index(track_map, s[i].track_id)->0
    } by {
        assert(track_map_index(track_map, s[i].track_id) is Some);
        assert(s[i].start_tick - earliest_start(s) <= i64::MAX);
        assert(topmost_or_zero(s, track_map) <= index_or_zero(s[i], track_map));
        assert(index_or_zero(s[i], track_map) <= i32::MAX);
    }
    let a = choose|i: int| 0 <= i < s.len() && earliest_start(s) == s[i].start_tick;
    assert(entry_of(s[a], s, track_map).tick_offset == 0);
    let b = choose|i: int| 0 <= i < s.len() && topmost_or_zero(s, track_map) == index_or_zero(s[i], track_map);
    assert(entry_of(s[b], s, track_map).track_index_offset == 0);
}

} // verus!
