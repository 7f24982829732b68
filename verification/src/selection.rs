//! Clip selection and rubber-band hit testing for arrangement clips.

use vstd::prelude::*;
use crate::ids::{ClipId, TrackId};
use crate::project::{first_match, lemma_first_match, lemma_no_match};
use crate::track::{ClipState, ClipView};

verus! {

/// The selection with `id` taken out if it was in, put in otherwise.
pub open spec fn toggle_set(s: Set<ClipId>, id: ClipId) -> Set<ClipId> {
    if s.contains(id) {
        s.remove(id)
    } else {
        s.insert(id)
    }
}

/// Law: toggling the same clip twice leaves the selection as it was.
pub proof fn lemma_toggle_twice(s: Set<ClipId>, id: ClipId)
    ensures
        toggle_set(toggle_set(s, id), id) == s,
{
    if s.contains(id) {
        assert(s.remove(id).insert(id) =~= s);
    } else {
        assert(s.insert(id).remove(id) =~= s);
    }
}

/// Law: a selection holds finitely many clips, so it is empty exactly when
/// its size is 0 (as `is_empty` and `len` report them).
pub proof fn lemma_empty_iff_len_zero(s: ClipSelection)
    ensures
        s@.finite(),
        (s@ == Set::<ClipId>::empty()) <==> s@.len() == 0,
{
    vstd::seq_lib::seq_to_set_is_finite(s.clips@);
    vstd::set_lib::lemma_set_empty_equivalency_len(s@);
}

/// A set of selected clips (no clip appears twice).
#[derive(Debug)]
pub struct ClipSelection {
    clips: Vec<ClipId>,
}

impl View for ClipSelection {
    type V = Set<ClipId>;

    closed spec fn view(&self) -> Set<ClipId> {
        self.clips@.to_set()
    }
}

impl ClipSelection {
    #[verifier::type_invariant]
    closed spec fn no_repeats(&self) -> bool {
        self.clips@.no_duplicates()
    }

    /// The selected ids in the order they were selected.
    pub closed spec fn order(&self) -> Seq<ClipId> {
        self.clips@
    }

    /// An empty selection.
    pub fn new() -> (r: Self)
        ensures
            r@ == Set::<ClipId>::empty(),
            r.order() == Seq::<ClipId>::empty(),
    {
        let r = ClipSelection { clips: Vec::new() };
        proof {
            assert(r.clips@.to_set() =~= Set::<ClipId>::empty());
        }
        r
    }

    pub fn is_empty(&self) -> (r: bool)
        ensures
            r == (self@ == Set::<ClipId>::empty()),
    {
        proof {
            if self.clips@.len() > 0 {
                assert(self@.contains(self.clips@[0]));
            } else {
                assert(self@ =~= Set::<ClipId>::empty());
            }
        }
        self.clips.len() == 0
    }

    pub fn contains(&self, id: &ClipId) -> (r: bool)
        ensures
            r == self@.contains(*id),
    {
        let n = self.clips.len();
        for i in 0..n
            invariant
                n == self.clips@.len(),
                forall|j: int| 0 <= j < i ==> self.clips@[j] != *id,
        {
            if self.clips[i] == *id {
                proof {
                    assert(self.clips@.contains(*id));
                }
                return true;
            }
        }
        false
    }

    pub fn len(&self) -> (r: usize)
        ensures
            r == self@.len(),
    {
        proof {
            use_type_invariant(self);
            self.clips@.unique_seq_to_set();
        }
        self.clips.len()
    }

    /// The selected ids, in selection order.
    pub fn ids(&self) -> (r: Vec<ClipId>)
        ensures
            r@ == self.order(),
            r@.to_set() == self@,
            r@.no_duplicates(),
    {
        proof {
            use_type_invariant(self);
        }
        let mut out: Vec<ClipId> = Vec::new();
        let n = self.clips.len();
        for i in 0..n
            invariant
                n == self.clips@.len(),
                out@ == self.clips@.take(i as int),
        {
            out.push(self.clips[i]);
            proof {
                assert(self.clips@.take(i as int + 1) == self.clips@.take(i as int).push(self.clips@[i as int]));
            }
        }
        proof {
            assert(self.clips@.take(n as int) == self.clips@);
        }
        out
    }

    /// Add a clip to the selection (no change if already there).
    pub fn insert(&mut self, id: ClipId)
        ensures
            final(self)@ == old(self)@.insert(id),
    {
        proof {
            use_type_invariant(&*self);
        }
        if !self.contains(&id) {
            let ghost before = self.clips@;
            let mut v = Vec::new();
            std::mem::swap(&mut v, &mut self.clips);
            v.push(id);
            proof {
                assert(v@ == before.push(id));
                assert(v@.no_duplicates()) by {
                    assert forall|a: int, b: int| 0 <= a < b < v@.len() implies v@[a] != v@[b] by {
                        if b == v@.len() - 1 {
                            assert(before.contains(before[a]));
                        }
                    }
                }
                assert(v@.to_set() =~= before.to_set().insert(id)) by {
                    assert forall|x: ClipId| v@.to_set().contains(x) <==> before.to_set().insert(id).contains(x) by {
                        if x != id && v@.contains(x) {
                            let k = choose|k: int| 0 <= k < v@.len() && v@[k] == x;
                            assert(before[k] == x);
                        }
                        if before.contains(x) {
                            let k = choose|k: int| 0 <= k < before.len() && before[k] == x;
                            assert(v@[k] == x);
                        }
                        if x == id {
                            assert(v@[v@.len() - 1] == id);
                        }
                    }
                }
            }
            self.clips = v;
        } else {
            proof {
                assert(old(self)@.insert(id) =~= old(self)@);
            }
        }
    }

    /// Create a selection with a single clip.
    pub fn select_single(id: ClipId) -> (r: Self)
        ensures
            r@ == Set::<ClipId>::empty().insert(id),
    {
        let mut r = ClipSelection::new();
        r.insert(id);
        r
    }

    /// A selection holding the given ids (repeats collapse).
    pub fn from_ids(ids: &Vec<ClipId>) -> (r: Self)
        ensures
            r@ == ids@.to_set(),
    {
        let mut r = ClipSelection::new();
        let n = ids.len();
        for i in 0..n
            invariant
                n == ids@.len(),
                r@ == ids@.take(i as int).to_set(),
        {
            r.insert(ids[i]);
            proof {
                assert(ids@.take(i as int + 1) == ids@.take(i as int).push(ids@[i as int]));
                ids@.take(i as int).lemma_push_to_set_commute(ids@[i as int]);
            }
        }
        proof {
            assert(ids@.take(n as int) == ids@);
        }
        r
    }

    /// Toggle a clip in or out of the selection (Shift+click).
    pub fn toggled(&self, id: ClipId) -> (r: Self)
        ensures
            r@ == toggle_set(self@, id),
    {
        proof {
            use_type_invariant(self);
        }
        let mut r = ClipSelection::new();
        let present = self.contains(&id);
        let n = self.clips.len();
        for i in 0..n
            invariant
                n == self.clips@.len(),
                self.clips@.no_duplicates(),
                r@ == self.clips@.take(i as int).to_set().remove(id),
        {
            if self.clips[i] != id {
                r.insert(self.clips[i]);
            }
            proof {
                assert(self.clips@.take(i as int + 1) == self.clips@.take(i as int).push(self.clips@[i as int]));
                self.clips@.take(i as int).lemma_push_to_set_commute(self.clips@[i as int]);
                assert(r@ =~= self.clips@.take(i as int + 1).to_set().remove(id));
            }
        }
        proof {
            assert(self.clips@.take(n as int) == self.clips@);
        }
        if !present {
            r.insert(id);
            proof {
                assert(self@.remove(id) =~= self@);
            }
        }
        r
    }
}

impl Clone for ClipSelection {
    fn clone(&self) -> (r: Self)
        ensures
            r@ == self@,
    {
        let ids = self.ids();
        ClipSelection::from_ids(&ids)
    }
}

impl Default for ClipSelection {
    fn default() -> (r: Self)
        ensures
            r@ == Set::<ClipId>::empty(),
    {
        ClipSelection::new()
    }
}

/// Axis-aligned box in (tick, track index) space for rubber-band selection.
pub struct SelectionRect {
    pub tick_start: i64,
    pub tick_end: i64,
    pub track_start: usize,
    pub track_end: usize,
}

/// Entries of a track map for the given track.
pub open spec fn entry_for(t: TrackId) -> spec_fn((TrackId, usize)) -> bool {
    |e: (TrackId, usize)| e.0 == t
}

/// Index of a track in the track map (its first entry), if listed.
pub open spec fn track_map_index(track_map: Seq<(TrackId, usize)>, t: TrackId) -> Option<usize> {
    match first_match(track_map, entry_for(t)) {
        Some(k) => Some(track_map[k].1),
        None => None,
    }
}

/// The clip overlaps the rectangle in ticks (half-open) and its track's
/// index lies in the rectangle's (inclusive) track range.
pub open spec fn clip_in_rect(c: ClipView, track_map: Seq<(TrackId, usize)>, rect: SelectionRect) -> bool {
    &&& !(c.start_tick + c.duration_ticks <= rect.tick_start || c.start_tick >= rect.tick_end)
    &&& track_map_index(track_map, c.track_id) matches Some(idx) && rect.track_start <= idx <= rect.track_end
}

/// Index of a track in the track map (its first entry).
pub fn lookup_track_index(track_map: &[(TrackId, usize)], t: TrackId) -> (r: Option<usize>)
    ensures
        r == track_map_index(track_map@, t),
{
    let n = track_map.len();
    for k in 0..n
        invariant
            n == track_map@.len(),
            forall|j: int| 0 <= j < k ==> track_map@[j].0 != t,
    {
        if track_map[k].0 == t {
            proof {
                lemma_first_match(track_map@, entry_for(t), k as int);
            }
            return Some(track_map[k].1);
        }
    }
    proof {
        lemma_no_match(track_map@, entry_for(t));
    }
    None
}

/// Find all clips that overlap a rubber-band rect.
pub fn clips_in_rect(clips: &[ClipState], track_map: &[(TrackId, usize)], rect: &SelectionRect) -> (r: ClipSelection)
    requires
        forall|i: int| 0 <= i < clips@.len() ==> i64::MIN <= #[trigger] clips@[i].start_tick + clips@[i].duration_ticks <= i64::MAX,
    ensures
        forall|id: ClipId| r@.contains(id) <==> exists|i: int| 0 <= i < clips@.len()
            && clips@[i].id == id && clip_in_rect(#[trigger] clips@[i]@, track_map@, *rect),
{
    let mut result = ClipSelection::new();
    let n = clips.len();
    for i in 0..n
        invariant
            n == clips@.len(),
            forall|j: int| 0 <= j < clips@.len() ==> i64::MIN <= #[trigger] clips@[j].start_tick + clips@[j].duration_ticks <= i64::MAX,
            forall|id: ClipId| result@.contains(id) <==> exists|j: int| 0 <= j < i
                && clips@[j].id == id && clip_in_rect(#[trigger] clips@[j]@, track_map@, *rect),
    {
        let clip = &clips[i];
        let clip_end = clip.start_tick + clip.duration_ticks;
        let overlaps = !(clip_end <= rect.tick_start || clip.start_tick >= rect.tick_end);
        let mut hit = false;
        if overlaps {
            if let Some(idx) = lookup_track_index(track_map, clip.track_id) {
                if idx >= rect.track_start && idx <= rect.track_end {
                    hit = true;
                }
            }
        }
        proof {
            assert(hit == clip_in_rect(clips@[i as int]@, track_map@, *rect));
        }
        let ghost before = result@;
        if hit {
            result.insert(clip.id);
        }
        proof {
            assert forall|id: ClipId| result@.contains(id) <==> exists|j: int| 0 <= j < i + 1
                && clips@[j].id == id && clip_in_rect(#[trigger] clips@[j]@, track_map@, *rect) by {
                if exists|j: int| 0 <= j < i + 1 && clips@[j].id == id && clip_in_rect(#[trigger] clips@[j]@, track_map@, *rect) {
                    let j = choose|j: int| 0 <= j < i + 1 && clips@[j].id == id && clip_in_rect(#[trigger] clips@[j]@, track_map@, *rect);
                    if j < i {
                        assert(before.contains(id));
                    }
                }
            }
        }
    }
    result
}

} // verus!
