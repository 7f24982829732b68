//! The project: its tracks and clips, with lookups and in-place updates.

use vstd::prelude::*;
use crate::ids::{ClipId, TrackId};
use crate::track::{ClipState, ClipView, TrackState, TrackView};

verus! {

/// Index of the first element satisfying `p`, if any.
pub open spec fn first_match<A>(s: Seq<A>, p: spec_fn(A) -> bool) -> Option<int> {
    if exists|i: int| 0 <= i < s.len() && p(s[i]) {
        Some(choose|i: int| is_first_match(s, p, i))
    } else {
        None
    }
}

/// `i` is the position of the first element satisfying `p`.
pub open spec fn is_first_match<A>(s: Seq<A>, p: spec_fn(A) -> bool, i: int) -> bool {
    &&& 0 <= i < s.len()
    &&& p(s[i])
    &&& forall|j: int| 0 <= j < i ==> !p(s[j])
}

/// The first matching position is the one `first_match` names.
pub proof fn lemma_first_match<A>(s: Seq<A>, p: spec_fn(A) -> bool, i: int)
    requires
        is_first_match(s, p, i),
    ensures
        first_match(s, p) == Some(i),
{
    assert(exists|k: int| 0 <= k < s.len() && p(s[k]));
    let k = choose|k: int| is_first_match(s, p, k);
    assert(is_first_match(s, p, k));
    if k < i {
        assert(!p(s[k]));
    }
    if i < k {
        assert(!p(s[i]));
    }
}

/// When nothing matches there is no first match.
pub proof fn lemma_no_match<A>(s: Seq<A>, p: spec_fn(A) -> bool)
    requires
        forall|j: int| 0 <= j < s.len() ==> !p(s[j]),
    ensures
        first_match(s, p) == None::<int>,
{
}

/// Position of the first clip with this id.
pub open spec fn clip_pos(clips: Seq<ClipView>, id: ClipId) -> Option<int> {
    first_match(clips, |c: ClipView| c.id == id)
}

/// Position of the first track with this id.
pub open spec fn track_pos(tracks: Seq<TrackView>, id: TrackId) -> Option<int> {
    first_match(tracks, |t: TrackView| t.id == id)
}

/// Clips on the given track.
pub open spec fn on_track(t: TrackId) -> spec_fn(ClipView) -> bool {
    |c: ClipView| c.track_id == t
}

/// Clips whose id differs from `id` and from `also`, when given.
pub open spec fn other_clip(id: ClipId, also: Option<ClipId>) -> spec_fn(ClipView) -> bool {
    |c: ClipView| c.id != id && (also matches Some(o) ==> c.id != o)
}

/// Mathematical model of the project.
pub struct ProjectView {
    pub tracks: Seq<TrackView>,
    pub clips: Seq<ClipView>,
}

/// Tracks and clips of the open project.
#[derive(Debug)]
pub struct Project {
    pub tracks: Vec<TrackState>,
    pub clips: Vec<ClipState>,
}

pub open spec fn tracks_view(v: Seq<TrackState>) -> Seq<TrackView> {
    v.map_values(|t: TrackState| t@)
}

pub open spec fn clips_view(v: Seq<ClipState>) -> Seq<ClipView> {
    v.map_values(|c: ClipState| c@)
}

impl View for Project {
    type V = ProjectView;

    open spec fn view(&self) -> ProjectView {
        ProjectView { tracks: tracks_view(self.tracks@), clips: clips_view(self.clips@) }
    }
}

/// Replace the first clip of `updated`'s id, if there is one.
pub open spec fn clips_with_update(clips: Seq<ClipView>, updated: ClipView) -> Seq<ClipView> {
    match clip_pos(clips, updated.id) {
        Some(i) => clips.update(i, updated),
        None => clips,
    }
}

/// Replace the first track of `updated`'s id, if there is one.
pub open spec fn tracks_with_update(tracks: Seq<TrackView>, updated: TrackView) -> Seq<TrackView> {
    match track_pos(tracks, updated.id) {
        Some(i) => tracks.update(i, updated),
        None => tracks,
    }
}

/// Clip list without any clip of the given id.
pub open spec fn clips_without(clips: Seq<ClipView>, id: ClipId) -> Seq<ClipView> {
    clips.filter(|c: ClipView| c.id != id)
}

/// Track list without any track of the given id.
pub open spec fn tracks_without(tracks: Seq<TrackView>, id: TrackId) -> Seq<TrackView> {
    tracks.filter(|t: TrackView| t.id != id)
}

/// Retain the clips whose view satisfies `keep` (as `Vec::retain` does).
pub fn retain_clips(v: &mut Vec<ClipState>, keep_id: ClipId, also_keep_id: Option<ClipId>)
    ensures
        clips_view(final(v)@) == clips_view(old(v)@).filter(other_clip(keep_id, also_keep_id)),
{
    let ghost pred = other_clip(keep_id, also_keep_id);
    let ghost orig = clips_view(v@);
    let mut out: Vec<ClipState> = Vec::new();
    let n = v.len();
    let mut i: usize = 0;
    while i < n
        invariant
            n == v@.len(),
            i <= n,
            orig == clips_view(v@),
            pred == other_clip(keep_id, also_keep_id),
            clips_view(out@) == orig.take(i as int).filter(pred),
        decreases n - i,
    {
        proof {
            assert(orig.take(i as int + 1) == orig.take(i as int).push(orig[i as int]));
            orig.take(i as int).lemma_filter_push(orig[i as int], pred);
        }
        let c = &v[i];
        proof {
            assert(orig[i as int] == c@);
        }
        let keep = c.id != keep_id && match also_keep_id {
            Some(o) => c.id != o,
            None => true,
        };
        proof {
            assert(keep == pred(orig[i as int]));
        }
        if keep {
            let ghost before = out@;
            out.push(c.clone());
            proof {
                assert(clips_view(out@) =~= clips_view(before).push(c@));
            }
        }
        i = i + 1;
    }
    proof {
        assert(orig.take(n as int) == orig);
    }
    *v = out;
}

impl Project {
    /// Position of the first clip with this id.
    pub fn clip_index(&self, id: ClipId) -> (r: Option<usize>)
        ensures
            match r {
                Some(i) => i < self.clips@.len() && self@.clips[i as int].id == id && clip_pos(
                    self@.clips,
                    id,
                ) == Some(i as int),
                None => clip_pos(self@.clips, id) == None::<int>,
            },
    {
        let n = self.clips.len();
        for i in 0..n
            invariant
                n == self.clips@.len(),
                forall|j: int| 0 <= j < i ==> self@.clips[j].id != id,
        {
            if self.clips[i].id == id {
                proof {
                    lemma_first_match(self@.clips, |c: ClipView| c.id == id, i as int);
                }
                return Some(i);
            }
        }
        proof {
            lemma_no_match(self@.clips, |c: ClipView| c.id == id);
        }
        None
    }

    /// Position of the first track with this id.
    pub fn track_index(&self, id: TrackId) -> (r: Option<usize>)
        ensures
            match r {
                Some(i) => i < self.tracks@.len() && self@.tracks[i as int].id == id && track_pos(
                    self@.tracks,
                    id,
                ) == Some(i as int),
                None => track_pos(self@.tracks, id) == None::<int>,
            },
    {
        let n = self.tracks.len();
        for i in 0..n
            invariant
                n == self.tracks@.len(),
                forall|j: int| 0 <= j < i ==> self@.tracks[j].id != id,
        {
            if self.tracks[i].id == id {
                proof {
                    lemma_first_match(self@.tracks, |t: TrackView| t.id == id, i as int);
                }
                return Some(i);
            }
        }
        proof {
            lemma_no_match(self@.tracks, |t: TrackView| t.id == id);
        }
        None
    }

    /// Find a track by ID.
    pub fn track(&self, id: TrackId) -> (r: Option<&TrackState>)
        ensures
            match track_pos(self@.tracks, id) {
                Some(i) => r matches Some(t) && t@ == self@.tracks[i],
                None => r is None,
            },
    {
        match self.track_index(id) {
            Some(i) => Some(&self.tracks[i]),
            None => None,
        }
    }

    /// Find a clip by ID.
    pub fn clip(&self, id: ClipId) -> (r: Option<&ClipState>)
        ensures
            match clip_pos(self@.clips, id) {
                Some(i) => r matches Some(c) && c@ == self@.clips[i],
                None => r is None,
            },
    {
        match self.clip_index(id) {
            Some(i) => Some(&self.clips[i]),
            None => None,
        }
    }

    /// Clips belonging to a specific track, in project order.
    pub fn clips_for_track(&self, track_id: TrackId) -> (r: Vec<&ClipState>)
        ensures
            r@.map_values(|c: &ClipState| c@) == self@.clips.filter(on_track(track_id)),
    {
        let ghost pred = on_track(track_id);
        let mut out: Vec<&ClipState> = Vec::new();
        let n = self.clips.len();
        for i in 0..n
            invariant
                n == self.clips@.len(),
                pred == on_track(track_id),
                out@.map_values(|c: &ClipState| c@) == self@.clips.take(i as int).filter(pred),
        {
            proof {
                assert(self@.clips.take(i as int + 1) == self@.clips.take(i as int).push(
                    self@.clips[i as int],
                ));
                self@.clips.take(i as int).lemma_filter_push(self@.clips[i as int], pred);
            }
            proof {
                assert(self@.clips[i as int] == self.clips@[i as int]@);
                assert(self@.clips[i as int].track_id == self.clips@[i as int].track_id);
            }
            if self.clips[i].track_id == track_id {
                let ghost before = out@;
                out.push(&self.clips[i]);
                proof {
                    assert(out@.map_values(|c: &ClipState| c@) =~= before.map_values(
                        |c: &ClipState| c@,
                    ).push(self@.clips[i as int]));
                }
            }
        }
        proof {
            assert(self@.clips.take(n as int) == self@.clips);
        }
        out
    }

    /// Replace the first clip with `updated`'s id; no change if there is none.
    pub fn update_clip(&mut self, updated: ClipState)
        ensures
            final(self)@ == (ProjectView {
                clips: clips_with_update(old(self)@.clips, updated@),
                ..old(self)@
            }),
    {
        match self.clip_index(updated.id) {
            Some(i) => {
                self.clips.set(i, updated);
                proof {
                    assert(clips_view(self.clips@) =~= clips_view(old(self).clips@).update(
                        i as int,
                        updated@,
                    ));
                }
            },
            None => {},
        }
    }

    /// Replace the first track with `updated`'s id; no change if there is none.
    pub fn update_track(&mut self, updated: TrackState)
        ensures
            final(self)@ == (ProjectView {
                tracks: tracks_with_update(old(self)@.tracks, updated@),
                ..old(self)@
            }),
    {
        match self.track_index(updated.id) {
            Some(i) => {
                self.tracks.set(i, updated);
                proof {
                    assert(tracks_view(self.tracks@) =~= tracks_view(old(self).tracks@).update(
                        i as int,
                        updated@,
                    ));
                }
            },
            None => {},
        }
    }
}

} // verus!
