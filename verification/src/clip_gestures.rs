//! Mouse gestures on arrangement clips: what a press becomes once the mouse
//! has moved far enough to count as a drag, and what releasing the button
//! does. Pixel positions and the drag threshold stay with the view.

use vstd::prelude::*;
use crate::app_data::AppData;
use crate::clip_ops::{move_clips_result, move_fits, resize_clip_result, resize_fits, track_map_of};
use crate::editor_state::{ClipHitZone, ClipResizeEdge, Effect};
use crate::ids::{ClipId, TrackId};
use crate::project::clip_pos;
use crate::selection::{ClipSelection, SelectionRect, clip_in_rect, clips_in_rect, toggle_set};
use crate::track::ClipView;

verus! {

/// A clip mouse gesture in progress.
#[derive(Debug, Clone, Copy, PartialEq, Eq, Structural)]
pub enum ClipInteraction {
    Idle,
    /// The button went down on a clip; not yet a drag.
    PendingDrag { clip_id: ClipId, track_id: TrackId, click_tick: i64, hit_zone: ClipHitZone },
    /// The selected clips are being dragged.
    MovingClips {
        anchor_clip_id: ClipId,
        anchor_original_start: i64,
        anchor_original_track: TrackId,
        grab_offset_tick: i64,
        delta_tick: i64,
        delta_track_index: i32,
    },
    /// One edge of a clip is being dragged; the bounds are those it would get.
    ResizingClip { clip_id: ClipId, edge: ClipResizeEdge, original_start: i64, original_duration: i64 },
    /// A selection rectangle is being drawn.
    RubberBand,
}

impl Default for ClipInteraction {
    fn default() -> (r: Self)
        ensures
            r == ClipInteraction::Idle,
    {
        ClipInteraction::Idle
    }
}

/// Only the selected track and clips may differ between `a` and `b`.
pub open spec fn only_selection_changed(a: AppData, b: AppData) -> bool {
    &&& b.arrangement.snap_grid == a.arrangement.snap_grid
    &&& b.arrangement.clipboard == a.arrangement.clipboard
    &&& b.transport == a.transport
    &&& b.project == a.project
    &&& b.piano_roll == a.piano_roll
    &&& b.undo_manager == a.undo_manager
    &&& b.active_view == a.active_view
    &&& b.browser == a.browser
    &&& b.show_preferences == a.show_preferences
}

/// Only the clip selection may differ between `a` and `b`.
pub open spec fn only_clip_selection_changed(a: AppData, b: AppData) -> bool {
    &&& only_selection_changed(a, b)
    &&& b.arrangement.selected_track == a.arrangement.selected_track
}

/// What a press over the lane of track `t` starts: on a clip, a pending
/// drag of it; elsewhere a selection rectangle.
pub open spec fn press_started(t: TrackId, hit: Option<(ClipId, ClipHitZone)>, click_tick: i64) -> ClipInteraction {
    match hit {
        Some((c, z)) => ClipInteraction::PendingDrag { clip_id: c, track_id: t, click_tick, hit_zone: z },
        None => ClipInteraction::RubberBand,
    }
}

/// The gesture a press on clip `c` (with id `id`, in zone `zone`, at tick
/// `click_tick`) becomes once the mouse moves: a press on the body moves
/// the clips, grabbing at the click's offset into the clip; a press on an
/// edge resizes from that edge.
pub open spec fn drag_started(c: ClipView, id: ClipId, zone: ClipHitZone, click_tick: i64) -> ClipInteraction {
    match zone {
        ClipHitZone::Body => ClipInteraction::MovingClips {
            anchor_clip_id: id,
            anchor_original_start: c.start_tick,
            anchor_original_track: c.track_id,
            grab_offset_tick: (click_tick - c.start_tick) as i64,
            delta_tick: 0,
            delta_track_index: 0,
        },
        ClipHitZone::LeftEdge => ClipInteraction::ResizingClip {
            clip_id: id,
            edge: ClipResizeEdge::Left,
            original_start: c.start_tick,
            original_duration: c.duration_ticks,
        },
        ClipHitZone::RightEdge => ClipInteraction::ResizingClip {
            clip_id: id,
            edge: ClipResizeEdge::Right,
            original_start: c.start_tick,
            original_duration: c.duration_ticks,
        },
    }
}

/// The grab offset of a body drag fits in a tick.
pub open spec fn drag_start_fits(a: AppData, id: ClipId, zone: ClipHitZone, click_tick: i64) -> bool {
    match clip_pos(a.project@.clips, id) {
        Some(i) => zone is Body ==> i64::MIN <= click_tick - a.project@.clips[i].start_tick <= i64::MAX,
        None => true,
    }
}

/// What releasing the button ends: a press that never became a drag
/// selects the clip (Shift toggles it in or out of the selection); a move
/// that went somewhere moves the selected clips; a resize resizes the clip;
/// anything else changes nothing.
pub open spec fn clip_mouse_up_result(a: AppData, b: AppData, g: ClipInteraction, shift: bool, fx: Seq<Effect>) -> bool {
    match g {
        ClipInteraction::PendingDrag { clip_id, .. } => {
            &&& fx.len() == 0
            &&& only_clip_selection_changed(a, b)
            &&& b.arrangement.selected_clips@ == if shift {
                toggle_set(a.arrangement.selected_clips@, clip_id)
            } else {
                Set::<ClipId>::empty().insert(clip_id)
            }
        },
        ClipInteraction::MovingClips { delta_tick, delta_track_index, .. } => {
            if delta_tick != 0 || delta_track_index != 0 {
                move_clips_result(a, b, delta_tick, delta_track_index, fx)
            } else {
                b == a && fx.len() == 0
            }
        },
        ClipInteraction::ResizingClip { clip_id, original_start, original_duration, .. } =>
            resize_clip_result(a, b, clip_id, original_start, original_duration, fx),
        _ => b == a && fx.len() == 0,
    }
}

/// Releasing the button stays within machine integers.
pub open spec fn clip_mouse_up_fits(a: AppData, g: ClipInteraction) -> bool {
    match g {
        ClipInteraction::MovingClips { delta_tick, delta_track_index, .. } =>
            (delta_tick != 0 || delta_track_index != 0) ==> move_fits(a, delta_tick, delta_track_index),
        ClipInteraction::ResizingClip { clip_id, original_duration, .. } =>
            resize_fits(a.project@, clip_id, original_duration),
        _ => true,
    }
}

impl AppData {
    /// Press the button over the lane of the track at `track_index`, on the
    /// clip and zone `hit` (if any) at tick `click_tick`. The track becomes
    /// the selected one; a press beside the clips clears the clip selection
    /// unless Shift is held. None, with nothing changed, when there is no
    /// track at that index.
    pub fn clip_mouse_down(&mut self, track_index: usize, hit: Option<(ClipId, ClipHitZone)>, click_tick: i64, shift: bool) -> (r: Option<ClipInteraction>)
        ensures
            track_index >= old(self).project@.tracks.len() ==> r is None && *final(self) == *old(self),
            track_index < old(self).project@.tracks.len() ==> {
                let t = old(self).project@.tracks[track_index as int].id;
                &&& r == Some(press_started(t, hit, click_tick))
                &&& only_selection_changed(*old(self), *final(self))
                &&& final(self).arrangement.selected_track == Some(t)
                &&& final(self).arrangement.selected_clips@ == if hit is None && !shift {
                    Set::<ClipId>::empty()
                } else {
                    old(self).arrangement.selected_clips@
                }
            },
    {
        if track_index >= self.project.tracks.len() {
            return None;
        }
        let track_id = self.project.tracks[track_index].id;
        proof {
            assert(self.project.tracks@[track_index as int]@ == self.project@.tracks[track_index as int]);
        }
        self.arrangement.selected_track = Some(track_id);
        match hit {
            Some((clip_id, zone)) => Some(ClipInteraction::PendingDrag { clip_id, track_id, click_tick, hit_zone: zone }),
            None => {
                if !shift {
                    self.arrangement.selected_clips = ClipSelection::new();
                }
                Some(ClipInteraction::RubberBand)
            },
        }
    }

    /// Select exactly the clips that overlap the rectangle `rect` (ticks and
    /// track positions), as a selection rectangle is drawn.
    pub fn select_clips_in_rect(&mut self, rect: SelectionRect)
        requires
            forall|i: int| 0 <= i < old(self).project@.clips.len()
                ==> i64::MIN <= #[trigger] old(self).project@.clips[i].start_tick + old(self).project@.clips[i].duration_ticks <= i64::MAX,
        ensures
            only_clip_selection_changed(*old(self), *final(self)),
            forall|id: ClipId| final(self).arrangement.selected_clips@.contains(id) <==> exists|i: int|
                0 <= i < old(self).project@.clips.len() && old(self).project@.clips[i].id == id
                && clip_in_rect(#[trigger] old(self).project@.clips[i], track_map_of(old(self).project@.tracks), rect),
    {
        let track_map = self.track_map();
        proof {
            assert forall|i: int| 0 <= i < self.project.clips@.len() implies
                i64::MIN <= #[trigger] self.project.clips@[i].start_tick + self.project.clips@[i].duration_ticks <= i64::MAX by {
                assert(self.project.clips@[i]@ == self.project@.clips[i]);
                assert(i64::MIN <= old(self).project@.clips[i].start_tick + old(self).project@.clips[i].duration_ticks <= i64::MAX);
            }
        }
        let sel = clips_in_rect(self.project.clips.as_slice(), track_map.as_slice(), &rect);
        proof {
            assert forall|i: int| 0 <= i < self.project.clips@.len() implies #[trigger] self.project.clips@[i]@ == self.project@.clips[i] by {}
        }
        self.arrangement.selected_clips = sel;
    }

    /// Turn a press on clip `clip_id` into a drag. A body drag moves the
    /// selection, and selects the clip alone first when it was not selected.
    /// None, with nothing changed, when no clip has that id.
    pub fn start_clip_drag(&mut self, clip_id: ClipId, hit_zone: ClipHitZone, click_tick: i64) -> (r: Option<ClipInteraction>)
        requires
            drag_start_fits(*old(self), clip_id, hit_zone, click_tick),
        ensures
            match clip_pos(old(self).project@.clips, clip_id) {
                None => r is None && *final(self) == *old(self),
                Some(i) => {
                    &&& r == Some(drag_started(old(self).project@.clips[i], clip_id, hit_zone, click_tick))
                    &&& only_clip_selection_changed(*old(self), *final(self))
                    &&& final(self).arrangement.selected_clips@ == if hit_zone is Body
                        && !old(self).arrangement.selected_clips@.contains(clip_id) {
                        Set::<ClipId>::empty().insert(clip_id)
                    } else {
                        old(self).arrangement.selected_clips@
                    }
                },
            },
    {
        let (start, track, duration) = match self.clip(clip_id) {
            Some(c) => (c.start_tick, c.track_id, c.duration_ticks),
            None => {
                return None;
            },
        };
        match hit_zone {
            ClipHitZone::Body => {
                if !self.arrangement.selected_clips.contains(&clip_id) {
                    self.arrangement.selected_clips = ClipSelection::select_single(clip_id);
                }
                Some(ClipInteraction::MovingClips {
                    anchor_clip_id: clip_id,
                    anchor_original_start: start,
                    anchor_original_track: track,
                    grab_offset_tick: click_tick - start,
                    delta_tick: 0,
                    delta_track_index: 0,
                })
            },
            ClipHitZone::LeftEdge => Some(ClipInteraction::ResizingClip {
                clip_id,
                edge: ClipResizeEdge::Left,
                original_start: start,
                original_duration: duration,
            }),
            ClipHitZone::RightEdge => Some(ClipInteraction::ResizingClip {
                clip_id,
                edge: ClipResizeEdge::Right,
                original_start: start,
                original_duration: duration,
            }),
        }
    }

    /// Finish the clip gesture `gesture` when the button is released.
    pub fn clip_mouse_up(&mut self, gesture: ClipInteraction, shift: bool) -> (fx: Vec<Effect>)
        requires
            clip_mouse_up_fits(*old(self), gesture),
        ensures
            clip_mouse_up_result(*old(self), *final(self), gesture, shift, fx@),
    {
        match gesture {
            ClipInteraction::PendingDrag { clip_id, .. } => {
                if shift {
                    self.arrangement.selected_clips = self.arrangement.selected_clips.toggled(clip_id);
                } else {
                    self.arrangement.selected_clips = ClipSelection::select_single(clip_id);
                }
                Vec::new()
            },
            ClipInteraction::MovingClips { delta_tick, delta_track_index, .. } => {
                if delta_tick != 0 || delta_track_index != 0 {
                    self.move_clips(delta_tick, delta_track_index)
                } else {
                    Vec::new()
                }
            },
            ClipInteraction::ResizingClip { clip_id, original_start, original_duration, .. } => {
                self.resize_clip(clip_id, original_start, original_duration)
            },
            _ => Vec::new(),
        }
    }
}

/// Every clip's end fits in a tick (the condition `select_clips_in_rect`
/// asks for).
pub open spec fn clip_ends_fit(a: AppData) -> bool {
    forall|i: int| 0 <= i < a.project@.clips.len()
        ==> i64::MIN <= #[trigger] a.project@.clips[i].start_tick + a.project@.clips[i].duration_ticks <= i64::MAX
}

impl AppData {
    /// Whether turning a press into a drag stays within machine integers
    /// (the condition `start_clip_drag` asks for).
    pub fn drag_start_fits_check(&self, clip_id: ClipId, hit_zone: ClipHitZone, click_tick: i64) -> (r: bool)
        ensures
            r == drag_start_fits(*self, clip_id, hit_zone, click_tick),
    {
        match self.clip(clip_id) {
            None => true,
            Some(c) => match hit_zone {
                ClipHitZone::Body => {
                    let d: i128 = click_tick as i128 - c.start_tick as i128;
                    -0x8000_0000_0000_0000 <= d && d <= 0x7FFF_FFFF_FFFF_FFFF
                },
                _ => true,
            },
        }
    }

    /// Whether every clip's end fits in a tick (the condition
    /// `select_clips_in_rect` asks for).
    pub fn clip_ends_fit_check(&self) -> (r: bool)
        ensures
            r == clip_ends_fit(*self),
    {
        let n = self.project.clips.len();
        for k in 0..n
            invariant
                n == self.project@.clips.len(),
                forall|i: int| 0 <= i < k
                    ==> i64::MIN <= #[trigger] self.project@.clips[i].start_tick + self.project@.clips[i].duration_ticks <= i64::MAX,
        {
            let c = &self.project.clips[k];
            proof {
                assert(c@ == self.project@.clips[k as int]);
            }
            let e: i128 = c.start_tick as i128 + c.duration_ticks as i128;
            if e < -0x8000_0000_0000_0000 || e > 0x7FFF_FFFF_FFFF_FFFF {
                proof {
                    assert(!(i64::MIN <= self.project@.clips[k as int].start_tick + self.project@.clips[k as int].duration_ticks <= i64::MAX));
                }
                return false;
            }
        }
        true
    }
}

} // verus!
