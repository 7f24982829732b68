//! Track and clip types for project structure.

use vstd::prelude::*;
use crate::ids::{ClipId, TrackId};
use crate::midi::{Note, NoteId};

verus! {

/// Track type discriminator.
#[derive(Debug, Clone, Copy, PartialEq, Eq, Structural)]
pub enum TrackKind {
    Audio,
    Midi,
}

/// Bit pattern of the IEEE-754 single-precision value 0.8, the gain a new
/// track starts with.
pub const DEFAULT_VOLUME_BITS: u32 = 0x3F4C_CCCD;

/// Track metadata and state.
///
/// Gain and pan are carried as the bit patterns of their single-precision
/// values: the editing logic stores and restores them but never computes
/// with them.
#[derive(Debug)]
pub struct TrackState {
    pub id: TrackId,
    pub name: String,
    pub kind: TrackKind,
    pub volume_bits: u32,
    pub pan_bits: u32,
    pub mute: bool,
    pub solo: bool,
    pub color: [u8; 3],
    pub record_armed: bool,
}

/// Mathematical model of a track.
pub struct TrackView {
    pub id: TrackId,
    pub name: Seq<char>,
    pub kind: TrackKind,
    pub volume_bits: u32,
    pub pan_bits: u32,
    pub mute: bool,
    pub solo: bool,
    pub color: [u8; 3],
    pub record_armed: bool,
}

impl View for TrackState {
    type V = TrackView;

    open spec fn view(&self) -> TrackView {
        TrackView {
            id: self.id,
            name: self.name@,
            kind: self.kind,
            volume_bits: self.volume_bits,
            pan_bits: self.pan_bits,
            mute: self.mute,
            solo: self.solo,
            color: self.color,
            record_armed: self.record_armed,
        }
    }
}

/// A freshly created track of the given kind: default gain, centred,
/// not muted, soloed or armed.
pub open spec fn new_track_view(id: TrackId, name: Seq<char>, kind: TrackKind, color: [u8; 3]) -> TrackView {
    TrackView {
        id,
        name,
        kind,
        volume_bits: DEFAULT_VOLUME_BITS,
        pan_bits: 0,
        mute: false,
        solo: false,
        color,
        record_armed: false,
    }
}

impl Clone for TrackState {
    fn clone(&self) -> (r: Self)
        ensures
            r@ == self@,
    {
        TrackState {
            id: self.id,
            name: self.name.clone(),
            kind: self.kind,
            volume_bits: self.volume_bits,
            pan_bits: self.pan_bits,
            mute: self.mute,
            solo: self.solo,
            color: self.color,
            record_armed: self.record_armed,
        }
    }
}

impl TrackState {
    pub fn new_midi(id: TrackId, name: &str, color: [u8; 3]) -> (r: Self)
        ensures
            r@ == new_track_view(id, name@, TrackKind::Midi, color),
    {
        TrackState {
            id,
            name: name.to_owned(),
            kind: TrackKind::Midi,
            volume_bits: DEFAULT_VOLUME_BITS,
            pan_bits: 0,
            mute: false,
            solo: false,
            color,
            record_armed: false,
        }
    }

    pub fn new_audio(id: TrackId, name: &str, color: [u8; 3]) -> (r: Self)
        ensures
            r@ == new_track_view(id, name@, TrackKind::Audio, color),
    {
        TrackState {
            id,
            name: name.to_owned(),
            kind: TrackKind::Audio,
            volume_bits: DEFAULT_VOLUME_BITS,
            pan_bits: 0,
            mute: false,
            solo: false,
            color,
            record_armed: false,
        }
    }
}

/// Clip data — a region on a track containing notes or an audio reference.
#[derive(Debug)]
pub struct ClipState {
    pub id: ClipId,
    pub track_id: TrackId,
    pub start_tick: i64,
    pub duration_ticks: i64,
    pub name: String,
    pub notes: Vec<Note>,
    pub audio_file: Option<String>,
    pub audio_length_samples: Option<u64>,
    pub audio_sample_rate: Option<u32>,
}

/// Mathematical model of a clip.
pub struct ClipView {
    pub id: ClipId,
    pub track_id: TrackId,
    pub start_tick: i64,
    pub duration_ticks: i64,
    pub name: Seq<char>,
    pub notes: Seq<Note>,
    pub audio_file: Option<Seq<char>>,
    pub audio_length_samples: Option<u64>,
    pub audio_sample_rate: Option<u32>,
}

pub open spec fn opt_string_view(s: Option<String>) -> Option<Seq<char>> {
    match s {
        Some(s) => Some(s@),
        None => None,
    }
}

impl View for ClipState {
    type V = ClipView;

    open spec fn view(&self) -> ClipView {
        ClipView {
            id: self.id,
            track_id: self.track_id,
            start_tick: self.start_tick,
            duration_ticks: self.duration_ticks,
            name: self.name@,
            notes: self.notes@,
            audio_file: opt_string_view(self.audio_file),
            audio_length_samples: self.audio_length_samples,
            audio_sample_rate: self.audio_sample_rate,
        }
    }
}

/// Copy of a note list.
pub fn copy_notes(v: &Vec<Note>) -> (r: Vec<Note>)
    ensures
        r@ == v@,
{
    let mut r: Vec<Note> = Vec::new();
    let n = v.len();
    for i in 0..n
        invariant
            n == v@.len(),
            r@ == v@.take(i as int),
    {
        proof {
            assert(v@.take(i as int + 1) == v@.take(i as int).push(v@[i as int]));
        }
        r.push(v[i]);
    }
    proof {
        assert(v@.take(n as int) == v@);
    }
    r
}

pub fn copy_opt_string(s: &Option<String>) -> (r: Option<String>)
    ensures
        opt_string_view(r) == opt_string_view(*s),
{
    match s {
        Some(s) => Some(s.clone()),
        None => None,
    }
}

impl Clone for ClipState {
    fn clone(&self) -> (r: Self)
        ensures
            r@ == self@,
    {
        ClipState {
            id: self.id,
            track_id: self.track_id,
            start_tick: self.start_tick,
            duration_ticks: self.duration_ticks,
            name: self.name.clone(),
            notes: copy_notes(&self.notes),
            audio_file: copy_opt_string(&self.audio_file),
            audio_length_samples: self.audio_length_samples,
            audio_sample_rate: self.audio_sample_rate,
        }
    }
}

// ---------------------------------------------------------------------------
// Ordering notes by start tick
// ---------------------------------------------------------------------------

/// Notes are in non-decreasing order of start tick.
pub open spec fn sorted_by_start(s: Seq<Note>) -> bool {
    forall|i: int, j: int| 0 <= i <= j < s.len() ==> s[i].start_tick <= s[j].start_tick
}

/// Insert `x` into a note list after every note that starts no later than it
/// (searching from the end), so that equal start ticks keep arrival order.
pub open spec fn insert_by_start(s: Seq<Note>, x: Note) -> Seq<Note>
    decreases s.len(),
{
    if s.len() == 0 {
        seq![x]
    } else if s.last().start_tick <= x.start_tick {
        s.push(x)
    } else {
        insert_by_start(s.drop_last(), x).push(s.last())
    }
}

/// Stable sort of a note list by start tick.
pub open spec fn sort_by_start(s: Seq<Note>) -> Seq<Note>
    decreases s.len(),
{
    if s.len() == 0 {
        s
    } else {
        insert_by_start(sort_by_start(s.drop_last()), s.last())
    }
}

/// Inserting lands `x` right after the last note (at or before `j`) that
/// starts no later than it.
proof fn lemma_insert_split(p: Seq<Note>, x: Note, j: int)
    requires
        0 <= j <= p.len(),
        forall|k: int| j <= k < p.len() ==> p[k].start_tick > x.start_tick,
        j == 0 || p[j - 1].start_tick <= x.start_tick,
    ensures
        insert_by_start(p, x) == p.take(j).push(x) + p.skip(j),
    decreases p.len(),
{
    if p.len() == j {
        assert(p.take(j) == p);
        assert(p.skip(j) == Seq::<Note>::empty());
        if j == 0 {
            assert(insert_by_start(p, x) == seq![x]);
        }
    } else {
        lemma_insert_split(p.drop_last(), x, j);
        assert(p.drop_last().take(j) == p.take(j));
        assert(p.drop_last().skip(j).push(p.last()) == p.skip(j));
        assert((p.take(j).push(x) + p.drop_last().skip(j)).push(p.last())
            == p.take(j).push(x) + p.skip(j));
    }
}

/// Law: inserting into a sorted list keeps it sorted and adds exactly `x`.
pub proof fn lemma_insert_sorted(s: Seq<Note>, x: Note)
    requires
        sorted_by_start(s),
    ensures
        sorted_by_start(insert_by_start(s, x)),
        insert_by_start(s, x).to_multiset() == s.to_multiset().insert(x),
    decreases s.len(),
{
    broadcast use vstd::seq_lib::group_to_multiset_ensures;
    if s.len() == 0 {
        assert(seq![x] == Seq::<Note>::empty().push(x));
    } else if s.last().start_tick <= x.start_tick {
    } else {
        let d = s.drop_last();
        assert(sorted_by_start(d));
        lemma_insert_sorted(d, x);
        let r = insert_by_start(d, x);
        assert(s == d.push(s.last()));
        assert forall|i: int| 0 <= i < r.len() implies r[i].start_tick <= s.last().start_tick by {
            assert(r.to_multiset().count(r[i]) > 0);
            if r[i] != x {
                assert(d.to_multiset().count(r[i]) > 0);
                assert(d.contains(r[i]));
            }
        }
    }
}

/// Law: the start-order sort yields a sorted permutation of its input.
pub proof fn lemma_sort_sorted(s: Seq<Note>)
    ensures
        sorted_by_start(sort_by_start(s)),
        sort_by_start(s).to_multiset() == s.to_multiset(),
    decreases s.len(),
{
    broadcast use vstd::seq_lib::group_to_multiset_ensures;
    if s.len() > 0 {
        lemma_sort_sorted(s.drop_last());
        lemma_insert_sorted(sort_by_start(s.drop_last()), s.last());
        assert(s == s.drop_last().push(s.last()));
    }
}

/// Law: sorting an already sorted list changes nothing.
pub proof fn lemma_sort_of_sorted(s: Seq<Note>)
    requires
        sorted_by_start(s),
    ensures
        sort_by_start(s) == s,
    decreases s.len(),
{
    if s.len() > 0 {
        let d = s.drop_last();
        assert(sorted_by_start(d));
        lemma_sort_of_sorted(d);
        assert(d.push(s.last()) == s);
    }
}

/// Stable in-place sort of notes by start tick.
pub fn sort_notes_by_start(v: &mut Vec<Note>)
    ensures
        final(v)@ == sort_by_start(old(v)@),
{
    let ghost orig = v@;
    let n = v.len();
    let mut i: usize = 0;
    while i < n
        invariant
            n == orig.len(),
            v@.len() == n,
            i <= n,
            v@.take(i as int) == sort_by_start(orig.take(i as int)),
            v@.skip(i as int) == orig.skip(i as int),
        decreases n - i,
    {
        let ghost p = v@.take(i as int);
        let ghost x = orig[i as int];
        proof {
            assert(v@[i as int] == v@.skip(i as int)[0]);
            assert(orig[i as int] == orig.skip(i as int)[0]);
            assert(p.take(i as int) == p);
            assert(v@.subrange(i as int + 1, i as int + 1) == p.subrange(i as int, i as int));
            assert(v@.skip(i as int + 1) == v@.skip(i as int).skip(1));
            assert(orig.skip(i as int + 1) == orig.skip(i as int).skip(1));
        }
        let mut j: usize = i;
        while j > 0 && v[j - 1].start_tick > v[j].start_tick
            invariant
                v@.len() == n,
                i < n,
                j <= i,
                p.len() == i,
                v@[j as int] == x,
                v@.take(j as int) == p.take(j as int),
                v@.subrange(j as int + 1, i as int + 1) == p.subrange(j as int, i as int),
                forall|k: int| j <= k < i ==> p[k].start_tick > x.start_tick,
                v@.skip(i as int + 1) == orig.skip(i as int + 1),
            decreases j,
        {
            let ghost before = v@;
            let a = v[j - 1];
            let b = v[j];
            proof {
                assert(v@.take(j as int)[j - 1] == v@[j - 1]);
                assert(p.take(j as int)[j - 1] == p[j - 1]);
            }
            v.set(j - 1, b);
            v.set(j, a);
            j = j - 1;
            proof {
                assert(v@.take(j as int) == p.take(j as int));
                assert forall|k: int| j as int + 1 <= k < i as int + 1 implies v@[k] == p[k - 1] by {
                    if k == j as int + 1 {
                    } else {
                        assert(v@[k] == before[k]);
                        assert(before[k] == before.subrange(j as int + 2, i as int + 1)[k - j - 2]);
                    }
                }
                assert(v@.subrange(j as int + 1, i as int + 1) == p.subrange(j as int, i as int));
                assert(v@.skip(i as int + 1) == before.skip(i as int + 1));
            }
        }
        proof {
            if j > 0 {
                assert(v@.take(j as int)[j - 1] == v@[j - 1]);
                assert(p.take(j as int)[j - 1] == p[j - 1]);
            }
            lemma_insert_split(p, x, j as int);
            assert(v@.take(i as int + 1) == p.take(j as int).push(x) + p.skip(j as int));
            assert(orig.take(i as int + 1).drop_last() == orig.take(i as int));
            assert(orig.take(i as int + 1).last() == x);
            assert(v@.skip(i as int + 1) == orig.skip(i as int + 1));
        }
        i = i + 1;
    }
    proof {
        assert(v@.take(n as int) == v@);
        assert(orig.take(n as int) == orig);
    }
}

/// Law: inserting a note whose id is new and then filtering that id out
/// gives the original list back.
pub proof fn lemma_insert_then_remove(s: Seq<Note>, x: Note)
    requires
        forall|k: int| 0 <= k < s.len() ==> s[k].id != x.id,
    ensures
        notes_without(insert_by_start(s, x), x.id) == s,
    decreases s.len(),
{
    let p = |n: Note| n.id != x.id;
    if s.len() == 0 {
        assert(seq![x] == Seq::<Note>::empty().push(x));
        Seq::<Note>::empty().lemma_filter_push(x, p);
        reveal(Seq::filter);
    } else if s.last().start_tick <= x.start_tick {
        s.lemma_filter_push(x, p);
        crate::seq_facts::lemma_filter_all(s, p);
    } else {
        let d = s.drop_last();
        lemma_insert_then_remove(d, x);
        insert_by_start(d, x).lemma_filter_push(s.last(), p);
        assert(d.push(s.last()) == s);
    }
}

/// The note list with every note of the given id taken out.
pub open spec fn notes_without(s: Seq<Note>, id: NoteId) -> Seq<Note> {
    s.filter(|n: Note| n.id != id)
}

/// The note list with every note of `updated`'s id replaced by `updated`.
pub open spec fn notes_replaced(s: Seq<Note>, updated: Note) -> Seq<Note> {
    s.map_values(|n: Note| if n.id == updated.id { updated } else { n })
}

/// The view of a clip whose note list is replaced.
pub open spec fn with_notes(c: ClipView, notes: Seq<Note>) -> ClipView {
    ClipView { notes, ..c }
}

pub fn filter_out_note(v: &Vec<Note>, id: NoteId) -> (r: Vec<Note>)
    ensures
        r@ == notes_without(v@, id),
{
    let mut r: Vec<Note> = Vec::new();
    let n = v.len();
    for i in 0..n
        invariant
            n == v@.len(),
            r@ == notes_without(v@.take(i as int), id),
    {
        proof {
            assert(v@.take(i as int + 1) == v@.take(i as int).push(v@[i as int]));
            v@.take(i as int).lemma_filter_push(v@[i as int], |n: Note| n.id != id);
        }
        if v[i].id != id {
            r.push(v[i]);
        }
    }
    proof {
        assert(v@.take(n as int) == v@);
    }
    r
}

pub fn replace_note(v: &Vec<Note>, updated: Note) -> (r: Vec<Note>)
    ensures
        r@ == notes_replaced(v@, updated),
{
    let mut r: Vec<Note> = Vec::new();
    let n = v.len();
    for i in 0..n
        invariant
            n == v@.len(),
            r@ == notes_replaced(v@.take(i as int), updated),
    {
        proof {
            assert(v@.take(i as int + 1) == v@.take(i as int).push(v@[i as int]));
        }
        if v[i].id == updated.id {
            r.push(updated);
        } else {
            r.push(v[i]);
        }
        proof {
            assert(r@ == notes_replaced(v@.take(i as int + 1), updated));
        }
    }
    proof {
        assert(v@.take(n as int) == v@);
    }
    r
}

/// Clip end position.
pub open spec fn clip_end(c: ClipView) -> int {
    c.start_tick + c.duration_ticks
}

impl ClipState {
    pub fn end_tick(&self) -> (r: i64)
        requires
            i64::MIN <= clip_end(self@) <= i64::MAX,
        ensures
            r == clip_end(self@),
    {
        self.start_tick + self.duration_ticks
    }

    /// Return a new clip with a note added, notes re-sorted by start tick
    /// (stable).
    pub fn with_note_added(&self, note: Note) -> (r: Self)
        ensures
            r@ == with_notes(self@, sort_by_start(self@.notes.push(note))),
    {
        let mut new_notes = copy_notes(&self.notes);
        new_notes.push(note);
        sort_notes_by_start(&mut new_notes);
        ClipState {
            id: self.id,
            track_id: self.track_id,
            start_tick: self.start_tick,
            duration_ticks: self.duration_ticks,
            name: self.name.clone(),
            notes: new_notes,
            audio_file: copy_opt_string(&self.audio_file),
            audio_length_samples: self.audio_length_samples,
            audio_sample_rate: self.audio_sample_rate,
        }
    }

    /// Return a new clip with every note of the given id removed.
    pub fn with_note_removed(&self, note_id: NoteId) -> (r: Self)
        ensures
            r@ == with_notes(self@, notes_without(self@.notes, note_id)),
    {
        ClipState {
            id: self.id,
            track_id: self.track_id,
            start_tick: self.start_tick,
            duration_ticks: self.duration_ticks,
            name: self.name.clone(),
            notes: filter_out_note(&self.notes, note_id),
            audio_file: copy_opt_string(&self.audio_file),
            audio_length_samples: self.audio_length_samples,
            audio_sample_rate: self.audio_sample_rate,
        }
    }

    /// Return a new clip with every note of `updated`'s id replaced.
    pub fn with_note_updated(&self, updated: Note) -> (r: Self)
        ensures
            r@ == with_notes(self@, notes_replaced(self@.notes, updated)),
    {
        ClipState {
            id: self.id,
            track_id: self.track_id,
            start_tick: self.start_tick,
            duration_ticks: self.duration_ticks,
            name: self.name.clone(),
            notes: replace_note(&self.notes, updated),
            audio_file: copy_opt_string(&self.audio_file),
            audio_length_samples: self.audio_length_samples,
            audio_sample_rate: self.audio_sample_rate,
        }
    }
}

} // verus!
