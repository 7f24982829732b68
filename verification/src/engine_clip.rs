//! What the audio engine is given when a clip is (re)installed.

use vstd::prelude::*;
use crate::midi::{MidiClip, MidiEvent, Note, note_end_fits, note_events, note_to_events};
use crate::track::ClipState;

verus! {

/// The on and off events of the notes, note by note.
pub open spec fn notes_events(notes: Seq<Note>) -> Seq<MidiEvent>
    decreases notes.len(),
{
    if notes.len() == 0 {
        Seq::empty()
    } else {
        notes_events(notes.drop_last()) + seq![note_events(notes.last()).0, note_events(notes.last()).1]
    }
}

/// The engine's MIDI clip for a clip: every note's on and off event, in
/// note order, and the clip's length.
pub fn midi_clip_for(clip: &ClipState) -> (r: MidiClip)
    requires
        forall|k: int| 0 <= k < clip.notes@.len() ==> note_end_fits(#[trigger] clip.notes@[k]),
    ensures
        r.spec_events() == notes_events(clip.notes@),
        r.spec_duration() == clip.duration_ticks,
{
    let mut events: Vec<MidiEvent> = Vec::new();
    let n = clip.notes.len();
    for k in 0..n
        invariant
            n == clip.notes@.len(),
            forall|k: int| 0 <= k < clip.notes@.len() ==> note_end_fits(#[trigger] clip.notes@[k]),
            events@ == notes_events(clip.notes@.take(k as int)),
    {
        let pair = note_to_events(&clip.notes[k]);
        events.push(pair[0]);
        events.push(pair[1]);
        proof {
            assert(clip.notes@.take(k as int + 1).drop_last() == clip.notes@.take(k as int));
            assert(clip.notes@.take(k as int + 1).last() == clip.notes@[k as int]);
            assert(events@ =~= notes_events(clip.notes@.take(k as int + 1)));
        }
    }
    proof {
        assert(clip.notes@.take(n as int) == clip.notes@);
    }
    MidiClip::new(events, clip.duration_ticks)
}

/// Number of interleaved channels of decoded audio: the samples per frame
/// (at least one) when the frame count is known, else two.
pub open spec fn channel_count(total_samples: int, length_samples: int) -> int {
    if length_samples > 0 {
        let c = total_samples / length_samples;
        if c > 1 { c } else { 1 }
    } else {
        2
    }
}

/// Infer the channel count of decoded audio from its sample and frame counts.
pub fn audio_channel_count(total_samples: usize, length_samples: i64) -> (r: usize)
    ensures
        r == channel_count(total_samples as int, length_samples as int),
{
    if length_samples > 0 {
        let c: u128 = total_samples as u128 / length_samples as u128;
        proof {
            assert(c <= total_samples) by (nonlinear_arith)
                requires c == total_samples as int / length_samples as int, length_samples > 0, total_samples >= 0;
        }
        if c > 1 { c as usize } else { 1 }
    } else {
        2
    }
}

} // verus!
