//! The square waveform: a fixed amplitude with the sign of the sine wave.

use vstd::prelude::*;

use crate::wave::phase::{valid_note, Phase};
use crate::wave::sine::{sine_of, Sine};
use crate::wave::MAX_BUFFER;

verus! {

/// The square wave's amplitude, half of full scale.
pub const AMP: i64 = 27720;

/// The square waveform value at a phase: plus or minus [`AMP`] following
/// the sign of the sine value, with 0 mapping to exactly 0.
pub open spec fn square_of(phase: int) -> int {
    let s = sine_of(phase);
    if s < 0 {
        -AMP as int
    } else if s > 0 {
        AMP as int
    } else {
        0
    }
}

/// The square wave takes exactly the three values `-AMP`, `0` and `AMP`,
/// matching the sign of the underlying sine value at the same phase.
pub proof fn lemma_square_wave(phase: int)
    ensures
        square_of(phase) == AMP || square_of(phase) == 0 || square_of(phase) == -AMP,
        square_of(phase) == AMP <==> sine_of(phase) > 0,
        square_of(phase) == -AMP <==> sine_of(phase) < 0,
        square_of(phase) == 0 <==> sine_of(phase) == 0,
{
}

/// A square-wave generator wrapping the sine generator.
pub struct Square {
    pub(crate) sine: Sine,
}

impl Square {
    /// The underlying phase accumulator.
    pub open(crate) spec fn spec_phase(&self) -> Phase {
        self.sine.spec_phase()
    }

    pub fn new(sample_rate: u32) -> (w: Square)
        requires
            sample_rate >= 1,
        ensures
            w.spec_phase().wf(),
            w.spec_phase().is_fresh(sample_rate),
    {
        Square { sine: Sine::new(sample_rate) }
    }

    pub fn clear(&mut self, rel_midi_note: i8)
        requires
            old(self).spec_phase().wf(),
            valid_note(rel_midi_note),
        ensures
            final(self).spec_phase().wf(),
            old(self).spec_phase().clear_to(final(self).spec_phase(), rel_midi_note),
    {
        self.sine.clear(rel_midi_note);
    }

    pub fn before(&mut self, rel_midi_note: i8)
        requires
            old(self).spec_phase().wf(),
            valid_note(rel_midi_note),
        ensures
            final(self).spec_phase().wf(),
            old(self).spec_phase().before_to(final(self).spec_phase(), rel_midi_note),
    {
        self.sine.before(rel_midi_note);
    }

    /// The waveform value at a sample offset within the current buffer.
    pub fn next(&self, sample_idx: usize) -> (v: i64)
        requires
            self.spec_phase().wf(),
            sample_idx <= MAX_BUFFER,
        ensures
            v == square_of(
                self.spec_phase().spec_current_phase() + sample_idx
                    * self.spec_phase().spec_increment(),
            ),
            -AMP <= v <= AMP,
    {
        let sine_wave = self.sine.next(sample_idx);
        if sine_wave < 0 {
            -AMP
        } else if sine_wave > 0 {
            AMP
        } else {
            0
        }
    }

    pub fn after(&mut self, buf_len: usize)
        requires
            old(self).spec_phase().wf(),
            buf_len <= MAX_BUFFER,
        ensures
            final(self).spec_phase().wf(),
            old(self).spec_phase().after_to(final(self).spec_phase(), buf_len as int),
    {
        self.sine.after(buf_len);
    }
}

} // verus!
