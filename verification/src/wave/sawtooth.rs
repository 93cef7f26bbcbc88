//! The sawtooth waveform: two linear segments per turn, rising from minus
//! the unit through 0 at the half turn up to the unit.

use vstd::prelude::*;

use crate::notes::{lerp, lerp_spec, FIXED_ONE};
use crate::wave::phase::{valid_note, Phase};
use crate::wave::{FULL_TURN, HALF_TURN, MAX_BUFFER};

verus! {

/// Where a phase lies within its half turn, scaled by [`FIXED_ONE`].
pub open spec fn half_frac_spec(pm: int) -> int {
    (pm % (HALF_TURN as int)) * FIXED_ONE / (HALF_TURN as int)
}

/// The sawtooth waveform value at a phase: linear from minus the unit up
/// to 0 over the first half turn, then from 0 up to the unit.
pub open spec fn sawtooth_of(phase: int) -> int {
    let pm = phase % (FULL_TURN as int);
    let frac = half_frac_spec(pm);
    if pm < HALF_TURN {
        lerp_spec(-FIXED_ONE as int, 0, frac)
    } else {
        lerp_spec(0, FIXED_ONE as int, frac)
    }
}

fn half_frac(pm: u64) -> (frac: i64)
    requires
        pm < FULL_TURN,
    ensures
        frac == half_frac_spec(pm as int),
        0 <= frac <= FIXED_ONE,
{
    let within: u64 = pm % HALF_TURN;
    let scaled: u64 = within * 55440u64 / HALF_TURN;
    proof {
        assert(within * 55440 / (HALF_TURN as int) <= FIXED_ONE) by (nonlinear_arith)
            requires
                0 <= within < HALF_TURN,
                HALF_TURN == 8388608,
                FIXED_ONE == 55440,
        ;
    }
    scaled as i64
}

/// A sawtooth-wave generator wrapping the shared phase accumulator.
pub struct Sawtooth {
    pub(crate) phase: Phase,
}

impl Sawtooth {
    /// The underlying phase accumulator.
    pub open(crate) spec fn spec_phase(&self) -> Phase {
        self.phase
    }

    pub fn new(sample_rate: u32) -> (w: Sawtooth)
        requires
            sample_rate >= 1,
        ensures
            w.spec_phase().wf(),
            w.spec_phase().is_fresh(sample_rate),
    {
        Sawtooth { phase: Phase::new(sample_rate) }
    }

    pub fn clear(&mut self, rel_midi_note: i8)
        requires
            old(self).spec_phase().wf(),
            valid_note(rel_midi_note),
        ensures
            final(self).spec_phase().wf(),
            old(self).spec_phase().clear_to(final(self).spec_phase(), rel_midi_note),
    {
        self.phase.clear(rel_midi_note);
    }

    pub fn before(&mut self, rel_midi_note: i8)
        requires
            old(self).spec_phase().wf(),
            valid_note(rel_midi_note),
        ensures
            final(self).spec_phase().wf(),
            old(self).spec_phase().before_to(final(self).spec_phase(), rel_midi_note),
    {
        self.phase.before(rel_midi_note);
    }

    /// The waveform value at a sample offset within the current buffer.
    pub fn next(&self, sample_idx: usize) -> (v: i64)
        requires
            self.spec_phase().wf(),
            sample_idx <= MAX_BUFFER,
        ensures
            v == sawtooth_of(
                self.spec_phase().spec_current_phase() + sample_idx
                    * self.spec_phase().spec_increment(),
            ),
            -FIXED_ONE <= v <= FIXED_ONE,
    {
        let ph: u64 = self.phase.next(sample_idx);
        let pm: u64 = ph % FULL_TURN;
        let frac: i64 = half_frac(pm);
        if pm < HALF_TURN {
            lerp(-FIXED_ONE, 0, frac)
        } else {
            lerp(0, FIXED_ONE, frac)
        }
    }

    pub fn after(&mut self, buf_len: usize)
        requires
            old(self).spec_phase().wf(),
            buf_len <= MAX_BUFFER,
        ensures
            final(self).spec_phase().wf(),
            old(self).spec_phase().after_to(final(self).spec_phase(), buf_len as int),
    {
        self.phase.after(buf_len);
    }
}

} // verus!
