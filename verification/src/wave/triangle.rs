//! The triangle waveform: four linear segments per turn, built from the
//! shared phase accumulator and the linear-interpolation helper.

use vstd::prelude::*;

use crate::notes::{lerp, lerp_spec, FIXED_ONE};
use crate::wave::phase::{valid_note, Phase};
use crate::wave::{FULL_TURN, MAX_BUFFER, QUARTER_TURN};

verus! {

/// Where a phase lies within its quarter turn, scaled by [`FIXED_ONE`].
pub open spec fn quarter_frac_spec(pm: int) -> int {
    (pm % (QUARTER_TURN as int)) * FIXED_ONE / (QUARTER_TURN as int)
}

/// The triangle waveform value at a phase: linear from 0 up to the unit
/// over the first quarter turn, back through 0 at the half turn, down to
/// minus the unit, and back to 0.
pub open spec fn triangle_of(phase: int) -> int {
    let pm = phase % (FULL_TURN as int);
    let seg = pm / (QUARTER_TURN as int);
    let frac = quarter_frac_spec(pm);
    if seg == 0 {
        lerp_spec(0, FIXED_ONE as int, frac)
    } else if seg == 1 {
        lerp_spec(FIXED_ONE as int, 0, frac)
    } else if seg == 2 {
        lerp_spec(0, -FIXED_ONE as int, frac)
    } else {
        lerp_spec(-FIXED_ONE as int, 0, frac)
    }
}

fn quarter_frac(pm: u64) -> (frac: i64)
    requires
        pm < FULL_TURN,
    ensures
        frac == quarter_frac_spec(pm as int),
        0 <= frac <= FIXED_ONE,
{
    let within: u64 = pm % QUARTER_TURN;
    let scaled: u64 = within * 55440u64 / QUARTER_TURN;
    proof {
        assert(within * 55440 / (QUARTER_TURN as int) <= FIXED_ONE) by (nonlinear_arith)
            requires
                0 <= within < QUARTER_TURN,
                QUARTER_TURN == 4194304,
                FIXED_ONE == 55440,
        ;
    }
    scaled as i64
}

/// A triangle-wave generator wrapping the shared phase accumulator.
pub struct Triangle {
    pub(crate) phase: Phase,
}

impl Triangle {
    /// The underlying phase accumulator.
    pub open(crate) spec fn spec_phase(&self) -> Phase {
        self.phase
    }

    pub fn new(sample_rate: u32) -> (w: Triangle)
        requires
            sample_rate >= 1,
        ensures
            w.spec_phase().wf(),
            w.spec_phase().is_fresh(sample_rate),
    {
        Triangle { phase: Phase::new(sample_rate) }
    }

    pub fn clear(&mut self, rel_midi_note: i8)
        requires
            old(self).spec_phase().wf(),
            valid_note(rel_midi_note),
        ensures
            final(self).spec_phase().wf(),
            old(self).spec_phase().clear_to(final(self).spec_phase(), rel_midi_note),
    {
        self.phase.clear(rel_midi_note);
    }

    pub fn before(&mut self, rel_midi_note: i8)
        requires
            old(self).spec_phase().wf(),
            valid_note(rel_midi_note),
        ensures
            final(self).spec_phase().wf(),
            old(self).spec_phase().before_to(final(self).spec_phase(), rel_midi_note),
    {
        self.phase.before(rel_midi_note);
    }

    /// The waveform value at a sample offset within the current buffer.
    pub fn next(&self, sample_idx: usize) -> (v: i64)
        requires
            self.spec_phase().wf(),
            sample_idx <= MAX_BUFFER,
        ensures
            v == triangle_of(
                self.spec_phase().spec_current_phase() + sample_idx
                    * self.spec_phase().spec_increment(),
            ),
            -FIXED_ONE <= v <= FIXED_ONE,
    {
        let ph: u64 = self.phase.next(sample_idx);
        let pm: u64 = ph % FULL_TURN;
        let seg: u64 = pm / QUARTER_TURN;
        let frac: i64 = quarter_frac(pm);
        if seg == 0 {
            lerp(0, FIXED_ONE, frac)
        } else if seg == 1 {
            lerp(FIXED_ONE, 0, frac)
        } else if seg == 2 {
            lerp(0, -FIXED_ONE, frac)
        } else {
            lerp(-FIXED_ONE, 0, frac)
        }
    }

    pub fn after(&mut self, buf_len: usize)
        requires
            old(self).spec_phase().wf(),
            buf_len <= MAX_BUFFER,
        ensures
            final(self).spec_phase().wf(),
            old(self).spec_phase().after_to(final(self).spec_phase(), buf_len as int),
    {
        self.phase.after(buf_len);
    }
}

} // verus!
