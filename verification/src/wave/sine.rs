//! The sine-like waveform: a fixed-point quadratic approximation of sin,
//! exact at the zero crossings and at the peaks.

use vstd::prelude::*;

use crate::notes::FIXED_ONE;
use crate::wave::phase::{valid_note, Phase};
use crate::wave::{FULL_TURN, HALF_TURN, MAX_BUFFER};
use vstd::arithmetic::div_mod::lemma_div_is_ordered;

verus! {

/// The half-turn arch `4 * p * (HALF_TURN - p) / HALF_TURN^2` scaled by
/// [`FIXED_ONE`]: a parabola through 0 at both ends of the half turn with
/// peak [`FIXED_ONE`] at the quarter turn, approximating sin on [0, pi).
pub open spec fn half_sine_spec(p: int) -> int {
    4 * (p * (HALF_TURN - p)) * FIXED_ONE / ((HALF_TURN * HALF_TURN) as int)
}

/// The sine waveform value at a phase: the half-turn arch, negated on the
/// second half of the turn.
pub open spec fn sine_of(phase: int) -> int {
    let p = phase % (FULL_TURN as int);
    if p < HALF_TURN {
        half_sine_spec(p)
    } else {
        -half_sine_spec(p - HALF_TURN)
    }
}

/// The arch is bounded by the fixed-point unit.
pub proof fn lemma_half_sine_bounds(p: int)
    requires
        0 <= p < HALF_TURN,
    ensures
        0 <= half_sine_spec(p) <= FIXED_ONE,
{
    assert(0 <= p * (HALF_TURN - p) && 4 * (p * (HALF_TURN - p)) <= HALF_TURN * HALF_TURN)
        by (nonlinear_arith)
        requires
            0 <= p < HALF_TURN,
            HALF_TURN == 8388608,
    ;
    assert(4 * (p * (HALF_TURN - p)) * FIXED_ONE <= (HALF_TURN * HALF_TURN) * FIXED_ONE)
        by (nonlinear_arith)
        requires
            4 * (p * (HALF_TURN - p)) <= HALF_TURN * HALF_TURN,
            0 <= p * (HALF_TURN - p),
            FIXED_ONE == 55440,
    ;
    lemma_div_is_ordered(
        4 * (p * (HALF_TURN - p)) * FIXED_ONE,
        (HALF_TURN * HALF_TURN) * FIXED_ONE,
        (HALF_TURN * HALF_TURN) as int,
    );
    assert((HALF_TURN * HALF_TURN) * FIXED_ONE / ((HALF_TURN * HALF_TURN) as int) == FIXED_ONE)
        by (nonlinear_arith)
        requires
            HALF_TURN == 8388608,
            FIXED_ONE == 55440,
    ;
    assert(4 * (p * (HALF_TURN - p)) * FIXED_ONE >= 0) by (nonlinear_arith)
        requires
            0 <= p * (HALF_TURN - p),
            FIXED_ONE == 55440,
    ;
}

/// The sine value is bounded by the fixed-point unit at every phase.
pub proof fn lemma_sine_bounds(phase: int)
    ensures
        -FIXED_ONE <= sine_of(phase) <= FIXED_ONE,
{
    let p = phase % (FULL_TURN as int);
    if p < HALF_TURN {
        lemma_half_sine_bounds(p);
    } else {
        lemma_half_sine_bounds(p - HALF_TURN);
    }
}

fn half_sine(p: u64) -> (v: i64)
    requires
        p < HALF_TURN,
    ensures
        v == half_sine_spec(p as int),
        0 <= v <= FIXED_ONE,
{
    let x: i64 = p as i64;
    proof {
        assert(0 <= x * (8388608 - x) <= 17592186044416) by (nonlinear_arith)
            requires
                0 <= x < 8388608,
        ;
        lemma_half_sine_bounds(p as int);
    }
    let y: i64 = x * ((HALF_TURN as i64) - x);
    let hsq: i64 = (HALF_TURN as i64) * (HALF_TURN as i64);
    4 * y * FIXED_ONE / hsq
}

/// A sine-wave generator wrapping the shared phase accumulator.
pub struct Sine {
    pub(crate) phase: Phase,
}

impl Sine {
    /// The underlying phase accumulator.
    pub open(crate) spec fn spec_phase(&self) -> Phase {
        self.phase
    }

    pub fn new(sample_rate: u32) -> (w: Sine)
        requires
            sample_rate >= 1,
        ensures
            w.spec_phase().wf(),
            w.spec_phase().is_fresh(sample_rate),
    {
        Sine { phase: Phase::new(sample_rate) }
    }

    pub fn clear(&mut self, rel_midi_note: i8)
        requires
            old(self).spec_phase().wf(),
            valid_note(rel_midi_note),
        ensures
            final(self).spec_phase().wf(),
            old(self).spec_phase().clear_to(final(self).spec_phase(), rel_midi_note),
    {
        self.phase.clear(rel_midi_note);
    }

    pub fn before(&mut self, rel_midi_note: i8)
        requires
            old(self).spec_phase().wf(),
            valid_note(rel_midi_note),
        ensures
            final(self).spec_phase().wf(),
            old(self).spec_phase().before_to(final(self).spec_phase(), rel_midi_note),
    {
        self.phase.before(rel_midi_note);
    }

    /// The waveform value at a sample offset within the current buffer.
    pub fn next(&self, sample_idx: usize) -> (v: i64)
        requires
            self.spec_phase().wf(),
            sample_idx <= MAX_BUFFER,
        ensures
            v == sine_of(
                self.spec_phase().spec_current_phase() + sample_idx
                    * self.spec_phase().spec_increment(),
            ),
            -FIXED_ONE <= v <= FIXED_ONE,
    {
        let ph: u64 = self.phase.next(sample_idx);
        let pm: u64 = ph % FULL_TURN;
        if pm < HALF_TURN {
            half_sine(pm)
        } else {
            -half_sine(pm - HALF_TURN)
        }
    }

    pub fn after(&mut self, buf_len: usize)
        requires
            old(self).spec_phase().wf(),
            buf_len <= MAX_BUFFER,
        ensures
            final(self).spec_phase().wf(),
            old(self).spec_phase().after_to(final(self).spec_phase(), buf_len as int),
    {
        self.phase.after(buf_len);
    }
}

} // verus!
