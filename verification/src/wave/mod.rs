//! Waveform generators: a shared phase accumulator and the concrete shapes.

use vstd::prelude::*;

pub mod phase;
pub mod sawtooth;
pub mod sine;
pub mod square;
pub mod triangle;

use crate::notes::FIXED_ONE;
use crate::wave::phase::{valid_note, Phase};
use crate::wave::sawtooth::{sawtooth_of, Sawtooth};
use crate::wave::sine::{sine_of, Sine};
use crate::wave::square::{square_of, Square};
use crate::wave::triangle::{triangle_of, Triangle};
use vstd::arithmetic::div_mod::{lemma_add_mod_noop_right, lemma_mod_pos_bound, lemma_mod_twice};
use vstd::arithmetic::mul::lemma_mul_is_distributive_add_other_way;

verus! {

/// One full oscillator turn in this crate's phase units (2^24); the
/// fixed-point stand-in for 2*pi.
pub const FULL_TURN: u64 = 16777216;

/// Half of [`FULL_TURN`].
pub const HALF_TURN: u64 = 8388608;

/// A quarter of [`FULL_TURN`].
pub const QUARTER_TURN: u64 = 4194304;

/// The largest render quantum, in samples, that a generator accepts.
pub const MAX_BUFFER: usize = 16777216;

/// An upper bound on the per-sample phase increment of any valid note at
/// any sample rate; the highest pitch at a sample rate of 1.
pub const MAX_INCREMENT: u64 = 222964121600;

/// The available waveform shapes.
#[derive(Debug, Copy, Clone, PartialEq, Eq, Structural)]
pub enum Wave {
    Sine,
    Square,
    Triangle,
    Sawtooth,
}

impl Wave {
    /// The shape that a "next wave" control action switches to.
    pub fn next(self) -> (w: Wave)
        ensures
            w == (match self {
                Wave::Sine => Wave::Square,
                Wave::Square => Wave::Triangle,
                Wave::Triangle => Wave::Sawtooth,
                Wave::Sawtooth => Wave::Sine,
            }),
    {
        match self {
            Wave::Sine => Wave::Square,
            Wave::Square => Wave::Triangle,
            Wave::Triangle => Wave::Sawtooth,
            Wave::Sawtooth => Wave::Sine,
        }
    }
}

impl Default for Wave {
    fn default() -> (w: Wave)
        ensures
            w == Wave::Sine,
    {
        Wave::Sine
    }
}

/// The waveform value of a shape at a phase, in fixed point.
pub open spec fn wave_value(w: Wave, phase: int) -> int {
    match w {
        Wave::Sine => sine_of(phase),
        Wave::Square => square_of(phase),
        Wave::Triangle => triangle_of(phase),
        Wave::Sawtooth => sawtooth_of(phase),
    }
}

/// A waveform value only depends on its phase wrapped to one turn.
pub proof fn lemma_wave_value_mod_eq(w: Wave, x: int, y: int)
    requires
        x % (FULL_TURN as int) == y % (FULL_TURN as int),
    ensures
        wave_value(w, x) == wave_value(w, y),
{
}

/// Phase continuity across buffer boundaries: a buffer of length `buf_len`
/// is rendered and the phase committed wrapped to one turn; sample `i` of
/// the next buffer then has exactly the value that sample `buf_len + i` of
/// one uninterrupted render would have had.  Wrapping the phase never
/// produces a discontinuity.
pub proof fn lemma_phase_continuity(w: Wave, phase0: int, inc: int, buf_len: int, i: int)
    requires
        phase0 >= 0,
        inc >= 0,
        buf_len >= 0,
        i >= 0,
    ensures
        wave_value(w, (phase0 + buf_len * inc) % (FULL_TURN as int) + i * inc) == wave_value(
            w,
            phase0 + (buf_len + i) * inc,
        ),
{
    let f = FULL_TURN as int;
    let a = phase0 + buf_len * inc;
    let b = i * inc;
    lemma_mul_is_distributive_add_other_way(inc, buf_len, i);
    assert((buf_len + i) * inc == buf_len * inc + i * inc);
    lemma_add_mod_noop_right(b, a, f);
    lemma_mod_twice(a, f);
    assert((a % f + b) % f == (a + b) % f);
    lemma_wave_value_mod_eq(w, a % f + b, a + b);
}

/// Phase continuity as a caller of the orchestrator sees it: when a note's
/// stored phase is committed after a buffer of length `buf_len` — wrapped
/// to one turn and stored back as a machine word — the waveform value at
/// offset `i` of the next buffer equals the value at offset `buf_len + i`
/// of one uninterrupted render.
pub proof fn lemma_render_continuity(
    w: Wave,
    committed: u64,
    phase0: u64,
    inc: int,
    buf_len: int,
    i: int,
)
    requires
        inc >= 0,
        buf_len >= 0,
        i >= 0,
        committed == ((phase0 + buf_len * inc) % (FULL_TURN as int)) as u64,
    ensures
        wave_value(w, committed + i * inc) == wave_value(w, phase0 + (buf_len + i) * inc),
{
    lemma_mod_pos_bound(phase0 + buf_len * inc, FULL_TURN as int);
    lemma_phase_continuity(w, phase0 as int, inc, buf_len, i);
}

/// A tagged waveform generator: the active shape and its phase memory.
pub enum Generator {
    Sine(Sine),
    Square(Square),
    Triangle(Triangle),
    Sawtooth(Sawtooth),
}

impl Generator {
    /// The shape this generator produces.
    pub open spec fn kind(&self) -> Wave {
        match self {
            Generator::Sine(_) => Wave::Sine,
            Generator::Square(_) => Wave::Square,
            Generator::Triangle(_) => Wave::Triangle,
            Generator::Sawtooth(_) => Wave::Sawtooth,
        }
    }

    /// The underlying phase accumulator.
    pub open(crate) spec fn spec_phase(&self) -> Phase {
        match self {
            Generator::Sine(g) => g.spec_phase(),
            Generator::Square(g) => g.spec_phase(),
            Generator::Triangle(g) => g.spec_phase(),
            Generator::Sawtooth(g) => g.spec_phase(),
        }
    }

    /// Drops the phase memory of a note whose state is being discarded.
    pub fn clear(&mut self, rel_midi_note: i8)
        requires
            old(self).spec_phase().wf(),
            valid_note(rel_midi_note),
        ensures
            final(self).spec_phase().wf(),
            final(self).kind() == old(self).kind(),
            old(self).spec_phase().clear_to(final(self).spec_phase(), rel_midi_note),
    {
        match self {
            Generator::Sine(g) => g.clear(rel_midi_note),
            Generator::Square(g) => g.clear(rel_midi_note),
            Generator::Triangle(g) => g.clear(rel_midi_note),
            Generator::Sawtooth(g) => g.clear(rel_midi_note),
        }
    }

    /// Loads a note's phase and increment before rendering a buffer.
    pub fn before(&mut self, rel_midi_note: i8)
        requires
            old(self).spec_phase().wf(),
            valid_note(rel_midi_note),
        ensures
            final(self).spec_phase().wf(),
            final(self).kind() == old(self).kind(),
            old(self).spec_phase().before_to(final(self).spec_phase(), rel_midi_note),
    {
        match self {
            Generator::Sine(g) => g.before(rel_midi_note),
            Generator::Square(g) => g.before(rel_midi_note),
            Generator::Triangle(g) => g.before(rel_midi_note),
            Generator::Sawtooth(g) => g.before(rel_midi_note),
        }
    }

    /// The waveform value of the loaded note at a sample offset.
    pub fn next(&self, sample_idx: usize) -> (v: i64)
        requires
            self.spec_phase().wf(),
            sample_idx <= MAX_BUFFER,
        ensures
            v == wave_value(
                self.kind(),
                self.spec_phase().spec_current_phase() + sample_idx
                    * self.spec_phase().spec_increment(),
            ),
            -FIXED_ONE <= v <= FIXED_ONE,
    {
        match self {
            Generator::Sine(g) => g.next(sample_idx),
            Generator::Square(g) => g.next(sample_idx),
            Generator::Triangle(g) => g.next(sample_idx),
            Generator::Sawtooth(g) => g.next(sample_idx),
        }
    }

    /// Commits the loaded note's phase after a whole buffer.
    pub fn after(&mut self, buf_len: usize)
        requires
            old(self).spec_phase().wf(),
            buf_len <= MAX_BUFFER,
        ensures
            final(self).spec_phase().wf(),
            final(self).kind() == old(self).kind(),
            old(self).spec_phase().after_to(final(self).spec_phase(), buf_len as int),
    {
        match self {
            Generator::Sine(g) => g.after(buf_len),
            Generator::Square(g) => g.after(buf_len),
            Generator::Triangle(g) => g.after(buf_len),
            Generator::Sawtooth(g) => g.after(buf_len),
        }
    }

    /// Reads the stored phase of a note, for observing continuity.
    pub fn stored_phase(&self, rel_midi_note: i8) -> (phase: u64)
        requires
            self.spec_phase().wf(),
            valid_note(rel_midi_note),
        ensures
            phase == self.spec_phase().phases()[crate::wave::phase::note_slot(rel_midi_note)],
    {
        match self {
            Generator::Sine(g) => g.phase.stored_phase(rel_midi_note),
            Generator::Square(g) => g.sine.phase.stored_phase(rel_midi_note),
            Generator::Triangle(g) => g.phase.stored_phase(rel_midi_note),
            Generator::Sawtooth(g) => g.phase.stored_phase(rel_midi_note),
        }
    }
}

impl Wave {
    /// A fresh generator of this shape at the given sample rate.
    pub fn generator(&self, sample_rate: u32) -> (g: Generator)
        requires
            sample_rate >= 1,
        ensures
            g.kind() == *self,
            g.spec_phase().wf(),
            g.spec_phase().is_fresh(sample_rate),
    {
        match self {
            Wave::Sine => Generator::Sine(Sine::new(sample_rate)),
            Wave::Square => Generator::Square(Square::new(sample_rate)),
            Wave::Triangle => Generator::Triangle(Triangle::new(sample_rate)),
            Wave::Sawtooth => Generator::Sawtooth(Sawtooth::new(sample_rate)),
        }
    }
}

} // verus!
