//! The phase accumulator: per-note oscillator phase that advances
//! continuously across buffer boundaries.

use vstd::prelude::*;

use crate::notes::BASE_NOTE_FREQ;
use crate::wave::{FULL_TURN, MAX_BUFFER, MAX_INCREMENT};

verus! {

/// Number of per-note phase slots: one per representable MIDI pitch.
pub const NOTE_SLOTS: usize = 128;

/// A relative note is the signed number of semitones above the reference
/// pitch; valid ones correspond to MIDI pitches 0..=127.
pub open spec fn valid_note(n: i8) -> bool {
    -69 <= n <= 58
}

/// The phase-table slot of a relative note, equal to its MIDI pitch.
pub open spec fn note_slot(n: i8) -> int {
    n + 69
}

/// The semitone ratio 2^(r/12), scaled by 65536, for r in 0..12.
pub open spec fn semi_ratio_spec(r: int) -> int {
    if r == 0 {
        65536
    } else if r == 1 {
        69433
    } else if r == 2 {
        73562
    } else if r == 3 {
        77936
    } else if r == 4 {
        82570
    } else if r == 5 {
        87480
    } else if r == 6 {
        92682
    } else if r == 7 {
        98193
    } else if r == 8 {
        104032
    } else if r == 9 {
        110218
    } else if r == 10 {
        116772
    } else {
        123715
    }
}

/// 2^q for the octave offsets 0..=10 that valid notes can produce.
pub open spec fn octave_mult_spec(q: int) -> int {
    if q <= 0 {
        1
    } else if q == 1 {
        2
    } else if q == 2 {
        4
    } else if q == 3 {
        8
    } else if q == 4 {
        16
    } else if q == 5 {
        32
    } else if q == 6 {
        64
    } else if q == 7 {
        128
    } else if q == 8 {
        256
    } else if q == 9 {
        512
    } else {
        1024
    }
}

/// Per-sample phase increment of a relative note at a sample rate, in
/// 1/[`FULL_TURN`] turns: the fixed-point value of
/// `FULL_TURN * BASE_NOTE_FREQ * 2^(n/12) / rate`.  The semitone factor
/// 2^(n/12) is decomposed as `semi_ratio((n + 72) % 12) / 65536` times
/// `2^((n + 72) / 12) / 64`.
pub open spec fn increment_spec(n: i8, rate: u32) -> int {
    let s = n + 72;
    (BASE_NOTE_FREQ * FULL_TURN * semi_ratio_spec(s % 12) * octave_mult_spec(s / 12)) / (
    4194304 * (rate as int))
}

fn semi_ratio(r: u32) -> (ratio: u64)
    requires
        r < 12,
    ensures
        ratio == semi_ratio_spec(r as int),
        65536 <= ratio <= 123715,
{
    match r {
        0 => 65536,
        1 => 69433,
        2 => 73562,
        3 => 77936,
        4 => 82570,
        5 => 87480,
        6 => 92682,
        7 => 98193,
        8 => 104032,
        9 => 110218,
        10 => 116772,
        _ => 123715,
    }
}

fn octave_mult(q: u32) -> (mult: u64)
    requires
        q <= 10,
    ensures
        mult == octave_mult_spec(q as int),
        1 <= mult <= 1024,
{
    match q {
        0 => 1,
        1 => 2,
        2 => 4,
        3 => 8,
        4 => 16,
        5 => 32,
        6 => 64,
        7 => 128,
        8 => 256,
        9 => 512,
        _ => 1024,
    }
}

/// The per-sample phase increment for a relative note at a sample rate.
pub fn note_increment(rel_midi_note: i8, sample_rate: u32) -> (inc: u64)
    requires
        valid_note(rel_midi_note),
        sample_rate >= 1,
    ensures
        inc == increment_spec(rel_midi_note, sample_rate),
        inc <= MAX_INCREMENT,
{
    let s: u32 = (rel_midi_note as i32 + 72) as u32;
    let q: u32 = s / 12;
    let r: u32 = s % 12;
    let ratio: u64 = semi_ratio(r);
    let mult: u64 = octave_mult(q);
    proof {
        assert(s == rel_midi_note + 72);
        assert(3 <= s <= 130);
        assert(q <= 10 && r < 12);
        assert(7381975040 * ratio * mult <= 7381975040 * 123715 * 1024) by (nonlinear_arith)
            requires
                65536 <= ratio <= 123715,
                1 <= mult <= 1024,
        ;
    }
    let num: u64 = BASE_NOTE_FREQ * FULL_TURN * ratio * mult;
    let denom: u64 = 4194304u64 * (sample_rate as u64);
    let inc = num / denom;
    proof {
        assert(inc <= MAX_INCREMENT) by (nonlinear_arith)
            requires
                inc == num / denom,
                num <= 7381975040 * 123715 * 1024,
                denom >= 4194304,
                denom == 4194304 * (sample_rate as int),
                MAX_INCREMENT == 222964121600,
        ;
    }
    inc
}

/// Tracks the oscillator phase of every note that may be playing.  It
/// produces no audio by itself, but is the building block every waveform
/// shape is built on.
pub struct Phase {
    pub(crate) current_note: i8,
    pub(crate) current_phase: u64,
    pub(crate) increment: u64,
    pub(crate) note_phases: Vec<u64>,
    pub(crate) sample_rate: u32,
}

impl Phase {
    /// The internal invariant: every stored phase is wrapped to one turn,
    /// and the loaded increment stays small enough that a whole buffer of
    /// samples can be advanced without overflow.
    pub open(crate) spec fn wf(&self) -> bool {
        &&& self.note_phases@.len() == NOTE_SLOTS
        &&& forall|i: int| 0 <= i < NOTE_SLOTS ==> self.note_phases@[i] < FULL_TURN
        &&& self.current_phase < FULL_TURN
        &&& self.increment <= MAX_INCREMENT
        &&& self.sample_rate >= 1
        &&& valid_note(self.current_note)
    }

    /// The stored phase table, one entry per MIDI pitch.
    pub open(crate) spec fn phases(&self) -> Seq<u64> {
        self.note_phases@
    }

    /// The note loaded by the last `before` call.
    pub open(crate) spec fn spec_current_note(&self) -> i8 {
        self.current_note
    }

    /// The working phase loaded by the last `before` call.
    pub open(crate) spec fn spec_current_phase(&self) -> u64 {
        self.current_phase
    }

    /// The per-sample increment loaded by the last `before` call.
    pub open(crate) spec fn spec_increment(&self) -> u64 {
        self.increment
    }

    /// The sample rate this accumulator was built for.
    pub open(crate) spec fn spec_sample_rate(&self) -> u32 {
        self.sample_rate
    }

    /// A freshly constructed accumulator: every phase zero, nothing loaded.
    pub open(crate) spec fn is_fresh(&self, sample_rate: u32) -> bool {
        &&& self.note_phases@ =~= Seq::new(NOTE_SLOTS as nat, |i: int| 0u64)
        &&& self.current_note == 0
        &&& self.current_phase == 0
        &&& self.increment == 0
        &&& self.sample_rate == sample_rate
    }

    /// What `clear` does: the note's stored phase is zeroed, all else kept.
    pub open(crate) spec fn clear_to(&self, post: Phase, n: i8) -> bool {
        &&& post.note_phases@ == self.note_phases@.update(note_slot(n), 0u64)
        &&& post.current_note == self.current_note
        &&& post.current_phase == self.current_phase
        &&& post.increment == self.increment
        &&& post.sample_rate == self.sample_rate
    }

    /// What `before` does: the note's stored phase and increment are loaded,
    /// the phase table itself is untouched.
    pub open(crate) spec fn before_to(&self, post: Phase, n: i8) -> bool {
        &&& post.note_phases@ == self.note_phases@
        &&& post.current_note == n
        &&& post.current_phase == self.note_phases@[note_slot(n)]
        &&& post.increment == increment_spec(n, self.sample_rate)
        &&& post.sample_rate == self.sample_rate
    }

    /// What `after` does: the loaded note's phase advances by a whole buffer
    /// and is committed wrapped to one turn; all else is kept.
    pub open(crate) spec fn after_to(&self, post: Phase, buf_len: int) -> bool {
        &&& post.note_phases@ == self.note_phases@.update(
            note_slot(self.current_note),
            ((self.current_phase + buf_len * self.increment) % (FULL_TURN as int)) as u64,
        )
        &&& post.current_note == self.current_note
        &&& post.current_phase == self.current_phase
        &&& post.increment == self.increment
        &&& post.sample_rate == self.sample_rate
    }

    pub fn new(sample_rate: u32) -> (p: Phase)
        requires
            sample_rate >= 1,
        ensures
            p.wf(),
            p.is_fresh(sample_rate),
    {
        Phase {
            current_note: 0,
            current_phase: 0,
            increment: 0,
            note_phases: vec![0u64; NOTE_SLOTS],
            sample_rate,
        }
    }

    /// Forgets the stored phase for a note whose state is being discarded,
    /// so a later retrigger starts from a deterministic zero phase.
    pub fn clear(&mut self, rel_midi_note: i8)
        requires
            old(self).wf(),
            valid_note(rel_midi_note),
        ensures
            final(self).wf(),
            old(self).clear_to(*final(self), rel_midi_note),
    {
        let idx: usize = (rel_midi_note as i32 + 69) as usize;
        self.note_phases[idx] = 0;
    }

    /// Loads the stored phase for a note about to be rendered and computes
    /// that note's per-sample phase increment.
    pub fn before(&mut self, rel_midi_note: i8)
        requires
            old(self).wf(),
            valid_note(rel_midi_note),
        ensures
            final(self).wf(),
            old(self).before_to(*final(self), rel_midi_note),
    {
        let idx: usize = (rel_midi_note as i32 + 69) as usize;
        self.increment = note_increment(rel_midi_note, self.sample_rate);
        self.current_phase = self.note_phases[idx];
        self.current_note = rel_midi_note;
    }

    /// The phase of the loaded note at a sample offset within the current
    /// buffer; a pure function of the offset that commits nothing.
    pub fn next(&self, sample_idx: usize) -> (phase: u64)
        requires
            self.wf(),
            sample_idx <= MAX_BUFFER,
        ensures
            phase == self.spec_current_phase() + sample_idx * self.spec_increment(),
    {
        proof {
            assert(sample_idx * self.increment <= MAX_BUFFER * MAX_INCREMENT) by (nonlinear_arith)
                requires
                    0 <= sample_idx <= MAX_BUFFER,
                    0 <= self.increment <= MAX_INCREMENT,
            ;
            assert(MAX_BUFFER * MAX_INCREMENT == 16777216 * 222964121600);
        }
        self.current_phase + (sample_idx as u64) * self.increment
    }

    /// Commits the loaded note's phase after a buffer of `buf_len` samples,
    /// wrapped to one turn to keep the stored value bounded.
    pub fn after(&mut self, buf_len: usize)
        requires
            old(self).wf(),
            buf_len <= MAX_BUFFER,
        ensures
            final(self).wf(),
            old(self).after_to(*final(self), buf_len as int),
    {
        let committed: u64 = self.next(buf_len) % FULL_TURN;
        let idx: usize = (self.current_note as i32 + 69) as usize;
        self.note_phases[idx] = committed;
    }

    /// Reads the stored phase for a note; lets callers observe that phase
    /// memory is continuous across buffers and cleared on removal.
    pub fn stored_phase(&self, rel_midi_note: i8) -> (phase: u64)
        requires
            self.wf(),
            valid_note(rel_midi_note),
        ensures
            phase == self.phases()[note_slot(rel_midi_note)],
    {
        let idx: usize = (rel_midi_note as i32 + 69) as usize;
        self.note_phases[idx]
    }
}

} // verus!
