//! The note orchestrator: note life-cycle, volume envelopes, and mixing.

use vstd::prelude::*;

use crate::keymaps::{
    entry_ok, error_of, generate_maps, key_to_note_of, keycode_of, lemma_layout_pitches,
    lemma_match_key_to_note, layout_spec, maps_consistent, rows_view, table_resolves, ConfigError,
    KeyMaps, KeyToNote, NoteToKey,
};
use crate::wave::phase::{increment_spec, note_slot, valid_note, NOTE_SLOTS};
use crate::wave::{wave_value, Generator, Wave, FULL_TURN, MAX_BUFFER};
use crate::MidiNote;
use vstd::arithmetic::div_mod::{
    lemma_div_is_ordered, lemma_div_multiples_vanish, lemma_div_nonincreasing,
    lemma_div_pos_is_pos,
};

verus! {

/// The value of 1.0 in this crate's fixed-point scale.  The scale is chosen
/// to be divisible by every voice count from 1 to 12, so that polyphony
/// normalization is exact for up to a full octave of simultaneous notes.
pub const FIXED_ONE: i64 = 55440;

/// Max audio volume used when generating the audio data, half of full scale.
pub const MAX_VOLUME: i64 = 27720;

/// Middle "A" - all note frequency calculations are relative to this.
pub const BASE_NOTE_FREQ: u64 = 440;

/// Midi pitch number of `BASE_NOTE_FREQ`, must be kept in sync with it.
pub const MIDI_OFFSET: i8 = 69;

/// Linear interpolation from `a` to `b` with the parameter `t` scaled by
/// [`FIXED_ONE`] and clamped to `[0, FIXED_ONE]`; the quotient is rounded
/// toward zero, so negating both endpoints negates the result.
pub open spec fn lerp_spec(a: int, b: int, t: int) -> int {
    let tc = clamp_spec(t);
    let mixed = (FIXED_ONE - tc) * a + tc * b;
    if mixed >= 0 {
        mixed / (FIXED_ONE as int)
    } else {
        -((-mixed) / (FIXED_ONE as int))
    }
}

/// `t` clamped to the unit interval `[0, FIXED_ONE]`.
pub open spec fn clamp_spec(t: int) -> int {
    if t < 0 {
        0
    } else if t > FIXED_ONE {
        FIXED_ONE as int
    } else {
        t
    }
}

/// Linearly interpolates between `a` and `b`; `t` is scaled by
/// [`FIXED_ONE`] and clamped to the unit interval.  The endpoints may be
/// negative: waveform segments interpolate between full scale and its
/// negation, envelope gains between two non-negative volumes.
#[inline]
pub fn lerp(a: i64, b: i64, t: i64) -> (r: i64)
    requires
        -FIXED_ONE <= a <= FIXED_ONE,
        -FIXED_ONE <= b <= FIXED_ONE,
    ensures
        r == lerp_spec(a as int, b as int, t as int),
        -FIXED_ONE <= r <= FIXED_ONE,
        0 <= a && 0 <= b ==> 0 <= r,
{
    let tc: i64 = if t < 0 {
        0
    } else if t > FIXED_ONE {
        FIXED_ONE
    } else {
        t
    };
    proof {
        assert(-(FIXED_ONE * FIXED_ONE) <= (FIXED_ONE - tc) * a <= FIXED_ONE * FIXED_ONE
            && -(FIXED_ONE * FIXED_ONE) <= tc * b <= FIXED_ONE * FIXED_ONE && -(FIXED_ONE
            * FIXED_ONE) <= (FIXED_ONE - tc) * a + tc * b <= FIXED_ONE * FIXED_ONE)
            by (nonlinear_arith)
            requires
                -FIXED_ONE <= a <= FIXED_ONE,
                -FIXED_ONE <= b <= FIXED_ONE,
                0 <= tc <= FIXED_ONE,
                FIXED_ONE == 55440,
        ;
        assert(0 <= a && 0 <= b ==> (FIXED_ONE - tc) * a + tc * b >= 0) by (nonlinear_arith)
            requires
                0 <= tc <= FIXED_ONE,
                FIXED_ONE == 55440,
        ;
        assert(FIXED_ONE * FIXED_ONE / (FIXED_ONE as int) == FIXED_ONE);
    }
    let mixed: i64 = (FIXED_ONE - tc) * a + tc * b;
    if mixed >= 0 {
        mixed / FIXED_ONE
    } else {
        -((-mixed) / FIXED_ONE)
    }
}

/// Interpolating with `t == 0` returns the starting value exactly: there
/// is no instantaneous jump at the start of a fade.
pub proof fn lemma_lerp_starts_at_a(a: int, b: int)
    requires
        -FIXED_ONE <= a <= FIXED_ONE,
    ensures
        lerp_spec(a, b, 0) == a,
{
    assert(clamp_spec(0) == 0);
    assert((FIXED_ONE - 0) * a + 0 * b == FIXED_ONE * a) by (nonlinear_arith);
    if a >= 0 {
        assert(FIXED_ONE * a >= 0 && FIXED_ONE * a / (FIXED_ONE as int) == a)
            by (nonlinear_arith)
            requires
                0 <= a,
                FIXED_ONE == 55440,
        ;
    } else {
        assert(FIXED_ONE * a < 0 && -(FIXED_ONE * a) == FIXED_ONE * (-a) && FIXED_ONE * (-a) / (
        FIXED_ONE as int) == -a) by (nonlinear_arith)
            requires
                a < 0,
                FIXED_ONE == 55440,
        ;
    }
}

/// Interpolating with a saturated parameter returns the target exactly:
/// a fade completes once the parameter clamps at full scale.
pub proof fn lemma_lerp_ends_at_b(a: int, b: int, t: int)
    requires
        -FIXED_ONE <= b <= FIXED_ONE,
        t >= FIXED_ONE,
    ensures
        lerp_spec(a, b, t) == b,
{
    assert(clamp_spec(t) == FIXED_ONE);
    assert((FIXED_ONE - FIXED_ONE) * a + FIXED_ONE * b == FIXED_ONE * b) by (nonlinear_arith);
    if b >= 0 {
        assert(FIXED_ONE * b >= 0 && FIXED_ONE * b / (FIXED_ONE as int) == b)
            by (nonlinear_arith)
            requires
                0 <= b,
                FIXED_ONE == 55440,
        ;
    } else {
        assert(FIXED_ONE * b < 0 && -(FIXED_ONE * b) == FIXED_ONE * (-b) && FIXED_ONE * (-b) / (
        FIXED_ONE as int) == -b) by (nonlinear_arith)
            requires
                b < 0,
                FIXED_ONE == 55440,
        ;
    }
}

/// An interpolation between values of at most full scale stays within
/// full scale, and between non-negative gains stays non-negative.
pub proof fn lemma_lerp_bounds(a: int, b: int, t: int)
    requires
        -FIXED_ONE <= a <= FIXED_ONE,
        -FIXED_ONE <= b <= FIXED_ONE,
    ensures
        -FIXED_ONE <= lerp_spec(a, b, t) <= FIXED_ONE,
        0 <= a && 0 <= b ==> 0 <= lerp_spec(a, b, t),
{
    let tc = clamp_spec(t);
    let mixed = (FIXED_ONE - tc) * a + tc * b;
    assert(-(FIXED_ONE * FIXED_ONE) <= mixed <= FIXED_ONE * FIXED_ONE) by (nonlinear_arith)
        requires
            mixed == (FIXED_ONE - tc) * a + tc * b,
            -FIXED_ONE <= a <= FIXED_ONE,
            -FIXED_ONE <= b <= FIXED_ONE,
            0 <= tc <= FIXED_ONE,
            FIXED_ONE == 55440,
    ;
    assert(0 <= a && 0 <= b ==> mixed >= 0) by (nonlinear_arith)
        requires
            mixed == (FIXED_ONE - tc) * a + tc * b,
            0 <= tc <= FIXED_ONE,
            FIXED_ONE == 55440,
    ;
    if mixed >= 0 {
        assert(mixed / (FIXED_ONE as int) <= FIXED_ONE && mixed / (FIXED_ONE as int) >= 0)
            by (nonlinear_arith)
            requires
                0 <= mixed <= FIXED_ONE * FIXED_ONE,
                FIXED_ONE == 55440,
        ;
    } else {
        assert((-mixed) / (FIXED_ONE as int) <= FIXED_ONE && (-mixed) / (FIXED_ONE as int) >= 0)
            by (nonlinear_arith)
            requires
                0 < -mixed <= FIXED_ONE * FIXED_ONE,
                FIXED_ONE == 55440,
        ;
    }
}

/// The envelope interpolation parameter at a sample offset: the offset's
/// fraction of the buffer, times three, so the fade completes within the
/// first third of the buffer.
pub open spec fn interp_t_spec(i: int, len: int) -> int {
    (i * 3 * FIXED_ONE) / len
}

/// The envelope-interpolated gain at a sample offset: a linear fade from
/// the note's stored volume toward its target.
pub open spec fn gain_spec(v: int, tgt: int, i: int, len: int) -> int {
    lerp_spec(v, tgt, interp_t_spec(i, len))
}

/// A waveform value scaled by an envelope gain, rounded toward zero.
pub open spec fn scaled_sample(wave: int, gain: int) -> int {
    if wave >= 0 {
        wave * gain / (FIXED_ONE as int)
    } else {
        -((-wave) * gain / (FIXED_ONE as int))
    }
}

/// A scaled sample is no louder than its gain.
pub proof fn lemma_scaled_sample_bounds(wave: int, gain: int)
    requires
        -FIXED_ONE <= wave <= FIXED_ONE,
        0 <= gain,
    ensures
        -gain <= scaled_sample(wave, gain) <= gain,
{
    assert(0 <= wave ==> 0 <= wave * gain / (FIXED_ONE as int) <= gain) by (nonlinear_arith)
        requires
            wave <= FIXED_ONE,
            0 <= gain,
            FIXED_ONE == 55440,
    ;
    assert(wave < 0 ==> 0 <= (-wave) * gain / (FIXED_ONE as int) <= gain) by (nonlinear_arith)
        requires
            -FIXED_ONE <= wave,
            0 <= gain,
            FIXED_ONE == 55440,
    ;
}

fn scale_sample(wave: i64, gain: i64) -> (r: i64)
    requires
        -FIXED_ONE <= wave <= FIXED_ONE,
        0 <= gain <= FIXED_ONE,
    ensures
        r == scaled_sample(wave as int, gain as int),
        -gain <= r <= gain,
{
    proof {
        lemma_scaled_sample_bounds(wave as int, gain as int);
    }
    if wave >= 0 {
        wave * gain / FIXED_ONE
    } else {
        -((-wave) * gain / FIXED_ONE)
    }
}

/// The envelope state of one sounding note.
#[derive(Debug, Copy, Clone, PartialEq, Eq, Structural)]
pub struct NoteState {
    /// True while at least one mapped physical key is held.
    pub active: bool,
    /// The note's current gain, scaled by [`FIXED_ONE`], in
    /// `[0, MAX_VOLUME]`.
    pub volume: i64,
}

/// The volume a note fades toward: an equal share of the full volume among
/// the `n` live notes while a key holds it, and silence once released.
pub open spec fn target_spec(st: NoteState, n: int) -> int {
    if st.active {
        (MAX_VOLUME as int) / n
    } else {
        0
    }
}

impl NoteState {
    /// A note that just started sounding: held, but still silent.
    fn new() -> (st: NoteState)
        ensures
            st.active,
            st.volume == 0,
    {
        NoteState { active: true, volume: 0 }
    }

    fn set_volume(&mut self, target_volume: i64)
        ensures
            final(self).volume == target_volume,
            final(self).active == old(self).active,
    {
        self.volume = target_volume;
    }

    /// The envelope-interpolated gain at a sample offset within a buffer.
    fn get_volume(&self, sample_idx: usize, buf_len: usize, target_volume: i64) -> (gain: i64)
        requires
            0 <= self.volume <= FIXED_ONE,
            0 <= target_volume <= FIXED_ONE,
            1 <= buf_len <= MAX_BUFFER,
            sample_idx < buf_len,
        ensures
            gain == gain_spec(self.volume as int, target_volume as int, sample_idx as int,
                buf_len as int),
            0 <= gain <= FIXED_ONE,
    {
        let t: i64 = ((sample_idx as i64) * 3 * FIXED_ONE) / (buf_len as i64);
        lerp(self.volume, target_volume, t)
    }

    fn get_target_volume(&self, volume_ratio: i64) -> (tgt: i64)
        requires
            0 <= volume_ratio,
        ensures
            tgt == (if self.active {
                volume_ratio as int
            } else {
                0
            }),
    {
        if self.active {
            volume_ratio
        } else {
            0
        }
    }
}

/// How many notes are live among the first `j` slots.
pub open spec fn live_count_upto(slots: Seq<Option<NoteState>>, j: int) -> int
    decreases j,
{
    if j <= 0 {
        0
    } else {
        live_count_upto(slots, j - 1) + if slots[j - 1] is Some {
            1int
        } else {
            0int
        }
    }
}

/// How many notes are live: present in the note-state table, sounding or
/// still fading out.
pub open spec fn live_count(slots: Seq<Option<NoteState>>) -> int {
    live_count_upto(slots, slots.len() as int)
}

proof fn lemma_live_count_upto_le(slots: Seq<Option<NoteState>>, j: int)
    requires
        0 <= j,
    ensures
        0 <= live_count_upto(slots, j) <= j,
    decreases j,
{
    if j > 0 {
        lemma_live_count_upto_le(slots, j - 1);
    }
}

proof fn lemma_live_count_pos(slots: Seq<Option<NoteState>>, j: int, s: int)
    requires
        0 <= s < j,
        slots[s] is Some,
    ensures
        live_count_upto(slots, j) >= 1,
    decreases j,
{
    lemma_live_count_upto_le(slots, j - 1);
    if s < j - 1 {
        lemma_live_count_pos(slots, j - 1, s);
    }
}

/// A live count of zero means every slot is empty.
proof fn lemma_live_count_zero(slots: Seq<Option<NoteState>>, s: int)
    requires
        live_count(slots) == 0,
        0 <= s < slots.len(),
    ensures
        slots[s] is None,
{
    if slots[s] is Some {
        lemma_live_count_pos(slots, slots.len() as int, s);
    }
}

/// The note orchestrator: it owns the note-state table, the key-to-note
/// tables, and the waveform generator, and renders every live note into the
/// shared output buffer.
pub struct Notes {
    pub(crate) sample_rate: u32,
    pub(crate) notes: Vec<Option<NoteState>>,
    pub(crate) note_to_key: NoteToKey,
    pub(crate) key_to_note: KeyToNote,
    pub(crate) wave: Wave,
    pub(crate) wave_generator: Generator,
}

impl Notes {
    /// The note-state table, one slot per MIDI pitch; a slot is filled
    /// exactly while its note is live.
    pub open(crate) spec fn slots(&self) -> Seq<Option<NoteState>> {
        self.notes@
    }

    /// The generator's stored phase table.
    pub open(crate) spec fn phases(&self) -> Seq<u64> {
        self.wave_generator.spec_phase().phases()
    }

    /// The active waveform shape.
    pub open(crate) spec fn spec_wave(&self) -> Wave {
        self.wave
    }

    /// The sample rate the orchestrator was built for.
    pub open(crate) spec fn spec_sample_rate(&self) -> u32 {
        self.sample_rate
    }

    /// The key-to-note table's contents.
    pub open(crate) spec fn k2n(&self) -> Seq<Option<MidiNote>> {
        self.key_to_note@
    }

    /// The note-to-key table's contents.
    pub open(crate) spec fn n2k(&self) -> Seq<Seq<MidiNote>> {
        rows_view(self.note_to_key)
    }

    /// The per-sample phase increment of the note in slot `s`.
    pub open(crate) spec fn increment_at(&self, s: int) -> int {
        increment_spec((s - MIDI_OFFSET) as i8, self.sample_rate)
    }

    /// Whether some held key maps slot `s`'s pitch.
    pub open(crate) spec fn key_active(&self, s: int, keys: Seq<MidiNote>) -> bool {
        exists|j: int|
            0 <= j < keys.len() && self.key_to_note@[#[trigger] keys[j] as int] == Some(
                s as MidiNote,
            )
    }

    /// The internal invariant: the tables are sized and consistent, live
    /// volumes stay in range, the generator matches the configured shape
    /// and rate, and empty slots hold no stale phase, so a retriggered
    /// note always starts from phase zero.
    pub open(crate) spec fn wf(&self) -> bool {
        &&& self.notes@.len() == NOTE_SLOTS
        &&& forall|s: int|
            0 <= s < NOTE_SLOTS ==> ((#[trigger] self.notes@[s]) matches Some(st) ==> 0 <= st.volume
                <= MAX_VOLUME)
        &&& maps_consistent(self.key_to_note@, rows_view(self.note_to_key))
        &&& self.wave_generator.spec_phase().wf()
        &&& self.wave_generator.spec_phase().spec_sample_rate() == self.sample_rate
        &&& self.wave_generator.kind() == self.wave
        &&& self.sample_rate >= 1
        &&& forall|s: int|
            0 <= s < NOTE_SLOTS && (#[trigger] self.notes@[s]) is None ==> self.phases()[s] == 0
    }

    /// What one live note adds to the sample at offset `i` of a buffer of
    /// length `len`: its waveform value at the note's advanced phase,
    /// scaled by its interpolated envelope gain.
    pub open(crate) spec fn note_contrib(&self, s: int, i: int, len: int) -> int {
        match self.slots()[s] {
            Some(st) => scaled_sample(
                wave_value(self.spec_wave(), self.phases()[s] + i * self.increment_at(s)),
                gain_spec(st.volume as int, target_spec(st, live_count(self.slots())), i, len),
            ),
            None => 0,
        }
    }

    /// The mixed sample at offset `i`: the sum of the contributions of the
    /// first `j` slots.
    pub open(crate) spec fn mix_upto(&self, j: int, i: int, len: int) -> int
        decreases j,
    {
        if j <= 0 {
            0
        } else {
            self.mix_upto(j - 1, i, len) + self.note_contrib(j - 1, i, len)
        }
    }

    /// One note's contribution never exceeds the fixed-point unit.
    proof fn lemma_contrib_bound(&self, s: int, i: int, len: int)
        requires
            self.wf(),
            0 <= s < NOTE_SLOTS,
        ensures
            -FIXED_ONE <= self.note_contrib(s, i, len) <= FIXED_ONE,
    {
        match self.slots()[s] {
            Some(st) => {
                lemma_live_count_pos(self.slots(), NOTE_SLOTS as int, s);
                let n = live_count(self.slots());
                lemma_div_pos_is_pos(MAX_VOLUME as int, n);
                lemma_div_nonincreasing(MAX_VOLUME as int, n);
                let tgt = target_spec(st, n);
                assert(0 <= tgt <= MAX_VOLUME);
                lemma_lerp_bounds(st.volume as int, tgt, interp_t_spec(i, len));
                let g = gain_spec(st.volume as int, tgt, i, len);
                let w = wave_value(self.spec_wave(), self.phases()[s] + i * self.increment_at(s));
                assert(-FIXED_ONE <= w <= FIXED_ONE) by {
                    lemma_wave_value_in_range(
                        self.spec_wave(),
                        self.phases()[s] + i * self.increment_at(s),
                    );
                }
                lemma_scaled_sample_bounds(w, g);
            },
            None => {},
        }
    }

    /// The mix of the first `j` slots is bounded by `j` units.
    proof fn lemma_mix_bound(&self, j: int, i: int, len: int)
        requires
            self.wf(),
            0 <= j <= NOTE_SLOTS,
        ensures
            -j * FIXED_ONE <= self.mix_upto(j, i, len) <= j * FIXED_ONE,
        decreases j,
    {
        if j > 0 {
            self.lemma_mix_bound(j - 1, i, len);
            self.lemma_contrib_bound(j - 1, i, len);
            assert((j - 1) * FIXED_ONE + FIXED_ONE == j * FIXED_ONE) by (nonlinear_arith);
        }
    }
}

/// Every waveform shape's value is bounded by the fixed-point unit.
pub proof fn lemma_wave_value_in_range(w: Wave, phase: int)
    ensures
        -FIXED_ONE <= wave_value(w, phase) <= FIXED_ONE,
{
    match w {
        Wave::Sine => {
            crate::wave::sine::lemma_sine_bounds(phase);
        },
        Wave::Square => {
            crate::wave::sine::lemma_sine_bounds(phase);
        },
        Wave::Triangle => {
            let pm = phase % (FULL_TURN as int);
            let frac = crate::wave::triangle::quarter_frac_spec(pm);
            lemma_lerp_bounds(0, FIXED_ONE as int, frac);
            lemma_lerp_bounds(FIXED_ONE as int, 0, frac);
            lemma_lerp_bounds(0, -FIXED_ONE as int, frac);
            lemma_lerp_bounds(-FIXED_ONE as int, 0, frac);
        },
        Wave::Sawtooth => {
            let pm = phase % (FULL_TURN as int);
            let frac = crate::wave::sawtooth::half_frac_spec(pm);
            lemma_lerp_bounds(-FIXED_ONE as int, 0, frac);
            lemma_lerp_bounds(0, FIXED_ONE as int, frac);
        },
    }
}

impl Notes {
    /// Builds an orchestrator for a built-in keymap layout, waveform shape
    /// and sample rate.  Which key names the input-device layer recognizes
    /// is its decision, so it also decides between the two outcomes: the
    /// result is `Ok` exactly when every name of the layout's table
    /// resolves to a keycode.  Every embedded pitch is representable, so
    /// the only possible failure is an unrecognized key name.  An accepted
    /// orchestrator starts silent with all phase memory at zero, and its
    /// installed tables are exactly the layout's: key-to-note is the fold
    /// of the layout's entries, and note-to-key its consistent inverse.
    pub fn new(keymap: &KeyMaps, wave: Wave, sample_rate: u32) -> (r: Result<Notes, ConfigError>)
        requires
            sample_rate >= 1,
        ensures
            match r {
                Ok(orch) => {
                    &&& orch.wf()
                    &&& forall|s: int| 0 <= s < NOTE_SLOTS ==> (#[trigger] orch.slots()[s]) is None
                    &&& forall|s: int| 0 <= s < NOTE_SLOTS ==> (#[trigger] orch.phases()[s]) == 0
                    &&& orch.spec_wave() == wave
                    &&& orch.spec_sample_rate() == sample_rate
                    &&& table_resolves(layout_spec(*keymap))
                    &&& forall|k: u8|
                        orch.k2n()[k as int] == key_to_note_of(layout_spec(*keymap), k)
                    &&& maps_consistent(orch.k2n(), orch.n2k())
                },
                Err(e) => {
                    &&& e == ConfigError::UnrecognizedKey
                    &&& !table_resolves(layout_spec(*keymap))
                },
            },
    {
        let entries = keymap.entries();
        let result = generate_maps(&entries);
        proof {
            let table = layout_spec(*keymap);
            lemma_layout_pitches(*keymap);
            if result is Err {
                let i = choose|i: int|
                    {
                        &&& 0 <= i < entries@.len()
                        &&& !entry_ok(#[trigger] entries@[i])
                        &&& result->Err_0 == error_of(entries@[i])
                        &&& forall|j: int| 0 <= j < i ==> entry_ok(#[trigger] entries@[j])
                    };
                assert(entries@[i].0@ == table[i].0 && entries@[i].1 == table[i].1);
                assert(keycode_of(table[i].0) is None) by {
                    assert(table[i].1 matches Some(p) ==> p < 128);
                }
                assert(!table_resolves(table));
            } else {
                assert forall|i: int| 0 <= i < table.len() implies keycode_of(
                    (#[trigger] table[i]).0,
                ) is Some by {
                    assert(entry_ok(entries@[i]));
                    assert(entries@[i].0@ == table[i].0);
                }
                let maps = result->Ok_0;
                assert forall|k: u8| maps.0@[k as int] == key_to_note_of(table, k) by {
                    lemma_match_key_to_note(entries@, table, k);
                }
            }
        }
        match result {
            Ok((key_to_note, note_to_key)) => {
                let orch = Notes {
                    sample_rate,
                    notes: vec![None; NOTE_SLOTS],
                    note_to_key,
                    key_to_note,
                    wave,
                    wave_generator: wave.generator(sample_rate),
                };
                Ok(orch)
            },
            Err(e) => Err(e),
        }
    }

    /// Replaces the waveform generator wholesale with a freshly constructed
    /// one of the given shape at the same sample rate.  All phase memory is
    /// reset; note states and tables are untouched.
    pub fn update_wave(&mut self, wave: Wave)
        requires
            old(self).wf(),
        ensures
            final(self).wf(),
            final(self).spec_wave() == wave,
            final(self).slots() == old(self).slots(),
            forall|s: int| 0 <= s < NOTE_SLOTS ==> (#[trigger] final(self).phases()[s]) == 0,
            final(self).k2n() == old(self).k2n(),
            final(self).n2k() == old(self).n2k(),
            final(self).spec_sample_rate() == old(self).spec_sample_rate(),
    {
        self.wave = wave;
        self.wave_generator = wave.generator(self.sample_rate);
    }

    /// Reconciles the note-state table with a fresh snapshot of held keys,
    /// which replaces any previous snapshot.  Every live note's `active`
    /// flag is recomputed by checking its note-to-key row against the
    /// snapshot; a note that is inactive and fully faded is removed, and
    /// its phase memory cleared, exactly on that call; a fresh silent
    /// entry is created for every held key that maps to a pitch not yet
    /// live.  No audio is produced: this is a pure state transition.
    pub fn update_keys(&mut self, active_keys: &Vec<MidiNote>)
        requires
            old(self).wf(),
        ensures
            final(self).wf(),
            forall|s: int|
                0 <= s < NOTE_SLOTS ==> (#[trigger] final(self).slots()[s]) == (match old(
                    self,
                ).slots()[s] {
                    Some(st) => if old(self).key_active(s, active_keys@) {
                        Some(NoteState { active: true, volume: st.volume })
                    } else if st.volume > 0 {
                        Some(NoteState { active: false, volume: st.volume })
                    } else {
                        None::<NoteState>
                    },
                    None => if old(self).key_active(s, active_keys@) {
                        Some(NoteState { active: true, volume: 0 })
                    } else {
                        None::<NoteState>
                    },
                }),
            forall|s: int|
                0 <= s < NOTE_SLOTS ==> (#[trigger] final(self).phases()[s]) == (if old(
                    self,
                ).slots()[s] is Some && final(self).slots()[s] is None {
                    0u64
                } else {
                    old(self).phases()[s]
                }),
            final(self).spec_wave() == old(self).spec_wave(),
            final(self).k2n() == old(self).k2n(),
            final(self).n2k() == old(self).n2k(),
            final(self).spec_sample_rate() == old(self).spec_sample_rate(),
    {
        let ghost init = *self;
        let mut s: usize = 0;
        while s < NOTE_SLOTS
            invariant
                init.wf(),
                s <= NOTE_SLOTS,
                self.notes@.len() == NOTE_SLOTS,
                self.key_to_note == init.key_to_note,
                self.note_to_key == init.note_to_key,
                self.wave == init.wave,
                self.sample_rate == init.sample_rate,
                self.wave_generator.spec_phase().wf(),
                self.wave_generator.kind() == init.wave,
                self.wave_generator.spec_phase().spec_sample_rate() == init.sample_rate,
                forall|s0: int|
                    s <= s0 < NOTE_SLOTS ==> (#[trigger] self.notes@[s0]) == init.notes@[s0],
                forall|s0: int|
                    0 <= s0 < s ==> (#[trigger] self.notes@[s0]) == (match init.slots()[s0] {
                        Some(st) => if init.key_active(s0, active_keys@) {
                            Some(NoteState { active: true, volume: st.volume })
                        } else if st.volume > 0 {
                            Some(NoteState { active: false, volume: st.volume })
                        } else {
                            None::<NoteState>
                        },
                        None => if init.key_active(s0, active_keys@) {
                            Some(NoteState { active: true, volume: 0 })
                        } else {
                            None::<NoteState>
                        },
                    }),
                forall|s0: int|
                    s <= s0 < NOTE_SLOTS ==> (#[trigger] self.phases()[s0]) == init.phases()[s0],
                forall|s0: int|
                    0 <= s0 < s ==> (#[trigger] self.phases()[s0]) == (if init.slots()[s0]
                        is Some && self.slots()[s0] is None {
                        0u64
                    } else {
                        init.phases()[s0]
                    }),
            decreases NOTE_SLOTS - s,
        {
            let ghost prev = *self;
            let slot_state: Option<NoteState> = self.notes[s];
            match slot_state {
                Some(state) => {
                    let is_still_active = row_active(&self.note_to_key[s], active_keys);
                    proof {
                        assert(rows_view(self.note_to_key)[s as int] == self.note_to_key@[s as int]@);
                        lemma_row_active_iff_mapped(
                            self.key_to_note@,
                            rows_view(self.note_to_key),
                            active_keys@,
                            s as int,
                        );
                        assert(is_still_active == init.key_active(s as int, active_keys@));
                    }
                    if is_still_active {
                        self.notes[s] = Some(NoteState { active: true, volume: state.volume });
                    } else if state.volume > 0 {
                        self.notes[s] = Some(NoteState { active: false, volume: state.volume });
                    } else {
                        self.notes[s] = None;
                        let rel: i8 = (s as i8) - MIDI_OFFSET;
                        proof {
                            assert(note_slot(rel) == s as int);
                        }
                        self.wave_generator.clear(rel);
                    }
                },
                None => {
                    let mapped = any_key_maps_to(&self.key_to_note, active_keys, s as u8);
                    proof {
                        assert(mapped == init.key_active(s as int, active_keys@));
                    }
                    if mapped {
                        self.notes[s] = Some(NoteState::new());
                    }
                },
            }
            proof {
                assert(forall|s0: int|
                    0 <= s0 < NOTE_SLOTS && s0 != s ==> #[trigger] self.phases()[s0]
                        == prev.phases()[s0]);
                assert(forall|s0: int|
                    0 <= s0 < NOTE_SLOTS && s0 != s ==> #[trigger] self.slots()[s0]
                        == prev.slots()[s0]);
                assert(self.slots()[s as int] is None ==> self.phases()[s as int] == 0);
                assert forall|s0: int| 0 <= s0 < s + 1 implies (#[trigger] self.phases()[s0]) == (
                if init.slots()[s0] is Some && self.slots()[s0] is None {
                    0u64
                } else {
                    init.phases()[s0]
                }) by {
                    if s0 < s {
                        assert(self.phases()[s0] == prev.phases()[s0]);
                        assert(self.slots()[s0] == prev.slots()[s0]);
                        assert(prev.phases()[s0] == (if init.slots()[s0] is Some
                            && prev.slots()[s0] is None {
                            0u64
                        } else {
                            init.phases()[s0]
                        }));
                    } else {
                        assert(s0 == s as int);
                        assert(init.slots()[s0] == prev.slots()[s0]);
                        if init.slots()[s0] is Some && self.slots()[s0] is None {
                            assert(self.phases()[s0] == 0);
                        } else {
                            assert(self.phases()[s0] == prev.phases()[s0]);
                            assert(prev.phases()[s0] == init.phases()[s0]);
                        }
                    }
                }
            }
            s += 1;
        }
    }

    /// Renders one audio quantum into the pre-zeroed sample buffer.  For
    /// every live note it computes a target volume — an equal share of
    /// [`MAX_VOLUME`] while active, zero while fading out — and, at every
    /// sample offset, accumulates the note's waveform value scaled by the
    /// gain interpolated between the note's stored volume and that target.
    /// After the buffer each note's stored volume advances exactly to its
    /// target, and each live note's phase memory advances by exactly one
    /// buffer, wrapped to one turn.  With no live notes the buffer is left
    /// untouched.
    pub fn generate_audio(&mut self, buf: &mut Vec<i64>)
        requires
            old(self).wf(),
            old(buf)@.len() <= MAX_BUFFER,
            forall|i: int| 0 <= i < old(buf)@.len() ==> old(buf)@[i] == 0,
        ensures
            final(self).wf(),
            final(buf)@.len() == old(buf)@.len(),
            forall|i: int|
                0 <= i < old(buf)@.len() ==> (#[trigger] final(buf)@[i]) == old(self).mix_upto(
                    NOTE_SLOTS as int,
                    i,
                    old(buf)@.len() as int,
                ),
            forall|s: int|
                0 <= s < NOTE_SLOTS ==> (#[trigger] final(self).slots()[s]) == (match old(
                    self,
                ).slots()[s] {
                    Some(st) => Some(
                        NoteState {
                            active: st.active,
                            volume: target_spec(st, live_count(old(self).slots())) as i64,
                        },
                    ),
                    None => None::<NoteState>,
                }),
            forall|s: int|
                0 <= s < NOTE_SLOTS ==> (#[trigger] final(self).phases()[s]) == (match old(
                    self,
                ).slots()[s] {
                    Some(_) => ((old(self).phases()[s] + old(buf)@.len() * old(self).increment_at(
                        s,
                    )) % (FULL_TURN as int)) as u64,
                    None => old(self).phases()[s],
                }),
            final(self).spec_wave() == old(self).spec_wave(),
            final(self).k2n() == old(self).k2n(),
            final(self).n2k() == old(self).n2k(),
            final(self).spec_sample_rate() == old(self).spec_sample_rate(),
    {
        let ghost init = *self;
        let len = buf.len();
        let n = count_live(&self.notes);
        if n == 0 {
            proof {
                assert forall|i: int| 0 <= i < len implies init.mix_upto(
                    NOTE_SLOTS as int,
                    i,
                    len as int,
                ) == 0 by {
                    lemma_silence(init, NOTE_SLOTS as int, i, len as int);
                }
                assert forall|s: int| 0 <= s < NOTE_SLOTS implies (#[trigger] init.slots()[s])
                    is None by {
                    lemma_live_count_zero(init.slots(), s);
                }
            }
            return ;
        }
        let note_volume_ratio: i64 = MAX_VOLUME / (n as i64);
        proof {
            lemma_div_pos_is_pos(MAX_VOLUME as int, n as int);
            lemma_div_nonincreasing(MAX_VOLUME as int, n as int);
        }
        let mut s: usize = 0;
        while s < NOTE_SLOTS
            invariant
                init.wf(),
                n == live_count(init.slots()),
                1 <= n <= NOTE_SLOTS,
                note_volume_ratio == (MAX_VOLUME as int) / (n as int),
                0 <= note_volume_ratio <= MAX_VOLUME,
                len == buf@.len() <= MAX_BUFFER,
                s <= NOTE_SLOTS,
                self.notes@.len() == NOTE_SLOTS,
                self.key_to_note == init.key_to_note,
                self.note_to_key == init.note_to_key,
                self.wave == init.wave,
                self.sample_rate == init.sample_rate,
                self.wave_generator.spec_phase().wf(),
                self.wave_generator.kind() == init.wave,
                self.wave_generator.spec_phase().spec_sample_rate() == init.sample_rate,
                forall|s0: int|
                    s <= s0 < NOTE_SLOTS ==> (#[trigger] self.notes@[s0]) == init.notes@[s0],
                forall|s0: int|
                    0 <= s0 < s ==> (#[trigger] self.notes@[s0]) == (match init.slots()[s0] {
                        Some(st) => Some(
                            NoteState {
                                active: st.active,
                                volume: target_spec(st, n as int) as i64,
                            },
                        ),
                        None => None::<NoteState>,
                    }),
                forall|s0: int|
                    s <= s0 < NOTE_SLOTS ==> (#[trigger] self.phases()[s0]) == init.phases()[s0],
                forall|s0: int|
                    0 <= s0 < s ==> (#[trigger] self.phases()[s0]) == (match init.slots()[s0] {
                        Some(_) => ((init.phases()[s0] + len * init.increment_at(s0)) % (
                        FULL_TURN as int)) as u64,
                        None => init.phases()[s0],
                    }),
                forall|i: int|
                    0 <= i < len ==> (#[trigger] buf@[i]) == init.mix_upto(
                        s as int,
                        i,
                        len as int,
                    ),
            decreases NOTE_SLOTS - s,
        {
            let ghost pre = *self;
            let slot_state: Option<NoteState> = self.notes[s];
            if let Some(state) = slot_state {
                let target_volume = state.get_target_volume(note_volume_ratio);
                proof {
                    assert(init.slots()[s as int] == Some(state));
                    assert(0 <= state.volume <= MAX_VOLUME);
                    assert(target_volume == target_spec(state, n as int));
                }
                let rel: i8 = (s as i8) - MIDI_OFFSET;
                proof {
                    assert(valid_note(rel));
                    assert(note_slot(rel) == s as int);
                    assert(self.phases()[s as int] == init.phases()[s as int]);
                }
                self.wave_generator.before(rel);
                proof {
                    assert(increment_spec(rel, init.sample_rate) == init.increment_at(s as int));
                    assert(self.wave_generator.spec_phase().spec_current_phase()
                        == init.phases()[s as int]);
                }
                let ghost mid = *self;
                let mut i: usize = 0;
                while i < len
                    invariant
                        init.wf(),
                        n == live_count(init.slots()),
                        1 <= n <= NOTE_SLOTS,
                        len == buf@.len() <= MAX_BUFFER,
                        i <= len,
                        s < NOTE_SLOTS,
                        init.slots()[s as int] == Some(state),
                        0 <= state.volume <= MAX_VOLUME,
                        target_volume == target_spec(state, n as int),
                        0 <= target_volume <= MAX_VOLUME,
                        *self == mid,
                        mid.wave_generator.spec_phase().wf(),
                        mid.wave_generator.spec_phase().spec_current_phase() == init.phases()[s as int],
                        mid.wave_generator.spec_phase().spec_increment() == init.increment_at(
                            s as int,
                        ),
                        mid.wave_generator.kind() == init.wave,
                        forall|i0: int|
                            0 <= i0 < i ==> (#[trigger] buf@[i0]) == init.mix_upto(
                                s as int + 1,
                                i0,
                                len as int,
                            ),
                        forall|i0: int|
                            i <= i0 < len ==> (#[trigger] buf@[i0]) == init.mix_upto(
                                s as int,
                                i0,
                                len as int,
                            ),
                    decreases len - i,
                {
                    let w = self.wave_generator.next(i);
                    let gain = state.get_volume(i, len, target_volume);
                    let voice = scale_sample(w, gain);
                    proof {
                        assert(w == wave_value(
                            init.spec_wave(),
                            init.phases()[s as int] + i * init.increment_at(s as int),
                        ));
                        assert(voice == init.note_contrib(s as int, i as int, len as int));
                        init.lemma_mix_bound(s as int, i as int, len as int);
                        assert((s as int) * FIXED_ONE <= 128 * FIXED_ONE);
                    }
                    let cur = buf[i];
                    buf[i] = cur + voice;
                    proof {
                        assert(init.mix_upto(s as int + 1, i as int, len as int) == init.mix_upto(
                            s as int,
                            i as int,
                            len as int,
                        ) + init.note_contrib(s as int, i as int, len as int));
                    }
                    i += 1;
                }
                self.wave_generator.after(len);
                let mut new_state = state;
                new_state.set_volume(target_volume);
                self.notes[s] = Some(new_state);
                proof {
                    assert(mid.phases() == pre.phases());
                    assert(forall|s0: int|
                        0 <= s0 < NOTE_SLOTS && s0 != s ==> #[trigger] self.phases()[s0]
                            == pre.phases()[s0]);
                    assert(self.phases()[s as int] == ((init.phases()[s as int] + len
                        * init.increment_at(s as int)) % (FULL_TURN as int)) as u64);
                    assert(forall|s0: int|
                        0 <= s0 < NOTE_SLOTS && s0 != s ==> #[trigger] self.notes@[s0]
                            == pre.notes@[s0]);
                }
            } else {
                proof {
                    assert(init.slots()[s as int] is None);
                    assert forall|i0: int| 0 <= i0 < len implies init.mix_upto(
                        s as int + 1,
                        i0,
                        len as int,
                    ) == #[trigger] buf@[i0] by {
                        assert(init.note_contrib(s as int, i0, len as int) == 0);
                        assert(init.mix_upto(s as int + 1, i0, len as int) == init.mix_upto(
                            s as int,
                            i0,
                            len as int,
                        ));
                    }
                }
            }
            s += 1;
        }
    }

    /// The active waveform shape.
    pub fn current_wave(&self) -> (w: Wave)
        ensures
            w == self.spec_wave(),
    {
        self.wave
    }

    /// How many notes are live: sounding, or still fading out.
    pub fn live_notes(&self) -> (n: usize)
        requires
            self.wf(),
        ensures
            n == live_count(self.slots()),
            n <= NOTE_SLOTS,
    {
        count_live(&self.notes)
    }

    /// The state of one note, if it is live.
    pub fn note_state_of(&self, rel_midi_note: i8) -> (st: Option<NoteState>)
        requires
            self.wf(),
            valid_note(rel_midi_note),
        ensures
            st == self.slots()[note_slot(rel_midi_note)],
    {
        let idx: usize = (rel_midi_note as i32 + 69) as usize;
        self.notes[idx]
    }

    /// The pitch a physical keycode is mapped to, if any.
    pub fn note_for_key(&self, keycode: u8) -> (note: Option<MidiNote>)
        requires
            self.wf(),
        ensures
            note == self.k2n()[keycode as int],
    {
        self.key_to_note[keycode as usize]
    }

    /// The stored oscillator phase of one note.
    pub fn phase_of(&self, rel_midi_note: i8) -> (phase: u64)
        requires
            self.wf(),
            valid_note(rel_midi_note),
        ensures
            phase == self.phases()[note_slot(rel_midi_note)],
    {
        self.wave_generator.stored_phase(rel_midi_note)
    }
}

/// Whether keycode `x` occurs in the held-key snapshot.
fn contains_key(keys: &Vec<MidiNote>, x: MidiNote) -> (r: bool)
    ensures
        r == keys@.contains(x),
{
    let mut j: usize = 0;
    let mut found = false;
    while j < keys.len()
        invariant
            j <= keys@.len(),
            found == exists|j0: int| 0 <= j0 < j && keys@[j0] == x,
        decreases keys@.len() - j,
    {
        if keys[j] == x {
            found = true;
        }
        j += 1;
    }
    found
}

/// Whether any keycode of a note-to-key row is currently held.
fn row_active(row: &Vec<MidiNote>, active_keys: &Vec<MidiNote>) -> (r: bool)
    ensures
        r == exists|j: int| 0 <= j < row@.len() && active_keys@.contains(#[trigger] row@[j]),
{
    let mut j: usize = 0;
    let mut found = false;
    while j < row.len()
        invariant
            j <= row@.len(),
            found == exists|j0: int| 0 <= j0 < j && active_keys@.contains(#[trigger] row@[j0]),
        decreases row@.len() - j,
    {
        if contains_key(active_keys, row[j]) {
            found = true;
        }
        j += 1;
    }
    found
}

/// Whether any held key maps to pitch `p` in the key-to-note table.
fn any_key_maps_to(key_to_note: &KeyToNote, active_keys: &Vec<MidiNote>, p: MidiNote) -> (r: bool)
    requires
        key_to_note@.len() == 256,
    ensures
        r == exists|j: int|
            0 <= j < active_keys@.len() && key_to_note@[#[trigger] active_keys@[j] as int] == Some(
                p,
            ),
{
    let mut j: usize = 0;
    let mut found = false;
    while j < active_keys.len()
        invariant
            key_to_note@.len() == 256,
            j <= active_keys@.len(),
            found == exists|j0: int|
                0 <= j0 < j && key_to_note@[#[trigger] active_keys@[j0] as int] == Some(p),
        decreases active_keys@.len() - j,
    {
        let k = active_keys[j];
        if let Some(q) = key_to_note[k as usize] {
            if q == p {
                found = true;
            }
        }
        j += 1;
    }
    found
}

/// Under table consistency, "some key of this note's row is held" and
/// "some held key maps to this note" agree.
proof fn lemma_row_active_iff_mapped(
    k2n: Seq<Option<MidiNote>>,
    n2k: Seq<Seq<MidiNote>>,
    keys: Seq<MidiNote>,
    p: int,
)
    requires
        maps_consistent(k2n, n2k),
        0 <= p < 128,
    ensures
        (exists|j: int| 0 <= j < n2k[p].len() && keys.contains(#[trigger] n2k[p][j])) <==> (
        exists|j: int| 0 <= j < keys.len() && k2n[#[trigger] keys[j] as int] == Some(p as MidiNote)),
{
    if exists|j: int| 0 <= j < n2k[p].len() && keys.contains(#[trigger] n2k[p][j]) {
        let j = choose|j: int| 0 <= j < n2k[p].len() && keys.contains(#[trigger] n2k[p][j]);
        let k = n2k[p][j];
        assert(k2n[k as int] == Some(p as MidiNote));
        let j2 = choose|j2: int| 0 <= j2 < keys.len() && keys[j2] == k;
        assert(k2n[keys[j2] as int] == Some(p as MidiNote));
    }
    if exists|j: int| 0 <= j < keys.len() && k2n[#[trigger] keys[j] as int] == Some(p as MidiNote) {
        let j = choose|j: int|
            0 <= j < keys.len() && k2n[#[trigger] keys[j] as int] == Some(p as MidiNote);
        let k = keys[j];
        assert(n2k[p].contains(k));
        let j2 = choose|j2: int| 0 <= j2 < n2k[p].len() && n2k[p][j2] == k;
        assert(keys.contains(n2k[p][j2]));
    }
}

fn count_live(notes: &Vec<Option<NoteState>>) -> (n: usize)
    requires
        notes@.len() == NOTE_SLOTS,
    ensures
        n == live_count(notes@),
        n <= NOTE_SLOTS,
{
    let mut n: usize = 0;
    let mut s: usize = 0;
    while s < NOTE_SLOTS
        invariant
            notes@.len() == NOTE_SLOTS,
            s <= NOTE_SLOTS,
            n == live_count_upto(notes@, s as int),
            n <= s,
        decreases NOTE_SLOTS - s,
    {
        if notes[s].is_some() {
            n += 1;
        }
        s += 1;
    }
    n
}

/// Polyphony normalization: each of `n` simultaneously fully-active notes
/// is assigned the target `MAX_VOLUME / n`, and whenever `n` divides
/// [`MAX_VOLUME`] — in particular for every voice count up to 12 — those
/// `n` targets sum to exactly [`MAX_VOLUME`].  In general the sum falls
/// short of the full volume by exactly the division remainder.
pub proof fn lemma_polyphony_normalization(st: NoteState, n: int)
    requires
        st.active,
        1 <= n,
    ensures
        n * target_spec(st, n) + (MAX_VOLUME as int) % n == MAX_VOLUME,
        (MAX_VOLUME as int) % n == 0 ==> n * target_spec(st, n) == MAX_VOLUME,
        n <= 12 ==> n * target_spec(st, n) == MAX_VOLUME,
{
    vstd::arithmetic::div_mod::lemma_fundamental_div_mod(MAX_VOLUME as int, n);
    if n <= 12 {
        if n == 1 {
            assert((MAX_VOLUME as int) % n == 0);
        } else if n == 2 {
            assert((MAX_VOLUME as int) % n == 0);
        } else if n == 3 {
            assert((MAX_VOLUME as int) % n == 0);
        } else if n == 4 {
            assert((MAX_VOLUME as int) % n == 0);
        } else if n == 5 {
            assert((MAX_VOLUME as int) % n == 0);
        } else if n == 6 {
            assert((MAX_VOLUME as int) % n == 0);
        } else if n == 7 {
            assert((MAX_VOLUME as int) % n == 0);
        } else if n == 8 {
            assert((MAX_VOLUME as int) % n == 0);
        } else if n == 9 {
            assert((MAX_VOLUME as int) % n == 0);
        } else if n == 10 {
            assert((MAX_VOLUME as int) % n == 0);
        } else if n == 11 {
            assert((MAX_VOLUME as int) % n == 0);
        } else {
            assert((MAX_VOLUME as int) % n == 0);
        }
    }
}

/// No instantaneous jump: within one render call the interpolated gain at
/// sample offset 0 equals the note's volume from before that call, so a
/// fade starts exactly where the previous buffer left the note.
pub proof fn lemma_gain_continuity(v: int, tgt: int, len: int)
    requires
        0 <= v <= FIXED_ONE,
        0 <= tgt <= FIXED_ONE,
        1 <= len,
    ensures
        gain_spec(v, tgt, 0, len) == v,
{
    assert(interp_t_spec(0, len) == 0) by {
        vstd::arithmetic::div_mod::lemma_div_of0(len);
    }
    lemma_lerp_starts_at_a(v, tgt);
}

/// No instantaneous jump, seen from the mixer: at sample offset 0 of any
/// render call, a live note's contribution is its waveform value scaled by
/// exactly the volume stored before that call.
pub proof fn lemma_no_instantaneous_jump(orch: Notes, s: int, len: int)
    requires
        orch.wf(),
        0 <= s < NOTE_SLOTS,
        1 <= len,
        orch.slots()[s] is Some,
    ensures
        orch.note_contrib(s, 0, len) == scaled_sample(
            wave_value(orch.spec_wave(), orch.phases()[s] as int),
            orch.slots()[s]->Some_0.volume as int,
        ),
{
    let st = orch.slots()[s]->Some_0;
    lemma_live_count_pos(orch.slots(), NOTE_SLOTS as int, s);
    let n = live_count(orch.slots());
    lemma_div_pos_is_pos(MAX_VOLUME as int, n);
    lemma_div_nonincreasing(MAX_VOLUME as int, n);
    lemma_gain_continuity(st.volume as int, target_spec(st, n), len);
    assert(orch.phases()[s] + 0 * orch.increment_at(s) == orch.phases()[s]);
}

/// Fade completion: at any sample offset at or beyond a third of the
/// buffer the interpolation parameter clamps at full scale, so the gain
/// equals the target exactly for the rest of the buffer.
pub proof fn lemma_fade_completion(v: int, tgt: int, i: int, len: int)
    requires
        0 <= v <= FIXED_ONE,
        0 <= tgt <= FIXED_ONE,
        1 <= len,
        3 * i >= len,
    ensures
        gain_spec(v, tgt, i, len) == tgt,
{
    assert(i * 3 * FIXED_ONE >= len * FIXED_ONE) by (nonlinear_arith)
        requires
            3 * i >= len,
            FIXED_ONE == 55440,
    ;
    lemma_div_is_ordered(len * FIXED_ONE, i * 3 * FIXED_ONE, len);
    lemma_div_multiples_vanish(FIXED_ONE as int, len);
    assert(interp_t_spec(i, len) >= FIXED_ONE);
    lemma_lerp_ends_at_b(v, tgt, interp_t_spec(i, len));
}

/// With no live notes the mix is silence at every offset.
pub proof fn lemma_silence(orch: Notes, j: int, i: int, len: int)
    requires
        live_count(orch.slots()) == 0,
        orch.slots().len() == NOTE_SLOTS,
        0 <= j <= NOTE_SLOTS,
    ensures
        orch.mix_upto(j, i, len) == 0,
    decreases j,
{
    if j > 0 {
        lemma_silence(orch, j - 1, i, len);
        lemma_live_count_zero(orch.slots(), j - 1);
    }
}

} // verus!
