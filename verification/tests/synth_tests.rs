//! End-to-end tests for the note orchestrator.

use device_query::Keycode;
use keysynth::keymaps::KeyMaps;
use keysynth::notes::{lerp, Notes, FIXED_ONE, MAX_VOLUME};
use keysynth::wave::phase::note_increment;
use keysynth::wave::{Wave, FULL_TURN};
use keysynth::{stream_action, StreamAction, INACTIVITY_TIME_MS};

const RATE: u32 = 48000;

fn z() -> u8 {
    Keycode::Z as u8
}
fn s_key() -> u8 {
    Keycode::S as u8
}
fn i_key() -> u8 {
    Keycode::I as u8
}

fn piano(wave: Wave) -> Notes {
    Notes::new(&KeyMaps::Piano, wave, RATE).unwrap()
}

#[test]
fn gain_starts_at_the_stored_volume() {
    // Interpolation parameter 0 returns the old volume exactly.
    assert_eq!(lerp(100, 20000, 0), 100);
    assert_eq!(lerp(0, FIXED_ONE, 0), 0);
    assert_eq!(lerp(12345, 0, -5), 12345);
}

#[test]
fn gain_completes_the_fade() {
    // A saturated parameter returns the target exactly; with offset i and
    // buffer length len the parameter is i*3*FIXED_ONE/len, which clamps
    // from a third of the buffer on.
    let len: i64 = 30;
    let i: i64 = 10;
    let t = i * 3 * FIXED_ONE / len;
    assert_eq!(lerp(0, FIXED_ONE, t), FIXED_ONE);
    assert_eq!(lerp(27720, 13860, FIXED_ONE + 5), 13860);
    assert_eq!(lerp(0, FIXED_ONE, FIXED_ONE / 2), FIXED_ONE / 2);
}

#[test]
fn lerp_accepts_signed_endpoints() {
    // The interpolation helper works across the full signed range, as the
    // triangle and sawtooth segments use it.
    assert_eq!(lerp(2000, 4000, FIXED_ONE / 2), 3000);
    assert_eq!(lerp(1000, 5000, -FIXED_ONE), 1000);
    assert_eq!(lerp(1000, 5000, 7 * FIXED_ONE), 5000);
    assert_eq!(lerp(-FIXED_ONE, FIXED_ONE, FIXED_ONE / 2), 0);
    assert_eq!(lerp(-2000, 4000, FIXED_ONE / 2), 1000);
    assert_eq!(lerp(0, -FIXED_ONE, FIXED_ONE), -FIXED_ONE);
    assert_eq!(lerp(-FIXED_ONE, 0, 0), -FIXED_ONE);
}

#[test]
fn keymap_tables_reach_the_orchestrator() {
    // The orchestrator installs exactly the layout's mapping.
    let notes = piano(Wave::Sine);
    assert_eq!(notes.note_for_key(z()), Some(60));
    assert_eq!(notes.note_for_key(i_key()), Some(60));
    assert_eq!(notes.note_for_key(s_key()), Some(61));
    assert_eq!(notes.note_for_key(255), None);
    let notes = Notes::new(&KeyMaps::Us, Wave::Sine, RATE).unwrap();
    assert_eq!(notes.note_for_key(Keycode::A as u8), Some(89));
    assert_eq!(notes.note_for_key(Keycode::Escape as u8), Some(45));
    assert_eq!(notes.note_for_key(Keycode::Right as u8), Some(122));
}

#[test]
fn silence_when_no_keys_are_held() {
    let mut notes = piano(Wave::Sine);
    notes.update_keys(&vec![]);
    let mut buf = vec![0i64; 128];
    notes.generate_audio(&mut buf);
    assert!(buf.iter().all(|&x| x == 0));
    assert_eq!(notes.live_notes(), 0);
}

#[test]
fn polyphony_normalization_for_two_notes() {
    let mut notes = piano(Wave::Sine);
    // Z plays pitch 60, S plays pitch 61.
    notes.update_keys(&vec![z(), s_key()]);
    assert_eq!(notes.live_notes(), 2);
    let mut buf = vec![0i64; 30];
    notes.generate_audio(&mut buf);
    let a = notes.note_state_of(60 - 69).unwrap();
    let b = notes.note_state_of(61 - 69).unwrap();
    assert_eq!(a.volume, MAX_VOLUME / 2);
    assert_eq!(b.volume, MAX_VOLUME / 2);
    assert_eq!(a.volume + b.volume, MAX_VOLUME);
}

#[test]
fn single_note_reaches_full_volume() {
    let mut notes = piano(Wave::Sine);
    notes.update_keys(&vec![z()]);
    let mut buf = vec![0i64; 64];
    notes.generate_audio(&mut buf);
    assert_eq!(notes.note_state_of(-9).unwrap().volume, MAX_VOLUME);
}

#[test]
fn removal_happens_exactly_when_inactive_and_silent() {
    let mut notes = piano(Wave::Sine);
    notes.update_keys(&vec![z()]);
    assert!(notes.note_state_of(-9).is_some());

    let mut buf = vec![0i64; 64];
    notes.generate_audio(&mut buf);
    assert_eq!(notes.note_state_of(-9).unwrap().volume, MAX_VOLUME);
    assert_ne!(notes.phase_of(-9), 0);

    // Releasing the key leaves the note live: it is fading out.
    notes.update_keys(&vec![]);
    let st = notes.note_state_of(-9).unwrap();
    assert!(!st.active);
    assert_eq!(st.volume, MAX_VOLUME);
    assert_ne!(notes.phase_of(-9), 0);

    // One more buffer fades it to silence, but it is still live.
    let mut buf = vec![0i64; 64];
    notes.generate_audio(&mut buf);
    let st = notes.note_state_of(-9).unwrap();
    assert!(!st.active);
    assert_eq!(st.volume, 0);

    // Only the next update call removes it, clearing its phase memory.
    notes.update_keys(&vec![]);
    assert!(notes.note_state_of(-9).is_none());
    assert_eq!(notes.phase_of(-9), 0);
}

#[test]
fn aliased_keys_keep_the_tone_continuous() {
    // Z and I both play pitch 60; swapping one for the other between
    // buffers must never reset the note's phase, because the note never
    // passes through the inactive-and-silent state.
    let mut notes = piano(Wave::Sine);
    let inc = note_increment(-9, RATE);

    notes.update_keys(&vec![z()]);
    let mut buf = vec![0i64; 64];
    notes.generate_audio(&mut buf);
    let p1 = notes.phase_of(-9);
    assert_eq!(p1, (64 * inc) % FULL_TURN);
    assert_ne!(p1, 0);

    // Release Z and press I in the same snapshot.
    notes.update_keys(&vec![i_key()]);
    let st = notes.note_state_of(-9).unwrap();
    assert!(st.active);
    assert_eq!(st.volume, MAX_VOLUME);
    assert_eq!(notes.phase_of(-9), p1);

    let mut buf = vec![0i64; 64];
    notes.generate_audio(&mut buf);
    assert_eq!(notes.phase_of(-9), (128 * inc) % FULL_TURN);
}

fn expected_square_buffer(len: usize, inc: u64, start: u64, v0: i64, tgt: i64) -> Vec<i64> {
    let half = (FULL_TURN / 2) as i64;
    let arch = |p: i64| 4 * (p * (half - p)) * FIXED_ONE / (half * half);
    let sine = |ph: u64| {
        let pm = (ph % FULL_TURN) as i64;
        if pm < half {
            arch(pm)
        } else {
            -arch(pm - half)
        }
    };
    (0..len)
        .map(|i| {
            let s = sine(start + i as u64 * inc);
            let w = if s < 0 {
                -MAX_VOLUME
            } else if s > 0 {
                MAX_VOLUME
            } else {
                0
            };
            let t = (i as i64 * 3 * FIXED_ONE / len as i64).clamp(0, FIXED_ONE);
            let gain = ((FIXED_ONE - t) * v0 + t * tgt) / FIXED_ONE;
            if w >= 0 {
                w * gain / FIXED_ONE
            } else {
                -((-w) * gain / FIXED_ONE)
            }
        })
        .collect()
}

#[test]
fn square_note_renders_the_expected_samples() {
    let mut notes = piano(Wave::Square);
    notes.update_keys(&vec![z()]);
    let mut buf = vec![0i64; 96];
    notes.generate_audio(&mut buf);
    let expected = expected_square_buffer(96, note_increment(-9, RATE), 0, 0, MAX_VOLUME);
    assert_eq!(buf, expected);
}

#[test]
fn released_note_fades_from_its_old_volume() {
    let mut notes = piano(Wave::Square);
    notes.update_keys(&vec![z()]);
    let mut buf = vec![0i64; 96];
    notes.generate_audio(&mut buf);

    // Release: the note fades from MAX_VOLUME toward silence, starting
    // exactly at its previous volume and from its carried-over phase.
    notes.update_keys(&vec![]);
    let mut buf = vec![0i64; 96];
    notes.generate_audio(&mut buf);
    let inc = note_increment(-9, RATE);
    let start = 96 * inc % FULL_TURN;
    let expected = expected_square_buffer(96, inc, start, MAX_VOLUME, 0);
    assert_eq!(buf, expected);
    assert_eq!(notes.note_state_of(-9).unwrap().volume, 0);
}

#[test]
fn switching_waves_resets_phase_memory() {
    let mut notes = piano(Wave::Sine);
    notes.update_keys(&vec![z()]);
    let mut buf = vec![0i64; 64];
    notes.generate_audio(&mut buf);
    assert_ne!(notes.phase_of(-9), 0);
    notes.update_wave(Wave::Sawtooth);
    assert_eq!(notes.current_wave(), Wave::Sawtooth);
    assert_eq!(notes.phase_of(-9), 0);
    // The note state itself survives the swap.
    assert!(notes.note_state_of(-9).is_some());
}

#[test]
fn wave_kind_cycles_through_the_shapes() {
    let mut notes = piano(Wave::Sine);
    notes.update_wave(notes.current_wave().next());
    assert_eq!(notes.current_wave(), Wave::Square);
}

#[test]
fn empty_buffer_is_harmless() {
    let mut notes = piano(Wave::Sine);
    notes.update_keys(&vec![z()]);
    let mut buf: Vec<i64> = Vec::new();
    notes.generate_audio(&mut buf);
    assert!(buf.is_empty());
}

#[test]
fn unknown_keycodes_in_the_snapshot_are_ignored() {
    let mut notes = piano(Wave::Sine);
    // 255 is no keycode the piano layout maps.
    notes.update_keys(&vec![255u8, z()]);
    assert_eq!(notes.live_notes(), 1);
    assert!(notes.note_state_of(-9).is_some());
}

#[test]
fn stream_pauses_after_inactivity() {
    assert_eq!(stream_action(false, INACTIVITY_TIME_MS + 1, false), StreamAction::Pause);
    assert_eq!(stream_action(false, INACTIVITY_TIME_MS, false), StreamAction::Keep);
    assert_eq!(stream_action(false, 0, false), StreamAction::Keep);
}

#[test]
fn stream_resumes_on_a_key_press() {
    assert_eq!(stream_action(true, 99999, true), StreamAction::Play);
    assert_eq!(stream_action(true, 0, false), StreamAction::Keep);
}
