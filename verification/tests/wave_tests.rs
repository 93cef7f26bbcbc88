//! Tests for the phase accumulator and the waveform shapes.

use keysynth::wave::phase::{note_increment, Phase};
use keysynth::wave::{Generator, Wave, FULL_TURN, HALF_TURN};

const RATE: u32 = 48000;

#[test]
fn increment_of_the_reference_pitch() {
    // 440 Hz at 48 kHz advances by 440/48000 of a turn per sample.
    assert_eq!(note_increment(0, RATE), 153791);
}

#[test]
fn increment_scales_with_pitch() {
    // An octave up doubles the increment (exactly, in this fixed-point
    // decomposition); an octave down halves it.
    let base = note_increment(0, RATE);
    assert_eq!(note_increment(12, RATE), 2 * base);
    assert!((note_increment(-12, RATE) as i64 - (base / 2) as i64).abs() <= 1);
}

#[test]
fn phase_continuity_across_buffers() {
    // The phase committed at the end of buffer 1 equals next(L) mod one
    // turn, and buffer 2 starts from exactly that value.
    let mut p = Phase::new(RATE);
    p.before(0);
    let end = p.next(256);
    p.after(256);
    assert_eq!(p.stored_phase(0), end % FULL_TURN);
    assert_eq!(p.stored_phase(0), 5816064);
    p.before(0);
    assert_eq!(p.next(0), end % FULL_TURN);
}

#[test]
fn phase_clear_resets_to_zero() {
    let mut p = Phase::new(RATE);
    p.before(5);
    p.after(512);
    assert_ne!(p.stored_phase(5), 0);
    p.clear(5);
    assert_eq!(p.stored_phase(5), 0);
}

#[test]
fn phases_are_per_note() {
    let mut p = Phase::new(RATE);
    p.before(0);
    p.after(100);
    assert_ne!(p.stored_phase(0), 0);
    assert_eq!(p.stored_phase(1), 0);
}

fn expected_sine(phase: u64) -> i64 {
    let pm = phase % FULL_TURN;
    let half = |p: u64| -> i64 {
        let x = p as i64;
        let h = HALF_TURN as i64;
        4 * (x * (h - x)) * 55440 / (h * h)
    };
    if pm < HALF_TURN {
        half(pm)
    } else {
        -half(pm - HALF_TURN)
    }
}

#[test]
fn sine_follows_the_quadratic_arch() {
    let g = Wave::Sine.generator(RATE);
    let mut g = g;
    g.before(0);
    let inc = note_increment(0, RATE);
    for i in 0..500usize {
        let expected = expected_sine(i as u64 * inc);
        assert_eq!(g.next(i), expected);
        assert!(g.next(i).abs() <= 55440);
    }
    // Peak of the arch: a quarter turn gives exactly full scale.
    assert_eq!(expected_sine(FULL_TURN / 4), 55440);
    assert_eq!(expected_sine(0), 0);
    assert_eq!(expected_sine(HALF_TURN), 0);
}

#[test]
fn square_takes_three_values_matching_sine_sign() {
    let mut g = Wave::Square.generator(RATE);
    g.before(0);
    let inc = note_increment(0, RATE);
    for i in 0..2000usize {
        let v = g.next(i);
        assert!(v == 27720 || v == 0 || v == -27720);
        let s = expected_sine(i as u64 * inc);
        if s > 0 {
            assert_eq!(v, 27720);
        } else if s < 0 {
            assert_eq!(v, -27720);
        } else {
            assert_eq!(v, 0);
        }
    }
}

#[test]
fn square_concrete_values() {
    let mut g = Wave::Square.generator(RATE);
    g.before(0);
    assert_eq!(g.next(0), 0);
    assert_eq!(g.next(1), 27720);
    assert_eq!(g.next(100), -27720);
}

#[test]
fn triangle_traces_four_segments() {
    let mut g = Wave::Triangle.generator(RATE);
    g.before(0);
    // With zero stored phase the triangle starts at 0 and rises.
    assert_eq!(g.next(0), 0);
    let quarter_samples = (FULL_TURN / 4 / note_increment(0, RATE)) as usize;
    let near_peak = g.next(quarter_samples);
    assert!(near_peak > 50000, "triangle near its peak: {near_peak}");
    for i in 0..2000usize {
        assert!(g.next(i).abs() <= 55440);
    }
}

#[test]
fn sawtooth_rises_from_minus_one() {
    let mut g = Wave::Sawtooth.generator(RATE);
    g.before(0);
    // With zero stored phase the sawtooth starts at minus full scale.
    assert_eq!(g.next(0), -55440);
    for i in 0..2000usize {
        assert!(g.next(i).abs() <= 55440);
    }
}

#[test]
fn wave_cycling_order() {
    assert_eq!(Wave::Sine.next(), Wave::Square);
    assert_eq!(Wave::Square.next(), Wave::Triangle);
    assert_eq!(Wave::Triangle.next(), Wave::Sawtooth);
    assert_eq!(Wave::Sawtooth.next(), Wave::Sine);
    assert_eq!(Wave::default(), Wave::Sine);
}

#[test]
fn generator_kind_matches_wave() {
    let g = Wave::Triangle.generator(RATE);
    match g {
        Generator::Triangle(_) => {}
        _ => panic!("generator of the wrong shape"),
    }
}
