//! Tests for the key-to-note mapping builder.

use device_query::Keycode;
use keysynth::keymaps::{generate_maps, ConfigError, KeyMaps};
use keysynth::MidiNote;

fn entry(name: &str, note: Option<MidiNote>) -> (String, Option<MidiNote>) {
    (name.to_string(), note)
}

#[test]
fn round_trip_consistency() {
    let keymap = vec![
        entry("A", Some(60)),
        entry("C", Some(60)),
        entry("S", Some(61)),
    ];
    let (key_to_note, note_to_key) = generate_maps(&keymap).unwrap();
    assert_eq!(key_to_note.len(), 256);
    assert_eq!(note_to_key.len(), 128);
    assert_eq!(key_to_note[Keycode::A as u8 as usize], Some(60));
    assert_eq!(key_to_note[Keycode::C as u8 as usize], Some(60));
    assert_eq!(key_to_note[Keycode::S as u8 as usize], Some(61));
    assert!(note_to_key[60].contains(&(Keycode::A as u8)));
    assert!(note_to_key[60].contains(&(Keycode::C as u8)));
    assert_eq!(note_to_key[60].len(), 2);
    assert_eq!(note_to_key[61], vec![Keycode::S as u8]);
    // Rebuilding note-to-keys from key-to-note reproduces the same sets.
    for k in 0..256usize {
        if let Some(p) = key_to_note[k] {
            assert!(note_to_key[p as usize].contains(&(k as u8)));
        }
    }
    for p in 0..128usize {
        for &k in &note_to_key[p] {
            assert_eq!(key_to_note[k as usize], Some(p as MidiNote));
        }
    }
}

#[test]
fn unknown_key_name_is_rejected() {
    let keymap = vec![entry("NotAKey", Some(60))];
    assert_eq!(generate_maps(&keymap), Err(ConfigError::UnrecognizedKey));
}

#[test]
fn pitch_out_of_range_is_rejected() {
    let keymap = vec![entry("A", Some(200))];
    assert_eq!(generate_maps(&keymap), Err(ConfigError::PitchOutOfRange));
}

#[test]
fn unknown_name_takes_precedence_over_bad_pitch() {
    let keymap = vec![entry("NotAKey", Some(200))];
    assert_eq!(generate_maps(&keymap), Err(ConfigError::UnrecognizedKey));
}

#[test]
fn first_invalid_entry_decides_the_error() {
    let keymap = vec![entry("A", Some(200)), entry("NotAKey", Some(60))];
    assert_eq!(generate_maps(&keymap), Err(ConfigError::PitchOutOfRange));
}

#[test]
fn empty_configuration_builds_empty_tables() {
    let keymap = Vec::new();
    let (key_to_note, note_to_key) = generate_maps(&keymap).unwrap();
    assert!(key_to_note.iter().all(|e| e.is_none()));
    assert!(note_to_key.iter().all(|row| row.is_empty()));
}

#[test]
fn unmapped_entry_is_accepted() {
    let keymap = vec![entry("A", None)];
    let (key_to_note, note_to_key) = generate_maps(&keymap).unwrap();
    assert_eq!(key_to_note[Keycode::A as u8 as usize], None);
    assert!(note_to_key.iter().all(|row| row.is_empty()));
}

#[test]
fn later_entry_overrides_earlier() {
    let keymap = vec![entry("A", Some(60)), entry("A", Some(62))];
    let (key_to_note, note_to_key) = generate_maps(&keymap).unwrap();
    assert_eq!(key_to_note[Keycode::A as u8 as usize], Some(62));
    assert!(note_to_key[60].is_empty());
    assert_eq!(note_to_key[62], vec![Keycode::A as u8]);
}

#[test]
fn builtin_layouts_are_valid() {
    // Every key name of both embedded layouts must be recognized by the
    // input-device layer, and every pitch must be representable.
    assert!(generate_maps(&KeyMaps::Us.entries()).is_ok());
    assert!(generate_maps(&KeyMaps::Piano.entries()).is_ok());
}

#[test]
fn keycodes_come_from_the_device_layer() {
    // The builder must resolve names through the real keycode enum, not
    // through some table of its own.
    let keymap = vec![entry("Space", Some(70)), entry("Slash", Some(71))];
    let (key_to_note, _) = generate_maps(&keymap).unwrap();
    assert_eq!(key_to_note[Keycode::Space as u8 as usize], Some(70));
    assert_eq!(key_to_note[Keycode::Slash as u8 as usize], Some(71));
}

#[test]
fn us_layout_content() {
    let (key_to_note, note_to_key) = generate_maps(&KeyMaps::Us.entries()).unwrap();
    assert_eq!(key_to_note[Keycode::A as u8 as usize], Some(89));
    assert_eq!(key_to_note[Keycode::Escape as u8 as usize], Some(45));
    assert_eq!(key_to_note[Keycode::Right as u8 as usize], Some(122));
    // A chromatic scale: every pitch from 45 to 122 under exactly one key.
    for p in 0..128usize {
        let expected = if (45..=122).contains(&p) { 1 } else { 0 };
        assert_eq!(note_to_key[p].len(), expected, "pitch {p}");
    }
}

#[test]
fn piano_layout_aliases_pitches() {
    let (key_to_note, note_to_key) = generate_maps(&KeyMaps::Piano.entries()).unwrap();
    assert_eq!(key_to_note[Keycode::Z as u8 as usize], Some(60));
    assert_eq!(key_to_note[Keycode::I as u8 as usize], Some(60));
    assert!(note_to_key[60].contains(&(Keycode::Z as u8)));
    assert!(note_to_key[60].contains(&(Keycode::I as u8)));
    // The pitches shared between the two rows are each under two keys.
    for p in 60..=64usize {
        assert_eq!(note_to_key[p].len(), 2, "pitch {p}");
    }
}
