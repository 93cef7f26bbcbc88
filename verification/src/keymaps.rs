//! Key-to-note mapping tables, built once at startup from a keymap
//! configuration: a list of (physical-key-name, optional pitch) entries.

use vstd::prelude::*;

use crate::MidiNote;
use vstd::string::StringExecFns;

verus! {

/// For each physical keycode, the pitch it plays, or `None` if unmapped.
pub type KeyToNote = Vec<Option<MidiNote>>;

/// For each pitch, every physical keycode that can trigger it.
pub type NoteToKey = Vec<Vec<MidiNote>>;

/// Rejected keymap configurations: a key name that is not a recognized
/// physical key, or a pitch outside the representable range 0..=127.
#[derive(Debug, Copy, Clone, PartialEq, Eq, Structural)]
pub enum ConfigError {
    UnrecognizedKey,
    PitchOutOfRange,
}

/// The keycode a physical-key name resolves to, if the name is recognized;
/// what the input-device layer decides for a given string.
pub uninterp spec fn keycode_of(name: Seq<char>) -> Option<u8>;

/// Relies on device_query's `Keycode::from_str` for which key names are
/// recognized; the result depends on the string alone.  The keycode is the
/// discriminant of `Keycode`, a field-less enum with fewer than 256
/// variants, so it fits a byte.
#[verifier::external_body]
fn parse_keycode(name: &str) -> (r: Option<u8>)
    ensures
        r == keycode_of(name@),
{
    match <device_query::Keycode as core::str::FromStr>::from_str(name) {
        Ok(k) => Some(k as u8),
        Err(_) => None,
    }
}

/// A configuration entry is valid when its key name is recognized and its
/// pitch, if any, is representable.
pub open spec fn entry_ok(e: (String, Option<MidiNote>)) -> bool {
    &&& keycode_of(e.0@) is Some
    &&& (e.1 matches Some(p) ==> p < 128)
}

/// The error an invalid entry is reported with; an unrecognized name takes
/// precedence over a bad pitch, as the name is resolved first.
pub open spec fn error_of(e: (String, Option<MidiNote>)) -> ConfigError {
    if keycode_of(e.0@) is None {
        ConfigError::UnrecognizedKey
    } else {
        ConfigError::PitchOutOfRange
    }
}

/// What the key-to-note table holds for keycode `k` after processing the
/// entries in order: the last entry resolving to `k` wins, mapped or not.
pub open spec fn key_to_note_spec(entries: Seq<(String, Option<MidiNote>)>, k: u8) -> Option<
    MidiNote,
>
    decreases entries.len(),
{
    if entries.len() == 0 {
        None
    } else if keycode_of(entries.last().0@) == Some(k) {
        entries.last().1
    } else {
        key_to_note_spec(entries.drop_last(), k)
    }
}

/// A sequence of keycodes in strictly ascending order (hence no duplicates).
pub open spec fn ascending(row: Seq<MidiNote>) -> bool {
    forall|i: int, j: int| 0 <= i < j < row.len() ==> row[i] < row[j]
}

/// Consistency of the two lookup tables: they are sized for every keycode
/// and every pitch, each note-to-key row lists exactly the keys mapped to
/// that pitch, in ascending order, and every mapped pitch is representable.
pub open spec fn maps_consistent(k2n: Seq<Option<MidiNote>>, n2k: Seq<Seq<MidiNote>>) -> bool {
    &&& k2n.len() == 256
    &&& n2k.len() == 128
    &&& forall|k: int|
        0 <= k < 256 ==> ((#[trigger] k2n[k]) matches Some(p) ==> p < 128)
    &&& forall|p: int, j: int|
        0 <= p < 128 && 0 <= j < n2k[p].len() ==> k2n[#[trigger] n2k[p][j] as int] == Some(
            p as MidiNote,
        )
    &&& forall|k: int|
        0 <= k < 256 ==> ((#[trigger] k2n[k]) matches Some(p) ==> n2k[p as int].contains(
            k as MidiNote,
        ))
    &&& forall|p: int| 0 <= p < 128 ==> ascending(#[trigger] n2k[p])
}

/// The views of a note-to-key table's rows.
pub open spec fn rows_view(n2k: NoteToKey) -> Seq<Seq<MidiNote>> {
    n2k@.map_values(|row: Vec<MidiNote>| row@)
}

/// Every valid configuration fills the key-to-note table with representable
/// pitches only.
proof fn lemma_key_to_note_spec_valid(entries: Seq<(String, Option<MidiNote>)>, k: u8)
    requires
        forall|i: int| 0 <= i < entries.len() ==> entry_ok(#[trigger] entries[i]),
    ensures
        key_to_note_spec(entries, k) matches Some(p) ==> p < 128,
    decreases entries.len(),
{
    if entries.len() > 0 {
        assert(entry_ok(entries.last()));
        lemma_key_to_note_spec_valid(entries.drop_last(), k);
    }
}

/// Round-trip consistency of the two tables: a key maps to pitch `p` in
/// key-to-note exactly when it appears in row `p` of note-to-keys.
pub proof fn lemma_mapping_round_trip(
    k2n: Seq<Option<MidiNote>>,
    n2k: Seq<Seq<MidiNote>>,
    k: u8,
    p: MidiNote,
)
    requires
        maps_consistent(k2n, n2k),
        p < 128,
    ensures
        k2n[k as int] == Some(p) <==> n2k[p as int].contains(k),
{
    if n2k[p as int].contains(k) {
        let j = choose|j: int| 0 <= j < n2k[p as int].len() && n2k[p as int][j] == k;
        assert(k2n[n2k[p as int][j] as int] == Some(p));
    }
}

/// Builds the two lookup tables from a keymap configuration.  Fails with a
/// [`ConfigError`] exactly when some entry has an unrecognized key name or
/// an unrepresentable pitch; the error reported is that of the first such
/// entry.  On success the tables hold exactly the configured mapping, with
/// later entries overriding earlier ones, and are mutually consistent.
pub fn generate_maps(keymap: &Vec<(String, Option<MidiNote>)>) -> (r: Result<
    (KeyToNote, NoteToKey),
    ConfigError,
>)
    ensures
        match r {
            Ok(maps) => {
                &&& forall|i: int| 0 <= i < keymap@.len() ==> entry_ok(#[trigger] keymap@[i])
                &&& forall|k: u8| maps.0@[k as int] == key_to_note_spec(keymap@, k)
                &&& maps_consistent(maps.0@, rows_view(maps.1))
            },
            Err(e) => exists|i: int|
                {
                    &&& 0 <= i < keymap@.len()
                    &&& !entry_ok(#[trigger] keymap@[i])
                    &&& e == error_of(keymap@[i])
                    &&& forall|j: int| 0 <= j < i ==> entry_ok(#[trigger] keymap@[j])
                },
        },
{
    let n = keymap.len();
    let mut key_to_note: KeyToNote = vec![None; 256];
    let mut i: usize = 0;
    while i < n
        invariant
            n == keymap@.len(),
            i <= n,
            key_to_note@.len() == 256,
            forall|k: u8| key_to_note@[k as int] == key_to_note_spec(keymap@.take(i as int), k),
            forall|j: int| 0 <= j < i ==> entry_ok(#[trigger] keymap@[j]),
        decreases n - i,
    {
        let ghost prefix = keymap@.take(i as int);
        let note: Option<MidiNote> = keymap[i].1;
        match parse_keycode(keymap[i].0.as_str()) {
            None => {
                assert(!entry_ok(keymap@[i as int]));
                return Err(ConfigError::UnrecognizedKey);
            },
            Some(keycode) => {
                if let Some(p) = note {
                    if p >= 128 {
                        assert(!entry_ok(keymap@[i as int]));
                        return Err(ConfigError::PitchOutOfRange);
                    }
                }
                key_to_note[keycode as usize] = note;
                proof {
                    let next = keymap@.take(i + 1);
                    assert(next.drop_last() =~= prefix);
                    assert(next.last() == keymap@[i as int]);
                    assert(forall|k: u8|
                        key_to_note@[k as int] == key_to_note_spec(next, k));
                }
            },
        }
        i += 1;
    }
    proof {
        assert(keymap@.take(n as int) =~= keymap@);
        assert forall|k: u8| (#[trigger] key_to_note_spec(keymap@, k)) matches Some(q) ==> q
            < 128 by {
            lemma_key_to_note_spec_valid(keymap@, k);
        }
    }

    let mut note_to_key: NoteToKey = Vec::new();
    let mut p: usize = 0;
    while p < 128
        invariant
            key_to_note@.len() == 256,
            forall|k: int| 0 <= k < 256 ==> ((#[trigger] key_to_note@[k]) matches Some(q) ==> q < 128),
            note_to_key@.len() == p,
            p <= 128,
            forall|p0: int, j: int|
                0 <= p0 < p && 0 <= j < note_to_key@[p0]@.len() ==> key_to_note@[#[trigger] note_to_key@[p0]@[j] as int] == Some(p0 as MidiNote),
            forall|k: int|
                0 <= k < 256 ==> ((#[trigger] key_to_note@[k]) matches Some(q) ==> (q < p
                    ==> note_to_key@[q as int]@.contains(k as MidiNote))),
            forall|p0: int| 0 <= p0 < p ==> ascending(#[trigger] note_to_key@[p0]@),
        decreases 128 - p,
    {
        let mut row: Vec<MidiNote> = Vec::new();
        let mut k: usize = 0;
        while k < 256
            invariant
                key_to_note@.len() == 256,
                k <= 256,
                p < 128,
                forall|j: int|
                    0 <= j < row@.len() ==> key_to_note@[#[trigger] row@[j] as int] == Some(
                        p as MidiNote,
                    ),
                forall|k0: int|
                    0 <= k0 < k ==> ((#[trigger] key_to_note@[k0]) matches Some(q) ==> (q == p
                        ==> row@.contains(k0 as MidiNote))),
                forall|j: int| 0 <= j < row@.len() ==> (#[trigger] row@[j]) < k,
                ascending(row@),
            decreases 256 - k,
        {
            if let Some(q) = key_to_note[k] {
                if q as usize == p {
                    let ghost old_row = row@;
                    row.push(k as u8);
                    proof {
                        assert(row@[old_row.len() as int] == k as u8);
                        assert(row@.contains(k as u8));
                        assert forall|x: MidiNote| old_row.contains(x) implies row@.contains(
                            x,
                        ) by {
                            let j = choose|j: int| 0 <= j < old_row.len() && old_row[j] == x;
                            assert(row@[j] == x);
                        }
                    }
                }
            }
            k += 1;
        }
        note_to_key.push(row);
        p += 1;
    }
    proof {
        assert(rows_view(note_to_key).len() == 128);
        assert(forall|p0: int|
            0 <= p0 < 128 ==> (#[trigger] rows_view(note_to_key)[p0]) == note_to_key@[p0]@);
    }
    Ok((key_to_note, note_to_key))
}

/// The built-in keymap layouts.
#[derive(Debug, Copy, Clone, PartialEq, Eq, Structural)]
pub enum KeyMaps {
    Us,
    Piano,
}

impl Default for KeyMaps {
    fn default() -> (km: KeyMaps)
        ensures
            km == KeyMaps::Us,
    {
        KeyMaps::Us
    }
}

/// Entry `i` of the US layout: a chromatic scale laid across the whole
/// keyboard, one key per pitch.
pub open spec fn us_layout(i: int) -> (Seq<char>, Option<MidiNote>) {
    if i == 0 {
        ("Escape"@, Some(45u8))
    } else if i == 1 {
        ("F1"@, Some(46u8))
    } else if i == 2 {
        ("F2"@, Some(47u8))
    } else if i == 3 {
        ("F3"@, Some(48u8))
    } else if i == 4 {
        ("F4"@, Some(49u8))
    } else if i == 5 {
        ("F5"@, Some(50u8))
    } else if i == 6 {
        ("F6"@, Some(51u8))
    } else if i == 7 {
        ("F7"@, Some(52u8))
    } else if i == 8 {
        ("F8"@, Some(53u8))
    } else if i == 9 {
        ("F9"@, Some(54u8))
    } else if i == 10 {
        ("F10"@, Some(55u8))
    } else if i == 11 {
        ("F11"@, Some(56u8))
    } else if i == 12 {
        ("F12"@, Some(57u8))
    } else if i == 13 {
        ("Insert"@, Some(58u8))
    } else if i == 14 {
        ("Delete"@, Some(59u8))
    } else if i == 15 {
        ("Grave"@, Some(60u8))
    } else if i == 16 {
        ("Key1"@, Some(61u8))
    } else if i == 17 {
        ("Key2"@, Some(62u8))
    } else if i == 18 {
        ("Key3"@, Some(63u8))
    } else if i == 19 {
        ("Key4"@, Some(64u8))
    } else if i == 20 {
        ("Key5"@, Some(65u8))
    } else if i == 21 {
        ("Key6"@, Some(66u8))
    } else if i == 22 {
        ("Key7"@, Some(67u8))
    } else if i == 23 {
        ("Key8"@, Some(68u8))
    } else if i == 24 {
        ("Key9"@, Some(69u8))
    } else if i == 25 {
        ("Key0"@, Some(70u8))
    } else if i == 26 {
        ("Minus"@, Some(71u8))
    } else if i == 27 {
        ("Equal"@, Some(72u8))
    } else if i == 28 {
        ("Backspace"@, Some(73u8))
    } else if i == 29 {
        ("Tab"@, Some(74u8))
    } else if i == 30 {
        ("Q"@, Some(75u8))
    } else if i == 31 {
        ("W"@, Some(76u8))
    } else if i == 32 {
        ("E"@, Some(77u8))
    } else if i == 33 {
        ("R"@, Some(78u8))
    } else if i == 34 {
        ("T"@, Some(79u8))
    } else if i == 35 {
        ("Y"@, Some(80u8))
    } else if i == 36 {
        ("U"@, Some(81u8))
    } else if i == 37 {
        ("I"@, Some(82u8))
    } else if i == 38 {
        ("O"@, Some(83u8))
    } else if i == 39 {
        ("P"@, Some(84u8))
    } else if i == 40 {
        ("LeftBracket"@, Some(85u8))
    } else if i == 41 {
        ("RightBracket"@, Some(86u8))
    } else if i == 42 {
        ("BackSlash"@, Some(87u8))
    } else if i == 43 {
        ("CapsLock"@, Some(88u8))
    } else if i == 44 {
        ("A"@, Some(89u8))
    } else if i == 45 {
        ("S"@, Some(90u8))
    } else if i == 46 {
        ("D"@, Some(91u8))
    } else if i == 47 {
        ("F"@, Some(92u8))
    } else if i == 48 {
        ("G"@, Some(93u8))
    } else if i == 49 {
        ("H"@, Some(94u8))
    } else if i == 50 {
        ("J"@, Some(95u8))
    } else if i == 51 {
        ("K"@, Some(96u8))
    } else if i == 52 {
        ("L"@, Some(97u8))
    } else if i == 53 {
        ("Semicolon"@, Some(98u8))
    } else if i == 54 {
        ("Apostrophe"@, Some(99u8))
    } else if i == 55 {
        ("Enter"@, Some(100u8))
    } else if i == 56 {
        ("LShift"@, Some(101u8))
    } else if i == 57 {
        ("Z"@, Some(102u8))
    } else if i == 58 {
        ("X"@, Some(103u8))
    } else if i == 59 {
        ("C"@, Some(104u8))
    } else if i == 60 {
        ("V"@, Some(105u8))
    } else if i == 61 {
        ("B"@, Some(106u8))
    } else if i == 62 {
        ("N"@, Some(107u8))
    } else if i == 63 {
        ("M"@, Some(108u8))
    } else if i == 64 {
        ("Comma"@, Some(109u8))
    } else if i == 65 {
        ("Dot"@, Some(110u8))
    } else if i == 66 {
        ("Slash"@, Some(111u8))
    } else if i == 67 {
        ("RShift"@, Some(112u8))
    } else if i == 68 {
        ("LControl"@, Some(113u8))
    } else if i == 69 {
        ("LMeta"@, Some(114u8))
    } else if i == 70 {
        ("LAlt"@, Some(115u8))
    } else if i == 71 {
        ("Space"@, Some(116u8))
    } else if i == 72 {
        ("RAlt"@, Some(117u8))
    } else if i == 73 {
        ("RControl"@, Some(118u8))
    } else if i == 74 {
        ("Left"@, Some(119u8))
    } else if i == 75 {
        ("Up"@, Some(120u8))
    } else if i == 76 {
        ("Down"@, Some(121u8))
    } else {
        ("Right"@, Some(122u8))
    }
}

/// Entry `i` of the piano layout: two interleaved rows, with the pitches
/// 60..=64 each reachable from either row.
pub open spec fn piano_layout(i: int) -> (Seq<char>, Option<MidiNote>) {
    if i == 0 {
        ("Q"@, Some(48u8))
    } else if i == 1 {
        ("Key2"@, Some(49u8))
    } else if i == 2 {
        ("W"@, Some(50u8))
    } else if i == 3 {
        ("Key3"@, Some(51u8))
    } else if i == 4 {
        ("E"@, Some(52u8))
    } else if i == 5 {
        ("R"@, Some(53u8))
    } else if i == 6 {
        ("Key5"@, Some(54u8))
    } else if i == 7 {
        ("T"@, Some(55u8))
    } else if i == 8 {
        ("Key6"@, Some(56u8))
    } else if i == 9 {
        ("Y"@, Some(57u8))
    } else if i == 10 {
        ("Key7"@, Some(58u8))
    } else if i == 11 {
        ("U"@, Some(59u8))
    } else if i == 12 {
        ("I"@, Some(60u8))
    } else if i == 13 {
        ("Key9"@, Some(61u8))
    } else if i == 14 {
        ("O"@, Some(62u8))
    } else if i == 15 {
        ("Key0"@, Some(63u8))
    } else if i == 16 {
        ("P"@, Some(64u8))
    } else if i == 17 {
        ("Z"@, Some(60u8))
    } else if i == 18 {
        ("S"@, Some(61u8))
    } else if i == 19 {
        ("X"@, Some(62u8))
    } else if i == 20 {
        ("D"@, Some(63u8))
    } else if i == 21 {
        ("C"@, Some(64u8))
    } else if i == 22 {
        ("V"@, Some(65u8))
    } else if i == 23 {
        ("G"@, Some(66u8))
    } else if i == 24 {
        ("B"@, Some(67u8))
    } else if i == 25 {
        ("H"@, Some(68u8))
    } else if i == 26 {
        ("N"@, Some(69u8))
    } else if i == 27 {
        ("J"@, Some(70u8))
    } else if i == 28 {
        ("M"@, Some(71u8))
    } else if i == 29 {
        ("Comma"@, Some(72u8))
    } else if i == 30 {
        ("L"@, Some(73u8))
    } else if i == 31 {
        ("Dot"@, Some(74u8))
    } else if i == 32 {
        ("Semicolon"@, Some(75u8))
    } else {
        ("Slash"@, Some(76u8))
    }
}

/// The name/pitch table of a built-in layout, as spec-level values.
pub open spec fn layout_spec(km: KeyMaps) -> Seq<(Seq<char>, Option<MidiNote>)> {
    match km {
        KeyMaps::Us => Seq::new(78nat, |i: int| us_layout(i)),
        KeyMaps::Piano => Seq::new(34nat, |i: int| piano_layout(i)),
    }
}

/// An executable configuration carries exactly the entries of a spec-level
/// table: same length, same key names, same pitches, in the same order.
pub open spec fn entries_match(
    entries: Seq<(String, Option<MidiNote>)>,
    table: Seq<(Seq<char>, Option<MidiNote>)>,
) -> bool {
    &&& entries.len() == table.len()
    &&& forall|i: int|
        0 <= i < entries.len() ==> (#[trigger] entries[i]).0@ == table[i].0 && entries[i].1
            == table[i].1
}

/// Every name of a layout table resolves to a keycode.
pub open spec fn table_resolves(table: Seq<(Seq<char>, Option<MidiNote>)>) -> bool {
    forall|i: int| 0 <= i < table.len() ==> keycode_of((#[trigger] table[i]).0) is Some
}

/// What the key-to-note table holds for keycode `k` after processing a
/// spec-level layout table in order: the last entry resolving to `k` wins.
pub open spec fn key_to_note_of(table: Seq<(Seq<char>, Option<MidiNote>)>, k: u8) -> Option<
    MidiNote,
>
    decreases table.len(),
{
    if table.len() == 0 {
        None
    } else if keycode_of(table.last().0) == Some(k) {
        table.last().1
    } else {
        key_to_note_of(table.drop_last(), k)
    }
}

/// Every pitch of both built-in layouts is representable.
pub proof fn lemma_layout_pitches(km: KeyMaps)
    ensures
        forall|i: int|
            0 <= i < layout_spec(km).len() ==> ((#[trigger] layout_spec(km)[i]).1 matches Some(p)
                ==> p < 128),
{
}

/// A configuration that matches a layout table builds the same key-to-note
/// entries as the table itself.
pub proof fn lemma_match_key_to_note(
    entries: Seq<(String, Option<MidiNote>)>,
    table: Seq<(Seq<char>, Option<MidiNote>)>,
    k: u8,
)
    requires
        entries_match(entries, table),
    ensures
        key_to_note_spec(entries, k) == key_to_note_of(table, k),
    decreases entries.len(),
{
    if entries.len() > 0 {
        assert(entries[entries.len() - 1].0@ == table[entries.len() - 1].0 && entries[entries.len()
            - 1].1 == table[entries.len() - 1].1);
        assert(entries_match(entries.drop_last(), table.drop_last())) by {
            assert forall|i: int| 0 <= i < entries.drop_last().len() implies ((#[trigger] entries.drop_last()[i]).0@
                == table.drop_last()[i].0 && entries.drop_last()[i].1 == table.drop_last()[i].1) by {
                assert(entries.drop_last()[i] == entries[i]);
                assert(table.drop_last()[i] == table[i]);
            }
        }
        lemma_match_key_to_note(entries.drop_last(), table.drop_last(), k);
    }
}

/// Appends one mapped entry to a keymap configuration.
fn put(entries: &mut Vec<(String, Option<MidiNote>)>, name: &str, note: MidiNote)
    ensures
        final(entries)@.len() == old(entries)@.len() + 1,
        forall|i: int|
            0 <= i < old(entries)@.len() ==> #[trigger] final(entries)@[i] == old(entries)@[i],
        final(entries)@.last().0@ == name@,
        final(entries)@.last().1 == Some(note),
{
    entries.push((String::from_str(name), Some(note)));
}

#[verifier::rlimit(100)]
fn us_entries() -> (r: Vec<(String, Option<MidiNote>)>)
    ensures
        entries_match(r@, layout_spec(KeyMaps::Us)),
{
    let mut entries: Vec<(String, Option<MidiNote>)> = Vec::new();
    put(&mut entries, "Escape", 45);
    proof {
        assert(entries_match(entries@, layout_spec(KeyMaps::Us).take(1)));
    }
    put(&mut entries, "F1", 46);
    proof {
        assert(entries_match(entries@, layout_spec(KeyMaps::Us).take(2)));
    }
    put(&mut entries, "F2", 47);
    proof {
        assert(entries_match(entries@, layout_spec(KeyMaps::Us).take(3)));
    }
    put(&mut entries, "F3", 48);
    proof {
        assert(entries_match(entries@, layout_spec(KeyMaps::Us).take(4)));
    }
    put(&mut entries, "F4", 49);
    proof {
        assert(entries_match(entries@, layout_spec(KeyMaps::Us).take(5)));
    }
    put(&mut entries, "F5", 50);
    proof {
        assert(entries_match(entries@, layout_spec(KeyMaps::Us).take(6)));
    }
    put(&mut entries, "F6", 51);
    proof {
        assert(entries_match(entries@, layout_spec(KeyMaps::Us).take(7)));
    }
    put(&mut entries, "F7", 52);
    proof {
        assert(entries_match(entries@, layout_spec(KeyMaps::Us).take(8)));
    }
    put(&mut entries, "F8", 53);
    proof {
        assert(entries_match(entries@, layout_spec(KeyMaps::Us).take(9)));
    }
    put(&mut entries, "F9", 54);
    proof {
        assert(entries_match(entries@, layout_spec(KeyMaps::Us).take(10)));
    }
    put(&mut entries, "F10", 55);
    proof {
        assert(entries_match(entries@, layout_spec(KeyMaps::Us).take(11)));
    }
    put(&mut entries, "F11", 56);
    proof {
        assert(entries_match(entries@, layout_spec(KeyMaps::Us).take(12)));
    }
    put(&mut entries, "F12", 57);
    proof {
        assert(entries_match(entries@, layout_spec(KeyMaps::Us).take(13)));
    }
    put(&mut entries, "Insert", 58);
    proof {
        assert(entries_match(entries@, layout_spec(KeyMaps::Us).take(14)));
    }
    put(&mut entries, "Delete", 59);
    proof {
        assert(entries_match(entries@, layout_spec(KeyMaps::Us).take(15)));
    }
    put(&mut entries, "Grave", 60);
    proof {
        assert(entries_match(entries@, layout_spec(KeyMaps::Us).take(16)));
    }
    put(&mut entries, "Key1", 61);
    proof {
        assert(entries_match(entries@, layout_spec(KeyMaps::Us).take(17)));
    }
    put(&mut entries, "Key2", 62);
    proof {
        assert(entries_match(entries@, layout_spec(KeyMaps::Us).take(18)));
    }
    put(&mut entries, "Key3", 63);
    proof {
        assert(entries_match(entries@, layout_spec(KeyMaps::Us).take(19)));
    }
    put(&mut entries, "Key4", 64);
    proof {
        assert(entries_match(entries@, layout_spec(KeyMaps::Us).take(20)));
    }
    put(&mut entries, "Key5", 65);
    proof {
        assert(entries_match(entries@, layout_spec(KeyMaps::Us).take(21)));
    }
    put(&mut entries, "Key6", 66);
    proof {
        assert(entries_match(entries@, layout_spec(KeyMaps::Us).take(22)));
    }
    put(&mut entries, "Key7", 67);
    proof {
        assert(entries_match(entries@, layout_spec(KeyMaps::Us).take(23)));
    }
    put(&mut entries, "Key8", 68);
    proof {
        assert(entries_match(entries@, layout_spec(KeyMaps::Us).take(24)));
    }
    put(&mut entries, "Key9", 69);
    proof {
        assert(entries_match(entries@, layout_spec(KeyMaps::Us).take(25)));
    }
    put(&mut entries, "Key0", 70);
    proof {
        assert(entries_match(entries@, layout_spec(KeyMaps::Us).take(26)));
    }
    put(&mut entries, "Minus", 71);
    proof {
        assert(entries_match(entries@, layout_spec(KeyMaps::Us).take(27)));
    }
    put(&mut entries, "Equal", 72);
    proof {
        assert(entries_match(entries@, layout_spec(KeyMaps::Us).take(28)));
    }
    put(&mut entries, "Backspace", 73);
    proof {
        assert(entries_match(entries@, layout_spec(KeyMaps::Us).take(29)));
    }
    put(&mut entries, "Tab", 74);
    proof {
        assert(entries_match(entries@, layout_spec(KeyMaps::Us).take(30)));
    }
    put(&mut entries, "Q", 75);
    proof {
        assert(entries_match(entries@, layout_spec(KeyMaps::Us).take(31)));
    }
    put(&mut entries, "W", 76);
    proof {
        assert(entries_match(entries@, layout_spec(KeyMaps::Us).take(32)));
    }
    put(&mut entries, "E", 77);
    proof {
        assert(entries_match(entries@, layout_spec(KeyMaps::Us).take(33)));
    }
    put(&mut entries, "R", 78);
    proof {
        assert(entries_match(entries@, layout_spec(KeyMaps::Us).take(34)));
    }
    put(&mut entries, "T", 79);
    proof {
        assert(entries_match(entries@, layout_spec(KeyMaps::Us).take(35)));
    }
    put(&mut entries, "Y", 80);
    proof {
        assert(entries_match(entries@, layout_spec(KeyMaps::Us).take(36)));
    }
    put(&mut entries, "U", 81);
    proof {
        assert(entries_match(entries@, layout_spec(KeyMaps::Us).take(37)));
    }
    put(&mut entries, "I", 82);
    proof {
        assert(entries_match(entries@, layout_spec(KeyMaps::Us).take(38)));
    }
    put(&mut entries, "O", 83);
    proof {
        assert(entries_match(entries@, layout_spec(KeyMaps::Us).take(39)));
    }
    put(&mut entries, "P", 84);
    proof {
        assert(entries_match(entries@, layout_spec(KeyMaps::Us).take(40)));
    }
    put(&mut entries, "LeftBracket", 85);
    proof {
        assert(entries_match(entries@, layout_spec(KeyMaps::Us).take(41)));
    }
    put(&mut entries, "RightBracket", 86);
    proof {
        assert(entries_match(entries@, layout_spec(KeyMaps::Us).take(42)));
    }
    put(&mut entries, "BackSlash", 87);
    proof {
        assert(entries_match(entries@, layout_spec(KeyMaps::Us).take(43)));
    }
    put(&mut entries, "CapsLock", 88);
    proof {
        assert(entries_match(entries@, layout_spec(KeyMaps::Us).take(44)));
    }
    put(&mut entries, "A", 89);
    proof {
        assert(entries_match(entries@, layout_spec(KeyMaps::Us).take(45)));
    }
    put(&mut entries, "S", 90);
    proof {
        assert(entries_match(entries@, layout_spec(KeyMaps::Us).take(46)));
    }
    put(&mut entries, "D", 91);
    proof {
        assert(entries_match(entries@, layout_spec(KeyMaps::Us).take(47)));
    }
    put(&mut entries, "F", 92);
    proof {
        assert(entries_match(entries@, layout_spec(KeyMaps::Us).take(48)));
    }
    put(&mut entries, "G", 93);
    proof {
        assert(entries_match(entries@, layout_spec(KeyMaps::Us).take(49)));
    }
    put(&mut entries, "H", 94);
    proof {
        assert(entries_match(entries@, layout_spec(KeyMaps::Us).take(50)));
    }
    put(&mut entries, "J", 95);
    proof {
        assert(entries_match(entries@, layout_spec(KeyMaps::Us).take(51)));
    }
    put(&mut entries, "K", 96);
    proof {
        assert(entries_match(entries@, layout_spec(KeyMaps::Us).take(52)));
    }
    put(&mut entries, "L", 97);
    proof {
        assert(entries_match(entries@, layout_spec(KeyMaps::Us).take(53)));
    }
    put(&mut entries, "Semicolon", 98);
    proof {
        assert(entries_match(entries@, layout_spec(KeyMaps::Us).take(54)));
    }
    put(&mut entries, "Apostrophe", 99);
    proof {
        assert(entries_match(entries@, layout_spec(KeyMaps::Us).take(55)));
    }
    put(&mut entries, "Enter", 100);
    proof {
        assert(entries_match(entries@, layout_spec(KeyMaps::Us).take(56)));
    }
    put(&mut entries, "LShift", 101);
    proof {
        assert(entries_match(entries@, layout_spec(KeyMaps::Us).take(57)));
    }
    put(&mut entries, "Z", 102);
    proof {
        assert(entries_match(entries@, layout_spec(KeyMaps::Us).take(58)));
    }
    put(&mut entries, "X", 103);
    proof {
        assert(entries_match(entries@, layout_spec(KeyMaps::Us).take(59)));
    }
    put(&mut entries, "C", 104);
    proof {
        assert(entries_match(entries@, layout_spec(KeyMaps::Us).take(60)));
    }
    put(&mut entries, "V", 105);
    proof {
        assert(entries_match(entries@, layout_spec(KeyMaps::Us).take(61)));
    }
    put(&mut entries, "B", 106);
    proof {
        assert(entries_match(entries@, layout_spec(KeyMaps::Us).take(62)));
    }
    put(&mut entries, "N", 107);
    proof {
        assert(entries_match(entries@, layout_spec(KeyMaps::Us).take(63)));
    }
    put(&mut entries, "M", 108);
    proof {
        assert(entries_match(entries@, layout_spec(KeyMaps::Us).take(64)));
    }
    put(&mut entries, "Comma", 109);
    proof {
        assert(entries_match(entries@, layout_spec(KeyMaps::Us).take(65)));
    }
    put(&mut entries, "Dot", 110);
    proof {
        assert(entries_match(entries@, layout_spec(KeyMaps::Us).take(66)));
    }
    put(&mut entries, "Slash", 111);
    proof {
        assert(entries_match(entries@, layout_spec(KeyMaps::Us).take(67)));
    }
    put(&mut entries, "RShift", 112);
    proof {
        assert(entries_match(entries@, layout_spec(KeyMaps::Us).take(68)));
    }
    put(&mut entries, "LControl", 113);
    proof {
        assert(entries_match(entries@, layout_spec(KeyMaps::Us).take(69)));
    }
    put(&mut entries, "LMeta", 114);
    proof {
        assert(entries_match(entries@, layout_spec(KeyMaps::Us).take(70)));
    }
    put(&mut entries, "LAlt", 115);
    proof {
        assert(entries_match(entries@, layout_spec(KeyMaps::Us).take(71)));
    }
    put(&mut entries, "Space", 116);
    proof {
        assert(entries_match(entries@, layout_spec(KeyMaps::Us).take(72)));
    }
    put(&mut entries, "RAlt", 117);
    proof {
        assert(entries_match(entries@, layout_spec(KeyMaps::Us).take(73)));
    }
    put(&mut entries, "RControl", 118);
    proof {
        assert(entries_match(entries@, layout_spec(KeyMaps::Us).take(74)));
    }
    put(&mut entries, "Left", 119);
    proof {
        assert(entries_match(entries@, layout_spec(KeyMaps::Us).take(75)));
    }
    put(&mut entries, "Up", 120);
    proof {
        assert(entries_match(entries@, layout_spec(KeyMaps::Us).take(76)));
    }
    put(&mut entries, "Down", 121);
    proof {
        assert(entries_match(entries@, layout_spec(KeyMaps::Us).take(77)));
    }
    put(&mut entries, "Right", 122);
    proof {
        assert(entries_match(entries@, layout_spec(KeyMaps::Us).take(78)));
    }
    proof {
        assert(layout_spec(KeyMaps::Us).take(78) =~= layout_spec(KeyMaps::Us));
    }
    entries
}


fn piano_entries() -> (r: Vec<(String, Option<MidiNote>)>)
    ensures
        entries_match(r@, layout_spec(KeyMaps::Piano)),
{
    let mut entries: Vec<(String, Option<MidiNote>)> = Vec::new();
    put(&mut entries, "Q", 48);
    proof {
        assert(entries_match(entries@, layout_spec(KeyMaps::Piano).take(1)));
    }
    put(&mut entries, "Key2", 49);
    proof {
        assert(entries_match(entries@, layout_spec(KeyMaps::Piano).take(2)));
    }
    put(&mut entries, "W", 50);
    proof {
        assert(entries_match(entries@, layout_spec(KeyMaps::Piano).take(3)));
    }
    put(&mut entries, "Key3", 51);
    proof {
        assert(entries_match(entries@, layout_spec(KeyMaps::Piano).take(4)));
    }
    put(&mut entries, "E", 52);
    proof {
        assert(entries_match(entries@, layout_spec(KeyMaps::Piano).take(5)));
    }
    put(&mut entries, "R", 53);
    proof {
        assert(entries_match(entries@, layout_spec(KeyMaps::Piano).take(6)));
    }
    put(&mut entries, "Key5", 54);
    proof {
        assert(entries_match(entries@, layout_spec(KeyMaps::Piano).take(7)));
    }
    put(&mut entries, "T", 55);
    proof {
        assert(entries_match(entries@, layout_spec(KeyMaps::Piano).take(8)));
    }
    put(&mut entries, "Key6", 56);
    proof {
        assert(entries_match(entries@, layout_spec(KeyMaps::Piano).take(9)));
    }
    put(&mut entries, "Y", 57);
    proof {
        assert(entries_match(entries@, layout_spec(KeyMaps::Piano).take(10)));
    }
    put(&mut entries, "Key7", 58);
    proof {
        assert(entries_match(entries@, layout_spec(KeyMaps::Piano).take(11)));
    }
    put(&mut entries, "U", 59);
    proof {
        assert(entries_match(entries@, layout_spec(KeyMaps::Piano).take(12)));
    }
    put(&mut entries, "I", 60);
    proof {
        assert(entries_match(entries@, layout_spec(KeyMaps::Piano).take(13)));
    }
    put(&mut entries, "Key9", 61);
    proof {
        assert(entries_match(entries@, layout_spec(KeyMaps::Piano).take(14)));
    }
    put(&mut entries, "O", 62);
    proof {
        assert(entries_match(entries@, layout_spec(KeyMaps::Piano).take(15)));
    }
    put(&mut entries, "Key0", 63);
    proof {
        assert(entries_match(entries@, layout_spec(KeyMaps::Piano).take(16)));
    }
    put(&mut entries, "P", 64);
    proof {
        assert(entries_match(entries@, layout_spec(KeyMaps::Piano).take(17)));
    }
    put(&mut entries, "Z", 60);
    proof {
        assert(entries_match(entries@, layout_spec(KeyMaps::Piano).take(18)));
    }
    put(&mut entries, "S", 61);
    proof {
        assert(entries_match(entries@, layout_spec(KeyMaps::Piano).take(19)));
    }
    put(&mut entries, "X", 62);
    proof {
        assert(entries_match(entries@, layout_spec(KeyMaps::Piano).take(20)));
    }
    put(&mut entries, "D", 63);
    proof {
        assert(entries_match(entries@, layout_spec(KeyMaps::Piano).take(21)));
    }
    put(&mut entries, "C", 64);
    proof {
        assert(entries_match(entries@, layout_spec(KeyMaps::Piano).take(22)));
    }
    put(&mut entries, "V", 65);
    proof {
        assert(entries_match(entries@, layout_spec(KeyMaps::Piano).take(23)));
    }
    put(&mut entries, "G", 66);
    proof {
        assert(entries_match(entries@, layout_spec(KeyMaps::Piano).take(24)));
    }
    put(&mut entries, "B", 67);
    proof {
        assert(entries_match(entries@, layout_spec(KeyMaps::Piano).take(25)));
    }
    put(&mut entries, "H", 68);
    proof {
        assert(entries_match(entries@, layout_spec(KeyMaps::Piano).take(26)));
    }
    put(&mut entries, "N", 69);
    proof {
        assert(entries_match(entries@, layout_spec(KeyMaps::Piano).take(27)));
    }
    put(&mut entries, "J", 70);
    proof {
        assert(entries_match(entries@, layout_spec(KeyMaps::Piano).take(28)));
    }
    put(&mut entries, "M", 71);
    proof {
        assert(entries_match(entries@, layout_spec(KeyMaps::Piano).take(29)));
    }
    put(&mut entries, "Comma", 72);
    proof {
        assert(entries_match(entries@, layout_spec(KeyMaps::Piano).take(30)));
    }
    put(&mut entries, "L", 73);
    proof {
        assert(entries_match(entries@, layout_spec(KeyMaps::Piano).take(31)));
    }
    put(&mut entries, "Dot", 74);
    proof {
        assert(entries_match(entries@, layout_spec(KeyMaps::Piano).take(32)));
    }
    put(&mut entries, "Semicolon", 75);
    proof {
        assert(entries_match(entries@, layout_spec(KeyMaps::Piano).take(33)));
    }
    put(&mut entries, "Slash", 76);
    proof {
        assert(entries_match(entries@, layout_spec(KeyMaps::Piano).take(34)));
    }
    proof {
        assert(layout_spec(KeyMaps::Piano).take(34) =~= layout_spec(KeyMaps::Piano));
    }
    entries
}


impl KeyMaps {
    /// The key-name to pitch entries of this layout: exactly the entries
    /// of [`layout_spec`], as executable values.
    pub fn entries(&self) -> (r: Vec<(String, Option<MidiNote>)>)
        ensures
            entries_match(r@, layout_spec(*self)),
    {
        match self {
            KeyMaps::Us => us_entries(),
            KeyMaps::Piano => piano_entries(),
        }
    }
}

} // verus!
