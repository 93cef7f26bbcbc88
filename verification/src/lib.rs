//! Core of a small keyboard synthesizer: it turns the set of currently
//! pressed keys into an additive audio signal.  Held keys sustain musical
//! tones, tones fade in and out smoothly instead of clicking on and off, and
//! simultaneous tones are mixed and amplitude-normalized.
//!
//! All signal math is done in fixed point: gains and sample amplitudes are
//! scaled by [`notes::FIXED_ONE`], and oscillator phases are stored in units
//! of 1/[`wave::FULL_TURN`] of a turn.  A thin I/O layer around this crate
//! converts samples to floating point for the audio device.

use vstd::prelude::*;

pub mod keymaps;
pub mod notes;
pub mod wave;

use crate::keymaps::KeyMaps;
use crate::wave::Wave;

verus! {

/// A MIDI note number; valid pitches are 0..=127.
pub type MidiNote = u8;

/// The program's configuration: which keymap layout to use and which
/// waveform shape to play.
#[derive(Debug, Copy, Clone, PartialEq, Eq, Structural)]
pub struct Args {
    pub keymap: KeyMaps,
    pub wave: Wave,
}

/// Control messages a UI may send to the audio loop.
#[derive(Debug, Copy, Clone, PartialEq, Eq, Structural)]
pub enum Action {
    NextWave,
}

/// If no keys are pressed for this long, the output stream should pause to
/// reduce resource usage; it resumes when keys are pressed again.
pub const INACTIVITY_TIME_MS: u64 = 5000;
/// How often the key-sampling loop should poll the input device.
pub const KEYPRESS_INTERVAL_MS: u64 = 10;

/// What the key-sampling loop should do with the output stream after a poll.
#[derive(Debug, Copy, Clone, PartialEq, Eq, Structural)]
pub enum StreamAction {
    /// Resume the paused stream.
    Play,
    /// Pause the stream after the inactivity timeout.
    Pause,
    /// Leave the stream as it is.
    Keep,
}

/// Decides, once per poll of the input device, whether the audio stream
/// should be resumed, paused, or left alone.  The stream is resumed as soon
/// as a key is held while paused, and paused once no key has been held for
/// more than [`INACTIVITY_TIME_MS`].  The caller resets its inactivity timer
/// whenever `any_keys_held` is true.
pub fn stream_action(any_keys_held: bool, elapsed_since_press_ms: u64, is_paused: bool) -> (action: StreamAction)
    ensures
        action == (if any_keys_held {
            if is_paused {
                StreamAction::Play
            } else {
                StreamAction::Keep
            }
        } else if elapsed_since_press_ms > INACTIVITY_TIME_MS {
            StreamAction::Pause
        } else {
            StreamAction::Keep
        }),
{
    if any_keys_held {
        if is_paused {
            StreamAction::Play
        } else {
            StreamAction::Keep
        }
    } else if elapsed_since_press_ms > INACTIVITY_TIME_MS {
        StreamAction::Pause
    } else {
        StreamAction::Keep
    }
}

} // verus!
