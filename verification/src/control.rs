//! The decision step of the input-polling control loop: map a snapshot of
//! pressed keys to a target frequency and retune the oscillator. When
//! several keys are held at once they are applied in order and the last one
//! wins; this is a single-voice design with no mixing.

use vstd::prelude::*;
use vstd::arithmetic::mul::lemma_mul_upper_bound;
use vstd::math::abs;
use crate::osc::WaveTableOscillator;
use crate::MAX_TABLE_LEN;

verus! {

/// The keyboard keys the control loop recognizes, laid out like a piano
/// across the home row (letter keys for the white notes, the row above for
/// the black ones). Every other key is `Other`.
#[derive(Clone, Copy, Debug, PartialEq, Eq, Structural)]
pub enum InputKey {
    KeyA,
    KeyW,
    KeyS,
    KeyD,
    KeyF,
    KeyT,
    KeyG,
    KeyY,
    KeyH,
    KeyU,
    KeyJ,
    KeyK,
    Other,
}

/// C in octave 5, as Q32.32 fixed-point Hz (about 523.25 Hz).
pub const NOTE_C5: i64 = 2247346493527;

/// C sharp in octave 5 (about 554.37 Hz).
pub const NOTE_CS5: i64 = 2380980670130;

/// D sharp in octave 5 (about 622.25 Hz).
pub const NOTE_DS5: i64 = 2672560439979;

/// E in octave 5 (about 659.26 Hz).
pub const NOTE_E5: i64 = 2831479153602;

/// F in octave 5 (about 698.46 Hz).
pub const NOTE_F5: i64 = 2999847665689;

/// F sharp in octave 5 (about 739.99 Hz).
pub const NOTE_FS5: i64 = 3178227890498;

/// G in octave 5 (about 783.99 Hz).
pub const NOTE_G5: i64 = 3367215155446;

/// G sharp in octave 5 (about 830.61 Hz).
pub const NOTE_GS5: i64 = 3567440187962;

/// A in octave 5 (880 Hz exactly).
pub const NOTE_A5: i64 = 3779571220480;

/// A sharp in octave 5 (about 932.33 Hz).
pub const NOTE_AS5: i64 = 4004316220601;

/// B in octave 5 (about 987.77 Hz).
pub const NOTE_B5: i64 = 4242425253871;

/// The concert pitch A at 440 Hz: the documented fallback frequency that
/// every unrecognized key resolves to (rather than being ignored).
pub const NOTE_A4: i64 = 1889785610240;

/// Middle C (about 261.63 Hz): the frequency the oscillator is tuned to at
/// startup, before any key has been pressed.
pub const NOTE_C4: i64 = 1123673246764;

/// The largest frequency the key mapping can produce (B in octave 5). Small
/// enough that a frequency times any table length fits in a `u64`.
pub const MAX_KEY_FREQ: i64 = 4242425253871;

/// The fixed key-to-frequency lookup, selecting octave 5. Two quirks of the
/// layout are kept deliberately: `KeyS` sounds the same C as `KeyA` (the
/// layout skips the white D key), and any unrecognized key falls back to
/// [`NOTE_A4`] instead of leaving the oscillator unchanged.
pub open spec fn key_frequency(key: InputKey) -> int {
    match key {
        InputKey::KeyA => NOTE_C5 as int,
        InputKey::KeyW => NOTE_CS5 as int,
        InputKey::KeyS => NOTE_C5 as int,
        InputKey::KeyD => NOTE_DS5 as int,
        InputKey::KeyF => NOTE_E5 as int,
        InputKey::KeyT => NOTE_F5 as int,
        InputKey::KeyG => NOTE_FS5 as int,
        InputKey::KeyY => NOTE_G5 as int,
        InputKey::KeyH => NOTE_GS5 as int,
        InputKey::KeyU => NOTE_A5 as int,
        InputKey::KeyJ => NOTE_AS5 as int,
        InputKey::KeyK => NOTE_B5 as int,
        InputKey::Other => NOTE_A4 as int,
    }
}

/// The target frequency for one pressed key, per [`key_frequency`]. Always
/// positive and at most [`MAX_KEY_FREQ`].
pub fn target_frequency(key: InputKey) -> (f: i64)
    ensures
        f == key_frequency(key),
        0 < f <= MAX_KEY_FREQ,
{
    match key {
        InputKey::KeyA => NOTE_C5,
        InputKey::KeyW => NOTE_CS5,
        InputKey::KeyS => NOTE_C5,
        InputKey::KeyD => NOTE_DS5,
        InputKey::KeyF => NOTE_E5,
        InputKey::KeyT => NOTE_F5,
        InputKey::KeyG => NOTE_FS5,
        InputKey::KeyY => NOTE_G5,
        InputKey::KeyH => NOTE_GS5,
        InputKey::KeyU => NOTE_A5,
        InputKey::KeyJ => NOTE_AS5,
        InputKey::KeyK => NOTE_B5,
        InputKey::Other => NOTE_A4,
    }
}

/// The frequency a snapshot of pressed keys resolves to: the last key's
/// target, or nothing when no key is pressed. This is the decision the
/// control loop hands to the sample-producing side each poll.
pub fn select_frequency(keys: &Vec<InputKey>) -> (r: Option<i64>)
    ensures
        r is Some <==> keys@.len() > 0,
        r matches Some(f) ==> f == key_frequency(keys@.last()) && 0 < f <= MAX_KEY_FREQ,
{
    if keys.len() == 0 {
        None
    } else {
        Some(target_frequency(keys[keys.len() - 1]))
    }
}

/// Apply a snapshot of pressed keys directly to an oscillator: each key's
/// target frequency is set in turn, so the last key wins. An empty snapshot
/// leaves the oscillator untouched; the phase is never moved by retuning.
pub fn apply_keys(osc: &mut WaveTableOscillator, keys: &Vec<InputKey>)
    ensures
        final(osc).table() == old(osc).table(),
        final(osc).rate() == old(osc).rate(),
        final(osc).phase() == old(osc).phase(),
        keys@.len() == 0 ==> final(osc).inc_mag() == old(osc).inc_mag(),
        keys@.len() == 0 ==> final(osc).inc_reversed() == old(osc).inc_reversed(),
        keys@.len() > 0 ==> final(osc).inc_mag() == (abs(key_frequency(keys@.last())) as int)
            * old(osc).table().len() / old(osc).rate(),
        keys@.len() > 0 ==> !final(osc).inc_reversed(),
{
    let n = osc.table_len();
    let mut i: usize = 0;
    while i < keys.len()
        invariant
            i <= keys@.len(),
            n == osc.table().len(),
            2 <= n <= MAX_TABLE_LEN,
            osc.table() == old(osc).table(),
            osc.rate() == old(osc).rate(),
            osc.phase() == old(osc).phase(),
            i == 0 ==> osc.inc_mag() == old(osc).inc_mag() && osc.inc_reversed() == old(
                osc).inc_reversed(),
            i > 0 ==> osc.inc_mag() == (abs(key_frequency(keys@[i - 1])) as int) * osc.table().len()
                / osc.rate() && !osc.inc_reversed(),
        decreases keys@.len() - i,
    {
        let f = target_frequency(keys[i]);
        proof {
            lemma_mul_upper_bound(
                abs(f as int) as int,
                MAX_KEY_FREQ as int,
                n as int,
                MAX_TABLE_LEN as int,
            );
        }
        osc.set_frequency(f);
        i += 1;
    }
}

} // verus!
