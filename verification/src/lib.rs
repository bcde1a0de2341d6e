//! A verified wavetable synthesizer core.
//!
//! The library models one voice of a wavetable oscillator in fixed-point
//! arithmetic: a periodic waveform is precomputed as a table of amplitude
//! samples, and a phase accumulator reads the table at a variable rate,
//! linearly interpolating between adjacent entries.
//!
//! Amplitudes are `i64` values measured in units of [`AMP_ONE`], so the
//! audible range `[-1.0, 1.0]` is `[-AMP_ONE, AMP_ONE]`. Phase positions and
//! frequencies are Q32.32 fixed-point values: a `u64`/`i64` measured in units
//! of [`PHASE_ONE`].

use vstd::prelude::*;

pub mod waves;
pub mod osc;
pub mod control;

verus! {

/// Amplitude scale: the fixed-point representation of `1.0`.
pub const AMP_ONE: i64 = 32768;

/// Phase scale: the fixed-point representation of one table index step
/// (`2^32`, so a phase value is a Q32.32 fixed-point number).
pub const PHASE_ONE: u64 = 4294967296;

/// Largest supported wave table length. Keeping `len * PHASE_ONE` well under
/// `u64::MAX` lets phase arithmetic stay in `u64` without overflow.
pub const MAX_TABLE_LEN: usize = 65536;

/// Linear interpolation between two amplitudes `t0` and `t1`, with the
/// fractional position `frac` given in units of [`PHASE_ONE`]:
/// `(1 - frac) * t0 + frac * t1`, rounded toward negative infinity.
pub open spec fn lerp_spec(t0: int, t1: int, frac: int) -> int {
    ((PHASE_ONE as int - frac) * t0 + frac * t1) / (PHASE_ONE as int)
}

/// An integral phase position interpolates to the table entry itself: at
/// `frac == 0` the result is exactly `t0`, with no contribution from `t1`.
pub proof fn lemma_lerp_integral(t0: int, t1: int)
    ensures
        lerp_spec(t0, t1, 0) == t0,
{
    vstd::arithmetic::div_mod::lemma_div_multiples_vanish(t0, PHASE_ONE as int);
    assert((PHASE_ONE as int - 0) * t0 + 0 * t1 == (PHASE_ONE as int) * t0);
}

} // verus!
