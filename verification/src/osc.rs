//! The oscillator: a wave table and a phase accumulator. Each tick returns
//! the linearly interpolated sample at the current phase, then advances the
//! phase by a frequency-derived increment, wrapped back into the table.

use vstd::prelude::*;
use vstd::arithmetic::div_mod::{
    lemma_add_mod_noop_right, lemma_div_is_ordered, lemma_div_multiples_vanish,
    lemma_div_pos_is_pos, lemma_hoist_over_denominator, lemma_mod_add_multiples_vanish,
    lemma_mod_bound, lemma_multiply_divide_lt, lemma_small_mod, lemma_sub_mod_noop_right,
};
use vstd::arithmetic::mul::{lemma_mul_inequality, lemma_mul_is_commutative};
use vstd::math::abs;
use crate::waves::{wf_table, SynthError, WaveTable};
use crate::{lerp_spec, AMP_ONE, PHASE_ONE};

verus! {

/// The phase position after one tick: `idx` advanced by the signed increment
/// `inc` and reduced (Euclidean) into `[0, span)`, where `span` is the table
/// length in phase units.
pub open spec fn wrap_step(idx: int, inc: int, span: int) -> int {
    (idx + inc) % span
}

/// The interpolated sample of `table` at phase `idx` (in units of
/// [`PHASE_ONE`]): linear interpolation between the entry at `floor(idx)`
/// and its cyclic successor.
pub open spec fn table_sample(table: Seq<i64>, idx: int) -> int {
    let i0 = idx / (PHASE_ONE as int);
    let frac = idx % (PHASE_ONE as int);
    let i1 = (i0 + 1) % (table.len() as int);
    lerp_spec(table[i0] as int, table[i1] as int, frac)
}

/// A single-voice wavetable oscillator. The wave table is installed at
/// construction and never mutated; the phase `idx` and the increment
/// `idx_inc` change as samples are pulled and the frequency is retuned.
pub struct WaveTableOscillator {
    sample_rate: u32,
    wave_table: WaveTable,
    idx: u64,
    idx_inc_mag: u64,
    idx_inc_neg: bool,
}

impl WaveTableOscillator {
    /// The installed wave table.
    pub closed spec fn table(&self) -> Seq<i64> {
        self.wave_table@
    }

    /// Samples produced per second of output.
    pub closed spec fn rate(&self) -> int {
        self.sample_rate as int
    }

    /// The current phase position, in units of [`PHASE_ONE`].
    pub closed spec fn phase(&self) -> int {
        self.idx as int
    }

    /// The magnitude of the per-tick phase advance, in units of
    /// [`PHASE_ONE`].
    pub closed spec fn inc_mag(&self) -> int {
        self.idx_inc_mag as int
    }

    /// Whether playback currently runs backwards (negative frequency).
    pub closed spec fn inc_reversed(&self) -> bool {
        self.idx_inc_neg
    }

    /// The signed per-tick phase advance.
    pub open spec fn inc(&self) -> int {
        if self.inc_reversed() {
            -self.inc_mag()
        } else {
            self.inc_mag()
        }
    }

    /// One full period in phase units: table length times [`PHASE_ONE`].
    pub open spec fn span(&self) -> int {
        self.table().len() * (PHASE_ONE as int)
    }

    #[verifier::type_invariant]
    spec fn inv(&self) -> bool {
        &&& wf_table(self.wave_table@)
        &&& self.sample_rate >= 1
        &&& 0 <= self.phase() < self.span()
    }

    /// Construct an oscillator over `wave_table`, silent (zero increment)
    /// and at phase zero until a frequency is set. A zero sample rate is
    /// rejected: it would divide by zero when frequencies are converted to
    /// increments.
    pub fn new(sample_rate: u32, wave_table: WaveTable) -> (r: Result<
        WaveTableOscillator,
        SynthError,
    >)
        ensures
            r is Ok <==> sample_rate > 0,
            r matches Ok(o) ==> {
                &&& o.table() == wave_table@
                &&& o.rate() == sample_rate
                &&& o.phase() == 0
                &&& o.inc() == 0
                &&& !o.inc_reversed()
            },
            r is Err ==> (r matches Err(e) && e == SynthError::ZeroSampleRate),
    {
        if sample_rate == 0 {
            return Err(SynthError::ZeroSampleRate);
        }
        let n = wave_table.len();
        proof {
            lemma_mul_inequality(2, n as int, PHASE_ONE as int);
        }
        Ok(
            WaveTableOscillator {
                sample_rate,
                wave_table,
                idx: 0,
                idx_inc_mag: 0,
                idx_inc_neg: false,
            },
        )
    }

    /// The length of the installed wave table.
    pub fn table_len(&self) -> (n: usize)
        ensures
            n == self.table().len(),
            2 <= n <= crate::MAX_TABLE_LEN,
    {
        proof {
            use_type_invariant(self);
        }
        self.wave_table.len()
    }

    /// Retune the oscillator: recompute the phase increment as
    /// `frequency * table_len / sample_rate`, all in Q32.32 fixed point.
    /// Takes effect on the next sample; a negative frequency reverses the
    /// playback direction, and zero freezes the phase.
    pub fn set_frequency(&mut self, frequency: i64)
        requires
            abs(frequency as int) * old(self).table().len() <= u64::MAX,
        ensures
            final(self).inc_mag() == (abs(frequency as int) * old(self).table().len()) as int
                / old(self).rate(),
            final(self).inc_reversed() == (frequency < 0),
            final(self).phase() == old(self).phase(),
            final(self).table() == old(self).table(),
            final(self).rate() == old(self).rate(),
    {
        proof {
            use_type_invariant(&*self);
            if frequency == i64::MIN {
                lemma_mul_inequality(2, old(self).table().len() as int, abs(frequency as int) as int);
                lemma_mul_is_commutative(old(self).table().len() as int, abs(frequency as int) as int);
            }
        }
        let mag: u64 = if frequency < 0 {
            (-frequency) as u64
        } else {
            frequency as u64
        };
        let n: usize = self.wave_table.len();
        let scaled: u64 = mag * (n as u64);
        self.idx_inc_mag = scaled / (self.sample_rate as u64);
        self.idx_inc_neg = frequency < 0;
    }

    /// Pull one sample: return the interpolated value at the current phase,
    /// then advance the phase by the signed increment, wrapped back into
    /// `[0, span)`. This is the only operation that moves the phase.
    pub fn get_sample(&mut self) -> (s: i64)
        ensures
            s == table_sample(old(self).table(), old(self).phase()),
            -AMP_ONE <= s <= AMP_ONE,
            final(self).phase() == wrap_step(old(self).phase(), old(self).inc(), old(self).span()),
            0 <= final(self).phase() < final(self).span(),
            final(self).table() == old(self).table(),
            final(self).rate() == old(self).rate(),
            final(self).inc_mag() == old(self).inc_mag(),
            final(self).inc_reversed() == old(self).inc_reversed(),
    {
        proof {
            use_type_invariant(&*self);
        }
        let s = self.lerp();
        let n: usize = self.wave_table.len();
        let span: u64 = (n as u64) * PHASE_ONE;
        proof {
            lemma_mul_inequality(2, n as int, PHASE_ONE as int);
        }
        let step: u64 = self.idx_inc_mag % span;
        let ghost idx0 = self.phase();
        let ghost mag = self.inc_mag();
        if self.idx_inc_neg {
            self.idx = (self.idx + (span - step)) % span;
            proof {
                lemma_mod_add_multiples_vanish(idx0 - step, span as int);
                lemma_sub_mod_noop_right(idx0, mag, span as int);
            }
        } else {
            self.idx = (self.idx + step) % span;
            proof {
                lemma_add_mod_noop_right(idx0, mag, span as int);
            }
        }
        s
    }

    /// The interpolated sample at the current phase. `i0` is the phase's
    /// integer part, `i1` its cyclic successor, and the fractional part
    /// weights the two table entries.
    fn lerp(&self) -> (s: i64)
        ensures
            s == table_sample(self.table(), self.phase()),
            -AMP_ONE <= s <= AMP_ONE,
    {
        proof {
            use_type_invariant(self);
            lemma_mul_is_commutative(self.table().len() as int, PHASE_ONE as int);
            lemma_multiply_divide_lt(self.phase(), PHASE_ONE as int, self.table().len() as int);
            lemma_div_pos_is_pos(self.phase(), PHASE_ONE as int);
            lemma_mod_bound(self.phase(), PHASE_ONE as int);
        }
        let i0: usize = (self.idx / PHASE_ONE) as usize;
        let frac: u64 = self.idx % PHASE_ONE;
        let n: usize = self.wave_table.len();
        let i1: usize = (i0 + 1) % n;
        let t0: i64 = self.wave_table.sample(i0);
        let t1: i64 = self.wave_table.sample(i1);
        let u0: u64 = (t0 + AMP_ONE) as u64;
        let u1: u64 = (t1 + AMP_ONE) as u64;
        proof {
            lemma_lerp_num_bound(t0 as int, t1 as int, frac as int);
        }
        let num: u64 = (PHASE_ONE - frac) * u0 + frac * u1;
        let q: u64 = num / PHASE_ONE;
        proof {
            let p = PHASE_ONE as int;
            let lerpnum = (p - frac) * (t0 as int) + (frac as int) * (t1 as int);
            lemma_hoist_over_denominator(lerpnum, AMP_ONE as int, PHASE_ONE as nat);
            lemma_div_is_ordered(num as int, 2 * AMP_ONE * p, p);
            lemma_div_multiples_vanish(2 * AMP_ONE, p);
            lemma_mul_is_commutative(p, 2 * AMP_ONE);
            lemma_div_pos_is_pos(num as int, p);
        }
        (q as i64) - AMP_ONE
    }

    /// Stream metadata for a playback sink: a single (monophonic) channel.
    pub fn channels(&self) -> (c: u16)
        ensures
            c == 1,
    {
        1
    }

    /// Stream metadata for a playback sink: the fixed output sample rate.
    pub fn sample_rate(&self) -> (r: u32)
        ensures
            r as int == self.rate(),
            r >= 1,
    {
        proof {
            use_type_invariant(self);
        }
        self.sample_rate
    }

    /// Stream metadata for a playback sink: the stream never signals an end
    /// of data on its own, so there is no current frame length.
    pub fn current_frame_len(&self) -> (r: Option<usize>)
        ensures
            r is None,
    {
        None
    }
}

/// At an exactly integral phase the interpolation degenerates to the table
/// entry itself: the successor entry contributes nothing, whatever it holds.
pub proof fn lemma_integral_phase_reads_entry(table: Seq<i64>, idx: int)
    requires
        0 <= idx,
        idx % (PHASE_ONE as int) == 0,
    ensures
        table_sample(table, idx) == table[idx / (PHASE_ONE as int)],
{
    let i0 = idx / (PHASE_ONE as int);
    let i1 = (i0 + 1) % (table.len() as int);
    crate::lemma_lerp_integral(table[i0] as int, table[i1] as int);
}

/// The phase position after `k` ticks, starting from `idx` and advancing by
/// the signed increment `inc` each tick, wrapped into `[0, span)`.
pub open spec fn phase_after(idx: int, inc: int, span: int, k: nat) -> int
    decreases k,
{
    if k == 0 {
        idx
    } else {
        wrap_step(phase_after(idx, inc, span, (k - 1) as nat), inc, span)
    }
}

/// For any increment, positive, negative or larger than a full period, the
/// phase stays within `[0, span)` after every tick.
pub proof fn lemma_phase_always_in_range(idx: int, inc: int, span: int, k: nat)
    requires
        0 < span,
        0 <= idx < span,
    ensures
        0 <= phase_after(idx, inc, span, k) < span,
    decreases k,
{
    if k > 0 {
        lemma_phase_always_in_range(idx, inc, span, (k - 1) as nat);
        lemma_mod_bound(phase_after(idx, inc, span, (k - 1) as nat) + inc, span);
    }
}

/// A zero increment freezes the phase: after any number of ticks it is
/// still where it started.
pub proof fn lemma_zero_increment_freezes(idx: int, span: int, k: nat)
    requires
        0 < span,
        0 <= idx < span,
    ensures
        phase_after(idx, 0, span, k) == idx,
    decreases k,
{
    if k > 0 {
        lemma_zero_increment_freezes(idx, span, (k - 1) as nat);
        lemma_small_mod(idx as nat, span as nat);
    }
}

/// Once the frequency is set to zero, the output is frozen too: every
/// subsequent tick returns the same value, the interpolation at the phase
/// where the oscillator stopped.
pub proof fn lemma_zero_increment_constant_output(table: Seq<i64>, idx: int, span: int, k: nat)
    requires
        0 < span,
        0 <= idx < span,
    ensures
        table_sample(table, phase_after(idx, 0, span, k)) == table_sample(table, idx),
{
    lemma_zero_increment_freezes(idx, span, k);
}

/// Bounds used by `lerp`: with both amplitudes in range and the fractional
/// part below [`PHASE_ONE`], the offset interpolation numerator fits
/// comfortably in a `u64`, never exceeding `2 * AMP_ONE * PHASE_ONE`, and
/// equals the signed numerator shifted up by `AMP_ONE * PHASE_ONE`.
proof fn lemma_lerp_num_bound(t0: int, t1: int, frac: int)
    requires
        -AMP_ONE <= t0 <= AMP_ONE,
        -AMP_ONE <= t1 <= AMP_ONE,
        0 <= frac < PHASE_ONE,
    ensures
        0 <= (PHASE_ONE - frac) * (t0 + AMP_ONE) + frac * (t1 + AMP_ONE) <= 2 * AMP_ONE * (
        PHASE_ONE as int),
        (PHASE_ONE - frac) * (t0 + AMP_ONE) + frac * (t1 + AMP_ONE) == ((PHASE_ONE as int - frac)
            * t0 + frac * t1) + AMP_ONE * (PHASE_ONE as int),
{
    let p = PHASE_ONE as int;
    assert((p - frac) * (t0 + AMP_ONE) + frac * (t1 + AMP_ONE) == ((p - frac) * t0 + frac * t1)
        + AMP_ONE * p) by (nonlinear_arith);
    assert((p - frac) * (t0 + AMP_ONE) >= 0 && frac * (t1 + AMP_ONE) >= 0) by (nonlinear_arith)
        requires
            0 <= frac < p,
            t0 + AMP_ONE >= 0,
            t1 + AMP_ONE >= 0,
    ;
    assert((p - frac) * (t0 + AMP_ONE) + frac * (t1 + AMP_ONE) <= 2 * AMP_ONE * p)
        by (nonlinear_arith)
        requires
            0 <= frac < p,
            0 <= t0 + AMP_ONE <= 2 * AMP_ONE,
            0 <= t1 + AMP_ONE <= 2 * AMP_ONE,
    ;
}

} // verus!
