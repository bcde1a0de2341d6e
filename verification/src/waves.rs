//! Wave table construction: one period of a periodic waveform, sampled at
//! `size` equally spaced phase points and stored as fixed-point amplitudes.

use vstd::prelude::*;
use vstd::arithmetic::div_mod::{
    lemma_div_is_ordered, lemma_div_multiples_vanish, lemma_div_multiples_vanish_fancy,
    lemma_div_pos_is_pos, lemma_multiply_divide_lt,
};
use crate::{AMP_ONE, MAX_TABLE_LEN};

verus! {

/// Errors reported by the fallible constructors of this library. All
/// fallibility lives at construction time; the sampling hot path never fails.
#[derive(Clone, Copy, Debug, PartialEq, Eq, Structural)]
pub enum SynthError {
    /// A requested wave table length outside `[2, MAX_TABLE_LEN]`:
    /// interpolation needs at least two points, and longer tables would
    /// overflow the phase arithmetic.
    InvalidTableLength,
    /// A sample rate of zero: the phase increment would divide by zero.
    ZeroSampleRate,
}

/// A well-formed wave table: between 2 and [`MAX_TABLE_LEN`] samples, each in
/// the amplitude range `[-AMP_ONE, AMP_ONE]`.
pub open spec fn wf_table(s: Seq<i64>) -> bool {
    &&& 2 <= s.len() <= MAX_TABLE_LEN
    &&& forall|i: int| 0 <= i < s.len() ==> -AMP_ONE <= #[trigger] s[i] <= AMP_ONE
}

/// One period of a periodic waveform: an immutable, fixed-length sequence of
/// amplitude samples, each in `[-AMP_ONE, AMP_ONE]`.
#[derive(Debug)]
pub struct WaveTable {
    samples: Vec<i64>,
}

impl View for WaveTable {
    type V = Seq<i64>;

    closed spec fn view(&self) -> Seq<i64> {
        self.samples@
    }
}

impl WaveTable {
    #[verifier::type_invariant]
    spec fn inv(&self) -> bool {
        wf_table(self@)
    }

    /// Build a wave table from caller-supplied samples, rejecting any set
    /// that is not well formed.
    pub fn from_samples(samples: Vec<i64>) -> (r: Result<WaveTable, SynthError>)
        ensures
            r is Ok <==> wf_table(samples@),
            r matches Ok(t) ==> t@ == samples@,
            r is Err ==> (r matches Err(e) && e == SynthError::InvalidTableLength),
    {
        if samples.len() < 2 || samples.len() > MAX_TABLE_LEN {
            return Err(SynthError::InvalidTableLength);
        }
        let mut i: usize = 0;
        while i < samples.len()
            invariant
                i <= samples@.len(),
                forall|j: int| 0 <= j < i ==> -AMP_ONE <= #[trigger] samples@[j] <= AMP_ONE,
            decreases samples@.len() - i,
        {
            let s = samples[i];
            if s < -AMP_ONE || s > AMP_ONE {
                return Err(SynthError::InvalidTableLength);
            }
            i += 1;
        }
        Ok(WaveTable { samples })
    }

    /// The number of samples in one period. Also reports that every
    /// reachable wave table is well formed.
    pub fn len(&self) -> (n: usize)
        ensures
            n == self@.len(),
            wf_table(self@),
    {
        proof {
            use_type_invariant(self);
        }
        self.samples.len()
    }

    /// The sample at index `i`.
    pub fn sample(&self, i: usize) -> (s: i64)
        requires
            i < self@.len(),
        ensures
            s == self@[i as int],
    {
        self.samples[i]
    }
}

/// The square wave sample at index `i` of an `n`-point table: `+AMP_ONE`
/// while the phase is below half a period, `-AMP_ONE` afterwards.
pub open spec fn square_val(i: int, n: int) -> int {
    if 2 * i < n {
        AMP_ONE as int
    } else {
        -AMP_ONE as int
    }
}

/// One period of a square wave with 50% duty cycle: `+AMP_ONE` for the first
/// half of the table, `-AMP_ONE` for the second half.
pub fn square(size: usize) -> (r: Result<WaveTable, SynthError>)
    ensures
        r is Ok <==> 2 <= size <= MAX_TABLE_LEN,
        r matches Ok(t) ==> t@.len() == size,
        r matches Ok(t) ==> forall|i: int| 0 <= i < size ==> (#[trigger] t@[i]) == square_val(i, size as int),
        r matches Ok(t) ==> wf_table(t@),
        r matches Ok(t) ==> forall|i: int|
            0 <= i < size ==> (#[trigger] t@[i]) == AMP_ONE || t@[i] == -AMP_ONE,
        r is Err ==> (r matches Err(e) && e == SynthError::InvalidTableLength),
{
    if size < 2 || size > MAX_TABLE_LEN {
        return Err(SynthError::InvalidTableLength);
    }
    let mut samples: Vec<i64> = Vec::new();
    let mut i: usize = 0;
    while i < size
        invariant
            i <= size,
            2 <= size <= MAX_TABLE_LEN,
            samples@.len() == i,
            forall|j: int| 0 <= j < i ==> samples@[j] == square_val(j, size as int),
        decreases size - i,
    {
        let s: i64 = if 2 * i < size {
            AMP_ONE
        } else {
            -AMP_ONE
        };
        samples.push(s);
        i += 1;
    }
    proof {
        assert forall|j: int| 0 <= j < size implies -AMP_ONE <= #[trigger] samples@[j]
            <= AMP_ONE by {
            assert(samples@[j] == square_val(j, size as int));
        }
        assert forall|j: int| 0 <= j < size implies (#[trigger] samples@[j]) == AMP_ONE
            || samples@[j] == -AMP_ONE by {
            assert(samples@[j] == square_val(j, size as int));
        }
    }
    Ok(WaveTable { samples })
}

/// The sawtooth sample at index `i` of an `n`-point table: the linear ramp
/// `2 * (i/n) - 1` scaled to fixed point, rounded toward negative infinity.
pub open spec fn sawtooth_val(i: int, n: int) -> int {
    (2 * AMP_ONE * i) / n - AMP_ONE
}

fn sawtooth_sample(i: usize, n: usize) -> (s: i64)
    requires
        2 <= n <= MAX_TABLE_LEN,
        i < n,
    ensures
        s == sawtooth_val(i as int, n as int),
        -AMP_ONE <= s < AMP_ONE,
{
    let scale: u64 = 2 * (AMP_ONE as u64);
    let num: u64 = scale * (i as u64);
    let v: u64 = num / (n as u64);
    proof {
        lemma_multiply_divide_lt(num as int, n as int, 2 * AMP_ONE);
        lemma_div_pos_is_pos(num as int, n as int);
    }
    (v as i64) - AMP_ONE
}

/// The triangle sample at index `i` of an `n`-point table, from the
/// symmetric definition `4 * |i/n - 1/2| - 1` scaled to fixed point: a
/// linear fall from `+AMP_ONE` at `i = 0` to `-AMP_ONE` at mid-table, then a
/// linear rise back towards `+AMP_ONE`.
pub open spec fn triangle_val(i: int, n: int) -> int {
    (2 * AMP_ONE * ramp_dist(i, n)) / n - AMP_ONE
}

/// `|2 * i - n|`: the doubled distance of index `i` from the table midpoint.
pub open spec fn ramp_dist(i: int, n: int) -> int {
    if 2 * i >= n {
        2 * i - n
    } else {
        n - 2 * i
    }
}

fn triangle_sample(i: usize, n: usize) -> (s: i64)
    requires
        2 <= n <= MAX_TABLE_LEN,
        i < n,
    ensures
        s == triangle_val(i as int, n as int),
        -AMP_ONE <= s <= AMP_ONE,
{
    let d: usize = if 2 * i >= n {
        2 * i - n
    } else {
        n - 2 * i
    };
    let scale: u64 = 2 * (AMP_ONE as u64);
    let num: u64 = scale * (d as u64);
    let v: u64 = num / (n as u64);
    proof {
        lemma_div_is_ordered(num as int, 2 * AMP_ONE * (n as int), n as int);
        lemma_div_multiples_vanish(2 * AMP_ONE, n as int);
        assert((n as int) * (2 * AMP_ONE) == 2 * AMP_ONE * (n as int));
        lemma_div_pos_is_pos(num as int, n as int);
    }
    (v as i64) - AMP_ONE
}

/// The fixed-point half-wave of the sine shape, by Bhaskara's rational
/// approximation: for a phase fraction `a / n` through the half period,
/// `sin(pi * a / n) ~= 16 * (a/n) * (1 - a/n) / (5 - 4 * (a/n) * (1 - a/n))`.
/// Exact at the ends (`0`) and at the crest (`AMP_ONE`), and within 0.2% of
/// the transcendental sine in between; always in `[0, AMP_ONE]`.
pub open spec fn half_sine_val(a: int, n: int) -> int {
    (16 * AMP_ONE * (a * (n - a))) / (5 * (n * n) - 4 * (a * (n - a)))
}

/// The sine sample at index `i` of an `n`-point table: the first half period
/// is the positive half wave, the second half its negation.
pub open spec fn sine_val(i: int, n: int) -> int {
    if 2 * i <= n {
        half_sine_val(2 * i, n)
    } else {
        -half_sine_val(2 * i - n, n)
    }
}

/// `half_sine_val(a, n)` stays in `[0, AMP_ONE]` for `0 <= a <= n`.
pub proof fn lemma_half_sine_bounds(a: int, n: int)
    requires
        2 <= n,
        0 <= a <= n,
    ensures
        0 <= half_sine_val(a, n) <= AMP_ONE,
        a == 0 || a == n ==> half_sine_val(a, n) == 0,
{
    let q = a * (n - a);
    let m = n * n;
    assert(4 * q <= m && 0 <= q && 2 * n <= m) by (nonlinear_arith)
        requires
            2 <= n,
            0 <= a <= n,
            q == a * (n - a),
            m == n * n,
    ;
    let den = 5 * m - 4 * q;
    let num = 16 * AMP_ONE * q;
    assert(den >= 4 * m && m >= 4);
    assert(half_sine_val(a, n) == num / den);
    assert(num <= AMP_ONE * den) by (nonlinear_arith)
        requires
            num == 16 * AMP_ONE * q,
            den == 5 * m - 4 * q,
            4 * q <= m,
            0 <= q,
            AMP_ONE == 32768,
    ;
    lemma_div_pos_is_pos(num, den);
    lemma_div_is_ordered(num, AMP_ONE * den, den);
    lemma_div_multiples_vanish(AMP_ONE as int, den);
    assert(den * AMP_ONE == AMP_ONE * den) by (nonlinear_arith);
    if a == 0 || a == n {
        assert(q == 0) by (nonlinear_arith)
            requires
                q == a * (n - a),
                a == 0 || a == n,
        ;
        assert(num == 0) by (nonlinear_arith)
            requires
                num == 16 * AMP_ONE * q,
                q == 0,
        ;
        vstd::arithmetic::div_mod::lemma_div_of0(den);
    }
}

fn sine_sample(i: usize, n: usize) -> (s: i64)
    requires
        2 <= n <= MAX_TABLE_LEN,
        i < n,
    ensures
        s == sine_val(i as int, n as int),
        -AMP_ONE <= s <= AMP_ONE,
        i == 0 ==> s == 0,
{
    let two_i: usize = 2 * i;
    let a: u64 = if two_i <= n {
        two_i as u64
    } else {
        (two_i - n) as u64
    };
    let nu: u64 = n as u64;
    proof {
        lemma_half_sine_bounds(a as int, n as int);
        assert(4 * (a * (nu - a)) <= nu * nu && nu * nu <= 4294967296 && 2 * nu <= nu * nu)
            by (nonlinear_arith)
            requires
                0 <= a <= nu,
                2 <= nu <= 65536,
        ;
    }
    let prod: u64 = a * (nu - a);
    let numscale: u64 = 16 * (AMP_ONE as u64);
    let num: u64 = numscale * prod;
    let nn: u64 = nu * nu;
    let den: u64 = 5 * nn - 4 * prod;
    let q: u64 = num / den;
    let s: i64 = if two_i <= n {
        q as i64
    } else {
        -(q as i64)
    };
    s
}

/// One period of a sawtooth wave: a linear ramp from `-AMP_ONE` at index 0
/// to just below `+AMP_ONE`, wrapping discontinuously at the period boundary.
pub fn sawtooth(size: usize) -> (r: Result<WaveTable, SynthError>)
    ensures
        r is Ok <==> 2 <= size <= MAX_TABLE_LEN,
        r matches Ok(t) ==> t@.len() == size,
        r matches Ok(t) ==> forall|i: int| 0 <= i < size ==> (#[trigger] t@[i]) == sawtooth_val(i, size as int),
        r matches Ok(t) ==> wf_table(t@),
        r matches Ok(t) ==> t@[0] == -AMP_ONE,
        r is Err ==> (r matches Err(e) && e == SynthError::InvalidTableLength),
{
    if size < 2 || size > MAX_TABLE_LEN {
        return Err(SynthError::InvalidTableLength);
    }
    let mut samples: Vec<i64> = Vec::new();
    let mut i: usize = 0;
    while i < size
        invariant
            i <= size,
            2 <= size <= MAX_TABLE_LEN,
            samples@.len() == i,
            forall|j: int| 0 <= j < i ==> samples@[j] == sawtooth_val(j, size as int),
            forall|j: int| 0 <= j < i ==> -AMP_ONE <= #[trigger] samples@[j] <= AMP_ONE,
        decreases size - i,
    {
        let s = sawtooth_sample(i, size);
        samples.push(s);
        i += 1;
    }
    proof {
        assert(2 * AMP_ONE * 0 == 0) by (nonlinear_arith);
        vstd::arithmetic::div_mod::lemma_div_of0(size as int);
        assert(sawtooth_val(0, size as int) == -AMP_ONE);
    }
    Ok(WaveTable { samples })
}

/// One period of a triangle wave: a continuous, symmetric fall from
/// `+AMP_ONE` to `-AMP_ONE` and rise back, with no jump at the wrap.
pub fn triangle(size: usize) -> (r: Result<WaveTable, SynthError>)
    ensures
        r is Ok <==> 2 <= size <= MAX_TABLE_LEN,
        r matches Ok(t) ==> t@.len() == size,
        r matches Ok(t) ==> forall|i: int| 0 <= i < size ==> (#[trigger] t@[i]) == triangle_val(i, size as int),
        r matches Ok(t) ==> wf_table(t@),
        r is Err ==> (r matches Err(e) && e == SynthError::InvalidTableLength),
{
    if size < 2 || size > MAX_TABLE_LEN {
        return Err(SynthError::InvalidTableLength);
    }
    let mut samples: Vec<i64> = Vec::new();
    let mut i: usize = 0;
    while i < size
        invariant
            i <= size,
            2 <= size <= MAX_TABLE_LEN,
            samples@.len() == i,
            forall|j: int| 0 <= j < i ==> samples@[j] == triangle_val(j, size as int),
            forall|j: int| 0 <= j < i ==> -AMP_ONE <= #[trigger] samples@[j] <= AMP_ONE,
        decreases size - i,
    {
        let s = triangle_sample(i, size);
        samples.push(s);
        i += 1;
    }
    Ok(WaveTable { samples })
}

/// One period of a sine wave: starts at zero, rises to `+AMP_ONE` a quarter
/// of the way through, and mirrors to `-AMP_ONE` in the second half.
pub fn sine(size: usize) -> (r: Result<WaveTable, SynthError>)
    ensures
        r is Ok <==> 2 <= size <= MAX_TABLE_LEN,
        r matches Ok(t) ==> t@.len() == size,
        r matches Ok(t) ==> forall|i: int| 0 <= i < size ==> (#[trigger] t@[i]) == sine_val(i, size as int),
        r matches Ok(t) ==> wf_table(t@),
        r matches Ok(t) ==> t@[0] == 0,
        r is Err ==> (r matches Err(e) && e == SynthError::InvalidTableLength),
{
    if size < 2 || size > MAX_TABLE_LEN {
        return Err(SynthError::InvalidTableLength);
    }
    let mut samples: Vec<i64> = Vec::new();
    let mut i: usize = 0;
    while i < size
        invariant
            i <= size,
            2 <= size <= MAX_TABLE_LEN,
            samples@.len() == i,
            forall|j: int| 0 <= j < i ==> samples@[j] == sine_val(j, size as int),
            forall|j: int| 0 <= j < i ==> -AMP_ONE <= #[trigger] samples@[j] <= AMP_ONE,
            i > 0 ==> samples@[0] == 0,
        decreases size - i,
    {
        let s = sine_sample(i, size);
        samples.push(s);
        i += 1;
    }
    Ok(WaveTable { samples })
}

/// The sine table is odd-symmetric about the table midpoint: for an even
/// table length `n`, the sample half a period after index `i` is exactly the
/// negation of the sample at `i`.
pub proof fn lemma_sine_odd_symmetry(i: int, n: int)
    requires
        2 <= n,
        n % 2 == 0,
        0 <= i < n / 2,
    ensures
        sine_val(i + n / 2, n) == -sine_val(i, n),
{
    let h = n / 2;
    assert(n == 2 * h);
    if i == 0 {
        lemma_half_sine_bounds(0, n);
        lemma_half_sine_bounds(n, n);
    } else {
        assert(2 * (i + h) == 2 * i + n);
        assert(2 * (i + h) > n);
        assert(sine_val(i + h, n) == -half_sine_val(2 * i, n));
    }
}

/// The triangle wave is continuous at the wrap boundary: the jump between
/// the last and first table entries is at most one per-sample step (the
/// wave's slope is `4 * AMP_ONE / n` per index, and the bound below is that
/// step plus one unit of rounding).
pub proof fn lemma_triangle_wrap_continuous(n: int)
    requires
        2 <= n <= MAX_TABLE_LEN,
    ensures
        triangle_val(0, n) == AMP_ONE,
        0 <= triangle_val(0, n) - triangle_val(n - 1, n) <= (4 * AMP_ONE) / n + 1,
{
    assert(ramp_dist(0, n) == n);
    assert(ramp_dist(n - 1, n) == n - 2);
    lemma_div_multiples_vanish(2 * AMP_ONE, n);
    assert(2 * AMP_ONE * n == n * (2 * AMP_ONE)) by (nonlinear_arith);
    assert(triangle_val(0, n) == AMP_ONE);
    let g = (4 * AMP_ONE) / n;
    let r = (4 * AMP_ONE) % n;
    vstd::arithmetic::div_mod::lemma_fundamental_div_mod(4 * AMP_ONE, n);
    vstd::arithmetic::div_mod::lemma_mod_bound(4 * AMP_ONE, n);
    assert(g >= 1) by {
        if g < 1 {
            assert(4 * AMP_ONE == n * g + r);
            assert(n * g <= 0) by (nonlinear_arith)
                requires
                    g <= 0,
                    n >= 2,
            ;
        }
    }
    assert(2 * AMP_ONE * (n - 2) == n * (2 * AMP_ONE) - 4 * AMP_ONE) by (nonlinear_arith);
    if r == 0 {
        assert(2 * AMP_ONE * (n - 2) == n * (2 * AMP_ONE - g)) by (nonlinear_arith)
            requires
                2 * AMP_ONE * (n - 2) == n * (2 * AMP_ONE) - 4 * AMP_ONE,
                4 * AMP_ONE == n * g + r,
                r == 0,
        ;
        lemma_div_multiples_vanish(2 * AMP_ONE - g, n);
        assert((2 * AMP_ONE * (n - 2)) / n == 2 * AMP_ONE - g);
    } else {
        assert(2 * AMP_ONE * (n - 2) == n * (2 * AMP_ONE - g - 1) + (n - r)) by (nonlinear_arith)
            requires
                2 * AMP_ONE * (n - 2) == n * (2 * AMP_ONE) - 4 * AMP_ONE,
                4 * AMP_ONE == n * g + r,
        ;
        lemma_div_multiples_vanish_fancy(2 * AMP_ONE - g - 1, n - r, n);
        assert((2 * AMP_ONE * (n - 2)) / n == 2 * AMP_ONE - g - 1);
    }
}

} // verus!
