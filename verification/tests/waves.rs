use wavetable_synth::waves::{sawtooth, sine, square, triangle, SynthError, WaveTable};
use wavetable_synth::AMP_ONE;

fn table_values(t: &WaveTable) -> Vec<i64> {
    let mut v = Vec::new();
    let mut i = 0;
    while i < t.len() {
        v.push(t.sample(i));
        i += 1;
    }
    v
}

#[test]
fn all_shapes_build_n_samples_in_range() {
    for n in [2usize, 3, 4, 5, 63, 64, 65, 1024] {
        for t in [
            sine(n).unwrap(),
            square(n).unwrap(),
            triangle(n).unwrap(),
            sawtooth(n).unwrap(),
        ] {
            assert_eq!(t.len(), n);
            for s in table_values(&t) {
                assert!(-AMP_ONE <= s && s <= AMP_ONE);
            }
        }
    }
}

#[test]
fn zero_and_one_point_tables_are_rejected() {
    assert_eq!(sine(0).unwrap_err(), SynthError::InvalidTableLength);
    assert_eq!(square(0).unwrap_err(), SynthError::InvalidTableLength);
    assert_eq!(triangle(1).unwrap_err(), SynthError::InvalidTableLength);
    assert_eq!(sawtooth(1).unwrap_err(), SynthError::InvalidTableLength);
    assert_eq!(sine(65537).unwrap_err(), SynthError::InvalidTableLength);
}

#[test]
fn square_contains_only_extremes() {
    let t = square(64).unwrap();
    for s in table_values(&t) {
        assert!(s == AMP_ONE || s == -AMP_ONE);
    }
    assert_eq!(table_values(&square(4).unwrap()), vec![32768, 32768, -32768, -32768]);
}

#[test]
fn sawtooth_is_a_linear_ramp() {
    let t = sawtooth(4).unwrap();
    assert_eq!(table_values(&t), vec![-32768, -16384, 0, 16384]);
    let t = sawtooth(64).unwrap();
    assert_eq!(t.sample(0), -32768);
    assert_eq!(t.sample(32), 0);
    assert_eq!(t.sample(63), 31744);
}

#[test]
fn triangle_exact_values() {
    let t = triangle(4).unwrap();
    assert_eq!(table_values(&t), vec![32768, 0, -32768, 0]);
}

#[test]
fn triangle_is_continuous_at_the_wrap() {
    for n in [4usize, 16, 64, 1000] {
        let t = triangle(n).unwrap();
        let wrap_jump = (t.sample(0) - t.sample(n - 1)).abs();
        // The per-sample step of a triangle covering 4 * AMP_ONE per period.
        let step = 4 * AMP_ONE / (n as i64);
        assert!(wrap_jump <= step + 1);
        // And an interior step for comparison: same magnitude.
        let interior = (t.sample(1) - t.sample(0)).abs();
        assert!((wrap_jump - interior).abs() <= 2);
    }
}

#[test]
fn sine_exact_values_small_table() {
    let t = sine(4).unwrap();
    assert_eq!(table_values(&t), vec![0, 32768, 0, -32768]);
}

#[test]
fn sine_starts_at_zero_and_is_odd_symmetric() {
    let t = sine(64).unwrap();
    assert_eq!(t.sample(0), 0);
    assert_eq!(t.sample(32), 0);
    for i in 0..32 {
        assert_eq!(t.sample(i + 32), -t.sample(i));
    }
}

#[test]
fn sine_tracks_the_transcendental_sine() {
    let n = 64usize;
    let t = sine(n).unwrap();
    for i in 0..n {
        let approx = t.sample(i) as f64 / AMP_ONE as f64;
        let exact = (2.0 * std::f64::consts::PI * i as f64 / n as f64).sin();
        assert!((approx - exact).abs() < 0.005);
    }
}

#[test]
fn from_samples_validates_range_and_length() {
    let t = WaveTable::from_samples(vec![0, 100, -100, 32768]).unwrap();
    assert_eq!(t.len(), 4);
    assert_eq!(t.sample(3), 32768);
    assert_eq!(
        WaveTable::from_samples(vec![0, 32769]).unwrap_err(),
        SynthError::InvalidTableLength
    );
    assert_eq!(
        WaveTable::from_samples(vec![0, -32769]).unwrap_err(),
        SynthError::InvalidTableLength
    );
    assert_eq!(WaveTable::from_samples(vec![0]).unwrap_err(), SynthError::InvalidTableLength);
}
