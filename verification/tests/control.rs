use wavetable_synth::control::{
    apply_keys, select_frequency, target_frequency, InputKey, MAX_KEY_FREQ, NOTE_A4, NOTE_A5,
    NOTE_AS5, NOTE_B5, NOTE_C5, NOTE_CS5, NOTE_DS5, NOTE_E5, NOTE_F5, NOTE_FS5, NOTE_G5, NOTE_GS5,
};
use wavetable_synth::osc::WaveTableOscillator;
use wavetable_synth::waves::sawtooth;
use wavetable_synth::PHASE_ONE;

#[test]
fn every_key_maps_to_its_note() {
    let cases = [
        (InputKey::KeyA, NOTE_C5),
        (InputKey::KeyW, NOTE_CS5),
        (InputKey::KeyS, NOTE_C5),
        (InputKey::KeyD, NOTE_DS5),
        (InputKey::KeyF, NOTE_E5),
        (InputKey::KeyT, NOTE_F5),
        (InputKey::KeyG, NOTE_FS5),
        (InputKey::KeyY, NOTE_G5),
        (InputKey::KeyH, NOTE_GS5),
        (InputKey::KeyU, NOTE_A5),
        (InputKey::KeyJ, NOTE_AS5),
        (InputKey::KeyK, NOTE_B5),
        (InputKey::Other, NOTE_A4),
    ];
    for (key, note) in cases {
        let f = target_frequency(key);
        assert_eq!(f, note);
        assert!(0 < f && f <= MAX_KEY_FREQ);
    }
}

#[test]
fn note_constants_are_equal_temperament() {
    // A5 is exactly 880 Hz in Q32.32; the others follow twelve-tone equal
    // temperament to within rounding of the fixed-point representation.
    assert_eq!(NOTE_A5, 880 * (PHASE_ONE as i64));
    assert_eq!(NOTE_A4, 440 * (PHASE_ONE as i64));
    let semitone = 2f64.powf(1.0 / 12.0);
    let hz = |x: i64| x as f64 / PHASE_ONE as f64;
    for (lower, upper) in [
        (NOTE_C5, NOTE_CS5),
        (NOTE_DS5, NOTE_E5),
        (NOTE_E5, NOTE_F5),
        (NOTE_F5, NOTE_FS5),
        (NOTE_FS5, NOTE_G5),
        (NOTE_G5, NOTE_GS5),
        (NOTE_AS5, NOTE_B5),
    ] {
        assert!((hz(upper) / hz(lower) - semitone).abs() < 1e-9);
    }
}

#[test]
fn selection_is_none_only_when_no_key_is_pressed() {
    assert_eq!(select_frequency(&vec![]), None);
    assert_eq!(select_frequency(&vec![InputKey::KeyU]), Some(NOTE_A5));
    // Any unrecognized key is represented as `Other` and resolves to the
    // 440 Hz fallback rather than being ignored.
    assert_eq!(select_frequency(&vec![InputKey::Other]), Some(NOTE_A4));
    assert_eq!(select_frequency(&vec![InputKey::KeyA, InputKey::Other]), Some(NOTE_A4));
}

#[test]
fn the_last_pressed_key_wins() {
    let keys = vec![InputKey::KeyA, InputKey::KeyK, InputKey::KeyU];
    assert_eq!(select_frequency(&keys), Some(NOTE_A5));

    let t = sawtooth(4).unwrap();
    let mut by_loop = WaveTableOscillator::new(8, t).unwrap();
    apply_keys(&mut by_loop, &keys);

    let t = sawtooth(4).unwrap();
    let mut direct = WaveTableOscillator::new(8, t).unwrap();
    direct.set_frequency(target_frequency(InputKey::KeyU));

    for _ in 0..64 {
        assert_eq!(by_loop.get_sample(), direct.get_sample());
    }
}

#[test]
fn an_empty_snapshot_changes_nothing() {
    let t = sawtooth(4).unwrap();
    let mut polled = WaveTableOscillator::new(8, t).unwrap();
    polled.set_frequency(2 * PHASE_ONE as i64);
    apply_keys(&mut polled, &vec![]);

    let t = sawtooth(4).unwrap();
    let mut untouched = WaveTableOscillator::new(8, t).unwrap();
    untouched.set_frequency(2 * PHASE_ONE as i64);

    for _ in 0..16 {
        assert_eq!(polled.get_sample(), untouched.get_sample());
    }
}
