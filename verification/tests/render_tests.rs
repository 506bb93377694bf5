use gray_scott::fixed::SCALE;
use gray_scott::grid::Grid;
use gray_scott::noise::{noise_value, rng_step};
use gray_scott::render::{to_intensity, to_rgba};

#[test]
fn intensity_clamps_below_zero() {
    assert_eq!(to_intensity(-5), 0);
    assert_eq!(to_intensity(i64::MIN), 0);
}

#[test]
fn intensity_clamps_above_one() {
    assert_eq!(to_intensity(SCALE + 1), 255);
    assert_eq!(to_intensity(i64::MAX), 255);
}

#[test]
fn intensity_maps_the_unit_interval_linearly() {
    assert_eq!(to_intensity(0), 0);
    assert_eq!(to_intensity(SCALE), 255);
    assert_eq!(to_intensity(SCALE / 2), 127);
    assert_eq!(to_intensity(SCALE / 3), 84);
}

#[test]
fn rgba_texture_repeats_each_intensity_four_times() {
    let mut g = Grid::new(2, 2, 0).unwrap();
    g.set(0, 0, -7);
    g.set(0, 1, SCALE / 2);
    g.set(1, 0, SCALE);
    g.set(1, 1, 2 * SCALE);
    let data = to_rgba(&g);
    assert_eq!(data.len(), 16);
    assert_eq!(&data[0..4], &[0, 0, 0, 0]);
    assert_eq!(&data[4..8], &[127, 127, 127, 127]);
    assert_eq!(&data[8..12], &[255, 255, 255, 255]);
    assert_eq!(&data[12..16], &[255, 255, 255, 255]);
}

#[test]
fn noise_generator_is_deterministic() {
    let s0: u64 = 88172645463325252;
    let s1 = rng_step(s0);
    let s2 = rng_step(s1);
    assert_eq!(s1, 8748534153485358512);
    assert_eq!(s2, 3040900993826735515);
    assert_eq!(rng_step(s0), s1);
}

#[test]
fn noise_values_stay_in_the_amplitude_band() {
    let amp = SCALE / 10;
    let mut s: u64 = 42;
    for _ in 0..100 {
        s = rng_step(s);
        let n = noise_value(s, amp);
        assert!((0..amp).contains(&n));
    }
    assert_eq!(noise_value(12345, 0), 0);
    assert_eq!(noise_value(8748534153485358512, amp), 21266);
}
