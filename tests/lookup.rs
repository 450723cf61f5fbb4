use fastmath::lookup_table::{
    valid_table_layout, CyclingFloatLookupTable, EndoCosLookupTable, EndoSinLookupTable,
    FloatLookupTable,
};
use std::f64::consts::FRAC_PI_2;

const STEPS: usize = 4096;
const QUARTER: i64 = 1 << 32;
const HALF_TURN: i64 = 2 * QUARTER;

fn sine_keys() -> Vec<i64> {
    (0..=STEPS).map(|i| i as i64 * (QUARTER / STEPS as i64)).collect()
}

fn sine_values_f64() -> Vec<u64> {
    (0..=STEPS)
        .map(|i| (FRAC_PI_2 * i as f64 / STEPS as f64).sin().to_bits())
        .collect()
}

fn sine_values_f32() -> Vec<u32> {
    (0..=STEPS)
        .map(|i| ((FRAC_PI_2 * i as f64 / STEPS as f64).sin() as f32).to_bits())
        .collect()
}

fn sin_table() -> EndoSinLookupTable<u64> {
    EndoSinLookupTable::new(sine_keys(), sine_values_f64(), HALF_TURN)
}

fn cos_table() -> EndoCosLookupTable<u64> {
    EndoCosLookupTable::new(sine_keys(), sine_values_f64(), HALF_TURN)
}

fn key_of(x: f64) -> i64 {
    (x * (QUARTER as f64 / FRAC_PI_2)).round() as i64
}

fn small_table() -> FloatLookupTable<u64> {
    FloatLookupTable::new(vec![0, 10, 20, 30, 40], vec![100, 101, 102, 103, 104])
}

#[test]
fn key_to_index_rounds_up() {
    let t = small_table();
    assert_eq!(t.key_to_index(0), 0);
    assert_eq!(t.key_to_index(1), 1);
    assert_eq!(t.key_to_index(10), 1);
    assert_eq!(t.key_to_index(11), 2);
    assert_eq!(t.key_to_index(40), 4);
    assert_eq!(t.key_to_index(41), 5);
    assert_eq!(t.key_to_index(-25), 0);
    assert_eq!(t.key_to_index(i64::MAX), 922337203685477581);
}

#[test]
fn get_next_clamps_to_the_ends() {
    let t = small_table();
    assert_eq!(t.get_next(25), 103);
    assert_eq!(t.get_next(1000), 104);
    assert_eq!(t.get_next(i64::MAX), 104);
    assert_eq!(t.get_next(-1000), 100);
    assert_eq!(t.get_next(i64::MIN), 100);
}

#[test]
fn own_keys_give_own_values() {
    let t = small_table();
    for (k, v) in [(0, 100), (10, 101), (20, 102), (30, 103), (40, 104)] {
        assert_eq!(t.lookup(k), v);
    }
}

#[test]
fn flat_batches_keep_order() {
    let t = small_table();
    let keys = vec![40, -3, 12, 0, 33, 7];
    let expected: Vec<u64> = keys.iter().map(|&k| t.lookup(k)).collect();
    assert_eq!(expected, vec![104, 100, 102, 100, 104, 101]);
    assert_eq!(t.map_lookups(keys.clone()), expected);
    assert_eq!(t.par_map_lookups(keys), expected);
}

#[test]
fn layout_checks() {
    assert!(valid_table_layout(&vec![0i64, 10, 20, 30, 40], &vec![0u64; 5]));
    assert!(valid_table_layout(&vec![-5i64, 5], &vec![0u64; 2]));
    assert!(valid_table_layout(&vec![7i64], &vec![0u64]));
    assert!(!valid_table_layout(&Vec::<i64>::new(), &Vec::<u64>::new()));
    assert!(!valid_table_layout(&vec![0i64, 10, 20], &vec![0u64; 2]));
    assert!(!valid_table_layout(&vec![0i64, 10, 21], &vec![0u64; 3]));
    assert!(!valid_table_layout(&vec![-20i64, -10, 0], &vec![0u64; 3]));
    assert!(!valid_table_layout(&vec![10i64, 5, 0], &vec![0u64; 3]));
    assert!(!valid_table_layout(&vec![0i64], &vec![0u64]));
    assert!(valid_table_layout(&sine_keys(), &sine_values_f64()));
}

#[test]
fn cycling_table_reduces_into_window() {
    let t = CyclingFloatLookupTable::new(vec![0, 10, 20, 30, 40], vec![100u64, 101, 102, 103, 104], 0, 40);
    assert_eq!(t.lookup(25), 103);
    assert_eq!(t.lookup(65), 103);
    assert_eq!(t.lookup(80), 100);
    // -15 lies one period below 25.
    assert_eq!(t.lookup(-15), 103);
    assert_eq!(t.lookup(-40), 100);
    assert_eq!(t.lookup(i64::MIN), t.lookup(i64::MIN.rem_euclid(40)));
    let shifted = CyclingFloatLookupTable::new(vec![0, 10, 20, 30, 40], vec![100u64, 101, 102, 103, 104], 10, 30);
    // 45 reduces to 5 within the period, shifted to 15.
    assert_eq!(shifted.lookup(45), 102);
    // -5 reduces to 15, shifted to 25.
    assert_eq!(shifted.lookup(-5), 103);
    let keys = vec![65, -15, 80];
    assert_eq!(t.map_lookups(keys.clone()), vec![103, 103, 100]);
    assert_eq!(t.par_map_lookups(keys), vec![103, 103, 100]);
}

#[test]
fn cycling_table_negative_key_wraps_to_the_top() {
    let t = CyclingFloatLookupTable::new(vec![0, 1, 2], vec![7u64, 8, 9], 0, 2);
    assert_eq!(t.lookup(-1), 8);
    assert_eq!(t.lookup(1), 8);
}

#[test]
fn cos_of_zero_is_the_table_endpoint() {
    let c = cos_table();
    assert_eq!(f64::from_bits(c.lookup(0)), 1.0);
    let s = sin_table();
    assert_eq!(f64::from_bits(s.lookup(QUARTER)), 1.0);
    assert_eq!(f64::from_bits(s.lookup(-QUARTER)), -1.0);
    assert_eq!(f64::from_bits(s.lookup(0)), 0.0);
    assert_eq!(f64::from_bits(s.lookup(HALF_TURN)), 0.0);
}

#[test]
fn sine_quadrants() {
    let s = sin_table();
    let q = QUARTER;
    let k = q / 3;
    let base = f64::from_bits(s.lookup(k));
    assert!(base > 0.49 && base < 0.51);
    assert_eq!(f64::from_bits(s.lookup(2 * q - k)), base);
    assert_eq!(f64::from_bits(s.lookup(2 * q + k)), -base);
    assert_eq!(f64::from_bits(s.lookup(4 * q - k)), -base);
    assert_eq!(f64::from_bits(s.lookup(4 * q + k)), base);
    assert_eq!(f64::from_bits(s.lookup(-k)), -base);
    assert_eq!(f64::from_bits(s.lookup(-2 * q - k)), base);
}

#[test]
fn sine_is_periodic() {
    let s = sin_table();
    let full = 4 * QUARTER;
    for k in [1i64, 12345, QUARTER - 1, QUARTER + 17, 3 * QUARTER + 5, -77, -QUARTER - 3] {
        for m in [1i64, 2, 5, -3] {
            let shifted = k + full * m;
            if (k < 0) == (shifted < 0) || k % (2 * QUARTER) != 0 {
                assert_eq!(s.lookup(shifted), s.lookup(k), "k = {}, m = {}", k, m);
            }
        }
    }
    assert_eq!(s.lookup(i64::MAX), s.lookup(i64::MAX % full));
}

#[test]
fn sine_is_odd() {
    let s = sin_table();
    for k in [1i64, 999, QUARTER, QUARTER + 1, 2 * QUARTER, 3 * QUARTER + 11, 40 * QUARTER + 7, i64::MAX] {
        assert_eq!(f64::from_bits(s.lookup(-k)), -f64::from_bits(s.lookup(k)));
    }
    assert_eq!(f64::from_bits(s.lookup(i64::MIN)), f64::from_bits(s.lookup(i64::MIN % (4 * QUARTER))));
}

#[test]
fn cosine_is_shifted_sine() {
    let s = sin_table();
    let c = cos_table();
    for k in [0i64, 5, -5, QUARTER, -QUARTER, 3 * QUARTER + 2, -7 * QUARTER - 9, 1 << 40] {
        assert_eq!(c.lookup(k), s.lookup(k + QUARTER));
    }
    // Near the top of the key range the shift wraps a full turn back.
    assert_eq!(c.lookup(i64::MAX), s.lookup(i64::MAX - 3 * QUARTER));
    assert_eq!(c.lookup(i64::MIN), s.lookup(i64::MIN + QUARTER));
}

#[test]
fn lookups_agree_with_sin_and_cos() {
    let s = sin_table();
    let c = cos_table();
    let tolerance = 1e-3;
    let mut x = -10.0f64;
    while x < 10.0 {
        let k = key_of(x);
        assert!((f64::from_bits(s.lookup(k)) - x.sin()).abs() < tolerance, "sin at {}", x);
        assert!((f64::from_bits(c.lookup(k)) - x.cos()).abs() < tolerance, "cos at {}", x);
        x += 0.001;
    }
}

#[test]
fn single_precision_tables() {
    let s = EndoSinLookupTable::new(sine_keys(), sine_values_f32(), HALF_TURN);
    let c = EndoCosLookupTable::new(sine_keys(), sine_values_f32(), HALF_TURN);
    assert_eq!(f32::from_bits(c.lookup(0)), 1.0);
    let k = key_of(0.5);
    assert!((f32::from_bits(s.lookup(k)) - 0.5f32.sin()).abs() < 1e-3);
    assert_eq!(f32::from_bits(s.lookup(-k)), -f32::from_bits(s.lookup(k)));
}

#[test]
fn batches_keep_order() {
    let s = sin_table();
    let c = cos_table();
    let keys: Vec<i64> = (-2000..2000).map(|i| key_of(i as f64 / 100.0)).collect();
    let sin_one_by_one: Vec<u64> = keys.iter().map(|&k| s.lookup(k)).collect();
    let cos_one_by_one: Vec<u64> = keys.iter().map(|&k| c.lookup(k)).collect();
    assert_eq!(s.map_lookups(keys.clone()), sin_one_by_one);
    assert_eq!(s.par_map_lookups(keys.clone()), sin_one_by_one);
    assert_eq!(c.map_lookups(keys.clone()), cos_one_by_one);
    assert_eq!(c.par_map_lookups(keys), cos_one_by_one);
    assert!(s.map_lookups(Vec::new()).is_empty());
    assert!(c.par_map_lookups(Vec::new()).is_empty());
}

#[test]
fn key_to_value_picks_the_step() {
    let s = EndoSinLookupTable::new(vec![0, 10, 20, 30, 40], vec![100u64, 101, 102, 103, 104], 80);
    // index = key * 5 / 40
    assert_eq!(s.key_to_value(0), 100);
    assert_eq!(s.key_to_value(7), 100);
    assert_eq!(s.key_to_value(8), 101);
    assert_eq!(s.key_to_value(24), 103);
    assert_eq!(s.key_to_value(39), 104);
}

#[test]
fn key_to_value_on_a_half_open_quadrant() {
    // Four samples over [0, 40), one step of 10 each: a stored key gives its own sample.
    let s = EndoSinLookupTable::new(vec![0, 10, 20, 30], vec![100u64, 101, 102, 103], 80);
    assert_eq!(s.key_to_value(0), 100);
    assert_eq!(s.key_to_value(10), 101);
    assert_eq!(s.key_to_value(29), 102);
    assert_eq!(s.key_to_value(30), 103);
    assert_eq!(s.key_to_value(39), 103);
}
