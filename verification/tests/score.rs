use ferrum::provider::ProviderId;
use ferrum::sensors::rate_limit::name_to_provider_id;
use ferrum::rounding::{binary_fraction, DOUBLE_FRACTION_BITS, SINGLE_FRACTION_BITS};
use ferrum::score::Score;

#[test]
fn and_is_min_and_or_is_max() {
    assert_eq!(Score(30).and(Score(70)), Score(30));
    assert_eq!(Score(30).or(Score(70)), Score(70));
    assert_eq!(Score(55).and(Score(55)), Score(55));
}

#[test]
fn fuzzy_laws_on_concrete_scores() {
    let (a, b, c) = (Score(10), Score(60), Score(35));
    assert_eq!(a.and(b), b.and(a));
    assert_eq!(a.or(b), b.or(a));
    assert_eq!(a.and(b).and(c), a.and(b.and(c)));
    assert_eq!(a.or(b).or(c), a.or(b.or(c)));
    assert_eq!(a.and(a.or(b)), a);
    assert_eq!(a.or(a.and(b)), a);
    assert_eq!(a.and(Score(100)), a);
    assert_eq!(a.or(Score(0)), a);
    assert_eq!(!(!b), b);
    assert_eq!(!(a.and(b)), (!a).or(!b));
    assert_eq!(!(a.or(b)), (!a).and(!b));
}

#[test]
fn not_saturates_above_hundred() {
    assert_eq!(!Score(40), Score(60));
    assert_eq!(!Score(0), Score(100));
    assert_eq!(!Score(200), Score(0));
    assert_eq!(Score(40).negate(), Score(60));
}

#[test]
fn conversions_clamp_and_map_booleans() {
    assert_eq!(Score::from(-5i64), Score(0));
    assert_eq!(Score::from(150i64), Score(100));
    assert_eq!(Score::from(42i64), Score(42));
    assert_eq!(Score::from(true), Score(100));
    assert_eq!(Score::from(false), Score(0));
    assert_eq!(Score::from(7u8), Score(7));
    assert_eq!(u8::from(Score(9)), 9);
}

#[test]
fn fractions_round_the_way_floats_do() {
    assert_eq!(Score::from_fraction(1, 3, SINGLE_FRACTION_BITS), Score(33));
    assert_eq!(Score::from_fraction(2, 3, SINGLE_FRACTION_BITS), Score(67));
    assert_eq!(Score::from_fraction(1, 2, SINGLE_FRACTION_BITS), Score(50));
    assert_eq!(Score::from_fraction(5, 3, SINGLE_FRACTION_BITS), Score(100));
    assert_eq!(Score::from_fraction(0, 7, SINGLE_FRACTION_BITS), Score(0));
    // 21/40 is just below 0.525 in single precision, so 100 times it rounds down.
    assert_eq!(Score::from_fraction(21, 40, SINGLE_FRACTION_BITS), Score(52));
    assert_eq!(Score::from_fraction(23, 40, DOUBLE_FRACTION_BITS), Score(57));
}

fn single_score(n: u64, d: u64) -> u8 {
    ((n as f32 / d as f32).clamp(0.0, 1.0) * 100.0).round() as u8
}

fn double_score(n: u64, d: u64) -> u8 {
    ((n as f64 / d as f64).clamp(0.0, 1.0) * 100.0).round() as u8
}

#[test]
fn single_precision_scores_match_float_arithmetic() {
    for d in 1..=400u64 {
        for n in 0..=d + 2 {
            assert_eq!(binary_fraction(n, d, SINGLE_FRACTION_BITS), single_score(n, d), "{n}/{d}");
        }
    }
    for &(n, d) in &[(16_777_217u64, 33_554_435u64), (u64::MAX / 3, u64::MAX), (1, u64::MAX), (123_456_789, 987_654_321)] {
        assert_eq!(binary_fraction(n, d, SINGLE_FRACTION_BITS), single_score(n, d), "{n}/{d}");
    }
}

#[test]
fn double_precision_scores_match_float_arithmetic() {
    for d in 1..=400u64 {
        for n in 0..=d + 2 {
            assert_eq!(binary_fraction(n, d, DOUBLE_FRACTION_BITS), double_score(n, d), "{n}/{d}");
        }
    }
    for &(n, d) in &[(9_007_199_254_740_993u64, 18_014_398_509_481_987u64), (u64::MAX / 7, u64::MAX), (262_143, 524_288)] {
        assert_eq!(binary_fraction(n, d, DOUBLE_FRACTION_BITS), double_score(n, d), "{n}/{d}");
    }
}

#[test]
fn provider_ids_are_deterministic() {
    assert_eq!(ProviderId::from("geo"), ProviderId::from("geo"));
    assert_eq!(name_to_provider_id("geo"), ProviderId::from("geo"));
    assert_ne!(ProviderId::from("geo"), ProviderId::from("asn"));
    assert_ne!(ProviderId::from("geo").0, 0);
}
