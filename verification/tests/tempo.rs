use vid_concat_cutter::tempo::{not_greater, plan_tempo, Binary};

fn binary(x: f64) -> Binary {
    Binary::from_bits(x.to_bits()).unwrap()
}

fn chain(x: f64) -> (usize, usize, f64) {
    let plan = plan_tempo(binary(x));
    (plan.doublings, plan.halvings, f64::from_bits(plan.rest.to_bits()))
}

#[test]
fn numbers_keep_their_bits() {
    for x in [1.0, 1.8, 0.05, 2.0001, 9.5, f64::MAX, f64::MIN_POSITIVE] {
        assert_eq!(binary(x).to_bits(), x.to_bits());
    }
    assert_eq!(binary(1.0), Binary { mantissa: 1 << 52, exponent: -52 });
    for x in [0.0, -1.0, f64::INFINITY, f64::NAN, 1e-310] {
        assert!(Binary::from_bits(x.to_bits()).is_none());
    }
}

#[test]
fn numbers_compare_as_floats_do() {
    let all = [0.05, 0.4999, 0.5, 1.0, 1.8, 2.0, 2.0001, 2.0002, 16.0, 1e9];
    for a in all {
        for b in all {
            assert_eq!(not_greater(binary(a), binary(b)), a <= b);
        }
    }
}

#[test]
fn chains_of_factors() {
    assert_eq!(chain(1.0), (0, 0, 1.0));
    assert_eq!(chain(1.8), (0, 0, 1.8));
    assert_eq!(chain(2.0), (0, 0, 2.0));
    assert_eq!(chain(2.0001), (0, 0, 2.0001));
    assert_eq!(chain(2.5), (1, 0, 1.25));
    assert_eq!(chain(16.0), (3, 0, 2.0));
    assert_eq!(chain(0.5), (0, 0, 0.5));
    assert_eq!(chain(0.4999), (0, 0, 0.4999));
    assert_eq!(chain(0.3), (0, 1, 0.6));
    assert_eq!(chain(0.05), (0, 4, 0.8));
}

#[test]
fn chains_agree_with_repeated_division() {
    let mut x = 0.05;
    while x < 40.0 {
        let mut remaining = x;
        let mut twos = 0;
        let mut halves = 0;
        while remaining > 2.0001 {
            twos += 1;
            remaining /= 2.0;
        }
        while remaining < 0.4999 {
            halves += 1;
            remaining /= 0.5;
        }
        assert_eq!(chain(x), (twos, halves, remaining));
        x *= 1.037;
    }
}
