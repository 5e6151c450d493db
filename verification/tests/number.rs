use facet_filter::number::{
    interval_is_void, Bound, Number, LATITUDE_MAX_KEY, LATITUDE_MIN_KEY, LONGITUDE_MAX_KEY,
    LONGITUDE_MIN_KEY, ZERO_KEY,
};

fn of(value: f64) -> Number {
    Number::from_bits(value.to_bits()).unwrap()
}

#[test]
fn keys_order_as_the_numbers_do() {
    let values = [
        f64::MIN,
        -1.0e300,
        -180.0,
        -90.0000001,
        -90.0,
        -2.5,
        -1.0,
        -f64::MIN_POSITIVE,
        -5e-324,
        0.0,
        5e-324,
        f64::MIN_POSITIVE,
        0.5,
        1.0,
        13.0005,
        22.0,
        44.0,
        90.0,
        180.0,
        180.000001,
        2000.5,
        1.0e300,
        f64::MAX,
    ];
    for pair in values.windows(2) {
        assert!(of(pair[0]).key < of(pair[1]).key, "{} < {}", pair[0], pair[1]);
    }
    assert!(Number::lowest().key <= of(f64::MIN).key);
    assert!(of(f64::MAX).key <= Number::highest().key);
}

#[test]
fn the_two_zeros_share_a_key() {
    assert_eq!(of(0.0), of(-0.0));
    assert_eq!(of(0.0).key, ZERO_KEY);
    assert_eq!(of(-0.0).to_bits(), 0.0f64.to_bits());
}

#[test]
fn what_is_not_finite_has_no_key() {
    assert_eq!(Number::from_bits(f64::INFINITY.to_bits()), None);
    assert_eq!(Number::from_bits(f64::NEG_INFINITY.to_bits()), None);
    assert_eq!(Number::from_bits(f64::NAN.to_bits()), None);
    assert_eq!(Number::from_bits((-f64::NAN).to_bits()), None);
}

#[test]
fn bits_come_back_from_keys() {
    for value in [f64::MIN, -180.0, -1.5, 5e-324, 1.0, 13.0005, 90.0, f64::MAX] {
        assert_eq!(f64::from_bits(of(value).to_bits()), value);
    }
}

#[test]
fn bounds_of_positions() {
    assert_eq!(of(-90.0).key, LATITUDE_MIN_KEY);
    assert_eq!(of(90.0).key, LATITUDE_MAX_KEY);
    assert_eq!(of(-180.0).key, LONGITUDE_MIN_KEY);
    assert_eq!(of(180.0).key, LONGITUDE_MAX_KEY);
}

#[test]
fn ends_of_intervals() {
    let three = of(3.0);
    let four = of(4.0);
    assert!(Bound::Included(three).is_left_of(three));
    assert!(!Bound::Excluded(three).is_left_of(three));
    assert!(Bound::Excluded(three).is_left_of(four));
    assert!(Bound::Included(three).is_right_of(three));
    assert!(!Bound::Excluded(three).is_right_of(three));
    assert!(!Bound::Included(three).is_right_of(four));

    assert!(!interval_is_void(&Bound::Included(three), &Bound::Included(three)));
    assert!(interval_is_void(&Bound::Included(four), &Bound::Included(three)));
    assert!(interval_is_void(&Bound::Included(three), &Bound::Excluded(three)));
    assert!(interval_is_void(&Bound::Excluded(three), &Bound::Included(three)));
    assert!(interval_is_void(&Bound::Excluded(three), &Bound::Excluded(three)));
    assert!(!interval_is_void(&Bound::Excluded(three), &Bound::Excluded(four)));
}
