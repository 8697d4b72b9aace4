use graphics::scalar::Scalar;

fn s(v: f64) -> Scalar {
    Scalar::from_micros((v * 1e6).round() as i64)
}

#[test]
fn scalar_text_of_whole_and_fractional_values() {
    assert_eq!(Scalar::from_micros(1_500_000).to_string(), "1.5");
    assert_eq!(Scalar::from_micros(-250_000).to_string(), "-0.25");
    assert_eq!(Scalar::from_units(10).to_string(), "10");
    assert_eq!(Scalar::from_micros(1).to_string(), "0.000001");
    assert_eq!(Scalar::from_micros(0).to_string(), "0");
    assert_eq!(Scalar::from_micros(-1).to_string(), "-0.000001");
    assert_eq!(Scalar::from_micros(100_000).to_string(), "0.1");
    assert_eq!(Scalar::from_micros(1_050_000).to_string(), "1.05");
    assert_eq!(Scalar::from_micros(123_456_789).to_string(), "123.456789");
    assert_eq!(Scalar::from_micros(i64::MAX).to_string(), "9223372036854.775807");
    assert_eq!(Scalar::from_micros(i64::MIN).to_string(), "-9223372036854.775808");
}

#[test]
fn scalar_text_agrees_with_floats_on_short_decimals() {
    for v in [0.0f64, 1.0, 10.0, 0.5, 0.25, 12.75, -3.5, 100.0, 0.001] {
        assert_eq!(s(v).to_string(), format!("{}", v as f32));
    }
}

#[test]
fn scalar_sums_saturate() {
    assert_eq!(s(1.5).plus(s(2.25)), s(3.75));
    assert_eq!(s(1.5).minus(s(2.25)), s(-0.75));
    assert_eq!(Scalar::largest().plus(s(1.0)), Scalar::largest());
    assert_eq!(Scalar::smallest().minus(s(1.0)), Scalar::smallest());
    assert_eq!(Scalar::smallest().negated(), Scalar::largest());
    assert_eq!(Scalar::largest().negated(), Scalar::from_micros(-i64::MAX));
    assert_eq!(s(2.0).negated(), s(-2.0));
}

#[test]
fn scalar_products_round_to_the_nearest_millionth() {
    assert_eq!(s(2.0).times(s(3.0)), s(6.0));
    assert_eq!(s(0.5).times(s(0.5)), s(0.25));
    assert_eq!(s(-2.0).times(s(0.001)), s(-0.002));
    // 0.000001 * 0.5 is half a millionth: the tie goes away from zero.
    assert_eq!(Scalar::from_micros(1).times(s(0.5)), Scalar::from_micros(1));
    assert_eq!(Scalar::from_micros(-1).times(s(0.5)), Scalar::from_micros(-1));
    assert_eq!(Scalar::from_micros(1).times(s(0.4)), Scalar::from_micros(0));
    assert_eq!(Scalar::largest().times(s(2.0)), Scalar::largest());
    assert_eq!(Scalar::largest().times(s(-2.0)), Scalar::smallest());
    assert_eq!(Scalar::smallest().times(Scalar::smallest()), Scalar::largest());
    assert_eq!(s(7.25).times(s(1.0)), s(7.25));
}

#[test]
fn scalar_half_and_round2() {
    assert_eq!(s(10.0).half(), s(5.0));
    assert_eq!(Scalar::from_micros(3).half(), Scalar::from_micros(2));
    assert_eq!(Scalar::from_micros(-3).half(), Scalar::from_micros(-2));
    assert_eq!(s(1.234).round2(), s(1.23));
    assert_eq!(s(1.235).round2(), s(1.24));
    assert_eq!(s(-1.235).round2(), s(-1.24));
    assert_eq!(s(105.0).round2(), s(105.0));
    assert_eq!(Scalar::largest().round2(), Scalar::largest());
}

#[test]
fn scalar_min_max_and_units() {
    assert_eq!(s(1.0).min(s(2.0)), s(1.0));
    assert_eq!(s(1.0).max(s(2.0)), s(2.0));
    assert_eq!(s(-1.0).min(s(-2.0)), s(-2.0));
    assert_eq!(Scalar::from_units(3), s(3.0));
    assert_eq!(Scalar::from_units(i64::MAX), Scalar::largest());
    assert_eq!(Scalar::from_units(i64::MIN), Scalar::smallest());
    assert_eq!(Scalar::zero(), s(0.0));
}

#[test]
fn scalar_toward_goes_two_thirds_of_the_way() {
    assert_eq!(s(0.0).toward(s(3.0)), s(2.0));
    assert_eq!(s(3.0).toward(s(0.0)), s(1.0));
    assert_eq!(s(0.0).toward(s(10.0)), Scalar::from_micros(6_666_667));
    assert_eq!(s(20.0).toward(s(10.0)), Scalar::from_micros(13_333_333));
    assert_eq!(Scalar::smallest().toward(Scalar::largest()).micros, 3074457345618258602);
}
