use atum::math::length::Length;

#[test]
fn inches_pass_through() {
    assert_eq!(Length::from_inches(24_000_000).as_inches(), 24_000_000);
    assert_eq!(Length::default(), Length(0));
}

#[test]
fn meters_to_inches() {
    assert_eq!(Length::from_meters(1_000_000), Length(39_370_079));
    assert_eq!(Length::from_meters(2_000_000), Length(78_740_158));
    assert_eq!(Length::from_meters(-1_000_000), Length(-39_370_079));
}

#[test]
fn millimeters_to_inches() {
    // 25.4 mm are an inch, up to the rounding of the factor
    assert_eq!(Length::from_millimeters(25_400_000), Length(1_000_000));
    assert_eq!(Length::from_millimeters(1_000_000_000), Length(39_370_079));
}

#[test]
fn inches_to_meters_and_millimeters() {
    assert_eq!(Length(39_370_079).as_meters(), 1_000_000);
    assert_eq!(Length(39_370_079).as_millimeters(), 1_000_000_000);
    assert_eq!(Length(0).as_meters(), 0);
}

#[test]
fn length_operators() {
    assert_eq!(Length(3) + Length(4), Length(7));
    assert_eq!(Length(3) - Length(4), Length(-1));
    assert_eq!(-Length(3), Length(-3));
    assert_eq!(Length(3_000_000) * 2_000_000, Length(6_000_000));
    assert_eq!(Length(3_000_000) / 2_000_000, Length(1_500_000));
    assert_eq!(Length(-3).abs(), Length(3));
}
