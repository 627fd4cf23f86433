use zoog::gain::{Decibels, FixedPointGain, Gain};

#[test]
fn fixed_point_gain_positive_overflow() {
    let max_gain = FixedPointGain::from_fixed_point(std::i16::MAX);
    let one = FixedPointGain::from_fixed_point(1);
    assert_eq!(max_gain.checked_add(one), None);
    assert_eq!(one.checked_add(max_gain), None);
}

#[test]
fn fixed_point_gain_negative_overflow() {
    let min_gain = FixedPointGain::from_fixed_point(std::i16::MIN);
    let neg_one = FixedPointGain::from_fixed_point(-1);
    assert_eq!(min_gain.checked_add(neg_one), None);
    assert_eq!(neg_one.checked_add(min_gain), None);
}

#[test]
fn fixed_point_gain_negate_lowest_value() {
    let min_gain = FixedPointGain::from_fixed_point(std::i16::MIN);
    assert_eq!(min_gain.checked_neg(), None);
}

#[test]
fn fixed_point_gain_parse_valid() {
    assert_eq!("-32768".parse::<FixedPointGain>(), Ok(FixedPointGain::from_fixed_point(-32768)));
    assert_eq!("-1".parse::<FixedPointGain>(), Ok(FixedPointGain::from_fixed_point(-1)));
    assert_eq!("0".parse::<FixedPointGain>(), Ok(FixedPointGain::from_fixed_point(0)));
    assert_eq!("1".parse::<FixedPointGain>(), Ok(FixedPointGain::from_fixed_point(1)));
    assert_eq!("32767".parse::<FixedPointGain>(), Ok(FixedPointGain::from_fixed_point(32767)));
}

#[test]
fn fixed_point_gain_parse_invalid() {
    assert!("-32769".parse::<FixedPointGain>().is_err());
    assert!("32768".parse::<FixedPointGain>().is_err());
    assert!("0.0".parse::<FixedPointGain>().is_err());
    assert!("".parse::<FixedPointGain>().is_err());
}

#[test]
fn gain_positive_overflow() {
    let max_gain = Gain::from_fixed_point(std::i16::MAX);
    let one = Gain::from_fixed_point(1);
    assert_eq!(max_gain.checked_add(one), None);
    assert_eq!(one.checked_add(max_gain), None);
}

#[test]
fn gain_negative_overflow() {
    let min_gain = Gain::from_fixed_point(std::i16::MIN);
    let neg_one = Gain::from_fixed_point(-1);
    assert_eq!(min_gain.checked_add(neg_one), None);
    assert_eq!(neg_one.checked_add(min_gain), None);
}

#[test]
fn gain_negate_lowest_value() {
    let min_gain = Gain::from_fixed_point(std::i16::MIN);
    assert_eq!(min_gain.checked_neg(), None);
}

#[test]
fn gain_parse_valid() {
    assert_eq!("-32768".parse::<Gain>(), Ok(Gain::from_fixed_point(-32768)));
    assert_eq!("-1".parse::<Gain>(), Ok(Gain::from_fixed_point(-1)));
    assert_eq!("0".parse::<Gain>(), Ok(Gain::from_fixed_point(0)));
    assert_eq!("1".parse::<Gain>(), Ok(Gain::from_fixed_point(1)));
    assert_eq!("32767".parse::<Gain>(), Ok(Gain::from_fixed_point(32767)));
}

#[test]
fn gain_parse_invalid() {
    assert!("-32769".parse::<Gain>().is_err());
    assert!("32768".parse::<Gain>().is_err());
    assert!("0.0".parse::<Gain>().is_err());
    assert!("".parse::<Gain>().is_err());
}

#[test]
fn zero_decibels_is_zero_gain() {
    assert!(FixedPointGain::try_from_decibels(Decibels::default()).unwrap().is_zero());
}

#[test]
fn decibel_round_trip_for_every_value() {
    for value in std::i16::MIN..=std::i16::MAX {
        let gain = FixedPointGain::from_fixed_point(value);
        let back = FixedPointGain::try_from_decibels(gain.as_decibels()).unwrap();
        assert_eq!(gain, back);
    }
}

#[test]
fn rounding_is_half_away_from_zero() {
    // 7.0 dB is 1792 steps; half a step either side rounds away from zero
    assert_eq!(FixedPointGain::try_from_decibels(Decibels::from_whole_db(7)).unwrap().as_fixed_point(), 1792);
    assert_eq!(FixedPointGain::try_from_units(128).unwrap().as_fixed_point(), 1);
    assert_eq!(FixedPointGain::try_from_units(127).unwrap().as_fixed_point(), 0);
    assert_eq!(FixedPointGain::try_from_units(-128).unwrap().as_fixed_point(), -1);
    assert_eq!(FixedPointGain::try_from_units(-127).unwrap().as_fixed_point(), 0);
}

#[test]
fn out_of_range_decibels_are_refused() {
    assert!(matches!(FixedPointGain::try_from_decibels(Decibels::from_whole_db(128)), Err(zoog::Error::GainOutOfBounds)));
    assert!(FixedPointGain::try_from_decibels(Decibels::from_whole_db(-128)).is_ok());
    assert!(FixedPointGain::try_from_decibels(Decibels::from_units(-128 * 65536 - 128)).is_err());
}

#[test]
fn text_form_is_raw_decimal() {
    assert_eq!(FixedPointGain::from_fixed_point(-1280).to_text(), "-1280");
    assert_eq!(FixedPointGain::from_fixed_point(0).to_text(), "0");
    assert_eq!(FixedPointGain::parse("+12"), Some(FixedPointGain::from_fixed_point(12)));
}
