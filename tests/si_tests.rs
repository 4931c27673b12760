use si_units::calc::{CalcWarning, DemoCalc, DemoMode};
use si_units::decimal::Decimal;
use si_units::scale::SIScale;
use si_units::si::{ParseError, SINumber, SIUnit};

const ALL: [SIScale; 6] = [
    SIScale::Unit,
    SIScale::Milli,
    SIScale::Micro,
    SIScale::Nano,
    SIScale::Pico,
    SIScale::Femto,
];

#[test]
fn scale_factor_test() {
    assert_eq!(SIScale::Milli.mul(Decimal::new(1123456, -6)), Decimal::new(1123456, -9));
}

#[test]
fn si_parse_test() {
    // Metre/millimetre edge case
    assert_eq!(
        SINumber::from_str("1m", SIUnit::Metre).unwrap(),
        SINumber::new(Decimal::new(1, 0), SIScale::Unit, SIUnit::Metre)
    );
    assert_eq!(
        SINumber::from_str("1mm", SIUnit::Metre).unwrap(),
        SINumber::new(Decimal::new(1, 0), SIScale::Milli, SIUnit::Metre)
    );

    // Smaller units
    assert_eq!(
        SINumber::from_str("1um", SIUnit::Metre).unwrap(),
        SINumber::new(Decimal::new(1, 0), SIScale::Micro, SIUnit::Metre)
    );
    assert_eq!(
        SINumber::from_str("1nm", SIUnit::Metre).unwrap(),
        SINumber::new(Decimal::new(1, 0), SIScale::Nano, SIUnit::Metre)
    );
    assert_eq!(
        SINumber::from_str("1fm", SIUnit::Metre).unwrap(),
        SINumber::new(Decimal::new(1, 0), SIScale::Femto, SIUnit::Metre)
    );
}

#[test]
fn factor_times_inverse_is_one() {
    for s in ALL {
        assert_eq!(s.get_scale_factor().mul(s.get_inverse_scale_factor()), Decimal::new(1, 0));
    }
    assert_eq!(SIScale::Nano.get_scale_factor(), Decimal::new(1, -9));
    assert_eq!(SIScale::Pico.get_inverse_scale_factor(), Decimal::new(1, 12));
    assert_eq!(SIScale::Micro.neg(), Decimal::new(1, 6));
}

#[test]
fn scale_div_is_inverse_of_mul() {
    let x = Decimal::new(47, 2);
    assert_eq!(SIScale::Micro.div(x), Decimal::new(47, 8));
    assert_eq!(SIScale::Micro.mul(SIScale::Micro.div(x)), x);
}

#[test]
fn steps_saturate() {
    let mut s = SIScale::Femto;
    for _ in 0..6 {
        s = s.shift_up();
    }
    assert_eq!(s, SIScale::Unit);
    assert_eq!(SIScale::Unit.shift_up(), SIScale::Unit);
    let mut t = SIScale::Unit;
    for _ in 0..6 {
        t = t.shift_down();
    }
    assert_eq!(t, SIScale::Femto);
    assert_eq!(SIScale::Femto.shift_down(), SIScale::Femto);
    assert_eq!(SIScale::Nano.shift_up(), SIScale::Micro);
    assert_eq!(SIScale::Nano.shift_down(), SIScale::Pico);
}

#[test]
fn scale_tags() {
    let tags = ["", "m", "u", "n", "p", "f"];
    for (s, t) in ALL.iter().zip(tags.iter()) {
        assert_eq!(s.symbol(), *t);
        assert_eq!(SIScale::from_str(t), Ok(*s));
    }
    assert_eq!(SIScale::parse_char(Some('p')), Ok(SIScale::Pico));
    assert_eq!(SIScale::parse_char(None), Ok(SIScale::Unit));
    assert_eq!(SIScale::parse_char(Some('k')), Err('k'));
    assert_eq!(SIScale::from_str("xF"), Err('x'));
    assert_eq!(SIScale::from_char('n'), SIScale::Nano);
    assert_eq!(SIScale::from_char('q'), SIScale::Unit);
}

#[test]
fn unit_symbols() {
    assert_eq!(SIUnit::Farad.symbol(), "F");
    assert_eq!(SIUnit::Second.symbol(), "s");
    assert_eq!(SIUnit::Ohm.symbol(), "o");
    assert_eq!(SIUnit::Metre.symbol(), "m");
    assert_eq!(SIUnit::from_str("mF"), Ok(SIUnit::Farad));
    assert_eq!(SIUnit::from_str("kS"), Ok(SIUnit::Second));
    assert_eq!(SIUnit::from_str("ko"), Ok(SIUnit::Ohm));
    assert_eq!(SIUnit::from_str("m"), Err('m'));
}

#[test]
fn normalize_large_stays_at_unit() {
    let mut q = SINumber::new(Decimal::new(1_500_000, 0), SIScale::Unit, SIUnit::Ohm);
    q.adjust_scale();
    assert_eq!(q, SINumber::new(Decimal::new(1_500_000, 0), SIScale::Unit, SIUnit::Ohm));
}

#[test]
fn normalize_small_steps_down() {
    let mut q = SINumber::new(Decimal::new(5, -4), SIScale::Unit, SIUnit::Farad);
    assert_eq!(SIScale::Milli.div(q.val), Decimal::new(5, -1));
    q.adjust_scale();
    assert_eq!(q.scale, SIScale::Micro);
    assert_eq!(q.val, Decimal::new(5, -4));
    assert_eq!(q.display_value(), Decimal::new(5, 2));
}

#[test]
fn normalize_steps_up_from_femto() {
    let mut q = SINumber::new(Decimal::new(2, -6), SIScale::Femto, SIUnit::Second);
    q.adjust_scale();
    assert_eq!(q.scale, SIScale::Micro);
    assert_eq!(q.display_value(), Decimal::new(2, 0));
}

#[test]
fn normalize_tiny_stops_at_femto() {
    let mut q = SINumber::new(Decimal::new(3, -20), SIScale::Unit, SIUnit::Farad);
    q.adjust_scale();
    assert_eq!(q.scale, SIScale::Femto);
}

#[test]
fn normalize_zero_keeps_scale() {
    let mut q = SINumber::new(Decimal::new(0, 0), SIScale::Nano, SIUnit::Farad);
    q.adjust_scale();
    assert_eq!(q.scale, SIScale::Nano);
}

#[test]
fn normalize_negative_uses_magnitude() {
    let mut q = SINumber::new(Decimal::new(-25, -3), SIScale::Unit, SIUnit::Second);
    q.adjust_scale();
    assert_eq!(q.scale, SIScale::Milli);
}

#[test]
fn normalize_twice_is_once() {
    let mut q = SINumber::new(Decimal::new(5, -4), SIScale::Unit, SIUnit::Farad);
    q.adjust_scale();
    let once = q;
    q.adjust_scale();
    assert_eq!(q, once);
    assert_eq!(once.normalized(), once);
    let fresh = SINumber::new(Decimal::new(42, 4), SIScale::Pico, SIUnit::Ohm);
    assert_eq!(fresh.normalized().scale, SIScale::Unit);
    assert_eq!(fresh.scale, SIScale::Pico);
}

#[test]
fn unknown_suffix_is_unit() {
    assert_eq!(
        SINumber::from_str("5x", SIUnit::Farad),
        Ok(SINumber::new(Decimal::new(5, 0), SIScale::Unit, SIUnit::Farad))
    );
    assert_eq!(SINumber::from_str("5", SIUnit::Farad).unwrap().scale, SIScale::Unit);
    assert_eq!(SINumber::from_str("5u ", SIUnit::Farad).unwrap().scale, SIScale::Unit);
}

#[test]
fn parse_decimal_values() {
    assert_eq!(
        SINumber::from_str("1.25mF", SIUnit::Farad),
        Ok(SINumber::new(Decimal::new(125, -2), SIScale::Milli, SIUnit::Farad))
    );
    assert_eq!(SINumber::from_str(".5", SIUnit::Ohm).unwrap().val, Decimal::new(5, -1));
    assert_eq!(SINumber::from_str("7.", SIUnit::Ohm).unwrap().val, Decimal::new(7, 0));
    assert_eq!(SINumber::from_str("42", SIUnit::Second).unwrap().val, Decimal::new(42, 0));
    assert_eq!(SINumber::from_str("3pF", SIUnit::Farad).unwrap().scale, SIScale::Pico);
    assert_eq!(SINumber::from_str("2m", SIUnit::Second).unwrap().scale, SIScale::Milli);
}

#[test]
fn parse_errors() {
    assert_eq!(SINumber::from_str("", SIUnit::Farad), Err(ParseError::Malformed));
    assert_eq!(SINumber::from_str("mF", SIUnit::Farad), Err(ParseError::Malformed));
    assert_eq!(SINumber::from_str(".", SIUnit::Farad), Err(ParseError::Malformed));
    assert_eq!(SINumber::from_str("1.2.3", SIUnit::Farad), Err(ParseError::Malformed));
    assert_eq!(
        SINumber::from_str("9223372036854775807", SIUnit::Farad).unwrap().val,
        Decimal::new(i64::MAX, 0)
    );
}

#[test]
fn parse_long_numerals_keeps_leading_digits() {
    assert_eq!(
        SINumber::from_str("99999999999999999999", SIUnit::Farad).unwrap().val,
        Decimal::new(999_999_999_999_999_999, 2)
    );
    assert_eq!(
        SINumber::from_str("1.00000000000000000000", SIUnit::Farad).unwrap().val,
        Decimal::new(1_000_000_000_000_000_000, -18)
    );
    assert_eq!(
        SINumber::from_str("12345678901234567890123.5nF", SIUnit::Farad),
        Ok(SINumber::new(Decimal::new(1_234_567_890_123_456_789, 4), SIScale::Nano, SIUnit::Farad))
    );
    assert_eq!(
        SINumber::from_str("0.000000000000000000000000000001", SIUnit::Ohm).unwrap().val,
        Decimal::new(1, -30)
    );
}

#[test]
fn scale_from_collected_letters() {
    assert_eq!(SINumber::scale_from_letters(&vec!['m'], true, SIUnit::Metre), SIScale::Unit);
    assert_eq!(SINumber::scale_from_letters(&vec!['m', 'm'], true, SIUnit::Metre), SIScale::Milli);
    assert_eq!(SINumber::scale_from_letters(&vec!['m'], true, SIUnit::Farad), SIScale::Milli);
    assert_eq!(SINumber::scale_from_letters(&vec!['u', 'F'], false, SIUnit::Farad), SIScale::Unit);
    assert_eq!(SINumber::scale_from_letters(&vec!['x', 'F'], true, SIUnit::Farad), SIScale::Unit);
    assert_eq!(SINumber::scale_from_letters(&vec![], true, SIUnit::Farad), SIScale::Unit);
    assert_eq!(SINumber::scale_from_letters(&vec!['p', 'F'], true, SIUnit::Farad), SIScale::Pico);
}

#[test]
fn quantity_times_value() {
    let q = SINumber::new(Decimal::new(3, 0), SIScale::Milli, SIUnit::Farad);
    assert_eq!(q.mul(Decimal::new(2, 1)), Decimal::new(6, -2));
}

#[test]
fn demo_modes() {
    let c = DemoCalc;
    assert_eq!(c.select_mode("add"), Ok(DemoMode::Add));
    assert_eq!(c.select_mode("sub"), Ok(DemoMode::Sub));
    assert_eq!(c.select_mode("mul"), Ok(DemoMode::Mul));
    assert_eq!(c.select_mode("div"), Ok(DemoMode::Div));
    assert_eq!(c.select_mode("pow"), Err("Invalid mode".to_string()));
    assert_eq!(c.get_info().title, "DEMO CALCULATOR");
    assert_eq!(CalcWarning::from("careful").text, "careful");
}
