use rf_calc::text::{
    could_not_parse_message, format_impedance, must_be_positive_message, trim_decimal,
    trim_trailing_zeros,
};
use rf_calc::units::{
    capacitance_scale, general_frequency_scale, inductance_scale, microstrip_frequency_scale,
    microstrip_length_scale, react_frequency_scale, reactance_scale, wavelength_scale,
    DecimalScale,
};

fn scale(mantissa: u32, exponent: i32) -> DecimalScale {
    DecimalScale { mantissa, exponent }
}

#[test]
fn trim_decimal_drops_fraction_zeros() {
    assert_eq!(trim_decimal("1.500000"), "1.5");
    assert_eq!(trim_decimal("12.345600"), "12.3456");
}

#[test]
fn trim_decimal_drops_bare_point() {
    assert_eq!(trim_decimal("2.000000"), "2");
    assert_eq!(trim_decimal("0.000"), "0");
    assert_eq!(trim_decimal("7."), "7");
}

#[test]
fn trim_decimal_keeps_integers() {
    assert_eq!(trim_decimal("100"), "100");
    assert_eq!(trim_decimal("-3000"), "-3000");
    assert_eq!(trim_decimal(""), "");
}

#[test]
fn trim_decimal_keeps_significant_fraction() {
    assert_eq!(trim_decimal("0.001"), "0.001");
    assert_eq!(trim_decimal("-0.250000"), "-0.25");
}

#[test]
fn trim_decimal_twice_is_once() {
    for s in ["1.500000", "2.000000", "100", "0.1", "-4.0", "3.14159"] {
        let once = trim_decimal(s);
        assert_eq!(trim_decimal(&once), once);
    }
}

#[test]
fn trim_decimal_result_is_prefix() {
    for s in ["1.500000", "2.000000", "100", "0.0100"] {
        assert!(s.starts_with(&trim_decimal(s)));
    }
}

#[test]
fn trim_trailing_zeros_plain_notation() {
    assert_eq!(trim_trailing_zeros("3.000000".to_string()), "3");
    assert_eq!(trim_trailing_zeros("299792.458000".to_string()), "299792.458");
}

#[test]
fn trim_trailing_zeros_keeps_exponent() {
    assert_eq!(trim_trailing_zeros("1.250000e6".to_string()), "1.25e6");
    assert_eq!(trim_trailing_zeros("1.000000e-9".to_string()), "1e-9");
    assert_eq!(trim_trailing_zeros("-2.997925e8".to_string()), "-2.997925e8");
    assert_eq!(trim_trailing_zeros("5.000000e10".to_string()), "5e10");
}

#[test]
fn trim_trailing_zeros_twice_is_once() {
    for s in ["1.250000e6", "3.000000", "1.000000e-9", "42"] {
        let once = trim_trailing_zeros(s.to_string());
        assert_eq!(trim_trailing_zeros(once.clone()), once);
    }
}

#[test]
fn format_impedance_inductive_and_capacitive() {
    assert_eq!(format_impedance("62.831853", true), "j62.831853 ohm");
    assert_eq!(format_impedance("15.915494", false), "-j15.915494 ohm");
}

#[test]
fn parse_messages() {
    assert_eq!(could_not_parse_message("M11 real"), "Could not parse M11 real.");
    assert_eq!(
        must_be_positive_message("Frequency"),
        "Frequency must be greater than zero."
    );
}

#[test]
fn general_frequency_units() {
    assert_eq!(general_frequency_scale(0), scale(1, 0));
    assert_eq!(general_frequency_scale(2), scale(1, 6));
    assert_eq!(general_frequency_scale(4), scale(1, 12));
    assert_eq!(general_frequency_scale(5), scale(1, 0));
    assert_eq!(general_frequency_scale(-1), scale(1, 0));
}

#[test]
fn wavelength_units() {
    assert_eq!(wavelength_scale(0), scale(1, -6));
    assert_eq!(wavelength_scale(2), scale(1, -2));
    assert_eq!(wavelength_scale(3), scale(1, 0));
    assert_eq!(wavelength_scale(9), scale(1, -3));
}

#[test]
fn reactance_section_units() {
    assert_eq!(react_frequency_scale(0), scale(1, 6));
    assert_eq!(react_frequency_scale(7), scale(1, 9));
    assert_eq!(inductance_scale(3), scale(1, -9));
    assert_eq!(inductance_scale(-2), scale(1, -9));
    assert_eq!(capacitance_scale(1), scale(1, -3));
    assert_eq!(capacitance_scale(5), scale(1, -12));
    assert_eq!(reactance_scale(1), scale(1, 3));
    assert_eq!(reactance_scale(3), scale(1, 0));
}

#[test]
fn microstrip_units() {
    assert_eq!(microstrip_length_scale(0), scale(1, -6));
    assert_eq!(microstrip_length_scale(1), scale(254, -7));
    assert_eq!(microstrip_length_scale(4), scale(254, -4));
    assert_eq!(microstrip_length_scale(6), scale(1, -3));
    assert_eq!(microstrip_frequency_scale(2), scale(1, 12));
    assert_eq!(microstrip_frequency_scale(-1), scale(1, 9));
}

#[test]
fn every_scale_is_positive() {
    for i in -2..8 {
        assert!(general_frequency_scale(i).mantissa > 0);
        assert!(wavelength_scale(i).mantissa > 0);
        assert!(react_frequency_scale(i).mantissa > 0);
        assert!(inductance_scale(i).mantissa > 0);
        assert!(capacitance_scale(i).mantissa > 0);
        assert!(reactance_scale(i).mantissa > 0);
        assert!(microstrip_length_scale(i).mantissa > 0);
        assert!(microstrip_frequency_scale(i).mantissa > 0);
    }
}

#[test]
fn trim_decimal_keeps_value() {
    for s in ["-12.340000", "0.000000", "-0.000000", "100.000000", "3.141593", "7", "-2.500"] {
        let trimmed = trim_decimal(s);
        assert_eq!(trimmed.parse::<f64>().unwrap(), s.parse::<f64>().unwrap(), "{s}");
        assert_eq!(trim_decimal(&trimmed), trimmed);
    }
}
