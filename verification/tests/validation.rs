use rf_calc::fields::{parse_number, parse_positive};
use rf_calc::matrix::{convert_matrix, MatrixEntries, MatrixForm, MatrixReadout};
use rf_calc::microstrip::{solve_microstrip, MicrostripForm, MicrostripReadout};
use rf_calc::numeral::{classify_number, NumberClass};
use rf_calc::reactance::{convert_component_to_reactance, ReactanceForm, ReactanceReadout};
use rf_calc::wavelength::{convert_freq_to_lambda, WavelengthForm, WavelengthReadout};

/// How std reads the same text, for comparison.
fn std_reading(text: &str) -> Option<NumberClass> {
    text.trim().parse::<f64>().ok().map(|x| NumberClass {
        above_zero: !(x <= 0.0),
        above_one: !(x <= 1.0),
    })
}

const SAMPLES: [&str; 46] = [
    "1", "0", "-0", "+0.0", "50", " 50 ", "\t7.5\n", "1e3", "1E3", "1e+3", "1e-3", "2.5e-1",
    ".5", "5.", "-.5", "+5", "1.0000000000000001", "1.0000000000000002",
    "1.00000000000000011102230246251565404236316680908203125",
    "1.00000000000000011102230246251565404236316680908203126", "0.9999999999999999",
    "1e-400", "2e-324", "3e-324", "2.4703282292062327e-324", "2.4703282292062328e-324",
    "1e400", "-1e400", "inf", "-inf", "Infinity", "+INF", "nan", "NaN", "-nan", "",
    " ", ".", "e5", "1e", "1e+", "1.2.3", "abc", "1,5", "0x10", "12 3",
];

#[test]
fn classify_number_agrees_with_std() {
    for text in SAMPLES {
        assert_eq!(classify_number(text), std_reading(text), "text {text:?}");
    }
}

#[test]
fn classify_number_exponent_counted_as_std_counts_it() {
    let one = format!("0.{}1e655370", "0".repeat(65536));
    let tiny = format!("0.{}1e1000000", "0".repeat(999_999));
    assert_eq!(std_reading(&one), Some(NumberClass { above_zero: true, above_one: false }));
    assert_eq!(classify_number(&one), std_reading(&one));
    assert_eq!(classify_number(&tiny), std_reading(&tiny));
    let big = format!("1{}e-65540", "0".repeat(65600));
    assert_eq!(classify_number(&big), std_reading(&big));
}

#[test]
fn classify_number_long_exponents() {
    for text in [
        "1e99999999999999999999999",
        "1e-99999999999999999999999",
        "0e99999999999999999999999",
        "0.000000000000000000000000000000000001e36",
        "12345678901234567890123456789e-330",
    ] {
        assert_eq!(classify_number(text), std_reading(text), "text {text:?}");
    }
}

#[test]
fn parse_number_reports_unreadable() {
    assert_eq!(
        parse_number("M11 real", "x1"),
        Err("Could not parse M11 real.".to_string())
    );
    assert!(parse_number("M11 real", "-3.5").is_ok());
}

#[test]
fn parse_positive_reports_each_case() {
    assert_eq!(
        parse_positive("Frequency", ""),
        Err("Could not parse Frequency.".to_string())
    );
    assert_eq!(
        parse_positive("Frequency", "-2"),
        Err("Frequency must be greater than zero.".to_string())
    );
    assert_eq!(
        parse_positive("Frequency", "1e-400"),
        Err("Frequency must be greater than zero.".to_string())
    );
    assert!(parse_positive("Frequency", " 2.4 ").is_ok());
    assert!(parse_positive("Frequency", "NaN").is_ok());
}

fn wavelength_form(eps: &str, mu: &str, freq: &str) -> WavelengthForm {
    WavelengthForm {
        eps_r: eps.to_string(),
        mu_r: mu.to_string(),
        freq_value: freq.to_string(),
        freq_unit: 0,
        lambda_value: "1".to_string(),
        lambda_unit: 0,
    }
}

fn any_wavelength_readout() -> WavelengthReadout {
    WavelengthReadout {
        eps_r: "1".to_string(),
        mu_r: "1".to_string(),
        freq_value: "1".to_string(),
        lambda_value: "1".to_string(),
        si_value: "1".to_string(),
    }
}

#[test]
fn wavelength_fields_checked_in_order() {
    let mut form = wavelength_form("a", "b", "c");
    let status = convert_freq_to_lambda(&mut form, any_wavelength_readout());
    assert_eq!(status, Err("Could not parse Relative permittivity.".to_string()));
    let mut form = wavelength_form("2", "0", "c");
    let status = convert_freq_to_lambda(&mut form, any_wavelength_readout());
    assert_eq!(
        status,
        Err("Relative permeability must be greater than zero.".to_string())
    );
    let mut form = wavelength_form("2", "1", "-5");
    let status = convert_freq_to_lambda(&mut form, any_wavelength_readout());
    assert_eq!(status, Err("Frequency must be greater than zero.".to_string()));
    assert_eq!(form.freq_value, "-5");
}

fn matrix_with(z0: &str, m12_im: &str) -> MatrixForm {
    let e = |v: &str| MatrixEntries {
        m11_re: "1".to_string(),
        m11_im: "0".to_string(),
        m12_re: "0".to_string(),
        m12_im: v.to_string(),
        m21_re: "0".to_string(),
        m21_im: "0".to_string(),
        m22_re: "1".to_string(),
        m22_im: "0".to_string(),
    };
    MatrixForm { from_type: 1, to_type: 2, z0: z0.to_string(), input: e(m12_im), output: e("0") }
}

#[test]
fn matrix_fields_checked_in_order() {
    let ok = || {
        Some(MatrixReadout {
            z0: "50".to_string(),
            output: matrix_with("50", "0").input,
        })
    };
    let mut form = matrix_with("0", "?");
    assert_eq!(
        convert_matrix(&mut form, ok()),
        Err("Reference impedance Z0 must be greater than zero.".to_string())
    );
    let mut form = matrix_with("50", "?");
    assert_eq!(
        convert_matrix(&mut form, ok()),
        Err("Could not parse M12 imag.".to_string())
    );
    let mut form = matrix_with("50", "-1");
    assert!(convert_matrix(&mut form, ok()).is_ok());
}

#[test]
fn reactance_checks_selected_component_only() {
    let form = |kind: i32| ReactanceForm {
        freq_value: "1".to_string(),
        freq_unit: 0,
        kind,
        inductance_value: "10".to_string(),
        inductance_unit: 0,
        capacitance_value: "none".to_string(),
        capacitance_unit: 0,
        x_value: "1".to_string(),
        x_unit: 0,
        impedance_text: String::new(),
    };
    let readout = || {
        ReactanceReadout {
            freq_value: "1".to_string(),
            component_value: "10".to_string(),
            x_value: "1".to_string(),
            reactance_ohms: "1".to_string(),
        }
    };
    let mut inductor = form(0);
    assert!(convert_component_to_reactance(&mut inductor, readout()).is_ok());
    let mut capacitor = form(1);
    assert_eq!(
        convert_component_to_reactance(&mut capacitor, readout()),
        Err("Could not parse Capacitance.".to_string())
    );
}

fn microstrip_with(er: &str, width: &str) -> MicrostripForm {
    MicrostripForm {
        er: er.to_string(),
        width: width.to_string(),
        height: "1.6".to_string(),
        dimension_unit: 2,
        freq_value: "1".to_string(),
        freq_unit: 1,
        z0_result: String::new(),
        eeff_result: String::new(),
        lambda_result: String::new(),
    }
}

fn any_microstrip_readout() -> Option<MicrostripReadout> {
    Some(MicrostripReadout {
        er: "4.4".to_string(),
        width: "3".to_string(),
        height: "1.6".to_string(),
        freq_value: "1".to_string(),
        z0: "50".to_string(),
        eeff: "3".to_string(),
        lambda: "100".to_string(),
    })
}

#[test]
fn microstrip_permittivity_must_exceed_one() {
    let impractical =
        Err("Relative permittivity should be greater than 1 for a practical microstrip."
            .to_string());
    let mut form = microstrip_with("1", "3");
    assert_eq!(solve_microstrip(&mut form, any_microstrip_readout()), impractical);
    let mut form = microstrip_with("1.00000000000000001", "3");
    assert_eq!(solve_microstrip(&mut form, any_microstrip_readout()), impractical);
    let mut form = microstrip_with("1.0000000000000003", "3");
    assert!(solve_microstrip(&mut form, any_microstrip_readout()).is_ok());
}

#[test]
fn microstrip_fields_checked_before_permittivity_bound() {
    let mut form = microstrip_with("1", "w");
    assert_eq!(
        solve_microstrip(&mut form, any_microstrip_readout()),
        Err("Could not parse Trace width.".to_string())
    );
    let mut form = microstrip_with("-1", "w");
    assert_eq!(
        solve_microstrip(&mut form, any_microstrip_readout()),
        Err("Relative permittivity must be greater than zero.".to_string())
    );
}
