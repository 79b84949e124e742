use rf_calc::matrix::{
    conversion_between, convert_matrix, promote_matrix_output, Conversion, MatrixEntries,
    MatrixForm, MatrixKind, MatrixReadout,
};
use rf_calc::microstrip::{solve_microstrip, MicrostripForm, MicrostripReadout};
use rf_calc::reactance::{
    convert_component_to_reactance, convert_reactance_to_component, ReactanceForm,
    ReactanceReadout,
};
use rf_calc::wavelength::{
    convert_freq_to_lambda, convert_lambda_to_freq, WavelengthForm, WavelengthReadout,
};

fn entries(prefix: &str) -> MatrixEntries {
    MatrixEntries {
        m11_re: format!("{prefix}1"),
        m11_im: format!("{prefix}2"),
        m12_re: format!("{prefix}3"),
        m12_im: format!("{prefix}4"),
        m21_re: format!("{prefix}5"),
        m21_im: format!("{prefix}6"),
        m22_re: format!("{prefix}7"),
        m22_im: format!("{prefix}8"),
    }
}

fn texts(e: &MatrixEntries) -> [String; 8] {
    [
        e.m11_re.clone(),
        e.m11_im.clone(),
        e.m12_re.clone(),
        e.m12_im.clone(),
        e.m21_re.clone(),
        e.m21_im.clone(),
        e.m22_re.clone(),
        e.m22_im.clone(),
    ]
}

fn matrix_form(from: i32, to: i32) -> MatrixForm {
    MatrixForm {
        from_type: from,
        to_type: to,
        z0: "50".to_string(),
        input: entries("1"),
        output: entries("2"),
    }
}

#[test]
fn matrix_kind_from_index_and_label() {
    assert_eq!(MatrixKind::from_index(0), MatrixKind::Abcd);
    assert_eq!(MatrixKind::from_index(1), MatrixKind::Z);
    assert_eq!(MatrixKind::from_index(2), MatrixKind::Y);
    assert_eq!(MatrixKind::from_index(3), MatrixKind::S);
    assert_eq!(MatrixKind::from_index(4), MatrixKind::Abcd);
    assert_eq!(MatrixKind::from_index(-1), MatrixKind::Abcd);
    assert_eq!(MatrixKind::Abcd.label(), "ABCD");
    assert_eq!(MatrixKind::Z.label(), "Z");
    assert_eq!(MatrixKind::Y.label(), "Y");
    assert_eq!(MatrixKind::S.label(), "S");
}

#[test]
fn same_kind_needs_no_conversion() {
    for k in [MatrixKind::Abcd, MatrixKind::Z, MatrixKind::Y, MatrixKind::S] {
        assert_eq!(conversion_between(k, k), Conversion::Identity);
    }
}

#[test]
fn each_ordered_pair_has_its_conversion() {
    assert_eq!(conversion_between(MatrixKind::Abcd, MatrixKind::Z), Conversion::AbcdToZ);
    assert_eq!(conversion_between(MatrixKind::Abcd, MatrixKind::Y), Conversion::AbcdToY);
    assert_eq!(conversion_between(MatrixKind::Abcd, MatrixKind::S), Conversion::AbcdToS);
    assert_eq!(conversion_between(MatrixKind::Z, MatrixKind::Abcd), Conversion::ZToAbcd);
    assert_eq!(conversion_between(MatrixKind::Z, MatrixKind::Y), Conversion::ZToY);
    assert_eq!(conversion_between(MatrixKind::Z, MatrixKind::S), Conversion::ZToS);
    assert_eq!(conversion_between(MatrixKind::Y, MatrixKind::Abcd), Conversion::YToAbcd);
    assert_eq!(conversion_between(MatrixKind::Y, MatrixKind::Z), Conversion::YToZ);
    assert_eq!(conversion_between(MatrixKind::Y, MatrixKind::S), Conversion::YToS);
    assert_eq!(conversion_between(MatrixKind::S, MatrixKind::Abcd), Conversion::SToAbcd);
    assert_eq!(conversion_between(MatrixKind::S, MatrixKind::Z), Conversion::SToZ);
    assert_eq!(conversion_between(MatrixKind::S, MatrixKind::Y), Conversion::SToY);
}

#[test]
fn singular_messages() {
    assert_eq!(Conversion::Identity.singular_message(), None);
    assert_eq!(
        Conversion::AbcdToZ.singular_message(),
        Some("ABCD to Z conversion is singular because C is too close to zero.")
    );
    assert_eq!(
        Conversion::SToAbcd.singular_message(),
        Some("S to ABCD conversion is singular because S21 is too close to zero.")
    );
    assert_eq!(
        Conversion::ZToY.singular_message(),
        Some("Matrix inversion failed because the determinant is too close to zero.")
    );
    assert_eq!(
        Conversion::SToY.singular_message(),
        Conversion::YToZ.singular_message()
    );
}

#[test]
fn promote_copies_output_into_input() {
    let mut form = matrix_form(0, 3);
    promote_matrix_output(&mut form);
    assert_eq!(form.from_type, 3);
    assert_eq!(form.to_type, 3);
    assert_eq!(texts(&form.input), texts(&entries("2")));
    assert_eq!(texts(&form.output), texts(&entries("2")));
    assert_eq!(form.z0, "50");
}

#[test]
fn promote_twice_is_once() {
    let mut once = matrix_form(1, 2);
    promote_matrix_output(&mut once);
    let mut twice = matrix_form(1, 2);
    promote_matrix_output(&mut twice);
    promote_matrix_output(&mut twice);
    assert_eq!(once.from_type, twice.from_type);
    assert_eq!(texts(&once.input), texts(&twice.input));
}

#[test]
fn convert_matrix_success_fills_output() {
    let mut form = matrix_form(1, 3);
    let status = convert_matrix(
        &mut form,
        Some(MatrixReadout { z0: "50".to_string(), output: entries("3") }),
    );
    assert_eq!(
        status,
        Ok("Converted Z matrix to S matrix using Z0 = 50 ohm.".to_string())
    );
    assert_eq!(texts(&form.output), texts(&entries("3")));
    assert_eq!(texts(&form.input), texts(&entries("1")));
}

#[test]
fn convert_matrix_out_of_range_kinds_read_as_abcd() {
    let mut form = matrix_form(9, 0);
    let status = convert_matrix(
        &mut form,
        Some(MatrixReadout { z0: "75".to_string(), output: entries("4") }),
    );
    assert_eq!(
        status,
        Ok("Converted ABCD matrix to ABCD matrix using Z0 = 75 ohm.".to_string())
    );
}

#[test]
fn convert_matrix_singular_reports_the_conversion() {
    let mut form = matrix_form(0, 1);
    let status = convert_matrix(&mut form, None);
    assert_eq!(
        status,
        Err("ABCD to Z conversion is singular because C is too close to zero.".to_string())
    );
    assert_eq!(texts(&form.output), texts(&entries("2")));
    let mut form = matrix_form(3, 2);
    let status = convert_matrix(&mut form, None);
    assert_eq!(
        status,
        Err("Matrix inversion failed because the determinant is too close to zero.".to_string())
    );
}

#[test]
fn convert_then_promote_feeds_result_back() {
    let mut form = matrix_form(2, 0);
    let _ = convert_matrix(
        &mut form,
        Some(MatrixReadout { z0: "50".to_string(), output: entries("5") }),
    );
    promote_matrix_output(&mut form);
    assert_eq!(form.from_type, 0);
    assert_eq!(texts(&form.input), texts(&entries("5")));
}

fn wavelength_form() -> WavelengthForm {
    WavelengthForm {
        eps_r: "1".to_string(),
        mu_r: "1".to_string(),
        freq_value: "1".to_string(),
        freq_unit: 3,
        lambda_value: "30".to_string(),
        lambda_unit: 2,
    }
}

fn wavelength_readout() -> WavelengthReadout {
    WavelengthReadout {
        eps_r: "1".to_string(),
        mu_r: "1".to_string(),
        freq_value: "1".to_string(),
        lambda_value: "29.979246".to_string(),
        si_value: "0.299792".to_string(),
    }
}

#[test]
fn freq_to_lambda_status_and_fields() {
    let mut form = wavelength_form();
    let status = convert_freq_to_lambda(&mut form, wavelength_readout());
    assert_eq!(
        status,
        Ok("Converted frequency to wavelength: 0.299792 m in the selected medium.".to_string())
    );
    assert_eq!(form.lambda_value, "29.979246");
    assert_eq!(form.freq_unit, 3);
    assert_eq!(form.lambda_unit, 2);
}

#[test]
fn lambda_to_freq_status() {
    let mut form = wavelength_form();
    let mut r = wavelength_readout();
    r.si_value = "1000000000.000000".to_string();
    let status = convert_lambda_to_freq(&mut form, r);
    assert_eq!(
        status,
        Ok("Converted wavelength to frequency: 1000000000.000000 Hz in the selected medium."
            .to_string())
    );
}

#[test]
fn wavelength_failure_leaves_form() {
    let mut form = wavelength_form();
    form.freq_value = "0".to_string();
    let status = convert_freq_to_lambda(&mut form, wavelength_readout());
    assert_eq!(status, Err("Frequency must be greater than zero.".to_string()));
    assert_eq!(form.lambda_value, "30");
}

fn reactance_form(kind: i32) -> ReactanceForm {
    ReactanceForm {
        freq_value: "1".to_string(),
        freq_unit: 1,
        kind,
        inductance_value: "10".to_string(),
        inductance_unit: 3,
        capacitance_value: "1".to_string(),
        capacitance_unit: 4,
        x_value: "62.8".to_string(),
        x_unit: 0,
        impedance_text: "".to_string(),
    }
}

fn reactance_readout() -> ReactanceReadout {
    ReactanceReadout {
        freq_value: "1".to_string(),
        component_value: "10".to_string(),
        x_value: "62.831853".to_string(),
        reactance_ohms: "62.831853".to_string(),
    }
}

#[test]
fn inductive_reactance_calculation() {
    let mut form = reactance_form(0);
    let status = convert_component_to_reactance(&mut form, reactance_readout());
    assert_eq!(
        status,
        Ok("Calculated inductive reactance: j62.831853 ohm.".to_string())
    );
    assert_eq!(form.impedance_text, "j62.831853 ohm");
    assert_eq!(form.x_value, "62.831853");
    assert_eq!(form.capacitance_value, "1");
}

#[test]
fn capacitive_reactance_calculation() {
    let mut form = reactance_form(1);
    let mut r = reactance_readout();
    r.component_value = "2.5".to_string();
    let status = convert_component_to_reactance(&mut form, r);
    assert_eq!(
        status,
        Ok("Calculated capacitive reactance: -j62.831853 ohm.".to_string())
    );
    assert_eq!(form.capacitance_value, "2.5");
    assert_eq!(form.inductance_value, "10");
    assert_eq!(form.impedance_text, "-j62.831853 ohm");
}

#[test]
fn reactance_back_to_component() {
    let mut form = reactance_form(0);
    let status = convert_reactance_to_component(&mut form, reactance_readout());
    assert_eq!(
        status,
        Ok("Converted inductive reactance back to inductance.".to_string())
    );
    let mut form = reactance_form(5);
    let status = convert_reactance_to_component(&mut form, reactance_readout());
    assert_eq!(
        status,
        Ok("Converted capacitive reactance back to capacitance.".to_string())
    );
    assert_eq!(form.capacitance_value, "10");
}

#[test]
fn reactance_failure_leaves_form() {
    let mut form = reactance_form(0);
    form.x_value = "abc".to_string();
    let status = convert_reactance_to_component(&mut form, reactance_readout());
    assert_eq!(status, Err("Could not parse Reactance magnitude.".to_string()));
    assert_eq!(form.x_value, "abc");
    assert_eq!(form.impedance_text, "");
}

fn microstrip_form() -> MicrostripForm {
    MicrostripForm {
        er: "4.4".to_string(),
        width: "3".to_string(),
        height: "1.6".to_string(),
        dimension_unit: 2,
        freq_value: "1".to_string(),
        freq_unit: 1,
        z0_result: "".to_string(),
        eeff_result: "".to_string(),
        lambda_result: "".to_string(),
    }
}

#[test]
fn microstrip_results() {
    let mut form = microstrip_form();
    let status = solve_microstrip(
        &mut form,
        Some(MicrostripReadout {
            er: "4.4".to_string(),
            width: "3".to_string(),
            height: "1.6".to_string(),
            freq_value: "1".to_string(),
            z0: "50.123".to_string(),
            eeff: "3.34".to_string(),
            lambda: "164.1".to_string(),
        }),
    );
    assert_eq!(
        status,
        Ok("Calculated microstrip impedance with Hammerstad-Jensen equations: Z0 = 50.123 ohm."
            .to_string())
    );
    assert_eq!(form.z0_result, "50.123");
    assert_eq!(form.eeff_result, "3.34");
    assert_eq!(form.lambda_result, "164.1");
    assert_eq!(form.dimension_unit, 2);
}

#[test]
fn microstrip_failure_leaves_form() {
    let mut form = microstrip_form();
    let status = solve_microstrip(&mut form, None);
    assert_eq!(status, Err("Width to height ratio must be positive.".to_string()));
    assert_eq!(form.z0_result, "");
}
