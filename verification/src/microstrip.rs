use vstd::prelude::*;

use crate::fields::{first_of, fails_with, parse_positive, positive_failure};
use crate::numeral::{reads_above_one, trimmed};

verus! {

/// The microstrip section of the calculator: substrate permittivity, trace width,
/// substrate height (both in the selected length unit), frequency, and the three
/// results: characteristic impedance, effective permittivity, guided wavelength.
pub struct MicrostripForm {
    pub er: String,
    pub width: String,
    pub height: String,
    pub dimension_unit: i32,
    pub freq_value: String,
    pub freq_unit: i32,
    pub z0_result: String,
    pub eeff_result: String,
    pub lambda_result: String,
}

/// The formatted outcome of a microstrip calculation.
pub struct MicrostripReadout {
    pub er: String,
    pub width: String,
    pub height: String,
    pub freq_value: String,
    pub z0: String,
    pub eeff: String,
    pub lambda: String,
}

/// The form showing the values of a readout, its unit choices unchanged.
pub open spec fn showing(form: MicrostripForm, r: MicrostripReadout) -> MicrostripForm {
    MicrostripForm {
        er: r.er,
        width: r.width,
        height: r.height,
        freq_value: r.freq_value,
        z0_result: r.z0,
        eeff_result: r.eeff,
        lambda_result: r.lambda,
        ..form
    }
}

/// The report when the substrate permittivity is not above 1.
pub open spec fn impractical_permittivity_text() -> Seq<char> {
    "Relative permittivity should be greater than 1 for a practical microstrip."@
}

/// The first problem with the section's inputs: permittivity, trace width, substrate
/// height and frequency must each hold a number greater than zero, in that order, and
/// then the permittivity must exceed 1.
pub open spec fn microstrip_failure(form: MicrostripForm) -> Option<Seq<char>> {
    first_of(
        positive_failure("Relative permittivity"@, form.er@),
        first_of(
            positive_failure("Trace width"@, form.width@),
            first_of(
                positive_failure("Substrate height"@, form.height@),
                first_of(
                    positive_failure("Frequency"@, form.freq_value@),
                    if reads_above_one(trimmed(form.er@)) {
                        None
                    } else {
                        Some(impractical_permittivity_text())
                    },
                ),
            ),
        ),
    )
}

/// The report when the trace width is not positive relative to the substrate height.
pub open spec fn non_positive_ratio_text() -> Seq<char> {
    "Width to height ratio must be positive."@
}

/// The inputs pass exactly when permittivity, width, height and frequency hold numbers
/// greater than zero and the permittivity reads above 1. Only the permittivity is held
/// to that bound: any positive height, or other values in the result fields, change
/// nothing.
pub proof fn lemma_microstrip_bounds(form: MicrostripForm, height: String, results: MicrostripReadout)
    ensures
        microstrip_failure(form) is None <==> (positive_failure("Relative permittivity"@, form.er@)
            is None && positive_failure("Trace width"@, form.width@) is None && positive_failure(
            "Substrate height"@,
            form.height@,
        ) is None && positive_failure("Frequency"@, form.freq_value@) is None && reads_above_one(
            trimmed(form.er@),
        )),
        positive_failure("Substrate height"@, form.height@) is None && positive_failure(
            "Substrate height"@,
            height@,
        ) is None ==> microstrip_failure(form) == microstrip_failure(
            MicrostripForm { height: height, ..form },
        ),
        microstrip_failure(form) == microstrip_failure(
            MicrostripForm {
                z0_result: results.z0,
                eeff_result: results.eeff,
                lambda_result: results.lambda,
                ..form
            },
        ),
        positive_failure("Relative permittivity"@, form.er@) is Some ==> microstrip_failure(form) == positive_failure("Relative permittivity"@, form.er@),
        positive_failure("Relative permittivity"@, form.er@) is None && positive_failure("Trace width"@, form.width@) is Some ==> microstrip_failure(form) == positive_failure("Trace width"@, form.width@),
        positive_failure("Relative permittivity"@, form.er@) is None && positive_failure("Trace width"@, form.width@) is None && positive_failure("Substrate height"@, form.height@) is Some ==> microstrip_failure(form) == positive_failure("Substrate height"@, form.height@),
        positive_failure("Relative permittivity"@, form.er@) is None && positive_failure("Trace width"@, form.width@) is None && positive_failure("Substrate height"@, form.height@) is None && positive_failure("Frequency"@, form.freq_value@) is Some ==> microstrip_failure(form) == positive_failure("Frequency"@, form.freq_value@),
{
}

/// A calculation shows every value of its readout and keeps the unit choices.
pub proof fn lemma_showing_displays_readout(form: MicrostripForm, r: MicrostripReadout)
    ensures
        showing(form, r).er == r.er,
        showing(form, r).width == r.width,
        showing(form, r).height == r.height,
        showing(form, r).freq_value == r.freq_value,
        showing(form, r).z0_result == r.z0,
        showing(form, r).eeff_result == r.eeff,
        showing(form, r).lambda_result == r.lambda,
        showing(form, r).dimension_unit == form.dimension_unit,
        showing(form, r).freq_unit == form.freq_unit,
{
}

/// Completes a microstrip calculation. The first problem that `microstrip_failure`
/// finds in the inputs is reported and the form is left untouched. Otherwise the
/// computed `readout` is applied: the form shows the normalised inputs and the three
/// results and the status gives the characteristic impedance. `None` in place of a
/// readout says the width-to-height ratio came out not positive, which is reported.
pub fn solve_microstrip(form: &mut MicrostripForm, readout: Option<MicrostripReadout>) -> (status:
    Result<String, String>)
    ensures
        positive_failure("Relative permittivity"@, old(form).er@) is None && positive_failure(
            "Trace width"@,
            old(form).width@,
        ) is None && positive_failure("Substrate height"@, old(form).height@) is None
            && positive_failure("Frequency"@, old(form).freq_value@) is None && reads_above_one(
            trimmed(old(form).er@),
        ) && readout is Some ==> status is Ok,
        status is Ok ==> readout is Some && final(form).er == readout.unwrap().er
            && final(form).width == readout.unwrap().width && final(form).height
            == readout.unwrap().height && final(form).freq_value == readout.unwrap().freq_value
            && final(form).z0_result == readout.unwrap().z0 && final(form).eeff_result
            == readout.unwrap().eeff && final(form).lambda_result == readout.unwrap().lambda
            && final(form).dimension_unit == old(form).dimension_unit && final(form).freq_unit
            == old(form).freq_unit,
        status is Err ==> *final(form) == *old(form),
        match microstrip_failure(*old(form)) {
            Some(failure) => fails_with(status, failure) && *final(form) == *old(form),
            None => match readout {
                None => fails_with(status, non_positive_ratio_text()) && *final(form) == *old(
                    form,
                ),
                Some(r) => {
                    &&& *final(form) == showing(*old(form), r)
                    &&& status is Ok
                    &&& status.unwrap()@
                        == "Calculated microstrip impedance with Hammerstad-Jensen equations: Z0 = "@
                        + r.z0@ + " ohm."@
                },
            },
        },
{
    let er = match parse_positive("Relative permittivity", form.er.as_str()) {
        Err(m) => {
            return Err(m);
        },
        Ok(k) => k,
    };
    if let Err(m) = parse_positive("Trace width", form.width.as_str()) {
        return Err(m);
    }
    if let Err(m) = parse_positive("Substrate height", form.height.as_str()) {
        return Err(m);
    }
    if let Err(m) = parse_positive("Frequency", form.freq_value.as_str()) {
        return Err(m);
    }
    if !er.above_one {
        return Err(
            String::from_str(
                "Relative permittivity should be greater than 1 for a practical microstrip.",
            ),
        );
    }
    match readout {
        None => Err(String::from_str("Width to height ratio must be positive.")),
        Some(r) => {
            let mut text = String::from_str(
                "Calculated microstrip impedance with Hammerstad-Jensen equations: Z0 = ",
            );
            text.append(r.z0.as_str());
            text.append(" ohm.");
            form.er = r.er;
            form.width = r.width;
            form.height = r.height;
            form.freq_value = r.freq_value;
            form.z0_result = r.z0;
            form.eeff_result = r.eeff;
            form.lambda_result = r.lambda;
            Ok(text)
        },
    }
}

} // verus!
