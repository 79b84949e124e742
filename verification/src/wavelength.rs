use vstd::prelude::*;

use crate::fields::{first_of, fails_with, parse_positive, positive_failure};

verus! {

/// The wavelength section of the calculator: relative permittivity and permeability,
/// a frequency and a wavelength, each value with the index of its selected unit.
pub struct WavelengthForm {
    pub eps_r: String,
    pub mu_r: String,
    pub freq_value: String,
    pub freq_unit: i32,
    pub lambda_value: String,
    pub lambda_unit: i32,
}

/// The formatted outcome of a frequency/wavelength conversion: the four field values
/// to display and the converted quantity in SI units (metres or hertz).
pub struct WavelengthReadout {
    pub eps_r: String,
    pub mu_r: String,
    pub freq_value: String,
    pub lambda_value: String,
    pub si_value: String,
}

/// The form showing the values of a readout, its unit choices unchanged.
pub open spec fn showing(form: WavelengthForm, r: WavelengthReadout) -> WavelengthForm {
    WavelengthForm {
        eps_r: r.eps_r,
        mu_r: r.mu_r,
        freq_value: r.freq_value,
        lambda_value: r.lambda_value,
        ..form
    }
}

/// The first field of the section that does not hold what a frequency-to-wavelength
/// conversion needs, in the order permittivity, permeability, frequency.
pub open spec fn freq_to_lambda_failure(form: WavelengthForm) -> Option<Seq<char>> {
    first_of(
        positive_failure("Relative permittivity"@, form.eps_r@),
        first_of(
            positive_failure("Relative permeability"@, form.mu_r@),
            positive_failure("Frequency"@, form.freq_value@),
        ),
    )
}

/// The first field of the section that does not hold what a wavelength-to-frequency
/// conversion needs, in the order permittivity, permeability, wavelength.
pub open spec fn lambda_to_freq_failure(form: WavelengthForm) -> Option<Seq<char>> {
    first_of(
        positive_failure("Relative permittivity"@, form.eps_r@),
        first_of(
            positive_failure("Relative permeability"@, form.mu_r@),
            positive_failure("Wavelength"@, form.lambda_value@),
        ),
    )
}

/// A conversion shows every value of its readout and keeps the unit choices.
pub proof fn lemma_showing_displays_readout(form: WavelengthForm, r: WavelengthReadout)
    ensures
        showing(form, r).eps_r == r.eps_r,
        showing(form, r).mu_r == r.mu_r,
        showing(form, r).freq_value == r.freq_value,
        showing(form, r).lambda_value == r.lambda_value,
        showing(form, r).freq_unit == form.freq_unit,
        showing(form, r).lambda_unit == form.lambda_unit,
{
}

/// A frequency-to-wavelength conversion reads only permittivity, permeability and
/// frequency: it fails exactly when one of them is not a number greater than zero, and
/// whatever the wavelength field holds changes nothing.
pub proof fn lemma_freq_to_lambda_reads_its_inputs(form: WavelengthForm, other: String)
    ensures
        freq_to_lambda_failure(form) is None <==> (positive_failure(
            "Relative permittivity"@,
            form.eps_r@,
        ) is None && positive_failure("Relative permeability"@, form.mu_r@) is None
            && positive_failure("Frequency"@, form.freq_value@) is None),
        freq_to_lambda_failure(form) == freq_to_lambda_failure(
            WavelengthForm { lambda_value: other, ..form },
        ),
        positive_failure("Relative permittivity"@, form.eps_r@) is Some ==> freq_to_lambda_failure(form) == positive_failure("Relative permittivity"@, form.eps_r@),
        positive_failure("Relative permittivity"@, form.eps_r@) is None && positive_failure("Relative permeability"@, form.mu_r@) is Some ==> freq_to_lambda_failure(form) == positive_failure("Relative permeability"@, form.mu_r@),
        positive_failure("Relative permittivity"@, form.eps_r@) is None && positive_failure("Relative permeability"@, form.mu_r@) is None && positive_failure("Frequency"@, form.freq_value@) is Some ==> freq_to_lambda_failure(form) == positive_failure("Frequency"@, form.freq_value@),
{
}

/// A wavelength-to-frequency conversion reads only permittivity, permeability and
/// wavelength: it fails exactly when one of them is not a number greater than zero, and
/// whatever the frequency field holds changes nothing.
pub proof fn lemma_lambda_to_freq_reads_its_inputs(form: WavelengthForm, other: String)
    ensures
        lambda_to_freq_failure(form) is None <==> (positive_failure(
            "Relative permittivity"@,
            form.eps_r@,
        ) is None && positive_failure("Relative permeability"@, form.mu_r@) is None
            && positive_failure("Wavelength"@, form.lambda_value@) is None),
        lambda_to_freq_failure(form) == lambda_to_freq_failure(
            WavelengthForm { freq_value: other, ..form },
        ),
        positive_failure("Relative permittivity"@, form.eps_r@) is Some ==> lambda_to_freq_failure(form) == positive_failure("Relative permittivity"@, form.eps_r@),
        positive_failure("Relative permittivity"@, form.eps_r@) is None && positive_failure("Relative permeability"@, form.mu_r@) is Some ==> lambda_to_freq_failure(form) == positive_failure("Relative permeability"@, form.mu_r@),
        positive_failure("Relative permittivity"@, form.eps_r@) is None && positive_failure("Relative permeability"@, form.mu_r@) is None && positive_failure("Wavelength"@, form.lambda_value@) is Some ==> lambda_to_freq_failure(form) == positive_failure("Wavelength"@, form.lambda_value@),
{
}

fn show(form: &mut WavelengthForm, r: WavelengthReadout) -> (si_value: String)
    ensures
        *final(form) == showing(*old(form), r),
        si_value == r.si_value,
{
    form.eps_r = r.eps_r;
    form.mu_r = r.mu_r;
    form.freq_value = r.freq_value;
    form.lambda_value = r.lambda_value;
    r.si_value
}

/// Completes a frequency-to-wavelength conversion. The permittivity, permeability and
/// frequency fields must each hold a number greater than zero; the first that does not
/// is reported and the form is left untouched. Otherwise the computed `readout` is
/// applied: the form shows the normalised inputs and the wavelength and the status
/// gives the wavelength in metres.
pub fn convert_freq_to_lambda(form: &mut WavelengthForm, readout: WavelengthReadout) -> (status: Result<String, String>)
    ensures
        positive_failure("Relative permittivity"@, old(form).eps_r@) is None
            && positive_failure("Relative permeability"@, old(form).mu_r@) is None
            && positive_failure("Frequency"@, old(form).freq_value@) is None ==> status is Ok,
        status is Ok ==> final(form).eps_r == readout.eps_r && final(form).mu_r == readout.mu_r
            && final(form).freq_value == readout.freq_value && final(form).lambda_value
            == readout.lambda_value && final(form).freq_unit == old(form).freq_unit
            && final(form).lambda_unit == old(form).lambda_unit,
        status is Err ==> *final(form) == *old(form),
        match freq_to_lambda_failure(*old(form)) {
            Some(failure) => fails_with(status, failure) && *final(form) == *old(form),
            None => {
                &&& *final(form) == showing(*old(form), readout)
                &&& status is Ok
                &&& status.unwrap()@ == "Converted frequency to wavelength: "@ + readout.si_value@
                    + " m in the selected medium."@
            },
        },
{
    if let Err(m) = parse_positive("Relative permittivity", form.eps_r.as_str()) {
        return Err(m);
    }
    if let Err(m) = parse_positive("Relative permeability", form.mu_r.as_str()) {
        return Err(m);
    }
    if let Err(m) = parse_positive("Frequency", form.freq_value.as_str()) {
        return Err(m);
    }
    let metres = show(form, readout);
    let mut text = String::from_str("Converted frequency to wavelength: ");
    text.append(metres.as_str());
    text.append(" m in the selected medium.");
    Ok(text)
}

/// Completes a wavelength-to-frequency conversion. The permittivity, permeability and
/// wavelength fields must each hold a number greater than zero; the first that does not
/// is reported and the form is left untouched. Otherwise the computed `readout` is
/// applied: the form shows the normalised inputs and the frequency and the status gives
/// the frequency in hertz.
pub fn convert_lambda_to_freq(form: &mut WavelengthForm, readout: WavelengthReadout) -> (status: Result<String, String>)
    ensures
        positive_failure("Relative permittivity"@, old(form).eps_r@) is None
            && positive_failure("Relative permeability"@, old(form).mu_r@) is None
            && positive_failure("Wavelength"@, old(form).lambda_value@) is None ==> status is Ok,
        status is Ok ==> final(form).eps_r == readout.eps_r && final(form).mu_r == readout.mu_r
            && final(form).freq_value == readout.freq_value && final(form).lambda_value
            == readout.lambda_value && final(form).freq_unit == old(form).freq_unit
            && final(form).lambda_unit == old(form).lambda_unit,
        status is Err ==> *final(form) == *old(form),
        match lambda_to_freq_failure(*old(form)) {
            Some(failure) => fails_with(status, failure) && *final(form) == *old(form),
            None => {
                &&& *final(form) == showing(*old(form), readout)
                &&& status is Ok
                &&& status.unwrap()@ == "Converted wavelength to frequency: "@ + readout.si_value@
                    + " Hz in the selected medium."@
            },
        },
{
    if let Err(m) = parse_positive("Relative permittivity", form.eps_r.as_str()) {
        return Err(m);
    }
    if let Err(m) = parse_positive("Relative permeability", form.mu_r.as_str()) {
        return Err(m);
    }
    if let Err(m) = parse_positive("Wavelength", form.lambda_value.as_str()) {
        return Err(m);
    }
    let hertz = show(form, readout);
    let mut text = String::from_str("Converted wavelength to frequency: ");
    text.append(hertz.as_str());
    text.append(" Hz in the selected medium.");
    Ok(text)
}

} // verus!
