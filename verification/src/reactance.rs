use vstd::prelude::*;

use crate::fields::{first_of, fails_with, parse_positive, positive_failure};
use crate::text::format_impedance;
use crate::text::impedance_text;

verus! {

/// The reactance section of the calculator. `kind` 0 selects an inductor, any other
/// value a capacitor; each `*_unit` is the index of the selected unit.
pub struct ReactanceForm {
    pub freq_value: String,
    pub freq_unit: i32,
    pub kind: i32,
    pub inductance_value: String,
    pub inductance_unit: i32,
    pub capacitance_value: String,
    pub capacitance_unit: i32,
    pub x_value: String,
    pub x_unit: i32,
    pub impedance_text: String,
}

/// The formatted outcome of a reactance calculation: the frequency, the component
/// value and the reactance to display in their selected units, and the reactance
/// magnitude in ohms.
pub struct ReactanceReadout {
    pub freq_value: String,
    pub component_value: String,
    pub x_value: String,
    pub reactance_ohms: String,
}

/// Kind 0 is an inductor.
pub open spec fn is_inductive(kind: i32) -> bool {
    kind == 0
}

/// `after` is `before` showing readout `r`: the value of the selected component
/// (the other one is left alone), the frequency, the reactance and the complex
/// impedance; units and kind are unchanged.
pub open spec fn shows(before: ReactanceForm, after: ReactanceForm, r: ReactanceReadout) -> bool {
    let inductive = is_inductive(before.kind);
    &&& after.freq_value == r.freq_value
    &&& after.freq_unit == before.freq_unit
    &&& after.kind == before.kind
    &&& after.inductance_value == (if inductive {
        r.component_value
    } else {
        before.inductance_value
    })
    &&& after.inductance_unit == before.inductance_unit
    &&& after.capacitance_value == (if inductive {
        before.capacitance_value
    } else {
        r.component_value
    })
    &&& after.capacitance_unit == before.capacitance_unit
    &&& after.x_value == r.x_value
    &&& after.x_unit == before.x_unit
    &&& after.impedance_text@ == impedance_text(r.reactance_ohms@, inductive)
}

/// The first field that does not hold what a component-to-reactance calculation
/// needs: the frequency, then the inductance (inductor) or capacitance (capacitor).
pub open spec fn component_to_reactance_failure(form: ReactanceForm) -> Option<Seq<char>> {
    first_of(
        positive_failure("Frequency"@, form.freq_value@),
        if is_inductive(form.kind) {
            positive_failure("Inductance"@, form.inductance_value@)
        } else {
            positive_failure("Capacitance"@, form.capacitance_value@)
        },
    )
}

/// The first field that does not hold what a reactance-to-component calculation
/// needs: the frequency, then the reactance magnitude.
pub open spec fn reactance_to_component_failure(form: ReactanceForm) -> Option<Seq<char>> {
    first_of(
        positive_failure("Frequency"@, form.freq_value@),
        positive_failure("Reactance magnitude"@, form.x_value@),
    )
}

/// Showing a readout puts the computed value into the field of the selected component
/// (the inductance for an inductor, the capacitance for a capacitor) and leaves the
/// other component's field as it was; frequency, reactance and impedance come from
/// the readout.
pub proof fn lemma_shows_selected_component(
    before: ReactanceForm,
    after: ReactanceForm,
    r: ReactanceReadout,
)
    requires
        shows(before, after, r),
    ensures
        before.kind == 0 ==> after.inductance_value == r.component_value
            && after.capacitance_value == before.capacitance_value,
        before.kind != 0 ==> after.capacitance_value == r.component_value
            && after.inductance_value == before.inductance_value,
        after.freq_value == r.freq_value,
        after.x_value == r.x_value,
        after.impedance_text@ == impedance_text(r.reactance_ohms@, before.kind == 0),
{
}

/// A component-to-reactance calculation reads only the frequency and the selected
/// component's value: it fails exactly when one of them is not a number greater than
/// zero, and the reactance field and the other component's field change nothing.
pub proof fn lemma_component_to_reactance_reads_its_inputs(
    form: ReactanceForm,
    other_x: String,
    other_component: String,
)
    ensures
        component_to_reactance_failure(form) is None <==> (positive_failure(
            "Frequency"@,
            form.freq_value@,
        ) is None && (if form.kind == 0 {
            positive_failure("Inductance"@, form.inductance_value@)
        } else {
            positive_failure("Capacitance"@, form.capacitance_value@)
        }) is None),
        component_to_reactance_failure(form) == component_to_reactance_failure(
            ReactanceForm { x_value: other_x, ..form },
        ),
        form.kind == 0 ==> component_to_reactance_failure(form)
            == component_to_reactance_failure(
            ReactanceForm { capacitance_value: other_component, ..form },
        ),
        form.kind != 0 ==> component_to_reactance_failure(form)
            == component_to_reactance_failure(
            ReactanceForm { inductance_value: other_component, ..form },
        ),
        positive_failure("Frequency"@, form.freq_value@) is Some ==> component_to_reactance_failure(form) == positive_failure("Frequency"@, form.freq_value@),
{
}

/// A reactance-to-component calculation reads only the frequency and the reactance
/// magnitude: it fails exactly when one of them is not a number greater than zero, and
/// the component fields change nothing.
pub proof fn lemma_reactance_to_component_reads_its_inputs(
    form: ReactanceForm,
    other_l: String,
    other_c: String,
)
    ensures
        reactance_to_component_failure(form) is None <==> (positive_failure(
            "Frequency"@,
            form.freq_value@,
        ) is None && positive_failure("Reactance magnitude"@, form.x_value@) is None),
        reactance_to_component_failure(form) == reactance_to_component_failure(
            ReactanceForm { inductance_value: other_l, capacitance_value: other_c, ..form },
        ),
        positive_failure("Frequency"@, form.freq_value@) is Some ==> reactance_to_component_failure(form) == positive_failure("Frequency"@, form.freq_value@),
        positive_failure("Frequency"@, form.freq_value@) is None && positive_failure("Reactance magnitude"@, form.x_value@) is Some ==> reactance_to_component_failure(form) == positive_failure("Reactance magnitude"@, form.x_value@),
{
}

fn show(form: &mut ReactanceForm, r: ReactanceReadout) -> (impedance: String)
    ensures
        shows(*old(form), *final(form), r),
        impedance@ == impedance_text(r.reactance_ohms@, is_inductive(old(form).kind)),
{
    let inductive = form.kind == 0;
    if inductive {
        form.inductance_value = r.component_value;
    } else {
        form.capacitance_value = r.component_value;
    }
    form.freq_value = r.freq_value;
    form.x_value = r.x_value;
    form.impedance_text = format_impedance(r.reactance_ohms.as_str(), inductive);
    form.impedance_text.clone()
}

/// Completes a component-to-reactance calculation. The frequency and the value of the
/// selected component must hold numbers greater than zero; the first that does not is
/// reported and the form is left untouched. Otherwise the computed `readout` is
/// applied: the form shows it and the status names the kind of reactance and gives the
/// impedance.
pub fn convert_component_to_reactance(form: &mut ReactanceForm, readout: ReactanceReadout) -> (status: Result<String, String>)
    ensures
        positive_failure("Frequency"@, old(form).freq_value@) is None && (if old(form).kind == 0 {
            positive_failure("Inductance"@, old(form).inductance_value@)
        } else {
            positive_failure("Capacitance"@, old(form).capacitance_value@)
        }) is None ==> status is Ok,
        status is Ok ==> final(form).freq_value == readout.freq_value && final(form).x_value
            == readout.x_value && final(form).impedance_text@ == impedance_text(
            readout.reactance_ohms@,
            old(form).kind == 0,
        ) && final(form).kind == old(form).kind,
        status is Ok && old(form).kind == 0 ==> final(form).inductance_value
            == readout.component_value && final(form).capacitance_value == old(
            form,
        ).capacitance_value,
        status is Ok && old(form).kind != 0 ==> final(form).capacitance_value
            == readout.component_value && final(form).inductance_value == old(
            form,
        ).inductance_value,
        status is Err ==> *final(form) == *old(form),
        match component_to_reactance_failure(*old(form)) {
            Some(failure) => fails_with(status, failure) && *final(form) == *old(form),
            None => {
                &&& shows(*old(form), *final(form), readout)
                &&& status is Ok
                &&& status.unwrap()@ == (if is_inductive(old(form).kind) {
                    "Calculated inductive reactance: "@
                } else {
                    "Calculated capacitive reactance: "@
                }) + impedance_text(readout.reactance_ohms@, is_inductive(old(form).kind)) + "."@
            },
        },
{
    if let Err(m) = parse_positive("Frequency", form.freq_value.as_str()) {
        return Err(m);
    }
    if form.kind == 0 {
        if let Err(m) = parse_positive("Inductance", form.inductance_value.as_str()) {
            return Err(m);
        }
    } else {
        if let Err(m) = parse_positive("Capacitance", form.capacitance_value.as_str()) {
            return Err(m);
        }
    }
    let inductive = form.kind == 0;
    let impedance = show(form, readout);
    let mut text = if inductive {
        String::from_str("Calculated inductive reactance: ")
    } else {
        String::from_str("Calculated capacitive reactance: ")
    };
    text.append(impedance.as_str());
    text.append(".");
    Ok(text)
}

/// Completes a reactance-to-component calculation. The frequency and the reactance
/// magnitude must hold numbers greater than zero; the first that does not is reported
/// and the form is left untouched. Otherwise the computed `readout` is applied: the
/// form shows it and the status says which component was derived.
pub fn convert_reactance_to_component(form: &mut ReactanceForm, readout: ReactanceReadout) -> (status: Result<String, String>)
    ensures
        positive_failure("Frequency"@, old(form).freq_value@) is None && positive_failure(
            "Reactance magnitude"@,
            old(form).x_value@,
        ) is None ==> status is Ok,
        status is Ok ==> final(form).freq_value == readout.freq_value && final(form).x_value
            == readout.x_value && final(form).impedance_text@ == impedance_text(
            readout.reactance_ohms@,
            old(form).kind == 0,
        ) && final(form).kind == old(form).kind,
        status is Ok && old(form).kind == 0 ==> final(form).inductance_value
            == readout.component_value && final(form).capacitance_value == old(
            form,
        ).capacitance_value,
        status is Ok && old(form).kind != 0 ==> final(form).capacitance_value
            == readout.component_value && final(form).inductance_value == old(
            form,
        ).inductance_value,
        status is Err ==> *final(form) == *old(form),
        match reactance_to_component_failure(*old(form)) {
            Some(failure) => fails_with(status, failure) && *final(form) == *old(form),
            None => {
                &&& shows(*old(form), *final(form), readout)
                &&& status is Ok
                &&& status.unwrap()@ == (if is_inductive(old(form).kind) {
                    "Converted inductive reactance back to inductance."@
                } else {
                    "Converted capacitive reactance back to capacitance."@
                })
            },
        },
{
    if let Err(m) = parse_positive("Frequency", form.freq_value.as_str()) {
        return Err(m);
    }
    if let Err(m) = parse_positive("Reactance magnitude", form.x_value.as_str()) {
        return Err(m);
    }
    let inductive = form.kind == 0;
    let _ = show(form, readout);
    if inductive {
        Ok(String::from_str("Converted inductive reactance back to inductance."))
    } else {
        Ok(String::from_str("Converted capacitive reactance back to capacitance."))
    }
}

} // verus!
