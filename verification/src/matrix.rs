use vstd::prelude::*;

use crate::fields::{first_of, fails_with, number_failure, parse_number, parse_positive, positive_failure};
use crate::numeral::{is_float_text, trimmed};

verus! {

/// The four two-port network representations the calculator converts between.
#[derive(Clone, Copy, Debug, PartialEq, Eq, Structural)]
pub enum MatrixKind {
    Abcd,
    Z,
    Y,
    S,
}

impl MatrixKind {
    /// The kind selected by a combo-box index (ABCD for any index outside `0..=3`).
    pub open spec fn from_index_spec(index: i32) -> MatrixKind {
        if index == 1 {
            MatrixKind::Z
        } else if index == 2 {
            MatrixKind::Y
        } else if index == 3 {
            MatrixKind::S
        } else {
            MatrixKind::Abcd
        }
    }

    /// The kind selected by a combo-box index; any index outside `0..=3` selects ABCD.
    pub fn from_index(index: i32) -> (kind: MatrixKind)
        ensures
            index == 0 ==> kind == MatrixKind::Abcd,
            index == 1 ==> kind == MatrixKind::Z,
            index == 2 ==> kind == MatrixKind::Y,
            index == 3 ==> kind == MatrixKind::S,
            !(0 <= index <= 3) ==> kind == MatrixKind::Abcd,
            kind == MatrixKind::from_index_spec(index),
    {
        match index {
            0 => MatrixKind::Abcd,
            1 => MatrixKind::Z,
            2 => MatrixKind::Y,
            3 => MatrixKind::S,
            _ => MatrixKind::Abcd,
        }
    }

    /// The display name of the kind.
    pub open spec fn label_text(self) -> Seq<char> {
        match self {
            MatrixKind::Abcd => "ABCD"@,
            MatrixKind::Z => "Z"@,
            MatrixKind::Y => "Y"@,
            MatrixKind::S => "S"@,
        }
    }

    /// The display name of the kind: "ABCD", "Z", "Y" or "S".
    pub fn label(self) -> (text: &'static str)
        ensures
            text@ == self.label_text(),
    {
        match self {
            MatrixKind::Abcd => "ABCD",
            MatrixKind::Z => "Z",
            MatrixKind::Y => "Y",
            MatrixKind::S => "S",
        }
    }
}

/// The transformation that turns a matrix of one kind into another kind.
#[derive(Clone, Copy, Debug, PartialEq, Eq, Structural)]
pub enum Conversion {
    Identity,
    AbcdToZ,
    AbcdToY,
    AbcdToS,
    ZToAbcd,
    ZToY,
    ZToS,
    YToAbcd,
    YToZ,
    YToS,
    SToAbcd,
    SToZ,
    SToY,
}

impl Conversion {
    /// The kind a non-identity conversion reads.
    pub open spec fn source(self) -> MatrixKind {
        match self {
            Conversion::AbcdToZ | Conversion::AbcdToY | Conversion::AbcdToS => MatrixKind::Abcd,
            Conversion::ZToAbcd | Conversion::ZToY | Conversion::ZToS => MatrixKind::Z,
            Conversion::YToAbcd | Conversion::YToZ | Conversion::YToS => MatrixKind::Y,
            Conversion::SToAbcd | Conversion::SToZ | Conversion::SToY => MatrixKind::S,
            Conversion::Identity => MatrixKind::Abcd,
        }
    }

    /// The kind a non-identity conversion produces.
    pub open spec fn target(self) -> MatrixKind {
        match self {
            Conversion::ZToAbcd | Conversion::YToAbcd | Conversion::SToAbcd => MatrixKind::Abcd,
            Conversion::AbcdToZ | Conversion::YToZ | Conversion::SToZ => MatrixKind::Z,
            Conversion::AbcdToY | Conversion::ZToY | Conversion::SToY => MatrixKind::Y,
            Conversion::AbcdToS | Conversion::ZToS | Conversion::YToS => MatrixKind::S,
            Conversion::Identity => MatrixKind::Abcd,
        }
    }

    /// The message reported when the conversion meets a (numerically) singular input;
    /// the identity never fails.
    pub open spec fn singular_text(self) -> Option<Seq<char>> {
        match self {
            Conversion::Identity => None,
            Conversion::AbcdToZ => Some(
                "ABCD to Z conversion is singular because C is too close to zero."@,
            ),
            Conversion::ZToAbcd => Some(
                "Z to ABCD conversion is singular because Z21 is too close to zero."@,
            ),
            Conversion::AbcdToY => Some(
                "ABCD to Y conversion is singular because B is too close to zero."@,
            ),
            Conversion::YToAbcd => Some(
                "Y to ABCD conversion is singular because Y21 is too close to zero."@,
            ),
            Conversion::AbcdToS => Some(
                "ABCD to S conversion is singular because the denominator is too close to zero."@,
            ),
            Conversion::SToAbcd => Some(
                "S to ABCD conversion is singular because S21 is too close to zero."@,
            ),
            Conversion::ZToY | Conversion::YToZ | Conversion::ZToS | Conversion::SToZ
            | Conversion::YToS | Conversion::SToY => Some(
                "Matrix inversion failed because the determinant is too close to zero."@,
            ),
        }
    }

    /// The message of the conversion's singular case: a zero `C` (ABCD to Z), `Z21`,
    /// `B`, `Y21`, `S21`, a vanishing S-parameter denominator, or, for every conversion
    /// that inverts a matrix (Z to Y, Y to Z, and all those between Z or Y and S),
    /// a vanishing determinant.
    pub fn singular_message(self) -> (message: Option<&'static str>)
        ensures
            message is Some <==> self.singular_text() is Some,
            message matches Some(m) ==> m@ == self.singular_text().unwrap(),
    {
        match self {
            Conversion::Identity => None,
            Conversion::AbcdToZ => Some(
                "ABCD to Z conversion is singular because C is too close to zero.",
            ),
            Conversion::ZToAbcd => Some(
                "Z to ABCD conversion is singular because Z21 is too close to zero.",
            ),
            Conversion::AbcdToY => Some(
                "ABCD to Y conversion is singular because B is too close to zero.",
            ),
            Conversion::YToAbcd => Some(
                "Y to ABCD conversion is singular because Y21 is too close to zero.",
            ),
            Conversion::AbcdToS => Some(
                "ABCD to S conversion is singular because the denominator is too close to zero.",
            ),
            Conversion::SToAbcd => Some(
                "S to ABCD conversion is singular because S21 is too close to zero.",
            ),
            Conversion::ZToY | Conversion::YToZ | Conversion::ZToS | Conversion::SToZ
            | Conversion::YToS | Conversion::SToY => Some(
                "Matrix inversion failed because the determinant is too close to zero.",
            ),
        }
    }
}

/// The conversion from one matrix kind to another: none between equal kinds, else the
/// one whose source and target they are.
pub open spec fn conversion_spec(from: MatrixKind, to: MatrixKind) -> Conversion {
    if from == to {
        Conversion::Identity
    } else {
        choose|c: Conversion| c != Conversion::Identity && c.source() == from && c.target() == to
    }
}

/// Picks the conversion from one matrix kind to another: equal kinds need no
/// conversion, every other ordered pair has its own transformation.
pub fn conversion_between(from: MatrixKind, to: MatrixKind) -> (c: Conversion)
    ensures
        (c == Conversion::Identity) <==> (from == to),
        c != Conversion::Identity ==> c.source() == from && c.target() == to,
        c == conversion_spec(from, to),
{
    if from == to {
        return Conversion::Identity;
    }
    match (from, to) {
        (MatrixKind::Abcd, MatrixKind::Z) => Conversion::AbcdToZ,
        (MatrixKind::Abcd, MatrixKind::Y) => Conversion::AbcdToY,
        (MatrixKind::Abcd, MatrixKind::S) => Conversion::AbcdToS,
        (MatrixKind::Z, MatrixKind::Abcd) => Conversion::ZToAbcd,
        (MatrixKind::Z, MatrixKind::Y) => Conversion::ZToY,
        (MatrixKind::Z, MatrixKind::S) => Conversion::ZToS,
        (MatrixKind::Y, MatrixKind::Abcd) => Conversion::YToAbcd,
        (MatrixKind::Y, MatrixKind::Z) => Conversion::YToZ,
        (MatrixKind::Y, MatrixKind::S) => Conversion::YToS,
        (MatrixKind::S, MatrixKind::Abcd) => Conversion::SToAbcd,
        (MatrixKind::S, MatrixKind::Z) => Conversion::SToZ,
        (MatrixKind::S, MatrixKind::Y) => Conversion::SToY,
        _ => Conversion::Identity,
    }
}

/// The eight text fields of a 2x2 complex matrix, real and imaginary part of each entry.
pub struct MatrixEntries {
    pub m11_re: String,
    pub m11_im: String,
    pub m12_re: String,
    pub m12_im: String,
    pub m21_re: String,
    pub m21_im: String,
    pub m22_re: String,
    pub m22_im: String,
}

impl MatrixEntries {
    /// A field-by-field copy.
    pub fn duplicate(&self) -> (copy: MatrixEntries)
        ensures
            copy == *self,
    {
        MatrixEntries {
            m11_re: self.m11_re.clone(),
            m11_im: self.m11_im.clone(),
            m12_re: self.m12_re.clone(),
            m12_im: self.m12_im.clone(),
            m21_re: self.m21_re.clone(),
            m21_im: self.m21_im.clone(),
            m22_re: self.m22_re.clone(),
            m22_im: self.m22_im.clone(),
        }
    }
}

/// The matrix section of the calculator: the selected source and target kinds
/// (combo-box indices), the reference impedance text, and the input and output matrices.
pub struct MatrixForm {
    pub from_type: i32,
    pub to_type: i32,
    pub z0: String,
    pub input: MatrixEntries,
    pub output: MatrixEntries,
}

/// The numeric result of a matrix conversion, already formatted: the reference
/// impedance as it is reported and the converted matrix.
pub struct MatrixReadout {
    pub z0: String,
    pub output: MatrixEntries,
}

/// The form after its output has been copied back into its input section.
pub open spec fn promoted(form: MatrixForm) -> MatrixForm {
    MatrixForm { from_type: form.to_type, input: form.output, ..form }
}

/// Copies the output matrix into the input section and makes the output kind the
/// new source kind, so that the result can be converted further.
pub fn promote_matrix_output(form: &mut MatrixForm)
    ensures
        *final(form) == promoted(*old(form)),
        final(form).input == old(form).output,
        final(form).output == old(form).output,
        final(form).from_type == old(form).to_type,
        final(form).to_type == old(form).to_type,
        final(form).z0 == old(form).z0,
{
    form.from_type = form.to_type;
    form.input = form.output.duplicate();
}

/// Copying the output back a second time changes nothing more.
pub proof fn lemma_promote_idempotent(form: MatrixForm)
    ensures
        promoted(promoted(form)) == promoted(form),
{
}

/// Promoting after a successful conversion makes the converted matrix the new input,
/// of the kind it was converted to.
pub proof fn lemma_promote_after_conversion(form: MatrixForm, converted: MatrixEntries)
    ensures
        promoted(MatrixForm { output: converted, ..form }).input == converted,
        promoted(MatrixForm { output: converted, ..form }).from_type == form.to_type,
        promoted(MatrixForm { output: converted, ..form }).output == converted,
{
}

/// The first entry of a matrix that does not hold a number, in the order
/// M11, M12, M21, M22, real part before imaginary part.
pub open spec fn entries_failure(e: MatrixEntries) -> Option<Seq<char>> {
    first_of(
        number_failure("M11 real"@, e.m11_re@),
        first_of(
            number_failure("M11 imag"@, e.m11_im@),
            first_of(
                number_failure("M12 real"@, e.m12_re@),
                first_of(
                    number_failure("M12 imag"@, e.m12_im@),
                    first_of(
                        number_failure("M21 real"@, e.m21_re@),
                        first_of(
                            number_failure("M21 imag"@, e.m21_im@),
                            first_of(
                                number_failure("M22 real"@, e.m22_re@),
                                number_failure("M22 imag"@, e.m22_im@),
                            ),
                        ),
                    ),
                ),
            ),
        ),
    )
}

/// Every input entry holds the text of a number (zero and negative values included).
pub open spec fn entries_are_numbers(e: MatrixEntries) -> bool {
    &&& is_float_text(trimmed(e.m11_re@))
    &&& is_float_text(trimmed(e.m11_im@))
    &&& is_float_text(trimmed(e.m12_re@))
    &&& is_float_text(trimmed(e.m12_im@))
    &&& is_float_text(trimmed(e.m21_re@))
    &&& is_float_text(trimmed(e.m21_im@))
    &&& is_float_text(trimmed(e.m22_re@))
    &&& is_float_text(trimmed(e.m22_im@))
}

/// An input entry fails only when its text is no number: the entries pass exactly
/// when all eight are numbers, whatever their signs.
pub proof fn lemma_entries_need_only_numbers(e: MatrixEntries)
    ensures
        entries_failure(e) is None <==> entries_are_numbers(e),
{
}

/// A matrix conversion reads only the reference impedance and the input entries: it
/// fails exactly when Z0 is not a number greater than zero or an entry is no number,
/// and the output section changes nothing.
pub proof fn lemma_matrix_reads_its_inputs(form: MatrixForm, other: MatrixEntries)
    ensures
        matrix_failure(form) is None <==> positive_failure(
            "Reference impedance Z0"@,
            form.z0@,
        ) is None && entries_are_numbers(form.input),
        matrix_failure(form) == matrix_failure(MatrixForm { output: other, ..form }),
        positive_failure("Reference impedance Z0"@, form.z0@) is Some ==> matrix_failure(form) == positive_failure("Reference impedance Z0"@, form.z0@),
{
}

/// The first field that does not hold what a matrix conversion needs: the reference
/// impedance must be a number greater than zero, then every input entry a number.
pub open spec fn matrix_failure(form: MatrixForm) -> Option<Seq<char>> {
    first_of(
        positive_failure("Reference impedance Z0"@, form.z0@),
        entries_failure(form.input),
    )
}

fn check_entries(e: &MatrixEntries) -> (r: Result<(), String>)
    ensures
        match entries_failure(*e) {
            Some(failure) => r is Err && r->Err_0@ == failure,
            None => r is Ok,
        },
{
    if let Err(m) = parse_number("M11 real", e.m11_re.as_str()) {
        return Err(m);
    }
    if let Err(m) = parse_number("M11 imag", e.m11_im.as_str()) {
        return Err(m);
    }
    if let Err(m) = parse_number("M12 real", e.m12_re.as_str()) {
        return Err(m);
    }
    if let Err(m) = parse_number("M12 imag", e.m12_im.as_str()) {
        return Err(m);
    }
    if let Err(m) = parse_number("M21 real", e.m21_re.as_str()) {
        return Err(m);
    }
    if let Err(m) = parse_number("M21 imag", e.m21_im.as_str()) {
        return Err(m);
    }
    if let Err(m) = parse_number("M22 real", e.m22_re.as_str()) {
        return Err(m);
    }
    if let Err(m) = parse_number("M22 imag", e.m22_im.as_str()) {
        return Err(m);
    }
    Ok(())
}

/// The status text of a successful matrix conversion.
pub open spec fn matrix_status_text(from: MatrixKind, to: MatrixKind, z0: Seq<char>) -> Seq<char> {
    "Converted "@ + from.label_text() + " matrix to "@ + to.label_text()
        + " matrix using Z0 = "@ + z0 + " ohm."@
}

/// The report of a conversion that met a singular input (empty for the identity,
/// which never does).
pub open spec fn singular_report(c: Conversion) -> Seq<char> {
    match c.singular_text() {
        Some(t) => t,
        None => Seq::empty(),
    }
}

/// The conversion that the form's kind selections ask for.
pub open spec fn requested_conversion(form: MatrixForm) -> Conversion {
    conversion_spec(
        MatrixKind::from_index_spec(form.from_type),
        MatrixKind::from_index_spec(form.to_type),
    )
}

/// Completes a matrix conversion. The reference impedance must hold a number greater
/// than zero and every input entry a number; the first field that does not is reported
/// and the form is left untouched. Otherwise the computed `readout` is applied: the
/// converted matrix fills the output section and the status names both kinds and the
/// reference impedance. `None` in place of a readout says the requested conversion
/// met a singular matrix, and that conversion's singular message is reported.
pub fn convert_matrix(form: &mut MatrixForm, readout: Option<MatrixReadout>) -> (status: Result<
    String,
    String,
>)
    ensures
        matrix_failure(*old(form)) is None <==> positive_failure(
            "Reference impedance Z0"@,
            old(form).z0@,
        ) is None && entries_are_numbers(old(form).input),
        positive_failure("Reference impedance Z0"@, old(form).z0@) is None && entries_are_numbers(
            old(form).input,
        ) && readout is Some ==> status is Ok,
        status is Ok ==> readout is Some && final(form).output == readout.unwrap().output
            && final(form).input == old(form).input && final(form).from_type == old(
            form,
        ).from_type && final(form).to_type == old(form).to_type && final(form).z0 == old(
            form,
        ).z0,
        status is Err ==> *final(form) == *old(form),
        match matrix_failure(*old(form)) {
            Some(failure) => fails_with(status, failure) && *final(form) == *old(form),
            None => match readout {
                None => fails_with(status, singular_report(requested_conversion(*old(form))))
                    && *final(form) == *old(form),
                Some(r) => {
                    &&& *final(form) == (MatrixForm { output: r.output, ..*old(form) })
                    &&& status is Ok
                    &&& status.unwrap()@ == matrix_status_text(
                        MatrixKind::from_index_spec(old(form).from_type),
                        MatrixKind::from_index_spec(old(form).to_type),
                        r.z0@,
                    )
                    &&& status.unwrap()@ == "Converted "@ + MatrixKind::from_index_spec(
                        old(form).from_type,
                    ).label_text() + " matrix to "@ + MatrixKind::from_index_spec(
                        old(form).to_type,
                    ).label_text() + " matrix using Z0 = "@ + r.z0@ + " ohm."@
                },
            },
        },
{
    if let Err(m) = parse_positive("Reference impedance Z0", form.z0.as_str()) {
        return Err(m);
    }
    if let Err(m) = check_entries(&form.input) {
        return Err(m);
    }
    match readout {
        None => {
            let c = conversion_between(
                MatrixKind::from_index(form.from_type),
                MatrixKind::from_index(form.to_type),
            );
            match c.singular_message() {
                Some(m) => Err(String::from_str(m)),
                None => Err(String::new()),
            }
        },
        Some(r) => {
            let from = MatrixKind::from_index(form.from_type);
            let to = MatrixKind::from_index(form.to_type);
            let mut text = String::from_str("Converted ");
            text.append(from.label());
            text.append(" matrix to ");
            text.append(to.label());
            text.append(" matrix using Z0 = ");
            text.append(r.z0.as_str());
            text.append(" ohm.");
            form.output = r.output;
            Ok(text)
        },
    }
}

} // verus!
