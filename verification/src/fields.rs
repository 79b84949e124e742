use vstd::prelude::*;

use crate::numeral::{classify_number, is_float_text, reads_above_zero, trimmed, NumberClass};
use crate::text::{could_not_parse_message, must_be_positive_message};

verus! {

/// The report when a field does not hold a number.
pub open spec fn unreadable_text(label: Seq<char>) -> Seq<char> {
    "Could not parse "@ + label + "."@
}

/// The report when a field holds a number that is not greater than zero.
pub open spec fn not_positive_text(label: Seq<char>) -> Seq<char> {
    label + " must be greater than zero."@
}

/// What is wrong with a field that must hold a number, if anything.
pub open spec fn number_failure(label: Seq<char>, text: Seq<char>) -> Option<Seq<char>> {
    if is_float_text(trimmed(text)) {
        None
    } else {
        Some(unreadable_text(label))
    }
}

/// What is wrong with a field that must hold a number greater than zero, if anything.
pub open spec fn positive_failure(label: Seq<char>, text: Seq<char>) -> Option<Seq<char>> {
    if !is_float_text(trimmed(text)) {
        Some(unreadable_text(label))
    } else if !reads_above_zero(trimmed(text)) {
        Some(not_positive_text(label))
    } else {
        None
    }
}

/// The first of two reports that is present.
pub open spec fn first_of(a: Option<Seq<char>>, b: Option<Seq<char>>) -> Option<Seq<char>> {
    if a is Some {
        a
    } else {
        b
    }
}

/// `status` is the failure `failure`.
pub open spec fn fails_with(status: Result<String, String>, failure: Seq<char>) -> bool {
    status is Err && status->Err_0@ == failure
}

/// A field must hold a number exactly when its trimmed text is the text of a double,
/// and is then reported with "Could not parse <label>." when it does not.
pub proof fn lemma_number_field_meaning(label: Seq<char>, text: Seq<char>)
    ensures
        number_failure(label, text) is None <==> is_float_text(trimmed(text)),
        number_failure(label, text) is Some ==> number_failure(label, text).unwrap()
            == "Could not parse "@ + label + "."@,
{
}

/// A field must hold a number greater than zero: it passes exactly when its trimmed
/// text is the text of a double that is not `<= 0.0`; a text that is no number is
/// reported as unreadable, a number that is not above zero as not positive.
pub proof fn lemma_positive_field_meaning(label: Seq<char>, text: Seq<char>)
    ensures
        positive_failure(label, text) is None <==> is_float_text(trimmed(text))
            && reads_above_zero(trimmed(text)),
        !is_float_text(trimmed(text)) ==> positive_failure(label, text) == Some(
            "Could not parse "@ + label + "."@,
        ),
        is_float_text(trimmed(text)) && !reads_above_zero(trimmed(text)) ==> positive_failure(
            label,
            text,
        ) == Some(label + " must be greater than zero."@),
{
}

/// A field that holds a number greater than zero holds a number.
pub proof fn lemma_positive_field_is_number(label: Seq<char>, text: Seq<char>)
    ensures
        positive_failure(label, text) is None ==> number_failure(label, text) is None,
{
}

/// White space around a field's text changes nothing: the text reads as its trimmed self.
pub proof fn lemma_surrounding_space_ignored(label: Seq<char>, text: Seq<char>)
    ensures
        positive_failure(label, trimmed(text)) == positive_failure(label, text),
        number_failure(label, trimmed(text)) == number_failure(label, text),
{
    crate::numeral::lemma_trimmed_idempotent(text);
}

/// Reads a field that must hold a number: the text, trimmed of white space, must be
/// the text of a double; the result tells how that double compares with 0 and 1.
pub fn parse_number(label: &str, text: &str) -> (r: Result<NumberClass, String>)
    ensures
        match number_failure(label@, text@) {
            Some(m) => r is Err && r->Err_0@ == m,
            None => r is Ok && classify_number_spec(text@, r->Ok_0),
        },
{
    match classify_number(text) {
        None => Err(could_not_parse_message(label)),
        Some(k) => Ok(k),
    }
}

/// `k` is how the number in `text` compares with 0 and 1.
pub open spec fn classify_number_spec(text: Seq<char>, k: NumberClass) -> bool {
    &&& k.above_zero == reads_above_zero(trimmed(text))
    &&& k.above_one == crate::numeral::reads_above_one(trimmed(text))
}

/// Reads a field that must hold a number greater than zero.
pub fn parse_positive(label: &str, text: &str) -> (r: Result<NumberClass, String>)
    ensures
        match positive_failure(label@, text@) {
            Some(m) => r is Err && r->Err_0@ == m,
            None => r is Ok && classify_number_spec(text@, r->Ok_0),
        },
{
    match classify_number(text) {
        None => Err(could_not_parse_message(label)),
        Some(k) => {
            if k.above_zero {
                Ok(k)
            } else {
                Err(must_be_positive_message(label))
            }
        },
    }
}

} // verus!
