use vstd::prelude::*;
use vstd::arithmetic::power::{lemma_pow_adds, pow};

use crate::numeral::{
    digits_value, first_index, is_digit, is_first_index, lemma_first_index,
    lemma_first_index_exists, lemma_value_concat, lemma_value_zeros,
    point_pred, zeros,
};

verus! {

/// `s` without its trailing run of '0' characters.
pub open spec fn strip_zeros(s: Seq<char>) -> Seq<char>
    decreases s.len(),
{
    if s.len() > 0 && s.last() == '0' {
        strip_zeros(s.drop_last())
    } else {
        s
    }
}

/// A decimal numeral with the zeros that end its fractional part removed, and the
/// decimal point too when no fractional digit is left; a numeral without a point
/// is left alone.
pub open spec fn trimmed_decimal(s: Seq<char>) -> Seq<char> {
    if s.contains('.') {
        let t = strip_zeros(s);
        if t.len() > 0 && t.last() == '.' {
            t.drop_last()
        } else {
            t
        }
    } else {
        s
    }
}

/// The part of a numeral before its exponent marker 'e' (all of it when there is none).
pub open spec fn mantissa_part(s: Seq<char>) -> Seq<char> {
    match s.index_of_first('e') {
        Some(i) => s.take(i),
        None => s,
    }
}

/// A numeral in plain or exponent notation with its mantissa trimmed as by
/// `trimmed_decimal`; the exponent marker and everything after it are kept.
pub open spec fn trimmed_number(s: Seq<char>) -> Seq<char> {
    match s.index_of_first('e') {
        Some(i) => trimmed_decimal(s.take(i)) + seq!['e'] + s.skip(i + 1),
        None => trimmed_decimal(s),
    }
}

/// `s` holds at most one decimal point.
pub open spec fn at_most_one_point(s: Seq<char>) -> bool {
    forall|i: int, j: int|
        0 <= i < s.len() && 0 <= j < s.len() && s[i] == '.' && s[j] == '.' ==> i == j
}

proof fn lemma_strip_zeros_shape(s: Seq<char>)
    ensures
        strip_zeros(s).len() <= s.len(),
        strip_zeros(s) =~= s.take(strip_zeros(s).len() as int),
        forall|j: int| strip_zeros(s).len() <= j < s.len() ==> s[j] == '0',
        strip_zeros(s).len() > 0 ==> strip_zeros(s).last() != '0',
    decreases s.len(),
{
    if s.len() > 0 && s.last() == '0' {
        let d = s.drop_last();
        lemma_strip_zeros_shape(d);
        assert forall|j: int| strip_zeros(s).len() <= j < s.len() implies s[j] == '0' by {
            if j < d.len() {
                assert(d[j] == s[j]);
            }
        }
    }
}

proof fn lemma_strip_zeros_step(s: Seq<char>, end: int)
    requires
        0 < end <= s.len(),
        s[end - 1] == '0',
    ensures
        strip_zeros(s.take(end)) == strip_zeros(s.take(end - 1)),
{
    assert(s.take(end).drop_last() =~= s.take(end - 1));
}

/// `trimmed_decimal` keeps a prefix of its input and removes only zeros, preceded
/// at most by the decimal point, and only when the input holds a point.
pub proof fn lemma_trimmed_decimal_removes_only_fraction_zeros(s: Seq<char>)
    ensures
        trimmed_decimal(s).len() <= s.len(),
        trimmed_decimal(s) =~= s.take(trimmed_decimal(s).len() as int),
        forall|j: int|
            trimmed_decimal(s).len() <= j < s.len() ==> s[j] == '0' || (j
                == trimmed_decimal(s).len() && s[j] == '.'),
        trimmed_decimal(s).len() < s.len() ==> s.contains('.'),
{
    lemma_strip_zeros_shape(s);
}

/// Once trimmed, a numeral with at most one decimal point ends neither in a
/// fractional zero nor in a bare point.
pub proof fn lemma_trimmed_decimal_canonical(s: Seq<char>)
    requires
        at_most_one_point(s),
    ensures
        trimmed_decimal(s).contains('.') ==> trimmed_decimal(s).last() != '0'
            && trimmed_decimal(s).last() != '.',
{
    lemma_strip_zeros_shape(s);
    let r = trimmed_decimal(s);
    if s.contains('.') {
        let t = strip_zeros(s);
        if t.len() > 0 && t.last() == '.' {
            if r.contains('.') {
                let k = choose|k: int| 0 <= k < r.len() && r[k] == '.';
                assert(s[k] == '.' && s[t.len() - 1] == '.');
            }
        }
    }
}

/// Trimming a numeral with at most one decimal point a second time changes nothing.
pub proof fn lemma_trimmed_decimal_idempotent(s: Seq<char>)
    requires
        at_most_one_point(s),
    ensures
        trimmed_decimal(trimmed_decimal(s)) == trimmed_decimal(s),
{
    lemma_strip_zeros_shape(s);
    lemma_trimmed_decimal_canonical(s);
    let r = trimmed_decimal(s);
    if r.contains('.') {
        assert(r.len() > 0);
        assert(strip_zeros(r) == r);
    }
}

proof fn lemma_first_exponent_marker(s: Seq<char>, i: int)
    requires
        0 <= i < s.len(),
        s[i] == 'e',
        forall|j: int| 0 <= j < i ==> s[j] != 'e',
    ensures
        s.index_of_first('e') == Some(i),
{
    s.index_of_first_ensures('e');
}

proof fn lemma_no_exponent_marker(s: Seq<char>)
    requires
        forall|j: int| 0 <= j < s.len() ==> s[j] != 'e',
    ensures
        s.index_of_first('e') is None,
{
    s.index_of_first_ensures('e');
}

/// Trimming never touches the exponent: when the first 'e' of `s` stands at `i`,
/// the result is the trimmed mantissa followed by `s` from the 'e' on.
pub proof fn lemma_trimmed_number_keeps_exponent(s: Seq<char>, i: int)
    requires
        0 <= i < s.len(),
        s[i] == 'e',
        forall|j: int| 0 <= j < i ==> s[j] != 'e',
    ensures
        trimmed_number(s) == trimmed_decimal(s.take(i)) + s.skip(i),
{
    lemma_first_exponent_marker(s, i);
    assert(seq!['e'] + s.skip(i + 1) =~= s.skip(i));
    assert(trimmed_decimal(s.take(i)) + seq!['e'] + s.skip(i + 1) =~= trimmed_decimal(s.take(i))
        + (seq!['e'] + s.skip(i + 1)));
}

/// Trimming a numeral whose mantissa holds at most one decimal point a second time
/// changes nothing.
pub proof fn lemma_trimmed_number_idempotent(s: Seq<char>)
    requires
        at_most_one_point(mantissa_part(s)),
    ensures
        trimmed_number(trimmed_number(s)) == trimmed_number(s),
{
    s.index_of_first_ensures('e');
    match s.index_of_first('e') {
        Some(i) => {
            let base = s.take(i);
            let rb = trimmed_decimal(base);
            lemma_trimmed_decimal_removes_only_fraction_zeros(base);
            lemma_trimmed_decimal_idempotent(base);
            let r = rb + seq!['e'] + s.skip(i + 1);
            assert forall|j: int| 0 <= j < rb.len() implies r[j] != 'e' by {
                assert(r[j] == base[j]);
            }
            assert(r[rb.len() as int] == 'e');
            lemma_first_exponent_marker(r, rb.len() as int);
            assert(r.take(rb.len() as int) =~= rb);
            assert(r.skip(rb.len() as int + 1) =~= s.skip(i + 1));
        },
        None => {
            let rd = trimmed_decimal(s);
            lemma_trimmed_decimal_removes_only_fraction_zeros(s);
            lemma_trimmed_decimal_idempotent(s);
            assert forall|j: int| 0 <= j < rd.len() implies rd[j] != 'e' by {
                assert(rd[j] == s[j]);
            }
            lemma_no_exponent_marker(rd);
        },
    }
}

/// Removes the zeros that end the fractional part of a decimal numeral, then a
/// decimal point left bare: "1.500" gives "1.5", "2.000" gives "2", "100" stays "100".
pub fn trim_decimal(input: &str) -> (output: String)
    ensures
        output@ == trimmed_decimal(input@),
{
    let n = input.unicode_len();
    let ghost s = input@;
    let mut has_point = false;
    let mut i: usize = 0;
    while i < n
        invariant
            n == s.len(),
            s == input@,
            i <= n,
            has_point <==> exists|j: int| 0 <= j < i && s[j] == '.',
        decreases n - i,
    {
        if input.get_char(i) == '.' {
            has_point = true;
        }
        i = i + 1;
    }
    if !has_point {
        return String::from_str(input);
    }
    assert(s.contains('.'));
    let mut end: usize = n;
    assert(s.take(n as int) =~= s);
    while end > 0 && input.get_char(end - 1) == '0'
        invariant
            n == s.len(),
            s == input@,
            end <= n,
            strip_zeros(s) == strip_zeros(s.take(end as int)),
        decreases end,
    {
        proof {
            lemma_strip_zeros_step(s, end as int);
        }
        end = end - 1;
    }
    assert(strip_zeros(s.take(end as int)) == s.take(end as int));
    if end > 0 && input.get_char(end - 1) == '.' {
        assert(s.take(end as int).drop_last() =~= s.take(end - 1));
        end = end - 1;
    }
    String::from_str(input.substring_char(0, end))
}

/// Trims the mantissa of a numeral in plain or exponent notation as `trim_decimal`
/// does, keeping the exponent: "1.250000e6" gives "1.25e6", "3.000000" gives "3".
pub fn trim_trailing_zeros(input: String) -> (output: String)
    ensures
        output@ == trimmed_number(input@),
{
    let n = input.as_str().unicode_len();
    let ghost s = input@;
    let mut i: usize = 0;
    while i < n
        invariant
            n == s.len(),
            s == input@,
            i <= n,
            forall|j: int| 0 <= j < i ==> s[j] != 'e',
        decreases n - i,
    {
        if input.as_str().get_char(i) == 'e' {
            proof {
                s.index_of_first_ensures('e');
                assert(s.contains('e'));
            }
            let base = input.as_str().substring_char(0, i);
            let exponent = input.as_str().substring_char(i + 1, n);
            let mut output = trim_decimal(base);
            output.append("e");
            output.append(exponent);
            proof {
                reveal_strlit("e");
                assert(s.skip(i + 1) =~= s.subrange(i + 1, n as int));
                assert(s.take(i as int) =~= s.subrange(0, i as int));
            }
            return output;
        }
        i = i + 1;
    }
    proof {
        s.index_of_first_ensures('e');
    }
    trim_decimal(input.as_str())
}

/// A plain decimal numeral: an optional '-', then digits with at most one decimal point,
/// starting with a digit (as a number printed in fixed notation is).
pub open spec fn is_plain_numeral(s: Seq<char>) -> bool {
    let b = s.skip(sign_width(s));
    &&& b.len() > 0
    &&& is_digit(b[0])
    &&& at_most_one_point(b)
    &&& forall|i: int| 0 <= i < b.len() ==> is_digit(#[trigger] b[i]) || b[i] == '.'
}

/// The width of a leading minus sign.
pub open spec fn sign_width(s: Seq<char>) -> int {
    if s.len() > 0 && s[0] == '-' {
        1
    } else {
        0
    }
}

/// The index of the decimal point of a numeral (its length when it has none).
pub open spec fn point_at(s: Seq<char>) -> int {
    first_index(s, point_pred())
}

/// The digits of a plain numeral before and after its point, run together.
pub open spec fn numeral_digits(s: Seq<char>) -> Seq<char> {
    let p = point_at(s);
    s.subrange(sign_width(s), p) + fraction_of(s)
}

/// The digits of a plain numeral after its point.
pub open spec fn fraction_of(s: Seq<char>) -> Seq<char> {
    let p = point_at(s);
    if p < s.len() {
        s.skip(p + 1)
    } else {
        Seq::empty()
    }
}

/// Trimming keeps the value of a plain numeral: the sign stays, and the digits scaled
/// by the fraction lengths agree, `digits(r) / 10^|frac(r)| == digits(s) / 10^|frac(s)|`.
pub proof fn lemma_trimmed_decimal_keeps_value(s: Seq<char>)
    requires
        is_plain_numeral(s),
    ensures
        sign_width(trimmed_decimal(s)) == sign_width(s),
        digits_value(numeral_digits(trimmed_decimal(s))) * pow(10, fraction_of(s).len())
            == digits_value(numeral_digits(s)) * pow(10, fraction_of(trimmed_decimal(s)).len()),
{
    let sl = sign_width(s);
    let b = s.skip(sl);
    let r = trimmed_decimal(s);
    lemma_trimmed_decimal_removes_only_fraction_zeros(s);
    let pp = point_pred();
    lemma_first_index_exists(s, pp);
    let p = point_at(s);
    assert(is_first_index(s, pp, p));
    assert(b[0] == s[sl]);
    if p == s.len() {
        assert(!s.contains('.')) by {
            if s.contains('.') {
                let k = choose|k: int| 0 <= k < s.len() && s[k] == '.';
                assert(!pp(s[k]));
            }
        }
        assert(r == s);
    } else {
        // The point is at p, after the sign and a digit.
        assert(s[p] == '.');
        assert(s.contains('.'));
        assert(p >= sl + 1) by {
            if p <= sl {
                assert(s[sl] == b[0]);
                if p == sl {
                    assert(false);
                } else {
                    assert(sl == 1 && p == 0 && s[0] == '-');
                }
            }
        }
        let len = r.len() as int;
        assert(len >= p) by {
            if len < p {
                assert(s[p] == '0' || (p == len && s[p] == '.'));
            }
        }
        assert(r[0] == s[0]);
        assert(r.take(p) =~= s.take(p));
        let int_part = s.subrange(sl, p);
        if len == p {
            // The point went with the zeros: r is the integer part with its sign.
            lemma_first_index(r, pp, len);
            assert(r.subrange(sl, len) =~= int_part);
            let k = (s.len() - p - 1) as nat;
            assert(fraction_of(s) =~= zeros(k)) by {
                assert forall|j: int| 0 <= j < k implies fraction_of(s)[j] == zeros(k)[j] by {
                    assert(fraction_of(s)[j] == s[p + 1 + j]);
                }
            }
            assert(fraction_of(r) =~= Seq::<char>::empty());
            assert(numeral_digits(r) =~= int_part);
            lemma_value_concat(int_part, zeros(k));
            lemma_value_zeros(k);
            assert(pow(10, 0) == 1) by {
                reveal(pow);
            }
        } else {
            // The point stays at p; only fraction zeros went.
            assert(r[p] == '.');
            lemma_first_index(r, pp, p);
            let fr = s.subrange(p + 1, len);
            let m = (s.len() - len) as nat;
            assert(fraction_of(r) =~= fr);
            assert(s.skip(len) =~= zeros(m)) by {
                assert forall|j: int| 0 <= j < m implies s.skip(len)[j] == zeros(m)[j] by {
                    assert(s.skip(len)[j] == s[len + j]);
                    if s[len + j] == '.' {
                        assert(b[len + j - sl] == s[len + j]);
                        assert(b[p - sl] == s[p]);
                    }
                }
            }
            assert(fraction_of(s) =~= fr + zeros(m));
            assert(r.subrange(sl, p) =~= int_part);
            assert(numeral_digits(r) =~= int_part + fr);
            assert(numeral_digits(s) =~= (int_part + fr) + zeros(m));
            lemma_value_concat(int_part + fr, zeros(m));
            lemma_value_zeros(m);
            lemma_pow_adds(10, fr.len(), m);
            let v = digits_value(int_part + fr);
            let a = pow(10, fr.len());
            let c = pow(10, m);
            assert(v * (a * c) == (v * c) * a) by (nonlinear_arith);
        }
    }
}

/// The complex-impedance text of a reactance whose magnitude is written `magnitude`:
/// `j<magnitude> ohm` when inductive, `-j<magnitude> ohm` when capacitive.
pub open spec fn impedance_text(magnitude: Seq<char>, inductive: bool) -> Seq<char> {
    if inductive {
        "j"@ + magnitude + " ohm"@
    } else {
        "-j"@ + magnitude + " ohm"@
    }
}

/// Writes a reactance as a complex impedance, from its magnitude already formatted.
pub fn format_impedance(magnitude: &str, inductive: bool) -> (text: String)
    ensures
        text@ == impedance_text(magnitude@, inductive),
{
    let mut text = if inductive {
        String::from_str("j")
    } else {
        String::from_str("-j")
    };
    text.append(magnitude);
    text.append(" ohm");
    text
}

/// The report for a field whose text is not a number: "Could not parse <label>."
pub fn could_not_parse_message(label: &str) -> (message: String)
    ensures
        message@ == "Could not parse "@ + label@ + "."@,
{
    let mut message = String::from_str("Could not parse ");
    message.append(label);
    message.append(".");
    message
}

/// The report for a field that must hold a positive number and does not:
/// "<label> must be greater than zero."
pub fn must_be_positive_message(label: &str) -> (message: String)
    ensures
        message@ == label@ + " must be greater than zero."@,
{
    let mut message = String::from_str(label);
    message.append(" must be greater than zero.");
    message
}

} // verus!
