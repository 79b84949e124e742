use vstd::prelude::*;
use vstd::std_specs::iter::IteratorSpec;
use vstd::arithmetic::power::{lemma_pow_adds, lemma_pow_increases, lemma_pow_positive, pow};

verus! {

/// `c` is an ASCII decimal digit.
pub open spec fn is_digit(c: char) -> bool {
    '0' <= c && c <= '9'
}

/// Every character of `s` is a decimal digit.
pub open spec fn all_digits(s: Seq<char>) -> bool {
    forall|i: int| 0 <= i < s.len() ==> is_digit(#[trigger] s[i])
}

/// The value of one digit character.
pub open spec fn digit_value(c: char) -> int {
    c as int - '0' as int
}

/// The natural number that the decimal digits `s` denote.
pub open spec fn digits_value(s: Seq<char>) -> int
    decreases s.len(),
{
    if s.len() == 0 {
        0
    } else {
        10 * digits_value(s.drop_last()) + digit_value(s.last())
    }
}

/// `n * 10^shift > c`, read over the rationals: the shifted value exceeds `c`.
pub open spec fn exceeds(n: int, shift: int, c: int) -> bool {
    if shift >= 0 {
        n * pow(10, shift as nat) > c
    } else {
        n > c * pow(10, (-shift) as nat)
    }
}

/// `count` zero digits.
pub open spec fn zeros(count: nat) -> Seq<char> {
    Seq::new(count, |i: int| '0')
}

proof fn lemma_pow10_step(n: nat)
    requires
        n > 0,
    ensures
        pow(10, n) == 10 * pow(10, (n - 1) as nat),
{
    reveal(pow);
}

pub(crate) proof fn lemma_value_concat(a: Seq<char>, b: Seq<char>)
    ensures
        digits_value(a + b) == digits_value(a) * pow(10, b.len()) + digits_value(b),
    decreases b.len(),
{
    if b.len() == 0 {
        assert(a + b =~= a);
        assert(pow(10, 0) == 1) by {
            reveal(pow);
        }
    } else {
        let b1 = b.drop_last();
        assert((a + b).drop_last() =~= a + b1);
        assert((a + b).last() == b.last());
        lemma_value_concat(a, b1);
        lemma_pow10_step(b.len());
        let x = digits_value(a);
        let p = pow(10, b1.len());
        assert(10 * (x * p + digits_value(b1)) + digit_value(b.last()) == x * (10 * p) + (10
            * digits_value(b1) + digit_value(b.last()))) by (nonlinear_arith);
    }
}

proof fn lemma_value_bounds(s: Seq<char>)
    requires
        all_digits(s),
    ensures
        0 <= digits_value(s) < pow(10, s.len()),
    decreases s.len(),
{
    if s.len() == 0 {
        reveal(pow);
    } else {
        let s1 = s.drop_last();
        assert(is_digit(s[s.len() - 1]));
        lemma_value_bounds(s1);
        lemma_pow10_step(s.len());
    }
}

proof fn lemma_value_leading(s: Seq<char>)
    requires
        all_digits(s),
        s.len() > 0,
        s[0] != '0',
    ensures
        digits_value(s) >= pow(10, (s.len() - 1) as nat),
{
    let head = s.take(1);
    let rest = s.skip(1);
    assert(s =~= head + rest);
    lemma_value_concat(head, rest);
    assert(head.drop_last() =~= Seq::<char>::empty());
    assert(is_digit(s[0]));
    assert(digits_value(head) == 10 * digits_value(head.drop_last()) + digit_value(s[0]));
    assert(digits_value(head) >= 1);
    assert(all_digits(rest)) by {
        assert forall|i: int| 0 <= i < rest.len() implies is_digit(#[trigger] rest[i]) by {
            assert(rest[i] == s[i + 1]);
        }
    }
    lemma_value_bounds(rest);
    lemma_pow_positive(10, rest.len());
    let p = pow(10, rest.len());
    let h = digits_value(head);
    assert(h * p >= p) by (nonlinear_arith)
        requires
            h >= 1,
            p > 0,
    ;
}

pub(crate) proof fn lemma_value_zeros(k: nat)
    ensures
        digits_value(zeros(k)) == 0,
    decreases k,
{
    if k > 0 {
        assert(zeros(k).drop_last() =~= zeros((k - 1) as nat));
        lemma_value_zeros((k - 1) as nat);
    }
}

proof fn lemma_value_lexicographic(a: Seq<char>, b: Seq<char>, i: int)
    requires
        a.len() == b.len(),
        all_digits(a),
        all_digits(b),
        0 <= i < a.len(),
        a.take(i) =~= b.take(i),
        a[i] > b[i],
    ensures
        digits_value(a) > digits_value(b),
{
    let r = (a.len() - i - 1) as nat;
    assert(a =~= a.take(i + 1) + a.skip(i + 1));
    assert(b =~= b.take(i + 1) + b.skip(i + 1));
    lemma_value_concat(a.take(i + 1), a.skip(i + 1));
    lemma_value_concat(b.take(i + 1), b.skip(i + 1));
    assert(a.take(i + 1).drop_last() =~= a.take(i));
    assert(b.take(i + 1).drop_last() =~= b.take(i));
    let ha = digits_value(a.take(i + 1));
    let hb = digits_value(b.take(i + 1));
    assert(a.take(i + 1).last() == a[i]);
    assert(b.take(i + 1).last() == b[i]);
    assert(a[i] as int > b[i] as int);
    assert(ha == 10 * digits_value(a.take(i)) + digit_value(a[i]));
    assert(hb == 10 * digits_value(b.take(i)) + digit_value(b[i]));
    assert(ha >= hb + 1);
    assert(all_digits(a.skip(i + 1))) by {
        assert forall|j: int| 0 <= j < a.skip(i + 1).len() implies is_digit(
            #[trigger] a.skip(i + 1)[j],
        ) by {
            assert(a.skip(i + 1)[j] == a[i + 1 + j]);
        }
    }
    assert(all_digits(b.skip(i + 1))) by {
        assert forall|j: int| 0 <= j < b.skip(i + 1).len() implies is_digit(
            #[trigger] b.skip(i + 1)[j],
        ) by {
            assert(b.skip(i + 1)[j] == b[i + 1 + j]);
        }
    }
    lemma_value_bounds(a.skip(i + 1));
    lemma_value_bounds(b.skip(i + 1));
    let p = pow(10, r);
    let ta = digits_value(a.skip(i + 1));
    let tb = digits_value(b.skip(i + 1));
    assert(ha * p + ta > hb * p + tb) by (nonlinear_arith)
        requires
            ha >= hb + 1,
            0 <= ta,
            0 <= tb,
            tb < p,
    ;
}

proof fn lemma_padded(s: Seq<char>, k: nat)
    requires
        all_digits(s),
    ensures
        all_digits(s + zeros(k)),
        digits_value(s + zeros(k)) == digits_value(s) * pow(10, k),
{
    lemma_value_concat(s, zeros(k));
    lemma_value_zeros(k);
    assert forall|i: int| 0 <= i < (s + zeros(k)).len() implies is_digit(
        #[trigger] (s + zeros(k))[i],
    ) by {
        if i >= s.len() {
            assert((s + zeros(k))[i] == '0');
        }
    }
}

/// Decides `n * 10^shift > c` for the numbers written by the digits `sig` and `c`,
/// neither of which starts with a zero, by comparing lengths and then digits.
fn exceeds_scaled(sig: &Vec<char>, shift: i128, c: &Vec<char>) -> (r: bool)
    requires
        all_digits(sig@),
        sig@.len() > 0,
        sig@[0] != '0',
        all_digits(c@),
        c@.len() > 0,
        c@[0] != '0',
        -0x1_0000_0000_0000_0000_0000 <= shift <= 0x1_0000_0000_0000_0000_0000,
    ensures
        r == exceeds(digits_value(sig@), shift as int, digits_value(c@)),
{
    let tp: i128 = if shift > 0 {
        shift
    } else {
        0
    };
    let tm: i128 = if shift < 0 {
        -shift
    } else {
        0
    };
    let ghost a = sig@ + zeros(tp as nat);
    let ghost b = c@ + zeros(tm as nat);
    proof {
        lemma_padded(sig@, tp as nat);
        lemma_padded(c@, tm as nat);
        reveal(pow);
        assert(pow(10, 0) == 1);
        assert(a[0] == sig@[0]);
        assert(b[0] == c@[0]);
        lemma_value_leading(a);
        lemma_value_leading(b);
        lemma_value_bounds(a);
        lemma_value_bounds(b);
        assert(exceeds(digits_value(sig@), shift as int, digits_value(c@)) == (digits_value(a)
            > digits_value(b)));
    }
    let la: i128 = sig.len() as i128 + tp;
    let lb: i128 = c.len() as i128 + tm;
    if la > lb {
        proof {
            lemma_pow_increases(10, lb as nat, (la - 1) as nat);
        }
        return true;
    }
    if la < lb {
        proof {
            lemma_pow_increases(10, la as nat, (lb - 1) as nat);
        }
        return false;
    }
    let len: usize = if shift > 0 {
        c.len()
    } else {
        sig.len()
    };
    let mut i: usize = 0;
    while i < len
        invariant
            len == a.len(),
            a.len() == b.len(),
            i <= len,
            a == sig@ + zeros(tp as nat),
            b == c@ + zeros(tm as nat),
            all_digits(a),
            all_digits(b),
            a.take(i as int) =~= b.take(i as int),
            exceeds(digits_value(sig@), shift as int, digits_value(c@)) == (digits_value(a)
                > digits_value(b)),
        decreases len - i,
    {
        let x = if i < sig.len() {
            sig[i]
        } else {
            '0'
        };
        let y = if i < c.len() {
            c[i]
        } else {
            '0'
        };
        assert(x == a[i as int]);
        assert(y == b[i as int]);
        if x > y {
            proof {
                lemma_value_lexicographic(a, b, i as int);
            }
            return true;
        }
        if x < y {
            proof {
                lemma_value_lexicographic(b, a, i as int);
            }
            return false;
        }
        i = i + 1;
    }
    assert(a =~= a.take(len as int));
    assert(b =~= b.take(len as int));
    false
}

/// `c` has the Unicode White_Space property.
pub open spec fn is_white_space(c: char) -> bool {
    ('\u{9}' <= c && c <= '\u{d}') || c == ' ' || c == '\u{85}' || c == '\u{a0}' || c
        == '\u{1680}' || ('\u{2000}' <= c && c <= '\u{200a}') || c == '\u{2028}' || c
        == '\u{2029}' || c == '\u{202f}' || c == '\u{205f}' || c == '\u{3000}'
}

fn white_space(c: char) -> (r: bool)
    ensures
        r == is_white_space(c),
{
    ('\u{9}' <= c && c <= '\u{d}') || c == ' ' || c == '\u{85}' || c == '\u{a0}' || c
        == '\u{1680}' || ('\u{2000}' <= c && c <= '\u{200a}') || c == '\u{2028}' || c
        == '\u{2029}' || c == '\u{202f}' || c == '\u{205f}' || c == '\u{3000}'
}

/// `m` is the first index of `s` whose character satisfies `p` (`s.len()` if none does).
pub open spec fn is_first_index(s: Seq<char>, p: spec_fn(char) -> bool, m: int) -> bool {
    &&& 0 <= m <= s.len()
    &&& forall|j: int| 0 <= j < m ==> !p(#[trigger] s[j])
    &&& m == s.len() || p(s[m])
}

/// The first index of `s` whose character satisfies `p`, or `s.len()`.
pub open spec fn first_index(s: Seq<char>, p: spec_fn(char) -> bool) -> int {
    choose|m: int| is_first_index(s, p, m)
}

pub(crate) proof fn lemma_first_index(s: Seq<char>, p: spec_fn(char) -> bool, m: int)
    requires
        is_first_index(s, p, m),
    ensures
        first_index(s, p) == m,
{
    let k = first_index(s, p);
    assert(is_first_index(s, p, k));
    if k < m {
        assert(!p(s[k]));
    }
    if m < k {
        assert(!p(s[m]));
    }
}

/// `b` ends `s` once the trailing white space after index `lo` is cut off.
pub open spec fn is_trim_end(s: Seq<char>, lo: int, b: int) -> bool {
    &&& lo <= b <= s.len()
    &&& forall|j: int| b <= j < s.len() ==> is_white_space(#[trigger] s[j])
    &&& b == lo || !is_white_space(s[b - 1])
}

/// `s` without leading and trailing white space.
pub open spec fn trimmed(s: Seq<char>) -> Seq<char> {
    let lo = first_index(s, |c: char| !is_white_space(c));
    s.subrange(lo, choose|b: int| is_trim_end(s, lo, b))
}

/// Trimming twice is trimming once.
pub proof fn lemma_trimmed_idempotent(s: Seq<char>)
    ensures
        trimmed(trimmed(s)) == trimmed(s),
{
    let p = |c: char| !is_white_space(c);
    let lo = first_index(s, p);
    let hi = choose|b: int| is_trim_end(s, lo, b);
    assert(exists|m: int| is_first_index(s, p, m)) by {
        lemma_first_index_exists(s, p);
    }
    assert(is_first_index(s, p, lo));
    assert(exists|b: int| is_trim_end(s, lo, b)) by {
        lemma_trim_end_exists(s, lo);
    }
    assert(is_trim_end(s, lo, hi));
    let t = s.subrange(lo, hi);
    assert(t =~= trimmed(s));
    if lo < hi {
        assert(!is_white_space(t[0]));
        assert(is_first_index(t, p, 0));
        lemma_first_index(t, p, 0);
        assert(t[t.len() - 1] == s[hi - 1]);
        assert(is_trim_end(t, 0, t.len() as int));
        let b2 = choose|b: int| is_trim_end(t, 0, b);
        assert(is_trim_end(t, 0, b2));
        if b2 < t.len() {
            assert(is_white_space(t[t.len() - 1]));
        }
        assert(t.subrange(0, t.len() as int) =~= t);
    } else {
        assert(t.len() == 0);
        assert(is_first_index(t, p, 0));
        lemma_first_index(t, p, 0);
        assert(is_trim_end(t, 0, 0));
        let b2 = choose|b: int| is_trim_end(t, 0, b);
        assert(is_trim_end(t, 0, b2));
        assert(t.subrange(0, b2) =~= t);
    }
}

pub(crate) proof fn lemma_first_index_exists(s: Seq<char>, p: spec_fn(char) -> bool)
    ensures
        exists|m: int| is_first_index(s, p, m),
    decreases s.len(),
{
    if s.len() == 0 {
        assert(is_first_index(s, p, 0));
    } else if p(s[0]) {
        assert(is_first_index(s, p, 0));
    } else {
        lemma_first_index_exists(s.drop_first(), p);
        let m = choose|m: int| is_first_index(s.drop_first(), p, m);
        assert(is_first_index(s, p, m + 1)) by {
            assert forall|j: int| 0 <= j < m + 1 implies !p(#[trigger] s[j]) by {
                if j > 0 {
                    assert(s[j] == s.drop_first()[j - 1]);
                }
            }
        }
    }
}

proof fn lemma_trim_end_exists(s: Seq<char>, lo: int)
    requires
        0 <= lo <= s.len(),
    ensures
        exists|b: int| is_trim_end(s, lo, b),
    decreases s.len() - lo,
{
    if lo == s.len() {
        assert(is_trim_end(s, lo, lo));
    } else if !is_white_space(s[s.len() - 1]) {
        assert(is_trim_end(s, lo, s.len() as int));
    } else {
        lemma_trim_end_exists(s.drop_last(), lo);
        let b2 = choose|b: int| is_trim_end(s.drop_last(), lo, b);
        assert(is_trim_end(s, lo, b2)) by {
            assert forall|j: int| b2 <= j < s.len() implies is_white_space(#[trigger] s[j]) by {
                if j < s.len() - 1 {
                    assert(s[j] == s.drop_last()[j]);
                }
            }
            if b2 > lo {
                assert(s[b2 - 1] == s.drop_last()[b2 - 1]);
            }
        }
    }
}

fn to_chars(text: &str) -> (v: Vec<char>)
    ensures
        v@ == text@,
{
    broadcast use vstd::string::group_string_axioms;

    let mut it = text.chars();
    let mut v: Vec<char> = Vec::new();
    loop
        invariant
            v@ + it.remaining() == text@,
            it.decrease() is Some,
        ensures
            v@ == text@,
        decreases it.decrease()->0,
    {
        let ghost before = it.remaining();
        match it.next() {
            Some(c) => {
                v.push(c);
                assert(v@ + it.remaining() =~= text@) by {
                    assert(before =~= seq![c] + it.remaining());
                }
            },
            None => {
                assert(v@ =~= text@);
                break ;
            },
        }
    }
    v
}

fn copy_range(v: &Vec<char>, lo: usize, hi: usize) -> (r: Vec<char>)
    requires
        lo <= hi <= v.len(),
    ensures
        r@ == v@.subrange(lo as int, hi as int),
{
    let mut r: Vec<char> = Vec::new();
    let mut i: usize = lo;
    while i < hi
        invariant
            lo <= i <= hi,
            hi <= v.len(),
            r@ == v@.subrange(lo as int, i as int),
        decreases hi - i,
    {
        r.push(v[i]);
        i = i + 1;
        assert(r@ =~= v@.subrange(lo as int, i as int));
    }
    r
}

fn trim_chars(v: &Vec<char>) -> (r: Vec<char>)
    ensures
        r@ == trimmed(v@),
{
    let n = v.len();
    let mut lo: usize = 0;
    while lo < n && white_space(v[lo])
        invariant
            n == v.len(),
            lo <= n,
            forall|j: int| 0 <= j < lo ==> is_white_space(#[trigger] v@[j]),
        decreases n - lo,
    {
        lo = lo + 1;
    }
    let ghost p = |c: char| !is_white_space(c);
    proof {
        lemma_first_index(v@, p, lo as int);
    }
    let mut hi: usize = n;
    while hi > lo && white_space(v[hi - 1])
        invariant
            n == v.len(),
            lo <= hi <= n,
            forall|j: int| hi <= j < n ==> is_white_space(#[trigger] v@[j]),
        decreases hi,
    {
        hi = hi - 1;
    }
    proof {
        let s = v@;
        assert(is_trim_end(s, lo as int, hi as int));
        let b = choose|b: int| is_trim_end(s, lo as int, b);
        assert(is_trim_end(s, lo as int, b));
        if b < hi {
            assert(is_white_space(s[hi - 1]));
        }
        if hi < b {
            assert(is_white_space(s[b - 1]));
        }
    }
    copy_range(v, lo, hi)
}

/// Half the smallest positive double, 2^-1075, scaled by 10^1075: the digits of 5^1075.
/// A decimal at or below 2^-1075 reads as zero (ties go to the even neighbour, 0).
pub open spec fn half_tiny() -> Seq<char> {
    "24703282292062327208828439643411068618252990130716238221279284125033775363510437593264991818081799618989828234772285886546332835517796989819938739800539093906315035659515570226392290858392449105184435931802849936536152500319370457678249219365623669863658480757001585769269903706311928279558551332927834338409351978015531246597263579574622766465272827220056374006485499977096599470454020828166226237857393450736339007967761930577506740176324673600968951340535537458516661134223766678604162159680461914467291840300530057530849048765391711386591646239524912623653881879636239373280423891018672348497668235089863388587925628302755995657524455507255189313690836254779186948667994968324049705821028513185451396213837722826145437693412532098591327667236328125"@
}

/// The midpoint between 1 and the next double, 1 + 2^-53, scaled by 10^53.
/// A decimal at or below it reads as at most 1.
pub open spec fn one_midpoint() -> Seq<char> {
    "100000000000000011102230246251565404236316680908203125"@
}

proof fn lemma_thresholds()
    ensures
        all_digits(half_tiny()),
        half_tiny().len() == 752,
        half_tiny()[0] == '2',
        all_digits(one_midpoint()),
        one_midpoint().len() == 54,
        one_midpoint()[0] == '1',
        one_midpoint()[16] == '1',
{
    reveal_strlit("24703282292062327208828439643411068618252990130716238221279284125033775363510437593264991818081799618989828234772285886546332835517796989819938739800539093906315035659515570226392290858392449105184435931802849936536152500319370457678249219365623669863658480757001585769269903706311928279558551332927834338409351978015531246597263579574622766465272827220056374006485499977096599470454020828166226237857393450736339007967761930577506740176324673600968951340535537458516661134223766678604162159680461914467291840300530057530849048765391711386591646239524912623653881879636239373280423891018672348497668235089863388587925628302755995657524455507255189313690836254779186948667994968324049705821028513185451396213837722826145437693412532098591327667236328125");
    reveal_strlit("100000000000000011102230246251565404236316680908203125");
}

/// A leading sign, if any, takes one character.
pub open spec fn sign_len(s: Seq<char>) -> int {
    if s.len() > 0 && (s[0] == '+' || s[0] == '-') {
        1
    } else {
        0
    }
}

/// `s` starts with a minus sign.
pub open spec fn negative_sign(s: Seq<char>) -> bool {
    s.len() > 0 && s[0] == '-'
}

/// `s` spells the lower-case ASCII word `word`, each letter in either case.
pub open spec fn matches_word(s: Seq<char>, word: Seq<char>) -> bool {
    &&& s.len() == word.len()
    &&& forall|i: int|
        0 <= i < s.len() ==> #[trigger] s[i] == word[i] || s[i] as u32 as int + 32 == word[i] as u32 as int
}

/// The exponent marker, 'e' or 'E'.
pub open spec fn marker_pred() -> spec_fn(char) -> bool {
    |c: char| c == 'e' || c == 'E'
}

/// The decimal point.
pub open spec fn point_pred() -> spec_fn(char) -> bool {
    |c: char| c == '.'
}

/// The text of a number without its sign.
pub open spec fn unsigned_part(s: Seq<char>) -> Seq<char> {
    s.skip(sign_len(s))
}

/// The part of `b` before its exponent marker.
pub open spec fn mantissa_text(b: Seq<char>) -> Seq<char> {
    b.take(first_index(b, marker_pred()))
}

/// The digits of the mantissa before the point.
pub open spec fn int_digits(b: Seq<char>) -> Seq<char> {
    let m = mantissa_text(b);
    m.take(first_index(m, point_pred()))
}

/// The digits of the mantissa after the point (none when there is no point).
pub open spec fn frac_digits(b: Seq<char>) -> Seq<char> {
    let m = mantissa_text(b);
    let p = first_index(m, point_pred());
    if p < m.len() {
        m.skip(p + 1)
    } else {
        Seq::empty()
    }
}

/// The text after the exponent marker (empty when there is no marker).
pub open spec fn exponent_text(b: Seq<char>) -> Seq<char> {
    let k = first_index(b, marker_pred());
    if k < b.len() {
        b.skip(k + 1)
    } else {
        Seq::empty()
    }
}

/// The exponent part is absent, or is an optional sign followed by at least one digit.
pub open spec fn exponent_ok(b: Seq<char>) -> bool {
    let x = exponent_text(b);
    first_index(b, marker_pred()) == b.len() || (x.len() > sign_len(x) && all_digits(
        x.skip(sign_len(x)),
    ))
}

/// The value of exponent digits as a double's parser accumulates them: once the value
/// reaches 65536 the remaining digits no longer count.
pub open spec fn capped_digits_value(s: Seq<char>) -> int
    decreases s.len(),
{
    if s.len() == 0 {
        0
    } else {
        let a = capped_digits_value(s.drop_last());
        if a < 65536 {
            10 * a + digit_value(s.last())
        } else {
            a
        }
    }
}

/// The value of the exponent as it is read (0 when there is none).
pub open spec fn exponent_value(b: Seq<char>) -> int {
    let x = exponent_text(b);
    let v = capped_digits_value(x.skip(sign_len(x)));
    if negative_sign(x) {
        -v
    } else {
        v
    }
}

/// `b` is digits with at most one point, at least one digit, and an optional exponent.
pub open spec fn is_decimal(b: Seq<char>) -> bool {
    &&& all_digits(int_digits(b))
    &&& all_digits(frac_digits(b))
    &&& int_digits(b).len() + frac_digits(b).len() > 0
    &&& exponent_ok(b)
}

/// "inf" or "infinity", in any case.
pub open spec fn is_infinity_word(b: Seq<char>) -> bool {
    matches_word(b, "inf"@) || matches_word(b, "infinity"@)
}

/// "nan", in any case.
pub open spec fn is_nan_word(b: Seq<char>) -> bool {
    matches_word(b, "nan"@)
}

/// `s` is the text of a double: an optional sign, then a decimal, or an infinity or
/// not-a-number word.
pub open spec fn is_float_text(s: Seq<char>) -> bool {
    let b = unsigned_part(s);
    is_infinity_word(b) || is_nan_word(b) || is_decimal(b)
}

/// The double that the text `s` reads as (the nearest one, ties to even) is not
/// at most the double just below the midpoint `c * 10^-q`: not-a-number compares
/// false with everything, so it counts as above.
pub open spec fn reads_above(s: Seq<char>, q: int, c: Seq<char>) -> bool {
    let b = unsigned_part(s);
    if is_nan_word(b) {
        true
    } else if is_infinity_word(b) {
        !negative_sign(s)
    } else {
        !negative_sign(s) && exceeds(
            digits_value(int_digits(b) + frac_digits(b)),
            exponent_value(b) - frac_digits(b).len() + q,
            digits_value(c),
        )
    }
}

/// The text reads as a double that is not `<= 0.0`.
pub open spec fn reads_above_zero(s: Seq<char>) -> bool {
    reads_above(s, 1075, half_tiny())
}

/// The text reads as a double that is not `<= 1.0`.
pub open spec fn reads_above_one(s: Seq<char>) -> bool {
    reads_above(s, 53, one_midpoint())
}

fn matches_word_exec(b: &Vec<char>, word: &str) -> (r: bool)
    ensures
        r == matches_word(b@, word@),
{
    let n = word.unicode_len();
    if b.len() != n {
        return false;
    }
    let mut i: usize = 0;
    while i < n
        invariant
            n == word@.len(),
            n == b@.len(),
            i <= n,
            forall|j: int|
                0 <= j < i ==> #[trigger] b@[j] == word@[j] || b@[j] as u32 as int + 32 == word@[j] as u32 as int,
        decreases n - i,
    {
        let w = word.get_char(i);
        let c = b[i];
        let upper_case = (c as u32 as u64) + 32 == (w as u32 as u64);
        if !(c == w || upper_case) {
            return false;
        }
        i = i + 1;
    }
    true
}

fn find_marker(v: &Vec<char>) -> (k: usize)
    ensures
        is_first_index(v@, marker_pred(), k as int),
{
    let mut k: usize = 0;
    while k < v.len() && !(v[k] == 'e' || v[k] == 'E')
        invariant
            k <= v.len(),
            forall|j: int| 0 <= j < k ==> !marker_pred()(#[trigger] v@[j]),
        decreases v.len() - k,
    {
        k = k + 1;
    }
    k
}

fn find_point(v: &Vec<char>, hi: usize) -> (k: usize)
    requires
        hi <= v.len(),
    ensures
        is_first_index(v@.take(hi as int), point_pred(), k as int),
{
    let mut k: usize = 0;
    while k < hi && v[k] != '.'
        invariant
            k <= hi <= v.len(),
            forall|j: int| 0 <= j < k ==> !point_pred()(#[trigger] v@.take(hi as int)[j]),
        decreases hi - k,
    {
        k = k + 1;
    }
    k
}

fn digits_in(v: &Vec<char>, lo: usize, hi: usize) -> (r: bool)
    requires
        lo <= hi <= v.len(),
    ensures
        r == all_digits(v@.subrange(lo as int, hi as int)),
{
    let mut i: usize = lo;
    while i < hi
        invariant
            lo <= i <= hi <= v.len(),
            forall|j: int| lo <= j < i ==> is_digit(#[trigger] v@[j]),
        decreases hi - i,
    {
        if !('0' <= v[i] && v[i] <= '9') {
            assert(v@.subrange(lo as int, hi as int)[i - lo] == v@[i as int]);
            return false;
        }
        i = i + 1;
    }
    assert forall|j: int| 0 <= j < hi - lo implies is_digit(
        #[trigger] v@.subrange(lo as int, hi as int)[j],
    ) by {
        assert(v@.subrange(lo as int, hi as int)[j] == v@[lo + j]);
    }
    true
}

fn append_range(out: &mut Vec<char>, v: &Vec<char>, lo: usize, hi: usize)
    requires
        lo <= hi <= v.len(),
    ensures
        final(out)@ == old(out)@ + v@.subrange(lo as int, hi as int),
{
    let ghost start = out@;
    let mut i: usize = lo;
    while i < hi
        invariant
            lo <= i <= hi <= v.len(),
            out@ == start + v@.subrange(lo as int, i as int),
        decreases hi - i,
    {
        out.push(v[i]);
        i = i + 1;
        assert(out@ =~= start + v@.subrange(lo as int, i as int));
    }
}

/// Reads the exponent digits `v[lo..hi]` as a double's parser does.
fn exponent_magnitude(v: &Vec<char>, lo: usize, hi: usize) -> (r: i128)
    requires
        lo <= hi <= v.len(),
        all_digits(v@.subrange(lo as int, hi as int)),
    ensures
        r == capped_digits_value(v@.subrange(lo as int, hi as int)),
        0 <= r < 655360,
{
    let mut acc: i128 = 0;
    let mut i: usize = lo;
    while i < hi
        invariant
            lo <= i <= hi <= v.len(),
            all_digits(v@.subrange(lo as int, hi as int)),
            acc == capped_digits_value(v@.subrange(lo as int, i as int)),
            0 <= acc < 655360,
        decreases hi - i,
    {
        let ghost prev = v@.subrange(lo as int, i as int);
        let ghost next = v@.subrange(lo as int, i + 1);
        proof {
            assert(next.drop_last() =~= prev);
            assert(next.last() == v@[i as int]);
            assert(v@.subrange(lo as int, hi as int)[i - lo] == v@[i as int]);
        }
        if acc < 65536 {
            let d = (v[i] as u32 - '0' as u32) as i128;
            acc = 10 * acc + d;
        }
        i = i + 1;
    }
    acc
}

proof fn lemma_zero_never_exceeds(t: int, c: Seq<char>)
    requires
        all_digits(c),
    ensures
        !exceeds(0, t, digits_value(c)),
{
    lemma_value_bounds(c);
    if t < 0 {
        lemma_pow_positive(10, (-t) as nat);
        let v = digits_value(c);
        let p = pow(10, (-t) as nat);
        assert(v * p >= 0) by (nonlinear_arith)
            requires
                v >= 0,
                p > 0,
        ;
    }
}

/// The positions of a decimal's parts in `b`: the integer digits `b[0..int_end]`,
/// the fraction digits `b[frac_lo..frac_hi]`, and the exponent `+-magnitude`.
pub struct DecimalParts {
    pub int_end: usize,
    pub frac_lo: usize,
    pub frac_hi: usize,
    pub exp_negative: bool,
    pub magnitude: i128,
}

/// `d` locates the parts of the decimal `b`.
pub open spec fn locates(b: Seq<char>, d: DecimalParts) -> bool {
    &&& d.int_end <= d.frac_lo <= d.frac_hi <= b.len()
    &&& int_digits(b) == b.subrange(0, d.int_end as int)
    &&& frac_digits(b) == b.subrange(d.frac_lo as int, d.frac_hi as int)
    &&& 0 <= d.magnitude < 655360
    &&& exponent_value(b) == (if d.exp_negative {
        -d.magnitude
    } else {
        d.magnitude as int
    })
}

fn decimal_parts(b: &Vec<char>) -> (r: Option<DecimalParts>)
    ensures
        r is Some <==> is_decimal(b@),
        r matches Some(d) ==> locates(b@, d),
{
    let k = find_marker(b);
    proof {
        lemma_first_index(b@, marker_pred(), k as int);
    }
    let p = find_point(b, k);
    proof {
        lemma_first_index(b@.take(k as int), point_pred(), p as int);
    }
    let frac_lo: usize = if p < k {
        p + 1
    } else {
        k
    };
    proof {
        assert(mantissa_text(b@) == b@.take(k as int));
        assert(int_digits(b@) =~= b@.subrange(0, p as int));
        assert(frac_digits(b@) =~= b@.subrange(frac_lo as int, k as int));
    }
    if !digits_in(b, 0, p) || !digits_in(b, frac_lo, k) || p + (k - frac_lo) == 0 {
        return None;
    }
    if k == b.len() {
        proof {
            assert(exponent_text(b@) =~= Seq::<char>::empty());
            assert(exponent_text(b@).skip(0) =~= Seq::<char>::empty());
        }
        return Some(
            DecimalParts {
                int_end: p,
                frac_lo,
                frac_hi: k,
                exp_negative: false,
                magnitude: 0,
            },
        );
    }
    let xs = k + 1;
    let es: usize = if xs < b.len() && (b[xs] == '+' || b[xs] == '-') {
        1
    } else {
        0
    };
    let exp_negative = xs < b.len() && b[xs] == '-';
    proof {
        let x = exponent_text(b@);
        assert(x =~= b@.subrange(xs as int, b.len() as int));
        assert(x.skip(sign_len(x)) =~= b@.subrange(xs + es, b.len() as int));
    }
    if xs + es >= b.len() || !digits_in(b, xs + es, b.len()) {
        return None;
    }
    let magnitude = exponent_magnitude(b, xs + es, b.len());
    Some(DecimalParts { int_end: p, frac_lo, frac_hi: k, exp_negative, magnitude })
}

/// How the non-negative decimal `b` compares with the two thresholds.
fn decimal_reading(b: &Vec<char>, d: &DecimalParts) -> (r: NumberClass)
    requires
        is_decimal(b@),
        locates(b@, *d),
    ensures
        r.above_zero == exceeds(
            digits_value(int_digits(b@) + frac_digits(b@)),
            exponent_value(b@) - frac_digits(b@).len() + 1075,
            digits_value(half_tiny()),
        ),
        r.above_one == exceeds(
            digits_value(int_digits(b@) + frac_digits(b@)),
            exponent_value(b@) - frac_digits(b@).len() + 53,
            digits_value(one_midpoint()),
        ),
{
    let mut digs: Vec<char> = Vec::new();
    append_range(&mut digs, b, 0, d.int_end);
    append_range(&mut digs, b, d.frac_lo, d.frac_hi);
    assert(digs@ =~= int_digits(b@) + frac_digits(b@));
    let ghost n = digits_value(digs@);
    let ghost tiny = half_tiny();
    let ghost mid = one_midpoint();
    let ghost sh = exponent_value(b@) - frac_digits(b@).len();
    proof {
        lemma_thresholds();
        assert(all_digits(digs@)) by {
            assert forall|j: int| 0 <= j < digs@.len() implies is_digit(#[trigger] digs@[j]) by {
                if j < int_digits(b@).len() {
                    assert(digs@[j] == int_digits(b@)[j]);
                } else {
                    assert(digs@[j] == frac_digits(b@)[j - int_digits(b@).len()]);
                }
            }
        }
    }
    let mut z: usize = 0;
    while z < digs.len() && digs[z] == '0'
        invariant
            z <= digs.len(),
            forall|j: int| 0 <= j < z ==> #[trigger] digs@[j] == '0',
        decreases digs.len() - z,
    {
        z = z + 1;
    }
    proof {
        assert(digs@.take(z as int) =~= zeros(z as nat));
        assert(digs@ =~= digs@.take(z as int) + digs@.skip(z as int));
        lemma_value_concat(digs@.take(z as int), digs@.skip(z as int));
        lemma_value_zeros(z as nat);
    }
    if z == digs.len() {
        proof {
            assert(digs@.skip(z as int) =~= Seq::<char>::empty());
            lemma_zero_never_exceeds(sh + 1075, tiny);
            lemma_zero_never_exceeds(sh + 53, mid);
        }
        return NumberClass { above_zero: false, above_one: false };
    }
    let sig = copy_range(&digs, z, digs.len());
    proof {
        assert(sig@ =~= digs@.skip(z as int));
        assert(all_digits(sig@)) by {
            assert forall|j: int| 0 <= j < sig@.len() implies is_digit(#[trigger] sig@[j]) by {
                assert(sig@[j] == digs@[z + j]);
            }
        }
        assert(digits_value(sig@) == n);
    }
    let frac_len = d.frac_hi - d.frac_lo;
    let tiny_digits = to_chars("24703282292062327208828439643411068618252990130716238221279284125033775363510437593264991818081799618989828234772285886546332835517796989819938739800539093906315035659515570226392290858392449105184435931802849936536152500319370457678249219365623669863658480757001585769269903706311928279558551332927834338409351978015531246597263579574622766465272827220056374006485499977096599470454020828166226237857393450736339007967761930577506740176324673600968951340535537458516661134223766678604162159680461914467291840300530057530849048765391711386591646239524912623653881879636239373280423891018672348497668235089863388587925628302755995657524455507255189313690836254779186948667994968324049705821028513185451396213837722826145437693412532098591327667236328125");
    let mid_digits = to_chars("100000000000000011102230246251565404236316680908203125");
    let e: i128 = if d.exp_negative {
        -d.magnitude
    } else {
        d.magnitude
    };
    let scale: i128 = e - frac_len as i128;
    let above_zero = exceeds_scaled(&sig, scale + 1075, &tiny_digits);
    let above_one = exceeds_scaled(&sig, scale + 53, &mid_digits);
    NumberClass { above_zero, above_one }
}

/// What the text of a number reads as, in the two comparisons the calculator makes:
/// whether the double is not `<= 0.0`, and whether it is not `<= 1.0`.
#[derive(Clone, Copy, Debug, PartialEq, Eq, Structural)]
pub struct NumberClass {
    pub above_zero: bool,
    pub above_one: bool,
}

/// Reads the text of a field as a double is read from text after trimming white space:
/// `None` when it is no number, else how the double compares with 0 and with 1. The
/// value is rounded to the nearest double, ties to even, and the exponent counts as the
/// standard parser counts it, its digits no longer adding once it reaches 65536; so the
/// result is what `str::parse::<f64>` gives for texts of fewer than 2^31 characters,
/// whose positions that parser keeps in 32 bits.
pub fn classify_number(text: &str) -> (r: Option<NumberClass>)
    ensures
        r is Some <==> is_float_text(trimmed(text@)),
        r matches Some(k) ==> k.above_zero == reads_above_zero(trimmed(text@)) && k.above_one
            == reads_above_one(trimmed(text@)),
{
    let chars = to_chars(text);
    let t = trim_chars(&chars);
    let ghost s = t@;
    let sl: usize = if t.len() > 0 && (t[0] == '+' || t[0] == '-') {
        1
    } else {
        0
    };
    let negative = t.len() > 0 && t[0] == '-';
    let b = copy_range(&t, sl, t.len());
    proof {
        assert(b@ =~= unsigned_part(s));
        reveal_strlit("inf");
        reveal_strlit("infinity");
        reveal_strlit("nan");
    }
    if matches_word_exec(&b, "inf") || matches_word_exec(&b, "infinity") {
        proof {
            assert("nan"@[0] == 'n' && "inf"@[0] == 'i' && "infinity"@[0] == 'i');
            assert(b@[0] == 'i' || b@[0] as u32 as int + 32 == 'i' as u32 as int);
            assert(!is_nan_word(b@));
        }
        return Some(NumberClass { above_zero: !negative, above_one: !negative });
    }
    if matches_word_exec(&b, "nan") {
        return Some(NumberClass { above_zero: true, above_one: true });
    }
    match decimal_parts(&b) {
        None => None,
        Some(d) => {
            if negative {
                Some(NumberClass { above_zero: false, above_one: false })
            } else {
                Some(decimal_reading(&b, &d))
            }
        },
    }
}

proof fn lemma_midpoint_between_one_and_two()
    ensures
        pow(10, 53) < digits_value(one_midpoint()) < 2 * pow(10, 53),
{
    lemma_thresholds();
    let m = one_midpoint();
    let head = m.take(1);
    let rest = m.skip(1);
    assert(m =~= head + rest);
    lemma_value_concat(head, rest);
    assert(head.drop_last() =~= Seq::<char>::empty());
    assert(head.last() == '1');
    assert(digits_value(head) == 10 * digits_value(head.drop_last()) + digit_value(head.last()));
    assert(digits_value(head) == 1);
    assert(all_digits(rest)) by {
        assert forall|i: int| 0 <= i < rest.len() implies is_digit(#[trigger] rest[i]) by {
            assert(rest[i] == m[i + 1]);
        }
    }
    lemma_value_bounds(rest);
    let lead = rest.take(16);
    let tail = rest.skip(16);
    assert(rest =~= lead + tail);
    lemma_value_concat(lead, tail);
    assert(lead.last() == '1');
    assert(digits_value(lead) == 10 * digits_value(lead.drop_last()) + digit_value(lead.last()));
    assert(all_digits(lead.drop_last())) by {
        assert forall|i: int| 0 <= i < lead.drop_last().len() implies is_digit(
            #[trigger] lead.drop_last()[i],
        ) by {
            assert(lead.drop_last()[i] == rest[i]);
        }
    }
    lemma_value_bounds(lead.drop_last());
    assert(digits_value(lead) >= 1);
    assert(all_digits(tail)) by {
        assert forall|i: int| 0 <= i < tail.len() implies is_digit(#[trigger] tail[i]) by {
            assert(tail[i] == rest[i + 16]);
        }
    }
    lemma_value_bounds(tail);
    lemma_pow_positive(10, tail.len());
    let a = digits_value(lead);
    let p = pow(10, tail.len());
    assert(a * p >= p) by (nonlinear_arith)
        requires
            a >= 1,
            p > 0,
    ;
    assert(pow(10, 53) == 1 * pow(10, 53));
}

/// A text of plain decimal digits is a number, the natural number `n` it spells: it
/// reads above zero exactly when `n > 0` and above one exactly when `n > 1`.
pub proof fn lemma_natural_number_text(s: Seq<char>)
    requires
        s.len() > 0,
        all_digits(s),
    ensures
        trimmed(s) == s,
        is_float_text(s),
        is_decimal(s) && !is_infinity_word(s) && !is_nan_word(s),
        reads_above_zero(s) <==> digits_value(s) > 0,
        reads_above_one(s) <==> digits_value(s) > 1,
{
    // No white space to trim.
    let ws = |c: char| !is_white_space(c);
    assert(is_digit(s[0]));
    assert(is_first_index(s, ws, 0));
    lemma_first_index(s, ws, 0);
    assert forall|j: int| 0 <= j < s.len() implies !is_white_space(#[trigger] s[j]) by {
        assert(is_digit(s[j]));
    }
    assert(is_trim_end(s, 0, s.len() as int));
    let b = choose|b: int| is_trim_end(s, 0, b);
    assert(is_trim_end(s, 0, b));
    if b < s.len() {
        assert(is_white_space(s[s.len() - 1]));
    }
    assert(s.subrange(0, s.len() as int) =~= s);
    // No sign, no special word, no point, no exponent.
    assert(sign_len(s) == 0);
    assert(unsigned_part(s) =~= s);
    reveal_strlit("inf");
    reveal_strlit("infinity");
    reveal_strlit("nan");
    assert(!is_infinity_word(s) && !is_nan_word(s)) by {
        assert(s[0] as u32 as int + 32 <= '9' as u32 as int + 32);
    }
    assert forall|j: int| 0 <= j < s.len() implies !marker_pred()(#[trigger] s[j]) by {
        assert(is_digit(s[j]));
    }
    assert(is_first_index(s, marker_pred(), s.len() as int));
    lemma_first_index(s, marker_pred(), s.len() as int);
    assert(mantissa_text(s) =~= s);
    assert forall|j: int| 0 <= j < s.len() implies !point_pred()(#[trigger] s[j]) by {
        assert(is_digit(s[j]));
    }
    assert(is_first_index(s, point_pred(), s.len() as int));
    lemma_first_index(s, point_pred(), s.len() as int);
    assert(int_digits(s) =~= s);
    assert(frac_digits(s) =~= Seq::<char>::empty());
    assert(exponent_text(s) =~= Seq::<char>::empty());
    assert(exponent_text(s).skip(0) =~= Seq::<char>::empty());
    assert(exponent_value(s) == 0);
    assert(is_decimal(s));
    assert(int_digits(s) + frac_digits(s) =~= s);
    // Compare with the two thresholds.
    let n = digits_value(s);
    lemma_value_bounds(s);
    lemma_thresholds();
    lemma_value_bounds(half_tiny());
    lemma_pow_increases(10, 752, 1075);
    lemma_pow_positive(10, 1075);
    let p = pow(10, 1075);
    if n > 0 {
        assert(n * p >= p) by (nonlinear_arith)
            requires
                n >= 1,
                p > 0,
        ;
    } else {
        lemma_zero_never_exceeds(1075, half_tiny());
    }
    lemma_midpoint_between_one_and_two();
    lemma_pow_positive(10, 53);
    let q = pow(10, 53);
    if n > 1 {
        assert(n * q >= 2 * q) by (nonlinear_arith)
            requires
                n >= 2,
                q > 0,
        ;
    } else {
        assert(n * q <= q) by (nonlinear_arith)
            requires
                0 <= n <= 1,
                q > 0,
        ;
    }
}

/// Plain digits after a minus sign are a number that reads neither above zero nor
/// above one.
pub proof fn lemma_negative_number_text(d: Seq<char>)
    requires
        d.len() > 0,
        all_digits(d),
    ensures
        is_float_text(trimmed(seq!['-'] + d)),
        !reads_above_zero(trimmed(seq!['-'] + d)),
        !reads_above_one(trimmed(seq!['-'] + d)),
{
    lemma_natural_number_text(d);
    let s = seq!['-'] + d;
    let ws = |c: char| !is_white_space(c);
    assert(s[0] == '-');
    assert(is_first_index(s, ws, 0));
    lemma_first_index(s, ws, 0);
    assert forall|j: int| 1 <= j < s.len() implies !is_white_space(#[trigger] s[j]) by {
        assert(s[j] == d[j - 1]);
        assert(is_digit(d[j - 1]));
    }
    assert(is_trim_end(s, 0, s.len() as int));
    let b = choose|b: int| is_trim_end(s, 0, b);
    assert(is_trim_end(s, 0, b));
    if b < s.len() {
        assert(is_white_space(s[s.len() - 1]));
    }
    assert(s.subrange(0, s.len() as int) =~= s);
    assert(trimmed(s) == s);
    assert(sign_len(s) == 1);
    assert(unsigned_part(s) =~= d);
    assert(negative_sign(s));
}

} // verus!
