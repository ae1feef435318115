//! Number literals as exact decimals.
//!
//! A numeral is a run of digits, optionally followed by a point and
//! another run of digits. Its value is kept exactly, as the digits
//! before and after the point, in canonical form: no zero leads the
//! whole part and no zero trails the fraction. The decimal of a numeral
//! denotes the number that the numeral writes, and two canonical
//! decimals that denote the same number are equal.

use vstd::prelude::*;
use crate::charclass::{is_digit, run_end, lemma_run_end, lemma_run_end_is, CharClass};
use crate::text::{chars_of, collect_range};

verus! {

/// The mathematical content of a [`Decimal`].
pub struct DecimalView {
    /// The digits before the point, most significant first; empty for zero.
    pub whole: Seq<char>,
    /// The digits after the point; empty where there is no fraction.
    pub fraction: Seq<char>,
}

/// An exact decimal number in canonical form.
#[derive(Clone, Debug, PartialEq, Eq)]
pub struct Decimal {
    whole: String,
    fraction: String,
}

impl View for Decimal {
    type V = DecimalView;

    closed spec fn view(&self) -> DecimalView {
        DecimalView { whole: self.whole@, fraction: self.fraction@ }
    }
}

/// `s` without the zeros at its front.
pub open spec fn trim_leading_zeros(s: Seq<char>) -> Seq<char>
    decreases s.len(),
{
    if s.len() > 0 && s[0] == '0' {
        trim_leading_zeros(s.drop_first())
    } else {
        s
    }
}

/// `s` without the zeros at its back.
pub open spec fn trim_trailing_zeros(s: Seq<char>) -> Seq<char>
    decreases s.len(),
{
    if s.len() > 0 && s.last() == '0' {
        trim_trailing_zeros(s.drop_last())
    } else {
        s
    }
}

/// Where the longest numeral that starts at `pos` ends: after the run
/// of digits at `pos` and, where a point and at least one more digit
/// follow, after the digits behind that point. A point without a digit
/// behind it is not part of the numeral.
pub open spec fn numeral_end(src: Seq<char>, pos: int) -> int {
    let whole_end = run_end(src, pos, CharClass::Digit);
    if whole_end + 1 < src.len() && src[whole_end] == '.' && is_digit(src[whole_end + 1]) {
        run_end(src, whole_end + 1, CharClass::Digit)
    } else {
        whole_end
    }
}

/// Whether `text` is one numeral from its first to its last character.
pub open spec fn is_numeral(text: Seq<char>) -> bool {
    text.len() > 0 && is_digit(text[0]) && numeral_end(text, 0) == text.len()
}

/// The decimal that the numeral `text` denotes.
pub open spec fn decimal_of(text: Seq<char>) -> DecimalView
    recommends
        is_numeral(text),
{
    let whole_end = run_end(text, 0, CharClass::Digit);
    DecimalView {
        whole: trim_leading_zeros(text.take(whole_end)),
        fraction: if whole_end < text.len() {
            trim_trailing_zeros(text.skip(whole_end + 1))
        } else {
            Seq::empty()
        },
    }
}

/// The canonical form of decimals: digits only, no zero in front of the
/// whole part, no zero at the back of the fraction.
pub open spec fn is_canonical(d: DecimalView) -> bool {
    &&& forall|i: int| 0 <= i < d.whole.len() ==> is_digit(#[trigger] d.whole[i])
    &&& forall|i: int| 0 <= i < d.fraction.len() ==> is_digit(#[trigger] d.fraction[i])
    &&& d.whole.len() > 0 ==> d.whole[0] != '0'
    &&& d.fraction.len() > 0 ==> d.fraction.last() != '0'
}

/// How a decimal is written: the whole part, or `0` where it is empty,
/// followed by a point and the fraction where there is one.
pub open spec fn decimal_form(d: DecimalView) -> Seq<char> {
    (if d.whole.len() == 0 {
        seq!['0']
    } else {
        d.whole
    }) + (if d.fraction.len() == 0 {
        Seq::<char>::empty()
    } else {
        seq!['.'] + d.fraction
    })
}

/// The number that the digit `c` writes.
pub open spec fn digit_value(c: char) -> nat
    recommends
        is_digit(c),
{
    (c as int - '0' as int) as nat
}

/// The number that the run of digits `s` writes; zero for the empty run.
pub open spec fn digits_value(s: Seq<char>) -> nat
    decreases s.len(),
{
    if s.len() == 0 {
        0
    } else {
        digits_value(s.drop_last()) * 10 + digit_value(s.last())
    }
}

/// Ten to the power of `n`.
pub open spec fn pow10(n: nat) -> nat
    decreases n,
{
    if n == 0 {
        1
    } else {
        10 * pow10((n - 1) as nat)
    }
}

/// The number that `d` denotes, multiplied by ten to the power of
/// `scale`, for a scale that covers the fraction.
pub open spec fn scaled_value(d: DecimalView, scale: nat) -> nat
    recommends
        scale >= d.fraction.len(),
{
    digits_value(d.whole + d.fraction) * pow10((scale - d.fraction.len()) as nat)
}

/// The digits behind the point of the numeral `text`.
pub open spec fn numeral_fraction(text: Seq<char>) -> Seq<char> {
    let whole_end = run_end(text, 0, CharClass::Digit);
    if whole_end < text.len() {
        text.skip(whole_end + 1)
    } else {
        Seq::empty()
    }
}

/// The number that the numeral `text` writes, multiplied by ten to the
/// power of `scale`, for a scale that covers the digits behind the point.
pub open spec fn numeral_scaled_value(text: Seq<char>, scale: nat) -> nat
    recommends
        is_numeral(text),
        scale >= numeral_fraction(text).len(),
{
    let whole = text.take(run_end(text, 0, CharClass::Digit));
    let fraction = numeral_fraction(text);
    digits_value(whole + fraction) * pow10((scale - fraction.len()) as nat)
}

/// Powers of ten multiply as their exponents add.
pub proof fn lemma_pow10_adds(a: nat, b: nat)
    ensures
        pow10(a + b) == pow10(a) * pow10(b),
    decreases a,
{
    if a > 0 {
        let less = (a - 1) as nat;
        lemma_pow10_adds(less, b);
        assert(10 * (pow10(less) * pow10(b)) == (10 * pow10(less)) * pow10(b))
            by (nonlinear_arith);
    } else {
        assert(1 * pow10(b) == pow10(b)) by (nonlinear_arith);
    }
}

/// Digits written behind a run shift the run's value by one power of
/// ten each.
pub proof fn lemma_digits_value_concat(a: Seq<char>, b: Seq<char>)
    ensures
        digits_value(a + b) == digits_value(a) * pow10(b.len()) + digits_value(b),
    decreases b.len(),
{
    if b.len() == 0 {
        assert(digits_value(a) * 1 == digits_value(a)) by (nonlinear_arith);
    } else {
        let front = b.drop_last();
        lemma_digits_value_concat(a, front);
        assert((a + b).drop_last() == a + front);
        let x = digits_value(a);
        let p = pow10(front.len());
        let y = digits_value(front);
        assert((x * p + y) * 10 == x * (10 * p) + y * 10) by (nonlinear_arith);
    }
}

/// Zeros in front of a run of digits do not change its value.
pub proof fn lemma_leading_zeros_keep_value(s: Seq<char>)
    ensures
        digits_value(trim_leading_zeros(s)) == digits_value(s),
    decreases s.len(),
{
    if s.len() > 0 && s[0] == '0' {
        let rest = s.drop_first();
        lemma_leading_zeros_keep_value(rest);
        lemma_digits_value_concat(seq!['0'], rest);
        assert(seq!['0'] + rest == s);
        assert(digits_value(seq!['0'].drop_last()) == 0);
        assert(0 * pow10(rest.len()) == 0) by (nonlinear_arith);
    }
}

/// Each zero at the back of a run of digits multiplies its value by ten.
pub proof fn lemma_trailing_zeros_scale_value(s: Seq<char>)
    ensures
        trim_trailing_zeros(s).len() <= s.len(),
        digits_value(s) == digits_value(trim_trailing_zeros(s)) * pow10(
            (s.len() - trim_trailing_zeros(s).len()) as nat,
        ),
    decreases s.len(),
{
    if s.len() > 0 && s.last() == '0' {
        let front = s.drop_last();
        lemma_trailing_zeros_scale_value(front);
        let v = digits_value(trim_trailing_zeros(s));
        let p = pow10((front.len() - trim_trailing_zeros(s).len()) as nat);
        assert((v * p) * 10 == v * (10 * p)) by (nonlinear_arith);
    } else {
        assert(digits_value(s) * 1 == digits_value(s)) by (nonlinear_arith);
    }
}

/// The decimal of a numeral denotes the number that the numeral
/// writes: at every scale that covers the numeral's fraction both
/// have the same scaled value.
pub proof fn lemma_decimal_of_keeps_value(text: Seq<char>, scale: nat)
    requires
        scale >= numeral_fraction(text).len(),
    ensures
        decimal_of(text).fraction.len() <= numeral_fraction(text).len(),
        scaled_value(decimal_of(text), scale) == numeral_scaled_value(text, scale),
{
    let whole = text.take(run_end(text, 0, CharClass::Digit));
    let fraction = numeral_fraction(text);
    let d = decimal_of(text);
    lemma_leading_zeros_keep_value(whole);
    lemma_trailing_zeros_scale_value(fraction);
    lemma_digits_value_concat(whole, fraction);
    lemma_digits_value_concat(d.whole, d.fraction);
    let dropped = (fraction.len() - d.fraction.len()) as nat;
    let spare = (scale - fraction.len()) as nat;
    lemma_pow10_adds(d.fraction.len(), dropped);
    lemma_pow10_adds(dropped, spare);
    let w = digits_value(whole);
    let f = digits_value(d.fraction);
    let p_kept = pow10(d.fraction.len());
    let p_dropped = pow10(dropped);
    let p_spare = pow10(spare);
    assert((w * p_kept + f) * (p_dropped * p_spare) == (w * (p_kept * p_dropped) + f * p_dropped)
        * p_spare) by (nonlinear_arith);
}

/// Whether `s` holds digits only.
pub open spec fn all_digits(s: Seq<char>) -> bool {
    forall|i: int| 0 <= i < s.len() ==> is_digit(#[trigger] s[i])
}

/// A run of `n` zeros.
pub open spec fn zeros(n: nat) -> Seq<char> {
    Seq::new(n, |i: int| '0')
}

/// The digits of `d` at `scale`: the whole part, the fraction, and
/// zeros up to `scale` places behind the point.
pub open spec fn scaled_digits(d: DecimalView, scale: nat) -> Seq<char>
    recommends
        scale >= d.fraction.len(),
{
    d.whole + d.fraction + zeros((scale - d.fraction.len()) as nat)
}

/// A run of zeros writes zero.
pub proof fn lemma_zeros_value(n: nat)
    ensures
        digits_value(zeros(n)) == 0,
    decreases n,
{
    if n > 0 {
        lemma_zeros_value((n - 1) as nat);
        assert(zeros(n).drop_last() == zeros((n - 1) as nat));
    }
}

/// A run of `n` digits writes a number below ten to the power of `n`,
/// and one that does not start with a zero writes a number of exactly
/// `n` places.
pub proof fn lemma_digits_value_bounds(s: Seq<char>)
    requires
        all_digits(s),
    ensures
        digits_value(s) < pow10(s.len()),
        s.len() > 0 && s[0] != '0' ==> digits_value(s) >= pow10((s.len() - 1) as nat),
    decreases s.len(),
{
    if s.len() > 0 {
        let front = s.drop_last();
        lemma_digits_value_bounds(front);
    }
}

/// Two runs of digits of one length that write the same number are
/// the same run.
pub proof fn lemma_digits_value_injective(s: Seq<char>, t: Seq<char>)
    requires
        all_digits(s),
        all_digits(t),
        s.len() == t.len(),
        digits_value(s) == digits_value(t),
    ensures
        s == t,
    decreases s.len(),
{
    if s.len() > 0 {
        lemma_digits_value_injective(s.drop_last(), t.drop_last());
        assert(s.last() == t.last());
        assert(s =~= s.drop_last().push(s.last()));
        assert(t =~= t.drop_last().push(t.last()));
    }
}

/// Powers of ten are positive and grow with their exponent.
pub proof fn lemma_pow10_grows(a: nat, b: nat)
    requires
        a <= b,
    ensures
        0 < pow10(a) <= pow10(b),
    decreases b,
{
    if a < b {
        lemma_pow10_grows(a, (b - 1) as nat);
    } else if b > 0 {
        lemma_pow10_grows((a - 1) as nat, (b - 1) as nat);
    }
}

/// The digits of a decimal at a scale write its scaled value.
pub proof fn lemma_scaled_digits(d: DecimalView, scale: nat)
    requires
        is_canonical(d),
        scale >= d.fraction.len(),
    ensures
        all_digits(scaled_digits(d, scale)),
        scaled_digits(d, scale).len() == d.whole.len() + scale,
        digits_value(scaled_digits(d, scale)) == scaled_value(d, scale),
{
    let padding = zeros((scale - d.fraction.len()) as nat);
    lemma_digits_value_concat(d.whole + d.fraction, padding);
    lemma_zeros_value((scale - d.fraction.len()) as nat);
}

/// The canonical form is unique: two canonical decimals that denote
/// the same number are equal.
pub proof fn lemma_canonical_is_unique(a: DecimalView, b: DecimalView, scale: nat)
    requires
        is_canonical(a),
        is_canonical(b),
        scale >= a.fraction.len(),
        scale >= b.fraction.len(),
        scaled_value(a, scale) == scaled_value(b, scale),
    ensures
        a == b,
{
    let x = scaled_digits(a, scale);
    let y = scaled_digits(b, scale);
    lemma_scaled_digits(a, scale);
    lemma_scaled_digits(b, scale);
    lemma_digits_value_bounds(x);
    lemma_digits_value_bounds(y);
    if a.whole.len() > b.whole.len() {
        // The longer whole part alone outweighs all of the other decimal.
        assert(x[0] == a.whole[0]);
        lemma_pow10_grows(y.len(), (x.len() - 1) as nat);
    } else if a.whole.len() < b.whole.len() {
        assert(y[0] == b.whole[0]);
        lemma_pow10_grows(x.len(), (y.len() - 1) as nat);
    } else {
        lemma_digits_value_injective(x, y);
        let n = a.whole.len() as int;
        assert(a.whole =~= x.take(n));
        assert(b.whole =~= y.take(n));
        if a.fraction.len() < b.fraction.len() {
            // The last digit of the longer fraction would face a zero.
            let at = n + b.fraction.len() - 1;
            assert(y[at] == b.fraction.last());
            assert(x[at] == '0');
        } else if a.fraction.len() > b.fraction.len() {
            let at = n + a.fraction.len() - 1;
            assert(x[at] == a.fraction.last());
            assert(y[at] == '0');
        } else {
            assert(a.fraction =~= x.subrange(n, n + a.fraction.len()));
            assert(b.fraction =~= y.subrange(n, n + b.fraction.len()));
        }
    }
}

/// Trimming the front drops exactly the zeros before the first other
/// character.
pub proof fn lemma_trim_leading_zeros(s: Seq<char>, k: int)
    requires
        0 <= k <= s.len(),
        forall|i: int| 0 <= i < k ==> #[trigger] s[i] == '0',
        k < s.len() ==> s[k] != '0',
    ensures
        trim_leading_zeros(s) == s.skip(k),
    decreases k,
{
    if k > 0 {
        let rest = s.drop_first();
        lemma_trim_leading_zeros(rest, k - 1);
        assert(rest.skip(k - 1) == s.skip(k));
    } else {
        assert(s.skip(0) == s);
    }
}

/// Trimming the back keeps exactly the characters up to the last one
/// that is not a zero.
pub proof fn lemma_trim_trailing_zeros(s: Seq<char>, k: int)
    requires
        0 <= k <= s.len(),
        forall|i: int| k <= i < s.len() ==> #[trigger] s[i] == '0',
        k > 0 ==> s[k - 1] != '0',
    ensures
        trim_trailing_zeros(s) == s.take(k),
    decreases s.len() - k,
{
    if k < s.len() {
        let rest = s.drop_last();
        lemma_trim_trailing_zeros(rest, k);
        assert(rest.take(k) == s.take(k));
    } else {
        assert(s.take(k) == s);
    }
}

/// The end of the run of digits of `chars` that starts at `pos`.
fn digits_end(chars: &Vec<char>, pos: usize) -> (end: usize)
    requires
        pos <= chars.len(),
    ensures
        end == run_end(chars@, pos as int, CharClass::Digit),
        pos <= end <= chars.len(),
{
    let mut end: usize = pos;
    while end < chars.len() && '0' <= chars[end] && chars[end] <= '9'
        invariant
            pos <= end <= chars.len(),
            forall|k: int| pos <= k < end ==> is_digit(#[trigger] chars@[k]),
        decreases chars.len() - end,
    {
        end += 1;
    }
    proof {
        lemma_run_end_is(chars@, pos as int, end as int, CharClass::Digit);
    }
    end
}

impl Decimal {
    /// The decimal that the numeral `text` denotes, or `None` where
    /// `text` is not a numeral.
    pub fn parse(text: &str) -> (parsed: Option<Decimal>)
        ensures
            parsed is Some <==> is_numeral(text@),
            parsed matches Some(d) ==> d@ == decimal_of(text@) && is_canonical(d@),
    {
        let chars = chars_of(text);
        if chars.len() == 0 || !('0' <= chars[0] && chars[0] <= '9') {
            return None;
        }
        let whole_end = digits_end(&chars, 0);
        let mut end: usize = whole_end;
        if whole_end < chars.len() - 1 && chars[whole_end] == '.' && '0' <= chars[whole_end + 1]
            && chars[whole_end + 1] <= '9' {
            end = digits_end(&chars, whole_end + 1);
        }
        if end == chars.len() {
            assert(chars@.subrange(0, chars.len() as int) == chars@);
            Some(Decimal::of_numeral(&chars, 0, end))
        } else {
            None
        }
    }

    /// The decimal that the numeral `chars[from..to]` denotes.
    pub(crate) fn of_numeral(chars: &Vec<char>, from: usize, to: usize) -> (d: Decimal)
        requires
            from <= to <= chars.len(),
            is_numeral(chars@.subrange(from as int, to as int)),
        ensures
            d@ == decimal_of(chars@.subrange(from as int, to as int)),
            is_canonical(d@),
    {
        let ghost text = chars@.subrange(from as int, to as int);
        // The run of digits before the point.
        let mut whole_end: usize = from;
        while whole_end < to && '0' <= chars[whole_end] && chars[whole_end] <= '9'
            invariant
                from <= whole_end <= to <= chars.len(),
                text == chars@.subrange(from as int, to as int),
                forall|k: int| 0 <= k < whole_end - from ==> is_digit(#[trigger] text[k]),
            decreases to - whole_end,
        {
            whole_end += 1;
        }
        proof {
            lemma_run_end_is(text, 0, whole_end - from, CharClass::Digit);
            if whole_end < to {
                lemma_run_end(text, whole_end - from + 1, CharClass::Digit);
            }
        }
        // Zeros in front of the whole part carry no value.
        let mut first: usize = from;
        while first < whole_end && chars[first] == '0'
            invariant
                from <= first <= whole_end <= to <= chars.len(),
                forall|k: int| from <= k < first ==> #[trigger] chars@[k] == '0',
            decreases whole_end - first,
        {
            first += 1;
        }
        let whole = collect_range(chars, first, whole_end);
        proof {
            let digits = text.take(whole_end - from);
            lemma_trim_leading_zeros(digits, first - from);
            assert(digits.skip(first - from) == chars@.subrange(first as int, whole_end as int));
        }
        if whole_end == to {
            return Decimal { whole, fraction: String::new() };
        }
        // Zeros at the back of the fraction carry no value.
        let mut last: usize = to;
        while last > whole_end + 1 && chars[last - 1] == '0'
            invariant
                whole_end + 1 <= last <= to <= chars.len(),
                forall|k: int| last <= k < to ==> #[trigger] chars@[k] == '0',
            decreases last,
        {
            last -= 1;
        }
        let fraction = collect_range(chars, whole_end + 1, last);
        proof {
            let digits = text.skip(whole_end - from + 1);
            lemma_trim_trailing_zeros(digits, last - whole_end - 1);
            assert(digits.take(last - whole_end - 1) == chars@.subrange(
                whole_end + 1,
                last as int,
            ));
        }
        Decimal { whole, fraction }
    }

    /// The decimal as text: see [`decimal_form`].
    pub fn to_string(&self) -> (text: String)
        ensures
            text@ == decimal_form(self@),
    {
        let mut text = String::new();
        if self.whole.as_str().is_empty() {
            text.push('0');
        } else {
            text.append(self.whole.as_str());
        }
        if !self.fraction.as_str().is_empty() {
            text.push('.');
            text.append(self.fraction.as_str());
        }
        text
    }

    /// Whether both decimals are equal. Canonical decimals are equal
    /// exactly when they denote the same number.
    pub fn same_as(&self, other: &Decimal) -> (same: bool)
        ensures
            same == (self@ == other@),
    {
        self.whole.as_str().eq(other.whole.as_str()) && self.fraction.as_str().eq(
            other.fraction.as_str(),
        )
    }
}

} // verus!
