//! Arbitrary-precision decimals in canonical form, read with the
//! `bigdecimal` crate and written in plain notation.

use bigdecimal::num_bigint::Sign;
use bigdecimal::BigDecimal;
use std::str::FromStr;
use vstd::prelude::*;
use vstd::string::StringExecFns;

verus! {

/// The mathematical value of a decimal: `digits`, read as a base-ten number
/// with the most significant digit first, divided by ten to the power
/// `scale`, and negated where `negative` is set.
pub struct DecimalModel {
    pub negative: bool,
    pub digits: Seq<u8>,
    pub scale: int,
}

/// Base-ten digits without a superfluous leading zero.
pub open spec fn digits_canonical(digits: Seq<u8>) -> bool {
    &&& digits.len() >= 1
    &&& forall|i: int| 0 <= i < digits.len() ==> #[trigger] digits[i] <= 9
    &&& (digits.len() > 1 ==> digits[0] != 0)
}

/// The character that writes the digit `d`.
pub open spec fn digit_char(d: u8) -> char {
    (d + 48) as char
}

/// The characters that write `digits`, in order.
pub open spec fn digit_chars(digits: Seq<u8>) -> Seq<char> {
    Seq::new(digits.len(), |i: int| digit_char(digits[i]))
}

/// `count` times the character `0`.
pub open spec fn zero_chars(count: int) -> Seq<char> {
    Seq::new(count as nat, |i: int| '0')
}

impl DecimalModel {
    /// Canonical digits, a scale that a machine integer holds, and a zero
    /// that has neither a sign nor a negative scale.
    pub open spec fn wf(self) -> bool {
        &&& digits_canonical(self.digits)
        &&& i64::MIN <= self.scale <= i64::MAX
        &&& (self.negative ==> self.digits[0] != 0)
        &&& (self.digits[0] == 0 ==> self.scale >= 0)
    }

    /// The same number with its scale written out: a negative scale becomes
    /// trailing zeros of the digits.
    pub open spec fn plain(self) -> DecimalModel {
        if self.scale < 0 {
            DecimalModel {
                negative: self.negative,
                digits: self.digits + Seq::new((-self.scale) as nat, |i: int| 0u8),
                scale: 0,
            }
        } else {
            self
        }
    }

    /// The value without its sign, in plain decimal notation.
    pub open spec fn magnitude_text(self) -> Seq<char> {
        let n = self.digits.len() as int;
        let chars = digit_chars(self.digits);
        if self.scale <= 0 {
            chars + zero_chars(-self.scale)
        } else if self.scale < n {
            chars.subrange(0, n - self.scale) + seq!['.'] + chars.subrange(n - self.scale, n)
        } else {
            seq!['0', '.'] + zero_chars(self.scale - n) + chars
        }
    }

    /// The canonical string form: plain decimal notation, with every digit
    /// of the scale written out and no exponent.
    pub open spec fn text(self) -> Seq<char> {
        if self.negative {
            seq!['-'] + self.magnitude_text()
        } else {
            self.magnitude_text()
        }
    }
}

/// Where the characters of a magnitude stand.
proof fn lemma_magnitude_layout(d: DecimalModel)
    requires
        d.wf(),
        d.scale >= 0,
    ensures
        d.magnitude_text().len() >= 1,
        d.magnitude_text()[0] != '-',
        forall|i: int|
            0 <= i < d.magnitude_text().len() ==> (#[trigger] d.magnitude_text()[i] == '.' <==> d.scale > 0
                && i == d.magnitude_text().len() - 1 - d.scale),
        d.scale == 0 ==> d.magnitude_text() == digit_chars(d.digits),
        0 < d.scale < d.digits.len() ==> {
            &&& d.magnitude_text().len() == d.digits.len() + 1
            &&& d.magnitude_text()[0] != '0'
            &&& forall|i: int|
                0 <= i < d.digits.len() - d.scale ==> #[trigger] d.magnitude_text()[i] == digit_char(
                    d.digits[i],
                )
            &&& forall|i: int|
                d.digits.len() - d.scale < i <= d.digits.len() ==> #[trigger] d.magnitude_text()[i]
                    == digit_char(d.digits[i - 1])
        },
        d.scale >= d.digits.len() ==> {
            &&& d.magnitude_text().len() == d.scale + 2
            &&& d.magnitude_text()[0] == '0'
            &&& forall|i: int|
                2 <= i < 2 + d.scale - d.digits.len() ==> #[trigger] d.magnitude_text()[i] == '0'
            &&& forall|i: int|
                2 + d.scale - d.digits.len() <= i < d.scale + 2 ==> #[trigger] d.magnitude_text()[i]
                    == digit_char(d.digits[i - (2 + d.scale - d.digits.len())])
        },
{
    let n = d.digits.len() as int;
    let chars = digit_chars(d.digits);
    let m = d.magnitude_text();
    assert(d.digits[0] <= 9);
    assert forall|i: int| 0 <= i < n implies #[trigger] chars[i] != '.' && chars[i] != '-' && (chars[i]
        == '0' <==> d.digits[i] == 0) by {
        assert(d.digits[i] <= 9);
    }
    if d.scale == 0 {
        assert(m =~= chars);
    } else if d.scale < n {
        let head = chars.subrange(0, n - d.scale);
        let tail = chars.subrange(n - d.scale, n);
        assert(m == head + seq!['.'] + tail);
        assert forall|i: int| 0 <= i < m.len() implies (#[trigger] m[i] == '.' <==> i == m.len() - 1
            - d.scale) by {
            if i < n - d.scale {
                assert(m[i] == chars[i]);
            } else if i > n - d.scale {
                assert(m[i] == chars[i - 1]);
            }
        }
        assert(m[0] == chars[0]);
    } else {
        let pad = zero_chars(d.scale - n);
        assert(m == seq!['0', '.'] + pad + chars);
        assert forall|i: int| 0 <= i < m.len() implies (#[trigger] m[i] == '.' <==> i == 1) by {
            if 2 <= i < 2 + d.scale - n {
                assert(m[i] == pad[i - 2]);
            } else if i >= 2 + d.scale - n {
                assert(m[i] == chars[i - (2 + d.scale - n)]);
            }
        }
    }
}

/// Two decimals in canonical form without a negative scale that have the
/// same canonical string form are the same decimal.
pub proof fn lemma_text_injective(a: DecimalModel, b: DecimalModel)
    requires
        a.wf(),
        b.wf(),
        a.scale >= 0,
        b.scale >= 0,
        a.text() == b.text(),
    ensures
        a == b,
{
    lemma_magnitude_layout(a);
    lemma_magnitude_layout(b);
    let ma = a.magnitude_text();
    let mb = b.magnitude_text();
    assert(a.negative == b.negative) by {
        if a.negative {
            assert(a.text()[0] == '-');
        }
        if b.negative {
            assert(b.text()[0] == '-');
        }
    }
    assert(ma == mb) by {
        if a.negative {
            assert(ma =~= a.text().subrange(1, a.text().len() as int));
            assert(mb =~= b.text().subrange(1, b.text().len() as int));
        }
    }
    assert(a.scale == b.scale) by {
        if a.scale > 0 {
            assert(mb[ma.len() - 1 - a.scale] == '.');
        }
        if b.scale > 0 {
            assert(ma[mb.len() - 1 - b.scale] == '.');
        }
    }
    let na = a.digits.len() as int;
    let nb = b.digits.len() as int;
    if a.scale >= na && b.scale >= nb {
        if na < nb {
            assert(ma[2 + b.scale - nb] == '0');
            assert(b.digits[0] <= 9);
        }
        if nb < na {
            assert(mb[2 + a.scale - na] == '0');
            assert(a.digits[0] <= 9);
        }
        assert(na == nb);
    }
    assert(na == nb);
    assert forall|i: int| 0 <= i < na implies a.digits[i] == b.digits[i] by {
        assert(a.digits[i] <= 9 && b.digits[i] <= 9);
        if a.scale == 0 {
            assert(digit_chars(a.digits)[i] == digit_chars(b.digits)[i]);
        } else if a.scale < na {
            if i < na - a.scale {
                assert(ma[i] == mb[i]);
            } else {
                assert(ma[i + 1] == mb[i + 1]);
            }
        } else {
            assert(ma[2 + a.scale - na + i] == mb[2 + a.scale - na + i]);
        }
    }
    assert(a.digits =~= b.digits);
}

/// A decimal as an arbitrary-precision library reports it: a sign, the
/// base-ten digits of the unscaled integer, and the scale, none of them
/// checked yet.
#[derive(Debug, PartialEq, Eq)]
pub struct DecimalParts {
    pub negative: bool,
    pub digits: Vec<u8>,
    pub scale: i64,
}

impl View for DecimalParts {
    type V = DecimalModel;

    open spec fn view(&self) -> DecimalModel {
        DecimalModel { negative: self.negative, digits: self.digits@, scale: self.scale as int }
    }
}

impl DecimalModel {
    /// Whether parts can be brought into canonical form: whether each of
    /// their digits is a base-ten digit.
    pub open spec fn normalizable(self) -> bool {
        &&& forall|i: int| 0 <= i < self.digits.len() ==> #[trigger] self.digits[i] <= 9
        &&& i64::MIN <= self.scale <= i64::MAX
    }

    /// The canonical form of parts: the digits lose their leading zeros,
    /// zero has neither a sign nor a negative scale, and every other value
    /// keeps its sign and its scale.
    pub open spec fn normalized(self) -> DecimalModel {
        let digits = trimmed(self.digits);
        if digits[0] == 0 {
            DecimalModel {
                negative: false,
                digits,
                scale: if self.scale < 0 {
                    0
                } else {
                    self.scale
                },
            }
        } else {
            DecimalModel { negative: self.negative, digits, scale: self.scale }
        }
    }
}

/// Digits without their leading zeros; no digits at all stand for zero.
pub open spec fn trimmed(digits: Seq<u8>) -> Seq<u8>
    decreases digits.len(),
{
    if digits.len() == 0 {
        seq![0u8]
    } else if digits.len() > 1 && digits[0] == 0 {
        trimmed(digits.drop_first())
    } else {
        digits
    }
}

/// Trimmed base-ten digits are canonical, and canonical digits are their
/// own trimmed form.
pub proof fn lemma_trimmed(digits: Seq<u8>)
    requires
        forall|i: int| 0 <= i < digits.len() ==> #[trigger] digits[i] <= 9,
    ensures
        digits_canonical(trimmed(digits)),
        digits_canonical(digits) ==> trimmed(digits) == digits,
    decreases digits.len(),
{
    if digits.len() > 1 && digits[0] == 0 {
        let rest = digits.drop_first();
        assert forall|i: int| 0 <= i < rest.len() implies #[trigger] rest[i] <= 9 by {
            assert(digits[i + 1] <= 9);
        }
        lemma_trimmed(rest);
    }
}

/// Digits that begin with zeros trim to what the rest of them trims to.
proof fn lemma_trimmed_skip(digits: Seq<u8>, zeros: int)
    requires
        0 <= zeros < digits.len(),
        forall|i: int| 0 <= i < zeros ==> #[trigger] digits[i] == 0,
    ensures
        trimmed(digits) == trimmed(digits.skip(zeros)),
    decreases zeros,
{
    if zeros == 0 {
        assert(digits.skip(0) == digits);
    } else {
        let rest = digits.drop_first();
        assert(digits[0] == 0);
        assert forall|i: int| 0 <= i < zeros - 1 implies #[trigger] rest[i] == 0 by {
            assert(digits[i + 1] == 0);
        }
        lemma_trimmed_skip(rest, zeros - 1);
        assert(rest.skip(zeros - 1) == digits.skip(zeros));
    }
}

/// Parts that can be brought into canonical form are in canonical form
/// afterwards, and parts that are in canonical form stay as they are.
pub proof fn lemma_normalized_wf(parts: DecimalModel)
    requires
        parts.normalizable(),
    ensures
        parts.normalized().wf(),
        parts.wf() ==> parts.normalized() == parts,
{
    lemma_trimmed(parts.digits);
}

/// A decimal with its scale written out is in canonical form, has no
/// negative scale, and has the same canonical string form. A decimal
/// without a negative scale is its own written-out form.
pub proof fn lemma_plain(d: DecimalModel)
    requires
        d.wf(),
    ensures
        d.plain().wf(),
        d.plain().scale >= 0,
        d.plain().text() == d.text(),
        d.scale >= 0 ==> d.plain() == d,
{
    if d.scale < 0 {
        let after = d.plain();
        assert(d.digits[0] <= 9);
        assert forall|i: int| 0 <= i < after.digits.len() implies #[trigger] after.digits[i]
            <= 9 by {
            if i < d.digits.len() {
                assert(d.digits[i] <= 9);
            }
        }
        assert(digit_chars(after.digits) =~= digit_chars(d.digits) + zero_chars(-d.scale));
        assert(after.magnitude_text() =~= d.magnitude_text());
    }
}

/// What `BigDecimal::from_str` returns for a text, as the sign, the base-ten
/// digits and the scale of the decimal it read, or `None` where it reports
/// an error.
pub uninterp spec fn bigdecimal_from_str(text: Seq<char>) -> Option<(bool, Seq<u8>, i64)>;

/// Whether a text is the canonical string form of a decimal.
pub open spec fn is_canonical_text(text: Seq<char>) -> bool {
    exists|d: DecimalModel| d.wf() && d.scale >= 0 && #[trigger] d.text() == text
}

/// The decimal without a negative scale of which a text is the canonical
/// string form.
pub open spec fn decimal_of_canonical_text(text: Seq<char>) -> DecimalModel {
    choose|d: DecimalModel| d.wf() && d.scale >= 0 && #[trigger] d.text() == text
}

/// The parts that reading a text gives: those of the decimal that the text
/// writes, where it is a canonical string form, and otherwise whatever
/// `BigDecimal::from_str` makes of it.
pub open spec fn parts_of_text(text: Seq<char>) -> Option<DecimalModel> {
    if is_canonical_text(text) {
        Some(decimal_of_canonical_text(text))
    } else {
        match bigdecimal_from_str(text) {
            Some((negative, digits, scale)) => Some(
                DecimalModel { negative, digits, scale: scale as int },
            ),
            None => None,
        }
    }
}

/// Whether a text is read as a decimal: whether it is a canonical string
/// form or `BigDecimal::from_str` reads it.
pub open spec fn is_read(text: Seq<char>) -> bool {
    parts_of_text(text) is Some
}

/// The decimal that a text stands for, if any.
pub open spec fn decimal_of_text(text: Seq<char>) -> Option<DecimalModel> {
    match parts_of_text(text) {
        Some(parts) => if parts.normalizable() {
            Some(parts.normalized())
        } else {
            None
        },
        None => None,
    }
}

/// Reading the canonical string form of a decimal gives the decimal back
/// with its scale written out: the same number, and the very same decimal
/// where its scale is not negative.
pub proof fn lemma_text_round_trip(d: DecimalModel)
    requires
        d.wf(),
    ensures
        decimal_of_text(d.text()) == Some(d.plain()),
        d.scale >= 0 ==> decimal_of_text(d.text()) == Some(d),
{
    lemma_plain(d);
    let written = d.plain();
    let text = d.text();
    assert(written.text() == text);
    assert(is_canonical_text(text));
    let found = decimal_of_canonical_text(text);
    lemma_text_injective(found, written);
    lemma_normalized_wf(written);
}

/// A decimal in canonical form as a sign, digits and a scale.
pub open spec fn model_triple(d: DecimalModel) -> Option<(bool, Seq<u8>, i64)> {
    Some((d.negative, d.digits, d.scale as i64))
}

/// Parts as a sign, digits and a scale.
pub open spec fn parts_triple(parts: Option<DecimalParts>) -> Option<(bool, Seq<u8>, i64)> {
    match parts {
        Some(p) => Some((p.negative, p.digits@, p.scale)),
        None => None,
    }
}

/// Calls `BigDecimal::from_str` and takes the result apart with
/// `into_bigint_and_exponent` and `BigInt::to_radix_be`. The contract claims
/// that the parts depend on the text alone, that the canonical string form
/// of a decimal is read as that decimal: its digits without the point, as
/// many digits of scale as follow the point, and its sign; and that every
/// digit that comes back is a digit of the base ten, which is below ten.
#[verifier::external_body]
fn read_with_bigdecimal(text: &str) -> (parts: Option<DecimalParts>)
    ensures
        parts_triple(parts) == (if is_canonical_text(text@) {
            model_triple(decimal_of_canonical_text(text@))
        } else {
            bigdecimal_from_str(text@)
        }),
        parts matches Some(p) ==> forall|i: int|
            0 <= i < p.digits@.len() ==> #[trigger] p.digits@[i] <= 9,
{
    match BigDecimal::from_str(text) {
        Ok(value) => {
            let (unscaled, scale) = value.into_bigint_and_exponent();
            let (sign, digits) = unscaled.to_radix_be(10);
            let negative = match sign {
                Sign::Minus => true,
                Sign::NoSign => false,
                Sign::Plus => false,
            };
            Some(DecimalParts { negative, digits, scale })
        },
        Err(_) => None,
    }
}

/// The text of one digit.
pub(crate) fn digit_text(digit: u8) -> (r: &'static str)
    requires
        digit <= 9,
    ensures
        r@ == seq![digit_char(digit)],
{
    proof {
        reveal_strlit("0");
        reveal_strlit("1");
        reveal_strlit("2");
        reveal_strlit("3");
        reveal_strlit("4");
        reveal_strlit("5");
        reveal_strlit("6");
        reveal_strlit("7");
        reveal_strlit("8");
        reveal_strlit("9");
    }
    let text = if digit == 0 {
        "0"
    } else if digit == 1 {
        "1"
    } else if digit == 2 {
        "2"
    } else if digit == 3 {
        "3"
    } else if digit == 4 {
        "4"
    } else if digit == 5 {
        "5"
    } else if digit == 6 {
        "6"
    } else if digit == 7 {
        "7"
    } else if digit == 8 {
        "8"
    } else {
        "9"
    };
    assert(text@ =~= seq![digit_char(digit)]);
    text
}

/// Appends the characters of the digits from `from` up to `to`.
fn append_digits(text: &mut String, digits: &Vec<u8>, from: usize, to: usize)
    requires
        from <= to <= digits.len(),
        forall|i: int| 0 <= i < digits.len() ==> #[trigger] digits@[i] <= 9,
    ensures
        final(text)@ == old(text)@ + digit_chars(digits@).subrange(from as int, to as int),
{
    let ghost before = text@;
    let ghost chars = digit_chars(digits@);
    let mut i: usize = from;
    assert(text@ =~= before + chars.subrange(from as int, i as int));
    while i < to
        invariant
            from <= i <= to <= digits.len(),
            chars == digit_chars(digits@),
            forall|j: int| 0 <= j < digits.len() ==> #[trigger] digits@[j] <= 9,
            text@ == before + chars.subrange(from as int, i as int),
        decreases to - i,
    {
        text.append(digit_text(digits[i]));
        assert(chars.subrange(from as int, i + 1) =~= chars.subrange(from as int, i as int).push(
            digit_char(digits@[i as int]),
        ));
        assert(text@ =~= before + chars.subrange(from as int, i + 1));
        i += 1;
    }
}

/// Appends `count` times the character `0`.
fn append_zeros(text: &mut String, count: u64)
    ensures
        final(text)@ == old(text)@ + zero_chars(count as int),
{
    proof {
        reveal_strlit("0");
    }
    let ghost before = text@;
    let mut done: u64 = 0;
    assert(text@ =~= before + zero_chars(done as int));
    while done < count
        invariant
            done <= count,
            "0"@ == seq!['0'],
            text@ == before + zero_chars(done as int),
        decreases count - done,
    {
        text.append("0");
        assert(text@ =~= before + zero_chars(done + 1));
        done += 1;
    }
}

/// Whether every element is a base-ten digit.
fn all_below_ten(digits: &Vec<u8>) -> (r: bool)
    ensures
        r <==> forall|i: int| 0 <= i < digits.len() ==> #[trigger] digits@[i] <= 9,
{
    let mut i: usize = 0;
    while i < digits.len()
        invariant
            i <= digits.len(),
            forall|j: int| 0 <= j < i ==> #[trigger] digits@[j] <= 9,
        decreases digits.len() - i,
    {
        if digits[i] > 9 {
            return false;
        }
        i += 1;
    }
    true
}

/// Takes the leading zeros off digits.
fn trim(digits: Vec<u8>) -> (r: Vec<u8>)
    ensures
        r@ == trimmed(digits@),
{
    if digits.len() == 0 {
        return vec![0u8];
    }
    let mut zeros: usize = 0;
    while zeros + 1 < digits.len() && digits[zeros] == 0
        invariant
            zeros < digits.len(),
            forall|i: int| 0 <= i < zeros ==> #[trigger] digits@[i] == 0,
        decreases digits.len() - zeros,
    {
        zeros += 1;
    }
    proof {
        lemma_trimmed_skip(digits@, zeros as int);
        assert(digits@.skip(zeros as int) == digits@.subrange(zeros as int, digits@.len() as int));
    }
    let mut digits = digits;
    digits.split_off(zeros)
}

/// An arbitrary-precision decimal in canonical form.
#[derive(Debug, PartialEq, Eq)]
pub struct Decimal {
    negative: bool,
    digits: Vec<u8>,
    scale: i64,
}

impl View for Decimal {
    type V = DecimalModel;

    closed spec fn view(&self) -> DecimalModel {
        DecimalModel { negative: self.negative, digits: self.digits@, scale: self.scale as int }
    }
}

impl Decimal {
    #[verifier::type_invariant]
    closed spec fn canonical(self) -> bool {
        self@.wf()
    }

    /// Checks parts and brings them into canonical form.
    pub fn from_parts(parts: DecimalParts) -> (r: Option<Decimal>)
        ensures
            r is Some <==> parts@.normalizable(),
            r matches Some(d) ==> d@ == parts@.normalized() && d@.wf(),
    {
        let ghost given = parts@;
        proof {
            if given.normalizable() {
                lemma_normalized_wf(given);
            }
        }
        let DecimalParts { negative, digits, scale } = parts;
        if !all_below_ten(&digits) {
            return None;
        }
        let digits = trim(digits);
        if digits[0] == 0 {
            let scale: i64 = if scale < 0 { 0 } else { scale };
            return Some(Decimal { negative: false, digits, scale });
        }
        Some(Decimal { negative, digits, scale })
    }

    /// Reads a decimal from a text: every text that is read gives one.
    pub fn from_text(text: &str) -> (r: Option<Decimal>)
        ensures
            r is Some <==> is_read(text@),
            match r {
                Some(d) => decimal_of_text(text@) == Some(d@) && d@.wf(),
                None => decimal_of_text(text@) is None,
            },
    {
        match read_with_bigdecimal(text) {
            Some(parts) => Decimal::from_parts(parts),
            None => None,
        }
    }

    /// The canonical string form of the value: plain notation, however
    /// many zeros the scale asks for.
    pub fn to_text(&self) -> (text: String)
        ensures
            text@ == self@.text(),
    {
        proof {
            use_type_invariant(self);
            reveal_strlit("-");
            reveal_strlit(".");
            reveal_strlit("0");
        }
        let ghost chars = digit_chars(self.digits@);
        let count = self.digits.len();
        let mut text = String::new();
        if self.negative {
            text.append("-");
        }
        let ghost sign = text@;
        if self.scale <= 0 {
            append_digits(&mut text, &self.digits, 0, count);
            append_zeros(&mut text, (-(self.scale as i128)) as u64);
            assert(text@ =~= sign + (chars + zero_chars(-self.scale)));
        } else if (self.scale as u64) < (count as u64) {
            let whole: usize = count - (self.scale as usize);
            append_digits(&mut text, &self.digits, 0, whole);
            text.append(".");
            append_digits(&mut text, &self.digits, whole, count);
            assert(text@ =~= sign + (chars.subrange(0, whole as int) + seq!['.'] + chars.subrange(
                whole as int,
                count as int,
            )));
        } else {
            text.append("0");
            text.append(".");
            append_zeros(&mut text, (self.scale as u64) - (count as u64));
            append_digits(&mut text, &self.digits, 0, count);
            assert(text@ =~= sign + (seq!['0', '.'] + zero_chars(self.scale - count) + chars));
        }
        text
    }

    /// A copy of the value.
    pub fn duplicate(&self) -> (r: Decimal)
        ensures
            r@ == self@,
    {
        proof {
            use_type_invariant(self);
        }
        Decimal { negative: self.negative, digits: self.digits.clone(), scale: self.scale }
    }

    /// Whether the value is below zero.
    pub fn is_negative(&self) -> (r: bool)
        ensures
            r == self@.negative,
    {
        self.negative
    }

    /// The base-ten digits of the unscaled integer, most significant first.
    pub fn digits(&self) -> (r: &Vec<u8>)
        ensures
            r@ == self@.digits,
            self@.wf(),
    {
        proof {
            use_type_invariant(self);
        }
        &self.digits
    }

    /// The number of digits after the decimal point.
    pub fn scale(&self) -> (r: i64)
        ensures
            r == self@.scale,
    {
        self.scale
    }
}

} // verus!
