//! Component values written in engineering shorthand (`2k3`, `100nF`, `0.33R`),
//! read into an exact decimal number, and the unit that a designator implies.

use crate::category::capital;
use crate::category::to_capital;
use crate::text::chars_of;
use crate::text::find_comma;
use crate::text::first_token;
use crate::text::str_eq;
use crate::text::trim;
use crate::text::trimmed;
use vstd::prelude::*;
use vstd::string::*;

verus! {

/// The value of a component: either the mark that the part is not populated,
/// or the number `mantissa * 10^exponent`, whose mantissa is the decimal
/// number written by `digits` with its last `scale` digits behind the point.
#[derive(Debug, PartialEq, Eq)]
pub enum EngineeringValue {
    NotPopulated,
    Number { digits: Vec<u8>, scale: usize, exponent: i32 },
}

/// What an `EngineeringValue` stands for: the mark of a part that is not
/// populated, or the number `mantissa() / 10^scale * 10^exponent`.
pub enum ValueView {
    NotPopulated,
    Number { digits: Seq<u8>, scale: nat, exponent: int },
}

/// The number that the decimal digits `d` write, the first digit being the
/// most significant.
pub open spec fn digits_value(d: Seq<u8>) -> nat
    decreases d.len(),
{
    if d.len() == 0 {
        0
    } else {
        digits_value(d.drop_last()) * 10 + d.last() as nat
    }
}

impl View for EngineeringValue {
    type V = ValueView;

    open spec fn view(&self) -> ValueView {
        match self {
            EngineeringValue::NotPopulated => ValueView::NotPopulated,
            EngineeringValue::Number { digits, scale, exponent } => ValueView::Number {
                digits: digits@,
                scale: *scale as nat,
                exponent: *exponent as int,
            },
        }
    }
}

impl ValueView {
    /// The number that the digits write, the point left aside; 0 for the
    /// mark of a part that is not populated.
    pub open spec fn mantissa(self) -> nat {
        match self {
            ValueView::NotPopulated => 0,
            ValueView::Number { digits, scale, exponent } => digits_value(digits),
        }
    }

    /// Every digit is a decimal digit, and the point stands within the digits.
    pub open spec fn wf(self) -> bool {
        match self {
            ValueView::NotPopulated => true,
            ValueView::Number { digits, scale, exponent } => {
                &&& scale <= digits.len()
                &&& forall|i: int| 0 <= i < digits.len() ==> #[trigger] digits[i] <= 9
            },
        }
    }
}

impl DeepView for EngineeringValue {
    type V = ValueView;

    open spec fn deep_view(&self) -> ValueView {
        self.view()
    }
}

impl EngineeringValue {
    /// Every digit is a decimal digit, and the point stands within the digits.
    pub open spec fn wf(&self) -> bool {
        self@.wf()
    }
}

impl Clone for EngineeringValue {
    fn clone(&self) -> (r: Self)
        ensures
            r@ == self@,
    {
        match self {
            EngineeringValue::NotPopulated => EngineeringValue::NotPopulated,
            EngineeringValue::Number { digits, scale, exponent } => {
                let copy = digits.clone();
                assert(copy@ =~= digits@);
                EngineeringValue::Number { digits: copy, scale: *scale, exponent: *exponent }
            },
        }
    }
}

/// A comment that could not be read as a value; `text` is that comment.
#[derive(Debug, PartialEq, Eq)]
pub struct ValueParseError {
    pub text: String,
}

impl Clone for ValueParseError {
    fn clone(&self) -> (r: Self)
        ensures
            r.text@ == self.text@,
    {
        ValueParseError { text: self.text.clone() }
    }
}

/// Whether `c` is a decimal digit.
pub open spec fn is_digit(c: char) -> bool {
    '0' <= c && c <= '9'
}

/// The number that the decimal digit `c` writes.
pub open spec fn digit_value(c: char) -> u8 {
    ((c as u8) - 48) as u8
}

/// The numbers that the decimal digits of `s` write, one by one.
pub open spec fn digit_values(s: Seq<char>) -> Seq<u8> {
    Seq::new(s.len(), |i: int| digit_value(s[i]))
}

/// How many decimal digits `s` begins with.
pub open spec fn digit_run(s: Seq<char>) -> int
    decreases s.len(),
{
    if s.len() > 0 && is_digit(s[0]) {
        1 + digit_run(s.drop_first())
    } else {
        0
    }
}

/// The power of ten that a multiplier letter stands for, or `None` for a
/// character that is no multiplier letter. `G` stands for `10^12`.
pub open spec fn multiplier_exponent(c: char) -> Option<int> {
    if c == 'G' {
        Some(12)
    } else if c == 'M' {
        Some(6)
    } else if c == 'k' || c == 'K' {
        Some(3)
    } else if c == 'R' {
        Some(0)
    } else if c == 'm' {
        Some(-3)
    } else if c == 'u' {
        Some(-6)
    } else if c == 'n' {
        Some(-9)
    } else if c == 'p' {
        Some(-12)
    } else {
        None
    }
}

/// The parts of a value token: leading digits, an optional point with the
/// digits behind it, an optional multiplier letter, and the digits behind the
/// letter. What follows them (the name of a unit) belongs to no part.
pub struct TokenShape {
    pub whole: Seq<char>,
    pub point: bool,
    pub fraction: Seq<char>,
    pub exponent: Option<int>,
    pub trailing: Seq<char>,
}

/// Reads the parts of the token `t` from left to right, each run of digits as
/// long as it can be.
pub open spec fn token_shape(t: Seq<char>) -> TokenShape {
    let a = digit_run(t);
    let point = a < t.len() && t[a] == '.';
    let f0 = if point {
        a + 1
    } else {
        a
    };
    let f1 = f0 + digit_run(t.skip(f0));
    let exponent = if f1 < t.len() {
        multiplier_exponent(t[f1])
    } else {
        None
    };
    let g1 = if exponent is Some {
        f1 + 1 + digit_run(t.skip(f1 + 1))
    } else {
        f1
    };
    TokenShape {
        whole: t.subrange(0, a),
        point,
        fraction: t.subrange(f0, f1),
        exponent,
        trailing: if exponent is Some {
            t.subrange(f1 + 1, g1)
        } else {
            Seq::empty()
        },
    }
}

/// The value that the token `t` writes, or `None` where it writes none.
///
/// Digits behind the multiplier letter are the digits behind the point
/// (`2k3` is 2.3 thousand); a token with such digits and a point of its own
/// writes no number. Without them the token needs a digit before or behind
/// its point.
pub open spec fn token_value(t: Seq<char>) -> Option<ValueView> {
    let shape = token_shape(t);
    let exponent = match shape.exponent {
        Some(e) => e,
        None => 0,
    };
    if shape.trailing.len() > 0 {
        if shape.point {
            None
        } else {
            Some(
                ValueView::Number {
                    digits: digit_values(shape.whole + shape.trailing),
                    scale: shape.trailing.len(),
                    exponent,
                },
            )
        }
    } else if shape.whole.len() + shape.fraction.len() == 0 {
        None
    } else {
        Some(
            ValueView::Number {
                digits: digit_values(shape.whole + shape.fraction),
                scale: shape.fraction.len(),
                exponent,
            },
        )
    }
}

/// The value that a comment writes, or `None` where it cannot be read.
///
/// The comment `NP`, exactly so, marks a part that is not populated. Of any
/// other comment the text before the first comma counts, without the white
/// space around it.
pub open spec fn parsed_value(comment: Seq<char>) -> Option<ValueView> {
    if comment == "NP"@ {
        Some(ValueView::NotPopulated)
    } else {
        token_value(trimmed(first_token(comment)))
    }
}

/// Whether `c` is a decimal digit.
pub fn digit(c: char) -> (r: bool)
    ensures
        r == is_digit(c),
{
    '0' <= c && c <= '9'
}

/// The power of ten that a multiplier letter stands for.
pub fn multiplier(c: char) -> (r: Option<i32>)
    ensures
        match multiplier_exponent(c) {
            Some(e) => r == Some(e as i32) && -12 <= e <= 12,
            None => r is None,
        },
{
    match c {
        'G' => Some(12),
        'M' => Some(6),
        'k' | 'K' => Some(3),
        'R' => Some(0),
        'm' => Some(-3),
        'u' => Some(-6),
        'n' => Some(-9),
        'p' => Some(-12),
        _ => None,
    }
}

/// Where the first `k` characters of `s` are digits, the run of leading
/// digits is at least `k` long, and exactly `k` long where the text ends
/// there or goes on with something else.
pub proof fn lemma_digit_run(s: Seq<char>, k: int)
    requires
        0 <= k <= s.len(),
        forall|j: int| 0 <= j < k ==> is_digit(#[trigger] s[j]),
    ensures
        digit_run(s) >= k,
        (k == s.len() || !is_digit(s[k])) ==> digit_run(s) == k,
    decreases s.len(),
{
    if k == 0 {
        if s.len() > 0 && is_digit(s[0]) {
            lemma_digit_run(s.drop_first(), 0);
        }
    } else {
        let t = s.drop_first();
        assert(is_digit(s[0]));
        assert forall|j: int| 0 <= j < k - 1 implies is_digit(#[trigger] t[j]) by {
            assert(t[j] == s[j + 1]);
        }
        lemma_digit_run(t, k - 1);
        if k < s.len() {
            assert(t[k - 1] == s[k]);
        }
    }
}

/// The digits of two texts written one after the other are the digits of the
/// first followed by those of the second.
pub proof fn lemma_digit_values_add(a: Seq<char>, b: Seq<char>)
    ensures
        digit_values(a + b) == digit_values(a) + digit_values(b),
{
    assert(digit_values(a + b) =~= digit_values(a) + digit_values(b));
}

/// Finds the end of the run of digits that starts at `from`.
fn scan_digits(t: &Vec<char>, from: usize) -> (r: usize)
    requires
        from <= t@.len(),
    ensures
        from <= r <= t@.len(),
        r - from == digit_run(t@.skip(from as int)),
        forall|j: int| from <= j < r ==> is_digit(#[trigger] t@[j]),
{
    let mut i: usize = from;
    while i < t.len() && digit(t[i])
        invariant
            from <= i <= t@.len(),
            forall|j: int| from <= j < i ==> is_digit(#[trigger] t@[j]),
        decreases t@.len() - i,
    {
        i += 1;
    }
    proof {
        let s = t@.skip(from as int);
        assert forall|j: int| 0 <= j < i - from implies is_digit(#[trigger] s[j]) by {
            assert(s[j] == t@[from + j]);
        }
        lemma_digit_run(s, i - from);
    }
    i
}

/// Appends to `digits` the numbers that the digits of `t` from `from` up to
/// `to` write.
fn push_digits(digits: &mut Vec<u8>, t: &Vec<char>, from: usize, to: usize)
    requires
        from <= to <= t@.len(),
        forall|j: int| from <= j < to ==> is_digit(#[trigger] t@[j]),
        forall|j: int| 0 <= j < old(digits)@.len() ==> #[trigger] old(digits)@[j] <= 9,
    ensures
        final(digits)@ == old(digits)@ + digit_values(t@.subrange(from as int, to as int)),
        forall|j: int| 0 <= j < final(digits)@.len() ==> #[trigger] final(digits)@[j] <= 9,
{
    let mut i: usize = from;
    while i < to
        invariant
            from <= i <= to <= t@.len(),
            forall|j: int| from <= j < to ==> is_digit(#[trigger] t@[j]),
            digits@ == old(digits)@ + digit_values(t@.subrange(from as int, i as int)),
            forall|j: int| 0 <= j < digits@.len() ==> #[trigger] digits@[j] <= 9,
        decreases to - i,
    {
        let c = t[i];
        assert(is_digit(t@[i as int]));
        let d: u8 = (c as u8) - 48;
        digits.push(d);
        assert(digit_values(t@.subrange(from as int, i + 1)) == digit_values(
            t@.subrange(from as int, i as int),
        ).push(d));
        i += 1;
    }
}

/// Reads a value token. The result is `None` where the token writes no
/// number.
pub fn parse_token(t: &Vec<char>) -> (r: Option<EngineeringValue>)
    ensures
        match token_value(t@) {
            Some(v) => r is Some && r->Some_0@ == v && r->Some_0.wf(),
            None => r is None,
        },
{
    let n: usize = t.len();
    let a = scan_digits(t, 0);
    assert(t@.skip(0) == t@);
    let point = a < n && t[a] == '.';
    let f0: usize = if point {
        a + 1
    } else {
        a
    };
    let f1 = scan_digits(t, f0);
    let letter: Option<i32> = if f1 < n {
        multiplier(t[f1])
    } else {
        None
    };
    let g1: usize = if letter.is_some() {
        scan_digits(t, f1 + 1)
    } else {
        f1
    };
    let ghost shape = token_shape(t@);
    let ghost whole = t@.subrange(0, a as int);
    let ghost fraction = t@.subrange(f0 as int, f1 as int);
    assert(shape.whole == whole);
    assert(shape.point == point);
    assert(shape.fraction == fraction);
    assert(shape.exponent is Some == letter is Some);
    let mut digits: Vec<u8> = Vec::new();
    push_digits(&mut digits, t, 0, a);
    assert(digits@ == digit_values(whole));
    if letter.is_some() && g1 > f1 + 1 {
        let ghost trailing = t@.subrange(f1 + 1, g1 as int);
        assert(shape.trailing == trailing);
        if point {
            return None;
        }
        push_digits(&mut digits, t, f1 + 1, g1);
        proof {
            lemma_digit_values_add(whole, trailing);
        }
        let exponent: i32 = letter.unwrap();
        return Some(EngineeringValue::Number { digits, scale: g1 - (f1 + 1), exponent });
    }
    assert(shape.trailing.len() == 0);
    push_digits(&mut digits, t, f0, f1);
    proof {
        lemma_digit_values_add(whole, fraction);
    }
    if digits.len() == 0 {
        return None;
    }
    let exponent: i32 = match letter {
        Some(e) => e,
        None => 0,
    };
    Some(EngineeringValue::Number { digits, scale: f1 - f0, exponent })
}

/// Reads the value that a comment writes in engineering shorthand.
///
/// The comment `NP` gives the mark of a part that is not populated. Of any
/// other comment the text before the first comma is read, without the white
/// space around it: digits, an optional point and more digits, an optional
/// multiplier letter, and optional digits behind the letter, which then
/// stand behind the point. The name of a unit may follow. A comment that
/// writes no number in this way is handed back in the error.
pub fn convert_comment_to_value(comment: &str) -> (r: Result<EngineeringValue, ValueParseError>)
    ensures
        match parsed_value(comment@) {
            Some(v) => r is Ok && r->Ok_0@ == v && r->Ok_0.wf(),
            None => r is Err && r->Err_0.text@ == comment@,
        },
{
    if str_eq(comment, "NP") {
        return Ok(EngineeringValue::NotPopulated);
    }
    let cs = chars_of(comment);
    let k = find_comma(&cs);
    let token = trim(comment.substring_char(0, k));
    let t = chars_of(token.as_str());
    match parse_token(&t) {
        Some(v) => Ok(v),
        None => Err(ValueParseError { text: comment.to_owned() }),
    }
}

/// The physical unit in which the value of a component is measured.
#[derive(Debug, Clone, Copy, PartialEq, Eq, Structural)]
pub enum MeasureUnit {
    Ohm,
    Farad,
    Henry,
    Hertz,
    Unknown,
}

/// The unit that the first letter of a designator implies, whatever its case:
/// `R` ohm, `C` farad, `L` henry, `Y` hertz. Any other designator implies
/// none.
pub open spec fn unit_of(designator: Seq<char>) -> MeasureUnit {
    if designator.len() == 0 {
        MeasureUnit::Unknown
    } else if capital(designator[0]) == 'R' {
        MeasureUnit::Ohm
    } else if capital(designator[0]) == 'C' {
        MeasureUnit::Farad
    } else if capital(designator[0]) == 'L' {
        MeasureUnit::Henry
    } else if capital(designator[0]) == 'Y' {
        MeasureUnit::Hertz
    } else {
        MeasureUnit::Unknown
    }
}

/// Finds the unit of a component from the first letter of its designator.
pub fn detect_measure_unit(designator: &str) -> (r: MeasureUnit)
    ensures
        r == unit_of(designator@),
{
    if designator.unicode_len() == 0 {
        return MeasureUnit::Unknown;
    }
    match to_capital(designator.get_char(0)) {
        'R' => MeasureUnit::Ohm,
        'C' => MeasureUnit::Farad,
        'L' => MeasureUnit::Henry,
        'Y' => MeasureUnit::Hertz,
        _ => MeasureUnit::Unknown,
    }
}

impl MeasureUnit {
    /// The symbol of the unit as reports print it; empty for `Unknown`.
    pub open spec fn symbol_text(self) -> Seq<char> {
        match self {
            MeasureUnit::Ohm => "ohm"@,
            MeasureUnit::Farad => "F"@,
            MeasureUnit::Henry => "H"@,
            MeasureUnit::Hertz => "Hz"@,
            MeasureUnit::Unknown => ""@,
        }
    }

    /// The symbol of the unit as reports print it; empty for `Unknown`.
    pub fn symbol(self) -> (r: &'static str)
        ensures
            r@ == self.symbol_text(),
    {
        match self {
            MeasureUnit::Ohm => "ohm",
            MeasureUnit::Farad => "F",
            MeasureUnit::Henry => "H",
            MeasureUnit::Hertz => "Hz",
            MeasureUnit::Unknown => "",
        }
    }
}

} // verus!
