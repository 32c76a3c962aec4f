//! Writing numbers and values out as text for a report.

use crate::value::digit_run;
use crate::value::digit_values;
use crate::value::digits_value;
use crate::value::is_digit;
use crate::value::lemma_digit_run;
use crate::value::multiplier_exponent;
use crate::value::token_shape;
use crate::value::token_value;
use crate::value::EngineeringValue;
use crate::value::MeasureUnit;
use crate::value::ValueView;
use vstd::prelude::*;
use vstd::string::*;

verus! {

/// The character of a decimal digit; `?` for a number that is no digit.
pub open spec fn digit_char(d: u8) -> char {
    if d <= 9 {
        ((48 + d) as u8) as char
    } else {
        '?'
    }
}

/// The characters of the digits `d`, one by one.
pub open spec fn digits_text(d: Seq<u8>) -> Seq<char> {
    Seq::new(d.len(), |i: int| digit_char(d[i]))
}

/// The number `n` in decimal notation.
pub open spec fn decimal_text(n: nat) -> Seq<char>
    decreases n,
{
    if n < 10 {
        seq![digit_char(n as u8)]
    } else {
        decimal_text(n / 10) + seq![digit_char((n % 10) as u8)]
    }
}

/// The number `n` in decimal notation, a negative one behind a minus sign.
pub open spec fn signed_text(n: int) -> Seq<char> {
    if n < 0 {
        seq!['-'] + decimal_text((-n) as nat)
    } else {
        decimal_text(n as nat)
    }
}

/// The texts of `list` up to its entry `upto`, with `separator` between one
/// and the next.
pub open spec fn joined(list: Seq<Seq<char>>, separator: Seq<char>, upto: int) -> Seq<char>
    decreases upto,
{
    if upto <= 0 {
        Seq::empty()
    } else if upto == 1 {
        list[0]
    } else {
        joined(list, separator, upto - 1) + separator + list[upto - 1]
    }
}

/// The digits of a value with its point: the last `scale` digits stand behind
/// the point (all of them where there are fewer), and `0` stands before the
/// point where no digit does. Without digits behind it the point is left out.
pub open spec fn mantissa_text(digits: Seq<u8>, scale: nat) -> Seq<char> {
    let behind = if scale <= digits.len() {
        scale as int
    } else {
        digits.len() as int
    };
    let cut = digits.len() - behind;
    let whole = if cut == 0 {
        seq!['0']
    } else {
        digits_text(digits.subrange(0, cut))
    };
    if behind == 0 {
        whole
    } else {
        whole + seq!['.'] + digits_text(digits.subrange(cut, digits.len() as int))
    }
}

/// The multiplier letter of a power of ten, empty for `10^0`; a power that
/// has no letter is written as `e` and the exponent.
pub open spec fn multiplier_text(exponent: int) -> Seq<char> {
    if exponent == 12 {
        seq!['G']
    } else if exponent == 6 {
        seq!['M']
    } else if exponent == 3 {
        seq!['k']
    } else if exponent == 0 {
        Seq::empty()
    } else if exponent == -3 {
        seq!['m']
    } else if exponent == -6 {
        seq!['u']
    } else if exponent == -9 {
        seq!['n']
    } else if exponent == -12 {
        seq!['p']
    } else {
        seq!['e'] + signed_text(exponent)
    }
}

/// A value as a report prints it: `NP` for a part that is not populated,
/// else the digits with their point, the multiplier letter and the symbol of
/// the unit.
pub open spec fn eng_notation(value: ValueView, unit: MeasureUnit) -> Seq<char> {
    match value {
        ValueView::NotPopulated => seq!['N', 'P'],
        ValueView::Number { digits, scale, exponent } => mantissa_text(digits, scale)
            + multiplier_text(exponent) + unit.symbol_text(),
    }
}

/// The character of a decimal digit, as a text.
pub fn digit_str(d: u8) -> (r: &'static str)
    ensures
        r@ == seq![digit_char(d)],
{
    proof {
        reveal_strlit("0");
        reveal_strlit("1");
        reveal_strlit("2");
        reveal_strlit("3");
        reveal_strlit("4");
        reveal_strlit("5");
        reveal_strlit("6");
        reveal_strlit("7");
        reveal_strlit("8");
        reveal_strlit("9");
        reveal_strlit("?");
    }
    let r = match d {
        0 => "0",
        1 => "1",
        2 => "2",
        3 => "3",
        4 => "4",
        5 => "5",
        6 => "6",
        7 => "7",
        8 => "8",
        9 => "9",
        _ => "?",
    };
    assert(r@ =~= seq![digit_char(d)]);
    r
}

/// Writes `n` in decimal notation.
pub fn number_text(n: u64) -> (r: String)
    ensures
        r@ == decimal_text(n as nat),
    decreases n,
{
    if n < 10 {
        digit_str(n as u8).to_owned()
    } else {
        let mut text = number_text(n / 10);
        text.append(digit_str((n % 10) as u8));
        text
    }
}

/// Appends to `out` the characters of the digits of `d` from `from` up to
/// `to`.
fn push_digits_text(out: &mut String, d: &Vec<u8>, from: usize, to: usize)
    requires
        from <= to <= d@.len(),
    ensures
        final(out)@ == old(out)@ + digits_text(d@.subrange(from as int, to as int)),
{
    let mut i: usize = from;
    assert(out@ =~= old(out)@ + digits_text(d@.subrange(from as int, from as int)));
    while i < to
        invariant
            from <= i <= to <= d@.len(),
            out@ == old(out)@ + digits_text(d@.subrange(from as int, i as int)),
        decreases to - i,
    {
        out.append(digit_str(d[i]));
        assert(out@ =~= old(out)@ + digits_text(d@.subrange(from as int, i + 1)));
        i += 1;
    }
}

/// Writes the texts of `list` one after the other, with `separator` between
/// one and the next.
pub fn join(list: &Vec<String>, separator: &str) -> (r: String)
    ensures
        r@ == joined(list.deep_view(), separator@, list.len() as int),
{
    let ghost texts = list.deep_view();
    let mut out = String::new();
    let mut i: usize = 0;
    while i < list.len()
        invariant
            texts == list.deep_view(),
            i <= list.len(),
            out@ == joined(texts, separator@, i as int),
        decreases list.len() - i,
    {
        assert(texts[i as int] == list[i as int]@);
        if i > 0 {
            out.append(separator);
        }
        out.append(list[i].as_str());
        assert(out@ =~= joined(texts, separator@, i + 1));
        i += 1;
    }
    out
}

/// The multiplier letter of a power of ten.
pub fn multiplier_letter(exponent: i32) -> (r: String)
    ensures
        r@ == multiplier_text(exponent as int),
{
    proof {
        reveal_strlit("G");
        reveal_strlit("M");
        reveal_strlit("k");
        reveal_strlit("");
        reveal_strlit("m");
        reveal_strlit("u");
        reveal_strlit("n");
        reveal_strlit("p");
        reveal_strlit("e");
        reveal_strlit("e-");
    }
    let (text, plain): (&'static str, bool) = match exponent {
        12 => ("G", true),
        6 => ("M", true),
        3 => ("k", true),
        0 => ("", true),
        -3 => ("m", true),
        -6 => ("u", true),
        -9 => ("n", true),
        -12 => ("p", true),
        _ => ("e", false),
    };
    if plain {
        let out = text.to_owned();
        assert(out@ =~= multiplier_text(exponent as int));
        out
    } else if exponent < 0 {
        let mut out = "e-".to_owned();
        let size: u64 = (-(exponent as i64)) as u64;
        out.append(number_text(size).as_str());
        assert(out@ =~= multiplier_text(exponent as int));
        out
    } else {
        let mut out = "e".to_owned();
        out.append(number_text(exponent as u64).as_str());
        assert(out@ =~= multiplier_text(exponent as int));
        out
    }
}

/// Writes a value as a report prints it: `NP` for a part that is not
/// populated, else the digits with their point, the multiplier letter and the
/// symbol of the unit (`2.3kohm`, `100nF`).
pub fn value_to_eng_notation(value: &EngineeringValue, unit: MeasureUnit) -> (r: String)
    ensures
        r@ == eng_notation(value@, unit),
{
    match value {
        EngineeringValue::NotPopulated => {
            proof {
                reveal_strlit("NP");
            }
            let out = "NP".to_owned();
            assert(out@ =~= seq!['N', 'P']);
            out
        },
        EngineeringValue::Number { digits, scale, exponent } => {
            proof {
                reveal_strlit("0");
                reveal_strlit(".");
            }
            let n: usize = digits.len();
            let behind: usize = if *scale <= n {
                *scale
            } else {
                n
            };
            let cut: usize = n - behind;
            let mut out = String::new();
            if cut == 0 {
                out.append("0");
            } else {
                push_digits_text(&mut out, digits, 0, cut);
            }
            if behind > 0 {
                out.append(".");
                push_digits_text(&mut out, digits, cut, n);
            }
            assert(out@ =~= mantissa_text(digits@, *scale as nat));
            out.append(multiplier_letter(*exponent).as_str());
            out.append(unit.symbol());
            out
        },
    }
}

/// Whether a power of ten has a multiplier letter, or is `10^0`.
pub open spec fn has_letter(exponent: int) -> bool {
    exponent == 12 || exponent == 6 || exponent == 3 || exponent == 0 || exponent == -3 || exponent
        == -6 || exponent == -9 || exponent == -12
}

/// Where `k` digits stand in `text` from `from` on, and the text ends behind
/// them or goes on with something else, the run of digits from `from` on is
/// `k` long.
pub proof fn lemma_run_at(text: Seq<char>, from: int, k: int)
    requires
        0 <= from,
        0 <= k,
        from + k <= text.len(),
        forall|i: int| from <= i < from + k ==> is_digit(#[trigger] text[i]),
        from + k == text.len() || !is_digit(text[from + k]),
    ensures
        digit_run(text.skip(from)) == k,
{
    let s = text.skip(from);
    assert forall|j: int| 0 <= j < k implies is_digit(#[trigger] s[j]) by {
        assert(s[j] == text[from + j]);
    }
    if from + k < text.len() {
        assert(s[k] == text[from + k]);
    }
    lemma_digit_run(s, k);
}

/// A zero before the digits does not change the number that they write.
pub proof fn lemma_leading_zero(d: Seq<u8>)
    ensures
        digits_value(seq![0u8] + d) == digits_value(d),
    decreases d.len(),
{
    let z = seq![0u8] + d;
    if d.len() == 0 {
        assert(z.drop_last() =~= Seq::<u8>::empty());
        assert(digits_value(z.drop_last()) == 0);
        assert(z.last() == 0);
    } else {
        lemma_leading_zero(d.drop_last());
        assert(z.drop_last() =~= seq![0u8] + d.drop_last());
        assert(z.last() == d.last());
    }
}

/// The characters of decimal digits are digits, and write those digits.
pub proof fn lemma_digits_text(d: Seq<u8>)
    requires
        forall|i: int| 0 <= i < d.len() ==> #[trigger] d[i] <= 9,
    ensures
        forall|i: int| 0 <= i < d.len() ==> is_digit(#[trigger] digits_text(d)[i]),
        digit_values(digits_text(d)) == d,
{
    assert forall|i: int| 0 <= i < d.len() implies is_digit(#[trigger] digits_text(d)[i]) by {
        assert(d[i] <= 9);
    }
    assert forall|i: int| 0 <= i < d.len() implies digit_values(digits_text(d))[i] == d[i] by {
        assert(d[i] <= 9);
    }
    assert(digit_values(digits_text(d)) =~= d);
}

/// No symbol of a unit begins with a digit, a point or a multiplier letter.
pub proof fn lemma_symbol_start(unit: MeasureUnit)
    ensures
        unit.symbol_text().len() > 0 ==> {
            &&& !is_digit(unit.symbol_text()[0])
            &&& unit.symbol_text()[0] != '.'
            &&& multiplier_exponent(unit.symbol_text()[0]) is None
        },
{
    reveal_strlit("ohm");
    reveal_strlit("F");
    reveal_strlit("H");
    reveal_strlit("Hz");
    reveal_strlit("");
}

/// A multiplier letter is no digit and no point, and stands for its power of
/// ten.
pub proof fn lemma_letter_start(exponent: int)
    requires
        has_letter(exponent),
    ensures
        multiplier_text(exponent).len() == if exponent == 0 {
            0nat
        } else {
            1nat
        },
        exponent != 0 ==> {
            &&& !is_digit(multiplier_text(exponent)[0])
            &&& multiplier_text(exponent)[0] != '.'
            &&& multiplier_exponent(multiplier_text(exponent)[0]) == Some(exponent)
        },
{
}

/// A token written as digits, an optional point with digits behind it, an
/// optional multiplier letter and the symbol of a unit.
pub open spec fn written(
    whole: Seq<char>,
    point: bool,
    behind: Seq<char>,
    letter: Seq<char>,
    symbol: Seq<char>,
) -> Seq<char> {
    whole + (if point {
        seq!['.']
    } else {
        Seq::<char>::empty()
    }) + behind + letter + symbol
}

/// A token written part by part reads back into its parts.
pub proof fn lemma_written_shape(
    whole: Seq<char>,
    point: bool,
    behind: Seq<char>,
    letter: Seq<char>,
    symbol: Seq<char>,
)
    requires
        forall|i: int| 0 <= i < whole.len() ==> is_digit(#[trigger] whole[i]),
        forall|i: int| 0 <= i < behind.len() ==> is_digit(#[trigger] behind[i]),
        !point ==> behind.len() == 0,
        letter.len() <= 1,
        letter.len() == 1 ==> multiplier_exponent(letter[0]) is Some,
        symbol.len() > 0 ==> !is_digit(symbol[0]) && symbol[0] != '.' && multiplier_exponent(
            symbol[0],
        ) is None,
    ensures
        token_shape(written(whole, point, behind, letter, symbol)).whole == whole,
        token_shape(written(whole, point, behind, letter, symbol)).point == point,
        token_shape(written(whole, point, behind, letter, symbol)).fraction == behind,
        token_shape(written(whole, point, behind, letter, symbol)).exponent == if letter.len()
            == 1 {
            multiplier_exponent(letter[0])
        } else {
            None
        },
        token_shape(written(whole, point, behind, letter, symbol)).trailing.len() == 0,
{
    let text = written(whole, point, behind, letter, symbol);
    let a = whole.len() as int;
    let f0 = if point {
        a + 1
    } else {
        a
    };
    let f1 = f0 + behind.len();
    let g0 = f1 + letter.len();
    assert(text.len() == g0 + symbol.len());
    assert forall|i: int| 0 <= i < a implies text[i] == whole[i] by {}
    assert(point ==> text[a] == '.');
    assert forall|i: int| f0 <= i < f1 implies text[i] == behind[i - f0] by {}
    assert(letter.len() == 1 ==> text[f1] == letter[0]);
    assert forall|i: int| g0 <= i < text.len() implies text[i] == symbol[i - g0] by {}
    assert(a == text.len() || (!is_digit(text[a]) && (text[a] == '.') == point)) by {
        if a < text.len() && !point {
            if letter.len() == 1 {
                assert(text[a] == letter[0]);
            } else {
                assert(text[a] == symbol[0]);
            }
        }
    }
    assert(digit_run(text) == a) by {
        assert forall|i: int| 0 <= i < a implies is_digit(#[trigger] text[i]) by {
            assert(text[i] == whole[i]);
        }
        lemma_run_at(text, 0, a);
        assert(text.skip(0) =~= text);
    }
    assert(f1 == text.len() || !is_digit(text[f1])) by {
        if f1 < text.len() {
            if letter.len() == 1 {
                assert(text[f1] == letter[0]);
            } else {
                assert(text[f1] == symbol[0]);
            }
        }
    }
    assert(digit_run(text.skip(f0)) == behind.len()) by {
        assert forall|i: int| f0 <= i < f1 implies is_digit(#[trigger] text[i]) by {
            assert(text[i] == behind[i - f0]);
        }
        lemma_run_at(text, f0, behind.len() as int);
    }
    assert(text.subrange(0, a) =~= whole);
    assert(text.subrange(f0, f1) =~= behind);
    if letter.len() == 1 {
        assert(digit_run(text.skip(f1 + 1)) == 0) by {
            if f1 + 1 < text.len() {
                assert(text[f1 + 1] == symbol[0]);
            }
            lemma_run_at(text, f1 + 1, 0);
        }
        assert(text.subrange(f1 + 1, f1 + 1).len() == 0);
    } else if f1 < text.len() {
        assert(text[f1] == symbol[0]);
    }
}

/// What is written in engineering notation reads back as the same number:
/// a well-formed value whose power of ten has a multiplier letter, written
/// with any unit, is a token that writes the same mantissa, with as many
/// digits behind the point and the same power of ten.
pub proof fn lemma_notation_reads_back(
    digits: Seq<u8>,
    scale: nat,
    exponent: int,
    unit: MeasureUnit,
)
    requires
        (ValueView::Number { digits, scale, exponent }).wf(),
        has_letter(exponent),
    ensures
        token_value(eng_notation(ValueView::Number { digits, scale, exponent }, unit)) is Some,
        token_value(
            eng_notation(ValueView::Number { digits, scale, exponent }, unit),
        )->Some_0.mantissa() == digits_value(digits),
        token_value(eng_notation(ValueView::Number { digits, scale, exponent }, unit))->Some_0
            matches ValueView::Number { digits: d, scale: s, exponent: e } && s == scale && e
            == exponent,
{
    let n = digits.len() as int;
    let cut = n - scale;
    let front = digits.subrange(0, cut);
    let back = digits.subrange(cut, n);
    let whole = if cut == 0 {
        seq!['0']
    } else {
        digits_text(front)
    };
    let behind = if scale == 0 {
        Seq::<char>::empty()
    } else {
        digits_text(back)
    };
    let letter = multiplier_text(exponent);
    let symbol = unit.symbol_text();
    let text = eng_notation(ValueView::Number { digits, scale, exponent }, unit);
    lemma_digits_text(front);
    lemma_digits_text(back);
    lemma_symbol_start(unit);
    lemma_letter_start(exponent);
    assert(text =~= written(whole, scale > 0, behind, letter, symbol));
    lemma_written_shape(whole, scale > 0, behind, letter, symbol);
    let shape = token_shape(text);
    assert(shape.whole.len() > 0);
    assert(behind =~= digits_text(back));
    if cut == 0 {
        assert(back =~= digits);
        assert(digit_values(whole + behind) =~= seq![0u8] + digits);
        lemma_leading_zero(digits);
    } else {
        assert(digit_values(whole + behind) =~= front + back);
        assert(front + back =~= digits);
    }
}

} // verus!
