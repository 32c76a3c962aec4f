//! Helpers on text: every cell of a bill of materials is handled as the
//! sequence of its characters.

use vstd::prelude::*;
use vstd::string::*;

verus! {

/// Whether `c` is white space: a tab, a line feed, a vertical tab, a form
/// feed, a carriage return, a space, or one of the other characters with the
/// Unicode property `White_Space`.
pub open spec fn white_space(c: char) -> bool {
    let u = c as u32;
    (0x09 <= u && u <= 0x0D) || u == 0x20 || u == 0x85 || u == 0xA0 || u == 0x1680 || (0x2000 <= u
        && u <= 0x200A) || u == 0x2028 || u == 0x2029 || u == 0x202F || u == 0x205F || u
        == 0x3000
}

/// Whether `c` is white space.
pub fn is_whitespace(c: char) -> (r: bool)
    ensures
        r == white_space(c),
{
    let u: u32 = c as u32;
    (0x09 <= u && u <= 0x0D) || u == 0x20 || u == 0x85 || u == 0xA0 || u == 0x1680 || (0x2000 <= u
        && u <= 0x200A) || u == 0x2028 || u == 0x2029 || u == 0x202F || u == 0x205F || u
        == 0x3000
}

/// The small letter of a capital from `A` to `Z`; any other character is left
/// as it is.
pub open spec fn small(c: char) -> char {
    if 'A' <= c && c <= 'Z' {
        ((c as u8) + 32) as char
    } else {
        c
    }
}

/// The text `s` with a small letter in place of each capital from `A` to `Z`.
pub open spec fn folded(s: Seq<char>) -> Seq<char> {
    Seq::new(s.len(), |i: int| small(s[i]))
}

/// The small letter of a capital from `A` to `Z`; any other character is left
/// as it is.
pub fn to_small(c: char) -> (r: char)
    ensures
        r == small(c),
{
    if 'A' <= c && c <= 'Z' {
        ((c as u8) + 32) as char
    } else {
        c
    }
}

/// The characters of `s`, with a small letter in place of each capital from
/// `A` to `Z`.
pub fn fold(s: &str) -> (r: Vec<char>)
    ensures
        r@ == folded(s@),
{
    let cs = chars_of(s);
    let mut out: Vec<char> = Vec::new();
    let mut i: usize = 0;
    while i < cs.len()
        invariant
            cs@ == s@,
            i <= cs.len(),
            out@.len() == i,
            forall|j: int| 0 <= j < i ==> #[trigger] out@[j] == small(cs@[j]),
        decreases cs.len() - i,
    {
        out.push(to_small(cs[i]));
        i += 1;
    }
    assert(out@ =~= folded(s@));
    out
}

/// Whether the characters `cs` spell the text `word`.
pub fn spells(cs: &Vec<char>, word: &str) -> (r: bool)
    ensures
        r == (cs@ == word@),
{
    let ws = chars_of(word);
    if cs.len() != ws.len() {
        return false;
    }
    let mut i: usize = 0;
    while i < cs.len()
        invariant
            ws@ == word@,
            cs@.len() == ws@.len(),
            i <= cs.len(),
            forall|j: int| 0 <= j < i ==> cs@[j] == ws@[j],
        decreases cs.len() - i,
    {
        if cs[i] != ws[i] {
            return false;
        }
        i += 1;
    }
    assert(cs@ =~= ws@);
    true
}

/// What `str::to_uppercase` returns for the text `s`.
pub uninterp spec fn uppercase_of(s: Seq<char>) -> Seq<char>;

/// Calls `str::to_uppercase`. Trusted: the result depends on the characters of
/// `s` alone; `uppercase_of` names it.
#[verifier::external_body]
pub(crate) fn uppercase(s: &str) -> (r: String)
    ensures
        r@ == uppercase_of(s@),
{
    s.to_uppercase()
}

/// The characters of `s`, in order.
pub fn chars_of(s: &str) -> (r: Vec<char>)
    ensures
        r@ == s@,
{
    let mut v: Vec<char> = Vec::new();
    for c in it: s.chars()
        invariant
            it.seq() == s@,
            0 <= it.index() <= it.seq().len(),
            v@ == it.seq().subrange(0, it.index()),
    {
        v.push(c);
    }
    assert(v@ == s@);
    v
}

/// Whether two texts hold the same characters.
pub fn str_eq(a: &str, b: &str) -> (r: bool)
    ensures
        r == (a@ == b@),
{
    let x = chars_of(a);
    spells(&x, b)
}

/// `s` without its leading white space.
pub open spec fn trim_start(s: Seq<char>) -> Seq<char>
    decreases s.len(),
{
    if s.len() > 0 && white_space(s[0]) {
        trim_start(s.drop_first())
    } else {
        s
    }
}

/// `s` without its trailing white space.
pub open spec fn trim_end(s: Seq<char>) -> Seq<char>
    decreases s.len(),
{
    if s.len() > 0 && white_space(s.last()) {
        trim_end(s.drop_last())
    } else {
        s
    }
}

/// `s` without the white space at either end.
pub open spec fn trimmed(s: Seq<char>) -> Seq<char> {
    trim_end(trim_start(s))
}

/// Finds what is left of the characters of `cs` from `from` up to `to` once
/// the white space at both ends is removed: the result bounds it.
fn trim_range(cs: &Vec<char>, from: usize, to: usize) -> (r: (usize, usize))
    requires
        from <= to <= cs@.len(),
    ensures
        from <= r.0 <= r.1 <= to,
        cs@.subrange(r.0 as int, r.1 as int) == trimmed(cs@.subrange(from as int, to as int)),
{
    let ghost whole = cs@.subrange(from as int, to as int);
    let mut i: usize = from;
    while i < to && is_whitespace(cs[i])
        invariant
            from <= i <= to <= cs@.len(),
            trim_start(whole) == trim_start(cs@.subrange(i as int, to as int)),
        decreases to - i,
    {
        assert(cs@.subrange(i as int, to as int).drop_first() == cs@.subrange(i + 1, to as int));
        i += 1;
    }
    assert(trim_start(whole) == cs@.subrange(i as int, to as int));
    let mut j: usize = to;
    while j > i && is_whitespace(cs[j - 1])
        invariant
            from <= i <= j <= to <= cs@.len(),
            trimmed(whole) == trim_end(cs@.subrange(i as int, j as int)),
        decreases j,
    {
        assert(cs@.subrange(i as int, j as int).drop_last() == cs@.subrange(i as int, j - 1));
        j -= 1;
    }
    assert(trimmed(whole) == cs@.subrange(i as int, j as int));
    (i, j)
}

/// Removes the white space at both ends of `s`, as `str::trim` does.
pub fn trim(s: &str) -> (r: String)
    ensures
        r@ == trimmed(s@),
{
    let cs = chars_of(s);
    assert(cs@.subrange(0, cs@.len() as int) == cs@);
    let (i, j) = trim_range(&cs, 0, cs.len());
    s.substring_char(i, j).to_owned()
}

/// Finds the first comma of `cs`: the result is its position, or the length of
/// `cs` where it holds none.
pub fn find_comma(cs: &Vec<char>) -> (r: usize)
    ensures
        r == first_comma(cs@),
        r <= cs@.len(),
{
    let mut i: usize = 0;
    while i < cs.len() && cs[i] != ','
        invariant
            i <= cs@.len(),
            forall|j: int| 0 <= j < i ==> cs@[j] != ',',
        decreases cs@.len() - i,
    {
        i += 1;
    }
    proof {
        lemma_first_comma(cs@, i as int);
    }
    i
}

/// Position of the first comma of `s`, or the length of `s` where it holds
/// none.
pub open spec fn first_comma(s: Seq<char>) -> int
    decreases s.len(),
{
    if s.len() == 0 || s[0] == ',' {
        0
    } else {
        1 + first_comma(s.drop_first())
    }
}

/// The text of `s` before its first comma: all of `s` where it holds none.
pub open spec fn first_token(s: Seq<char>) -> Seq<char> {
    s.subrange(0, first_comma(s))
}

/// The pieces of `s` between its commas, in order. A text without a comma is
/// its own single piece, and a comma at either end bounds an empty piece.
pub open spec fn comma_split(s: Seq<char>) -> Seq<Seq<char>>
    decreases s.len(),
{
    let i = first_comma(s);
    if 0 <= i < s.len() {
        seq![s.subrange(0, i)] + comma_split(s.subrange(i + 1, s.len() as int))
    } else {
        seq![s]
    }
}

/// `first_comma(s)` is the one position `k` that no comma precedes and that
/// holds a comma or ends the text.
pub proof fn lemma_first_comma(s: Seq<char>, k: int)
    requires
        0 <= k <= s.len(),
        forall|j: int| 0 <= j < k ==> s[j] != ',',
        k == s.len() || s[k] == ',',
    ensures
        first_comma(s) == k,
    decreases s.len(),
{
    if k > 0 {
        let t = s.drop_first();
        assert forall|j: int| 0 <= j < k - 1 implies t[j] != ',' by {
            assert(t[j] == s[j + 1]);
        }
        lemma_first_comma(t, k - 1);
    }
}

/// Splits `s` at each comma, as `str::split` does with the pattern `','`.
pub fn split_commas(s: &str) -> (r: Vec<String>)
    ensures
        r.deep_view() == comma_split(s@),
        r.len() >= 1,
{
    let cs = chars_of(s);
    let n: usize = cs.len();
    let mut pieces: Vec<String> = Vec::new();
    let mut start: usize = 0;
    let mut i: usize = 0;
    assert(cs@.subrange(0, n as int) == cs@);
    while i < n
        invariant
            cs@ == s@,
            n == cs@.len(),
            start <= i <= n,
            forall|j: int| start <= j < i ==> cs@[j] != ',',
            comma_split(cs@) == pieces.deep_view() + comma_split(
                cs@.subrange(start as int, n as int),
            ),
        decreases n - i,
    {
        if cs[i] == ',' {
            let piece = s.substring_char(start, i).to_owned();
            proof {
                let rest = cs@.subrange(start as int, n as int);
                lemma_first_comma(rest, i - start);
                assert(rest.subrange(0, i - start) == cs@.subrange(start as int, i as int));
                assert(rest.subrange(i - start + 1, rest.len() as int) == cs@.subrange(
                    i + 1,
                    n as int,
                ));
                assert(pieces.deep_view().push(piece@) + comma_split(cs@.subrange(i + 1, n as int))
                    == pieces.deep_view() + comma_split(rest));
            }
            let ghost before = pieces.deep_view();
            pieces.push(piece);
            assert(pieces.deep_view() == before.push(piece@));
            start = i + 1;
        }
        i += 1;
    }
    let piece = s.substring_char(start, n).to_owned();
    proof {
        let rest = cs@.subrange(start as int, n as int);
        lemma_first_comma(rest, n - start);
        assert(comma_split(rest) == seq![rest]);
        assert(pieces.deep_view().push(piece@) == pieces.deep_view() + comma_split(rest));
    }
    let ghost before = pieces.deep_view();
    pieces.push(piece);
    assert(pieces.deep_view() == before.push(piece@));
    pieces
}

} // verus!
