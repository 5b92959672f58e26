//! The carrier syntax of the document format: a value tree, and a parser
//! from character sequences to value trees.
//!
//! The parser's meaning is given by the `spec_parse_*` functions, which
//! define the accepted grammar and the produced tree character by character;
//! every executable function returns exactly what its specification
//! function says, errors and their offsets included.  Numbers carry both an
//! exact unsigned integer reading (when the literal is a plain integer that
//! fits) and a floating-point bit pattern rounded from the first ten
//! significant digits of the literal.

use vstd::prelude::*;
use crate::fbits::{decimal_bits, decimal_to_bits};

verus! {

/// What went wrong while reading a document.
#[derive(Debug, Clone, Copy, PartialEq, Eq, Structural)]
pub enum ErrorKind {
    /// The input ended inside a value.
    UnexpectedEnd,
    /// A character that cannot start or continue the construct at hand.
    UnexpectedCharacter,
    /// A backslash escape that names no escapable character.
    BadEscape,
    /// A control character inside a string literal.
    BadStringCharacter,
    /// A malformed numeric literal.
    BadNumber,
    /// Nesting deeper than the input's own length can justify.
    TooDeep,
    /// Leftover characters after the top-level value.
    TrailingCharacters,
    /// The input bytes are not well-formed UTF-8.
    InvalidUtf8,
    /// A required field is absent from an object.
    MissingField,
    /// A value of the wrong shape for its field.
    WrongType,
    /// An integer outside its enumeration's table.
    BadEnumValue,
    /// A fixed-width tuple of the wrong length.
    WrongLength,
}

/// A numeric literal: its exact integer reading, when the literal is a plain
/// unsigned integer that fits, and its floating-point bit pattern.
#[derive(Debug, Clone, Copy, PartialEq, Eq, Structural)]
pub struct JNum {
    pub int_val: Option<u64>,
    pub bits: u32,
}

/// One parsed value and the offset of its first character.
#[derive(Debug, PartialEq, Eq)]
pub struct JVal {
    pub pos: usize,
    pub kind: JKind,
}

/// The six value shapes.
#[derive(Debug, PartialEq, Eq)]
pub enum JKind {
    Null,
    Bool(bool),
    Num(JNum),
    Text(String),
    Arr(Vec<JVal>),
    Obj(Vec<JMember>),
}

/// One key-value pair of an object, in source order; duplicate keys are all
/// kept, and lookups take the last.
#[derive(Debug, PartialEq, Eq)]
pub struct JMember {
    pub key: String,
    pub val: JVal,
}

/// The mathematical form of a parsed value.
pub struct GVal {
    pub pos: int,
    pub kind: GKind,
}

/// The mathematical form of the six value shapes.
pub enum GKind {
    Null,
    Bool(bool),
    Num { int_val: Option<u64>, bits: u32 },
    Text(Seq<char>),
    Arr(Seq<GVal>),
    Obj(Seq<(Seq<char>, GVal)>),
}

/// The mathematical form of an object's member list.
pub open spec fn members_view(ms: Seq<JMember>) -> Seq<(Seq<char>, GVal)>
    decreases ms,
{
    Seq::new(
        ms.len(),
        |i: int|
            if 0 <= i < ms.len() {
                (ms[i].key@, ms[i].val@)
            } else {
                (Seq::empty(), GVal { pos: 0, kind: GKind::Null })
            },
    )
}

/// The mathematical form of an array's element list.
pub open spec fn elems_view(vs: Seq<JVal>) -> Seq<GVal>
    decreases vs,
{
    Seq::new(
        vs.len(),
        |i: int|
            if 0 <= i < vs.len() {
                vs[i]@
            } else {
                GVal { pos: 0, kind: GKind::Null }
            },
    )
}

impl View for JVal {
    type V = GVal;

    open spec fn view(&self) -> GVal
        decreases self,
    {
        GVal {
            pos: self.pos as int,
            kind: match self.kind {
                JKind::Null => GKind::Null,
                JKind::Bool(b) => GKind::Bool(b),
                JKind::Num(n) => GKind::Num { int_val: n.int_val, bits: n.bits },
                JKind::Text(t) => GKind::Text(t@),
                JKind::Arr(vs) => GKind::Arr(elems_view(vs@)),
                JKind::Obj(ms) => GKind::Obj(members_view(ms@)),
            },
        }
    }
}

/// Relies on `str::chars`: the characters of a string, in order.
#[verifier::external_body]
pub(crate) fn chars_of_str(s: &str) -> (r: Vec<char>)
    ensures
        r@ == s@,
{
    s.chars().collect()
}

/// Relies on `String::from_iter` over characters: the string with exactly
/// the given characters.
#[verifier::external_body]
fn chars_to_string(v: &Vec<char>) -> (r: String)
    ensures
        r@ == v@,
{
    v.iter().collect()
}

/// Relies on `char::from_u32`: a code below the surrogate range or between
/// it and the last scalar yields the character with that code; any other
/// code yields nothing.
#[verifier::external_body]
fn char_from_u32(code: u32) -> (r: Option<char>)
    ensures
        r matches Some(c) ==> c == code as char && c as u32 == code,
        r is Some <==> (code < 0xD800 || (0xE000 <= code && code <= 0x10FFFF)),
{
    char::from_u32(code)
}

/// The format's whitespace: space, tab, line feed, carriage return.
pub open spec fn is_ws(c: char) -> bool {
    c == ' ' || c == '\t' || c == '\n' || c == '\r'
}

fn is_ws_e(c: char) -> (r: bool)
    ensures
        r == is_ws(c),
{
    c == ' ' || c == '\t' || c == '\n' || c == '\r'
}

/// A decimal digit.
pub open spec fn is_digit(c: char) -> bool {
    48 <= c as u32 <= 57
}

fn is_digit_e(c: char) -> (r: bool)
    ensures
        r == is_digit(c),
{
    let u = c as u32;
    48 <= u && u <= 57
}

/// The first offset at or after `i` holding no whitespace.
pub open spec fn spec_ws_end(s: Seq<char>, i: int) -> int
    decreases s.len() - i,
        when 0 <= i <= s.len()
{
    if i < s.len() && is_ws(s[i]) {
        spec_ws_end(s, i + 1)
    } else {
        i
    }
}

fn skip_ws(s: &Vec<char>, i: usize) -> (r: usize)
    requires
        i <= s@.len(),
    ensures
        r as int == spec_ws_end(s@, i as int),
        i <= r <= s@.len(),
{
    let mut j = i;
    while j < s.len() && is_ws_e(s[j])
        invariant
            i <= j <= s@.len(),
            spec_ws_end(s@, i as int) == spec_ws_end(s@, j as int),
        decreases s@.len() - j,
    {
        j = j + 1;
    }
    j
}

/// The first offset at or after `i` holding no decimal digit.
pub open spec fn spec_digits_end(s: Seq<char>, i: int) -> int
    decreases s.len() - i,
        when 0 <= i <= s.len()
{
    if i < s.len() && is_digit(s[i]) {
        spec_digits_end(s, i + 1)
    } else {
        i
    }
}

fn scan_digits(s: &Vec<char>, i: usize) -> (r: usize)
    requires
        i <= s@.len(),
    ensures
        r as int == spec_digits_end(s@, i as int),
        i <= r <= s@.len(),
{
    let mut j = i;
    while j < s.len() && is_digit_e(s[j])
        invariant
            i <= j <= s@.len(),
            spec_digits_end(s@, i as int) == spec_digits_end(s@, j as int),
        decreases s@.len() - j,
    {
        j = j + 1;
    }
    j
}

/// The numeric value of a hexadecimal digit, if the character is one.
pub open spec fn spec_hex_val(c: char) -> Option<u32> {
    let u = c as u32;
    if 48 <= u <= 57 {
        Some((u - 48) as u32)
    } else if 97 <= u <= 102 {
        Some((u - 87) as u32)
    } else if 65 <= u <= 70 {
        Some((u - 55) as u32)
    } else {
        None
    }
}

fn hex_val(c: char) -> (r: Option<u32>)
    ensures
        r == spec_hex_val(c),
{
    let u = c as u32;
    if 48 <= u && u <= 57 {
        Some(u - 48)
    } else if 97 <= u && u <= 102 {
        Some(u - 87)
    } else if 65 <= u && u <= 70 {
        Some(u - 55)
    } else {
        None
    }
}

/// The value of the digit run `s[i..end)`, read left to right.
pub open spec fn spec_digits_val(s: Seq<char>, i: int, end: int) -> int
    decreases end - i,
        when i <= end
{
    if i >= end {
        0
    } else {
        spec_digits_val(s, i, end - 1) * 10 + (if is_digit(s[end - 1]) {
            s[end - 1] as u32 - 48
        } else {
            0
        })
    }
}

/// The exact unsigned integer a digit run denotes, if it fits the machine.
pub open spec fn spec_digits_u64(s: Seq<char>, i: int, end: int) -> Option<u64> {
    if spec_digits_val(s, i, end) <= u64::MAX {
        Some(spec_digits_val(s, i, end) as u64)
    } else {
        None
    }
}

/// Folds significant digits into a capped mantissa: a digit joins while the
/// mantissa is below a billion; each later digit instead counts one more
/// power of ten.  Returns the mantissa and that count.
pub open spec fn spec_acc_sig(s: Seq<char>, i: int, end: int, d: int) -> (int, int)
    decreases end - i,
        when i <= end
{
    if i >= end {
        (d, 0)
    } else {
        let dv = if is_digit(s[i]) {
            s[i] as u32 - 48
        } else {
            0
        };
        if d < 1_000_000_000 {
            spec_acc_sig(s, i + 1, end, d * 10 + dv)
        } else {
            let (dd, t) = spec_acc_sig(s, i + 1, end, d);
            (dd, if t >= 100_000 {
                t
            } else {
                t + 1
            })
        }
    }
}

/// Folds fractional digits into the capped mantissa: a digit that joins
/// counts one less power of ten; digits beyond the cap are dropped.
pub open spec fn spec_acc_frac(s: Seq<char>, i: int, end: int, d: int) -> (int, int)
    decreases end - i,
        when i <= end
{
    if i >= end {
        (d, 0)
    } else {
        let dv = if is_digit(s[i]) {
            s[i] as u32 - 48
        } else {
            0
        };
        if d < 1_000_000_000 {
            let (dd, t) = spec_acc_frac(s, i + 1, end, d * 10 + dv);
            (dd, if t <= -100_000 {
                t
            } else {
                t - 1
            })
        } else {
            spec_acc_frac(s, i + 1, end, d)
        }
    }
}

/// Folds exponent digits, capped so that further digits no longer matter.
pub open spec fn spec_acc_exp(s: Seq<char>, i: int, end: int, e: int) -> int
    decreases end - i,
        when i <= end
{
    if i >= end {
        e
    } else {
        let dv = if is_digit(s[i]) {
            s[i] as u32 - 48
        } else {
            0
        };
        if e < 100_000 {
            spec_acc_exp(s, i + 1, end, e * 10 + dv)
        } else {
            spec_acc_exp(s, i + 1, end, e)
        }
    }
}

/// Keeps a decimal exponent within the range the converter accepts; values
/// past it already denote zero or infinity.
pub open spec fn spec_clamp_e10(e: int) -> int {
    if e > 1000 {
        1000
    } else if e < -1000 {
        -1000
    } else {
        e
    }
}

/// The mantissa bound the significant-digit fold maintains.
pub proof fn lemma_acc_sig_bound(s: Seq<char>, i: int, end: int, d: int)
    requires
        i <= end,
        0 <= d < 10_000_000_000,
    ensures
        0 <= spec_acc_sig(s, i, end, d).0 < 10_000_000_000,
        0 <= spec_acc_sig(s, i, end, d).1 <= 100_000,
    decreases end - i,
{
    if i < end {
        let dv: int = if is_digit(s[i]) {
            s[i] as u32 - 48
        } else {
            0
        };
        if d < 1_000_000_000 {
            lemma_acc_sig_bound(s, i + 1, end, d * 10 + dv);
        } else {
            lemma_acc_sig_bound(s, i + 1, end, d);
        }
    }
}

/// The same bound for the fractional fold.
pub proof fn lemma_acc_frac_bound(s: Seq<char>, i: int, end: int, d: int)
    requires
        i <= end,
        0 <= d < 10_000_000_000,
    ensures
        0 <= spec_acc_frac(s, i, end, d).0 < 10_000_000_000,
        -100_000 <= spec_acc_frac(s, i, end, d).1 <= 0,
    decreases end - i,
{
    if i < end {
        let dv: int = if is_digit(s[i]) {
            s[i] as u32 - 48
        } else {
            0
        };
        if d < 1_000_000_000 {
            lemma_acc_frac_bound(s, i + 1, end, d * 10 + dv);
        } else {
            lemma_acc_frac_bound(s, i + 1, end, d);
        }
    }
}

/// The exponent bound the exponent fold maintains.
pub proof fn lemma_acc_exp_bound(s: Seq<char>, i: int, end: int, e: int)
    requires
        i <= end,
        0 <= e < 1_000_000,
    ensures
        0 <= spec_acc_exp(s, i, end, e) < 1_000_000,
    decreases end - i,
{
    if i < end {
        let dv: int = if is_digit(s[i]) {
            s[i] as u32 - 48
        } else {
            0
        };
        if e < 100_000 {
            lemma_acc_exp_bound(s, i + 1, end, e * 10 + dv);
        } else {
            lemma_acc_exp_bound(s, i + 1, end, e);
        }
    }
}

/// Pushing a member extends the mathematical member list pointwise.
pub proof fn lemma_members_view_push(ms: Seq<JMember>, m: JMember)
    ensures
        members_view(ms.push(m)) == members_view(ms).push((m.key@, m.val@)),
{
    assert(members_view(ms.push(m)) =~= members_view(ms).push((m.key@, m.val@)));
}

/// Pushing an element extends the mathematical element list pointwise.
pub proof fn lemma_elems_view_push(vs: Seq<JVal>, v: JVal)
    ensures
        elems_view(vs.push(v)) == elems_view(vs).push(v@),
{
    assert(elems_view(vs.push(v)) =~= elems_view(vs).push(v@));
}

/// Four hexadecimal digits starting at offset `i`, as one value.
pub open spec fn spec_hex4(s: Seq<char>, i: int) -> Option<u32>
    recommends
        0 <= i,
        i + 4 <= s.len(),
{
    match (spec_hex_val(s[i]), spec_hex_val(s[i + 1]), spec_hex_val(s[i + 2]), spec_hex_val(
        s[i + 3],
    )) {
        (Some(a), Some(b), Some(c), Some(d)) => Some((a * 0x1000 + b * 0x100 + c * 0x10 + d) as u32),
        _ => None,
    }
}

fn hex4(s: &Vec<char>, i: usize) -> (r: Option<u32>)
    requires
        i + 4 <= s@.len(),
    ensures
        r == spec_hex4(s@, i as int),
{
    let n = s.len();
    let a = hex_val(s[i]);
    let b = hex_val(s[i + 1]);
    let c = hex_val(s[i + 2]);
    let d = hex_val(s[i + 3]);
    match (a, b, c, d) {
        (Some(a), Some(b), Some(c), Some(d)) => Some(a * 0x1000 + b * 0x100 + c * 0x10 + d),
        _ => None,
    }
}

/// Scans a string literal's characters after its opening quote, resolving
/// escapes (including surrogate pairs), until the closing quote; returns the
/// decoded characters and the offset just past the quote.
pub open spec fn spec_parse_string(s: Seq<char>, i: int, acc: Seq<char>) -> Result<
    (Seq<char>, int),
    (ErrorKind, int),
>
    decreases s.len() - i,
        when 0 <= i <= s.len()
{
    if i >= s.len() {
        Err((ErrorKind::UnexpectedEnd, i))
    } else {
        let c = s[i];
        if c == '"' {
            Ok((acc, i + 1))
        } else if c == '\\' {
            if i + 1 >= s.len() {
                Err((ErrorKind::UnexpectedEnd, i + 1))
            } else {
                let e = s[i + 1];
                if e == '"' {
                    spec_parse_string(s, i + 2, acc.push('"'))
                } else if e == '\\' {
                    spec_parse_string(s, i + 2, acc.push('\\'))
                } else if e == '/' {
                    spec_parse_string(s, i + 2, acc.push('/'))
                } else if e == 'b' {
                    spec_parse_string(s, i + 2, acc.push(8u32 as char))
                } else if e == 'f' {
                    spec_parse_string(s, i + 2, acc.push(12u32 as char))
                } else if e == 'n' {
                    spec_parse_string(s, i + 2, acc.push('\n'))
                } else if e == 'r' {
                    spec_parse_string(s, i + 2, acc.push('\r'))
                } else if e == 't' {
                    spec_parse_string(s, i + 2, acc.push('\t'))
                } else if e == 'u' {
                    if i + 6 > s.len() {
                        Err((ErrorKind::UnexpectedEnd, s.len() as int))
                    } else {
                        match spec_hex4(s, i + 2) {
                            None => Err((ErrorKind::BadEscape, i + 2)),
                            Some(code) => if 0xD800 <= code < 0xDC00 {
                                if i + 12 > s.len() {
                                    Err((ErrorKind::UnexpectedEnd, s.len() as int))
                                } else if s[i + 6] != '\\' || s[i + 7] != 'u' {
                                    Err((ErrorKind::BadEscape, i + 6))
                                } else {
                                    match spec_hex4(s, i + 8) {
                                        None => Err((ErrorKind::BadEscape, i + 8)),
                                        Some(lo) => if 0xDC00 <= lo < 0xE000 {
                                            spec_parse_string(
                                                s,
                                                i + 12,
                                                acc.push(
                                                    ((0x10000 + (code - 0xD800) * 0x400 + (lo
                                                        - 0xDC00)) as u32) as char,
                                                ),
                                            )
                                        } else {
                                            Err((ErrorKind::BadEscape, i + 8))
                                        },
                                    }
                                }
                            } else if 0xDC00 <= code < 0xE000 {
                                Err((ErrorKind::BadEscape, i + 2))
                            } else {
                                spec_parse_string(s, i + 6, acc.push(code as char))
                            },
                        }
                    }
                } else {
                    Err((ErrorKind::BadEscape, i + 1))
                }
            }
        } else if (c as u32) < 0x20 {
            Err((ErrorKind::BadStringCharacter, i))
        } else {
            spec_parse_string(s, i + 1, acc.push(c))
        }
    }
}

/// Executable form of [`spec_parse_string`].
fn parse_string_rest(s: &Vec<char>, i: usize, acc: Vec<char>) -> (r: Result<
    (Vec<char>, usize),
    (ErrorKind, usize),
>)
    requires
        i <= s@.len(),
    ensures
        ({
            let sp = spec_parse_string(s@, i as int, acc@);
            match r {
                Ok(p) => sp == Ok::<(Seq<char>, int), (ErrorKind, int)>((p.0@, p.1 as int)) && p.1
                    <= s@.len(),
                Err(e) => sp == Err::<(Seq<char>, int), (ErrorKind, int)>((e.0, e.1 as int)),
            }
        }),
    decreases s@.len() - i,
{
    let mut acc = acc;
    if i >= s.len() {
        return Err((ErrorKind::UnexpectedEnd, i));
    }
    let c = s[i];
    if c == '"' {
        Ok((acc, i + 1))
    } else if c == '\\' {
        if s.len() - i < 2 {
            return Err((ErrorKind::UnexpectedEnd, i + 1));
        }
        let e = s[i + 1];
        if e == '"' {
            acc.push('"');
            parse_string_rest(s, i + 2, acc)
        } else if e == '\\' {
            acc.push('\\');
            parse_string_rest(s, i + 2, acc)
        } else if e == '/' {
            acc.push('/');
            parse_string_rest(s, i + 2, acc)
        } else if e == 'b' {
            let bc = char_from_u32(8).unwrap();
            acc.push(bc);
            parse_string_rest(s, i + 2, acc)
        } else if e == 'f' {
            let fc = char_from_u32(12).unwrap();
            acc.push(fc);
            parse_string_rest(s, i + 2, acc)
        } else if e == 'n' {
            acc.push('\n');
            parse_string_rest(s, i + 2, acc)
        } else if e == 'r' {
            acc.push('\r');
            parse_string_rest(s, i + 2, acc)
        } else if e == 't' {
            acc.push('\t');
            parse_string_rest(s, i + 2, acc)
        } else if e == 'u' {
            if s.len() - i < 6 {
                return Err((ErrorKind::UnexpectedEnd, s.len()));
            }
            match hex4(s, i + 2) {
                None => Err((ErrorKind::BadEscape, i + 2)),
                Some(code) => {
                    if 0xD800 <= code && code < 0xDC00 {
                        if s.len() - i < 12 {
                            return Err((ErrorKind::UnexpectedEnd, s.len()));
                        }
                        if s[i + 6] != '\\' || s[i + 7] != 'u' {
                            return Err((ErrorKind::BadEscape, i + 6));
                        }
                        match hex4(s, i + 8) {
                            None => Err((ErrorKind::BadEscape, i + 8)),
                            Some(lo) => {
                                if 0xDC00 <= lo && lo < 0xE000 {
                                    let combined = 0x10000 + (code - 0xD800) * 0x400 + (lo
                                        - 0xDC00);
                                    let cc = char_from_u32(combined).unwrap();
                                    acc.push(cc);
                                    parse_string_rest(s, i + 12, acc)
                                } else {
                                    Err((ErrorKind::BadEscape, i + 8))
                                }
                            },
                        }
                    } else if 0xDC00 <= code && code < 0xE000 {
                        Err((ErrorKind::BadEscape, i + 2))
                    } else {
                        let cc = char_from_u32(code).unwrap();
                        acc.push(cc);
                        parse_string_rest(s, i + 6, acc)
                    }
                },
            }
        } else {
            Err((ErrorKind::BadEscape, i + 1))
        }
    } else if (c as u32) < 0x20 {
        Err((ErrorKind::BadStringCharacter, i))
    } else {
        acc.push(c);
        parse_string_rest(s, i + 1, acc)
    }
}

/// The numeric value a validated literal denotes, as the number record.
pub open spec fn spec_number_kind(
    s: Seq<char>,
    i1: int,
    int_end: int,
    frac_start: int,
    frac_end: int,
    exp_start: int,
    exp_end: int,
    neg: bool,
    has_frac: bool,
    has_exp: bool,
    exp_neg: bool,
) -> GKind {
    let (d1, t1) = spec_acc_sig(s, i1, int_end, 0);
    let (d2, t2) = spec_acc_frac(s, frac_start, frac_end, d1);
    let eacc = spec_acc_exp(s, exp_start, exp_end, 0);
    let eval = if exp_neg {
        -eacc
    } else {
        eacc
    };
    let e10 = spec_clamp_e10(eval + t1 + t2);
    let bits = decimal_bits(neg, d2, e10);
    let int_val = if !neg && !has_frac && !has_exp {
        spec_digits_u64(s, i1, int_end)
    } else {
        None
    };
    GKind::Num { int_val, bits }
}

/// Scans one numeric literal: an optional minus, an integer part without a
/// stray leading zero, an optional fraction, an optional exponent.
pub open spec fn spec_parse_number(s: Seq<char>, i: int) -> Result<(GVal, int), (ErrorKind, int)>
    recommends
        0 <= i < s.len(),
{
    let pos = i;
    let neg = s[i] == '-';
    let i1 = if neg {
        i + 1
    } else {
        i
    };
    if i1 >= s.len() || !is_digit(s[i1]) {
        Err((ErrorKind::BadNumber, i1))
    } else {
        let int_end = spec_digits_end(s, i1);
        if s[i1] == '0' && int_end > i1 + 1 {
            Err((ErrorKind::BadNumber, i1))
        } else {
            let has_frac = int_end < s.len() && s[int_end] == '.';
            let frac_start = if has_frac {
                int_end + 1
            } else {
                int_end
            };
            if has_frac && (frac_start >= s.len() || !is_digit(s[frac_start])) {
                Err((ErrorKind::BadNumber, frac_start))
            } else {
                let frac_end = if has_frac {
                    spec_digits_end(s, frac_start)
                } else {
                    frac_start
                };
                let has_exp = frac_end < s.len() && (s[frac_end] == 'e' || s[frac_end] == 'E');
                let sp = frac_end + 1;
                let exp_neg = has_exp && sp < s.len() && s[sp] == '-';
                let exp_plus = has_exp && sp < s.len() && s[sp] == '+';
                let exp_start = if has_exp {
                    if exp_neg || exp_plus {
                        sp + 1
                    } else {
                        sp
                    }
                } else {
                    frac_end
                };
                if has_exp && (exp_start >= s.len() || !is_digit(s[exp_start])) {
                    Err((ErrorKind::BadNumber, exp_start))
                } else {
                    let exp_end = if has_exp {
                        spec_digits_end(s, exp_start)
                    } else {
                        exp_start
                    };
                    Ok(
                        (
                            GVal {
                                pos,
                                kind: spec_number_kind(
                                    s,
                                    i1,
                                    int_end,
                                    frac_start,
                                    frac_end,
                                    exp_start,
                                    exp_end,
                                    neg,
                                    has_frac,
                                    has_exp,
                                    exp_neg,
                                ),
                            },
                            exp_end,
                        ),
                    )
                }
            }
        }
    }
}

/// Once the mantissa has reached its cap, the significant fold keeps it and
/// merely counts the remaining digits, up to its own cap.
pub proof fn lemma_acc_sig_capped(s: Seq<char>, i: int, end: int, d: int)
    requires
        i <= end,
        d >= 1_000_000_000,
    ensures
        spec_acc_sig(s, i, end, d) == (
            d,
            if end - i >= 100_000 {
                100_000int
            } else {
                end - i
            },
        ),
    decreases end - i,
{
    if i < end {
        lemma_acc_sig_capped(s, i + 1, end, d);
    }
}

/// Once the mantissa has reached its cap, the fractional fold drops the
/// remaining digits without counting them.
pub proof fn lemma_acc_frac_capped(s: Seq<char>, i: int, end: int, d: int)
    requires
        i <= end,
        d >= 1_000_000_000,
    ensures
        spec_acc_frac(s, i, end, d) == (d, 0int),
    decreases end - i,
{
    if i < end {
        lemma_acc_frac_capped(s, i + 1, end, d);
    }
}

/// Once the exponent has reached its cap, the exponent fold keeps it.
pub proof fn lemma_acc_exp_capped(s: Seq<char>, i: int, end: int, e: int)
    requires
        i <= end,
        e >= 100_000,
    ensures
        spec_acc_exp(s, i, end, e) == e,
    decreases end - i,
{
    if i < end {
        lemma_acc_exp_capped(s, i + 1, end, e);
    }
}

/// Folds the significant digits of `s[i..end)` executably.
fn acc_sig(s: &Vec<char>, i: usize, end: usize) -> (r: (u64, i64))
    requires
        i <= end <= s@.len(),
    ensures
        (r.0 as int, r.1 as int) == spec_acc_sig(s@, i as int, end as int, 0),
        r.0 < 10_000_000_000,
        0 <= r.1 <= 100_000,
{
    proof {
        lemma_acc_sig_bound(s@, i as int, end as int, 0);
    }
    let mut d: u64 = 0;
    let mut cur = i;
    while cur < end && d < 1_000_000_000
        invariant
            i <= cur <= end <= s@.len(),
            d < 10_000_000_000,
            spec_acc_sig(s@, i as int, end as int, 0) == spec_acc_sig(
                s@,
                cur as int,
                end as int,
                d as int,
            ),
        decreases end - cur,
    {
        let u = s[cur] as u32;
        let dv: u64 = if 48 <= u && u <= 57 {
            (u - 48) as u64
        } else {
            0
        };
        d = d * 10 + dv;
        cur = cur + 1;
    }
    if cur >= end {
        (d, 0)
    } else {
        proof {
            lemma_acc_sig_capped(s@, cur as int, end as int, d as int);
        }
        let dropped = end - cur;
        let t: i64 = if dropped >= 100_000 {
            100_000
        } else {
            dropped as i64
        };
        (d, t)
    }
}

/// Folds the fractional digits of `s[i..end)` executably, starting from the
/// mantissa the integer digits produced.
fn acc_frac(s: &Vec<char>, i: usize, end: usize, d0: u64) -> (r: (u64, i64))
    requires
        i <= end <= s@.len(),
        d0 < 10_000_000_000,
    ensures
        (r.0 as int, r.1 as int) == spec_acc_frac(s@, i as int, end as int, d0 as int),
        r.0 < 10_000_000_000,
        -100_000 <= r.1 <= 0,
{
    proof {
        lemma_acc_frac_bound(s@, i as int, end as int, d0 as int);
    }
    let mut d: u64 = d0;
    let mut cur = i;
    while cur < end && d < 1_000_000_000
        invariant
            i <= cur <= end <= s@.len(),
            d < 10_000_000_000,
            d0 < 10_000_000_000,
            spec_acc_frac(s@, i as int, end as int, d0 as int).0 == spec_acc_frac(
                s@,
                cur as int,
                end as int,
                d as int,
            ).0,
            spec_acc_frac(s@, i as int, end as int, d0 as int).1 == ({
                let rest = spec_acc_frac(s@, cur as int, end as int, d as int).1;
                if rest - (cur - i) <= -100_000 {
                    -100_000int
                } else {
                    rest - (cur - i)
                }
            }),
            -100_000 <= spec_acc_frac(s@, cur as int, end as int, d as int).1 <= 0,
        decreases end - cur,
    {
        let u = s[cur] as u32;
        let dv: u64 = if 48 <= u && u <= 57 {
            (u - 48) as u64
        } else {
            0
        };
        proof {
            lemma_acc_frac_bound(s@, cur as int + 1, end as int, (d * 10 + dv) as int);
        }
        d = d * 10 + dv;
        cur = cur + 1;
    }
    let taken = cur - i;
    if cur >= end {
        let t: i64 = if taken >= 100_000 {
            -100_000
        } else {
            -(taken as i64)
        };
        (d, t)
    } else {
        proof {
            lemma_acc_frac_capped(s@, cur as int, end as int, d as int);
        }
        let t: i64 = if taken >= 100_000 {
            -100_000
        } else {
            -(taken as i64)
        };
        (d, t)
    }
}

/// Folds the exponent digits of `s[i..end)` executably.
fn acc_exp(s: &Vec<char>, i: usize, end: usize) -> (r: i64)
    requires
        i <= end <= s@.len(),
    ensures
        r as int == spec_acc_exp(s@, i as int, end as int, 0),
        0 <= r < 1_000_000,
{
    proof {
        lemma_acc_exp_bound(s@, i as int, end as int, 0);
    }
    let mut e: i64 = 0;
    let mut cur = i;
    while cur < end && e < 100_000
        invariant
            i <= cur <= end <= s@.len(),
            0 <= e < 1_000_000,
            spec_acc_exp(s@, i as int, end as int, 0) == spec_acc_exp(
                s@,
                cur as int,
                end as int,
                e as int,
            ),
        decreases end - cur,
    {
        let u = s[cur] as u32;
        let dv: i64 = if 48 <= u && u <= 57 {
            (u - 48) as i64
        } else {
            0
        };
        e = e * 10 + dv;
        cur = cur + 1;
    }
    if cur >= end {
        e
    } else {
        proof {
            lemma_acc_exp_capped(s@, cur as int, end as int, e as int);
        }
        e
    }
}

/// The value of a digit run is never negative.
pub proof fn lemma_digits_val_nonneg(s: Seq<char>, i: int, end: int)
    requires
        i <= end,
    ensures
        spec_digits_val(s, i, end) >= 0,
    decreases end - i,
{
    if i < end {
        lemma_digits_val_nonneg(s, i, end - 1);
    }
}

/// Computes the exact integer a digit run denotes, executably, detecting
/// when it leaves the machine's range.
fn digits_u64(s: &Vec<char>, i: usize, end: usize) -> (r: Option<u64>)
    requires
        i <= end <= s@.len(),
    ensures
        r == spec_digits_u64(s@, i as int, end as int),
{
    let mut acc: Option<u64> = Some(0);
    let mut cur = i;
    while cur < end
        invariant
            i <= cur <= end <= s@.len(),
            acc == spec_digits_u64(s@, i as int, cur as int),
        decreases end - cur,
    {
        proof {
            lemma_digits_val_nonneg(s@, i as int, cur as int);
        }
        let u = s[cur] as u32;
        let dv: u64 = if 48 <= u && u <= 57 {
            (u - 48) as u64
        } else {
            0
        };
        proof {
            assert(spec_digits_val(s@, i as int, cur as int + 1) == spec_digits_val(
                s@,
                i as int,
                cur as int,
            ) * 10 + dv);
        }
        acc = match acc {
            Some(v) => match v.checked_mul(10) {
                Some(x) => match x.checked_add(dv) {
                    Some(y) => Some(y),
                    None => None,
                },
                None => {
                    proof {
                        assert(spec_digits_val(s@, i as int, cur as int) * 10 + dv > u64::MAX);
                    }
                    None
                },
            },
            None => {
                proof {
                    assert(spec_digits_val(s@, i as int, cur as int) * 10 + dv > u64::MAX)
                        by (nonlinear_arith)
                        requires
                            spec_digits_val(s@, i as int, cur as int) > u64::MAX,
                            0 <= dv,
                    ;
                }
                None
            },
        };
        cur = cur + 1;
    }
    acc
}

/// Executable form of [`spec_parse_number`].
fn parse_number(s: &Vec<char>, i: usize) -> (r: Result<(JVal, usize), (ErrorKind, usize)>)
    requires
        i < s@.len(),
    ensures
        ({
            let sp = spec_parse_number(s@, i as int);
            match r {
                Ok(p) => sp == Ok::<(GVal, int), (ErrorKind, int)>((p.0@, p.1 as int)) && i <= p.1
                    <= s@.len(),
                Err(e) => sp == Err::<(GVal, int), (ErrorKind, int)>((e.0, e.1 as int)),
            }
        }),
{
    let n = s.len();
    let pos = i;
    let neg = s[i] == '-';
    let i1 = if neg {
        i + 1
    } else {
        i
    };
    if i1 >= s.len() || !is_digit_e(s[i1]) {
        return Err((ErrorKind::BadNumber, i1));
    }
    let int_end = scan_digits(s, i1);
    if s[i1] == '0' && int_end > i1 + 1 {
        return Err((ErrorKind::BadNumber, i1));
    }
    let has_frac = int_end < s.len() && s[int_end] == '.';
    let frac_start = if has_frac {
        int_end + 1
    } else {
        int_end
    };
    if has_frac && (frac_start >= s.len() || !is_digit_e(s[frac_start])) {
        return Err((ErrorKind::BadNumber, frac_start));
    }
    let frac_end = if has_frac {
        scan_digits(s, frac_start)
    } else {
        frac_start
    };
    let has_exp = frac_end < s.len() && (s[frac_end] == 'e' || s[frac_end] == 'E');
    let (exp_neg, exp_start) = if has_exp {
        let sp = frac_end + 1;
        if sp < s.len() && s[sp] == '-' {
            (true, sp + 1)
        } else if sp < s.len() && s[sp] == '+' {
            (false, sp + 1)
        } else {
            (false, sp)
        }
    } else {
        (false, frac_end)
    };
    if has_exp && (exp_start >= s.len() || !is_digit_e(s[exp_start])) {
        return Err((ErrorKind::BadNumber, exp_start));
    }
    let exp_end = if has_exp {
        scan_digits(s, exp_start)
    } else {
        exp_start
    };
    let (d1, t1) = acc_sig(s, i1, int_end);
    let (d2, t2) = acc_frac(s, frac_start, frac_end, d1);
    let eacc = acc_exp(s, exp_start, exp_end);
    let eval: i64 = if exp_neg {
        -eacc
    } else {
        eacc
    };
    let e10raw: i64 = eval + t1 + t2;
    let e10: i64 = if e10raw > 1000 {
        1000
    } else if e10raw < -1000 {
        -1000
    } else {
        e10raw
    };
    let bits = decimal_to_bits(neg, d2, e10);
    let int_val: Option<u64> = if !neg && !has_frac && !has_exp {
        digits_u64(s, i1, int_end)
    } else {
        None
    };
    Ok((JVal { pos, kind: JKind::Num(JNum { int_val, bits }) }, exp_end))
}

/// Scans one value: an object, an array, a string, a literal, or a number,
/// after any leading whitespace.  The fuel bounds the nesting the parser
/// will follow; the entry point supplies the input's own length, which
/// suffices for every input whose nesting is properly closed.
pub open spec fn spec_parse_value(s: Seq<char>, i: int, fuel: nat) -> Result<
    (GVal, int),
    (ErrorKind, int),
>
    decreases fuel,
{
    if fuel == 0 {
        Err((ErrorKind::TooDeep, i))
    } else {
        let j = spec_ws_end(s, i);
        if j >= s.len() {
            Err((ErrorKind::UnexpectedEnd, j))
        } else {
            let c = s[j];
            if c == '{' {
                spec_parse_obj_body(s, j + 1, (fuel - 1) as nat, j, Seq::empty(), true)
            } else if c == '[' {
                spec_parse_arr_body(s, j + 1, (fuel - 1) as nat, j, Seq::empty(), true)
            } else if c == '"' {
                match spec_parse_string(s, j + 1, Seq::empty()) {
                    Ok(p) => Ok((GVal { pos: j, kind: GKind::Text(p.0) }, p.1)),
                    Err(e) => Err(e),
                }
            } else if c == 't' {
                if j + 4 <= s.len() && s[j + 1] == 'r' && s[j + 2] == 'u' && s[j + 3] == 'e' {
                    Ok((GVal { pos: j, kind: GKind::Bool(true) }, j + 4))
                } else {
                    Err((ErrorKind::UnexpectedCharacter, j))
                }
            } else if c == 'f' {
                if j + 5 <= s.len() && s[j + 1] == 'a' && s[j + 2] == 'l' && s[j + 3] == 's' && s[j
                    + 4] == 'e' {
                    Ok((GVal { pos: j, kind: GKind::Bool(false) }, j + 5))
                } else {
                    Err((ErrorKind::UnexpectedCharacter, j))
                }
            } else if c == 'n' {
                if j + 4 <= s.len() && s[j + 1] == 'u' && s[j + 2] == 'l' && s[j + 3] == 'l' {
                    Ok((GVal { pos: j, kind: GKind::Null }, j + 4))
                } else {
                    Err((ErrorKind::UnexpectedCharacter, j))
                }
            } else if c == '-' || is_digit(c) {
                spec_parse_number(s, j)
            } else {
                Err((ErrorKind::UnexpectedCharacter, j))
            }
        }
    }
}

/// Scans an object's members after its opening brace, accumulating them in
/// source order.
pub open spec fn spec_parse_obj_body(
    s: Seq<char>,
    i: int,
    fuel: nat,
    pos: int,
    acc: Seq<(Seq<char>, GVal)>,
    first: bool,
) -> Result<(GVal, int), (ErrorKind, int)>
    decreases fuel,
{
    if fuel == 0 {
        Err((ErrorKind::TooDeep, i))
    } else {
        let j = spec_ws_end(s, i);
        if j >= s.len() {
            Err((ErrorKind::UnexpectedEnd, j))
        } else if first && s[j] == '}' {
            Ok((GVal { pos, kind: GKind::Obj(acc) }, j + 1))
        } else if s[j] != '"' {
            Err((ErrorKind::UnexpectedCharacter, j))
        } else {
            match spec_parse_string(s, j + 1, Seq::empty()) {
                Err(e) => Err(e),
                Ok((key, j2)) => {
                    let j3 = spec_ws_end(s, j2);
                    if j3 >= s.len() {
                        Err((ErrorKind::UnexpectedEnd, j3))
                    } else if s[j3] != ':' {
                        Err((ErrorKind::UnexpectedCharacter, j3))
                    } else {
                        match spec_parse_value(s, j3 + 1, (fuel - 1) as nat) {
                            Err(e) => Err(e),
                            Ok((v, j4)) => {
                                let j5 = spec_ws_end(s, j4);
                                if j5 >= s.len() {
                                    Err((ErrorKind::UnexpectedEnd, j5))
                                } else if s[j5] == ',' {
                                    spec_parse_obj_body(
                                        s,
                                        j5 + 1,
                                        (fuel - 1) as nat,
                                        pos,
                                        acc.push((key, v)),
                                        false,
                                    )
                                } else if s[j5] == '}' {
                                    Ok((GVal { pos, kind: GKind::Obj(acc.push((key, v))) }, j5 + 1))
                                } else {
                                    Err((ErrorKind::UnexpectedCharacter, j5))
                                }
                            },
                        }
                    }
                },
            }
        }
    }
}

/// Scans an array's elements after its opening bracket, accumulating them
/// in source order.
pub open spec fn spec_parse_arr_body(
    s: Seq<char>,
    i: int,
    fuel: nat,
    pos: int,
    acc: Seq<GVal>,
    first: bool,
) -> Result<(GVal, int), (ErrorKind, int)>
    decreases fuel,
{
    if fuel == 0 {
        Err((ErrorKind::TooDeep, i))
    } else {
        let j = spec_ws_end(s, i);
        if j >= s.len() {
            Err((ErrorKind::UnexpectedEnd, j))
        } else if first && s[j] == ']' {
            Ok((GVal { pos, kind: GKind::Arr(acc) }, j + 1))
        } else {
            match spec_parse_value(s, j, (fuel - 1) as nat) {
                Err(e) => Err(e),
                Ok((v, j2)) => {
                    let j3 = spec_ws_end(s, j2);
                    if j3 >= s.len() {
                        Err((ErrorKind::UnexpectedEnd, j3))
                    } else if s[j3] == ',' {
                        spec_parse_arr_body(s, j3 + 1, (fuel - 1) as nat, pos, acc.push(v), false)
                    } else if s[j3] == ']' {
                        Ok((GVal { pos, kind: GKind::Arr(acc.push(v)) }, j3 + 1))
                    } else {
                        Err((ErrorKind::UnexpectedCharacter, j3))
                    }
                },
            }
        }
    }
}

/// One top-level value with nothing but whitespace after it.
pub open spec fn spec_parse_json(s: Seq<char>) -> Result<GVal, (ErrorKind, int)> {
    match spec_parse_value(s, 0, s.len()) {
        Err(e) => Err(e),
        Ok((v, n)) => {
            let j = spec_ws_end(s, n);
            if j < s.len() {
                Err((ErrorKind::TrailingCharacters, j))
            } else {
                Ok(v)
            }
        },
    }
}

/// Executable form of [`spec_parse_value`].
fn parse_value(s: &Vec<char>, i: usize, fuel: usize) -> (r: Result<
    (JVal, usize),
    (ErrorKind, usize),
>)
    requires
        i <= s@.len(),
    ensures
        ({
            let sp = spec_parse_value(s@, i as int, fuel as nat);
            match r {
                Ok(p) => sp == Ok::<(GVal, int), (ErrorKind, int)>((p.0@, p.1 as int)) && p.1
                    <= s@.len(),
                Err(e) => sp == Err::<(GVal, int), (ErrorKind, int)>((e.0, e.1 as int)),
            }
        }),
    decreases fuel,
{
    if fuel == 0 {
        return Err((ErrorKind::TooDeep, i));
    }
    let j = skip_ws(s, i);
    if j >= s.len() {
        return Err((ErrorKind::UnexpectedEnd, j));
    }
    let c = s[j];
    if c == '{' {
        proof {
            assert(members_view(Seq::<JMember>::empty()) =~= Seq::<(Seq<char>, GVal)>::empty());
        }
        parse_obj_body(s, j + 1, fuel - 1, j, Vec::new(), true)
    } else if c == '[' {
        proof {
            assert(elems_view(Seq::<JVal>::empty()) =~= Seq::<GVal>::empty());
        }
        parse_arr_body(s, j + 1, fuel - 1, j, Vec::new(), true)
    } else if c == '"' {
        match parse_string_rest(s, j + 1, Vec::new()) {
            Ok(p) => {
                let t = chars_to_string(&p.0);
                Ok((JVal { pos: j, kind: JKind::Text(t) }, p.1))
            },
            Err(e) => Err(e),
        }
    } else if c == 't' {
        if s.len() - j >= 4 && s[j + 1] == 'r' && s[j + 2] == 'u' && s[j + 3] == 'e' {
            Ok((JVal { pos: j, kind: JKind::Bool(true) }, j + 4))
        } else {
            Err((ErrorKind::UnexpectedCharacter, j))
        }
    } else if c == 'f' {
        if s.len() - j >= 5 && s[j + 1] == 'a' && s[j + 2] == 'l' && s[j + 3] == 's' && s[j + 4]
            == 'e' {
            Ok((JVal { pos: j, kind: JKind::Bool(false) }, j + 5))
        } else {
            Err((ErrorKind::UnexpectedCharacter, j))
        }
    } else if c == 'n' {
        if s.len() - j >= 4 && s[j + 1] == 'u' && s[j + 2] == 'l' && s[j + 3] == 'l' {
            Ok((JVal { pos: j, kind: JKind::Null }, j + 4))
        } else {
            Err((ErrorKind::UnexpectedCharacter, j))
        }
    } else if c == '-' || is_digit_e(c) {
        parse_number(s, j)
    } else {
        Err((ErrorKind::UnexpectedCharacter, j))
    }
}

/// Executable form of [`spec_parse_obj_body`].
fn parse_obj_body(
    s: &Vec<char>,
    i: usize,
    fuel: usize,
    pos: usize,
    acc: Vec<JMember>,
    first: bool,
) -> (r: Result<(JVal, usize), (ErrorKind, usize)>)
    requires
        i <= s@.len(),
    ensures
        ({
            let sp = spec_parse_obj_body(
                s@,
                i as int,
                fuel as nat,
                pos as int,
                members_view(acc@),
                first,
            );
            match r {
                Ok(p) => sp == Ok::<(GVal, int), (ErrorKind, int)>((p.0@, p.1 as int)) && p.1
                    <= s@.len(),
                Err(e) => sp == Err::<(GVal, int), (ErrorKind, int)>((e.0, e.1 as int)),
            }
        }),
    decreases fuel,
{
    let mut acc = acc;
    if fuel == 0 {
        return Err((ErrorKind::TooDeep, i));
    }
    let j = skip_ws(s, i);
    if j >= s.len() {
        return Err((ErrorKind::UnexpectedEnd, j));
    }
    if first && s[j] == '}' {
        return Ok((JVal { pos, kind: JKind::Obj(acc) }, j + 1));
    }
    if s[j] != '"' {
        return Err((ErrorKind::UnexpectedCharacter, j));
    }
    let (key_chars, j2) = match parse_string_rest(s, j + 1, Vec::new()) {
        Ok(p) => p,
        Err(e) => {
            return Err(e);
        },
    };
    let key = chars_to_string(&key_chars);
    let j3 = skip_ws(s, j2);
    if j3 >= s.len() {
        return Err((ErrorKind::UnexpectedEnd, j3));
    }
    if s[j3] != ':' {
        return Err((ErrorKind::UnexpectedCharacter, j3));
    }
    let (v, j4) = match parse_value(s, j3 + 1, fuel - 1) {
        Ok(p) => p,
        Err(e) => {
            return Err(e);
        },
    };
    let j5 = skip_ws(s, j4);
    if j5 >= s.len() {
        return Err((ErrorKind::UnexpectedEnd, j5));
    }
    let ghost old_acc = acc@;
    let ghost key_s = key@;
    let ghost v_g = v@;
    if s[j5] == ',' {
        acc.push(JMember { key, val: v });
        proof {
            lemma_members_view_push(old_acc, JMember { key, val: v });
        }
        parse_obj_body(s, j5 + 1, fuel - 1, pos, acc, false)
    } else if s[j5] == '}' {
        acc.push(JMember { key, val: v });
        proof {
            lemma_members_view_push(old_acc, JMember { key, val: v });
        }
        Ok((JVal { pos, kind: JKind::Obj(acc) }, j5 + 1))
    } else {
        Err((ErrorKind::UnexpectedCharacter, j5))
    }
}

/// Executable form of [`spec_parse_arr_body`].
fn parse_arr_body(
    s: &Vec<char>,
    i: usize,
    fuel: usize,
    pos: usize,
    acc: Vec<JVal>,
    first: bool,
) -> (r: Result<(JVal, usize), (ErrorKind, usize)>)
    requires
        i <= s@.len(),
    ensures
        ({
            let sp = spec_parse_arr_body(
                s@,
                i as int,
                fuel as nat,
                pos as int,
                elems_view(acc@),
                first,
            );
            match r {
                Ok(p) => sp == Ok::<(GVal, int), (ErrorKind, int)>((p.0@, p.1 as int)) && p.1
                    <= s@.len(),
                Err(e) => sp == Err::<(GVal, int), (ErrorKind, int)>((e.0, e.1 as int)),
            }
        }),
    decreases fuel,
{
    let mut acc = acc;
    if fuel == 0 {
        return Err((ErrorKind::TooDeep, i));
    }
    let j = skip_ws(s, i);
    if j >= s.len() {
        return Err((ErrorKind::UnexpectedEnd, j));
    }
    if first && s[j] == ']' {
        return Ok((JVal { pos, kind: JKind::Arr(acc) }, j + 1));
    }
    let (v, j2) = match parse_value(s, j, fuel - 1) {
        Ok(p) => p,
        Err(e) => {
            return Err(e);
        },
    };
    let j3 = skip_ws(s, j2);
    if j3 >= s.len() {
        return Err((ErrorKind::UnexpectedEnd, j3));
    }
    let ghost old_acc = acc@;
    if s[j3] == ',' {
        proof {
            lemma_elems_view_push(old_acc, v);
        }
        acc.push(v);
        parse_arr_body(s, j3 + 1, fuel - 1, pos, acc, false)
    } else if s[j3] == ']' {
        proof {
            lemma_elems_view_push(old_acc, v);
        }
        acc.push(v);
        Ok((JVal { pos, kind: JKind::Arr(acc) }, j3 + 1))
    } else {
        Err((ErrorKind::UnexpectedCharacter, j3))
    }
}

/// Parses one complete document from characters: the executable form of
/// [`spec_parse_json`].
pub fn parse_json_chars(s: &Vec<char>) -> (r: Result<JVal, (ErrorKind, usize)>)
    ensures
        ({
            let sp = spec_parse_json(s@);
            match r {
                Ok(v) => sp == Ok::<GVal, (ErrorKind, int)>(v@),
                Err(e) => sp == Err::<GVal, (ErrorKind, int)>((e.0, e.1 as int)),
            }
        }),
{
    let fuel = s.len();
    match parse_value(s, 0, fuel) {
        Err(e) => Err(e),
        Ok((v, n)) => {
            let j = skip_ws(s, n);
            if j < s.len() {
                Err((ErrorKind::TrailingCharacters, j))
            } else {
                Ok(v)
            }
        },
    }
}

/// Parses one complete document from a string slice.
pub fn parse_json_str(s: &str) -> (r: Result<JVal, (ErrorKind, usize)>)
    ensures
        ({
            let sp = spec_parse_json(s@);
            match r {
                Ok(v) => sp == Ok::<GVal, (ErrorKind, int)>(v@),
                Err(e) => sp == Err::<GVal, (ErrorKind, int)>((e.0, e.1 as int)),
            }
        }),
{
    let chars = chars_of_str(s);
    parse_json_chars(&chars)
}

} // verus!
