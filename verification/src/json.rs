//! A small JSON reader and writer for the settings file format.
//!
//! The stored document is a JSON object.  The functions here work on
//! character sequences: specification functions define, position by position,
//! what a well-formed piece of input means, and the executable functions
//! return exactly what those specifications say.  Any deviation from the
//! grammar is reported as `None`; the caller turns that into the
//! default-on-corrupt policy.

use vstd::prelude::*;

verus! {

// ---------------------------------------------------------------------------
// Character classes
// ---------------------------------------------------------------------------

/// JSON insignificant whitespace.
pub open spec fn is_ws_char(c: char) -> bool {
    c == ' ' || c == '\n' || c == '\t' || c == '\r'
}

/// Decimal digit.
pub open spec fn is_digit_char(c: char) -> bool {
    48 <= c as u32 && c as u32 <= 57
}

/// Numeric value of a decimal digit character.
pub open spec fn digit_val(c: char) -> int {
    c as u32 - 48
}

/// The character for a decimal digit value.
pub open spec fn dec_digit_char(d: int) -> char {
    if d == 0 {
        '0'
    } else if d == 1 {
        '1'
    } else if d == 2 {
        '2'
    } else if d == 3 {
        '3'
    } else if d == 4 {
        '4'
    } else if d == 5 {
        '5'
    } else if d == 6 {
        '6'
    } else if d == 7 {
        '7'
    } else if d == 8 {
        '8'
    } else {
        '9'
    }
}

/// Numeric value of a hexadecimal digit character, if it is one.
pub open spec fn hex_val(c: char) -> Option<u32> {
    if 48 <= c as u32 && c as u32 <= 57 {
        Some((c as u32 - 48) as u32)
    } else if 97 <= c as u32 && c as u32 <= 102 {
        Some((c as u32 - 87) as u32)
    } else if 65 <= c as u32 && c as u32 <= 70 {
        Some((c as u32 - 55) as u32)
    } else {
        None
    }
}

/// The lower-case character for a hexadecimal digit value.
pub open spec fn hex_digit_char(d: int) -> char {
    if d < 10 {
        dec_digit_char(d)
    } else if d == 10 {
        'a'
    } else if d == 11 {
        'b'
    } else if d == 12 {
        'c'
    } else if d == 13 {
        'd'
    } else if d == 14 {
        'e'
    } else {
        'f'
    }
}

/// A code unit written as `\uXXXX` that is a Unicode scalar value on its own
/// (that is, not a surrogate half).
pub open spec fn is_scalar_code(h: u32) -> bool {
    h < 0xD800 || h >= 0xE000
}

/// The leading half of a surrogate pair.
pub open spec fn is_high_surrogate(h: u32) -> bool {
    0xD800 <= h && h < 0xDC00
}

/// The trailing half of a surrogate pair.
pub open spec fn is_low_surrogate(h: u32) -> bool {
    0xDC00 <= h && h < 0xE000
}

/// The supplementary character denoted by a high-low surrogate pair; the
/// result lies in `0x10000 ..= 0x10FFFF`, always a Unicode scalar value.
pub open spec fn combined_code(h: u32, l: u32) -> u32 {
    (0x10000 + (h - 0xD800) * 0x400 + (l - 0xDC00)) as u32
}

proof fn lemma_dec_digit_char_val(d: int)
    requires
        0 <= d <= 9,
    ensures
        is_digit_char(dec_digit_char(d)),
        digit_val(dec_digit_char(d)) == d,
{
}

proof fn lemma_hex_digit_char_val(d: int)
    requires
        0 <= d <= 15,
    ensures
        hex_val(hex_digit_char(d)) == Some(d as u32),
{
}

// ---------------------------------------------------------------------------
// Whitespace
// ---------------------------------------------------------------------------

/// Position of the first non-whitespace character at or after `i`.
pub open spec fn spec_skip_ws(s: Seq<char>, i: int) -> int
    decreases s.len() - i,
{
    if 0 <= i < s.len() && is_ws_char(s[i]) {
        spec_skip_ws(s, i + 1)
    } else {
        i
    }
}

fn ws_char(c: char) -> (b: bool)
    ensures
        b == is_ws_char(c),
{
    c == ' ' || c == '\n' || c == '\t' || c == '\r'
}

/// Advances past insignificant whitespace.
pub fn skip_ws(s: &Vec<char>, i: usize) -> (r: usize)
    requires
        i <= s@.len(),
    ensures
        r as int == spec_skip_ws(s@, i as int),
        i <= r <= s@.len(),
{
    let mut j = i;
    while j < s.len() && ws_char(s[j])
        invariant
            i <= j <= s@.len(),
            spec_skip_ws(s@, i as int) == spec_skip_ws(s@, j as int),
        decreases s@.len() - j,
    {
        j = j + 1;
    }
    j
}

// ---------------------------------------------------------------------------
// Numbers restricted to unsigned 32-bit integers
// ---------------------------------------------------------------------------

/// Reads a run of digits starting at `i`, folding them onto `acc`; returns the
/// accumulated value and the position just past the run.
pub open spec fn spec_parse_num_rest(s: Seq<char>, i: int, acc: nat) -> (nat, int)
    decreases s.len() - i,
{
    if 0 <= i < s.len() && is_digit_char(s[i]) {
        spec_parse_num_rest(s, i + 1, acc * 10 + (digit_val(s[i]) as nat))
    } else {
        (acc, i)
    }
}

/// A character that would continue a JSON number past its integer part.
pub open spec fn is_float_cont_char(c: char) -> bool {
    c == '.' || c == 'e' || c == 'E'
}

/// Reads a JSON number that must be a plain unsigned 32-bit integer: no sign,
/// no leading zero, no fractional part, no exponent, and at most `u32::MAX`.
pub open spec fn spec_parse_u32(s: Seq<char>, i: int) -> Option<(u32, int)> {
    if 0 <= i < s.len() && is_digit_char(s[i]) {
        let (v, end) = spec_parse_num_rest(s, i, 0);
        if s[i] == '0' && end > i + 1 {
            None
        } else if v > u32::MAX {
            None
        } else if end < s.len() && is_float_cont_char(s[end]) {
            None
        } else {
            Some((v as u32, end))
        }
    } else {
        None
    }
}

fn digit_char(c: char) -> (b: bool)
    ensures
        b == is_digit_char(c),
{
    let u = c as u32;
    48 <= u && u <= 57
}

/// Reads an unsigned 32-bit integer, exactly as [`spec_parse_u32`] describes.
pub fn parse_u32(s: &Vec<char>, i: usize) -> (r: Option<(u32, usize)>)
    requires
        i <= s@.len(),
    ensures
        (match r {
            Some((v, j)) => {
                &&& spec_parse_u32(s@, i as int) == Some((v, j as int))
                &&& i <= j <= s@.len()
            },
            None => spec_parse_u32(s@, i as int) is None,
        }),
{
    if !(i < s.len() && digit_char(s[i])) {
        return None;
    }
    let first = s[i];
    let mut j = i;
    let mut acc: u64 = 0;
    let ghost mut vj: nat = 0nat;
    while j < s.len() && digit_char(s[j])
        invariant
            i <= j <= s@.len(),
            spec_parse_num_rest(s@, i as int, 0nat) == spec_parse_num_rest(s@, j as int, vj),
            vj <= u32::MAX ==> acc == vj,
            vj > u32::MAX ==> acc > u32::MAX,
            acc <= 0x1_0000_0000u64,
        decreases s@.len() - j,
    {
        let d = s[j] as u32 - 48;
        proof {
            vj = vj * 10 + (digit_val(s@[j as int]) as nat);
        }
        if acc <= 0xFFFF_FFFFu64 {
            let na = acc * 10 + d as u64;
            if na > 0xFFFF_FFFFu64 {
                acc = 0x1_0000_0000u64;
            } else {
                acc = na;
            }
        }
        j = j + 1;
    }
    proof {
        assert(spec_parse_num_rest(s@, j as int, vj) == (vj, j as int));
    }
    if first == '0' && j > i + 1 {
        return None;
    }
    if acc > 0xFFFF_FFFFu64 {
        return None;
    }
    if j < s.len() {
        let c = s[j];
        if c == '.' || c == 'e' || c == 'E' {
            return None;
        }
    }
    Some((acc as u32, j))
}

// ---------------------------------------------------------------------------
// Booleans
// ---------------------------------------------------------------------------

/// Reads the literal `true` or `false`.
pub open spec fn spec_parse_bool(s: Seq<char>, i: int) -> Option<(bool, int)> {
    if 0 <= i && i + 4 <= s.len() && s[i] == 't' && s[i + 1] == 'r' && s[i + 2] == 'u' && s[i + 3]
        == 'e' {
        Some((true, i + 4))
    } else if 0 <= i && i + 5 <= s.len() && s[i] == 'f' && s[i + 1] == 'a' && s[i + 2] == 'l' && s[i
        + 3] == 's' && s[i + 4] == 'e' {
        Some((false, i + 5))
    } else {
        None
    }
}

/// Reads a boolean literal, exactly as [`spec_parse_bool`] describes.
pub fn parse_bool(s: &Vec<char>, i: usize) -> (r: Option<(bool, usize)>)
    requires
        i <= s@.len(),
    ensures
        (match r {
            Some((v, j)) => {
                &&& spec_parse_bool(s@, i as int) == Some((v, j as int))
                &&& i <= j <= s@.len()
            },
            None => spec_parse_bool(s@, i as int) is None,
        }),
{
    if s.len() - i >= 4 && s[i] == 't' && s[i + 1] == 'r' && s[i + 2] == 'u' && s[i + 3] == 'e' {
        Some((true, i + 4))
    } else if s.len() - i >= 5 && s[i] == 'f' && s[i + 1] == 'a' && s[i + 2] == 'l' && s[i + 3]
        == 's' && s[i + 4] == 'e' {
        Some((false, i + 5))
    } else {
        None
    }
}

// ---------------------------------------------------------------------------
// Strings
// ---------------------------------------------------------------------------

/// Value of four hexadecimal digit characters starting at `i`.
pub open spec fn spec_hex4(s: Seq<char>, i: int) -> Option<u32> {
    if 0 <= i && i + 4 <= s.len() {
        match (hex_val(s[i]), hex_val(s[i + 1]), hex_val(s[i + 2]), hex_val(s[i + 3])) {
            (Some(a), Some(b), Some(c), Some(d)) => Some(
                (a * 4096 + b * 256 + c * 16 + d) as u32,
            ),
            _ => None,
        }
    } else {
        None
    }
}

/// Meaning of a single-character escape `\x`.
pub open spec fn spec_unescape_short(e: char) -> Option<char> {
    if e == '"' {
        Some('"')
    } else if e == '\\' {
        Some('\\')
    } else if e == '/' {
        Some('/')
    } else if e == 'b' {
        Some('\u{8}')
    } else if e == 'f' {
        Some('\u{c}')
    } else if e == 'n' {
        Some('\n')
    } else if e == 'r' {
        Some('\r')
    } else if e == 't' {
        Some('\t')
    } else {
        None
    }
}

/// Reads the body of a JSON string, starting just after the opening quote;
/// returns the decoded characters and the position just past the closing
/// quote.  Escapes are decoded; a high-low surrogate escape pair denotes one
/// supplementary character.  An unescaped control character, an unknown
/// escape, an unpaired surrogate escape or a missing closing quote is an
/// error.
pub open spec fn spec_parse_string_body(s: Seq<char>, i: int) -> Option<(Seq<char>, int)>
    decreases s.len() - i,
{
    if !(0 <= i < s.len()) {
        None
    } else if s[i] == '"' {
        Some((Seq::<char>::empty(), i + 1))
    } else if s[i] == '\\' {
        if i + 2 <= s.len() {
            if s[i + 1] == 'u' {
                if i + 6 <= s.len() {
                    match spec_hex4(s, i + 2) {
                        Some(h) => if is_scalar_code(h) {
                            match spec_parse_string_body(s, i + 6) {
                                Some((t, e)) => Some((seq![h as char] + t, e)),
                                None => None,
                            }
                        } else if is_high_surrogate(h) {
                            if i + 12 <= s.len() && s[i + 6] == '\\' && s[i + 7] == 'u' {
                                match spec_hex4(s, i + 8) {
                                    Some(l) => if is_low_surrogate(l) {
                                        match spec_parse_string_body(s, i + 12) {
                                            Some((t, e)) => Some(
                                                (seq![combined_code(h, l) as char] + t, e),
                                            ),
                                            None => None,
                                        }
                                    } else {
                                        None
                                    },
                                    None => None,
                                }
                            } else {
                                None
                            }
                        } else {
                            None
                        },
                        None => None,
                    }
                } else {
                    None
                }
            } else {
                match spec_unescape_short(s[i + 1]) {
                    Some(d) => match spec_parse_string_body(s, i + 2) {
                        Some((t, e)) => Some((seq![d] + t, e)),
                        None => None,
                    },
                    None => None,
                }
            }
        } else {
            None
        }
    } else if (s[i] as u32) < 0x20 {
        None
    } else {
        match spec_parse_string_body(s, i + 1) {
            Some((t, e)) => Some((seq![s[i]] + t, e)),
            None => None,
        }
    }
}

fn hex_digit(c: char) -> (r: Option<u32>)
    ensures
        r == hex_val(c),
{
    let u = c as u32;
    if 48 <= u && u <= 57 {
        Some(u - 48)
    } else if 97 <= u && u <= 102 {
        Some(u - 87)
    } else if 65 <= u && u <= 70 {
        Some(u - 55)
    } else {
        None
    }
}

fn hex4(s: &Vec<char>, i: usize) -> (r: Option<u32>)
    requires
        i + 4 <= s@.len(),
    ensures
        r == spec_hex4(s@, i as int),
        (match r {
            Some(h) => h <= 0xFFFF,
            None => true,
        }),
{
    let n = s.len();
    proof {
        assert(i + 4 <= n);
    }
    let a = match hex_digit(s[i]) {
        Some(a) => a,
        None => {
            return None;
        },
    };
    let b = match hex_digit(s[i + 1]) {
        Some(b) => b,
        None => {
            return None;
        },
    };
    let c = match hex_digit(s[i + 2]) {
        Some(c) => c,
        None => {
            return None;
        },
    };
    let d = match hex_digit(s[i + 3]) {
        Some(d) => d,
        None => {
            return None;
        },
    };
    Some(a * 4096 + b * 256 + c * 16 + d)
}

fn unescape_short(e: char) -> (r: Option<char>)
    ensures
        r == spec_unescape_short(e),
{
    if e == '"' {
        Some('"')
    } else if e == '\\' {
        Some('\\')
    } else if e == '/' {
        Some('/')
    } else if e == 'b' {
        Some('\u{8}')
    } else if e == 'f' {
        Some('\u{c}')
    } else if e == 'n' {
        Some('\n')
    } else if e == 'r' {
        Some('\r')
    } else if e == 't' {
        Some('\t')
    } else {
        None
    }
}

/// Reads a JSON string body, exactly as [`spec_parse_string_body`] describes.
pub fn parse_string_body(s: &Vec<char>, i: usize) -> (r: Option<(Vec<char>, usize)>)
    requires
        i <= s@.len(),
    ensures
        (match r {
            Some((t, j)) => {
                &&& spec_parse_string_body(s@, i as int) == Some((t@, j as int))
                &&& i < j <= s@.len()
            },
            None => spec_parse_string_body(s@, i as int) is None,
        }),
{
    let mut acc: Vec<char> = Vec::new();
    let mut j = i;
    loop
        invariant
            i <= j <= s@.len(),
            (match spec_parse_string_body(s@, j as int) {
                Some((t, e)) => spec_parse_string_body(s@, i as int) == Some((acc@ + t, e)),
                None => spec_parse_string_body(s@, i as int) is None,
            }),
        decreases s@.len() - j,
    {
        if j == s.len() {
            return None;
        }
        let c = s[j];
        if c == '"' {
            proof {
                assert(acc@ + Seq::<char>::empty() =~= acc@);
            }
            return Some((acc, j + 1));
        }
        if c == '\\' {
            if s.len() - j < 2 {
                return None;
            }
            let e = s[j + 1];
            if e == 'u' {
                if s.len() - j < 6 {
                    return None;
                }
                let h = match hex4(s, j + 2) {
                    Some(h) => h,
                    None => {
                        return None;
                    },
                };
                if h < 0xD800 || h >= 0xE000 {
                    let c2 = crate::chars::char_from_code(h);
                    proof {
                        vstd::utf8::char_u32_cast(c2, h);
                        let sj = spec_parse_string_body(s@, j + 6);
                        if sj is Some {
                            let t2 = sj->Some_0.0;
                            assert(acc@ + (seq![c2] + t2) =~= acc@.push(c2) + t2);
                        }
                    }
                    acc.push(c2);
                    j = j + 6;
                } else if h < 0xDC00 {
                    // a high surrogate escape denotes a character only
                    // together with a low one right after it
                    if s.len() - j < 12 {
                        return None;
                    }
                    if !(s[j + 6] == '\\' && s[j + 7] == 'u') {
                        return None;
                    }
                    let l = match hex4(s, j + 8) {
                        Some(l) => l,
                        None => {
                            return None;
                        },
                    };
                    if !(0xDC00 <= l && l < 0xE000) {
                        return None;
                    }
                    let code = 0x10000 + (h - 0xD800) * 0x400 + (l - 0xDC00);
                    let c2 = crate::chars::char_from_code(code);
                    proof {
                        vstd::utf8::char_u32_cast(c2, code);
                        let sj = spec_parse_string_body(s@, j + 12);
                        if sj is Some {
                            let t2 = sj->Some_0.0;
                            assert(acc@ + (seq![c2] + t2) =~= acc@.push(c2) + t2);
                        }
                    }
                    acc.push(c2);
                    j = j + 12;
                } else {
                    return None;
                }
            } else {
                let d = match unescape_short(e) {
                    Some(d) => d,
                    None => {
                        return None;
                    },
                };
                proof {
                    let sj = spec_parse_string_body(s@, j + 2);
                    if sj is Some {
                        let t2 = sj->Some_0.0;
                        assert(acc@ + (seq![d] + t2) =~= acc@.push(d) + t2);
                    }
                }
                acc.push(d);
                j = j + 2;
            }
        } else if (c as u32) < 0x20 {
            return None;
        } else {
            proof {
                let sj = spec_parse_string_body(s@, j + 1);
                if sj is Some {
                    let t2 = sj->Some_0.0;
                    assert(acc@ + (seq![c] + t2) =~= acc@.push(c) + t2);
                }
            }
            acc.push(c);
            j = j + 1;
        }
    }
}

// ---------------------------------------------------------------------------
// Skipping arbitrary values (unknown fields are tolerated)
// ---------------------------------------------------------------------------

/// Nesting allowance for arrays and objects inside an unknown field's value.
pub const MAX_DEPTH: u32 = 128;

/// End of a run of decimal digits starting at `i`.
pub open spec fn spec_digits_end(s: Seq<char>, i: int) -> int
    decreases s.len() - i,
{
    if 0 <= i < s.len() && is_digit_char(s[i]) {
        spec_digits_end(s, i + 1)
    } else {
        i
    }
}

pub proof fn lemma_digits_end_bounds(s: Seq<char>, i: int)
    requires
        0 <= i <= s.len(),
    ensures
        i <= spec_digits_end(s, i) <= s.len(),
    decreases s.len() - i,
{
    if i < s.len() && is_digit_char(s[i]) {
        lemma_digits_end_bounds(s, i + 1);
    }
}

/// Skips a JSON number under the full grammar: optional minus sign, integer
/// part, optional fraction, optional exponent.
pub open spec fn spec_skip_number(s: Seq<char>, i: int) -> Option<int> {
    if !(0 <= i < s.len()) {
        None
    } else {
        let j = if s[i] == '-' {
            i + 1
        } else {
            i
        };
        if !(j < s.len() && is_digit_char(s[j])) {
            None
        } else {
            let k = if s[j] == '0' {
                j + 1
            } else {
                spec_digits_end(s, j)
            };
            let k2opt = if k < s.len() && s[k] == '.' {
                if k + 1 < s.len() && is_digit_char(s[k + 1]) {
                    Some(spec_digits_end(s, k + 1))
                } else {
                    None
                }
            } else {
                Some(k)
            };
            match k2opt {
                None => None,
                Some(k2) => {
                    if k2 < s.len() && (s[k2] == 'e' || s[k2] == 'E') {
                        let m = if k2 + 1 < s.len() && (s[k2 + 1] == '+' || s[k2 + 1] == '-') {
                            k2 + 2
                        } else {
                            k2 + 1
                        };
                        if m < s.len() && is_digit_char(s[m]) {
                            Some(spec_digits_end(s, m))
                        } else {
                            None
                        }
                    } else {
                        Some(k2)
                    }
                },
            }
        }
    }
}

/// Skips any JSON value starting at `i`; `depth` bounds container nesting.
pub open spec fn spec_skip_value(s: Seq<char>, i: int, depth: u32) -> Option<int>
    decreases s.len() - i, 0int,
{
    if !(0 <= i < s.len()) {
        None
    } else {
        let c = s[i];
        if c == '"' {
            match spec_parse_string_body(s, i + 1) {
                Some((t, e)) => Some(e),
                None => None,
            }
        } else if c == '{' {
            if depth == 0 {
                None
            } else {
                let j = spec_skip_ws(s, i + 1);
                if j < s.len() && s[j] == '}' {
                    Some(j + 1)
                } else if i < j && j <= s.len() {
                    spec_skip_members(s, j, (depth - 1) as u32)
                } else {
                    None
                }
            }
        } else if c == '[' {
            if depth == 0 {
                None
            } else {
                let j = spec_skip_ws(s, i + 1);
                if j < s.len() && s[j] == ']' {
                    Some(j + 1)
                } else if i < j && j <= s.len() {
                    spec_skip_elems(s, j, (depth - 1) as u32)
                } else {
                    None
                }
            }
        } else if c == 't' {
            if i + 4 <= s.len() && s[i + 1] == 'r' && s[i + 2] == 'u' && s[i + 3] == 'e' {
                Some(i + 4)
            } else {
                None
            }
        } else if c == 'f' {
            if i + 5 <= s.len() && s[i + 1] == 'a' && s[i + 2] == 'l' && s[i + 3] == 's' && s[i + 4]
                == 'e' {
                Some(i + 5)
            } else {
                None
            }
        } else if c == 'n' {
            if i + 4 <= s.len() && s[i + 1] == 'u' && s[i + 2] == 'l' && s[i + 3] == 'l' {
                Some(i + 4)
            } else {
                None
            }
        } else if c == '-' || is_digit_char(c) {
            spec_skip_number(s, i)
        } else {
            None
        }
    }
}

/// Skips the members of an object, positioned at a member's opening quote.
pub open spec fn spec_skip_members(s: Seq<char>, i: int, depth: u32) -> Option<int>
    decreases s.len() - i, 1int,
{
    if !(0 <= i < s.len() && s[i] == '"') {
        None
    } else {
        match spec_parse_string_body(s, i + 1) {
            None => None,
            Some((key, j)) => {
                let k = spec_skip_ws(s, j);
                if !(k < s.len() && s[k] == ':') {
                    None
                } else {
                    let m = spec_skip_ws(s, k + 1);
                    if !(i < m && m <= s.len()) {
                        None
                    } else {
                        match spec_skip_value(s, m, depth) {
                            None => None,
                            Some(e) => {
                                let p = spec_skip_ws(s, e);
                                if p < s.len() && s[p] == ',' {
                                    let q = spec_skip_ws(s, p + 1);
                                    if i < q && q <= s.len() {
                                        spec_skip_members(s, q, depth)
                                    } else {
                                        None
                                    }
                                } else if p < s.len() && s[p] == '}' {
                                    Some(p + 1)
                                } else {
                                    None
                                }
                            },
                        }
                    }
                }
            },
        }
    }
}

/// Skips the elements of an array, positioned at an element's first character.
pub open spec fn spec_skip_elems(s: Seq<char>, i: int, depth: u32) -> Option<int>
    decreases s.len() - i, 1int,
{
    if !(0 <= i < s.len()) {
        None
    } else {
        match spec_skip_value(s, i, depth) {
            None => None,
            Some(e) => {
                let p = spec_skip_ws(s, e);
                if p < s.len() && s[p] == ',' {
                    let q = spec_skip_ws(s, p + 1);
                    if i < q && q <= s.len() {
                        spec_skip_elems(s, q, depth)
                    } else {
                        None
                    }
                } else if p < s.len() && s[p] == ']' {
                    Some(p + 1)
                } else {
                    None
                }
            },
        }
    }
}

/// End of a digit run, exactly as [`spec_digits_end`] describes.
pub fn digits_end(s: &Vec<char>, i: usize) -> (r: usize)
    requires
        i <= s@.len(),
    ensures
        r as int == spec_digits_end(s@, i as int),
        i <= r <= s@.len(),
{
    let mut j = i;
    while j < s.len() && digit_char(s[j])
        invariant
            i <= j <= s@.len(),
            spec_digits_end(s@, i as int) == spec_digits_end(s@, j as int),
        decreases s@.len() - j,
    {
        j = j + 1;
    }
    j
}

/// Skips a JSON number, exactly as [`spec_skip_number`] describes.
pub fn skip_number(s: &Vec<char>, i: usize) -> (r: Option<usize>)
    requires
        i <= s@.len(),
    ensures
        (match r {
            Some(e) => {
                &&& spec_skip_number(s@, i as int) == Some(e as int)
                &&& i < e <= s@.len()
            },
            None => spec_skip_number(s@, i as int) is None,
        }),
{
    if !(i < s.len()) {
        return None;
    }
    let j = if s[i] == '-' {
        i + 1
    } else {
        i
    };
    if !(j < s.len() && digit_char(s[j])) {
        return None;
    }
    let k = if s[j] == '0' {
        j + 1
    } else {
        digits_end(s, j)
    };
    proof {
        if s@[j as int] != '0' {
            assert(spec_digits_end(s@, j as int) == spec_digits_end(s@, j as int + 1));
            lemma_digits_end_bounds(s@, j as int + 1);
        }
    }
    let k2 = if k < s.len() && s[k] == '.' {
        if k + 1 < s.len() && digit_char(s[k + 1]) {
            digits_end(s, k + 1)
        } else {
            return None;
        }
    } else {
        k
    };
    if k2 < s.len() && (s[k2] == 'e' || s[k2] == 'E') {
        let m = if k2 + 1 < s.len() && (s[k2 + 1] == '+' || s[k2 + 1] == '-') {
            k2 + 2
        } else {
            k2 + 1
        };
        if m < s.len() && digit_char(s[m]) {
            Some(digits_end(s, m))
        } else {
            None
        }
    } else {
        Some(k2)
    }
}

/// Skips any JSON value, exactly as [`spec_skip_value`] describes.
pub fn skip_value(s: &Vec<char>, i: usize, depth: u32) -> (r: Option<usize>)
    requires
        i <= s@.len(),
    ensures
        (match r {
            Some(e) => {
                &&& spec_skip_value(s@, i as int, depth) == Some(e as int)
                &&& i < e <= s@.len()
            },
            None => spec_skip_value(s@, i as int, depth) is None,
        }),
    decreases s@.len() - i, 0int,
{
    if !(i < s.len()) {
        return None;
    }
    let c = s[i];
    if c == '"' {
        match parse_string_body(s, i + 1) {
            Some((_t, e)) => Some(e),
            None => None,
        }
    } else if c == '{' {
        if depth == 0 {
            None
        } else {
            let j = skip_ws(s, i + 1);
            if j < s.len() && s[j] == '}' {
                Some(j + 1)
            } else if i < j && j <= s.len() {
                skip_members(s, j, depth - 1)
            } else {
                None
            }
        }
    } else if c == '[' {
        if depth == 0 {
            None
        } else {
            let j = skip_ws(s, i + 1);
            if j < s.len() && s[j] == ']' {
                Some(j + 1)
            } else if i < j && j <= s.len() {
                skip_elems(s, j, depth - 1)
            } else {
                None
            }
        }
    } else if c == 't' {
        if s.len() - i >= 4 && s[i + 1] == 'r' && s[i + 2] == 'u' && s[i + 3] == 'e' {
            Some(i + 4)
        } else {
            None
        }
    } else if c == 'f' {
        if s.len() - i >= 5 && s[i + 1] == 'a' && s[i + 2] == 'l' && s[i + 3] == 's' && s[i + 4]
            == 'e' {
            Some(i + 5)
        } else {
            None
        }
    } else if c == 'n' {
        if s.len() - i >= 4 && s[i + 1] == 'u' && s[i + 2] == 'l' && s[i + 3] == 'l' {
            Some(i + 4)
        } else {
            None
        }
    } else if c == '-' || digit_char(c) {
        skip_number(s, i)
    } else {
        None
    }
}

/// Skips object members, exactly as [`spec_skip_members`] describes.
pub fn skip_members(s: &Vec<char>, i: usize, depth: u32) -> (r: Option<usize>)
    requires
        i <= s@.len(),
    ensures
        (match r {
            Some(e) => {
                &&& spec_skip_members(s@, i as int, depth) == Some(e as int)
                &&& i < e <= s@.len()
            },
            None => spec_skip_members(s@, i as int, depth) is None,
        }),
    decreases s@.len() - i, 1int,
{
    let mut cur = i;
    loop
        invariant
            i <= cur <= s@.len(),
            spec_skip_members(s@, i as int, depth) == spec_skip_members(s@, cur as int, depth),
        decreases s@.len() - cur,
    {
        if !(cur < s.len() && s[cur] == '"') {
            return None;
        }
        let j = match parse_string_body(s, cur + 1) {
            Some((_key, j)) => j,
            None => {
                return None;
            },
        };
        let k = skip_ws(s, j);
        if !(k < s.len() && s[k] == ':') {
            return None;
        }
        let m = skip_ws(s, k + 1);
        if !(cur < m && m <= s.len()) {
            return None;
        }
        let e = match skip_value(s, m, depth) {
            Some(e) => e,
            None => {
                return None;
            },
        };
        let p = skip_ws(s, e);
        if p < s.len() && s[p] == ',' {
            let q = skip_ws(s, p + 1);
            if cur < q {
                cur = q;
            } else {
                return None;
            }
        } else if p < s.len() && s[p] == '}' {
            return Some(p + 1);
        } else {
            return None;
        }
    }
}

/// Skips array elements, exactly as [`spec_skip_elems`] describes.
pub fn skip_elems(s: &Vec<char>, i: usize, depth: u32) -> (r: Option<usize>)
    requires
        i <= s@.len(),
    ensures
        (match r {
            Some(e) => {
                &&& spec_skip_elems(s@, i as int, depth) == Some(e as int)
                &&& i < e <= s@.len()
            },
            None => spec_skip_elems(s@, i as int, depth) is None,
        }),
    decreases s@.len() - i, 1int,
{
    let mut cur = i;
    loop
        invariant
            i <= cur <= s@.len(),
            spec_skip_elems(s@, i as int, depth) == spec_skip_elems(s@, cur as int, depth),
        decreases s@.len() - cur,
    {
        if !(cur < s.len()) {
            return None;
        }
        let e = match skip_value(s, cur, depth) {
            Some(e) => e,
            None => {
                return None;
            },
        };
        let p = skip_ws(s, e);
        if p < s.len() && s[p] == ',' {
            let q = skip_ws(s, p + 1);
            if cur < q {
                cur = q;
            } else {
                return None;
            }
        } else if p < s.len() && s[p] == ']' {
            return Some(p + 1);
        } else {
            return None;
        }
    }
}

// ---------------------------------------------------------------------------
// Writing
// ---------------------------------------------------------------------------

/// How one character is written inside a JSON string: quote and backslash get
/// a backslash, control characters are written `\u00XX`, the rest stand as
/// themselves.
pub open spec fn esc_char(c: char) -> Seq<char> {
    if c == '"' {
        seq!['\\', '"']
    } else if c == '\\' {
        seq!['\\', '\\']
    } else if (c as u32) < 0x20 {
        seq![
            '\\',
            'u',
            '0',
            '0',
            hex_digit_char((c as u32 / 16) as int),
            hex_digit_char((c as u32 % 16) as int),
        ]
    } else {
        seq![c]
    }
}

/// How a whole string body is written.
pub open spec fn esc_str(s: Seq<char>) -> Seq<char>
    decreases s.len(),
{
    if s.len() == 0 {
        Seq::<char>::empty()
    } else {
        esc_char(s[0]) + esc_str(s.skip(1))
    }
}

/// Decimal digits of `n`, most significant first, no leading zeros.
pub open spec fn dec_str(n: nat) -> Seq<char>
    decreases n,
{
    if n < 10 {
        seq![dec_digit_char(n as int)]
    } else {
        dec_str(n / 10) + seq![dec_digit_char((n % 10) as int)]
    }
}

/// How a boolean is written.
pub open spec fn bool_str(b: bool) -> Seq<char> {
    if b {
        seq!['t', 'r', 'u', 'e']
    } else {
        seq!['f', 'a', 'l', 's', 'e']
    }
}

/// Writing a piece-wise concatenation escapes piece by piece.
pub proof fn lemma_esc_str_app(a: Seq<char>, b: Seq<char>)
    ensures
        esc_str(a + b) == esc_str(a) + esc_str(b),
    decreases a.len(),
{
    if a.len() == 0 {
        assert(a + b =~= b);
        assert(esc_str(a) + esc_str(b) =~= esc_str(b));
    } else {
        assert((a + b).skip(1) =~= a.skip(1) + b);
        lemma_esc_str_app(a.skip(1), b);
        assert(esc_str(a) + esc_str(b) =~= esc_char(a[0]) + (esc_str(a.skip(1)) + esc_str(b)));
        assert(esc_str(a + b) =~= esc_char(a[0]) + (esc_str(a.skip(1)) + esc_str(b)));
    }
}

pub proof fn lemma_esc_str_take_step(s: Seq<char>, k: int)
    requires
        0 <= k < s.len(),
    ensures
        esc_str(s.take(k + 1)) == esc_str(s.take(k)) + esc_char(s[k]),
{
    assert(s.take(k + 1) =~= s.take(k) + seq![s[k]]);
    lemma_esc_str_app(s.take(k), seq![s[k]]);
    let one = seq![s[k]];
    assert(one.len() == 1 && one[0] == s[k]);
    assert(one.skip(1) =~= Seq::<char>::empty());
    assert(esc_str(one) == esc_char(s[k]) + esc_str(Seq::<char>::empty()));
    assert(esc_char(s[k]) + Seq::<char>::empty() =~= esc_char(s[k]));
}

fn dec_digit(d: u32) -> (c: char)
    requires
        d < 10,
    ensures
        c == dec_digit_char(d as int),
{
    if d == 0 {
        '0'
    } else if d == 1 {
        '1'
    } else if d == 2 {
        '2'
    } else if d == 3 {
        '3'
    } else if d == 4 {
        '4'
    } else if d == 5 {
        '5'
    } else if d == 6 {
        '6'
    } else if d == 7 {
        '7'
    } else if d == 8 {
        '8'
    } else {
        '9'
    }
}

fn hex_digit_lower(d: u32) -> (c: char)
    requires
        d < 16,
    ensures
        c == hex_digit_char(d as int),
{
    if d < 10 {
        dec_digit(d)
    } else if d == 10 {
        'a'
    } else if d == 11 {
        'b'
    } else if d == 12 {
        'c'
    } else if d == 13 {
        'd'
    } else if d == 14 {
        'e'
    } else {
        'f'
    }
}

/// Writes `n` in decimal at the end of `out`, exactly [`dec_str`].
pub fn push_dec(out: &mut String, n: u32)
    ensures
        final(out)@ == old(out)@ + dec_str(n as nat),
    decreases n,
{
    if n >= 10 {
        push_dec(out, n / 10);
        crate::chars::push_char(out, dec_digit(n % 10));
        proof {
            assert(old(out)@ + dec_str(n as nat) =~= (old(out)@ + dec_str(n as nat / 10)).push(
                dec_digit_char((n as nat % 10) as int),
            ));
        }
    } else {
        crate::chars::push_char(out, dec_digit(n));
        proof {
            assert(old(out)@ + dec_str(n as nat) =~= old(out)@.push(dec_digit_char(n as int)));
        }
    }
}

/// Writes the characters of `v` at the end of `out`, escaped as inside a JSON
/// string: exactly [`esc_str`].
pub fn push_escaped(out: &mut String, v: &Vec<char>)
    ensures
        final(out)@ == old(out)@ + esc_str(v@),
{
    proof {
        assert(v@.take(0) =~= Seq::<char>::empty());
        assert(old(out)@ + esc_str(v@.take(0)) =~= old(out)@);
    }
    let mut k: usize = 0;
    while k < v.len()
        invariant
            k <= v@.len(),
            out@ == old(out)@ + esc_str(v@.take(k as int)),
        decreases v@.len() - k,
    {
        let c = v[k];
        proof {
            lemma_esc_str_take_step(v@, k as int);
        }
        if c == '"' {
            crate::chars::push_char(out, '\\');
            crate::chars::push_char(out, '"');
        } else if c == '\\' {
            crate::chars::push_char(out, '\\');
            crate::chars::push_char(out, '\\');
        } else if (c as u32) < 0x20 {
            crate::chars::push_char(out, '\\');
            crate::chars::push_char(out, 'u');
            crate::chars::push_char(out, '0');
            crate::chars::push_char(out, '0');
            crate::chars::push_char(out, hex_digit_lower(c as u32 / 16));
            crate::chars::push_char(out, hex_digit_lower(c as u32 % 16));
        } else {
            crate::chars::push_char(out, c);
        }
        k = k + 1;
        proof {
            assert(out@ =~= old(out)@ + esc_str(v@.take(k as int)));
        }
    }
    proof {
        assert(v@.take(v@.len() as int) =~= v@);
    }
}

// ---------------------------------------------------------------------------
// Reading back what was written
// ---------------------------------------------------------------------------

/// A character that stands for itself inside a written JSON string.
pub open spec fn plain_char(c: char) -> bool {
    c != '"' && c != '\\' && (c as u32) >= 0x20
}

/// A string whose characters all stand for themselves when written.
pub open spec fn plain_seq(s: Seq<char>) -> bool {
    forall|i: int| 0 <= i < s.len() ==> plain_char(#[trigger] s[i])
}

/// Writing a plain string changes nothing.
pub proof fn lemma_esc_plain(s: Seq<char>)
    requires
        plain_seq(s),
    ensures
        esc_str(s) == s,
    decreases s.len(),
{
    if s.len() == 0 {
        assert(esc_str(s) =~= s);
    } else {
        assert(plain_char(s[0]));
        assert forall|i: int| 0 <= i < s.skip(1).len() implies plain_char(#[trigger] s.skip(1)[i]) by {
            assert(s.skip(1)[i] == s[i + 1]);
            assert(plain_char(s[i + 1]));
        }
        lemma_esc_plain(s.skip(1));
        assert(esc_str(s) == esc_char(s[0]) + s.skip(1));
        assert(esc_char(s[0]) + s.skip(1) =~= s);
    }
}

/// Reading a written string decodes it exactly: if the text at `i` is the
/// written form of `v` followed by a closing quote, the reader returns `v`
/// and stops just past that quote.
pub proof fn lemma_parse_esc_region(s: Seq<char>, i: int, v: Seq<char>)
    requires
        0 <= i,
        i + esc_str(v).len() + 1 <= s.len(),
        s.subrange(i, i + esc_str(v).len()) == esc_str(v),
        s[i + esc_str(v).len()] == '"',
    ensures
        spec_parse_string_body(s, i) == Some((v, i + esc_str(v).len() + 1)),
    decreases v.len(),
{
    let ev = esc_str(v);
    assert forall|m: int| 0 <= m < ev.len() implies s[i + m] == ev[m] by {
        assert(ev[m] == s.subrange(i, i + ev.len())[m]);
    }
    if v.len() == 0 {
        assert(ev.len() == 0);
        assert(s[i] == '"');
        assert(v =~= Seq::<char>::empty());
    } else {
        let c = v[0];
        let e0 = esc_char(c);
        let rest = esc_str(v.skip(1));
        assert(ev == e0 + rest);
        let i2 = i + e0.len();
        assert forall|m: int| 0 <= m < rest.len() implies s.subrange(i2, i2 + rest.len())[m]
            == rest[m] by {
            assert(s.subrange(i2, i2 + rest.len())[m] == s[i2 + m]);
            assert(s[i2 + m] == ev[e0.len() + m]);
            assert(ev[e0.len() + m] == rest[m]);
        }
        assert(s.subrange(i2, i2 + rest.len()) =~= rest);
        assert(s[i2 + rest.len()] == '"');
        lemma_parse_esc_region(s, i2, v.skip(1));
        assert(seq![c] + v.skip(1) =~= v);
        if c == '"' {
            assert(s[i + 0] == ev[0] && s[i + 1] == ev[1]);
            assert(s[i] == '\\' && s[i + 1] == '"');
            assert(spec_unescape_short(s[i + 1]) == Some('"'));
        } else if c == '\\' {
            assert(s[i + 0] == ev[0] && s[i + 1] == ev[1]);
            assert(s[i] == '\\' && s[i + 1] == '\\');
            assert(spec_unescape_short(s[i + 1]) == Some('\\'));
        } else if (c as u32) < 0x20 {
            let hi = (c as u32 / 16) as int;
            let lo = (c as u32 % 16) as int;
            assert(s[i + 0] == ev[0] && s[i + 1] == ev[1] && s[i + 2] == ev[2] && s[i + 3] == ev[3]
                && s[i + 4] == ev[4] && s[i + 5] == ev[5]);
            assert(s[i] == '\\' && s[i + 1] == 'u' && s[i + 2] == '0' && s[i + 3] == '0');
            assert(s[i + 4] == hex_digit_char(hi) && s[i + 5] == hex_digit_char(lo));
            lemma_hex_digit_char_val(hi);
            lemma_hex_digit_char_val(lo);
            assert(hex_val('0') == Some(0u32));
            assert(spec_hex4(s, i + 2) == Some(c as u32)) by {
                assert(c as u32 / 16 * 16 + c as u32 % 16 == c as u32);
            }
            assert(is_scalar_code(c as u32));
            vstd::utf8::char_u32_cast(c, c as u32);
            assert((c as u32) as char == c);
        } else {
            assert(s[i + 0] == ev[0]);
            assert(s[i] == c);
            assert(plain_char(c));
        }
    }
}

/// Reading a written boolean gives it back.
pub proof fn lemma_parse_bool_region(s: Seq<char>, i: int, b: bool)
    requires
        0 <= i,
        i + bool_str(b).len() <= s.len(),
        s.subrange(i, i + bool_str(b).len()) == bool_str(b),
    ensures
        spec_parse_bool(s, i) == Some((b, i + bool_str(b).len())),
{
    let bs = bool_str(b);
    assert forall|m: int| 0 <= m < bs.len() implies s[i + m] == bs[m] by {
        assert(bs[m] == s.subrange(i, i + bs.len())[m]);
    }
    if b {
        assert(s[i] == 't' && s[i + 1] == 'r' && s[i + 2] == 'u' && s[i + 3] == 'e');
    } else {
        assert(s[i] == 'f' && s[i + 1] == 'a' && s[i + 2] == 'l' && s[i + 3] == 's' && s[i + 4]
            == 'e');
    }
}

/// Powers of ten.
pub open spec fn pow10(k: nat) -> nat
    decreases k,
{
    if k == 0 {
        1
    } else {
        10 * pow10((k - 1) as nat)
    }
}

/// Every character of a written number is a digit, there is at least one, and
/// only zero itself starts with a zero digit.
pub proof fn lemma_dec_str_facts(n: nat)
    ensures
        dec_str(n).len() >= 1,
        forall|k: int| 0 <= k < dec_str(n).len() ==> is_digit_char(#[trigger] dec_str(n)[k]),
        n >= 1 ==> dec_str(n)[0] != '0',
        n < 10 ==> dec_str(n).len() == 1,
    decreases n,
{
    if n < 10 {
        lemma_dec_digit_char_val(n as int);
    } else {
        lemma_dec_str_facts(n / 10);
        lemma_dec_digit_char_val((n % 10) as int);
        let d = dec_str(n);
        let dp = dec_str(n / 10);
        assert forall|k: int| 0 <= k < d.len() implies is_digit_char(#[trigger] d[k]) by {
            if k < dp.len() {
                assert(d[k] == dp[k]);
            } else {
                assert(d[k] == dec_digit_char((n % 10) as int));
            }
        }
        assert(d[0] == dp[0]);
    }
}

/// Reading a run of written digits folds them back onto the accumulator.
proof fn lemma_num_chain(s: Seq<char>, i: int, acc: nat, n: nat)
    requires
        0 <= i,
        i + dec_str(n).len() <= s.len(),
        s.subrange(i, i + dec_str(n).len()) == dec_str(n),
    ensures
        spec_parse_num_rest(s, i, acc) == spec_parse_num_rest(
            s,
            i + dec_str(n).len(),
            acc * pow10(dec_str(n).len() as nat) + n,
        ),
    decreases n,
{
    let d = dec_str(n);
    assert forall|m: int| 0 <= m < d.len() implies s[i + m] == d[m] by {
        assert(d[m] == s.subrange(i, i + d.len())[m]);
    }
    lemma_dec_str_facts(n);
    if n < 10 {
        assert(s[i + 0] == d[0]);
        assert(s[i] == dec_digit_char(n as int));
        lemma_dec_digit_char_val(n as int);
        assert(pow10(1) == 10 * pow10(0));
        assert(pow10(0) == 1);
        assert(spec_parse_num_rest(s, i, acc) == spec_parse_num_rest(s, i + 1, acc * 10 + n));
    } else {
        let dp = dec_str(n / 10);
        let r = n % 10;
        let q = n / 10;
        assert forall|m: int| 0 <= m < dp.len() implies s.subrange(i, i + dp.len())[m] == dp[m] by {
            assert(s.subrange(i, i + dp.len())[m] == s[i + m]);
            assert(d[m] == dp[m]);
        }
        assert(s.subrange(i, i + dp.len()) =~= dp);
        lemma_num_chain(s, i, acc, q);
        let p = pow10(dp.len() as nat);
        assert(pow10(d.len() as nat) == 10 * p) by {
            assert(d.len() == dp.len() + 1);
        }
        let mid = i + dp.len();
        assert(s[i + dp.len()] == d[dp.len() as int]);
        assert(d[dp.len() as int] == dec_digit_char(r as int));
        assert(s[mid] == dec_digit_char(r as int));
        lemma_dec_digit_char_val(r as int);
        assert(spec_parse_num_rest(s, mid, acc * p + q) == spec_parse_num_rest(
            s,
            mid + 1,
            (acc * p + q) * 10 + r,
        ));
        vstd::arithmetic::div_mod::lemma_fundamental_div_mod(n as int, 10);
        assert((acc * p + q) * 10 + r == acc * (10 * p) + (10 * q + r)) by (nonlinear_arith);
        assert(10 * q + r == n);
    }
}

/// Reading a written unsigned integer gives it back, provided the next
/// character does not extend the number.
pub proof fn lemma_parse_u32_region(s: Seq<char>, i: int, n: u32)
    requires
        0 <= i,
        i + dec_str(n as nat).len() <= s.len(),
        s.subrange(i, i + dec_str(n as nat).len()) == dec_str(n as nat),
        ({
            let end = i + dec_str(n as nat).len();
            end == s.len() || (!is_digit_char(s[end]) && !is_float_cont_char(s[end]))
        }),
    ensures
        spec_parse_u32(s, i) == Some((n, i + dec_str(n as nat).len())),
{
    let d = dec_str(n as nat);
    let end = i + d.len();
    lemma_dec_str_facts(n as nat);
    assert forall|m: int| 0 <= m < d.len() implies s[i + m] == d[m] by {
        assert(d[m] == s.subrange(i, i + d.len())[m]);
    }
    assert(s[i + 0] == d[0]);
    assert(is_digit_char(s[i]));
    lemma_num_chain(s, i, 0, n as nat);
    assert(0 * pow10(d.len() as nat) + n as nat == n as nat);
    assert(spec_parse_num_rest(s, end, n as nat) == (n as nat, end));
    assert(spec_parse_num_rest(s, i, 0) == (n as nat, end));
    if n == 0 {
        assert(d.len() == 1);
        assert(!(end > i + 1));
    } else {
        assert(s[i] != '0');
    }
}

} // verus!
