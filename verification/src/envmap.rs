//! From recovered configuration text to a process environment.
//!
//! The recovered plaintext must be a flat JSON object: string keys, scalar
//! values (string, number, boolean or null). Every key becomes an uppercased
//! environment-variable name; a string value becomes its content with the
//! quoting stripped and simple escapes resolved, any other scalar its
//! literal text. Later entries overwrite earlier ones of the same name (map
//! semantics). Nested objects or arrays are rejected (they are not flat), as
//! is anything that is not a parsable JSON object, all with the encoding
//! error of the taxonomy.
//!
//! The grammar lives here as spec functions over the UTF-8 bytes of the
//! text, and the parser is proved to return exactly what they describe.

use vstd::prelude::*;
use vstd::slice::{slice_subrange, slice_to_vec};
use vstd::string::StringSliceAdditionalSpecFns;
use vstd::utf8::{valid_utf8, decode_utf8, encode_scalar, is_scalar};
use crate::codec::{string_from_utf8, CodecError};

verus! {

/// JSON whitespace: space, tab, line feed, carriage return.
pub open spec fn is_ws(b: u8) -> bool {
    b == 32 || b == 9 || b == 10 || b == 13
}

/// An ASCII decimal digit.
pub open spec fn is_digit(b: u8) -> bool {
    48 <= b <= 57
}

/// The first position at or after `i` that holds no whitespace.
pub open spec fn skip_ws(s: Seq<u8>, i: int) -> int
    decreases s.len() - i when 0 <= i <= s.len()
{
    if i < s.len() && is_ws(s[i]) {
        skip_ws(s, i + 1)
    } else {
        i
    }
}

/// The first position at or after `i` that holds no digit.
pub open spec fn digits_end(s: Seq<u8>, i: int) -> int
    decreases s.len() - i when 0 <= i <= s.len()
{
    if i < s.len() && is_digit(s[i]) {
        digits_end(s, i + 1)
    } else {
        i
    }
}

/// What a simple one-character escape after a backslash stands for; `None`
/// for an escape JSON does not know (`\uXXXX` is handled separately).
pub open spec fn unescaped(b: u8) -> Option<u8> {
    if b == 34 {
        Some(34u8)
    } else if b == 92 {
        Some(92u8)
    } else if b == 47 {
        Some(47u8)
    } else if b == 98 {
        Some(8u8)
    } else if b == 102 {
        Some(12u8)
    } else if b == 110 {
        Some(10u8)
    } else if b == 114 {
        Some(13u8)
    } else if b == 116 {
        Some(9u8)
    } else {
        None
    }
}

/// The numeric value of an ASCII hexadecimal digit.
pub open spec fn hex_val(b: u8) -> Option<u32> {
    if 48 <= b <= 57 {
        Some((b - 48) as u32)
    } else if 97 <= b <= 102 {
        Some((b - 87) as u32)
    } else if 65 <= b <= 70 {
        Some((b - 55) as u32)
    } else {
        None
    }
}

/// The value of four hexadecimal digits starting at `p`.
pub open spec fn hex4(s: Seq<u8>, p: int) -> Option<u32> {
    if 0 <= p && p + 4 <= s.len() && hex_val(s[p]) is Some && hex_val(s[p + 1]) is Some && hex_val(
        s[p + 2],
    ) is Some && hex_val(s[p + 3]) is Some {
        Some(
            (hex_val(s[p]).unwrap() * 4096 + hex_val(s[p + 1]).unwrap() * 256 + hex_val(
                s[p + 2],
            ).unwrap() * 16 + hex_val(s[p + 3]).unwrap()) as u32,
        )
    } else {
        None
    }
}

/// A `\uXXXX` escape whose digits start at `p`: the UTF-8 bytes of the
/// escaped scalar and the position just past the escape. A high surrogate
/// must be followed by a second `\uXXXX` low surrogate, and the pair is
/// combined; a lone surrogate is no scalar and fails.
pub open spec fn parse_u_escape(s: Seq<u8>, p: int) -> Option<(Seq<u8>, int)> {
    match hex4(s, p) {
        Option::None => Option::None,
        Option::Some(h1) => if 0xD800 <= h1 <= 0xDBFF {
            if p + 6 <= s.len() && s[p + 4] == 92 && s[p + 5] == 117 {
                match hex4(s, p + 6) {
                    Option::None => Option::None,
                    Option::Some(h2) => if 0xDC00 <= h2 <= 0xDFFF {
                        Some(
                            (
                                encode_scalar(
                                    (0x10000 + (h1 - 0xD800) * 0x400 + (h2 - 0xDC00)) as u32,
                                ),
                                p + 10,
                            ),
                        )
                    } else {
                        None
                    },
                }
            } else {
                None
            }
        } else if 0xDC00 <= h1 <= 0xDFFF {
            None
        } else {
            Some((encode_scalar(h1), p + 4))
        },
    }
}

/// A JSON string body starting right after the opening quote at `i - 1`:
/// the unescaped content and the position just past the closing quote.
/// Control bytes and unknown escapes fail.
pub open spec fn parse_string_body(s: Seq<u8>, i: int) -> Option<(Seq<u8>, int)>
    decreases s.len() - i when 0 <= i <= s.len()
{
    if i >= s.len() {
        None
    } else if s[i] == 34 {
        Some((Seq::empty(), i + 1))
    } else if s[i] == 92 {
        if i + 1 < s.len() {
            if s[i + 1] == 117 {
                match parse_u_escape(s, i + 2) {
                    Some((bytes, j)) => if i < j <= s.len() {
                        match parse_string_body(s, j) {
                            Some((rest, k)) => Some((bytes + rest, k)),
                            None => None,
                        }
                    } else {
                        None
                    },
                    None => None,
                }
            } else {
                match unescaped(s[i + 1]) {
                    Some(c) => match parse_string_body(s, i + 2) {
                        Some((rest, j)) => Some((seq![c] + rest, j)),
                        None => None,
                    },
                    None => None,
                }
            }
        } else {
            None
        }
    } else if s[i] < 32 {
        None
    } else {
        match parse_string_body(s, i + 1) {
            Some((rest, j)) => Some((seq![s[i]] + rest, j)),
            None => None,
        }
    }
}

/// The end of an optional fraction part starting at `i`.
pub open spec fn frac_end(s: Seq<u8>, i: int) -> Option<int> {
    if i < s.len() && s[i] == 46 {
        if i + 1 < s.len() && is_digit(s[i + 1]) {
            Some(digits_end(s, i + 1))
        } else {
            None
        }
    } else {
        Some(i)
    }
}

/// The end of an optional exponent part starting at `i`.
pub open spec fn exp_end(s: Seq<u8>, i: int) -> Option<int> {
    if i < s.len() && (s[i] == 101 || s[i] == 69) {
        let p = if i + 1 < s.len() && (s[i + 1] == 43 || s[i + 1] == 45) {
            i + 2
        } else {
            i + 1
        };
        if p < s.len() && is_digit(s[p]) {
            Some(digits_end(s, p))
        } else {
            None
        }
    } else {
        Some(i)
    }
}

/// The end of a JSON number starting at `i`: optional minus, an integer
/// part without superfluous leading zero, optional fraction and exponent.
pub open spec fn number_end(s: Seq<u8>, i: int) -> Option<int> {
    let p = if i < s.len() && s[i] == 45 {
        i + 1
    } else {
        i
    };
    if p < s.len() && is_digit(s[p]) {
        let ie = if s[p] == 48 {
            p + 1
        } else {
            digits_end(s, p)
        };
        match frac_end(s, ie) {
            Some(fe) => exp_end(s, fe),
            None => None,
        }
    } else {
        None
    }
}

/// A scalar JSON value at `i`: its environment text (string content, or the
/// literal's own text) and the position just past it. Objects and arrays
/// are not flat and yield `None`.
pub open spec fn parse_value(s: Seq<u8>, i: int) -> Option<(Seq<u8>, int)> {
    if i < s.len() && s[i] == 34 {
        parse_string_body(s, i + 1)
    } else if i + 4 <= s.len() && s[i] == 116 && s[i + 1] == 114 && s[i + 2] == 117 && s[i + 3]
        == 101 {
        Some((s.subrange(i, i + 4), i + 4))
    } else if i + 5 <= s.len() && s[i] == 102 && s[i + 1] == 97 && s[i + 2] == 108 && s[i + 3]
        == 115 && s[i + 4] == 101 {
        Some((s.subrange(i, i + 5), i + 5))
    } else if i + 4 <= s.len() && s[i] == 110 && s[i + 1] == 117 && s[i + 2] == 108 && s[i + 3]
        == 108 {
        Some((s.subrange(i, i + 4), i + 4))
    } else if i < s.len() && (s[i] == 45 || is_digit(s[i])) {
        match number_end(s, i) {
            Some(e) => Some((s.subrange(i, e), e)),
            None => None,
        }
    } else {
        None
    }
}

/// The members of an object from position `i` (just after `{` or a comma):
/// the key/value texts in textual order and the position just past `}`.
pub open spec fn parse_members(s: Seq<u8>, i: int) -> Option<(Seq<(Seq<u8>, Seq<u8>)>, int)>
    decreases s.len() - i when 0 <= i <= s.len()
{
    let k = skip_ws(s, i);
    if !(k < s.len() && s[k] == 34) {
        None
    } else {
        match parse_string_body(s, k + 1) {
            None => None,
            Some((key, after_key)) => {
                let c = skip_ws(s, after_key);
                if !(c < s.len() && s[c] == 58) {
                    None
                } else {
                    match parse_value(s, skip_ws(s, c + 1)) {
                        None => None,
                        Some((val, after_val)) => {
                            let e = skip_ws(s, after_val);
                            if e < s.len() && s[e] == 44 && i < e + 1 <= s.len() {
                                match parse_members(s, e + 1) {
                                    Some((rest, end)) => Some((seq![(key, val)] + rest, end)),
                                    None => None,
                                }
                            } else if e < s.len() && s[e] == 125 {
                                Some((seq![(key, val)], e + 1))
                            } else {
                                None
                            }
                        },
                    }
                }
            },
        }
    }
}

/// The whole text as one flat JSON object, surrounded by nothing but
/// whitespace: its key/value texts in textual order.
pub open spec fn parse_flat_object(s: Seq<u8>) -> Option<Seq<(Seq<u8>, Seq<u8>)>> {
    let k = skip_ws(s, 0);
    if !(k < s.len() && s[k] == 123) {
        None
    } else {
        let e = skip_ws(s, k + 1);
        if e < s.len() && s[e] == 125 {
            if skip_ws(s, e + 1) == s.len() {
                Some(Seq::empty())
            } else {
                None
            }
        } else {
            match parse_members(s, k + 1) {
                None => None,
                Some((pairs, end)) => if skip_ws(s, end) == s.len() {
                    Some(pairs)
                } else {
                    None
                },
            }
        }
    }
}

proof fn lemma_digits_end_bounds(s: Seq<u8>, i: int)
    requires
        0 <= i <= s.len(),
    ensures
        i <= digits_end(s, i) <= s.len(),
    decreases s.len() - i,
{
    if i < s.len() && is_digit(s[i]) {
        lemma_digits_end_bounds(s, i + 1)
    }
}

/// Attaches already-read content in front of a string-body result.
spec fn with_prefix(prefix: Seq<u8>, r: Option<(Seq<u8>, int)>) -> Option<(Seq<u8>, int)> {
    match r {
        Some((rest, j)) => Some((prefix + rest, j)),
        None => None,
    }
}

/// Attaches already-read members in front of a member-list result.
spec fn with_pairs(
    prefix: Seq<(Seq<u8>, Seq<u8>)>,
    r: Option<(Seq<(Seq<u8>, Seq<u8>)>, int)>,
) -> Option<(Seq<(Seq<u8>, Seq<u8>)>, int)> {
    match r {
        Some((rest, end)) => Some((prefix + rest, end)),
        None => None,
    }
}

/// The members a parsed vector holds, as sequences.
pub open spec fn pairs_view(v: Seq<(Vec<u8>, Vec<u8>)>) -> Seq<(Seq<u8>, Seq<u8>)> {
    Seq::new(v.len(), |i: int| (v[i].0@, v[i].1@))
}

fn skip_ws_x(s: &[u8], i: usize) -> (r: usize)
    requires
        i <= s@.len(),
    ensures
        r == skip_ws(s@, i as int),
        i <= r <= s@.len(),
{
    let mut j: usize = i;
    while j < s.len() && (s[j] == 32 || s[j] == 9 || s[j] == 10 || s[j] == 13)
        invariant
            i <= j <= s@.len(),
            skip_ws(s@, i as int) == skip_ws(s@, j as int),
        decreases s@.len() - j,
    {
        j = j + 1;
    }
    j
}

fn digits_end_x(s: &[u8], i: usize) -> (r: usize)
    requires
        i <= s@.len(),
    ensures
        r == digits_end(s@, i as int),
        i <= r <= s@.len(),
{
    let mut j: usize = i;
    while j < s.len() && 48 <= s[j] && s[j] <= 57
        invariant
            i <= j <= s@.len(),
            digits_end(s@, i as int) == digits_end(s@, j as int),
        decreases s@.len() - j,
    {
        j = j + 1;
    }
    j
}

fn unescape_x(b: u8) -> (r: Option<u8>)
    ensures
        r == unescaped(b),
{
    if b == 34 {
        Some(34)
    } else if b == 92 {
        Some(92)
    } else if b == 47 {
        Some(47)
    } else if b == 98 {
        Some(8)
    } else if b == 102 {
        Some(12)
    } else if b == 110 {
        Some(10)
    } else if b == 114 {
        Some(13)
    } else if b == 116 {
        Some(9)
    } else {
        None
    }
}

fn hex_val_x(b: u8) -> (r: Option<u32>)
    ensures
        r == hex_val(b),
{
    if 48 <= b && b <= 57 {
        Some((b - 48) as u32)
    } else if 97 <= b && b <= 102 {
        Some((b - 87) as u32)
    } else if 65 <= b && b <= 70 {
        Some((b - 55) as u32)
    } else {
        None
    }
}

fn hex4_x(s: &[u8], p: usize) -> (r: Option<u32>)
    requires
        p <= s@.len(),
    ensures
        r == hex4(s@, p as int),
{
    if s.len() - p < 4 {
        return None;
    }
    let a = match hex_val_x(s[p]) {
        Some(v) => v,
        None => { return None },
    };
    let b = match hex_val_x(s[p + 1]) {
        Some(v) => v,
        None => { return None },
    };
    let c = match hex_val_x(s[p + 2]) {
        Some(v) => v,
        None => { return None },
    };
    let d = match hex_val_x(s[p + 3]) {
        Some(v) => v,
        None => { return None },
    };
    Some(a * 4096 + b * 256 + c * 16 + d)
}

fn encode_scalar_x(v: u32) -> (r: Vec<u8>)
    requires
        is_scalar(v),
    ensures
        r@ == encode_scalar(v),
{
    let mut out: Vec<u8> = Vec::new();
    if v <= 0x7F {
        out.push((v & 0x7F) as u8);
        proof {
            assert(out@ =~= encode_scalar(v));
        }
    } else if v <= 0x7FF {
        out.push(0xC0 | (((v >> 6u32) & 0x1F) as u8));
        out.push(0x80 | ((v & 0x3F) as u8));
        proof {
            assert(out@ =~= encode_scalar(v));
        }
    } else if v <= 0xFFFF {
        out.push(0xE0 | (((v >> 12u32) & 0x0F) as u8));
        out.push(0x80 | (((v >> 6u32) & 0x3F) as u8));
        out.push(0x80 | ((v & 0x3F) as u8));
        proof {
            assert(out@ =~= encode_scalar(v));
        }
    } else {
        out.push(0xF0 | (((v >> 18u32) & 0x7) as u8));
        out.push(0x80 | (((v >> 12u32) & 0x3F) as u8));
        out.push(0x80 | (((v >> 6u32) & 0x3F) as u8));
        out.push(0x80 | ((v & 0x3F) as u8));
        proof {
            assert(out@ =~= encode_scalar(v));
        }
    }
    out
}

fn parse_u_escape_x(s: &[u8], p: usize) -> (r: Option<(Vec<u8>, usize)>)
    requires
        p <= s@.len(),
    ensures
        match r {
            Some((bytes, j)) => parse_u_escape(s@, p as int) == Some((bytes@, j as int)) && p < j
                <= s@.len(),
            None => parse_u_escape(s@, p as int) is None,
        },
{
    let total = s.len();
    let h1 = match hex4_x(s, p) {
        Some(h) => h,
        None => { return None },
    };
    if 0xD800 <= h1 && h1 <= 0xDBFF {
        if total - p >= 6 && s[p + 4] == 92 && s[p + 5] == 117 {
            let h2 = match hex4_x(s, p + 6) {
                Some(h) => h,
                None => { return None },
            };
            if 0xDC00 <= h2 && h2 <= 0xDFFF {
                let cp: u32 = 0x10000 + (h1 - 0xD800) * 0x400 + (h2 - 0xDC00);
                proof {
                    assert(is_scalar(cp));
                    assert(p + 10 <= s@.len());
                }
                Some((encode_scalar_x(cp), p + 10))
            } else {
                None
            }
        } else {
            None
        }
    } else if 0xDC00 <= h1 && h1 <= 0xDFFF {
        None
    } else {
        proof {
            assert(is_scalar(h1));
            assert(p + 4 <= s@.len());
        }
        Some((encode_scalar_x(h1), p + 4))
    }
}

fn parse_string_body_x(s: &[u8], start: usize) -> (r: Option<(Vec<u8>, usize)>)
    requires
        start <= s@.len(),
    ensures
        match r {
            Some((content, j)) => parse_string_body(s@, start as int) == Some((content@, j as int))
                && start < j <= s@.len(),
            None => parse_string_body(s@, start as int) is None,
        },
{
    let mut acc: Vec<u8> = Vec::new();
    let mut i: usize = start;
    loop
        invariant
            start <= i <= s@.len(),
            with_prefix(acc@, parse_string_body(s@, i as int)) == parse_string_body(
                s@,
                start as int,
            ),
        decreases s@.len() - i,
    {
        if i >= s.len() {
            return None;
        }
        let b = s[i];
        if b == 34 {
            proof {
                assert(acc@ + Seq::<u8>::empty() =~= acc@);
            }
            return Some((acc, i + 1));
        } else if b == 92 {
            if i + 1 >= s.len() {
                return None;
            }
            if s[i + 1] == 117 {
                match parse_u_escape_x(s, i + 2) {
                    Some((bytes, j)) => {
                        let ghost old_acc = acc@;
                        let ghost escaped = bytes@;
                        let mut bytes_vec = bytes;
                        acc.append(&mut bytes_vec);
                        proof {
                            if parse_string_body(s@, j as int) is Some {
                                let (rest, k) = parse_string_body(s@, j as int).unwrap();
                                assert(old_acc + (escaped + rest) =~= acc@ + rest);
                            }
                        }
                        i = j;
                    },
                    None => {
                        return None;
                    },
                }
            } else {
                match unescape_x(s[i + 1]) {
                    Some(c) => {
                        let ghost old_acc = acc@;
                        acc.push(c);
                        proof {
                            if parse_string_body(s@, i as int + 2) is Some {
                                let (rest, j) = parse_string_body(s@, i as int + 2).unwrap();
                                assert(old_acc + (seq![c] + rest) =~= acc@ + rest);
                            }
                        }
                        i = i + 2;
                    },
                    None => {
                        return None;
                    },
                }
            }
        } else if b < 32 {
            return None;
        } else {
            let ghost old_acc = acc@;
            acc.push(b);
            proof {
                if parse_string_body(s@, i as int + 1) is Some {
                    let (rest, j) = parse_string_body(s@, i as int + 1).unwrap();
                    assert(old_acc + (seq![b] + rest) =~= acc@ + rest);
                }
            }
            i = i + 1;
        }
    }
}

fn number_end_x(s: &[u8], i: usize) -> (r: Option<usize>)
    requires
        i < s@.len(),
    ensures
        match r {
            Some(e) => number_end(s@, i as int) == Some(e as int) && i < e <= s@.len(),
            None => number_end(s@, i as int) is None,
        },
{
    let p: usize = if s[i] == 45 {
        i + 1
    } else {
        i
    };
    if !(p < s.len() && 48 <= s[p] && s[p] <= 57) {
        return None;
    }
    let ie: usize = if s[p] == 48 {
        p + 1
    } else {
        digits_end_x(s, p)
    };
    proof {
        if s@[p as int] != 48 {
            assert(digits_end(s@, p as int) == digits_end(s@, p as int + 1));
            lemma_digits_end_bounds(s@, p as int + 1);
        }
    }
    let fe: usize = if ie < s.len() && s[ie] == 46 {
        if ie + 1 < s.len() && 48 <= s[ie + 1] && s[ie + 1] <= 57 {
            digits_end_x(s, ie + 1)
        } else {
            return None;
        }
    } else {
        ie
    };
    let e: usize = if fe < s.len() && (s[fe] == 101 || s[fe] == 69) {
        let q: usize = if fe + 1 < s.len() && (s[fe + 1] == 43 || s[fe + 1] == 45) {
            fe + 2
        } else {
            fe + 1
        };
        if q < s.len() && 48 <= s[q] && s[q] <= 57 {
            digits_end_x(s, q)
        } else {
            return None;
        }
    } else {
        fe
    };
    Some(e)
}

fn parse_value_x(s: &[u8], i: usize) -> (r: Option<(Vec<u8>, usize)>)
    requires
        i <= s@.len(),
    ensures
        match r {
            Some((text, e)) => parse_value(s@, i as int) == Some((text@, e as int)) && i < e
                <= s@.len(),
            None => parse_value(s@, i as int) is None,
        },
{
    if i < s.len() && s[i] == 34 {
        parse_string_body_x(s, i + 1)
    } else if s.len() - i >= 4 && s[i] == 116 && s[i + 1] == 114 && s[i + 2] == 117 && s[i + 3]
        == 101 {
        Some((slice_to_vec(slice_subrange(s, i, i + 4)), i + 4))
    } else if s.len() - i >= 5 && s[i] == 102 && s[i + 1] == 97 && s[i + 2] == 108 && s[i + 3]
        == 115 && s[i + 4] == 101 {
        Some((slice_to_vec(slice_subrange(s, i, i + 5)), i + 5))
    } else if s.len() - i >= 4 && s[i] == 110 && s[i + 1] == 117 && s[i + 2] == 108 && s[i + 3]
        == 108 {
        Some((slice_to_vec(slice_subrange(s, i, i + 4)), i + 4))
    } else if i < s.len() && (s[i] == 45 || (48 <= s[i] && s[i] <= 57)) {
        match number_end_x(s, i) {
            Some(e) => Some((slice_to_vec(slice_subrange(s, i, e)), e)),
            None => None,
        }
    } else {
        None
    }
}

fn parse_members_x(s: &[u8], start: usize) -> (r: Option<(Vec<(Vec<u8>, Vec<u8>)>, usize)>)
    requires
        start <= s@.len(),
    ensures
        match r {
            Some((pairs, end)) => parse_members(s@, start as int) == Some(
                (pairs_view(pairs@), end as int),
            ) && end <= s@.len(),
            None => parse_members(s@, start as int) is None,
        },
{
    let mut acc: Vec<(Vec<u8>, Vec<u8>)> = Vec::new();
    let mut i: usize = start;
    loop
        invariant
            start <= i <= s@.len(),
            with_pairs(pairs_view(acc@), parse_members(s@, i as int)) == parse_members(
                s@,
                start as int,
            ),
        decreases s@.len() - i,
    {
        let k = skip_ws_x(s, i);
        if !(k < s.len() && s[k] == 34) {
            return None;
        }
        let (key, after_key) = match parse_string_body_x(s, k + 1) {
            Some(p) => p,
            None => {
                return None;
            },
        };
        let c = skip_ws_x(s, after_key);
        if !(c < s.len() && s[c] == 58) {
            return None;
        }
        let v = skip_ws_x(s, c + 1);
        let (val, after_val) = match parse_value_x(s, v) {
            Some(p) => p,
            None => {
                return None;
            },
        };
        let e = skip_ws_x(s, after_val);
        let ghost old_acc = acc@;
        if e < s.len() && s[e] == 44 {
            acc.push((key, val));
            proof {
                if parse_members(s@, e as int + 1) is Some {
                    let (rest, end) = parse_members(s@, e as int + 1).unwrap();
                    assert(pairs_view(old_acc) + (seq![(key@, val@)] + rest) =~= pairs_view(acc@)
                        + rest);
                } else {
                    assert(pairs_view(old_acc) + seq![(key@, val@)] =~= pairs_view(acc@));
                }
            }
            i = e + 1;
        } else if e < s.len() && s[e] == 125 {
            acc.push((key, val));
            proof {
                assert(pairs_view(old_acc) + seq![(key@, val@)] =~= pairs_view(acc@));
            }
            return Some((acc, e + 1));
        } else {
            return None;
        }
    }
}

/// Parses the whole text as a flat JSON object.
fn parse_flat_object_x(s: &[u8]) -> (r: Option<(Vec<(Vec<u8>, Vec<u8>)>, ())>)
    ensures
        match r {
            Some((pairs, _)) => parse_flat_object(s@) == Some(pairs_view(pairs@)),
            None => parse_flat_object(s@) is None,
        },
{
    let k = skip_ws_x(s, 0);
    if !(k < s.len() && s[k] == 123) {
        return None;
    }
    let e = skip_ws_x(s, k + 1);
    if e < s.len() && s[e] == 125 {
        if skip_ws_x(s, e + 1) == s.len() {
            proof {
                assert(pairs_view(Seq::<(Vec<u8>, Vec<u8>)>::empty()) =~= Seq::<
                    (Seq<u8>, Seq<u8>),
                >::empty());
            }
            Some((Vec::new(), ()))
        } else {
            None
        }
    } else {
        match parse_members_x(s, k + 1) {
            None => None,
            Some((pairs, end)) => {
                if skip_ws_x(s, end) == s.len() {
                    Some((pairs, ()))
                } else {
                    None
                }
            },
        }
    }
}

/// The uppercased form of a text, as `str::to_uppercase` computes it: a
/// function of the characters alone.
pub uninterp spec fn upper_of(s: Seq<char>) -> Seq<char>;

/// Relies on `str::to_uppercase` of std for Unicode-correct uppercasing.
#[verifier::external_body]
fn uppercase(s: &str) -> (r: String)
    ensures
        r@ == upper_of(s@),
{
    s.to_uppercase()
}

/// The environment map the parsed members stand for: keys uppercased,
/// both sides decoded from their UTF-8 bytes, later entries overwriting
/// earlier ones of the same resulting name.
pub open spec fn env_of(pairs: Seq<(Seq<u8>, Seq<u8>)>) -> Map<Seq<char>, Seq<char>>
    decreases pairs.len(),
{
    if pairs.len() == 0 {
        Map::empty()
    } else {
        env_of(pairs.drop_last()).insert(
            upper_of(decode_utf8(pairs.last().0)),
            decode_utf8(pairs.last().1),
        )
    }
}

/// Every member's key and value bytes are valid UTF-8. Content cut from a
/// valid UTF-8 document always is; the builder still checks.
pub open spec fn pairs_utf8(pairs: Seq<(Seq<u8>, Seq<u8>)>) -> bool {
    forall|i: int|
        0 <= i < pairs.len() ==> valid_utf8((#[trigger] pairs[i]).0) && valid_utf8(pairs[i].1)
}

/// The entries of the built environment, as a map.
pub open spec fn entries_map(s: Seq<(String, String)>) -> Map<Seq<char>, Seq<char>>
    decreases s.len(),
{
    if s.len() == 0 {
        Map::empty()
    } else {
        entries_map(s.drop_last()).insert(s.last().0@, s.last().1@)
    }
}

/// Each name appears at most once among the entries.
pub open spec fn names_unique(s: Seq<(String, String)>) -> bool {
    forall|i: int, j: int| 0 <= i < j < s.len() ==> s[i].0@ != s[j].0@
}

proof fn lemma_entries_map_contains(s: Seq<(String, String)>, k: Seq<char>)
    ensures
        entries_map(s).contains_key(k) <==> exists|i: int| 0 <= i < s.len() && s[i].0@ == k,
    decreases s.len(),
{
    if s.len() > 0 {
        lemma_entries_map_contains(s.drop_last(), k);
        if s.last().0@ != k {
            if entries_map(s).contains_key(k) {
                let i = choose|i: int| 0 <= i < s.drop_last().len() && s.drop_last()[i].0@ == k;
                assert(s[i].0@ == k);
            }
            if exists|i: int| 0 <= i < s.len() && s[i].0@ == k {
                let i = choose|i: int| 0 <= i < s.len() && s[i].0@ == k;
                assert(s.drop_last()[i].0@ == k);
            }
        }
    }
}

proof fn lemma_entries_map_update(s: Seq<(String, String)>, i: int, p: (String, String))
    requires
        names_unique(s),
        0 <= i < s.len(),
        p.0@ == s[i].0@,
    ensures
        entries_map(s.update(i, p)) == entries_map(s).insert(p.0@, p.1@),
    decreases s.len(),
{
    let t = s.update(i, p);
    if i == s.len() - 1 {
        assert(t.drop_last() =~= s.drop_last());
        assert(t.last() == p);
        assert(entries_map(t) =~= entries_map(s).insert(p.0@, p.1@));
    } else {
        lemma_entries_map_update(s.drop_last(), i, p);
        assert(t.drop_last() =~= s.drop_last().update(i, p));
        assert(t.last() == s.last());
        assert(s[i].0@ != s.last().0@);
        assert(entries_map(t) =~= entries_map(s).insert(p.0@, p.1@));
    }
}

/// The process environment derived from the recovered configuration:
/// uppercased unique names and their values.
#[derive(Debug)]
pub struct ProcessEnvironment {
    entries: Vec<(String, String)>,
}

impl View for ProcessEnvironment {
    type V = Map<Seq<char>, Seq<char>>;

    closed spec fn view(&self) -> Map<Seq<char>, Seq<char>> {
        entries_map(self.entries@)
    }
}

impl ProcessEnvironment {
    /// Names are unique: the entries really are a map.
    pub closed spec fn wf(&self) -> bool {
        names_unique(self.entries@)
    }

    /// An environment with no variables.
    pub fn new() -> (r: ProcessEnvironment)
        ensures
            r.wf(),
            r@ == Map::<Seq<char>, Seq<char>>::empty(),
    {
        ProcessEnvironment { entries: Vec::new() }
    }

    /// How many variables are set.
    pub fn len(&self) -> (r: usize)
        requires
            self.wf(),
        ensures
            r == self@.dom().len(),
    {
        proof {
            lemma_entries_map_len(self.entries@);
        }
        self.entries.len()
    }

    /// Sets a variable, overwriting an earlier value of the same name.
    pub fn insert_entry(&mut self, name: String, value: String)
        requires
            old(self).wf(),
        ensures
            final(self).wf(),
            final(self)@ == old(self)@.insert(name@, value@),
    {
        let n = self.entries.len();
        let mut j: usize = 0;
        while j < n
            invariant
                self.entries@ == old(self).entries@,
                names_unique(self.entries@),
                n == self.entries@.len(),
                j <= n,
                forall|t: int| 0 <= t < j ==> self.entries@[t].0@ != name@,
            decreases n - j,
        {
            if self.entries[j].0 == name {
                let ghost before = self.entries@;
                let ghost key_view = name@;
                let ghost val_view = value@;
                self.entries[j] = (name, value);
                proof {
                    let p = self.entries@[j as int];
                    assert(p.0@ == key_view && p.1@ == val_view);
                    lemma_entries_map_update(before, j as int, p);
                    assert forall|a: int, b: int|
                        0 <= a < b < self.entries@.len() implies self.entries@[a].0@
                        != self.entries@[b].0@ by {
                        assert(before[a].0@ != before[b].0@);
                    }
                }
                return ;
            }
            j = j + 1;
        }
        self.entries.push((name, value));
        proof {
            assert(self.entries@.drop_last() =~= old(self).entries@);
        }
    }

    /// The variables as name/value pairs; the names are pairwise distinct
    /// and the pairs are exactly the map's entries.
    pub fn entries(&self) -> (r: &Vec<(String, String)>)
        ensures
            r@ == self.entries_seq(),
            entries_map(r@) == self@,
    {
        &self.entries
    }

    /// The stored pairs.
    pub closed spec fn entries_seq(&self) -> Seq<(String, String)> {
        self.entries@
    }
}

proof fn lemma_entries_map_len(s: Seq<(String, String)>)
    requires
        names_unique(s),
    ensures
        entries_map(s).dom().len() == s.len(),
        entries_map(s).dom().finite(),
    decreases s.len(),
{
    if s.len() > 0 {
        lemma_entries_map_len(s.drop_last());
        lemma_entries_map_contains(s.drop_last(), s.last().0@);
        assert(!entries_map(s.drop_last()).contains_key(s.last().0@));
    }
}

/// Converts recovered configuration text into a process environment: the
/// text must parse as a flat JSON object whose member texts are valid
/// UTF-8; every key is uppercased, later duplicates overwrite.
pub fn json_to_env(config: &str) -> (r: Result<ProcessEnvironment, CodecError>)
    ensures
        match parse_flat_object(config.spec_bytes()) {
            Option::None => r == Result::<ProcessEnvironment, CodecError>::Err(
                CodecError::Encoding,
            ),
            Option::Some(pairs) => if pairs_utf8(pairs) {
                r matches Ok(env) && env.wf() && env@ == env_of(pairs)
            } else {
                r == Result::<ProcessEnvironment, CodecError>::Err(CodecError::Encoding)
            },
        },
{
    let bytes = config.as_bytes();
    let (pairs, _) = match parse_flat_object_x(bytes) {
        Some(p) => p,
        None => {
            return Err(CodecError::Encoding);
        },
    };
    let ghost spairs = pairs_view(pairs@);
    let mut env = ProcessEnvironment::new();
    let mut i: usize = 0;
    proof {
        assert(spairs.take(0) =~= Seq::<(Seq<u8>, Seq<u8>)>::empty());
    }
    while i < pairs.len()
        invariant
            i <= pairs@.len(),
            spairs == pairs_view(pairs@),
            parse_flat_object(config.spec_bytes()) == Some(spairs),
            env.wf(),
            env@ == env_of(spairs.take(i as int)),
            forall|t: int|
                0 <= t < i ==> valid_utf8((#[trigger] spairs[t]).0) && valid_utf8(spairs[t].1),
        decreases pairs@.len() - i,
    {
        let key_bytes = slice_to_vec(pairs[i].0.as_slice());
        let val_bytes = slice_to_vec(pairs[i].1.as_slice());
        let key = match string_from_utf8(key_bytes) {
            Some(s) => s,
            None => {
                proof {
                    assert(0 <= i < spairs.len() && !valid_utf8(spairs[i as int].0));
                    assert(!pairs_utf8(spairs));
                }
                return Err(CodecError::Encoding);
            },
        };
        let value = match string_from_utf8(val_bytes) {
            Some(s) => s,
            None => {
                proof {
                    assert(0 <= i < spairs.len() && !valid_utf8(spairs[i as int].1));
                    assert(!pairs_utf8(spairs));
                }
                return Err(CodecError::Encoding);
            },
        };
        let name = uppercase(key.as_str());
        env.insert_entry(name, value);
        proof {
            assert(spairs.take(i as int + 1).drop_last() =~= spairs.take(i as int));
            assert(spairs.take(i as int + 1).last() == spairs[i as int]);
        }
        i = i + 1;
    }
    proof {
        assert(spairs.take(pairs@.len() as int) =~= spairs);
    }
    Ok(env)
}

} // verus!
