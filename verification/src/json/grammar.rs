//! The grammar of JSON text, as functions from a text and a position to what
//! stands there.
//!
//! Each function reads one construct that starts at position `i` of `s` and
//! gives what it denotes together with the position just behind it, or `None`
//! where the text does not hold that construct at `i`.

use vstd::prelude::*;
use crate::decimal::{digits_end, digits_value, is_digit};
use crate::json::value::JsonModel;

verus! {

/// How deeply lists and objects may nest in a document that is accepted.
pub const MAX_DEPTH: u32 = 128;

/// The four characters that count as insignificant white space.
pub open spec fn is_space(c: char) -> bool {
    c == ' ' || c == '\t' || c == '\n' || c == '\r'
}

/// The first position at or after `i` that does not hold white space.
pub open spec fn skip_spaces(s: Seq<char>, i: int) -> int
    decreases s.len() - i,
{
    if 0 <= i < s.len() && is_space(s[i]) {
        skip_spaces(s, i + 1)
    } else {
        i
    }
}

/// How many characters of `s` lie at or after `i`.
pub open spec fn left(s: Seq<char>, i: int) -> nat {
    if 0 <= i <= s.len() {
        (s.len() - i) as nat
    } else {
        0
    }
}

/// Puts `front` before the items of a successful result.
pub open spec fn prepend<T>(front: Seq<T>, r: Option<(Seq<T>, int)>) -> Option<(Seq<T>, int)> {
    match r {
        None => None,
        Some((rest, end)) => Some((front + rest, end)),
    }
}

/// True for the hexadecimal digits, in either case.
pub open spec fn is_hex(c: char) -> bool {
    is_digit(c) || ('a' <= c <= 'f') || ('A' <= c <= 'F')
}

/// The number that a hexadecimal digit stands for.
pub open spec fn hex_value(c: char) -> int {
    if is_digit(c) {
        c as u32 as int - 48
    } else if 'a' <= c <= 'f' {
        c as u32 as int - 87
    } else {
        c as u32 as int - 55
    }
}

/// The number written by four hexadecimal digits at `i`.
pub open spec fn hex4(s: Seq<char>, i: int) -> Option<int> {
    if 0 <= i && i + 4 <= s.len() && is_hex(s[i]) && is_hex(s[i + 1]) && is_hex(s[i + 2]) && is_hex(
        s[i + 3],
    ) {
        Some(
            hex_value(s[i]) * 4096 + hex_value(s[i + 1]) * 256 + hex_value(s[i + 2]) * 16
                + hex_value(s[i + 3]),
        )
    } else {
        None
    }
}

/// What follows `\u`: four hexadecimal digits naming a character, or a high
/// surrogate followed by `\u` and a low surrogate, which together name one
/// character beyond the basic plane. A surrogate on its own names nothing.
pub open spec fn unicode_escape(s: Seq<char>, i: int) -> Option<(char, int)> {
    match hex4(s, i) {
        None => None,
        Some(first) => {
            if 0xD800 <= first <= 0xDBFF {
                if i + 6 <= s.len() && s[i + 4] == '\\' && s[i + 5] == 'u' {
                    match hex4(s, i + 6) {
                        None => None,
                        Some(second) => {
                            if 0xDC00 <= second <= 0xDFFF {
                                Some(
                                    (
                                        (0x10000 + (first - 0xD800) * 0x400 + (second
                                            - 0xDC00)) as u32 as char,
                                        i + 10,
                                    ),
                                )
                            } else {
                                None
                            }
                        },
                    }
                } else {
                    None
                }
            } else if 0xDC00 <= first <= 0xDFFF {
                None
            } else {
                Some((first as u32 as char, i + 4))
            }
        },
    }
}

/// What follows a backslash inside a string.
pub open spec fn escape(s: Seq<char>, i: int) -> Option<(char, int)> {
    if !(0 <= i < s.len()) {
        None
    } else if s[i] == '"' {
        Some(('"', i + 1))
    } else if s[i] == '\\' {
        Some(('\\', i + 1))
    } else if s[i] == '/' {
        Some(('/', i + 1))
    } else if s[i] == 'b' {
        Some(('\u{8}', i + 1))
    } else if s[i] == 'f' {
        Some(('\u{c}', i + 1))
    } else if s[i] == 'n' {
        Some(('\n', i + 1))
    } else if s[i] == 'r' {
        Some(('\r', i + 1))
    } else if s[i] == 't' {
        Some(('\t', i + 1))
    } else if s[i] == 'u' {
        unicode_escape(s, i + 1)
    } else {
        None
    }
}

/// One character of a string's content at `i`: an escape sequence, or any
/// character other than a quote, a backslash or a control character.
pub open spec fn text_unit(s: Seq<char>, i: int) -> Option<(char, int)> {
    if !(0 <= i < s.len()) {
        None
    } else if s[i] == '\\' {
        escape(s, i + 1)
    } else if s[i] == '"' || (s[i] as u32) < 0x20 {
        None
    } else {
        Some((s[i], i + 1))
    }
}

/// The rest of a string's content from `i` up to and including the closing
/// quote.
pub open spec fn text_tail(s: Seq<char>, i: int) -> Option<(Seq<char>, int)>
    decreases left(s, i),
{
    if !(0 <= i < s.len()) {
        None
    } else if s[i] == '"' {
        Some((Seq::empty(), i + 1))
    } else {
        match text_unit(s, i) {
            None => None,
            Some((c, next)) => {
                if next <= i || next > s.len() {
                    None
                } else {
                    prepend(seq![c], text_tail(s, next))
                }
            },
        }
    }
}

/// A string: an opening quote at `i`, the content, the closing quote.
pub open spec fn parse_text(s: Seq<char>, i: int) -> Option<(Seq<char>, int)> {
    if 0 <= i < s.len() && s[i] == '"' {
        text_tail(s, i + 1)
    } else {
        None
    }
}

/// A number at `i`: an optional minus sign, an integer part without leading
/// zeros, an optional fraction and an optional exponent. Its value is known
/// only for a numeral that is nothing but an integer part and fits 64 bits.
pub open spec fn parse_number(s: Seq<char>, i: int) -> Option<(Option<u64>, int)> {
    let negative = 0 <= i < s.len() && s[i] == '-';
    let a = if negative {
        i + 1
    } else {
        i
    };
    if !(0 <= a < s.len() && is_digit(s[a])) {
        None
    } else {
        let b = if s[a] == '0' {
            a + 1
        } else {
            digits_end(s, a)
        };
        let fraction = b < s.len() && s[b] == '.';
        if fraction && !(b + 1 < s.len() && is_digit(s[b + 1])) {
            None
        } else {
            let c = if fraction {
                digits_end(s, b + 1)
            } else {
                b
            };
            let exponent = c < s.len() && (s[c] == 'e' || s[c] == 'E');
            let d = if exponent && c + 1 < s.len() && (s[c + 1] == '+' || s[c + 1] == '-') {
                c + 2
            } else {
                c + 1
            };
            if exponent && !(d < s.len() && is_digit(s[d])) {
                None
            } else {
                let end = if exponent {
                    digits_end(s, d)
                } else {
                    c
                };
                let plain = !negative && !fraction && !exponent;
                let n = digits_value(s, a, b);
                Some(
                    (
                        if plain && n <= u64::MAX {
                            Some(n as u64)
                        } else {
                            None
                        },
                        end,
                    ),
                )
            }
        }
    }
}

/// The word `null` stands at `i`.
pub open spec fn word_null(s: Seq<char>, i: int) -> bool {
    0 <= i && i + 4 <= s.len() && s[i] == 'n' && s[i + 1] == 'u' && s[i + 2] == 'l' && s[i + 3]
        == 'l'
}

/// The word `true` stands at `i`.
pub open spec fn word_true(s: Seq<char>, i: int) -> bool {
    0 <= i && i + 4 <= s.len() && s[i] == 't' && s[i + 1] == 'r' && s[i + 2] == 'u' && s[i + 3]
        == 'e'
}

/// The word `false` stands at `i`.
pub open spec fn word_false(s: Seq<char>, i: int) -> bool {
    0 <= i && i + 5 <= s.len() && s[i] == 'f' && s[i + 1] == 'a' && s[i + 2] == 'l' && s[i + 3]
        == 's' && s[i + 4] == 'e'
}

/// A value at `i`, with at most `depth` levels of lists and objects inside
/// one another.
pub open spec fn parse_value(s: Seq<char>, i: int, depth: nat) -> Option<(JsonModel, int)>
    decreases depth, left(s, i), 0nat,
{
    if !(0 <= i < s.len()) {
        None
    } else if s[i] == 'n' {
        if word_null(s, i) {
            Some((JsonModel::Null, i + 4))
        } else {
            None
        }
    } else if s[i] == 't' {
        if word_true(s, i) {
            Some((JsonModel::Flag(true), i + 4))
        } else {
            None
        }
    } else if s[i] == 'f' {
        if word_false(s, i) {
            Some((JsonModel::Flag(false), i + 5))
        } else {
            None
        }
    } else if s[i] == '"' {
        match parse_text(s, i) {
            None => None,
            Some((t, end)) => Some((JsonModel::Text(t), end)),
        }
    } else if s[i] == '[' {
        let j = skip_spaces(s, i + 1);
        if depth == 0 {
            None
        } else if 0 <= j < s.len() && s[j] == ']' {
            Some((JsonModel::List(Seq::empty()), j + 1))
        } else {
            match parse_items(s, j, (depth - 1) as nat) {
                None => None,
                Some((items, end)) => Some((JsonModel::List(items), end)),
            }
        }
    } else if s[i] == '{' {
        let j = skip_spaces(s, i + 1);
        if depth == 0 {
            None
        } else if 0 <= j < s.len() && s[j] == '}' {
            Some((JsonModel::Record(Seq::empty()), j + 1))
        } else {
            match parse_members(s, j, (depth - 1) as nat) {
                None => None,
                Some((members, end)) => Some((JsonModel::Record(members), end)),
            }
        }
    } else if s[i] == '-' || is_digit(s[i]) {
        match parse_number(s, i) {
            None => None,
            Some((n, end)) => Some((JsonModel::Number(n), end)),
        }
    } else {
        None
    }
}

/// The items of a list from the first character of an item at `i` up to and
/// including the closing bracket.
pub open spec fn parse_items(s: Seq<char>, i: int, depth: nat) -> Option<(Seq<JsonModel>, int)>
    decreases depth, left(s, i), 1nat,
{
    match parse_value(s, i, depth) {
        None => None,
        Some((item, after)) => {
            let j = skip_spaces(s, after);
            if !(0 <= i < s.len() && 0 <= j < s.len()) {
                None
            } else if s[j] == ']' {
                Some((seq![item], j + 1))
            } else if s[j] == ',' {
                let next = skip_spaces(s, j + 1);
                if next <= i || next > s.len() {
                    None
                } else {
                    prepend(seq![item], parse_items(s, next, depth))
                }
            } else {
                None
            }
        },
    }
}

/// The members of an object from the opening quote of a key at `i` up to and
/// including the closing brace.
pub open spec fn parse_members(s: Seq<char>, i: int, depth: nat) -> Option<
    (Seq<(Seq<char>, JsonModel)>, int),
>
    decreases depth, left(s, i), 1nat,
{
    match parse_text(s, i) {
        None => None,
        Some((key, after_key)) => {
            let colon = skip_spaces(s, after_key);
            if !(0 <= colon < s.len() && s[colon] == ':') {
                None
            } else {
                let start = skip_spaces(s, colon + 1);
                if start <= i || start > s.len() {
                    None
                } else {
                    match parse_value(s, start, depth) {
                        None => None,
                        Some((value, after)) => {
                            let j = skip_spaces(s, after);
                            if !(0 <= j < s.len()) {
                                None
                            } else if s[j] == '}' {
                                Some((seq![(key, value)], j + 1))
                            } else if s[j] == ',' {
                                let next = skip_spaces(s, j + 1);
                                if next <= i || next > s.len() {
                                    None
                                } else {
                                    prepend(seq![(key, value)], parse_members(s, next, depth))
                                }
                            } else {
                                None
                            }
                        },
                    }
                }
            }
        },
    }
}

/// A whole document: one value with nothing but white space around it.
pub open spec fn parse_document(s: Seq<char>) -> Option<JsonModel> {
    match parse_value(s, skip_spaces(s, 0), MAX_DEPTH as nat) {
        None => None,
        Some((value, after)) => {
            if skip_spaces(s, after) == s.len() {
                Some(value)
            } else {
                None
            }
        },
    }
}

} // verus!
