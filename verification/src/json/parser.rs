//! A parser for JSON text that follows the grammar to the letter.

use vstd::prelude::*;
use vstd::utf8::{char_u32_cast, is_scalar};
use crate::decimal::{digits_end, digits_value, is_digit};
use crate::json::grammar::{
    escape, hex4, hex_value, is_hex, is_space, parse_document, parse_items, parse_members,
    parse_number, parse_text, parse_value, prepend, skip_spaces, text_tail, text_unit,
    unicode_escape, MAX_DEPTH,
};
use crate::json::value::{
    lemma_list_view, lemma_record_view, list_view, record_view, Json, JsonModel,
};
use crate::strings::chars_of;

verus! {

/// Putting one more item in front is the same as lengthening the front.
pub proof fn lemma_prepend_push<T>(front: Seq<T>, x: T, r: Option<(Seq<T>, int)>)
    ensures
        prepend(front, prepend(seq![x], r)) == prepend(front.push(x), r),
{
    match r {
        None => {},
        Some((rest, end)) => {
            assert(front + (seq![x] + rest) =~= front.push(x) + rest);
        },
    }
}

fn space_at(s: &Vec<char>, i: usize) -> (b: bool)
    requires
        i < s.len(),
    ensures
        b == is_space(s@[i as int]),
{
    let c = s[i];
    c == ' ' || c == '\t' || c == '\n' || c == '\r'
}

fn digit_at(s: &Vec<char>, i: usize) -> (b: bool)
    requires
        i < s.len(),
    ensures
        b == is_digit(s@[i as int]),
{
    let c = s[i];
    '0' <= c && c <= '9'
}

fn past_spaces(s: &Vec<char>, start: usize) -> (end: usize)
    requires
        start <= s.len(),
    ensures
        end == skip_spaces(s@, start as int),
        start <= end <= s.len(),
{
    let mut i: usize = start;
    while i < s.len() && space_at(s, i)
        invariant
            start <= i <= s.len(),
            skip_spaces(s@, start as int) == skip_spaces(s@, i as int),
        decreases s.len() - i,
    {
        i += 1;
    }
    i
}

fn hex_digit(c: char) -> (r: Option<u32>)
    ensures
        r is Some <==> is_hex(c),
        r matches Some(v) ==> v == hex_value(c) && v < 16,
{
    if '0' <= c && c <= '9' {
        Some(c as u32 - 48)
    } else if 'a' <= c && c <= 'f' {
        Some(c as u32 - 87)
    } else if 'A' <= c && c <= 'F' {
        Some(c as u32 - 55)
    } else {
        None
    }
}

fn read_hex4(s: &Vec<char>, i: usize) -> (r: Option<u32>)
    requires
        i <= s.len(),
    ensures
        match r {
            Some(v) => hex4(s@, i as int) == Some(v as int) && v <= 0xFFFF,
            None => hex4(s@, i as int) is None,
        },
{
    if s.len() - i < 4 {
        return None;
    }
    match (hex_digit(s[i]), hex_digit(s[i + 1]), hex_digit(s[i + 2]), hex_digit(s[i + 3])) {
        (Some(a), Some(b), Some(c), Some(d)) => Some(a * 4096 + b * 256 + c * 16 + d),
        _ => None,
    }
}

fn read_unicode_escape(s: &Vec<char>, i: usize) -> (r: Option<(char, usize)>)
    requires
        i <= s.len(),
    ensures
        match r {
            Some((c, end)) => unicode_escape(s@, i as int) == Some((c, end as int)) && i < end
                <= s.len(),
            None => unicode_escape(s@, i as int) is None,
        },
{
    let first: u32 = match read_hex4(s, i) {
        None => { return None; },
        Some(v) => v,
    };
    if 0xD800 <= first && first <= 0xDBFF {
        if s.len() - i < 6 || s[i + 4] != '\\' || s[i + 5] != 'u' {
            return None;
        }
        let second: u32 = match read_hex4(s, i + 6) {
            None => { return None; },
            Some(v) => v,
        };
        if !(0xDC00 <= second && second <= 0xDFFF) {
            return None;
        }
        let code: u32 = 0x10000 + (first - 0xD800) * 0x400 + (second - 0xDC00);
        match char::from_u32(code) {
            Some(c) => {
                proof {
                    char_u32_cast(c, code);
                }
                Some((c, i + 10))
            },
            None => {
                assert(is_scalar(code));
                None
            },
        }
    } else if 0xDC00 <= first && first <= 0xDFFF {
        None
    } else {
        match char::from_u32(first) {
            Some(c) => {
                proof {
                    char_u32_cast(c, first);
                }
                Some((c, i + 4))
            },
            None => {
                assert(is_scalar(first));
                None
            },
        }
    }
}

fn read_escape(s: &Vec<char>, i: usize) -> (r: Option<(char, usize)>)
    requires
        i <= s.len(),
    ensures
        match r {
            Some((c, end)) => escape(s@, i as int) == Some((c, end as int)) && i < end <= s.len(),
            None => escape(s@, i as int) is None,
        },
{
    if i >= s.len() {
        return None;
    }
    let c = s[i];
    if c == '"' {
        Some(('"', i + 1))
    } else if c == '\\' {
        Some(('\\', i + 1))
    } else if c == '/' {
        Some(('/', i + 1))
    } else if c == 'b' {
        Some(('\u{8}', i + 1))
    } else if c == 'f' {
        Some(('\u{c}', i + 1))
    } else if c == 'n' {
        Some(('\n', i + 1))
    } else if c == 'r' {
        Some(('\r', i + 1))
    } else if c == 't' {
        Some(('\t', i + 1))
    } else if c == 'u' {
        read_unicode_escape(s, i + 1)
    } else {
        None
    }
}

fn read_text_unit(s: &Vec<char>, i: usize) -> (r: Option<(char, usize)>)
    requires
        i < s.len(),
    ensures
        match r {
            Some((c, end)) => text_unit(s@, i as int) == Some((c, end as int)) && i < end
                <= s.len(),
            None => text_unit(s@, i as int) is None,
        },
{
    let c = s[i];
    if c == '\\' {
        read_escape(s, i + 1)
    } else if c == '"' || (c as u32) < 0x20 {
        None
    } else {
        Some((c, i + 1))
    }
}

fn read_text(s: &Vec<char>, i: usize) -> (r: Option<(String, usize)>)
    requires
        i <= s.len(),
    ensures
        match r {
            Some((t, end)) => parse_text(s@, i as int) == Some((t@, end as int)) && i < end
                <= s.len(),
            None => parse_text(s@, i as int) is None,
        },
{
    if i >= s.len() || s[i] != '"' {
        return None;
    }
    let mut out = String::new();
    let mut at: usize = i + 1;
    loop
        invariant
            i < at <= s.len(),
            parse_text(s@, i as int) == prepend(out@, text_tail(s@, at as int)),
        decreases s.len() - at,
    {
        if at >= s.len() {
            return None;
        }
        if s[at] == '"' {
            assert(out@ + Seq::<char>::empty() =~= out@);
            return Some((out, at + 1));
        }
        match read_text_unit(s, at) {
            None => {
                return None;
            },
            Some((c, next)) => {
                proof {
                    lemma_prepend_push(out@, c, text_tail(s@, next as int));
                }
                out.push(c);
                at = next;
            },
        }
    }
}

fn read_digits(s: &Vec<char>, start: usize) -> (r: (usize, Option<u64>))
    requires
        start <= s.len(),
    ensures
        r.0 == digits_end(s@, start as int),
        start <= r.0 <= s.len(),
        start < s.len() && is_digit(s@[start as int]) ==> start < r.0,
        r.1 == (if digits_value(s@, start as int, r.0 as int) <= u64::MAX {
            Some(digits_value(s@, start as int, r.0 as int) as u64)
        } else {
            None
        }),
{
    let mut i: usize = start;
    let mut value: Option<u64> = Some(0);
    while i < s.len() && digit_at(s, i)
        invariant
            start <= i <= s.len(),
            digits_end(s@, start as int) == digits_end(s@, i as int),
            i == start || (start < s.len() && start < i),
            value == (if digits_value(s@, start as int, i as int) <= u64::MAX {
                Some(digits_value(s@, start as int, i as int) as u64)
            } else {
                None
            }),
        decreases s.len() - i,
    {
        let d: u64 = (s[i] as u32 - 48) as u64;
        value =
        match value {
            Some(v) => if v <= (u64::MAX - d) / 10 {
                Some(v * 10 + d)
            } else {
                None
            },
            None => None,
        };
        i += 1;
    }
    (i, value)
}

fn read_number(s: &Vec<char>, i: usize) -> (r: Option<(Option<u64>, usize)>)
    requires
        i <= s.len(),
    ensures
        match r {
            Some((n, end)) => parse_number(s@, i as int) == Some((n, end as int)) && i < end
                <= s.len(),
            None => parse_number(s@, i as int) is None,
        },
{
    let negative = i < s.len() && s[i] == '-';
    let a: usize = if negative {
        i + 1
    } else {
        i
    };
    if a >= s.len() || !digit_at(s, a) {
        return None;
    }
    let (run_end, run_value) = read_digits(s, a);
    let (b, whole): (usize, Option<u64>) = if s[a] == '0' {
        (a + 1, Some(0))
    } else {
        (run_end, run_value)
    };
    proof {
        if s@[a as int] == '0' {
            assert(digits_value(s@, a as int, a as int) == 0);
            assert(digits_value(s@, a as int, a + 1) == 0);
        }
    }
    let fraction = b < s.len() && s[b] == '.';
    if fraction && (b + 1 >= s.len() || !digit_at(s, b + 1)) {
        return None;
    }
    let c: usize = if fraction {
        read_digits(s, b + 1).0
    } else {
        b
    };
    let exponent = c < s.len() && (s[c] == 'e' || s[c] == 'E');
    let end: usize = if exponent {
        let d: usize = if c + 1 < s.len() && (s[c + 1] == '+' || s[c + 1] == '-') {
            c + 2
        } else {
            c + 1
        };
        if d >= s.len() || !digit_at(s, d) {
            return None;
        }
        read_digits(s, d).0
    } else {
        c
    };
    let value = if !negative && !fraction && !exponent {
        whole
    } else {
        None
    };
    Some((value, end))
}

fn read_value(s: &Vec<char>, i: usize, depth: u32) -> (r: Option<(Json, usize)>)
    requires
        i <= s.len(),
    ensures
        match r {
            Some((v, end)) => parse_value(s@, i as int, depth as nat) == Some((v@, end as int))
                && i < end <= s.len(),
            None => parse_value(s@, i as int, depth as nat) is None,
        },
    decreases depth, 0nat,
{
    if i >= s.len() {
        return None;
    }
    let c = s[i];
    if c == 'n' {
        if s.len() - i >= 4 && s[i + 1] == 'u' && s[i + 2] == 'l' && s[i + 3] == 'l' {
            Some((Json::Null, i + 4))
        } else {
            None
        }
    } else if c == 't' {
        if s.len() - i >= 4 && s[i + 1] == 'r' && s[i + 2] == 'u' && s[i + 3] == 'e' {
            Some((Json::Flag(true), i + 4))
        } else {
            None
        }
    } else if c == 'f' {
        if s.len() - i >= 5 && s[i + 1] == 'a' && s[i + 2] == 'l' && s[i + 3] == 's' && s[i + 4]
            == 'e' {
            Some((Json::Flag(false), i + 5))
        } else {
            None
        }
    } else if c == '"' {
        match read_text(s, i) {
            None => None,
            Some((t, end)) => Some((Json::Text(t), end)),
        }
    } else if c == '[' {
        let j: usize = past_spaces(s, i + 1);
        if depth == 0 {
            None
        } else if j < s.len() && s[j] == ']' {
            let items: Vec<Json> = Vec::new();
            proof {
                lemma_list_view(items);
                assert(list_view(items@) =~= Seq::empty());
            }
            Some((Json::List(items), j + 1))
        } else {
            match read_items(s, j, depth - 1) {
                None => None,
                Some((items, end)) => {
                    proof {
                        lemma_list_view(items);
                    }
                    Some((Json::List(items), end))
                },
            }
        }
    } else if c == '{' {
        let j: usize = past_spaces(s, i + 1);
        if depth == 0 {
            None
        } else if j < s.len() && s[j] == '}' {
            let members: Vec<(String, Json)> = Vec::new();
            proof {
                lemma_record_view(members);
                assert(record_view(members@) =~= Seq::empty());
            }
            Some((Json::Record(members), j + 1))
        } else {
            match read_members(s, j, depth - 1) {
                None => None,
                Some((members, end)) => {
                    proof {
                        lemma_record_view(members);
                    }
                    Some((Json::Record(members), end))
                },
            }
        }
    } else if c == '-' || ('0' <= c && c <= '9') {
        match read_number(s, i) {
            None => None,
            Some((n, end)) => Some((Json::Number(n), end)),
        }
    } else {
        None
    }
}

fn read_items(s: &Vec<char>, first: usize, depth: u32) -> (r: Option<(Vec<Json>, usize)>)
    requires
        first <= s.len(),
    ensures
        match r {
            Some((items, end)) => parse_items(s@, first as int, depth as nat) == Some(
                (list_view(items@), end as int),
            ) && first < end <= s.len(),
            None => parse_items(s@, first as int, depth as nat) is None,
        },
    decreases depth, 1nat,
{
    let mut items: Vec<Json> = Vec::new();
    let mut at: usize = first;
    assert(list_view(items@) + Seq::<JsonModel>::empty() =~= Seq::empty());
    loop
        invariant
            first <= at <= s.len(),
            parse_items(s@, first as int, depth as nat) == prepend(
                list_view(items@),
                parse_items(s@, at as int, depth as nat),
            ),
        decreases s.len() - at,
    {
        match read_value(s, at, depth) {
            None => {
                return None;
            },
            Some((item, after)) => {
                let j: usize = past_spaces(s, after);
                if j >= s.len() {
                    return None;
                }
                let ghost before = list_view(items@);
                let ghost it = item@;
                if s[j] == ']' {
                    items.push(item);
                    assert(list_view(items@) =~= before + seq![it]);
                    return Some((items, j + 1));
                } else if s[j] == ',' {
                    let next: usize = past_spaces(s, j + 1);
                    proof {
                        lemma_prepend_push(before, it, parse_items(s@, next as int, depth as nat));
                    }
                    items.push(item);
                    assert(list_view(items@) =~= before.push(it));
                    at = next;
                } else {
                    return None;
                }
            },
        }
    }
}

fn read_members(s: &Vec<char>, first: usize, depth: u32) -> (r: Option<
    (Vec<(String, Json)>, usize),
>)
    requires
        first <= s.len(),
    ensures
        match r {
            Some((members, end)) => parse_members(s@, first as int, depth as nat) == Some(
                (record_view(members@), end as int),
            ) && first < end <= s.len(),
            None => parse_members(s@, first as int, depth as nat) is None,
        },
    decreases depth, 1nat,
{
    let mut members: Vec<(String, Json)> = Vec::new();
    let mut at: usize = first;
    assert(record_view(members@) + Seq::<(Seq<char>, JsonModel)>::empty() =~= Seq::empty());
    loop
        invariant
            first <= at <= s.len(),
            parse_members(s@, first as int, depth as nat) == prepend(
                record_view(members@),
                parse_members(s@, at as int, depth as nat),
            ),
        decreases s.len() - at,
    {
        let (key, after_key) = match read_text(s, at) {
            None => {
                return None;
            },
            Some(found) => found,
        };
        let colon: usize = past_spaces(s, after_key);
        if colon >= s.len() || s[colon] != ':' {
            return None;
        }
        let start: usize = past_spaces(s, colon + 1);
        match read_value(s, start, depth) {
            None => {
                return None;
            },
            Some((value, after)) => {
                let j: usize = past_spaces(s, after);
                if j >= s.len() {
                    return None;
                }
                let ghost before = record_view(members@);
                let ghost entry = (key@, value@);
                if s[j] == '}' {
                    members.push((key, value));
                    assert(record_view(members@) =~= before + seq![entry]);
                    return Some((members, j + 1));
                } else if s[j] == ',' {
                    let next: usize = past_spaces(s, j + 1);
                    proof {
                        lemma_prepend_push(
                            before,
                            entry,
                            parse_members(s@, next as int, depth as nat),
                        );
                    }
                    members.push((key, value));
                    assert(record_view(members@) =~= before.push(entry));
                    at = next;
                } else {
                    return None;
                }
            },
        }
    }
}

/// Parses a whole document: `Some` with the value it denotes exactly when
/// `text` is one JSON value, nested no deeper than [`MAX_DEPTH`], with nothing
/// but white space around it.
pub fn parse(text: &str) -> (r: Option<Json>)
    ensures
        match r {
            Some(v) => parse_document(text@) == Some(v@),
            None => parse_document(text@) is None,
        },
{
    let s = chars_of(text);
    let start: usize = past_spaces(&s, 0);
    match read_value(&s, start, MAX_DEPTH) {
        None => None,
        Some((value, after)) => {
            let end: usize = past_spaces(&s, after);
            if end == s.len() {
                Some(value)
            } else {
                None
            }
        },
    }
}

} // verus!
