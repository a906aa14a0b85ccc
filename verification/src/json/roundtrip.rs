//! Reading back what was rendered: the parser recovers every value from its
//! canonical rendering.

use vstd::prelude::*;
use vstd::utf8::char_u32_cast;
use crate::decimal::{
    decimal, digits_value, is_digit, lemma_decimal_shape, lemma_decimal_value, lemma_digits_end,
};
use crate::json::grammar::{
    escape, hex4, hex_value, is_hex, is_space, parse_document, parse_items, parse_members,
    parse_number, parse_text, parse_value, skip_spaces, text_tail, text_unit, unicode_escape,
    MAX_DEPTH,
};
use crate::json::render::{
    escape_all, escaped, hex_char, quoted, render, render_items, render_members,
};
use crate::json::value::JsonModel;

verus! {

/// The text `s` holds `word` at position `i`.
pub open spec fn holds_at(s: Seq<char>, i: int, word: Seq<char>) -> bool {
    0 <= i && i + word.len() <= s.len() && s.subrange(i, i + word.len()) == word
}

/// A value that the rendering loses nothing of and the parser takes at the
/// given depth: every number in it has a value, and lists and objects nest at
/// most `depth` deep.
pub open spec fn exact(v: JsonModel, depth: nat) -> bool
    decreases v,
{
    match v {
        JsonModel::Number(n) => n is Some,
        JsonModel::List(items) => depth > 0 && forall|k: int|
            0 <= k < items.len() ==> exact(#[trigger] items[k], (depth - 1) as nat),
        JsonModel::Record(members) => depth > 0 && forall|k: int|
            0 <= k < members.len() ==> exact((#[trigger] members[k]).1, (depth - 1) as nat),
        _ => true,
    }
}

/// A numeral that ends at `e` cannot be read any further: the text ends
/// there, or what follows is no digit, point or exponent mark.
pub open spec fn numeral_stops(s: Seq<char>, e: int) -> bool {
    e >= s.len() || !(is_digit(s[e]) || s[e] == '.' || s[e] == 'e' || s[e] == 'E')
}

/// The characters with which a rendered value can begin.
pub open spec fn opens_value(c: char) -> bool {
    c == 'n' || c == 't' || c == 'f' || c == '"' || c == '[' || c == '{' || is_digit(c)
}

/// Where a word stands in a text, the text has the word's characters.
pub proof fn lemma_holds_char(s: Seq<char>, i: int, word: Seq<char>, k: int)
    requires
        holds_at(s, i, word),
        0 <= k < word.len(),
    ensures
        s[i + k] == word[k],
{
    assert(s.subrange(i, i + word.len())[k] == s[i + k]);
}

/// Two words stand one behind the other exactly where their concatenation
/// stands.
pub proof fn lemma_holds_concat(s: Seq<char>, i: int, a: Seq<char>, b: Seq<char>)
    ensures
        holds_at(s, i, a + b) <==> (holds_at(s, i, a) && holds_at(s, i + a.len(), b)),
{
    if holds_at(s, i, a + b) {
        let w = a + b;
        assert(s.subrange(i, i + a.len()) =~= a) by {
            assert forall|k: int| 0 <= k < a.len() implies s.subrange(i, i + a.len())[k]
                == a[k] by {
                lemma_holds_char(s, i, w, k);
            }
        }
        assert(s.subrange(i + a.len(), i + a.len() + b.len()) =~= b) by {
            assert forall|k: int| 0 <= k < b.len() implies s.subrange(
                i + a.len(),
                i + a.len() + b.len(),
            )[k] == b[k] by {
                lemma_holds_char(s, i, w, a.len() + k);
            }
        }
    }
    if holds_at(s, i, a) && holds_at(s, i + a.len(), b) {
        assert(s.subrange(i, i + (a + b).len()) =~= a + b) by {
            assert forall|k: int| 0 <= k < (a + b).len() implies s.subrange(i, i + (a + b).len())[k]
                == (a + b)[k] by {
                if k < a.len() {
                    lemma_holds_char(s, i, a, k);
                } else {
                    lemma_holds_char(s, i + a.len(), b, k - a.len());
                }
            }
        }
    }
}

/// Where no white space stands, none is skipped.
pub proof fn lemma_no_space(s: Seq<char>, i: int)
    requires
        !(0 <= i < s.len()) || !is_space(s[i]),
    ensures
        skip_spaces(s, i) == i,
{
}

/// Every hexadecimal digit character stands for the digit it was made from.
pub proof fn lemma_hex_char(d: int)
    requires
        0 <= d <= 15,
    ensures
        is_hex(hex_char(d)),
        hex_value(hex_char(d)) == d,
{
}

/// A rendering is never empty and begins with a character that opens a value.
pub proof fn lemma_render_opens(v: JsonModel)
    ensures
        render(v).len() >= 1,
        opens_value(render(v)[0]),
{
    match v {
        JsonModel::Number(Some(n)) => {
            lemma_decimal_shape(n as nat);
        },
        _ => {},
    }
}

/// The escape of a character reads back as that character.
pub proof fn lemma_read_escaped(s: Seq<char>, i: int, c: char)
    requires
        holds_at(s, i, escaped(c)),
    ensures
        text_unit(s, i) == Some((c, i + escaped(c).len())),
        escaped(c).len() >= 1,
        s[i] != '"',
{
    let e = escaped(c);
    lemma_holds_char(s, i, e, 0);
    if e.len() >= 2 {
        lemma_holds_char(s, i, e, 1);
    }
    if c != '"' && c != '\\' && c != '\n' && c != '\r' && c != '\t' && c != '\u{8}' && c
        != '\u{c}' && (c as u32) < 0x20 {
        let code = c as u32;
        let hi = code as int / 16;
        let lo = code as int % 16;
        lemma_holds_char(s, i, e, 2);
        lemma_holds_char(s, i, e, 3);
        lemma_holds_char(s, i, e, 4);
        lemma_holds_char(s, i, e, 5);
        lemma_hex_char(0);
        lemma_hex_char(hi);
        lemma_hex_char(lo);
        assert(hex4(s, i + 2) == Some(code as int));
        char_u32_cast(c, code);
        assert(unicode_escape(s, i + 2) == Some((c, i + 6)));
        assert(escape(s, i + 1) == Some((c, i + 6)));
    }
}

/// The escaped content of a string, followed by the closing quote, reads
/// back as that content.
pub proof fn lemma_read_content(s: Seq<char>, i: int, t: Seq<char>)
    requires
        holds_at(s, i, escape_all(t) + seq!['"']),
    ensures
        text_tail(s, i) == Some((t, i + escape_all(t).len() + 1)),
    decreases t.len(),
{
    if t.len() == 0 {
        assert(escape_all(t) + seq!['"'] =~= seq!['"']);
        lemma_holds_char(s, i, seq!['"'], 0);
        assert(t =~= Seq::<char>::empty());
    } else {
        let c = t[0];
        let rest = t.drop_first();
        assert(escape_all(t) + seq!['"'] =~= escaped(c) + (escape_all(rest) + seq!['"']));
        lemma_holds_concat(s, i, escaped(c), escape_all(rest) + seq!['"']);
        lemma_read_escaped(s, i, c);
        let next = i + escaped(c).len();
        lemma_read_content(s, next, rest);
        assert(seq![c] + rest =~= t);
    }
}

/// A rendered string reads back as its content.
pub proof fn lemma_read_quoted(s: Seq<char>, i: int, t: Seq<char>)
    requires
        holds_at(s, i, quoted(t)),
    ensures
        parse_text(s, i) == Some((t, i + quoted(t).len())),
        quoted(t).len() >= 2,
        s[i] == '"',
{
    assert(quoted(t) =~= seq!['"'] + (escape_all(t) + seq!['"']));
    lemma_holds_concat(s, i, seq!['"'], escape_all(t) + seq!['"']);
    lemma_holds_char(s, i, seq!['"'], 0);
    lemma_read_content(s, i + 1, t);
}

/// A rendered numeral reads back as its number, provided that the numeral
/// ends where the rendering ends.
pub proof fn lemma_read_decimal(s: Seq<char>, i: int, n: u64)
    requires
        holds_at(s, i, decimal(n as nat)),
        numeral_stops(s, i + decimal(n as nat).len()),
    ensures
        parse_number(s, i) == Some((Some(n), i + decimal(n as nat).len())),
        is_digit(s[i]),
{
    let d = decimal(n as nat);
    let end = i + d.len();
    lemma_decimal_shape(n as nat);
    assert forall|k: int| i <= k < end implies is_digit(#[trigger] s[k]) by {
        lemma_holds_char(s, i, d, k - i);
    }
    lemma_holds_char(s, i, d, 0);
    if s[i] == '0' {
        assert(digits_value(s, i, i) == 0);
        assert(digits_value(s, i, i + 1) == 0);
    } else {
        lemma_digits_end(s, i, end);
        lemma_decimal_value(s, i, n as nat);
    }
}

/// The rendering of a value reads back as that value.
pub proof fn lemma_read_rendered(s: Seq<char>, i: int, v: JsonModel, depth: nat)
    requires
        exact(v, depth),
        holds_at(s, i, render(v)),
        v is Number ==> numeral_stops(s, i + render(v).len()),
    ensures
        parse_value(s, i, depth) == Some((v, i + render(v).len())),
    decreases v, 0nat,
{
    let r = render(v);
    lemma_render_opens(v);
    lemma_holds_char(s, i, r, 0);
    match v {
        JsonModel::Null => {
            lemma_holds_char(s, i, r, 1);
            lemma_holds_char(s, i, r, 2);
            lemma_holds_char(s, i, r, 3);
        },
        JsonModel::Flag(b) => {
            lemma_holds_char(s, i, r, 1);
            lemma_holds_char(s, i, r, 2);
            lemma_holds_char(s, i, r, 3);
            if !b {
                lemma_holds_char(s, i, r, 4);
            }
        },
        JsonModel::Number(n) => {
            lemma_read_decimal(s, i, n->0);
        },
        JsonModel::Text(t) => {
            lemma_read_quoted(s, i, t);
        },
        JsonModel::List(items) => {
            let body = render_items(items, 0);
            assert(r =~= seq!['['] + (body + seq![']']));
            lemma_holds_concat(s, i, seq!['['], body + seq![']']);
            if items.len() == 0 {
                assert(body + seq![']'] =~= seq![']']);
                lemma_holds_char(s, i + 1, seq![']'], 0);
                lemma_no_space(s, i + 1);
                assert(items =~= Seq::<JsonModel>::empty());
            } else {
                let first = render(items[0]);
                lemma_render_opens(items[0]);
                assert(body + seq![']'] =~= first + render_items(items, 1) + seq![']']);
                lemma_holds_concat(s, i + 1, first + render_items(items, 1), seq![']']);
                lemma_holds_concat(s, i + 1, first, render_items(items, 1));
                lemma_holds_char(s, i + 1, first, 0);
                lemma_no_space(s, i + 1);
                lemma_read_rendered_items(s, i + 1, items, 0, (depth - 1) as nat);
                assert(items.skip(0) =~= items);
            }
        },
        JsonModel::Record(members) => {
            let body = render_members(members, 0);
            assert(r =~= seq!['{'] + (body + seq!['}']));
            lemma_holds_concat(s, i, seq!['{'], body + seq!['}']);
            if members.len() == 0 {
                assert(body + seq!['}'] =~= seq!['}']);
                lemma_holds_char(s, i + 1, seq!['}'], 0);
                lemma_no_space(s, i + 1);
                assert(members =~= Seq::<(Seq<char>, JsonModel)>::empty());
            } else {
                let key = quoted(members[0].0);
                let tail = seq![':'] + render(members[0].1) + render_members(members, 1) + seq![
                    '}',
                ];
                assert(body + seq!['}'] =~= key + tail);
                lemma_holds_concat(s, i + 1, key, tail);
                lemma_read_quoted(s, i + 1, members[0].0);
                lemma_no_space(s, i + 1);
                lemma_read_rendered_members(s, i + 1, members, 0, (depth - 1) as nat);
                assert(members.skip(0) =~= members);
            }
        },
    }
}

/// The rendering of the items from the `k`-th on, with the closing bracket
/// behind it, reads back as those items.
pub proof fn lemma_read_rendered_items(
    s: Seq<char>,
    i: int,
    items: Seq<JsonModel>,
    k: int,
    depth: nat,
)
    requires
        0 <= k < items.len(),
        forall|j: int| 0 <= j < items.len() ==> exact(#[trigger] items[j], depth),
        holds_at(s, i, render(items[k]) + render_items(items, k + 1) + seq![']']),
    ensures
        parse_items(s, i, depth) == Some(
            (
                items.skip(k),
                i + render(items[k]).len() + render_items(items, k + 1).len() + 1,
            ),
        ),
    decreases items, items.len() - k,
{
    let first = render(items[k]);
    let rest = render_items(items, k + 1);
    let after = i + first.len();
    lemma_render_opens(items[k]);
    assert(first + rest + seq![']'] =~= first + (rest + seq![']']));
    lemma_holds_concat(s, i, first, rest + seq![']']);
    if k == items.len() - 1 {
        assert(rest + seq![']'] =~= seq![']']);
        lemma_holds_char(s, after, seq![']'], 0);
        lemma_read_rendered(s, i, items[k], depth);
        lemma_no_space(s, after);
        assert(items.skip(k) =~= seq![items[k]]);
    } else {
        let next = render(items[k + 1]);
        let more = render_items(items, k + 2);
        lemma_render_opens(items[k + 1]);
        assert(rest + seq![']'] =~= seq![','] + (next + more + seq![']']));
        lemma_holds_concat(s, after, seq![','], next + more + seq![']']);
        lemma_holds_char(s, after, seq![','], 0);
        lemma_read_rendered(s, i, items[k], depth);
        lemma_no_space(s, after);
        assert(next + more + seq![']'] =~= next + (more + seq![']']));
        lemma_holds_concat(s, after + 1, next, more + seq![']']);
        lemma_holds_char(s, after + 1, next, 0);
        lemma_no_space(s, after + 1);
        lemma_read_rendered_items(s, after + 1, items, k + 1, depth);
        assert(seq![items[k]] + items.skip(k + 1) =~= items.skip(k));
    }
}

/// The rendering of the members from the `k`-th on, with the closing brace
/// behind it, reads back as those members.
pub proof fn lemma_read_rendered_members(
    s: Seq<char>,
    i: int,
    members: Seq<(Seq<char>, JsonModel)>,
    k: int,
    depth: nat,
)
    requires
        0 <= k < members.len(),
        forall|j: int| 0 <= j < members.len() ==> exact((#[trigger] members[j]).1, depth),
        holds_at(
            s,
            i,
            quoted(members[k].0) + (seq![':'] + render(members[k].1) + render_members(
                members,
                k + 1,
            ) + seq!['}']),
        ),
    ensures
        parse_members(s, i, depth) == Some(
            (
                members.skip(k),
                i + quoted(members[k].0).len() + 1 + render(members[k].1).len() + render_members(
                    members,
                    k + 1,
                ).len() + 1,
            ),
        ),
    decreases members, members.len() - k,
{
    let key = quoted(members[k].0);
    let value = render(members[k].1);
    let rest = render_members(members, k + 1);
    lemma_holds_concat(s, i, key, seq![':'] + value + rest + seq!['}']);
    lemma_read_quoted(s, i, members[k].0);
    let colon = i + key.len();
    assert(seq![':'] + value + rest + seq!['}'] =~= seq![':'] + (value + (rest + seq!['}'])));
    lemma_holds_concat(s, colon, seq![':'], value + (rest + seq!['}']));
    lemma_holds_char(s, colon, seq![':'], 0);
    lemma_no_space(s, colon);
    let start = colon + 1;
    lemma_holds_concat(s, start, value, rest + seq!['}']);
    lemma_render_opens(members[k].1);
    lemma_holds_char(s, start, value, 0);
    lemma_no_space(s, start);
    let after = start + value.len();
    if k == members.len() - 1 {
        assert(rest + seq!['}'] =~= seq!['}']);
        lemma_holds_char(s, after, seq!['}'], 0);
        lemma_read_rendered(s, start, members[k].1, depth);
        lemma_no_space(s, after);
        assert(members.skip(k) =~= seq![members[k]]);
    } else {
        let next_key = quoted(members[k + 1].0);
        let next_tail = seq![':'] + render(members[k + 1].1) + render_members(members, k + 2)
            + seq!['}'];
        assert(rest + seq!['}'] =~= seq![','] + (next_key + next_tail));
        lemma_holds_concat(s, after, seq![','], next_key + next_tail);
        lemma_holds_char(s, after, seq![','], 0);
        lemma_read_rendered(s, start, members[k].1, depth);
        lemma_no_space(s, after);
        lemma_holds_concat(s, after + 1, next_key, next_tail);
        lemma_read_quoted(s, after + 1, members[k + 1].0);
        lemma_no_space(s, after + 1);
        lemma_read_rendered_members(s, after + 1, members, k + 1, depth);
        assert(seq![members[k]] + members.skip(k + 1) =~= members.skip(k));
    }
}

/// Parsing the rendering of a value gives the value back, for every value
/// whose numbers all have a value and which nests no deeper than the parser
/// goes.
pub proof fn lemma_parse_render(v: JsonModel)
    requires
        exact(v, MAX_DEPTH as nat),
    ensures
        parse_document(render(v)) == Some(v),
{
    let s = render(v);
    lemma_render_opens(v);
    assert(s.subrange(0, s.len() as int) =~= s);
    lemma_no_space(s, 0);
    lemma_read_rendered(s, 0, v, MAX_DEPTH as nat);
    lemma_no_space(s, s.len() as int);
}

} // verus!
