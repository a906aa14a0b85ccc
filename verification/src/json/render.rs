//! The canonical rendering of a JSON value: no white space, members and items
//! in their order, the shortest numerals, and only the escapes that strings
//! need.

use vstd::prelude::*;
use crate::decimal::{decimal, push_decimal};
use crate::json::value::{
    lemma_list_view, lemma_record_view, list_view, record_view, Json, JsonModel,
};
use crate::strings::chars_of;

verus! {

/// The character for a hexadecimal digit `d`, `0 <= d <= 15`, in lower case.
pub open spec fn hex_char(d: int) -> char {
    if d == 0 {
        '0'
    } else if d == 1 {
        '1'
    } else if d == 2 {
        '2'
    } else if d == 3 {
        '3'
    } else if d == 4 {
        '4'
    } else if d == 5 {
        '5'
    } else if d == 6 {
        '6'
    } else if d == 7 {
        '7'
    } else if d == 8 {
        '8'
    } else if d == 9 {
        '9'
    } else if d == 10 {
        'a'
    } else if d == 11 {
        'b'
    } else if d == 12 {
        'c'
    } else if d == 13 {
        'd'
    } else if d == 14 {
        'e'
    } else {
        'f'
    }
}

/// How one character of a string is written between the quotes.
pub open spec fn escaped(c: char) -> Seq<char> {
    if c == '"' {
        seq!['\\', '"']
    } else if c == '\\' {
        seq!['\\', '\\']
    } else if c == '\n' {
        seq!['\\', 'n']
    } else if c == '\r' {
        seq!['\\', 'r']
    } else if c == '\t' {
        seq!['\\', 't']
    } else if c == '\u{8}' {
        seq!['\\', 'b']
    } else if c == '\u{c}' {
        seq!['\\', 'f']
    } else if (c as u32) < 0x20 {
        seq!['\\', 'u', '0', '0', hex_char(c as u32 as int / 16), hex_char(c as u32 as int % 16)]
    } else {
        seq![c]
    }
}

/// How the content of a string is written between the quotes.
pub open spec fn escape_all(t: Seq<char>) -> Seq<char>
    decreases t.len(),
{
    if t.len() == 0 {
        Seq::empty()
    } else {
        escaped(t[0]) + escape_all(t.drop_first())
    }
}

/// A string with its quotes.
pub open spec fn quoted(t: Seq<char>) -> Seq<char> {
    seq!['"'] + escape_all(t) + seq!['"']
}

/// A comma before every item but the first.
pub open spec fn comma_before(k: int) -> Seq<char> {
    if k > 0 {
        seq![',']
    } else {
        Seq::empty()
    }
}

/// The rendering of a value. A number without a value is written as `null`.
pub open spec fn render(v: JsonModel) -> Seq<char>
    decreases v, 0nat,
{
    match v {
        JsonModel::Null => seq!['n', 'u', 'l', 'l'],
        JsonModel::Flag(b) => if b {
            seq!['t', 'r', 'u', 'e']
        } else {
            seq!['f', 'a', 'l', 's', 'e']
        },
        JsonModel::Number(Some(n)) => decimal(n as nat),
        JsonModel::Number(None) => seq!['n', 'u', 'l', 'l'],
        JsonModel::Text(t) => quoted(t),
        JsonModel::List(items) => seq!['['] + render_items(items, 0) + seq![']'],
        JsonModel::Record(members) => seq!['{'] + render_members(members, 0) + seq!['}'],
    }
}

/// The rendering of the items from the `k`-th on, each but the very first
/// with a comma before it.
pub open spec fn render_items(items: Seq<JsonModel>, k: int) -> Seq<char>
    decreases items, items.len() - k,
{
    if k < 0 || k >= items.len() {
        Seq::empty()
    } else {
        comma_before(k) + render(items[k]) + render_items(items, k + 1)
    }
}

/// The rendering of the members from the `k`-th on, each but the very first
/// with a comma before it.
pub open spec fn render_members(members: Seq<(Seq<char>, JsonModel)>, k: int) -> Seq<char>
    decreases members, members.len() - k,
{
    if k < 0 || k >= members.len() {
        Seq::empty()
    } else {
        comma_before(k) + quoted(members[k].0) + seq![':'] + render(members[k].1) + render_members(
            members,
            k + 1,
        )
    }
}

/// Escaping a text that is one character longer adds that character's escape
/// at the end.
pub proof fn lemma_escape_all_push(t: Seq<char>, c: char)
    ensures
        escape_all(t.push(c)) == escape_all(t) + escaped(c),
    decreases t.len(),
{
    if t.len() == 0 {
        reveal_with_fuel(escape_all, 2);
        assert(t.push(c).drop_first() =~= Seq::<char>::empty());
        assert(escape_all(t.push(c)) =~= escaped(c) + Seq::<char>::empty());
        assert(escape_all(t) + escaped(c) =~= escaped(c));
        assert(escaped(c) + Seq::<char>::empty() =~= escaped(c));
    } else {
        assert(t.push(c).drop_first() =~= t.drop_first().push(c));
        lemma_escape_all_push(t.drop_first(), c);
        assert(escaped(t[0]) + (escape_all(t.drop_first()) + escaped(c)) =~= (escaped(t[0])
            + escape_all(t.drop_first())) + escaped(c));
    }
}

fn hex_to_char(d: u32) -> (c: char)
    requires
        d <= 15,
    ensures
        c == hex_char(d as int),
{
    if d == 0 {
        '0'
    } else if d == 1 {
        '1'
    } else if d == 2 {
        '2'
    } else if d == 3 {
        '3'
    } else if d == 4 {
        '4'
    } else if d == 5 {
        '5'
    } else if d == 6 {
        '6'
    } else if d == 7 {
        '7'
    } else if d == 8 {
        '8'
    } else if d == 9 {
        '9'
    } else if d == 10 {
        'a'
    } else if d == 11 {
        'b'
    } else if d == 12 {
        'c'
    } else if d == 13 {
        'd'
    } else if d == 14 {
        'e'
    } else {
        'f'
    }
}

fn push_escaped(out: &mut String, c: char)
    ensures
        final(out)@ == old(out)@ + escaped(c),
{
    if c == '"' {
        out.push('\\');
        out.push('"');
    } else if c == '\\' {
        out.push('\\');
        out.push('\\');
    } else if c == '\n' {
        out.push('\\');
        out.push('n');
    } else if c == '\r' {
        out.push('\\');
        out.push('r');
    } else if c == '\t' {
        out.push('\\');
        out.push('t');
    } else if c == '\u{8}' {
        out.push('\\');
        out.push('b');
    } else if c == '\u{c}' {
        out.push('\\');
        out.push('f');
    } else if (c as u32) < 0x20 {
        let code: u32 = c as u32;
        out.push('\\');
        out.push('u');
        out.push('0');
        out.push('0');
        out.push(hex_to_char(code / 16));
        out.push(hex_to_char(code % 16));
    } else {
        out.push(c);
    }
    assert(out@ =~= old(out)@ + escaped(c));
}

/// Appends `text` to `out` as a JSON string, quotes included.
pub fn push_quoted(out: &mut String, text: &str)
    ensures
        final(out)@ == old(out)@ + quoted(text@),
{
    let chars = chars_of(text);
    out.push('"');
    let mut i: usize = 0;
    assert(chars@.take(0) =~= Seq::<char>::empty());
    while i < chars.len()
        invariant
            i <= chars.len(),
            chars@ == text@,
            out@ == old(out)@ + seq!['"'] + escape_all(chars@.take(i as int)),
        decreases chars.len() - i,
    {
        let ghost before = out@;
        push_escaped(out, chars[i]);
        proof {
            lemma_escape_all_push(chars@.take(i as int), chars@[i as int]);
            assert(chars@.take(i as int).push(chars@[i as int]) =~= chars@.take(i + 1));
            assert(out@ =~= old(out)@ + seq!['"'] + escape_all(chars@.take(i + 1)));
        }
        i += 1;
    }
    out.push('"');
    proof {
        assert(chars@.take(chars.len() as int) =~= text@);
        assert(out@ =~= old(out)@ + quoted(text@));
    }
}

impl Json {
    /// Appends the rendering of this value to `out`.
    pub fn write_to(&self, out: &mut String)
        ensures
            final(out)@ == old(out)@ + render(self@),
        decreases self,
    {
        match self {
            Json::Null => {
                out.push('n');
                out.push('u');
                out.push('l');
                out.push('l');
                assert(out@ =~= old(out)@ + render(self@));
            },
            Json::Flag(b) => {
                if *b {
                    out.push('t');
                    out.push('r');
                    out.push('u');
                    out.push('e');
                } else {
                    out.push('f');
                    out.push('a');
                    out.push('l');
                    out.push('s');
                    out.push('e');
                }
                assert(out@ =~= old(out)@ + render(self@));
            },
            Json::Number(Some(n)) => {
                push_decimal(out, *n);
            },
            Json::Number(None) => {
                out.push('n');
                out.push('u');
                out.push('l');
                out.push('l');
                assert(out@ =~= old(out)@ + render(self@));
            },
            Json::Text(t) => {
                push_quoted(out, t.as_str());
            },
            Json::List(items) => {
                proof {
                    lemma_list_view(*items);
                }
                let ghost models = list_view(items@);
                out.push('[');
                let mut k: usize = 0;
                while k < items.len()
                    invariant
                        k <= items.len(),
                        models == list_view(items@),
                        self == Json::List(*items),
                        out@ + render_items(models, k as int) == old(out)@ + seq!['[']
                            + render_items(models, 0),
                    decreases items.len() - k,
                {
                    let ghost before = out@;
                    if k > 0 {
                        out.push(',');
                    }
                    proof {
                        assert(decreases_to!(self => self->List_0));
                        assert(decreases_to!(items => items@));
                        assert(decreases_to!(items@ => items@[k as int]));
                    }
                    items[k].write_to(out);
                    proof {
                        assert(out@ =~= before + comma_before(k as int) + render(models[k as int]));
                        assert(out@ + render_items(models, k + 1) =~= before + render_items(
                            models,
                            k as int,
                        ));
                    }
                    k += 1;
                }
                out.push(']');
                proof {
                    assert(render_items(models, k as int) =~= Seq::<char>::empty());
                    assert(out@ =~= old(out)@ + render(self@));
                }
            },
            Json::Record(members) => {
                proof {
                    lemma_record_view(*members);
                }
                let ghost models = record_view(members@);
                out.push('{');
                let mut k: usize = 0;
                while k < members.len()
                    invariant
                        k <= members.len(),
                        models == record_view(members@),
                        self == Json::Record(*members),
                        out@ + render_members(models, k as int) == old(out)@ + seq!['{']
                            + render_members(models, 0),
                    decreases members.len() - k,
                {
                    let ghost before = out@;
                    if k > 0 {
                        out.push(',');
                    }
                    push_quoted(out, members[k].0.as_str());
                    out.push(':');
                    proof {
                        assert(decreases_to!(self => self->Record_0));
                        assert(decreases_to!(members => members@));
                        assert(decreases_to!(members@ => members@[k as int]));
                        assert(decreases_to!(members@[k as int] => members@[k as int].1));
                    }
                    members[k].1.write_to(out);
                    proof {
                        assert(out@ =~= before + comma_before(k as int) + quoted(models[k as int].0)
                            + seq![':'] + render(models[k as int].1));
                        assert(out@ + render_members(models, k + 1) =~= before + render_members(
                            models,
                            k as int,
                        ));
                    }
                    k += 1;
                }
                out.push('}');
                proof {
                    assert(render_members(models, k as int) =~= Seq::<char>::empty());
                    assert(out@ =~= old(out)@ + render(self@));
                }
            },
        }
    }

    /// The rendering of this value.
    pub fn to_text(&self) -> (text: String)
        ensures
            text@ == render(self@),
    {
        let mut text = String::new();
        self.write_to(&mut text);
        assert(text@ =~= render(self@));
        text
    }
}

} // verus!
