//! From a request to the bytes that go on the wire.
//!
//! A query without runner context sends nothing at all, whether it has no
//! request or a request in which nothing is set. A query with context sends
//! one JSON object, `{"runner":{...}}`, whose inner object holds `instance_id`
//! and `timestamp`, each only if it was set.

use vstd::prelude::*;
use vstd::string::StrSliceExecFns;
use vstd::utf8::{
    decode_utf8, encode_utf8, encode_utf8_decode_utf8, encode_utf8_valid_utf8, valid_utf8,
};
use crate::error::{field_name, Field};
use crate::json::grammar::{parse_document, MAX_DEPTH};
use crate::decimal::decimal;
use crate::json::render::{escape_all, quoted, render, render_members};
use crate::json::roundtrip::{exact, lemma_parse_render, lemma_render_opens};
use crate::json::value::{lemma_record_view, record_view, Json, JsonModel};
use crate::request::{sent_context, IdentityRequest};
use crate::strings::lemma_same_bytes_same_text;

verus! {

/// The member for an optional number: one member when it is set, none when
/// it is not.
pub open spec fn optional_member(f: Field, n: Option<u64>) -> Seq<(Seq<char>, JsonModel)> {
    match n {
        Some(x) => seq![(field_name(f), JsonModel::Number(Some(x)))],
        None => Seq::empty(),
    }
}

/// The members of the context object.
pub open spec fn context_members(q: IdentityRequest) -> Seq<(Seq<char>, JsonModel)> {
    optional_member(Field::InstanceId, q.instance_id) + optional_member(
        Field::Timestamp,
        q.timestamp,
    )
}

/// The JSON value that carries a request.
pub open spec fn request_value(q: IdentityRequest) -> JsonModel {
    JsonModel::Record(seq![(field_name(Field::Runner), JsonModel::Record(context_members(q)))])
}

/// The text that is sent for a query.
pub open spec fn request_text(request: Option<IdentityRequest>) -> Seq<char> {
    match sent_context(request) {
        None => Seq::empty(),
        Some(q) => render(request_value(q)),
    }
}

/// The bytes that are sent for a query.
pub open spec fn encode_spec(request: Option<IdentityRequest>) -> Seq<u8> {
    encode_utf8(request_text(request))
}

pub(crate) fn push_optional(members: &mut Vec<(String, Json)>, f: Field, n: Option<u64>)
    ensures
        record_view(final(members)@) == record_view(old(members)@) + optional_member(f, n),
{
    match n {
        Some(x) => {
            members.push((f.name().to_owned(), Json::Number(Some(x))));
            assert(record_view(members@) =~= record_view(old(members)@) + optional_member(f, n));
        },
        None => {
            assert(record_view(members@) =~= record_view(old(members)@) + optional_member(f, n));
        },
    }
}

impl IdentityRequest {
    /// The JSON value that carries this request.
    pub fn to_json(&self) -> (v: Json)
        ensures
            v@ == request_value(*self),
    {
        let mut inner: Vec<(String, Json)> = Vec::new();
        assert(record_view(inner@) =~= Seq::empty());
        push_optional(&mut inner, Field::InstanceId, self.instance_id);
        push_optional(&mut inner, Field::Timestamp, self.timestamp);
        assert(record_view(inner@) =~= context_members(*self));
        let context = Json::Record(inner);
        proof {
            lemma_record_view(inner);
        }
        let mut outer: Vec<(String, Json)> = Vec::new();
        outer.push((Field::Runner.name().to_owned(), context));
        proof {
            lemma_record_view(outer);
            assert(record_view(outer@) =~= seq![
                (field_name(Field::Runner), JsonModel::Record(context_members(*self))),
            ]);
        }
        Json::Record(outer)
    }
}

/// The text that is sent for a query: nothing where there is no context to
/// send, and the canonical rendering of the request's JSON value otherwise.
pub fn encode_text(request: Option<IdentityRequest>) -> (text: String)
    ensures
        text@ == request_text(request),
{
    match request {
        None => String::new(),
        Some(q) => if q.is_empty() {
            String::new()
        } else {
            q.to_json().to_text()
        },
    }
}

/// The bytes that are sent for a query: none where there is no context to
/// send, and the UTF-8 bytes of the request's canonical rendering otherwise.
pub fn encode(request: Option<IdentityRequest>) -> (bytes: Vec<u8>)
    ensures
        bytes@ == encode_spec(request),
        bytes@.len() == 0 <==> sent_context(request) is None,
{
    let text = encode_text(request);
    proof {
        if sent_context(request) is Some {
            lemma_render_opens(request_value(sent_context(request)->0));
            lemma_same_length_zero(text@);
        }
    }
    text.as_str().as_bytes_vec()
}

/// Only the empty text has no bytes.
pub proof fn lemma_same_length_zero(text: Seq<char>)
    ensures
        encode_utf8(text).len() == 0 <==> text.len() == 0,
{
    encode_utf8_decode_utf8(text);
    if encode_utf8(text).len() == 0 {
        assert(encode_utf8(text) =~= encode_utf8(Seq::<char>::empty()));
        lemma_same_bytes_same_text(text, Seq::<char>::empty());
    }
}

/// What is sent for a request with context is a JSON document that says
/// exactly what the request holds: parsing it gives the request's value, in
/// which a field that was not set does not occur.
pub proof fn lemma_request_parses(q: IdentityRequest)
    requires
        q.has_context(),
    ensures
        parse_document(request_text(Some(q))) == Some(request_value(q)),
        decode_utf8(encode_spec(Some(q))) == request_text(Some(q)),
        valid_utf8(encode_spec(Some(q))),
{
    lemma_value_parses(q);
    encode_utf8_valid_utf8(request_text(Some(q)));
    encode_utf8_decode_utf8(request_text(Some(q)));
}

proof fn lemma_value_parses(q: IdentityRequest)
    ensures
        parse_document(render(request_value(q))) == Some(request_value(q)),
{
    let inner = context_members(q);
    let outer = seq![(field_name(Field::Runner), JsonModel::Record(inner))];
    assert forall|k: int| 0 <= k < inner.len() implies exact(
        (#[trigger] inner[k]).1,
        (MAX_DEPTH - 2) as nat,
    ) by {}
    assert(exact(JsonModel::Record(inner), (MAX_DEPTH - 1) as nat));
    assert forall|k: int| 0 <= k < outer.len() implies exact(
        (#[trigger] outer[k]).1,
        (MAX_DEPTH - 1) as nat,
    ) by {}
    lemma_parse_render(request_value(q));
}

/// The members of the context object as they are written.
pub open spec fn context_text(q: IdentityRequest) -> Seq<char> {
    match (q.instance_id, q.timestamp) {
        (Some(id), Some(seconds)) => "\"instance_id\":"@ + decimal(id as nat) + ",\"timestamp\":"@
            + decimal(seconds as nat),
        (Some(id), None) => "\"instance_id\":"@ + decimal(id as nat),
        (None, Some(seconds)) => "\"timestamp\":"@ + decimal(seconds as nat),
        (None, None) => Seq::empty(),
    }
}

/// A text without quotes, backslashes and control characters is written
/// between the quotes as it is.
pub proof fn lemma_plain_text_escapes_to_itself(t: Seq<char>)
    requires
        forall|k: int|
            0 <= k < t.len() ==> (#[trigger] t[k]) != '"' && t[k] != '\\' && (t[k] as u32) >= 0x20,
    ensures
        escape_all(t) == t,
    decreases t.len(),
{
    if t.len() > 0 {
        lemma_plain_text_escapes_to_itself(t.drop_first());
        assert(seq![t[0]] + t.drop_first() =~= t);
    } else {
        assert(t =~= Seq::<char>::empty());
    }
}

/// The text of a request with context, letter by letter: the envelope
/// `{"runner":{` ... `}}` around the fields that are set, `instance_id`
/// before `timestamp`, each with its number in decimal.
pub proof fn lemma_request_text_spelled_out(q: IdentityRequest)
    requires
        q.has_context(),
    ensures
        request_text(Some(q)) == "{\"runner\":{"@ + context_text(q) + "}}"@,
{
    reveal_strlit("runner");
    reveal_strlit("instance_id");
    reveal_strlit("timestamp");
    reveal_strlit("{\"runner\":{");
    reveal_strlit("\"instance_id\":");
    reveal_strlit(",\"timestamp\":");
    reveal_strlit("\"timestamp\":");
    reveal_strlit("}}");
    lemma_plain_text_escapes_to_itself("runner"@);
    lemma_plain_text_escapes_to_itself("instance_id"@);
    lemma_plain_text_escapes_to_itself("timestamp"@);
    let inner = context_members(q);
    let outer = seq![(field_name(Field::Runner), JsonModel::Record(inner))];
    let id_key = quoted("instance_id"@) + seq![':'];
    let ts_key = quoted("timestamp"@) + seq![':'];
    assert(id_key =~= "\"instance_id\":"@);
    assert(ts_key =~= "\"timestamp\":"@);
    assert(seq![','] + ts_key =~= ",\"timestamp\":"@);
    assert(seq!['{'] + quoted("runner"@) + seq![':'] + seq!['{'] =~= "{\"runner\":{"@);
    assert(seq!['}'] + seq!['}'] =~= "}}"@);
    reveal_with_fuel(render_members, 3);
    let body = render_members(inner, 0);
    assert(body =~= context_text(q)) by {
        match (q.instance_id, q.timestamp) {
            (Some(id), Some(seconds)) => {
                assert(inner.len() == 2);
                assert(inner[0] == (field_name(Field::InstanceId), JsonModel::Number(Some(id))));
                assert(inner[1] == (field_name(Field::Timestamp), JsonModel::Number(Some(seconds))));
                assert(body =~= id_key + decimal(id as nat) + (seq![','] + ts_key) + decimal(
                    seconds as nat,
                ));
            },
            (Some(id), None) => {
                assert(inner.len() == 1);
                assert(inner[0] == (field_name(Field::InstanceId), JsonModel::Number(Some(id))));
                assert(body =~= id_key + decimal(id as nat));
            },
            (None, Some(seconds)) => {
                assert(inner.len() == 1);
                assert(inner[0] == (field_name(Field::Timestamp), JsonModel::Number(Some(seconds))));
                assert(body =~= ts_key + decimal(seconds as nat));
            },
            (None, None) => {},
        }
    }
    assert(render(JsonModel::Record(inner)) == seq!['{'] + body + seq!['}']);
    assert(outer[0] == (field_name(Field::Runner), JsonModel::Record(inner)));
    assert(render_members(outer, 0) =~= quoted("runner"@) + seq![':'] + (seq!['{'] + body + seq![
        '}',
    ]));
    assert(render(request_value(q)) =~= seq!['{'] + quoted("runner"@) + seq![':'] + seq!['{']
        + body + (seq!['}'] + seq!['}']));
}

/// Requests that differ are carried by values that differ: nothing of a
/// request is lost on the way into its value.
pub proof fn lemma_request_value_injective(a: IdentityRequest, b: IdentityRequest)
    requires
        request_value(a) == request_value(b),
    ensures
        a == b,
{
    reveal_strlit("instance_id");
    reveal_strlit("timestamp");
    let x = context_members(a);
    let y = context_members(b);
    assert(request_value(a)->Record_0[0].1->Record_0 == x);
    assert(request_value(b)->Record_0[0].1->Record_0 == y);
    assert(x == y);
    assert(field_name(Field::InstanceId).len() != field_name(Field::Timestamp).len());
    assert(x.len() == y.len());
    if x.len() > 0 {
        assert(x[0] == y[0]);
        assert(x[x.len() - 1] == y[y.len() - 1]);
    }
}

/// Queries that send the same bytes carry the same context: the daemon can
/// tell from the bytes what was set, and to what.
pub proof fn lemma_encoding_injective(a: Option<IdentityRequest>, b: Option<IdentityRequest>)
    requires
        encode_spec(a) == encode_spec(b),
    ensures
        sent_context(a) == sent_context(b),
{
    lemma_same_bytes_same_text(request_text(a), request_text(b));
    match (sent_context(a), sent_context(b)) {
        (Some(x), Some(y)) => {
            lemma_value_parses(x);
            lemma_value_parses(y);
            lemma_request_value_injective(x, y);
        },
        (Some(x), None) => {
            lemma_render_opens(request_value(x));
        },
        (None, Some(y)) => {
            lemma_render_opens(request_value(y));
        },
        (None, None) => {},
    }
}

} // verus!
