//! The reply as the daemon writes it, and what decoding makes of it.
//!
//! A response can be turned back into the JSON object that carries it: the
//! flat object for a response without a runner record, the nested one for a
//! response with it. Decoding that object, rendered and put into bytes, gives
//! the response back.

use vstd::prelude::*;
use vstd::utf8::{encode_utf8, encode_utf8_decode_utf8, encode_utf8_valid_utf8};
use crate::decode::{
    decode_spec, echo_field, find_from, identity_part, lookup, process_details, response_of,
    runner_of, text_field,
};
use crate::encode::{optional_member, push_optional};
use crate::error::{field_name, Field, ProtocolError};
use crate::json::grammar::MAX_DEPTH;
use crate::json::render::render;
use crate::json::roundtrip::{exact, lemma_parse_render};
use crate::json::value::{lemma_record_view, record_view, Json, JsonModel};
use crate::request::{sent_context, IdentityRequest};
use crate::response::{IdentityResponse, IdentityView, RunnerInfo, RunnerView};

verus! {

/// The member that carries a text under the key of `f`.
pub open spec fn text_member(f: Field, t: Seq<char>) -> (Seq<char>, JsonModel) {
    (field_name(f), JsonModel::Text(t))
}

/// The member that carries a number under the key of `f`.
pub open spec fn number_member(f: Field, n: u32) -> (Seq<char>, JsonModel) {
    (field_name(f), JsonModel::Number(Some(n as u64)))
}

/// The four members that every reply begins with.
pub open spec fn identity_members(v: IdentityView) -> Seq<(Seq<char>, JsonModel)> {
    seq![
        text_member(Field::Identity, v.identity),
        text_member(Field::IdmUrl, v.idm_url),
        text_member(Field::ConfigUrl, v.config_url),
        text_member(Field::Token, v.token),
    ]
}

/// The four members that describe the process.
pub open spec fn process_members(process: Seq<char>, pid: u32, uid: u32, gid: u32) -> Seq<
    (Seq<char>, JsonModel),
> {
    seq![
        text_member(Field::Process, process),
        number_member(Field::Pid, pid),
        number_member(Field::Uid, uid),
        number_member(Field::Gid, gid),
    ]
}

/// The members of a runner record: the host, the process, and the context
/// as far as there is any.
pub open spec fn runner_members(r: RunnerView) -> Seq<(Seq<char>, JsonModel)> {
    seq![text_member(Field::Hostname, r.hostname)] + process_members(
        r.process,
        r.pid,
        r.uid,
        r.gid,
    ) + optional_member(Field::InstanceId, r.instance_id) + optional_member(
        Field::Timestamp,
        r.timestamp,
    )
}

/// The members of a reply.
pub open spec fn reply_members(v: IdentityView) -> Seq<(Seq<char>, JsonModel)> {
    match v.runner {
        None => identity_members(v) + process_members(v.process, v.pid, v.uid, v.gid),
        Some(r) => identity_members(v) + seq![
            (field_name(Field::Runner), JsonModel::Record(runner_members(r))),
        ],
    }
}

/// The JSON object that carries a response.
pub open spec fn reply_value(v: IdentityView) -> JsonModel {
    JsonModel::Record(reply_members(v))
}

/// The bytes that carry a response.
pub open spec fn reply_bytes(v: IdentityView) -> Seq<u8> {
    encode_utf8(render(reply_value(v)))
}

/// What the daemon answers to a query: the flat reply where no context was
/// sent, and otherwise the nested reply whose runner record names the host
/// and echoes the context as it was sent.
pub open spec fn answer(
    known: IdentityView,
    hostname: Seq<char>,
    request: Option<IdentityRequest>,
) -> IdentityView {
    match sent_context(request) {
        None => known.flat(),
        Some(q) => IdentityView {
            runner: Some(
                RunnerView {
                    hostname,
                    process: known.process,
                    pid: known.pid,
                    uid: known.uid,
                    gid: known.gid,
                    instance_id: q.instance_id,
                    timestamp: q.timestamp,
                },
            ),
            ..known
        },
    }
}

fn push_text(members: &mut Vec<(String, Json)>, f: Field, t: &String)
    ensures
        record_view(final(members)@) == record_view(old(members)@).push(text_member(f, t@)),
{
    members.push((f.name().to_owned(), Json::Text(t.clone())));
    assert(record_view(members@) =~= record_view(old(members)@).push(text_member(f, t@)));
}

fn push_number(members: &mut Vec<(String, Json)>, f: Field, n: u32)
    ensures
        record_view(final(members)@) == record_view(old(members)@).push(number_member(f, n)),
{
    members.push((f.name().to_owned(), Json::Number(Some(n as u64))));
    assert(record_view(members@) =~= record_view(old(members)@).push(number_member(f, n)));
}

fn push_process(members: &mut Vec<(String, Json)>, process: &String, pid: u32, uid: u32, gid: u32)
    ensures
        record_view(final(members)@) == record_view(old(members)@) + process_members(
            process@,
            pid,
            uid,
            gid,
        ),
{
    push_text(members, Field::Process, process);
    push_number(members, Field::Pid, pid);
    push_number(members, Field::Uid, uid);
    push_number(members, Field::Gid, gid);
    assert(record_view(members@) =~= record_view(old(members)@) + process_members(
        process@,
        pid,
        uid,
        gid,
    ));
}

impl RunnerInfo {
    /// The JSON object that carries this runner record.
    pub fn to_json(&self) -> (v: Json)
        ensures
            v@ == JsonModel::Record(runner_members(self@)),
    {
        let mut members: Vec<(String, Json)> = Vec::new();
        assert(record_view(members@) =~= Seq::empty());
        push_text(&mut members, Field::Hostname, &self.hostname);
        push_process(&mut members, &self.process, self.pid, self.uid, self.gid);
        push_optional(&mut members, Field::InstanceId, self.instance_id);
        push_optional(&mut members, Field::Timestamp, self.timestamp);
        proof {
            assert(record_view(members@) =~= runner_members(self@));
            lemma_record_view(members);
        }
        Json::Record(members)
    }
}

impl IdentityResponse {
    /// The JSON object that carries this response: the flat one where there
    /// is no runner record, the nested one where there is. Absent context
    /// fields are left out.
    pub fn to_json(&self) -> (v: Json)
        ensures
            v@ == reply_value(self@),
    {
        let mut members: Vec<(String, Json)> = Vec::new();
        assert(record_view(members@) =~= Seq::empty());
        push_text(&mut members, Field::Identity, &self.identity);
        push_text(&mut members, Field::IdmUrl, &self.idm_url);
        push_text(&mut members, Field::ConfigUrl, &self.config_url);
        push_text(&mut members, Field::Token, &self.token);
        assert(record_view(members@) =~= identity_members(self@));
        match &self.runner {
            None => {
                push_process(&mut members, &self.process, self.pid, self.uid, self.gid);
            },
            Some(runner) => {
                let nested = runner.to_json();
                let ghost before = record_view(members@);
                members.push((Field::Runner.name().to_owned(), nested));
                assert(record_view(members@) =~= before.push(
                    (field_name(Field::Runner), JsonModel::Record(runner_members(runner@))),
                ));
            },
        }
        proof {
            assert(record_view(members@) =~= reply_members(self@));
            lemma_record_view(members);
        }
        Json::Record(members)
    }
}

/// No two fields travel under the same key.
pub proof fn lemma_names_differ(a: Field, b: Field)
    requires
        a != b,
    ensures
        field_name(a) != field_name(b),
{
    reveal_strlit("identity");
    reveal_strlit("idm_url");
    reveal_strlit("config_url");
    reveal_strlit("token");
    reveal_strlit("runner");
    reveal_strlit("hostname");
    reveal_strlit("process");
    reveal_strlit("pid");
    reveal_strlit("uid");
    reveal_strlit("gid");
    reveal_strlit("instance_id");
    reveal_strlit("timestamp");
    let x = field_name(a);
    let y = field_name(b);
    assert(x.len() != y.len() || x[0] != y[0]);
}

/// The member at `k` is the one that is found when no earlier member has
/// its key.
pub proof fn lemma_lookup_at(members: Seq<(Seq<char>, JsonModel)>, key: Seq<char>, k: int)
    requires
        0 <= k < members.len(),
        members[k].0 == key,
        forall|j: int| 0 <= j < k ==> (#[trigger] members[j]).0 != key,
    ensures
        lookup(members, key) == Some(members[k].1),
{
    lemma_find_from(members, key, 0, k);
}

proof fn lemma_find_from(members: Seq<(Seq<char>, JsonModel)>, key: Seq<char>, i: int, k: int)
    requires
        0 <= i <= k < members.len(),
        members[k].0 == key,
        forall|j: int| i <= j < k ==> (#[trigger] members[j]).0 != key,
    ensures
        find_from(members, key, i) == Some(k),
    decreases k - i,
{
    if i < k {
        lemma_find_from(members, key, i + 1, k);
    }
}

/// Nothing is found under a key that no member has.
pub proof fn lemma_lookup_none(members: Seq<(Seq<char>, JsonModel)>, key: Seq<char>)
    requires
        forall|j: int| 0 <= j < members.len() ==> (#[trigger] members[j]).0 != key,
    ensures
        lookup(members, key) is None,
{
    lemma_find_none(members, key, 0);
}

proof fn lemma_find_none(members: Seq<(Seq<char>, JsonModel)>, key: Seq<char>, i: int)
    requires
        0 <= i,
        forall|j: int| i <= j < members.len() ==> (#[trigger] members[j]).0 != key,
    ensures
        find_from(members, key, i) is None,
    decreases members.len() - i,
{
    if i < members.len() {
        lemma_find_none(members, key, i + 1);
    }
}

/// The keys of `members`, given as the fields they stand for, are the keys of
/// those fields.
pub open spec fn keyed_by(members: Seq<(Seq<char>, JsonModel)>, fields: Seq<Field>) -> bool {
    &&& members.len() == fields.len()
    &&& forall|j: int| 0 <= j < fields.len() ==> (#[trigger] members[j]).0 == field_name(fields[j])
}

/// No field occurs twice.
pub open spec fn distinct(fields: Seq<Field>) -> bool {
    forall|i: int, j: int| 0 <= i < j < fields.len() ==> fields[i] != fields[j]
}

/// In an object whose keys are those of distinct fields, each field is found
/// where it stands, and a field that is not among them is not found.
pub proof fn lemma_lookup_keyed(members: Seq<(Seq<char>, JsonModel)>, fields: Seq<Field>, f: Field)
    requires
        keyed_by(members, fields),
        distinct(fields),
    ensures
        forall|k: int|
            0 <= k < fields.len() && fields[k] == f ==> lookup(members, field_name(f)) == Some(
                (#[trigger] members[k]).1,
            ),
        (forall|k: int| 0 <= k < fields.len() ==> fields[k] != f) ==> lookup(
            members,
            field_name(f),
        ) is None,
{
    assert forall|k: int| 0 <= k < fields.len() && fields[k] == f implies lookup(
        members,
        field_name(f),
    ) == Some((#[trigger] members[k]).1) by {
        assert forall|j: int| 0 <= j < k implies (#[trigger] members[j]).0 != field_name(f) by {
            lemma_names_differ(fields[j], f);
        }
        lemma_lookup_at(members, field_name(f), k);
    }
    if forall|k: int| 0 <= k < fields.len() ==> fields[k] != f {
        assert forall|j: int| 0 <= j < members.len() implies (#[trigger] members[j]).0
            != field_name(f) by {
            lemma_names_differ(fields[j], f);
        }
        lemma_lookup_none(members, field_name(f));
    }
}

/// The fields of a runner record, in the order in which they are written.
pub open spec fn runner_fields(r: RunnerView) -> Seq<Field> {
    seq![Field::Hostname, Field::Process, Field::Pid, Field::Uid, Field::Gid] + (if r.instance_id
        is Some {
        seq![Field::InstanceId]
    } else {
        Seq::empty()
    }) + (if r.timestamp is Some {
        seq![Field::Timestamp]
    } else {
        Seq::empty()
    })
}

/// Reading a runner record that was written gives it back.
pub proof fn lemma_runner_read_back(r: RunnerView)
    ensures
        runner_of(JsonModel::Record(runner_members(r))) == Ok::<RunnerView, ProtocolError>(r),
{
    let members = runner_members(r);
    let fields = runner_fields(r);
    assert(keyed_by(members, fields));
    assert(distinct(fields));
    lemma_lookup_keyed(members, fields, Field::Hostname);
    lemma_lookup_keyed(members, fields, Field::Process);
    lemma_lookup_keyed(members, fields, Field::Pid);
    lemma_lookup_keyed(members, fields, Field::Uid);
    lemma_lookup_keyed(members, fields, Field::Gid);
    lemma_lookup_keyed(members, fields, Field::InstanceId);
    lemma_lookup_keyed(members, fields, Field::Timestamp);
    assert(members[0].1 == JsonModel::Text(r.hostname));
    assert(members[1].1 == JsonModel::Text(r.process));
    assert(members[2].1 == JsonModel::Number(Some(r.pid as u64)));
    assert(members[3].1 == JsonModel::Number(Some(r.uid as u64)));
    assert(members[4].1 == JsonModel::Number(Some(r.gid as u64)));
    assert(fields[0] == Field::Hostname);
    assert(fields[1] == Field::Process);
    assert(fields[2] == Field::Pid);
    assert(fields[3] == Field::Uid);
    assert(fields[4] == Field::Gid);
    assert(text_field(members, Field::Hostname) == Ok::<Seq<char>, ProtocolError>(r.hostname));
    assert(process_details(members) == Ok::<(Seq<char>, u32, u32, u32), ProtocolError>(
        (r.process, r.pid, r.uid, r.gid),
    ));
    if r.instance_id is Some {
        assert(fields[5] == Field::InstanceId);
        assert(members[5].1 == JsonModel::Number(r.instance_id));
        if r.timestamp is Some {
            assert(fields[6] == Field::Timestamp);
            assert(members[6].1 == JsonModel::Number(r.timestamp));
        }
    } else {
        if r.timestamp is Some {
            assert(fields[5] == Field::Timestamp);
            assert(members[5].1 == JsonModel::Number(r.timestamp));
        }
    }
    assert(echo_field(members, Field::InstanceId) == Ok::<Option<u64>, ProtocolError>(
        r.instance_id,
    ));
    assert(echo_field(members, Field::Timestamp) == Ok::<Option<u64>, ProtocolError>(r.timestamp));
}

/// Reading a reply that was written gives the response back: the value that
/// carries a valid response denotes that response.
pub proof fn lemma_reply_read_back(v: IdentityView)
    requires
        v.wf(),
    ensures
        response_of(reply_value(v)) == Ok::<IdentityView, ProtocolError>(v),
{
    let members = reply_members(v);
    let fields = match v.runner {
        None => seq![
            Field::Identity,
            Field::IdmUrl,
            Field::ConfigUrl,
            Field::Token,
            Field::Process,
            Field::Pid,
            Field::Uid,
            Field::Gid,
        ],
        Some(_) => seq![
            Field::Identity,
            Field::IdmUrl,
            Field::ConfigUrl,
            Field::Token,
            Field::Runner,
        ],
    };
    assert(keyed_by(members, fields));
    assert(distinct(fields));
    lemma_lookup_keyed(members, fields, Field::Identity);
    lemma_lookup_keyed(members, fields, Field::IdmUrl);
    lemma_lookup_keyed(members, fields, Field::ConfigUrl);
    lemma_lookup_keyed(members, fields, Field::Token);
    lemma_lookup_keyed(members, fields, Field::Runner);
    assert(fields[0] == Field::Identity);
    assert(fields[1] == Field::IdmUrl);
    assert(fields[2] == Field::ConfigUrl);
    assert(fields[3] == Field::Token);
    assert(members[0].1 == JsonModel::Text(v.identity));
    assert(members[1].1 == JsonModel::Text(v.idm_url));
    assert(members[2].1 == JsonModel::Text(v.config_url));
    assert(members[3].1 == JsonModel::Text(v.token));
    assert(identity_part(members) == Ok::<
        (Seq<char>, Seq<char>, Seq<char>, Seq<char>),
        ProtocolError,
    >((v.identity, v.idm_url, v.config_url, v.token)));
    match v.runner {
        None => {
            lemma_lookup_keyed(members, fields, Field::Process);
            lemma_lookup_keyed(members, fields, Field::Pid);
            lemma_lookup_keyed(members, fields, Field::Uid);
            lemma_lookup_keyed(members, fields, Field::Gid);
            assert(fields[4] == Field::Process);
            assert(fields[5] == Field::Pid);
            assert(fields[6] == Field::Uid);
            assert(fields[7] == Field::Gid);
            assert(members[4].1 == JsonModel::Text(v.process));
            assert(members[5].1 == JsonModel::Number(Some(v.pid as u64)));
            assert(members[6].1 == JsonModel::Number(Some(v.uid as u64)));
            assert(members[7].1 == JsonModel::Number(Some(v.gid as u64)));
            assert(process_details(members) == Ok::<(Seq<char>, u32, u32, u32), ProtocolError>(
                (v.process, v.pid, v.uid, v.gid),
            ));
        },
        Some(r) => {
            assert(fields[4] == Field::Runner);
            assert(members[4].1 == JsonModel::Record(runner_members(r)));
            lemma_runner_read_back(r);
        },
    }
}

/// The value that carries a response has a value for every number and nests
/// two objects at most.
pub proof fn lemma_reply_exact(v: IdentityView)
    ensures
        exact(reply_value(v), MAX_DEPTH as nat),
{
    let members = reply_members(v);
    let inner = (MAX_DEPTH - 1) as nat;
    match v.runner {
        None => {
            assert forall|k: int| 0 <= k < members.len() implies exact(
                (#[trigger] members[k]).1,
                inner,
            ) by {}
        },
        Some(r) => {
            let nested = runner_members(r);
            assert forall|k: int| 0 <= k < nested.len() implies exact(
                (#[trigger] nested[k]).1,
                (inner - 1) as nat,
            ) by {}
            assert(exact(JsonModel::Record(nested), inner));
            assert forall|k: int| 0 <= k < members.len() implies exact(
                (#[trigger] members[k]).1,
                inner,
            ) by {
                if k == 4 {
                    assert(members[k].1 == JsonModel::Record(nested));
                }
            }
        },
    }
}

/// Decoding the bytes that carry a valid response gives that response back.
pub proof fn lemma_decode_reply(v: IdentityView)
    requires
        v.wf(),
    ensures
        decode_spec(reply_bytes(v)) == Ok::<IdentityView, ProtocolError>(v),
{
    let text = render(reply_value(v));
    encode_utf8_valid_utf8(text);
    encode_utf8_decode_utf8(text);
    lemma_reply_exact(v);
    lemma_parse_render(reply_value(v));
    lemma_reply_read_back(v);
}

/// Whatever context a query carries, also none, decoding the daemon's answer
/// recovers the answer, and with it the context exactly as it was sent: a
/// field that was set comes back with its value, and a field that was not set
/// comes back absent.
pub proof fn lemma_echo_round_trip(
    known: IdentityView,
    hostname: Seq<char>,
    request: Option<IdentityRequest>,
)
    requires
        known.wf(),
    ensures
        decode_spec(reply_bytes(answer(known, hostname, request))) == Ok::<
            IdentityView,
            ProtocolError,
        >(answer(known, hostname, request)),
        sent_context(request) is None ==> answer(known, hostname, request).runner is None,
        sent_context(request) matches Some(q) ==> (answer(
            known,
            hostname,
            request,
        ).runner matches Some(r) && r.instance_id == q.instance_id && r.timestamp == q.timestamp),
        request matches Some(q) ==> (answer(known, hostname, request).runner matches Some(r)
            ==> r.instance_id == q.instance_id && r.timestamp == q.timestamp),
{
    lemma_decode_reply(answer(known, hostname, request));
}

/// A reply in the nested shape and its flattening, the reply in the flat
/// shape that holds the same identity and process, both decode, and what the
/// flat one decodes to is what the nested one decodes to without its runner
/// record.
pub proof fn lemma_shapes_agree(nested: IdentityView)
    requires
        nested.wf(),
        nested.runner is Some,
    ensures
        decode_spec(reply_bytes(nested)) is Ok,
        decode_spec(reply_bytes(nested.flat())) is Ok,
        decode_spec(reply_bytes(nested.flat()))->Ok_0 == decode_spec(
            reply_bytes(nested),
        )->Ok_0.flat(),
        decode_spec(reply_bytes(nested.flat()))->Ok_0.runner is None,
        decode_spec(reply_bytes(nested))->Ok_0 == nested,
{
    lemma_decode_reply(nested);
    lemma_decode_reply(nested.flat());
}

} // verus!
