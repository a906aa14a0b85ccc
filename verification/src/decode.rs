//! From the bytes of a reply to an identity.
//!
//! A reply is a JSON object. Its identity, both URLs and its token are
//! non-empty strings. The process details come in one of two shapes: flat, as
//! `process`, `pid`, `uid` and `gid` next to the identity, or nested, inside an
//! object under `runner` that also names the host and may echo the caller's
//! context. A reply that has a `runner` member is read as nested and must
//! hold a complete record there; any other reply is read as flat. Members
//! that this crate does not know are passed over, and of two members with one
//! key the first counts.

use vstd::prelude::*;
use vstd::utf8::{decode_utf8, valid_utf8};
use crate::error::{field_name, Field, ProtocolError};
use crate::json::grammar::parse_document;
use crate::json::parser::parse;
use crate::json::value::{lemma_record_view, record_view, Json, JsonModel};
use crate::response::{IdentityResponse, IdentityView, RunnerInfo, RunnerView};
use crate::strings::same_text;

verus! {

/// The index of the first member at or after `i` whose key is `key`.
pub open spec fn find_from(members: Seq<(Seq<char>, JsonModel)>, key: Seq<char>, i: int) -> Option<
    int,
>
    decreases members.len() - i,
{
    if i < 0 || i >= members.len() {
        None
    } else if members[i].0 == key {
        Some(i)
    } else {
        find_from(members, key, i + 1)
    }
}

/// The value of the first member whose key is `key`.
pub open spec fn lookup(members: Seq<(Seq<char>, JsonModel)>, key: Seq<char>) -> Option<JsonModel> {
    match find_from(members, key, 0) {
        Some(i) => Some(members[i].1),
        None => None,
    }
}

/// A required string.
pub open spec fn text_field(members: Seq<(Seq<char>, JsonModel)>, f: Field) -> Result<
    Seq<char>,
    ProtocolError,
> {
    match lookup(members, field_name(f)) {
        None => Err(ProtocolError::MissingField(f)),
        Some(JsonModel::Text(t)) => Ok(t),
        Some(_) => Err(ProtocolError::WrongType(f)),
    }
}

/// A required string that must not be empty.
pub open spec fn filled_field(members: Seq<(Seq<char>, JsonModel)>, f: Field) -> Result<
    Seq<char>,
    ProtocolError,
> {
    match text_field(members, f) {
        Err(e) => Err(e),
        Ok(t) => if t.len() == 0 {
            Err(ProtocolError::EmptyField(f))
        } else {
            Ok(t)
        },
    }
}

/// A required process, user or group number: an unsigned integer of 32 bits.
pub open spec fn id_field(members: Seq<(Seq<char>, JsonModel)>, f: Field) -> Result<
    u32,
    ProtocolError,
> {
    match lookup(members, field_name(f)) {
        None => Err(ProtocolError::MissingField(f)),
        Some(JsonModel::Number(Some(n))) => if n <= u32::MAX {
            Ok(n as u32)
        } else {
            Err(ProtocolError::OutOfRange(f))
        },
        Some(JsonModel::Number(None)) => Err(ProtocolError::OutOfRange(f)),
        Some(_) => Err(ProtocolError::WrongType(f)),
    }
}

/// An optional unsigned integer of 64 bits: absent when there is no such
/// member or the member holds `null`.
pub open spec fn echo_field(members: Seq<(Seq<char>, JsonModel)>, f: Field) -> Result<
    Option<u64>,
    ProtocolError,
> {
    match lookup(members, field_name(f)) {
        None => Ok(None),
        Some(JsonModel::Null) => Ok(None),
        Some(JsonModel::Number(Some(n))) => Ok(Some(n)),
        Some(JsonModel::Number(None)) => Err(ProtocolError::OutOfRange(f)),
        Some(_) => Err(ProtocolError::WrongType(f)),
    }
}

/// The process name and the three numbers, asked for in this order.
pub open spec fn process_details(members: Seq<(Seq<char>, JsonModel)>) -> Result<
    (Seq<char>, u32, u32, u32),
    ProtocolError,
> {
    match text_field(members, Field::Process) {
        Err(e) => Err(e),
        Ok(process) => match id_field(members, Field::Pid) {
            Err(e) => Err(e),
            Ok(pid) => match id_field(members, Field::Uid) {
                Err(e) => Err(e),
                Ok(uid) => match id_field(members, Field::Gid) {
                    Err(e) => Err(e),
                    Ok(gid) => Ok((process, pid, uid, gid)),
                },
            },
        },
    }
}

/// The runner record that the value under `runner` denotes.
pub open spec fn runner_of(v: JsonModel) -> Result<RunnerView, ProtocolError> {
    match v {
        JsonModel::Record(members) => match text_field(members, Field::Hostname) {
            Err(e) => Err(e),
            Ok(hostname) => match process_details(members) {
                Err(e) => Err(e),
                Ok(details) => match echo_field(members, Field::InstanceId) {
                    Err(e) => Err(e),
                    Ok(instance_id) => match echo_field(members, Field::Timestamp) {
                        Err(e) => Err(e),
                        Ok(timestamp) => Ok(
                            RunnerView {
                                hostname,
                                process: details.0,
                                pid: details.1,
                                uid: details.2,
                                gid: details.3,
                                instance_id,
                                timestamp,
                            },
                        ),
                    },
                },
            },
        },
        _ => Err(ProtocolError::WrongType(Field::Runner)),
    }
}

/// The four strings that every reply carries, asked for in this order.
pub open spec fn identity_part(members: Seq<(Seq<char>, JsonModel)>) -> Result<
    (Seq<char>, Seq<char>, Seq<char>, Seq<char>),
    ProtocolError,
> {
    match filled_field(members, Field::Identity) {
        Err(e) => Err(e),
        Ok(identity) => match filled_field(members, Field::IdmUrl) {
            Err(e) => Err(e),
            Ok(idm_url) => match filled_field(members, Field::ConfigUrl) {
                Err(e) => Err(e),
                Ok(config_url) => match filled_field(members, Field::Token) {
                    Err(e) => Err(e),
                    Ok(token) => Ok((identity, idm_url, config_url, token)),
                },
            },
        },
    }
}

/// The response that a JSON value denotes, or the first thing that is wrong
/// with it.
pub open spec fn response_of(v: JsonModel) -> Result<IdentityView, ProtocolError> {
    match v {
        JsonModel::Record(members) => match identity_part(members) {
            Err(e) => Err(e),
            Ok(id) => match lookup(members, field_name(Field::Runner)) {
                Some(nested) => match runner_of(nested) {
                    Err(e) => Err(e),
                    Ok(runner) => Ok(
                        IdentityView {
                            identity: id.0,
                            idm_url: id.1,
                            config_url: id.2,
                            token: id.3,
                            process: runner.process,
                            pid: runner.pid,
                            uid: runner.uid,
                            gid: runner.gid,
                            runner: Some(runner),
                        },
                    ),
                },
                None => match process_details(members) {
                    Err(e) => Err(e),
                    Ok(details) => Ok(
                        IdentityView {
                            identity: id.0,
                            idm_url: id.1,
                            config_url: id.2,
                            token: id.3,
                            process: details.0,
                            pid: details.1,
                            uid: details.2,
                            gid: details.3,
                            runner: None,
                        },
                    ),
                },
            },
        },
        _ => Err(ProtocolError::NotAnObject),
    }
}

/// The response that a text denotes.
pub open spec fn decode_text_spec(text: Seq<char>) -> Result<IdentityView, ProtocolError> {
    match parse_document(text) {
        None => Err(ProtocolError::Malformed),
        Some(v) => response_of(v),
    }
}

/// The response that the bytes of a reply denote.
pub open spec fn decode_spec(bytes: Seq<u8>) -> Result<IdentityView, ProtocolError> {
    if valid_utf8(bytes) {
        decode_text_spec(decode_utf8(bytes))
    } else {
        Err(ProtocolError::NotText)
    }
}

/// Whether a decoded result is the one that the model calls for.
pub open spec fn agrees(
    r: Result<IdentityResponse, ProtocolError>,
    model: Result<IdentityView, ProtocolError>,
) -> bool {
    match r {
        Ok(response) => model == Ok::<IdentityView, ProtocolError>(response@) && response@.wf(),
        Err(e) => model == Err::<IdentityView, ProtocolError>(e),
    }
}

/// The keys that a reply is read by.
pub open spec fn known_key(key: Seq<char>) -> bool {
    exists|f: Field| key == field_name(f)
}

/// Where a member that stood at `p` stands once another was put in at `i`.
pub open spec fn moved(p: Option<int>, i: int) -> Option<int> {
    match p {
        Some(k) => if k < i {
            Some(k)
        } else {
            Some(k + 1)
        },
        None => None,
    }
}

proof fn lemma_find_inserted(
    members: Seq<(Seq<char>, JsonModel)>,
    i: int,
    extra: (Seq<char>, JsonModel),
    key: Seq<char>,
    j: int,
)
    requires
        0 <= i <= members.len(),
        0 <= j <= members.len(),
        extra.0 != key,
    ensures
        find_from(members.insert(i, extra), key, if j < i {
            j
        } else {
            j + 1
        }) == moved(find_from(members, key, j), i),
        j == i ==> find_from(members.insert(i, extra), key, i) == moved(
            find_from(members, key, j),
            i,
        ),
    decreases members.len() - j,
{
    let longer = members.insert(i, extra);
    if j < members.len() {
        lemma_find_inserted(members, i, extra, key, j + 1);
        if j < i {
            assert(longer[j] == members[j]);
        } else {
            assert(longer[j + 1] == members[j]);
        }
    }
    if j == i {
        assert(longer[i] == extra);
    }
}

/// A member under another key does not change what is found under `key`,
/// wherever it is put.
pub proof fn lemma_lookup_inserted(
    members: Seq<(Seq<char>, JsonModel)>,
    i: int,
    extra: (Seq<char>, JsonModel),
    key: Seq<char>,
)
    requires
        0 <= i <= members.len(),
        extra.0 != key,
    ensures
        lookup(members.insert(i, extra), key) == lookup(members, key),
{
    lemma_find_inserted(members, i, extra, key, 0);
    let longer = members.insert(i, extra);
    match find_from(members, key, 0) {
        Some(k) => {
            lemma_find_in_range(members, key, 0);
            if k < i {
                assert(longer[k] == members[k]);
            } else {
                assert(longer[k + 1] == members[k]);
            }
        },
        None => {},
    }
}

proof fn lemma_find_in_range(members: Seq<(Seq<char>, JsonModel)>, key: Seq<char>, j: int)
    requires
        0 <= j,
    ensures
        find_from(members, key, j) matches Some(k) ==> j <= k < members.len() && members[k].0
            == key,
    decreases members.len() - j,
{
    if j < members.len() && members[j].0 != key {
        lemma_find_in_range(members, key, j + 1);
    }
}

/// A runner record reads the same with a member more that it does not know,
/// wherever that member stands.
pub proof fn lemma_runner_ignores_unknown(
    members: Seq<(Seq<char>, JsonModel)>,
    i: int,
    extra: (Seq<char>, JsonModel),
)
    requires
        0 <= i <= members.len(),
        !known_key(extra.0),
    ensures
        runner_of(JsonModel::Record(members.insert(i, extra))) == runner_of(
            JsonModel::Record(members),
        ),
{
    assert forall|f: Field| lookup(members.insert(i, extra), #[trigger] field_name(f)) == lookup(
        members,
        field_name(f),
    ) by {
        lemma_lookup_inserted(members, i, extra, field_name(f));
    }
}

/// A reply reads the same with a member more that this crate does not know,
/// wherever that member stands: what a later daemon adds does not disturb
/// what is read today.
pub proof fn lemma_reply_ignores_unknown(
    members: Seq<(Seq<char>, JsonModel)>,
    i: int,
    extra: (Seq<char>, JsonModel),
)
    requires
        0 <= i <= members.len(),
        !known_key(extra.0),
    ensures
        response_of(JsonModel::Record(members.insert(i, extra))) == response_of(
            JsonModel::Record(members),
        ),
{
    assert forall|f: Field| lookup(members.insert(i, extra), #[trigger] field_name(f)) == lookup(
        members,
        field_name(f),
    ) by {
        lemma_lookup_inserted(members, i, extra, field_name(f));
    }
}

/// A response that is read out of a reply is a valid one.
pub proof fn lemma_response_is_valid(v: JsonModel)
    ensures
        response_of(v) matches Ok(response) ==> response.wf(),
{
}

fn find(members: &Vec<(String, Json)>, key: &str) -> (r: Option<usize>)
    ensures
        match r {
            Some(i) => i < members.len() && find_from(record_view(members@), key@, 0) == Some(
                i as int,
            ),
            None => find_from(record_view(members@), key@, 0) is None,
        },
{
    let mut i: usize = 0;
    while i < members.len()
        invariant
            i <= members.len(),
            find_from(record_view(members@), key@, 0) == find_from(
                record_view(members@),
                key@,
                i as int,
            ),
        decreases members.len() - i,
    {
        if same_text(members[i].0.as_str(), key) {
            return Some(i);
        }
        i += 1;
    }
    None
}

fn read_text_field(members: &Vec<(String, Json)>, f: Field) -> (r: Result<String, ProtocolError>)
    ensures
        match r {
            Ok(t) => text_field(record_view(members@), f) == Ok::<Seq<char>, ProtocolError>(t@),
            Err(e) => text_field(record_view(members@), f) == Err::<Seq<char>, ProtocolError>(e),
        },
{
    match find(members, f.name()) {
        None => Err(ProtocolError::MissingField(f)),
        Some(i) => match &members[i].1 {
            Json::Text(t) => Ok(t.clone()),
            _ => Err(ProtocolError::WrongType(f)),
        },
    }
}

fn read_filled_field(members: &Vec<(String, Json)>, f: Field) -> (r: Result<String, ProtocolError>)
    ensures
        match r {
            Ok(t) => filled_field(record_view(members@), f) == Ok::<Seq<char>, ProtocolError>(t@)
                && t@.len() > 0,
            Err(e) => filled_field(record_view(members@), f) == Err::<Seq<char>, ProtocolError>(
                e,
            ),
        },
{
    match read_text_field(members, f) {
        Err(e) => Err(e),
        Ok(t) => if t.as_str().is_empty() {
            Err(ProtocolError::EmptyField(f))
        } else {
            Ok(t)
        },
    }
}

fn read_id_field(members: &Vec<(String, Json)>, f: Field) -> (r: Result<u32, ProtocolError>)
    ensures
        r == id_field(record_view(members@), f),
{
    match find(members, f.name()) {
        None => Err(ProtocolError::MissingField(f)),
        Some(i) => match &members[i].1 {
            Json::Number(Some(n)) => if *n <= u32::MAX as u64 {
                Ok(*n as u32)
            } else {
                Err(ProtocolError::OutOfRange(f))
            },
            Json::Number(None) => Err(ProtocolError::OutOfRange(f)),
            _ => Err(ProtocolError::WrongType(f)),
        },
    }
}

fn read_echo_field(members: &Vec<(String, Json)>, f: Field) -> (r: Result<
    Option<u64>,
    ProtocolError,
>)
    ensures
        r == echo_field(record_view(members@), f),
{
    match find(members, f.name()) {
        None => Ok(None),
        Some(i) => match &members[i].1 {
            Json::Null => Ok(None),
            Json::Number(Some(n)) => Ok(Some(*n)),
            Json::Number(None) => Err(ProtocolError::OutOfRange(f)),
            _ => Err(ProtocolError::WrongType(f)),
        },
    }
}

fn read_process_details(members: &Vec<(String, Json)>) -> (r: Result<
    (String, u32, u32, u32),
    ProtocolError,
>)
    ensures
        match r {
            Ok(d) => process_details(record_view(members@)) == Ok::<
                (Seq<char>, u32, u32, u32),
                ProtocolError,
            >((d.0@, d.1, d.2, d.3)),
            Err(e) => process_details(record_view(members@)) == Err::<
                (Seq<char>, u32, u32, u32),
                ProtocolError,
            >(e),
        },
{
    let process = match read_text_field(members, Field::Process) {
        Err(e) => { return Err(e); },
        Ok(t) => t,
    };
    let pid: u32 = match read_id_field(members, Field::Pid) {
        Err(e) => { return Err(e); },
        Ok(n) => n,
    };
    let uid: u32 = match read_id_field(members, Field::Uid) {
        Err(e) => { return Err(e); },
        Ok(n) => n,
    };
    let gid: u32 = match read_id_field(members, Field::Gid) {
        Err(e) => { return Err(e); },
        Ok(n) => n,
    };
    Ok((process, pid, uid, gid))
}

impl RunnerInfo {
    /// Reads the runner record out of the value that stands under `runner`.
    pub fn from_json(v: &Json) -> (r: Result<RunnerInfo, ProtocolError>)
        ensures
            match r {
                Ok(runner) => runner_of(v@) == Ok::<RunnerView, ProtocolError>(runner@),
                Err(e) => runner_of(v@) == Err::<RunnerView, ProtocolError>(e),
            },
    {
        let members = match v {
            Json::Record(members) => members,
            _ => { return Err(ProtocolError::WrongType(Field::Runner)); },
        };
        proof {
            lemma_record_view(*members);
        }
        let hostname = match read_text_field(members, Field::Hostname) {
            Err(e) => { return Err(e); },
            Ok(t) => t,
        };
        let (process, pid, uid, gid) = match read_process_details(members) {
            Err(e) => { return Err(e); },
            Ok(d) => d,
        };
        let instance_id = match read_echo_field(members, Field::InstanceId) {
            Err(e) => { return Err(e); },
            Ok(n) => n,
        };
        let timestamp = match read_echo_field(members, Field::Timestamp) {
            Err(e) => { return Err(e); },
            Ok(n) => n,
        };
        Ok(RunnerInfo { hostname, process, pid, uid, gid, instance_id, timestamp })
    }
}

impl IdentityResponse {
    /// Reads a response out of a parsed reply: `Ok` exactly for an object
    /// that holds the four non-empty strings and complete process details in
    /// one of the two shapes, and otherwise the first fault in reading order.
    pub fn from_json(v: &Json) -> (r: Result<IdentityResponse, ProtocolError>)
        ensures
            agrees(r, response_of(v@)),
    {
        let members = match v {
            Json::Record(members) => members,
            _ => { return Err(ProtocolError::NotAnObject); },
        };
        proof {
            lemma_record_view(*members);
        }
        let identity = match read_filled_field(members, Field::Identity) {
            Err(e) => { return Err(e); },
            Ok(t) => t,
        };
        let idm_url = match read_filled_field(members, Field::IdmUrl) {
            Err(e) => { return Err(e); },
            Ok(t) => t,
        };
        let config_url = match read_filled_field(members, Field::ConfigUrl) {
            Err(e) => { return Err(e); },
            Ok(t) => t,
        };
        let token = match read_filled_field(members, Field::Token) {
            Err(e) => { return Err(e); },
            Ok(t) => t,
        };
        match find(members, Field::Runner.name()) {
            Some(i) => {
                let runner = match RunnerInfo::from_json(&members[i].1) {
                    Err(e) => { return Err(e); },
                    Ok(r) => r,
                };
                let process = runner.process.clone();
                let pid: u32 = runner.pid;
                let uid: u32 = runner.uid;
                let gid: u32 = runner.gid;
                Ok(
                    IdentityResponse {
                        identity,
                        idm_url,
                        config_url,
                        token,
                        process,
                        pid,
                        uid,
                        gid,
                        runner: Some(runner),
                    },
                )
            },
            None => {
                let (process, pid, uid, gid) = match read_process_details(members) {
                    Err(e) => { return Err(e); },
                    Ok(d) => d,
                };
                Ok(
                    IdentityResponse {
                        identity,
                        idm_url,
                        config_url,
                        token,
                        process,
                        pid,
                        uid,
                        gid,
                        runner: None,
                    },
                )
            },
        }
    }
}

/// Decodes the text of a reply.
pub fn decode_text(text: &str) -> (r: Result<IdentityResponse, ProtocolError>)
    ensures
        agrees(r, decode_text_spec(text@)),
{
    match parse(text) {
        None => Err(ProtocolError::Malformed),
        Some(v) => IdentityResponse::from_json(&v),
    }
}

/// Decodes the bytes of a reply: `Ok` with the response they denote exactly
/// when they are UTF-8 text that holds one JSON object with a complete reply
/// in it, and otherwise the fault that was found first.
pub fn decode(bytes: &[u8]) -> (r: Result<IdentityResponse, ProtocolError>)
    ensures
        agrees(r, decode_spec(bytes@)),
{
    match core::str::from_utf8(bytes) {
        Err(_) => Err(ProtocolError::NotText),
        Ok(text) => decode_text(text),
    }
}

} // verus!
