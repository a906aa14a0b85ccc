//! What can go wrong with an identity query.

use vstd::prelude::*;

verus! {

/// The named parts of a reply.
#[derive(Clone, Copy, Debug, PartialEq, Eq, Structural)]
pub enum Field {
    Identity,
    IdmUrl,
    ConfigUrl,
    Token,
    Runner,
    Hostname,
    Process,
    Pid,
    Uid,
    Gid,
    InstanceId,
    Timestamp,
}

/// The key under which a field travels.
pub open spec fn field_name(f: Field) -> Seq<char> {
    match f {
        Field::Identity => "identity"@,
        Field::IdmUrl => "idm_url"@,
        Field::ConfigUrl => "config_url"@,
        Field::Token => "token"@,
        Field::Runner => "runner"@,
        Field::Hostname => "hostname"@,
        Field::Process => "process"@,
        Field::Pid => "pid"@,
        Field::Uid => "uid"@,
        Field::Gid => "gid"@,
        Field::InstanceId => "instance_id"@,
        Field::Timestamp => "timestamp"@,
    }
}

impl Field {
    /// The key under which this field travels.
    pub fn name(self) -> (key: &'static str)
        ensures
            key@ == field_name(self),
    {
        match self {
            Field::Identity => "identity",
            Field::IdmUrl => "idm_url",
            Field::ConfigUrl => "config_url",
            Field::Token => "token",
            Field::Runner => "runner",
            Field::Hostname => "hostname",
            Field::Process => "process",
            Field::Pid => "pid",
            Field::Uid => "uid",
            Field::Gid => "gid",
            Field::InstanceId => "instance_id",
            Field::Timestamp => "timestamp",
        }
    }
}

/// Why a reply was not accepted. None of these is an I/O failure: the bytes
/// arrived, but they are not a reply.
#[derive(Clone, Copy, Debug, PartialEq, Eq, Structural)]
pub enum ProtocolError {
    /// The bytes are not UTF-8 text.
    NotText,
    /// The text is not one complete JSON document: it is empty, cut short,
    /// ill-formed, nested too deeply, or followed by something else.
    Malformed,
    /// The document is not an object.
    NotAnObject,
    /// A required field is absent.
    MissingField(Field),
    /// A field holds a value of the wrong kind.
    WrongType(Field),
    /// A field that must not be empty holds the empty string.
    EmptyField(Field),
    /// A number does not fit the field: it is negative, fractional or too
    /// large.
    OutOfRange(Field),
}

/// The socket-level cause of a connection failure.
#[derive(Clone, Copy, Debug, PartialEq, Eq, Structural)]
pub enum IoCause {
    /// Nothing exists at the socket path.
    NotFound,
    /// The socket may not be opened by this process.
    PermissionDenied,
    /// Nothing is listening on the socket.
    Refused,
    /// The peer reset the connection.
    Reset,
    /// The peer closed the connection while data was still to be written.
    BrokenPipe,
    /// Any other failure reported by the operating system.
    Other,
}

/// The step of an exchange during which something happened.
#[derive(Clone, Copy, Debug, PartialEq, Eq, Structural)]
pub enum Stage {
    Connect,
    Send,
    Receive,
}

/// Why an identity query failed.
#[derive(Clone, Copy, Debug, PartialEq, Eq, Structural)]
pub enum ClientError {
    /// The socket could not be opened, written or read.
    Connection { stage: Stage, cause: IoCause },
    /// The deadline for the whole exchange passed; `limit_ms` is the configured
    /// limit in milliseconds.
    Timeout { limit_ms: u64 },
    /// The daemon's reply is not a valid response.
    Protocol(ProtocolError),
    /// The request cannot be put on the wire. The encoder of this crate
    /// takes every request, so nothing here gives this error; the kind is
    /// there for callers that tell the four kinds apart.
    Encoding,
}

} // verus!
