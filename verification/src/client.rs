//! The client: where the daemon listens, how long an exchange may take, and
//! the two queries it offers.

use vstd::prelude::*;
use crate::call::{Call, CallModel, StateModel};
use crate::encode::{encode, encode_spec};
use crate::request::IdentityRequest;

verus! {

/// Where the daemon listens unless told otherwise.
pub const DEFAULT_SOCKET_PATH: &'static str = "/var/run/whoami.sock";

/// How long an exchange may take unless told otherwise, in milliseconds.
pub const DEFAULT_TIMEOUT_MS: u64 = 5000;

/// The settings of a client.
pub ghost struct Settings {
    pub socket_path: Seq<char>,
    pub timeout_ms: u64,
}

/// The settings that a client has when nothing was chosen.
pub open spec fn default_settings() -> Settings {
    Settings { socket_path: DEFAULT_SOCKET_PATH@, timeout_ms: DEFAULT_TIMEOUT_MS }
}

/// Whole seconds as milliseconds, or the largest number of milliseconds there
/// is where that would be more.
pub open spec fn seconds_to_ms(seconds: u64) -> u64 {
    if seconds * 1000 <= u64::MAX {
        (seconds * 1000) as u64
    } else {
        u64::MAX
    }
}

/// Collects the settings of a client.
pub struct ClientBuilder {
    socket_path: String,
    timeout_ms: u64,
}

/// A configured client. Its settings never change once it is built.
pub struct Client {
    socket_path: String,
    timeout_ms: u64,
}

impl View for ClientBuilder {
    type V = Settings;

    closed spec fn view(&self) -> Settings {
        Settings { socket_path: self.socket_path@, timeout_ms: self.timeout_ms }
    }
}

impl View for Client {
    type V = Settings;

    closed spec fn view(&self) -> Settings {
        Settings { socket_path: self.socket_path@, timeout_ms: self.timeout_ms }
    }
}

impl ClientBuilder {
    /// A builder that holds the default settings.
    pub fn new() -> (b: ClientBuilder)
        ensures
            b@ == default_settings(),
    {
        ClientBuilder {
            socket_path: DEFAULT_SOCKET_PATH.to_owned(),
            timeout_ms: DEFAULT_TIMEOUT_MS,
        }
    }

    /// The same settings with the socket at `path`.
    pub fn socket_path(self, path: &str) -> (b: ClientBuilder)
        ensures
            b@ == (Settings { socket_path: path@, ..self@ }),
    {
        ClientBuilder { socket_path: path.to_owned(), timeout_ms: self.timeout_ms }
    }

    /// The same settings with a deadline of `ms` milliseconds.
    pub fn timeout_ms(self, ms: u64) -> (b: ClientBuilder)
        ensures
            b@ == (Settings { timeout_ms: ms, ..self@ }),
    {
        ClientBuilder { socket_path: self.socket_path, timeout_ms: ms }
    }

    /// The same settings with a deadline of `seconds` seconds.
    pub fn timeout_secs(self, seconds: u64) -> (b: ClientBuilder)
        ensures
            b@ == (Settings { timeout_ms: seconds_to_ms(seconds), ..self@ }),
    {
        let ms: u64 = if seconds <= u64::MAX / 1000 {
            seconds * 1000
        } else {
            u64::MAX
        };
        ClientBuilder { socket_path: self.socket_path, timeout_ms: ms }
    }

    /// The client with these settings.
    pub fn build(self) -> (c: Client)
        ensures
            c@ == self@,
    {
        Client { socket_path: self.socket_path, timeout_ms: self.timeout_ms }
    }
}

impl Client {
    /// A client with the default settings.
    pub fn new() -> (c: Client)
        ensures
            c@ == default_settings(),
    {
        ClientBuilder::new().build()
    }

    /// A builder that holds the default settings.
    pub fn builder() -> (b: ClientBuilder)
        ensures
            b@ == default_settings(),
    {
        ClientBuilder::new()
    }

    /// Where the daemon listens.
    pub fn socket_path(&self) -> (path: &str)
        ensures
            path@ == self@.socket_path,
    {
        self.socket_path.as_str()
    }

    /// The deadline for one exchange, in milliseconds.
    pub fn timeout_ms(&self) -> (ms: u64)
        ensures
            ms == self@.timeout_ms,
    {
        self.timeout_ms
    }

    /// The call that fetches the identity of this process without sending
    /// any context. It has not begun: a transport has to carry it out.
    pub fn get_identity(&self) -> (call: Call)
        ensures
            call@ == (CallModel {
                socket_path: self@.socket_path,
                limit_ms: self@.timeout_ms,
                payload: Seq::empty(),
                state: StateModel::Idle,
            }),
    {
        self.get_identity_with_runner(None)
    }

    /// The call that fetches the identity of this process and sends the
    /// given context along, or nothing where there is none. It has not
    /// begun: a transport has to carry it out.
    pub fn get_identity_with_runner(&self, request: Option<IdentityRequest>) -> (call: Call)
        ensures
            call@ == (CallModel {
                socket_path: self@.socket_path,
                limit_ms: self@.timeout_ms,
                payload: encode_spec(request),
                state: StateModel::Idle,
            }),
    {
        Call::new(self.socket_path.clone(), self.timeout_ms, encode(request))
    }
}

} // verus!
