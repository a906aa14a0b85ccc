//! Client-side logic for fetching a process identity from a local identity
//! daemon over a Unix domain socket.
//!
//! The crate holds everything about one exchange that does not touch the
//! socket itself: building the optional runner context, encoding it, parsing
//! and validating the daemon's reply, and the per-call state machine that
//! decides what the transport has to do next and when the deadline has passed.
//! A transport (blocking or asynchronous) performs the actions and reports
//! what happened.

pub mod call;
pub mod client;
pub mod decimal;
pub mod decode;
pub mod encode;
pub mod error;
pub mod json;
pub mod reply;
pub mod report;
pub mod request;
pub mod response;
pub mod strings;

pub use crate::call::{Action, Call, Event, Phase};
pub use crate::client::{Client, ClientBuilder};
pub use crate::decode::decode;
pub use crate::encode::encode;
pub use crate::error::{ClientError, Field, IoCause, ProtocolError, Stage};
pub use crate::request::{build_runner_request, IdentityRequest};
pub use crate::response::{IdentityResponse, RunnerInfo};
