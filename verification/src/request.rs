//! The optional runner context that a caller may attach to an identity query.

use vstd::prelude::*;

verus! {

/// Runner context sent along with an identity query.
///
/// Both fields are free-form scalars; a field that was never set is simply
/// absent, on the wire as well as here.
#[derive(Clone, Copy, Debug, PartialEq, Eq, Structural)]
pub struct IdentityRequest {
    /// Instance identifier used by the daemon for routing.
    pub instance_id: Option<u64>,
    /// Seconds since the Unix epoch, taken when the request was built.
    pub timestamp: Option<u64>,
}

/// Reads the wall clock through `getmyid::RunnerRequest::with_current_timestamp`
/// on an empty request and hands back the `timestamp` field it has set.
///
/// Trusted: the method always stores `Some(..)` in that field (the seconds
/// since the Unix epoch, or 0 when the clock is before the epoch). Nothing is
/// claimed about the number itself, since it depends on when the call happens.
#[verifier::external_body]
fn clock_timestamp() -> (stamp: Option<u64>)
    ensures
        stamp is Some,
{
    getmyid::RunnerRequest::new().with_current_timestamp().timestamp
}

impl IdentityRequest {
    /// A request with no context at all.
    pub fn new() -> (r: Self)
        ensures
            r.instance_id is None,
            r.timestamp is None,
    {
        IdentityRequest { instance_id: None, timestamp: None }
    }

    /// The same request with the instance identifier set to `id`.
    pub fn with_instance_id(self, id: u64) -> (r: Self)
        ensures
            r.instance_id == Some(id),
            r.timestamp == self.timestamp,
    {
        IdentityRequest { instance_id: Some(id), timestamp: self.timestamp }
    }

    /// The same request with the timestamp set to `seconds`.
    pub fn with_timestamp(self, seconds: u64) -> (r: Self)
        ensures
            r.instance_id == self.instance_id,
            r.timestamp == Some(seconds),
    {
        IdentityRequest { instance_id: self.instance_id, timestamp: Some(seconds) }
    }

    /// The same request stamped with the current time.
    ///
    /// The clock is read here, when the request is built; sending it later
    /// does not change the stamp.
    pub fn with_current_timestamp(self) -> (r: Self)
        ensures
            r.instance_id == self.instance_id,
            r.timestamp is Some,
    {
        match clock_timestamp() {
            Some(seconds) => self.with_timestamp(seconds),
            None => self,
        }
    }

    /// A request carries context when at least one of its fields is set.
    pub open spec fn has_context(self) -> bool {
        self.instance_id is Some || self.timestamp is Some
    }

    /// True when neither field is set.
    pub fn is_empty(&self) -> (b: bool)
        ensures
            b == !self.has_context(),
    {
        self.instance_id.is_none() && self.timestamp.is_none()
    }
}

/// The context that a query carries: that of its request, unless there is no
/// request or the request is empty, which comes to the same.
pub open spec fn sent_context(request: Option<IdentityRequest>) -> Option<IdentityRequest> {
    match request {
        Some(q) => if q.has_context() {
            Some(q)
        } else {
            None
        },
        None => None,
    }
}

/// Builds the context for a query from what the caller supplied: `None` when
/// there is neither an instance identifier nor a wish for a timestamp,
/// otherwise a request carrying exactly the supplied parts.
pub fn build_runner_request(instance_id: Option<u64>, with_timestamp: bool) -> (r: Option<
    IdentityRequest,
>)
    ensures
        r is None <==> (instance_id is None && !with_timestamp),
        r matches Some(q) ==> q.instance_id == instance_id && (q.timestamp is Some
            <==> with_timestamp),
{
    if instance_id.is_none() && !with_timestamp {
        return None;
    }
    let mut req = IdentityRequest::new();
    if let Some(id) = instance_id {
        req = req.with_instance_id(id);
    }
    if with_timestamp {
        req = req.with_current_timestamp();
    }
    Some(req)
}

} // verus!
