//! The identity that the daemon reports.

use vstd::prelude::*;

verus! {

/// The process details of a reply in its nested shape, together with the
/// context that the caller sent and the daemon echoed.
#[derive(Clone, Debug, PartialEq, Eq)]
pub struct RunnerInfo {
    pub hostname: String,
    pub process: String,
    pub pid: u32,
    pub uid: u32,
    pub gid: u32,
    /// The instance identifier of the request, if one was echoed.
    pub instance_id: Option<u64>,
    /// The timestamp of the request, if one was echoed.
    pub timestamp: Option<u64>,
}

/// A decoded reply.
///
/// The process details stand at the top whatever shape the reply had; `runner`
/// is present only for the nested shape and then repeats them next to what
/// only that shape carries.
#[derive(Clone, Debug, PartialEq, Eq)]
pub struct IdentityResponse {
    pub identity: String,
    pub idm_url: String,
    pub config_url: String,
    pub token: String,
    pub process: String,
    pub pid: u32,
    pub uid: u32,
    pub gid: u32,
    pub runner: Option<RunnerInfo>,
}

/// The model of a [`RunnerInfo`].
pub ghost struct RunnerView {
    pub hostname: Seq<char>,
    pub process: Seq<char>,
    pub pid: u32,
    pub uid: u32,
    pub gid: u32,
    pub instance_id: Option<u64>,
    pub timestamp: Option<u64>,
}

/// The model of an [`IdentityResponse`].
pub ghost struct IdentityView {
    pub identity: Seq<char>,
    pub idm_url: Seq<char>,
    pub config_url: Seq<char>,
    pub token: Seq<char>,
    pub process: Seq<char>,
    pub pid: u32,
    pub uid: u32,
    pub gid: u32,
    pub runner: Option<RunnerView>,
}

impl View for RunnerInfo {
    type V = RunnerView;

    open spec fn view(&self) -> RunnerView {
        RunnerView {
            hostname: self.hostname@,
            process: self.process@,
            pid: self.pid,
            uid: self.uid,
            gid: self.gid,
            instance_id: self.instance_id,
            timestamp: self.timestamp,
        }
    }
}

impl View for IdentityResponse {
    type V = IdentityView;

    open spec fn view(&self) -> IdentityView {
        IdentityView {
            identity: self.identity@,
            idm_url: self.idm_url@,
            config_url: self.config_url@,
            token: self.token@,
            process: self.process@,
            pid: self.pid,
            uid: self.uid,
            gid: self.gid,
            runner: match self.runner {
                Some(r) => Some(r@),
                None => None,
            },
        }
    }
}

impl IdentityView {
    /// What every accepted reply satisfies: the identity, both URLs and the
    /// token are non-empty, and a runner record repeats the process details
    /// that stand at the top.
    pub open spec fn wf(self) -> bool {
        &&& self.identity.len() > 0
        &&& self.idm_url.len() > 0
        &&& self.config_url.len() > 0
        &&& self.token.len() > 0
        &&& self.runner matches Some(r) ==> r.process == self.process && r.pid == self.pid && r.uid
            == self.uid && r.gid == self.gid
    }

    /// The part that both shapes of a reply share.
    pub open spec fn flat(self) -> IdentityView {
        IdentityView { runner: None, ..self }
    }
}

} // verus!
