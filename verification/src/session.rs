//! The process-wide registry of the single active remote session.
//!
//! A process launched in a remote mode realizes its launch plan into one
//! `ActiveSession`.  The registry cycles `Empty -> Active -> Empty`; a
//! second launch while a session is active is refused rather than silently
//! replacing the session, so the previous session's cleanup is never
//! orphaned.

use vstd::prelude::*;

use crate::dispatch::{DispatchError, LaunchPlan, PlanModel, RemoteKind};

verus! {

/// The in-process record of an ongoing remote connection's identity.
#[derive(Clone, Debug)]
pub struct ActiveSession {
    pub kind: RemoteKind,
    pub peer_id: String,
    /// Negotiated credential; empty means "use the stored or temporary
    /// password".
    pub password: String,
    pub extra_args: Vec<String>,
}

/// Mathematical shape of an active session.
pub struct SessionModel {
    pub kind: RemoteKind,
    pub peer_id: Seq<char>,
    pub password: Seq<char>,
    pub extra_args: Seq<Seq<char>>,
}

impl View for ActiveSession {
    type V = SessionModel;

    open spec fn view(&self) -> SessionModel {
        SessionModel {
            kind: self.kind,
            peer_id: self.peer_id@,
            password: self.password@,
            extra_args: self.extra_args.deep_view(),
        }
    }
}

/// Holds the at most one active remote session of this process.
pub struct SessionRegistry {
    active: Option<ActiveSession>,
}

impl View for SessionRegistry {
    type V = Option<SessionModel>;

    closed spec fn view(&self) -> Option<SessionModel> {
        match self.active {
            Some(ref s) => Some(s@),
            None => None,
        }
    }
}

/// The session a remote launch plan realizes into.
pub open spec fn session_of_plan(p: PlanModel) -> SessionModel
    recommends
        p is Remote,
{
    match p {
        PlanModel::Remote { kind, peer_id, password, extra_args } => SessionModel {
            kind,
            peer_id,
            password,
            extra_args,
        },
        _ => arbitrary(),
    }
}

impl SessionRegistry {
    /// A fresh registry with no active session.
    pub fn new() -> (r: SessionRegistry)
        ensures
            r@ is None,
    {
        SessionRegistry { active: None }
    }

    /// Realizes a remote launch plan.  From the empty state this stores the
    /// one active session built from the plan's kind, peer id, credential
    /// and extra arguments; while a session is already active it refuses
    /// with `SessionAlreadyActive` and changes nothing.
    pub fn launch(&mut self, plan: LaunchPlan) -> (r: Result<(), DispatchError>)
        requires
            plan is Remote,
        ensures
            old(self)@ is None ==> r is Ok && final(self)@ == Some(session_of_plan(plan@)),
            old(self)@ is Some ==> r == Err::<(), DispatchError>(
                DispatchError::SessionAlreadyActive,
            ) && final(self)@ == old(self)@,
    {
        if self.active.is_some() {
            return Err(DispatchError::SessionAlreadyActive);
        }
        match plan {
            LaunchPlan::Remote { kind, peer_id, password, extra_args } => {
                self.active = Some(ActiveSession { kind, peer_id, password, extra_args });
                Ok(())
            },
            _ => {
                proof {
                    assert(false);
                }
                Err(DispatchError::SessionAlreadyActive)
            },
        }
    }

    /// Releases the active session, if any; subsequent reads see no
    /// session.
    pub fn close(&mut self)
        ensures
            final(self)@ is None,
    {
        self.active = None;
    }

    /// True when a session is currently active.
    pub fn is_active(&self) -> (r: bool)
        ensures
            r == (self@ is Some),
    {
        self.active.is_some()
    }

    /// Peer id of the active session, or `None` in the empty state.
    pub fn active_peer_id(&self) -> (r: Option<String>)
        ensures
            match r {
                Some(p) => self@ matches Some(s) && p@ == s.peer_id,
                None => self@ is None,
            },
    {
        match &self.active {
            Some(s) => Some(s.peer_id.clone()),
            None => None,
        }
    }

    /// Credential of the active session, or `None` in the empty state.
    pub fn active_password(&self) -> (r: Option<String>)
        ensures
            match r {
                Some(p) => self@ matches Some(s) && p@ == s.password,
                None => self@ is None,
            },
    {
        match &self.active {
            Some(s) => Some(s.password.clone()),
            None => None,
        }
    }
}

} // verus!
