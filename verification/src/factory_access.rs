//! Whether the signed-in viewer has Factory access, checked once per
//! authenticated session.
//!
//! One request fires after the first completed sign-in (or at construction
//! when a session is already signed in) and its result is held for the rest
//! of that session: no retry and no refresh. Signing out resets the state so
//! the next session starts a fresh check, and aborts a request still in
//! flight so its answer cannot land in the next session.

use vstd::prelude::*;

verus! {

/// The viewer's Factory access, as last resolved for the current session.
#[derive(Debug, Clone, Copy, PartialEq, Eq, Structural)]
pub enum FactoryAccess {
    /// Not yet resolved, or the attempt failed or returned a malformed
    /// response. The check is not retried in the session.
    Unknown,
    Allowed,
    Denied,
}

impl Default for FactoryAccess {
    fn default() -> (r: Self)
        ensures
            r == FactoryAccess::Unknown,
    {
        FactoryAccess::Unknown
    }
}

/// Emitted when the access check produces a result.
#[derive(Debug, Clone, Copy, PartialEq, Eq, Structural)]
pub enum FactoryAccessModelEvent {
    Resolved,
}

/// What the access request came back with.
#[derive(Debug, Clone, Copy, PartialEq, Eq, Structural)]
pub enum ProbeOutcome {
    /// A well-formed response.
    Response { allowed: bool },
    /// The request failed or its body was malformed.
    Failed,
}

/// The once-per-session access check.
#[derive(Debug, Clone, Copy, PartialEq, Eq, Structural)]
pub struct FactoryAccessModel {
    pub access: FactoryAccess,
    /// Whether this session's request was issued.
    pub requested: bool,
    /// Whether that request is still in flight.
    pub probe_in_flight: bool,
}

/// The access a probe outcome resolves to.
pub open spec fn resolved_access(outcome: ProbeOutcome) -> FactoryAccess {
    match outcome {
        ProbeOutcome::Response { allowed } => if allowed {
            FactoryAccess::Allowed
        } else {
            FactoryAccess::Denied
        },
        ProbeOutcome::Failed => FactoryAccess::Unknown,
    }
}

/// Issuing the request when none was issued this session.
pub open spec fn request_spec(m: FactoryAccessModel) -> (FactoryAccessModel, bool) {
    if m.requested {
        (m, false)
    } else {
        (FactoryAccessModel { requested: true, probe_in_flight: true, ..m }, true)
    }
}

impl FactoryAccessModel {
    /// The model at start-up, and whether to issue the request now (when a
    /// session is already signed in).
    pub fn new(logged_in: bool) -> (r: (FactoryAccessModel, bool))
        ensures
            r == (if logged_in {
                request_spec(FactoryAccessModel { access: FactoryAccess::Unknown, requested: false, probe_in_flight: false })
            } else {
                (FactoryAccessModel { access: FactoryAccess::Unknown, requested: false, probe_in_flight: false }, false)
            }),
    {
        let mut me = FactoryAccessModel { access: FactoryAccess::Unknown, requested: false, probe_in_flight: false };
        let start = if logged_in {
            me.request_if_needed()
        } else {
            false
        };
        (me, start)
    }

    /// The access as last resolved.
    pub fn access(&self) -> (r: FactoryAccess)
        ensures
            r == self.access,
    {
        self.access
    }

    /// Marks this session's request issued unless it was already; returns
    /// whether the caller should issue it.
    pub fn request_if_needed(&mut self) -> (r: bool)
        ensures
            (*final(self), r) == request_spec(*old(self)),
    {
        if self.requested {
            return false;
        }
        self.requested = true;
        self.probe_in_flight = true;
        true
    }

    /// A sign-in completed: issue the request if this session has none.
    pub fn on_auth_complete(&mut self) -> (r: bool)
        ensures
            (*final(self), r) == request_spec(*old(self)),
    {
        self.request_if_needed()
    }

    /// The request came back: hold its answer for the session.
    pub fn on_probe_result(&mut self, outcome: ProbeOutcome) -> (r: FactoryAccessModelEvent)
        ensures
            *final(self) == (FactoryAccessModel {
                access: resolved_access(outcome),
                probe_in_flight: false,
                ..*old(self)
            }),
            r == FactoryAccessModelEvent::Resolved,
    {
        self.probe_in_flight = false;
        self.access = match outcome {
            ProbeOutcome::Response { allowed } => if allowed {
                FactoryAccess::Allowed
            } else {
                FactoryAccess::Denied
            },
            ProbeOutcome::Failed => FactoryAccess::Unknown,
        };
        FactoryAccessModelEvent::Resolved
    }

    /// Sign-out or account change: back to `Unknown` with no request
    /// issued. Returns whether a request in flight must be aborted.
    pub fn reset(&mut self) -> (r: bool)
        ensures
            r == old(self).probe_in_flight,
            *final(self) == (FactoryAccessModel {
                access: FactoryAccess::Unknown,
                requested: false,
                probe_in_flight: false,
            }),
    {
        let abort = self.probe_in_flight;
        self.probe_in_flight = false;
        self.access = FactoryAccess::Unknown;
        self.requested = false;
        abort
    }
}

/// At most one request per session: once one was issued, further sign-ins
/// and results issue none until a reset, after which the next sign-in
/// issues a fresh one.
pub proof fn law_one_request_per_session(m: FactoryAccessModel, outcome: ProbeOutcome)
    ensures
        request_spec(m).1 ==> !request_spec(request_spec(m).0).1,
        m.requested ==> !request_spec(FactoryAccessModel {
            access: resolved_access(outcome),
            probe_in_flight: false,
            ..m
        }).1,
        request_spec(FactoryAccessModel { access: FactoryAccess::Unknown, requested: false, probe_in_flight: false }).1,
{
}

} // verus!
