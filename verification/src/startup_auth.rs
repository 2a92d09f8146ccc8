//! The one retry of start-up authentication that waits for the identity
//! proxy's token.
//!
//! Start-up authenticates optimistically, without waiting for the proxy.
//! When that first attempt fails, authentication is retried once, as soon as
//! both the attempt has settled and the proxy's token is ready, in whichever
//! order the two happen.

use vstd::prelude::*;

verus! {

/// Whether the start-up retry is due, and whether it happened.
#[derive(Debug)]
pub struct StartupAuthRetryGate {
    iap_ready: bool,
    /// How the first attempt settled: `Some(authenticated)`.
    first_attempt: Option<bool>,
    /// Whether the retry was fired.
    pub retried: bool,
}

impl Default for StartupAuthRetryGate {
    fn default() -> (r: Self)
        ensures
            !r.iap_ready_spec() && r.first_attempt_spec() is None && !r.retried_spec(),
    {
        StartupAuthRetryGate { iap_ready: false, first_attempt: None, retried: false }
    }
}

/// Whether the retry has been made, and whether to make it at this point:
/// it is made once, when the proxy is ready and the first attempt settled
/// without authenticating.
pub open spec fn gate_step(iap_ready: bool, first_attempt: Option<bool>, retried: bool) -> (bool, bool) {
    if !retried && iap_ready && first_attempt == Some(false) {
        (true, true)
    } else {
        (retried, false)
    }
}

impl StartupAuthRetryGate {
    pub closed spec fn iap_ready_spec(&self) -> bool {
        self.iap_ready
    }

    pub closed spec fn first_attempt_spec(&self) -> Option<bool> {
        self.first_attempt
    }

    pub closed spec fn retried_spec(&self) -> bool {
        self.retried
    }

    fn maybe_retry(&mut self) -> (r: bool)
        ensures
            final(self).iap_ready_spec() == old(self).iap_ready_spec(),
            final(self).first_attempt_spec() == old(self).first_attempt_spec(),
            (final(self).retried_spec(), r) == gate_step(
                old(self).iap_ready_spec(),
                old(self).first_attempt_spec(),
                old(self).retried_spec(),
            ),
    {
        let fire = !self.retried && self.iap_ready && self.first_attempt == Some(false);
        if fire {
            self.retried = true;
        }
        fire
    }

    /// The proxy's token became ready; returns whether to retry now.
    pub fn on_iap_token_ready(&mut self) -> (r: bool)
        ensures
            final(self).iap_ready_spec(),
            final(self).first_attempt_spec() == old(self).first_attempt_spec(),
            (final(self).retried_spec(), r) == gate_step(true, old(self).first_attempt_spec(), old(self).retried_spec()),
    {
        self.iap_ready = true;
        self.maybe_retry()
    }

    /// The optimistic first attempt settled, authenticated or not; returns
    /// whether to retry now.
    pub fn on_first_attempt_settled(&mut self, authenticated: bool) -> (r: bool)
        ensures
            final(self).iap_ready_spec() == old(self).iap_ready_spec(),
            final(self).first_attempt_spec() == Some(authenticated),
            (final(self).retried_spec(), r) == gate_step(
                old(self).iap_ready_spec(),
                Some(authenticated),
                old(self).retried_spec(),
            ),
    {
        self.first_attempt = Some(authenticated);
        self.maybe_retry()
    }
}

/// The retry fires at most once: once it fired, no later event fires it
/// again; and it never fires after an authenticated first attempt.
pub proof fn law_retry_fires_at_most_once(iap_ready: bool, first_attempt: Option<bool>, retried: bool)
    ensures
        retried ==> !gate_step(iap_ready, first_attempt, retried).1 && gate_step(iap_ready, first_attempt, retried).0,
        first_attempt == Some(true) ==> !gate_step(iap_ready, first_attempt, retried).1,
        gate_step(iap_ready, first_attempt, retried).1 ==> gate_step(iap_ready, first_attempt, retried).0,
{
}

} // verus!
