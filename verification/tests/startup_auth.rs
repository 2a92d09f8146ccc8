use warp_app::startup_auth::StartupAuthRetryGate;

#[test]
fn retry_gate_fires_when_iap_ready_arrives_before_attempt_settles() {
    // The proxy becomes ready while the optimistic attempt is still in
    // flight: the retry waits for the attempt to settle.
    let mut gate = StartupAuthRetryGate::default();
    assert!(!gate.on_iap_token_ready());
    assert!(gate.on_first_attempt_settled(false));
}

#[test]
fn retry_gate_fires_when_attempt_settles_before_iap_ready() {
    let mut gate = StartupAuthRetryGate::default();
    assert!(!gate.on_first_attempt_settled(false));
    assert!(gate.on_iap_token_ready());
}

#[test]
fn retry_gate_does_not_fire_when_first_attempt_already_authenticated() {
    for iap_ready_first in [true, false] {
        let mut gate = StartupAuthRetryGate::default();
        if iap_ready_first {
            assert!(!gate.on_iap_token_ready());
            assert!(!gate.on_first_attempt_settled(true));
        } else {
            assert!(!gate.on_first_attempt_settled(true));
            assert!(!gate.on_iap_token_ready());
        }
    }
}

#[test]
fn retry_gate_fires_at_most_once() {
    let mut gate = StartupAuthRetryGate::default();
    assert!(!gate.on_first_attempt_settled(false));
    assert!(gate.on_iap_token_ready());
    // A later refresh can report the token ready again; the retry must not
    // fire a second time.
    assert!(!gate.on_iap_token_ready());
}

#[test]
fn retry_gate_never_fires_if_iap_never_becomes_ready() {
    let mut gate = StartupAuthRetryGate::default();
    assert!(!gate.on_first_attempt_settled(false));
    assert!(!gate.retried);
}
