use warp_app::mcp_readiness::{InitialGlobalMcpReadiness, InitialGlobalScanCohort, MCPProvider};

#[test]
fn cohort_emits_once_when_the_last_source_settles() {
    let source = ("/tmp/.mcp.json".to_string(), MCPProvider::Warp);
    let mut cohort = InitialGlobalScanCohort::from_pending(vec![source.clone()]);
    assert!(!cohort.try_complete());
    assert!(cohort.remove(&source));
    assert!(cohort.try_complete());
    assert!(cohort.has_emitted());
    assert!(!cohort.try_complete());
}

#[test]
fn cohort_counts_each_source_once() {
    let a = ("/home/u/.mcp.json".to_string(), MCPProvider::Warp);
    let b = ("/home/u/.warp/mcp.json".to_string(), MCPProvider::Warp);
    let mut cohort = InitialGlobalScanCohort::from_pending(vec![a.clone(), a.clone()]);
    assert!(cohort.contains(&a));
    assert!(!cohort.contains(&b));
    cohort.insert(b.clone());
    cohort.insert(b.clone());
    assert!(cohort.remove(&a));
    assert!(!cohort.remove(&a));
    assert!(!cohort.is_empty());
    assert!(cohort.remove(&b));
    assert!(cohort.is_empty());
}

#[test]
fn complete_is_idempotent_and_late_safe() {
    let mut latch = InitialGlobalMcpReadiness::pending();
    assert!(!latch.is_complete());
    assert_eq!(latch.result(), None);

    let first = vec![0u128];
    latch.complete(first.clone());
    latch.complete(vec![42]);

    assert!(latch.is_complete());
    assert_eq!(latch.result(), Some(first.clone()));
    assert_eq!(latch.waited_result(), first);
}

#[test]
fn completed_empty_latch_has_nothing_to_wait_for() {
    let latch = InitialGlobalMcpReadiness::complete_empty();
    assert!(latch.is_complete());
    assert_eq!(latch.result(), Some(vec![]));
}
