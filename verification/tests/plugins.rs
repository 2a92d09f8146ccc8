use warp_app::plugins::{
    discovery_enabled, discovery_preference_change, teardown_event, PluginManagerEvent, PluginTeardownStep,
};

#[test]
fn stopping_watchers_emits_nothing() {
    assert!(teardown_event::<u32>(PluginTeardownStep::StopWatchers).is_none());
    assert!(matches!(teardown_event::<u32>(PluginTeardownStep::WithdrawSkills), Some(PluginManagerEvent::WithdrawSkills)));
    match teardown_event(PluginTeardownStep::UnregisterMcpInstallations { components: vec![3u32, 4] }) {
        Some(PluginManagerEvent::UnregisterMcpInstallations { components }) => assert_eq!(components, vec![3, 4]),
        _ => panic!("expected an unregister event"),
    }
}

#[test]
fn turning_discovery_off_tears_down_in_order() {
    let change = discovery_preference_change(
        false,
        vec![
            PluginTeardownStep::StopWatchers,
            PluginTeardownStep::WithdrawSkills,
            PluginTeardownStep::CancelInFlightMcpCalls,
            PluginTeardownStep::UnregisterMcpInstallations { components: vec![7u32] },
        ],
        false,
    );
    assert!(!change.rescan);
    assert_eq!(change.events.len(), 4);
    assert!(matches!(change.events[0], PluginManagerEvent::WithdrawSkills));
    assert!(matches!(change.events[1], PluginManagerEvent::CancelInFlightMcpCalls));
    assert!(matches!(&change.events[2], PluginManagerEvent::UnregisterMcpInstallations { components } if components == &vec![7]));
    assert!(matches!(change.events[3], PluginManagerEvent::PluginsChanged));
}

#[test]
fn turning_discovery_on_rescans_without_announcing() {
    let change = discovery_preference_change::<u32>(false, vec![], true);
    assert!(change.rescan);
    assert!(change.events.is_empty());
    let change = discovery_preference_change::<u32>(true, vec![PluginTeardownStep::WithdrawSkills], true);
    assert!(!change.rescan);
    assert!(change.events.is_empty());
}

#[test]
fn discovery_needs_feature_and_policy() {
    assert!(discovery_enabled(true, true));
    assert!(!discovery_enabled(true, false));
    assert!(!discovery_enabled(false, true));
}
