use warp_app::ambient_task::display_name;

#[test]
fn display_name_prefers_agent_config_snapshot_name_over_title() {
    assert_eq!(display_name(Some("frontend-tests"), "Long descriptive task title"), "frontend-tests");
}

#[test]
fn display_name_falls_back_to_title_when_snapshot_name_is_missing() {
    assert_eq!(display_name(None, "Long descriptive task title"), "Long descriptive task title");
}

#[test]
fn display_name_falls_back_to_title_when_snapshot_name_is_whitespace() {
    assert_eq!(display_name(Some("   "), "Long descriptive task title"), "Long descriptive task title");
}

#[test]
fn display_name_returns_literal_agent_when_both_sources_are_empty() {
    assert_eq!(display_name(None, ""), "Agent");
}

#[test]
fn display_name_returns_literal_agent_for_whitespace_only_title() {
    assert_eq!(display_name(None, "   \t\n  "), "Agent");
}

#[test]
fn display_name_trims_whitespace_at_each_layer() {
    assert_eq!(display_name(Some("  frontend-tests  "), "  Long descriptive title  "), "frontend-tests");
    assert_eq!(display_name(None, "  Long descriptive title  "), "Long descriptive title");
}
