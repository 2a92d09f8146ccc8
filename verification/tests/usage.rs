use warp_app::usage::{
    all_models_tokens, chart_color, charged_usage_breakdown_rows, rollup_link, BreakdownCategory, RollupLink,
    exact_token_count_tooltip, format_tokens, model_row_label, model_usage_rows, model_value, role_badge_for_model, total_usage_tokens,
    truncate_rollup_rows, turn_usage_event, ModelTokenUsage, UsageCategory,
    TurnUsageViewAction, TurnUsageViewEvent, UsagePopoverAction, UsagePopoverEvent, UsagePopoverView,
    ROLLUP_TRUNCATION_CAP,
};

#[test]
fn exact_token_count_tooltip_is_none_below_abbreviation_threshold() {
    assert_eq!(exact_token_count_tooltip(500), None);
    assert_eq!(exact_token_count_tooltip(999), None);
}

#[test]
fn exact_token_count_tooltip_shows_comma_separated_count_when_abbreviated() {
    assert_eq!(exact_token_count_tooltip(9614), Some("9,614 tokens".to_string()));
    assert_eq!(exact_token_count_tooltip(1_614_700), Some("1,614,700 tokens".to_string()));
}

#[test]
fn exact_token_count_tooltip_starts_at_one_thousand() {
    assert_eq!(exact_token_count_tooltip(1000), Some("1,000 tokens".to_string()));
    assert_eq!(
        exact_token_count_tooltip(u64::MAX),
        Some("18,446,744,073,709,551,615 tokens".to_string())
    );
}

#[test]
fn token_counts_agree_in_number() {
    assert_eq!(format_tokens(0), "0 tokens");
    assert_eq!(format_tokens(1), "1 token");
    assert_eq!(format_tokens(2), "2 tokens");
    assert_eq!(format_tokens(9614), "9614 tokens");
}

#[test]
fn model_value_joins_tokens_and_cost() {
    assert_eq!(model_value(1, None), "1 token");
    assert_eq!(model_value(25, Some("$0.36")), "25 tokens  /  $0.36");
}

#[test]
fn truncate_rollup_rows_shows_all_under_cap() {
    let entries: Vec<String> = (0..3).map(|i| format!("agent-{i}")).collect();
    let (shown, hidden) = truncate_rollup_rows(&entries, false);
    assert_eq!(shown.len(), 3);
    assert_eq!(hidden, 0);
}

#[test]
fn truncate_rollup_rows_truncates_over_cap_until_show_all() {
    let entries: Vec<String> = (0..8).map(|i| format!("agent-{i}")).collect();
    let (shown, hidden) = truncate_rollup_rows(&entries, false);
    assert_eq!(shown.len(), ROLLUP_TRUNCATION_CAP);
    assert_eq!(hidden, 3);
    assert_eq!(shown[4], "agent-4");

    let (shown_all, hidden_all) = truncate_rollup_rows(&entries, true);
    assert_eq!(shown_all.len(), 8);
    assert_eq!(hidden_all, 0);
}

#[test]
fn turn_panel_close_requests_removal() {
    assert_eq!(turn_usage_event(&TurnUsageViewAction::Close), TurnUsageViewEvent::CloseRequested);
}

#[test]
fn popover_sections_toggle_and_reset_on_reopen() {
    let mut popover = UsagePopoverView::new(7);
    assert!(popover.is_model_usage_section_expanded());
    assert_eq!(popover.handle_action(&UsagePopoverAction::ToggleModelUsageSection), None);
    assert!(!popover.is_model_usage_section_expanded());
    popover.handle_action(&UsagePopoverAction::ShowAllRollupAgents);
    assert!(popover.rollup_show_all());
    popover.handle_action(&UsagePopoverAction::ToggleModelExpanded("sonnet".to_string()));
    assert!(popover.is_model_expanded("sonnet"));
    popover.handle_action(&UsagePopoverAction::ToggleModelExpanded("sonnet".to_string()));
    assert!(!popover.is_model_expanded("sonnet"));
    assert_eq!(popover.handle_action(&UsagePopoverAction::RequestClose), Some(UsagePopoverEvent::Close));

    popover.handle_action(&UsagePopoverAction::ToggleModelExpanded("gpt".to_string()));
    popover.reset_for_conversation(9);
    assert_eq!(popover.conversation_id(), 9);
    assert!(popover.is_model_usage_section_expanded());
    assert!(!popover.rollup_show_all());
    assert!(!popover.is_model_expanded("gpt"));
}

fn model(id: &str, warp_tokens: u32, category: UsageCategory) -> ModelTokenUsage {
    ModelTokenUsage {
        model_id: id.to_string(),
        warp_tokens,
        byok_tokens: 0,
        custom_endpoint_tokens: 0,
        warp_token_usage_by_category: vec![(category, warp_tokens)],
        byok_token_usage_by_category: vec![],
        custom_endpoint_token_usage_by_category: vec![],
    }
}

fn unused_model(id: &str) -> ModelTokenUsage {
    ModelTokenUsage {
        model_id: id.to_string(),
        warp_tokens: 0,
        byok_tokens: 0,
        custom_endpoint_tokens: 0,
        warp_token_usage_by_category: vec![],
        byok_token_usage_by_category: vec![],
        custom_endpoint_token_usage_by_category: vec![],
    }
}

#[test]
fn model_usage_rows_drops_zero_token_models() {
    let models = vec![model("gpt-5.5", 100, UsageCategory::PrimaryAgent), unused_model("unused-model")];
    let rows = model_usage_rows(&models, &[]);
    assert_eq!(rows.len(), 1);
    assert_eq!(rows[0].model_id, "gpt-5.5");
}

#[test]
fn model_usage_rows_sorts_primary_agent_first() {
    let models = vec![
        model("codex-model", 50, UsageCategory::FullTerminalUse),
        model("primary-model", 100, UsageCategory::PrimaryAgent),
        model("auto-model", 10, UsageCategory::Other),
    ];
    let rows = model_usage_rows(&models, &[]);
    assert_eq!(rows[0].model_id, "primary-model");
    assert_eq!(rows[0].role_badge, Some("Primary agent"));
}

#[test]
fn model_usage_rows_assigns_full_terminal_use_badge() {
    let models = vec![model("codex-model", 50, UsageCategory::FullTerminalUse)];
    let rows = model_usage_rows(&models, &[]);
    assert_eq!(rows[0].role_badge, Some("Full terminal use"));
}

#[test]
fn model_usage_rows_has_no_badge_for_unknown_categories() {
    let models = vec![model("auto-model", 10, UsageCategory::Other)];
    let rows = model_usage_rows(&models, &[]);
    assert_eq!(rows[0].role_badge, None);
}

#[test]
fn model_usage_rows_joins_charged_usage_by_model_id() {
    let models = vec![
        model("gpt-5.5", 100, UsageCategory::PrimaryAgent),
        model("codex-model", 50, UsageCategory::FullTerminalUse),
    ];
    let charged_model_ids = vec!["gpt-5.5".to_string()];
    let charged_cost_in_cents = [36u32];
    let rows = model_usage_rows(&models, &charged_model_ids);
    let gpt_row = rows.iter().find(|r| r.model_id == "gpt-5.5").unwrap();
    let codex_row = rows.iter().find(|r| r.model_id == "codex-model").unwrap();
    assert_eq!(gpt_row.charged_usage.map(|i| charged_cost_in_cents[i]), Some(36));
    assert!(gpt_row.charged_usage.is_some());
    assert_eq!(codex_row.charged_usage.map(|i| charged_cost_in_cents[i]), None);
    assert!(codex_row.charged_usage.is_none());
}

#[test]
fn model_usage_rows_order_by_id_after_primary_and_keep_totals() {
    let mut byok = model("b-model", 5, UsageCategory::Other);
    byok.byok_tokens = 7;
    byok.custom_endpoint_tokens = 3;
    let models = vec![
        model("c-model", 1, UsageCategory::Other),
        byok,
        model("z-primary", 2, UsageCategory::PrimaryAgent),
        model("a-primary", 4, UsageCategory::PrimaryAgent),
    ];
    let rows = model_usage_rows(&models, &["z-primary".to_string(), "c-model".to_string()]);
    let ids: Vec<&str> = rows.iter().map(|r| r.model_id.as_str()).collect();
    assert_eq!(ids, vec!["a-primary", "z-primary", "b-model", "c-model"]);
    assert_eq!(rows[2].tokens, 15);
    assert_eq!(rows[1].charged_usage, Some(0));
    assert_eq!(rows[3].charged_usage, Some(1));
    assert_eq!(rows[0].charged_usage, None);
}

#[test]
fn primary_agent_badge_wins_over_full_terminal_use() {
    let mut m = model("m", 10, UsageCategory::FullTerminalUse);
    m.byok_token_usage_by_category = vec![(UsageCategory::PrimaryAgent, 1)];
    assert_eq!(role_badge_for_model(&m), Some("Primary agent"));
    m.byok_token_usage_by_category = vec![(UsageCategory::PrimaryAgent, 0)];
    assert_eq!(role_badge_for_model(&m), Some("Full terminal use"));
}

#[test]
fn model_row_label_adds_role_pill() {
    assert_eq!(model_row_label("gpt-5.5", Some("Primary agent")), "gpt-5.5 (Primary agent)");
    assert_eq!(model_row_label("auto", None), "auto");
}

#[test]
fn total_usage_tokens_prefers_the_rollup() {
    let mut byok = model("b", 5, UsageCategory::Other);
    byok.byok_tokens = 7;
    let models = vec![model("a", 10, UsageCategory::PrimaryAgent), byok, unused_model("c")];
    assert_eq!(total_usage_tokens(&models, None), Some(22));
    assert_eq!(total_usage_tokens(&models, Some(Some(99))), Some(99));
    assert_eq!(total_usage_tokens(&models, Some(None)), None);
    assert_eq!(total_usage_tokens(&[], None), Some(0));
}

#[test]
fn charged_usage_breakdown_omits_categories_not_incurred() {
    let rows = charged_usage_breakdown_rows("gpt-5.5", 1200, 30, 0, 7, 2);
    let cats: Vec<BreakdownCategory> = rows.iter().map(|r| r.category).collect();
    assert_eq!(
        cats,
        vec![
            BreakdownCategory::InputTokens,
            BreakdownCategory::OutputTokens,
            BreakdownCategory::CacheWriteTokens,
            BreakdownCategory::WebSearches
        ]
    );
    assert_eq!(rows[0].count, 1200);
    assert_eq!(rows[0].hover_key.as_deref(), Some("value:model:gpt-5.5:input"));
    assert_eq!(rows[2].hover_key.as_deref(), Some("value:model:gpt-5.5:cache_write"));
    assert_eq!(rows[3].hover_key, None);
    assert_eq!(rows[3].category.label(), "Web searches");
    assert_eq!(rows[1].category.label(), "Output tokens");
    assert!(charged_usage_breakdown_rows("m", 0, 0, 0, 0, 0).is_empty());
}

#[test]
fn all_models_tokens_falls_back_to_the_rows() {
    let models = vec![model("a", 10, UsageCategory::PrimaryAgent), model("b", 32, UsageCategory::Other)];
    let rows = model_usage_rows(&models, &[]);
    assert_eq!(all_models_tokens(None, &rows), Some(42));
    assert_eq!(all_models_tokens(Some(7), &rows), Some(7));
    assert_eq!(all_models_tokens(None, &[]), Some(0));
}

#[test]
fn rollup_link_offers_more_then_fewer() {
    assert_eq!(rollup_link(3, false), None);
    assert_eq!(rollup_link(ROLLUP_TRUNCATION_CAP, true), None);
    assert_eq!(rollup_link(8, false), Some(RollupLink::ShowMore(3)));
    assert_eq!(rollup_link(8, true), Some(RollupLink::ShowFewer));
    assert_eq!(RollupLink::ShowMore(3).label(), "Show 3 more");
    assert_eq!(RollupLink::ShowFewer.label(), "Show fewer");
    assert!(matches!(RollupLink::ShowMore(3).action(), UsagePopoverAction::ShowAllRollupAgents));
    assert!(matches!(RollupLink::ShowFewer.action(), UsagePopoverAction::ShowFewerRollupAgents));
    let mut view = UsagePopoverView::new(1);
    view.handle_action(&RollupLink::ShowMore(3).action());
    assert_eq!(rollup_link(8, view.rollup_show_all()), Some(RollupLink::ShowFewer));
}

#[test]
fn popover_sections_toggle_independently() {
    let mut popover = UsagePopoverView::new(3);
    assert!(popover.is_tool_call_summary_section_expanded());
    assert!(popover.is_response_time_section_expanded());
    popover.handle_action(&UsagePopoverAction::ToggleToolCallSummarySection);
    assert!(!popover.is_tool_call_summary_section_expanded());
    assert!(popover.is_response_time_section_expanded());
    popover.handle_action(&UsagePopoverAction::ToggleResponseTimeSection);
    assert!(!popover.is_response_time_section_expanded());
    assert!(popover.is_model_usage_section_expanded());
}

#[test]
fn chart_colors_cycle_through_the_palette() {
    assert_eq!(chart_color(0), (0xff, 0x8f, 0xfd, 0xff));
    assert_eq!(chart_color(5), (0xff, 0x82, 0x72, 0xff));
    assert_eq!(chart_color(6), chart_color(0));
    assert_eq!(chart_color(13), (0xa5, 0xd5, 0xfe, 0xff));
    for i in 0..6 {
        for j in 0..6 {
            assert_eq!(chart_color(i) == chart_color(j), i == j);
        }
    }
}

#[test]
fn close_action_emits_close_requested_event() {
    assert_eq!(
        turn_usage_event(&TurnUsageViewAction::Close),
        TurnUsageViewEvent::CloseRequested,
        "Close action should emit TurnUsageViewEvent::CloseRequested"
    );
}
