use warp_app::requested_command::{format_command_text, mcp_blocked_title_text, mcp_viewing_detail_title_text, header_highlight_ranges};

#[test]
fn single_line_without_newline_is_unchanged_ascii() {
    let input = "echo hello world";
    let output = format_command_text(input);
    assert_eq!(output, input);
}

#[test]
fn single_line_without_newline_preserves_multibyte_characters() {
    let input = "echo 🚀✨";
    let output = format_command_text(input);
    assert_eq!(output, input);
    let collected: String = output.chars().collect();
    assert_eq!(collected, output);
}

#[test]
fn truncates_at_first_newline_and_appends_ellipsis_when_more_content_exists() {
    let input = "cargo build\n--release";
    let output = format_command_text(input);
    assert_eq!(output, "cargo build…");
}

#[test]
fn truncates_at_first_newline_without_ellipsis_when_rest_is_whitespace() {
    let input = "git status\n   \t  ";
    let output = format_command_text(input);
    assert_eq!(output, "git status");
}

#[test]
fn does_not_split_multibyte_char_across_utf8_boundaries_when_newline_follows() {
    let input = "echo 🧪\nthen do something";
    let output = format_command_text(input);
    assert_eq!(output, "echo 🧪…");
    let reconstructed: String = output.chars().collect();
    assert_eq!(reconstructed, output);
}

#[test]
fn preserves_combining_characters_when_newline_is_after_cluster() {
    let composed = format!("{}{}", 'e', '\u{0301}');
    let input = format!("echo {composed}\nnext");
    let output = format_command_text(&input);
    assert_eq!(output, format!("echo {composed}…"));
    let reconstructed: String = output.chars().collect();
    assert_eq!(reconstructed, output);
}

#[test]
fn newline_then_multibyte_results_in_ellipsis_only() {
    let input = "\n🚀";
    let output = format_command_text(input);
    assert_eq!(output, "…");
    let reconstructed: String = output.chars().collect();
    assert_eq!(reconstructed, output);
}

#[test]
fn only_the_first_newline_cuts() {
    assert_eq!(format_command_text("a\n\nb"), "a…");
    assert_eq!(format_command_text("a\n"), "a");
    assert_eq!(format_command_text(""), "");
}

#[test]
fn mcp_blocked_title_surfaces_tool_and_server_when_known() {
    assert_eq!(
        mcp_blocked_title_text("create_issue", Some("github")),
        "OK if I call MCP tool create_issue on server github"
    );
}

#[test]
fn mcp_blocked_title_falls_back_to_tool_name_when_server_unknown() {
    assert_eq!(mcp_blocked_title_text("create_issue", None), "OK if I call MCP tool create_issue");
}

#[test]
fn mcp_blocked_title_falls_back_to_generic_message_when_tool_name_empty() {
    assert_eq!(mcp_blocked_title_text("", Some("github")), "OK if I call this MCP tool?");
    assert_eq!(mcp_blocked_title_text("", None), "OK if I call this MCP tool?");
}

#[test]
fn mcp_viewing_detail_title_surfaces_tool_and_server_when_known() {
    assert_eq!(
        mcp_viewing_detail_title_text("create_issue", Some("github")),
        "Viewing MCP tool create_issue on github"
    );
    assert_eq!(mcp_viewing_detail_title_text("create_issue", None), "Viewing MCP tool create_issue");
}

#[test]
fn mcp_viewing_detail_title_falls_back_to_generic_message_when_tool_name_empty() {
    assert_eq!(mcp_viewing_detail_title_text("", Some("github")), "Viewing MCP tool call detail");
}

#[test]
fn header_highlight_ranges_passes_through_when_untruncated() {
    let color_ranges = vec![(0usize, 4usize, 0u32)];
    let highlighted = header_highlight_ranges(&color_ranges, None);

    assert_eq!(highlighted.len(), 1);
    assert_eq!(highlighted[0].highlight_indices, vec![0, 1, 2, 3]);
}

#[test]
fn header_highlight_ranges_clips_range_straddling_the_truncation_boundary() {
    let color_ranges = vec![(2usize, 8usize, 0u32)];
    let highlighted = header_highlight_ranges(&color_ranges, Some(5));

    assert_eq!(highlighted.len(), 1);
    assert_eq!(highlighted[0].highlight_indices, vec![2, 3, 4]);
}

#[test]
fn header_highlight_ranges_drops_range_entirely_past_the_truncation_boundary() {
    let color_ranges = vec![(6usize, 9usize, 0u32)];
    let highlighted = header_highlight_ranges(&color_ranges, Some(5));

    assert!(highlighted.is_empty());
}

#[test]
fn header_highlights_keep_their_colors_in_order() {
    let color_ranges = vec![(0usize, 2usize, 7u32), (3, 4, 9), (5, 7, 11)];
    let highlighted = header_highlight_ranges(&color_ranges, Some(6));
    assert_eq!(highlighted.len(), 3);
    assert_eq!(highlighted[1].highlight_indices, vec![3]);
    assert_eq!(highlighted[1].color, 9);
    assert_eq!(highlighted[2].highlight_indices, vec![5]);
    assert_eq!(highlighted[2].color, 11);
}
