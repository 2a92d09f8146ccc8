use warp_app::factory_access::{FactoryAccess, FactoryAccessModel, FactoryAccessModelEvent, ProbeOutcome};
use warp_app::orchestration::{ChildSignal, OrchestrationChildTracker, OrchestrationEventConsumer, SeededTask, TrackerEffect};
use warp_app::single_instance::{
    has_existing_instance, listens_for_uris, role_after_failed_bind, role_after_mutex, single_instance_mutex_name,
    to_nul_terminated_utf16, uri_named_pipe_name,
    InstanceRoleKind,
};
use warp_app::vim_selection::{
    cap_to_line, caret_selection, character_step, collapse_to_start, insert_step, navigation_steps, editor_supports_operator, heads_of, jump_row, linewise_selection,
    linewise_span, linewise_visual_end, move_horizontal, notebook_supports_operator, replace_order, select_for_operand,
    to_one_based, to_zero_based, vertical_target_column, vertical_target_row, visual_span, visual_tail_at, Direction,
    CharacterMotion, CharacterStep, InsertPosition, InsertStep, LineMotion, MotionKind, OperandKind, SelectStep,
    SelectionOffsets, VimOperator,
};

#[test]
fn factory_access_is_checked_once_per_session() {
    let (mut model, start) = FactoryAccessModel::new(true);
    assert!(start);
    assert!(!model.on_auth_complete());
    assert_eq!(model.on_probe_result(ProbeOutcome::Response { allowed: true }), FactoryAccessModelEvent::Resolved);
    assert_eq!(model.access(), FactoryAccess::Allowed);
    assert!(!model.on_auth_complete());
    assert!(!model.reset());
    assert_eq!(model.access(), FactoryAccess::Unknown);
    assert!(model.on_auth_complete());
    assert!(model.reset());
}

#[test]
fn factory_access_failures_and_denials() {
    let (mut model, start) = FactoryAccessModel::new(false);
    assert!(!start);
    assert!(model.on_auth_complete());
    model.on_probe_result(ProbeOutcome::Response { allowed: false });
    assert_eq!(model.access(), FactoryAccess::Denied);
    model.on_probe_result(ProbeOutcome::Failed);
    assert_eq!(model.access(), FactoryAccess::Unknown);
    assert_eq!(FactoryAccess::default(), FactoryAccess::Unknown);
}

const CHILD_A: &str = "22222222-2222-2222-2222-222222222222";

fn tracker() -> OrchestrationChildTracker<u8> {
    OrchestrationChildTracker::new(1, OrchestrationEventConsumer::Observer { placeholder_conversation_id: 99 })
}

#[test]
fn started_creates_pending_entry_and_is_idempotent() {
    let mut tracker = tracker();
    let killed: Vec<String> = vec![];
    let effects = tracker.observe_child::<u8>(CHILD_A, Some(2), ChildSignal::Started, &killed);
    assert!(tracker.has_in_flight_fetch(CHILD_A));
    assert_eq!(tracker.child_count(), 0);
    assert_eq!(tracker.metadata_fetch_dispatch_count(), 1);
    assert!(matches!(effects.as_slice(), [TrackerEffect::FetchMetadata { task_id: 2, .. }]));
    tracker.observe_child::<u8>(CHILD_A, Some(2), ChildSignal::Started, &killed);
    assert_eq!(tracker.metadata_fetch_dispatch_count(), 1);
}

#[test]
fn lifecycle_for_tombstoned_run_is_noop() {
    let mut tracker = tracker();
    let killed = vec![CHILD_A.to_string()];
    let effects = tracker.observe_child::<u8>(CHILD_A, Some(2), ChildSignal::Lifecycle(7), &killed);
    assert!(effects.is_empty());
    assert_eq!(tracker.child_count(), 0);
    assert!(!tracker.has_in_flight_fetch(CHILD_A));
    assert_eq!(tracker.metadata_fetch_dispatch_count(), 0);
}

#[test]
fn registered_prevents_placeholder_creation() {
    let mut tracker = tracker();
    let killed: Vec<String> = vec![];
    let effects = tracker.observe_child::<u8>(CHILD_A, Some(2), ChildSignal::Registered { conversation_id: 5 }, &killed);
    assert!(matches!(effects.as_slice(), [TrackerEffect::ChildSpawned { .. }]));
    let entry = tracker.child(2).expect("registered child is tracked immediately");
    assert_eq!(entry.conversation_id, 5);
    assert!(!entry.is_remote_child);
    assert!(!tracker.has_in_flight_fetch(CHILD_A));
    let effects = tracker.observe_child::<u8>(CHILD_A, Some(2), ChildSignal::Started, &killed);
    assert!(effects.is_empty());
    assert_eq!(tracker.metadata_fetch_dispatch_count(), 0);
    assert!(tracker.child(2).is_some());
}

#[test]
fn session_linked_fills_session_id_and_requests_pane_without_fetch() {
    let mut tracker = tracker();
    let killed: Vec<String> = vec![];
    tracker.observe_child::<u8>(CHILD_A, Some(2), ChildSignal::Registered { conversation_id: 5 }, &killed);
    tracker.observe_child::<u8>(CHILD_A, Some(2), ChildSignal::SessionLinked { session_id: Some(44) }, &killed);
    let entry = tracker.child(2).expect("child is tracked");
    assert_eq!(entry.session_id, Some(44));
    assert!(entry.pane_materialized);
    assert_eq!(tracker.metadata_fetch_dispatch_count(), 0);
}

#[test]
fn early_session_link_is_applied_when_the_seed_arrives() {
    let mut tracker = tracker();
    let killed: Vec<String> = vec![];
    tracker.observe_child::<u8>(CHILD_A, Some(2), ChildSignal::SessionLinked { session_id: Some(44) }, &killed);
    assert_eq!(tracker.child_count(), 0);
    tracker.observe_child::<u8>(CHILD_A, Some(2), ChildSignal::Started, &killed);
    let effects = tracker.apply_fetched::<u8>(SeededTask { task_id: 2, run_id: CHILD_A.to_string(), session_id: None, state: 3 });
    assert!(matches!(effects.as_slice(), [TrackerEffect::ChildSpawned { .. }]));
    let entry = tracker.child(2).expect("seeded child is tracked");
    assert_eq!(entry.session_id, Some(44));
    assert_eq!(entry.conversation_id, 99);
    assert_eq!(entry.last_state, Some(3));
    assert!(entry.pane_materialized);
    assert!(entry.is_remote_child);
    assert!(!tracker.has_in_flight_fetch(CHILD_A));
}

#[test]
fn seeds_for_the_parent_are_ignored_and_malformed_runs_dropped() {
    let mut tracker = tracker();
    let killed: Vec<String> = vec![];
    let effects = tracker.apply_fetched::<u8>(SeededTask { task_id: 1, run_id: "parent".to_string(), session_id: None, state: 0 });
    assert!(effects.is_empty());
    let effects = tracker.observe_child::<u8>("not-a-uuid", None, ChildSignal::Started, &killed);
    assert!(effects.is_empty());
    assert_eq!(tracker.child_count(), 0);
}

#[test]
fn lifecycle_updates_known_children_and_heals_missed_discovery() {
    let mut tracker = tracker();
    let killed: Vec<String> = vec![];
    let effects = tracker.observe_child::<u8>(CHILD_A, Some(2), ChildSignal::Lifecycle(4), &killed);
    assert!(matches!(effects.as_slice(), [TrackerEffect::FetchMetadata { .. }]));
    let again = tracker.observe_child::<u8>(CHILD_A, Some(2), ChildSignal::Lifecycle(4), &killed);
    assert!(again.is_empty());
    tracker.apply_fetched::<u8>(SeededTask { task_id: 2, run_id: CHILD_A.to_string(), session_id: None, state: 1 });
    let effects = tracker.observe_child::<u8>(CHILD_A, Some(2), ChildSignal::Lifecycle(5), &killed);
    assert!(matches!(effects.as_slice(), [TrackerEffect::ChildStatusChanged { status: 5, .. }, TrackerEffect::FetchMetadata { .. }]));
    let killed = vec![CHILD_A.to_string()];
    tracker.observe_child::<u8>(CHILD_A, Some(2), ChildSignal::Started, &killed);
    assert_eq!(tracker.child_count(), 0);
}

#[test]
fn placeholder_follows_the_consumer_role() {
    assert_eq!(OrchestrationEventConsumer::Primary { orchestrator_conversation_id: 3 }.placeholder_conversation_id(), 3);
    assert_eq!(OrchestrationEventConsumer::Observer { placeholder_conversation_id: 8 }.placeholder_conversation_id(), 8);
}

#[test]
fn wide_names_end_in_a_single_zero() {
    assert_eq!(to_nul_terminated_utf16("Warp"), vec![87, 97, 114, 112, 0]);
    assert_eq!(to_nul_terminated_utf16("🚀"), vec![0xD83D, 0xDE80, 0]);
    let expected: Vec<u16> = "Local\\Warp_é".encode_utf16().chain(std::iter::once(0)).collect();
    assert_eq!(to_nul_terminated_utf16("Local\\Warp_é"), expected);
}

#[test]
fn instance_roles_follow_the_pipe_and_mutex() {
    assert_eq!(role_after_failed_bind(true), InstanceRoleKind::Secondary);
    assert_eq!(role_after_failed_bind(false), InstanceRoleKind::Undiscoverable);
    assert_eq!(role_after_mutex(true), InstanceRoleKind::Sole);
    assert_eq!(role_after_mutex(false), InstanceRoleKind::Secondary);
    assert!(has_existing_instance(InstanceRoleKind::Secondary));
    assert!(!has_existing_instance(InstanceRoleKind::Undiscoverable));
    assert!(listens_for_uris(InstanceRoleKind::Sole));
    assert!(!listens_for_uris(InstanceRoleKind::Secondary));
}

#[test]
fn vim_carets_convert_between_one_and_zero_based() {
    assert_eq!(to_one_based(0), 1);
    assert_eq!(to_zero_based(1), 0);
    assert_eq!(to_zero_based(0), 0);
    assert_eq!(caret_selection(5, 2, 10), (1, 4, false));
    assert_eq!(caret_selection(2, 5, 10), (1, 4, true));
    assert_eq!(caret_selection(40, 30, 10), (10, 10, false));
    assert_eq!(jump_row(0, 20), 1);
    assert_eq!(jump_row(7, 20), 7);
    assert_eq!(jump_row(70, 20), 20);
}

#[test]
fn operand_steps_follow_the_motion() {
    assert_eq!(
        select_for_operand(true, 3, OperandKind::Line),
        vec![SelectStep::Vertical { count: 2, forwards: true }, SelectStep::ExtendLinewise { include_newline: true }]
    );
    assert_eq!(
        select_for_operand(false, 1, OperandKind::Line),
        vec![SelectStep::ExtendLinewise { include_newline: false }]
    );
    assert_eq!(
        select_for_operand(false, 0, OperandKind::Motion { motion: MotionKind::Line(LineMotion::End), linewise: false }),
        vec![SelectStep::Vertical { count: 0, forwards: true }, SelectStep::LineBound { start: false }]
    );
    assert_eq!(
        select_for_operand(true, 2, OperandKind::Motion { motion: MotionKind::Word(Direction::Backward), linewise: true }),
        vec![SelectStep::Word { forward: false, count: 2 }, SelectStep::ExtendLinewise { include_newline: true }]
    );
    assert!(select_for_operand(true, 2, OperandKind::TextObject).is_empty());
}

fn sel(head: usize, tail: usize) -> SelectionOffsets {
    SelectionOffsets { head, tail }
}

#[test]
fn vim_horizontal_motion_stops_at_line_boundary() {
    // Line of 10 characters, head at column 7 (offset 20), buffer ends at 50.
    assert_eq!(move_horizontal(sel(20, 15), 5, Direction::Forward, false, true, 7, 10, 50), sel(23, 23));
    assert_eq!(move_horizontal(sel(20, 15), 2, Direction::Forward, true, true, 7, 10, 50), sel(22, 15));
    assert_eq!(move_horizontal(sel(20, 15), 9, Direction::Backward, false, true, 7, 10, 50), sel(13, 13));
    assert_eq!(move_horizontal(sel(20, 15), 3, Direction::Backward, true, true, 7, 10, 50), sel(17, 15));
}

#[test]
fn vim_horizontal_motion_wraps_within_the_buffer() {
    assert_eq!(move_horizontal(sel(48, 48), 5, Direction::Forward, false, false, 0, 0, 50), sel(50, 50));
    assert_eq!(move_horizontal(sel(52, 52), 5, Direction::Forward, false, false, 0, 0, 50), sel(52, 52));
    assert_eq!(move_horizontal(sel(4, 4), 10, Direction::Backward, false, false, 0, 0, 50), sel(1, 1));
    assert_eq!(move_horizontal(sel(1, 1), 10, Direction::Backward, false, false, 0, 0, 50), sel(1, 1));
    assert_eq!(move_horizontal(sel(10, 3), 4, Direction::Backward, true, false, 0, 0, 50), sel(6, 3));
    assert_eq!(move_horizontal(sel(10, 3), 0, Direction::Forward, false, false, 0, 0, 50), sel(10, 10));
}

#[test]
fn vim_vertical_motion_clamps_rows_and_columns() {
    assert_eq!(vertical_target_row(3, 5, true, 6), 6);
    assert_eq!(vertical_target_row(3, 2, true, 6), 5);
    assert_eq!(vertical_target_row(3, 5, false, 6), 0);
    assert_eq!(vertical_target_row(u32::MAX, 1, true, u32::MAX), u32::MAX);
    assert_eq!(vertical_target_column(12, 4), 4);
    assert_eq!(vertical_target_column(2, 4), 2);
}

#[test]
fn vim_selection_helpers() {
    assert_eq!(collapse_to_start(sel(9, 4)), sel(4, 4));
    assert_eq!(collapse_to_start(sel(2, 4)), sel(2, 2));
    assert_eq!(cap_to_line(sel(10, 8), 5, 5), sel(9, 7));
    assert_eq!(cap_to_line(sel(10, 8), 4, 5), sel(10, 8));
    assert_eq!(cap_to_line(sel(10, 8), 0, 0), sel(10, 8));
    assert_eq!(linewise_span(sel(9, 4)), (4, 9));
    assert_eq!(linewise_selection(3, 12, 40, true), sel(12, 3));
    assert_eq!(linewise_selection(3, 45, 40, true), sel(40, 3));
    assert_eq!(linewise_selection(3, 12, 40, false), sel(11, 3));
    assert_eq!(visual_span(9, 4, 40), (4, 10));
    assert_eq!(visual_span(4, 40, 40), (4, 40));
    assert_eq!(visual_tail_at(&[7, 8], 1), 8);
    assert_eq!(visual_tail_at(&[7, 8], 2), 1);
    assert_eq!(linewise_visual_end(12, 40, true), 13);
    assert_eq!(linewise_visual_end(40, 40, true), 40);
    assert_eq!(linewise_visual_end(12, 40, false), 12);
    assert_eq!(heads_of(&[sel(3, 1), sel(8, 9)]), vec![3, 8]);
}

#[test]
fn vim_replacements_apply_from_the_end() {
    let edits = vec![
        (3, 5, "a".to_string()),
        (10, 8, "b".to_string()),
        (3, 3, "c".to_string()),
        (0, 1, "d".to_string()),
    ];
    let order = replace_order(&edits);
    assert_eq!(
        order,
        vec![
            (9, 9, "b".to_string()),
            (2, 2, "c".to_string()),
            (2, 4, "a".to_string()),
            (0, 0, "d".to_string()),
        ]
    );
}

#[test]
fn vim_operators_each_editor_supports() {
    assert!(editor_supports_operator(VimOperator::Delete));
    assert!(editor_supports_operator(VimOperator::Lowercase));
    assert!(!editor_supports_operator(VimOperator::Indent));
    assert!(!editor_supports_operator(VimOperator::Dedent));
    assert!(notebook_supports_operator(VimOperator::Indent));
    assert!(notebook_supports_operator(VimOperator::Yank));
}

/// A signed-in start-up against a server that answers each access request
/// with `answer`; returns the model and how many requests reached the server.
fn started_with(answer: ProbeOutcome) -> (FactoryAccessModel, usize) {
    let (mut model, start) = FactoryAccessModel::new(true);
    let mut requests = 0;
    if start {
        requests += 1;
        model.on_probe_result(answer);
    }
    (model, requests)
}

#[test]
fn fetches_eagerly_and_resolves_allowed() {
    let (model, requests) = started_with(ProbeOutcome::Response { allowed: true });
    assert_eq!(model.access(), FactoryAccess::Allowed);
    assert_eq!(requests, 1);
}

#[test]
fn resolves_denied_for_an_allowed_false_response() {
    let (model, requests) = started_with(ProbeOutcome::Response { allowed: false });
    assert_eq!(model.access(), FactoryAccess::Denied);
    assert_eq!(requests, 1);
}

#[test]
fn http_failure_resolves_unknown_and_is_not_retried() {
    let (mut model, mut requests) = started_with(ProbeOutcome::Failed);
    assert_eq!(model.access(), FactoryAccess::Unknown);
    // A later call (mirroring a subsequent sign-in, e.g. a token refresh)
    // must not issue a second request.
    if model.request_if_needed() {
        requests += 1;
    }
    assert_eq!(requests, 1);
}

#[test]
fn malformed_response_body_resolves_unknown() {
    // A body that does not parse reaches the model as a failed request.
    let (model, requests) = started_with(ProbeOutcome::Failed);
    assert_eq!(model.access(), FactoryAccess::Unknown);
    assert_eq!(requests, 1);
}

#[test]
fn reset_allows_a_fresh_request_on_the_next_authenticated_session() {
    let (mut model, mut requests) = started_with(ProbeOutcome::Response { allowed: true });
    assert_eq!(model.access(), FactoryAccess::Allowed);
    model.reset();
    assert_eq!(model.access(), FactoryAccess::Unknown);
    if model.request_if_needed() {
        requests += 1;
        model.on_probe_result(ProbeOutcome::Response { allowed: true });
    }
    assert_eq!(model.access(), FactoryAccess::Allowed);
    assert_eq!(requests, 2);
}

#[test]
fn two_started_signals_issue_one_metadata_fetch() {
    let mut tracker = tracker();
    let killed: Vec<String> = vec![];
    tracker.observe_child::<u8>(CHILD_A, Some(2), ChildSignal::Started, &killed);
    tracker.observe_child::<u8>(CHILD_A, Some(2), ChildSignal::Started, &killed);
    assert_eq!(
        tracker.metadata_fetch_dispatch_count(),
        1,
        "two Started signals for the same run id must dedupe to one fetch"
    );
    assert!(tracker.has_in_flight_fetch(CHILD_A));
}

/// A claim against simulated named objects: the pipe is bound first, and
/// the mutex is only taken by a process that could bind it.
fn claim(pipe_bound: &mut bool, mutex_held: &mut bool) -> InstanceRoleKind {
    if *pipe_bound {
        return role_after_failed_bind(*mutex_held);
    }
    *pipe_bound = true;
    let acquired = !*mutex_held;
    if acquired {
        *mutex_held = true;
    }
    role_after_mutex(acquired)
}

#[test]
fn a_secondary_claim_always_has_a_listener_to_reach() {
    let (mut pipe, mut mutex) = (false, false);
    let sole = claim(&mut pipe, &mut mutex);
    assert_eq!(sole, InstanceRoleKind::Sole, "the first claim on unused names should take the role");
    assert!(listens_for_uris(sole));
    let secondary = claim(&mut pipe, &mut mutex);
    assert_eq!(secondary, InstanceRoleKind::Secondary, "a second claim should defer to the instance holding the role");
    assert!(has_existing_instance(secondary));
    assert!(pipe, "being told another instance owns the claim must imply that instance is reachable");
}

#[test]
fn a_process_that_cannot_listen_leaves_no_claim() {
    let (mut pipe, mut mutex) = (false, false);
    assert_eq!(claim(&mut pipe, &mut mutex), InstanceRoleKind::Sole);
    let mut unclaimed_mutex = false;
    let undiscoverable = claim(&mut pipe, &mut unclaimed_mutex);
    assert_eq!(
        undiscoverable,
        InstanceRoleKind::Undiscoverable,
        "failing to listen with no other instance present should not take the role"
    );
    assert!(!unclaimed_mutex, "a process that cannot listen must leave the mutex untouched");
    assert!(!has_existing_instance(undiscoverable));
}

#[test]
fn vim_motions_map_to_editor_steps() {
    assert_eq!(
        character_step(CharacterMotion::WrappingLeft),
        CharacterStep::Horizontal { forward: false, stop_at_line_boundary: false }
    );
    assert_eq!(
        character_step(CharacterMotion::Right),
        CharacterStep::Horizontal { forward: true, stop_at_line_boundary: true }
    );
    assert_eq!(character_step(CharacterMotion::Up), CharacterStep::Vertical { forwards: false });
    assert_eq!(insert_step(InsertPosition::AtCursor), None);
    assert_eq!(insert_step(InsertPosition::LineAbove), Some(InsertStep::OpenLineAbove));
    assert_eq!(
        navigation_steps(MotionKind::Line(LineMotion::End), 3),
        vec![SelectStep::Vertical { count: 2, forwards: true }, SelectStep::LineBound { start: false }]
    );
}

#[test]
fn instance_object_names_follow_the_channel() {
    assert_eq!(uri_named_pipe_name("Stable"), "WarpStable_URI_CHANNEL");
    assert_eq!(single_instance_mutex_name("Dev"), "Local\\WarpDev_SingleInstance");
}
