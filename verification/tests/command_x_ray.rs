use warp_app::command_x_ray::tooltip::truncated_token_label;
use warp_app::command_x_ray::host::{
    hide_update, show_update, toggle_step, CommandXRayContext, CommandXRayTrigger, CommandXRayUpdate, ToggleStep,
};
use warp_app::command_x_ray::hover::{CommandXRayHover, HoverOutcome, HoverProbe};
use warp_app::command_x_ray::offsets::{
    byte_index_to_char_index, char_index_to_byte_index, token_char_range, token_start_byte_offset,
};
use warp_app::command_x_ray::requested::{CommandXRayHoverState, XRayRequest};

#[test]
fn token_start_snaps_to_the_start_of_the_hovered_token() {
    let command = "git commit --amend";
    for char_index in 4..=9 {
        assert_eq!(
            token_start_byte_offset(command, char_index),
            4,
            "char index {char_index} should snap to the start of `commit`"
        );
    }
}

#[test]
fn token_start_snaps_to_the_start_of_the_first_token() {
    let command = "git commit";
    assert_eq!(token_start_byte_offset(command, 0), 0);
    assert_eq!(token_start_byte_offset(command, 2), 0);
}

#[test]
fn token_start_on_whitespace_snaps_to_the_preceding_token() {
    let command = "git commit";
    assert_eq!(token_start_byte_offset(command, 3), 0);
}

#[test]
fn token_start_handles_multibyte_characters() {
    let command = "echo 🚀 --flag";
    let rocket_char_index = 5;
    let rocket_byte_index = 5;
    let flag_char_index = 7;
    let flag_byte_index = "echo 🚀 ".len();

    assert_eq!(token_start_byte_offset(command, rocket_char_index), rocket_byte_index);
    assert_eq!(token_start_byte_offset(command, flag_char_index + 2), flag_byte_index);
}

#[test]
fn token_start_clamps_past_the_end_of_the_command() {
    let command = "ls -la";
    assert_eq!(token_start_byte_offset(command, 999), 3);
}

#[test]
fn char_and_byte_indices_round_trip_across_multibyte_characters() {
    let command = "echo 🚀 done";

    for (byte_index, _) in command.char_indices() {
        let char_index = byte_index_to_char_index(command, byte_index);
        assert_eq!(char_index_to_byte_index(command, char_index), byte_index);
    }
}

#[test]
fn byte_index_inside_a_multibyte_character_snaps_down() {
    let command = "🚀 go";
    assert_eq!(byte_index_to_char_index(command, 1), 0);
}

#[test]
fn char_and_byte_index_conversions_clamp_past_the_end() {
    let command = "ls";
    assert_eq!(char_index_to_byte_index(command, 99), command.len());
    assert_eq!(byte_index_to_char_index(command, 99), 2);
}

#[test]
fn token_char_range_converts_a_byte_span_to_characters() {
    let command = "echo 🚀 --flag";
    let flag_byte_start = "echo 🚀 ".len();
    let flag_byte_end = command.len();

    assert_eq!(token_char_range(command, flag_byte_start..flag_byte_end), 7..13);
}

#[test]
fn character_index_round_trip_over_two_byte_and_three_byte_characters() {
    let command = "é€x";
    assert_eq!(char_index_to_byte_index(command, 1), 2);
    assert_eq!(char_index_to_byte_index(command, 2), 5);
    for k in 0..=3 {
        let b = char_index_to_byte_index(command, k);
        assert_eq!(byte_index_to_char_index(command, b), k);
    }
    assert_eq!(byte_index_to_char_index(command, 3), 1);
    assert_eq!(byte_index_to_char_index(command, 4), 1);
}

#[test]
fn pointer_is_within_the_described_token_only_inside_its_range() {
    let mut state = CommandXRayHoverState::new();
    state.set_described_token_range(Some(4..10));

    state.set_hovered_char_index(Some(3));
    assert!(!state.is_pointer_within_described_token());
    state.set_hovered_char_index(Some(4));
    assert!(state.is_pointer_within_described_token());
    state.set_hovered_char_index(Some(9));
    assert!(state.is_pointer_within_described_token());
    state.set_hovered_char_index(Some(10));
    assert!(!state.is_pointer_within_described_token());
}

#[test]
fn pointer_is_not_within_a_token_when_nothing_is_described_or_hovered() {
    let mut state = CommandXRayHoverState::new();
    state.set_hovered_char_index(Some(4));
    assert!(!state.is_pointer_within_described_token());
    state.set_described_token_range(Some(4..10));
    state.set_hovered_char_index(None);
    assert!(!state.is_pointer_within_described_token());
}

#[test]
fn clearing_the_described_token_leaves_no_token_bounds() {
    let mut state = CommandXRayHoverState::new();
    state.set_described_token_range(Some(0..3));
    state.set_hovered_char_index(Some(1));
    assert!(state.is_pointer_within_described_token());
    state.set_described_token_range(None);
    assert!(!state.is_pointer_within_described_token());
}

#[test]
fn dismissing_clears_the_described_token() {
    let mut state = CommandXRayHoverState::new();
    state.set_described_token_range(Some(0..3));
    state.set_hovered_char_index(Some(1));
    state.mark_user_dismissed();
    assert!(!state.is_pointer_within_described_token());
}

#[test]
fn requested_hover_opens_after_rest_and_closes_after_leaving() {
    let mut state = CommandXRayHoverState::new();
    state.set_hovered_char_index(Some(2));
    let first = state.mouse_moved(false, true, false);
    assert!(first.arm_timer && !first.updated);
    let open = state.mouse_moved(true, true, true);
    assert_eq!(open.request, Some(XRayRequest::ShowAtPointer));
    assert!(state.is_visible());
    state.set_described_token_range(Some(0..3));
    let small_move = state.mouse_moved(false, true, true);
    assert!(small_move.request.is_none());
    assert!(state.is_visible());
    let mut state2 = CommandXRayHoverState::new();
    state2.set_hovered_char_index(Some(2));
    state2.mouse_moved(false, true, false);
    state2.mouse_moved(true, true, true);
    state2.set_described_token_range(Some(0..3));
    state2.set_hovered_char_index(Some(8));
    let close = state2.mouse_moved(false, true, true);
    assert_eq!(close.request, Some(XRayRequest::Hide));
    assert!(!state2.is_visible());
    assert!(!state2.is_pointer_within_described_token());
}

fn probe(is_clamped: bool, is_within_token: bool) -> impl FnOnce() -> HoverProbe {
    move || HoverProbe { is_clamped, is_within_token }
}

#[test]
fn hover_waits_for_the_timer_then_shows() {
    let hover = &mut CommandXRayHover::new();
    let step = hover.on_mouse_moved(false, true, false, probe(false, false));
    assert_eq!(step.outcome, HoverOutcome::Idle);
    assert!(step.arm_timer);
    assert!(hover.is_armed());

    let step = hover.on_mouse_moved(true, true, false, probe(false, false));
    assert_eq!(step.outcome, HoverOutcome::Idle);
    assert!(!hover.is_visible());

    let step = hover.on_mouse_moved(true, true, true, probe(false, false));
    assert_eq!(step.outcome, HoverOutcome::Show);
    assert!(step.cancel_timer);
    assert!(hover.is_visible());
    assert!(step.outcome.is_handled());
}

#[test]
fn hover_does_not_show_past_the_end_of_the_text() {
    let hover = &mut CommandXRayHover::new();
    hover.on_mouse_moved(false, true, false, probe(true, false));
    let step = hover.on_mouse_moved(true, true, true, probe(true, false));
    assert_eq!(step.outcome, HoverOutcome::Idle);
    assert!(!step.outcome.is_handled());
}

#[test]
fn leaving_the_text_hides_an_open_tooltip_without_probing() {
    let hover = &mut CommandXRayHover::new();
    hover.on_mouse_moved(false, true, false, probe(false, false));
    hover.on_mouse_moved(true, true, true, probe(false, false));
    let step = hover.on_mouse_moved(false, false, true, || panic!("no probe outside the text"));
    assert_eq!(step.outcome, HoverOutcome::Hide);
    assert!(!hover.is_armed());
}

#[test]
fn dismissed_hover_stays_closed_until_the_pointer_moves_away() {
    let hover = &mut CommandXRayHover::new();
    hover.on_mouse_moved(false, true, false, probe(false, false));
    hover.on_mouse_moved(true, true, true, probe(false, false));
    hover.mark_user_dismissed();
    assert!(hover.is_user_dismissed());
    let step = hover.on_mouse_moved(true, true, true, || panic!("no probe while dismissed"));
    assert_eq!(step.outcome, HoverOutcome::Idle);
    let step = hover.on_mouse_moved(false, true, true, || panic!("no probe while dismissed"));
    assert_eq!(step.outcome, HoverOutcome::Hide);
    assert!(step.arm_timer);
    assert!(!hover.is_user_dismissed());
}

#[test]
fn open_tooltip_survives_small_moves_and_moves_within_the_token() {
    let hover = &mut CommandXRayHover::new();
    hover.on_mouse_moved(false, true, false, probe(false, false));
    hover.on_mouse_moved(true, true, true, probe(false, false));
    assert_eq!(hover.on_mouse_moved(true, true, true, probe(false, false)).outcome, HoverOutcome::Idle);
    assert_eq!(hover.on_mouse_moved(false, true, true, probe(false, true)).outcome, HoverOutcome::Idle);
    assert!(hover.is_visible());
    assert_eq!(hover.on_mouse_moved(false, true, true, probe(false, false)).outcome, HoverOutcome::Hide);
}

#[test]
fn x_ray_host_hides_only_what_shows() {
    assert!(matches!(hide_update::<u8>(true), Some(CommandXRayUpdate::Dismiss)));
    assert!(hide_update::<u8>(false).is_none());
    assert_eq!(toggle_step(true), ToggleStep::Hide);
    assert_eq!(toggle_step(false), ToggleStep::Describe);
}

#[test]
fn x_ray_host_announces_keyboard_descriptions() {
    let (update, announce) = show_update(Some("ls"), CommandXRayTrigger::Keystroke);
    assert!(matches!(update, CommandXRayUpdate::Show("ls")));
    assert!(announce);
    let (update, announce) = show_update(Some("ls"), CommandXRayTrigger::Hover);
    assert!(matches!(update, CommandXRayUpdate::Show("ls")));
    assert!(!announce);
    let (update, announce) = show_update::<&str>(None, CommandXRayTrigger::Keystroke);
    assert!(matches!(update, CommandXRayUpdate::Empty));
    assert!(!announce);
    assert_ne!(CommandXRayContext::Session, CommandXRayContext::SessionAgnostic);
}

#[test]
fn x_ray_label_cuts_long_tokens() {
    assert_eq!(truncated_token_label("git"), "git");
    assert_eq!(truncated_token_label("abcdefghijklmnop"), "abcdefghijklmnop");
    assert_eq!(truncated_token_label("abcdefghijklmnopq"), "abcdefghijklmnop...");
    assert_eq!(truncated_token_label("ééééééééééééééééé"), "éééééééééééééééé...");
    assert_eq!(truncated_token_label(""), "");
}

/// A host around the hover machine, as a view's element drives it: it keeps
/// the hover point and the timer's deadline on a clock the test advances,
/// measures the pointer against the 3px threshold, and records the timers
/// it arms and cancels.
struct FakeHost {
    hover: CommandXRayHover,
    now_ms: u64,
    hover_point: (f32, f32),
    deadline_ms: Option<u64>,
    armed: Vec<u32>,
    cancelled: Vec<u32>,
}

const DELAY_MS: u64 = 500;

impl FakeHost {
    fn new() -> Self {
        FakeHost {
            hover: CommandXRayHover::new(),
            now_ms: 0,
            hover_point: (0., 0.),
            deadline_ms: None,
            armed: Vec::new(),
            cancelled: Vec::new(),
        }
    }

    fn advance(&mut self, ms: u64) {
        self.now_ms += ms;
    }

    fn last_armed(&self) -> u32 {
        *self.armed.last().expect("a timer was armed")
    }

    fn moved(&mut self, x: f32, y: f32, in_bounds: bool, probe: fn() -> HoverProbe) -> HoverOutcome {
        let (dx, dy) = (self.hover_point.0 - x, self.hover_point.1 - y);
        let within = (dx * dx + dy * dy).sqrt() < 3.;
        let elapsed = self.deadline_ms.is_some_and(|d| self.now_ms >= d);
        let step = self.hover.on_mouse_moved(within, in_bounds, elapsed, probe);
        if step.cancel_timer {
            if let Some(id) = self.armed.last() {
                self.cancelled.push(*id);
            }
            self.deadline_ms = None;
        }
        if step.arm_timer {
            self.armed.push(self.armed.len() as u32);
            self.hover_point = (x, y);
            self.deadline_ms = Some(self.now_ms + DELAY_MS);
        }
        step.outcome
    }
}

fn over_token() -> HoverProbe {
    HoverProbe { is_clamped: false, is_within_token: true }
}

fn off_token() -> HoverProbe {
    HoverProbe { is_clamped: false, is_within_token: false }
}

fn clamped() -> HoverProbe {
    HoverProbe { is_clamped: true, is_within_token: false }
}

fn hover_until_shown(host: &mut FakeHost, x: f32, y: f32) {
    assert_eq!(host.moved(x, y, true, off_token), HoverOutcome::Idle, "the first move only arms the timer");
    host.advance(DELAY_MS);
    assert_eq!(host.moved(x + 1., y, true, off_token), HoverOutcome::Show);
}

#[test]
fn first_move_arms_the_timer_without_showing() {
    let mut host = FakeHost::new();
    assert_eq!(host.moved(10., 10., true, off_token), HoverOutcome::Idle);
    assert!(host.hover.is_armed());
    assert!(!host.hover.is_visible());
    assert_eq!(host.armed.len(), 1);
}

#[test]
fn does_not_show_before_the_hover_delay_elapses() {
    let mut host = FakeHost::new();
    host.moved(10., 10., true, off_token);
    host.advance(DELAY_MS - 1);
    assert_eq!(host.moved(11., 10., true, off_token), HoverOutcome::Idle);
    assert!(!host.hover.is_visible());
}

#[test]
fn shows_once_the_delay_has_elapsed_and_the_pointer_has_barely_moved() {
    let mut host = FakeHost::new();
    host.moved(10., 10., true, off_token);
    let armed = host.last_armed();
    host.advance(DELAY_MS);
    assert_eq!(host.moved(12., 10., true, off_token), HoverOutcome::Show);
    assert!(host.hover.is_visible());
    assert!(host.cancelled.contains(&armed), "the pending timer is cancelled once the tooltip is open");
}

#[test]
fn movement_past_the_threshold_restarts_the_delay_instead_of_showing() {
    let mut host = FakeHost::new();
    host.moved(10., 10., true, off_token);
    host.advance(DELAY_MS);
    assert_eq!(host.moved(14., 10., true, off_token), HoverOutcome::Idle);
    assert!(!host.hover.is_visible());
    assert_eq!(host.armed.len(), 2, "a fresh timer is armed");
}

#[test]
fn does_not_show_for_a_clamped_position() {
    let mut host = FakeHost::new();
    host.moved(10., 10., true, clamped);
    host.advance(DELAY_MS);
    assert_eq!(
        host.moved(11., 10., true, clamped),
        HoverOutcome::Idle,
        "a position past the end of the text describes nothing"
    );
    assert!(!host.hover.is_visible());
}

#[test]
fn stays_open_while_the_pointer_is_still_over_the_token() {
    let mut host = FakeHost::new();
    hover_until_shown(&mut host, 10., 10.);
    assert_eq!(host.moved(40., 10., true, over_token), HoverOutcome::Idle);
    assert!(host.hover.is_visible());
}

#[test]
fn stays_open_for_a_sub_threshold_move_off_the_token() {
    let mut host = FakeHost::new();
    hover_until_shown(&mut host, 10., 10.);
    assert_eq!(host.moved(12., 10., true, off_token), HoverOutcome::Idle);
    assert!(host.hover.is_visible());
}

#[test]
fn hides_when_the_pointer_leaves_the_token_bounds() {
    let mut host = FakeHost::new();
    hover_until_shown(&mut host, 10., 10.);
    assert_eq!(host.moved(60., 10., true, off_token), HoverOutcome::Hide);
    assert!(!host.hover.is_visible());
    assert!(host.hover.is_armed(), "leaving the token re-arms rather than clearing, so a new hover can open");
}

#[test]
fn hides_and_clears_when_the_pointer_leaves_the_host() {
    let mut host = FakeHost::new();
    hover_until_shown(&mut host, 10., 10.);
    assert_eq!(host.moved(500., 500., false, off_token), HoverOutcome::Hide);
    assert!(!host.hover.is_armed(), "a mouse leave resets the state");
}

#[test]
fn a_dismissal_keeps_the_tooltip_closed_until_the_pointer_moves() {
    let mut host = FakeHost::new();
    hover_until_shown(&mut host, 10., 10.);
    host.hover.mark_user_dismissed();
    assert!(host.hover.is_user_dismissed());
    host.advance(DELAY_MS);
    assert_eq!(host.moved(12., 10., true, over_token), HoverOutcome::Idle);
    assert!(host.hover.is_user_dismissed());
    assert_eq!(host.moved(60., 10., true, over_token), HoverOutcome::Hide);
    assert!(!host.hover.is_user_dismissed());
    assert!(host.hover.is_armed());
}

#[test]
fn a_dismissed_hover_can_open_again_after_the_pointer_moves() {
    let mut host = FakeHost::new();
    hover_until_shown(&mut host, 10., 10.);
    host.hover.mark_user_dismissed();
    host.moved(60., 10., true, off_token);
    host.advance(DELAY_MS);
    assert_eq!(host.moved(61., 10., true, off_token), HoverOutcome::Show);
}

#[test]
fn out_of_bounds_moves_are_not_reported_as_handled_when_nothing_was_pending() {
    let mut host = FakeHost::new();
    let outcome = host.moved(500., 500., false, off_token);
    assert_eq!(outcome, HoverOutcome::Idle);
    assert!(!outcome.is_handled());
}
