use instantmenu::backend::{
    root_events_mappable, route_motion, route_press, route_release, InputSource, MouseButton,
    PressRoute,
};
use instantmenu::backend::{
    best_mime, bordered, first_ready, layer_margins, monitor_for_window, single_focused_output, output_for_point, outputs_union_size, remaining_ms,
    states_contain_activated, KeyboardRepeat,
};
use instantmenu::geom::{Point, Rect, Size};

const MS: u64 = 1_000_000;
const SECOND: u64 = 1_000 * MS;
/// An arbitrary origin for the tests' clock.
const START: u64 = 5 * SECOND;

fn states(values: &[u32]) -> Vec<u8> {
    values
        .iter()
        .flat_map(|value| value.to_ne_bytes())
        .collect()
}

#[test]
fn foreign_toplevel_state_finds_activated_anywhere() {
    assert!(states_contain_activated(&states(&[0, 3, 2])));
    assert!(!states_contain_activated(&states(&[0, 1, 3])));
}

#[test]
fn foreign_toplevel_state_ignores_incomplete_trailing_word() {
    let mut bytes = states(&[1]);
    bytes.extend_from_slice(&2_u32.to_ne_bytes()[..3]);
    assert!(!states_contain_activated(&bytes));
}

#[test]
fn positive_repeat_info_uses_delay_then_rate() {
    let start = START;
    let mut repeat = KeyboardRepeat::new();
    repeat.update_info(25, 300, start);
    repeat.arm(38, start);

    assert_eq!(repeat.deadline(), Some(start + 300 * MS));
    assert_eq!(repeat.take_due(start + 299 * MS), None);
    assert_eq!(repeat.take_due(start + 300 * MS), Some(38));
    assert_eq!(repeat.deadline(), Some(start + 340 * MS));
}

#[test]
fn zero_rate_disables_and_cancels_client_repeat() {
    let start = START;
    let mut repeat = KeyboardRepeat::new();
    repeat.update_info(20, 200, start);
    repeat.arm(24, start);
    repeat.update_info(0, 200, start + 50 * MS);

    assert_eq!(repeat.deadline(), None);
    assert_eq!(repeat.take_due(start + SECOND), None);
}

#[test]
fn only_releasing_the_active_key_cancels_it() {
    let start = START;
    let mut repeat = KeyboardRepeat::new();
    repeat.update_info(10, 100, start);
    repeat.arm(24, start);
    repeat.release(25);
    assert!(repeat.deadline().is_some());
    repeat.release(24);
    assert_eq!(repeat.deadline(), None);
}

#[test]
fn delayed_loop_does_not_emit_a_catch_up_burst() {
    let start = START;
    let late = start + 2 * SECOND;
    let mut repeat = KeyboardRepeat::new();
    repeat.update_info(20, 100, start);
    repeat.arm(24, start);

    assert_eq!(repeat.take_due(late), Some(24));
    assert_eq!(repeat.take_due(late), None);
    assert_eq!(repeat.deadline(), Some(late + 50 * MS));
}

#[test]
fn live_rate_change_reschedules_a_repeating_key() {
    let start = START;
    let changed = start + 120 * MS;
    let mut repeat = KeyboardRepeat::new();
    repeat.update_info(20, 100, start);
    repeat.arm(24, start);
    assert_eq!(repeat.take_due(start + 100 * MS), Some(24));

    repeat.update_info(10, 400, changed);
    assert_eq!(repeat.deadline(), Some(changed + 100 * MS));
}

#[test]
fn layer_margins_follow_every_absolute_reflow() {
    let monitor = Rect::new(100, 50, 1600, 900);
    let initial = Rect::new(450, 480, 900, 30);
    let grown = Rect::new(450, 340, 900, 310);

    assert_eq!(layer_margins(initial, monitor), (430, 350));
    assert_eq!(layer_margins(grown, monitor), (290, 350));
}

#[test]
fn layer_margins_are_monitor_local_and_clamped() {
    let monitor = Rect::new(-1920, -1080, 1920, 1080);
    assert_eq!(
        layer_margins(Rect::new(-1800, -1000, 600, 300), monitor),
        (80, 120)
    );
    assert_eq!(
        layer_margins(Rect::new(-2000, -1200, 600, 300), monitor),
        (0, 0)
    );
}

#[test]
fn a_cancelled_or_never_armed_repeat_is_never_due() {
    let mut repeat = KeyboardRepeat::new();
    repeat.arm(24, START);
    assert_eq!(repeat.deadline(), None, "repeat starts disabled");
    repeat.update_info(30, 250, START);
    repeat.arm(24, START);
    repeat.cancel();
    assert_eq!(repeat.take_due(START + SECOND), None);
}

#[test]
fn negative_delay_disables_repeat() {
    let mut repeat = KeyboardRepeat::new();
    repeat.update_info(25, -1, START);
    repeat.arm(9, START);
    assert_eq!(repeat.deadline(), None);
}

#[test]
fn poll_timeouts_round_down_and_saturate() {
    assert_eq!(remaining_ms(0, None), Ok(-1));
    assert_eq!(remaining_ms(1_500_000, Some(10_000_000)), Ok(8));
    assert_eq!(remaining_ms(10_000_000, Some(10_000_000)), Err(()));
    assert_eq!(remaining_ms(0, Some(u128::MAX)), Ok(i32::MAX));
}

#[test]
fn outputs_are_found_by_half_open_containment() {
    let outputs = [Rect::new(0, 0, 1920, 1080), Rect::new(1920, 0, 1280, 1024)];
    assert_eq!(output_for_point(&outputs, Point::new(1919, 10)), 0);
    assert_eq!(output_for_point(&outputs, Point::new(1920, 10)), 1);
    assert_eq!(output_for_point(&outputs, Point::new(5000, 10)), 0);
    assert_eq!(outputs_union_size(&outputs), Size::new(3200, 1080));
    assert_eq!(outputs_union_size(&[]), Size::new(0, 0));
}

#[test]
fn a_border_grows_the_rectangle_on_every_side() {
    assert_eq!(
        bordered(Rect::new(10, 20, 100, 50), 3),
        Rect::new(10, 20, 106, 56)
    );
}

#[test]
fn the_first_ready_descriptor_is_found_from_a_start() {
    assert_eq!(first_ready(&[0, 1, 0, 8], 0), Some(1));
    assert_eq!(first_ready(&[0, 1, 0, 8], 2), Some(3));
    assert_eq!(first_ready(&[0, 0x10], 0), Some(1));
    assert_eq!(first_ready(&[4, 0, 0x20], 0), None);
    assert_eq!(first_ready(&[1], 5), None);
}

#[test]
fn pastes_prefer_utf8_text() {
    let offers: Vec<String> = ["UTF8_STRING", "TEXT/PLAIN", "text/plain;charset=UTF-8"]
        .iter()
        .map(|s| s.to_string())
        .collect();
    assert_eq!(best_mime(&offers), Some("text/plain;charset=UTF-8".to_string()));
    assert_eq!(best_mime(&offers[..2]), Some("TEXT/PLAIN".to_string()));
    assert_eq!(best_mime(&offers[..1]), Some("UTF8_STRING".to_string()));
    assert_eq!(best_mime(&["image/png".to_string()]), None);
}

#[test]
fn the_focused_window_picks_the_monitor_it_mostly_covers() {
    let monitors = [Rect::new(0, 0, 100, 100), Rect::new(100, 0, 100, 100)];
    assert_eq!(monitor_for_window(Rect::new(90, 0, 40, 10), &monitors), Some(1));
    assert_eq!(monitor_for_window(Rect::new(60, 0, 80, 10), &monitors), Some(0), "a tie goes to the first");
    assert_eq!(monitor_for_window(Rect::new(500, 500, 10, 10), &monitors), None);
    assert_eq!(single_focused_output(&[7], &[3, 7, 9]), Some(1));
    assert_eq!(single_focused_output(&[7, 9], &[3, 7, 9]), None);
    assert_eq!(single_focused_output(&[], &[3]), None);
    assert_eq!(single_focused_output(&[4], &[3]), None);
}

#[test]
fn x11_presses_are_routed() {
    assert_eq!(route_press(true, false, 4), PressRoute::Drop);
    assert_eq!(route_press(true, false, 7), PressRoute::Drop);
    assert_eq!(route_press(false, true, 4), PressRoute::Scroll(-1));
    assert_eq!(route_press(true, true, 5), PressRoute::Scroll(1));
    assert_eq!(route_press(true, false, 1), PressRoute::Button(MouseButton::Left, InputSource::External));
    assert_eq!(route_press(false, false, 3), PressRoute::Button(MouseButton::Right, InputSource::Menu));
    assert_eq!(route_press(false, true, 6), PressRoute::Drop);
}

#[test]
fn x11_motion_and_releases_map_root_coordinates_back() {
    let root = Point { x: 100, y: 50 };
    let origin = Point { x: 30, y: 20 };
    let ev = Point { x: 1, y: 2 };
    assert_eq!(route_motion(true, false, true, root, origin, ev), Some(Point { x: 70, y: 30 }));
    assert_eq!(route_motion(true, false, false, root, origin, ev), None);
    assert_eq!(route_motion(true, true, false, root, origin, ev), Some(ev));
    assert_eq!(
        route_release(true, false, false, 2, root, origin, ev),
        Some((MouseButton::Middle, ev, InputSource::External))
    );
    assert_eq!(
        route_release(true, false, true, 1, root, origin, ev),
        Some((MouseButton::Left, Point { x: 70, y: 30 }, InputSource::Menu))
    );
    assert_eq!(route_release(false, false, true, 9, root, origin, ev), None);
    assert!(root_events_mappable(false, 7, 7));
    assert!(!root_events_mappable(true, 7, 7));
}
