use instantmenu::config::{LineHeight, MonitorChoice};
use instantmenu::geom::{Point, Rect};
use instantmenu::startup::{
    clamp_line_height, focused_output, grid_shape, output_at_pointer, output_probe, startup_plan,
    OutputProbe, StdinMode,
};

#[test]
fn streaming_grabs_first_and_a_tty_is_read_first() {
    let stream = startup_plan(false, false, false, false);
    assert_eq!(stream.mode, StdinMode::Stream);
    assert!(stream.grab_early && !stream.grab_late);
    let tty = startup_plan(false, false, true, false);
    assert_eq!(tty.mode, StdinMode::Load);
    assert!(!tty.grab_early && tty.grab_late);
    let toast = startup_plan(false, true, false, false);
    assert_eq!(toast.mode, StdinMode::Load);
    assert!(!toast.grab_early && !toast.grab_late);
    let password = startup_plan(true, false, true, false);
    assert_eq!(password.mode, StdinMode::Skip);
    assert!(password.grab_early);
    let no_grab = startup_plan(false, false, false, true);
    assert!(!no_grab.grab_early && !no_grab.grab_late);
}

#[test]
fn the_output_follows_the_monitor_choice() {
    assert_eq!(output_probe(MonitorChoice::Index(1), false, 2), OutputProbe::Fixed(Some(1)));
    assert_eq!(output_probe(MonitorChoice::Index(5), false, 2), OutputProbe::Fixed(Some(0)));
    assert_eq!(output_probe(MonitorChoice::Auto, true, 2), OutputProbe::Pointer);
    assert_eq!(output_probe(MonitorChoice::Auto, false, 2), OutputProbe::Focus);
    let outputs = [Rect::new(0, 0, 100, 100), Rect::new(100, 0, 100, 100)];
    assert_eq!(output_at_pointer(&outputs, Some(Point::new(100, 5))), Some(1));
    assert_eq!(output_at_pointer(&outputs, Some(Point::new(99, 5))), Some(0));
    assert_eq!(output_at_pointer(&outputs, Some(Point::new(300, 5))), None);
    assert_eq!(output_at_pointer(&outputs, None), None);
    assert_eq!(focused_output(Some(1), 2), Some(1));
    assert_eq!(focused_output(Some(2), 2), None);
    assert_eq!(focused_output(None, 2), None);
}

#[test]
fn values_combine_with_the_defaults() {
    assert_eq!(clamp_line_height(LineHeight::Pixels(3), false), LineHeight::Pixels(8));
    assert_eq!(clamp_line_height(LineHeight::Pixels(3), true), LineHeight::Pixels(3));
    assert_eq!(clamp_line_height(LineHeight::Pixels(20), false), LineHeight::Pixels(20));
    assert_eq!(clamp_line_height(LineHeight::FromFont, false), LineHeight::FromFont);
    assert_eq!(grid_shape(0, 1, None, Some(4)), (1, 4));
    assert_eq!(grid_shape(0, 1, Some(10), Some(4)), (10, 4));
    assert_eq!(grid_shape(0, 1, Some(10), None), (10, 1));
    assert_eq!(grid_shape(0, 1, None, None), (0, 1));
}
