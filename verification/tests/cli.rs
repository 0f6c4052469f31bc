use instantmenu::cli::{parse_line_height, parse_monitor, parse_width, parse_window_id, SlideArgs};
use instantmenu::config::{LineHeight, MonitorChoice, SlideSettings, Width};
use instantmenu::enums::{Direction, ExitStatus};

#[test]
fn embed_ids_parse_strictly() {
    assert_eq!(parse_window_id("0x2a"), Ok(42));
    assert_eq!(parse_window_id("42"), Ok(42));
    assert!(parse_window_id("banana").is_err());
    assert!(parse_window_id("-1").is_err());
    assert!(parse_window_id("0x2a").is_ok());
    assert!(parse_window_id("banana").is_err());
}

#[test]
fn auto_sizing_values_parse() {
    assert_eq!(parse_width("auto"), Ok(Width::Auto));
    assert_eq!(parse_line_height("auto"), Ok(LineHeight::FromFont));
    assert_eq!(parse_width("900"), Ok(Width::Fixed(900)));
    assert_eq!(parse_line_height("20"), Ok(LineHeight::Pixels(20)));
}

#[test]
fn monitor_choice_parses() {
    assert_eq!(parse_monitor("auto"), Ok(MonitorChoice::Auto));
    assert_eq!(parse_monitor("1"), Ok(MonitorChoice::Index(1)));
    assert!(parse_monitor("banana").is_err());
}

#[test]
fn negative_sentinels_rejected() {
    for bad in ["-1", "0"] {
        assert!(parse_width(bad).is_err(), "--width {bad}");
        assert!(parse_line_height(bad).is_err(), "--line-height {bad}");
    }
    assert!(parse_monitor("-1").is_err());
}

#[test]
fn value_errors_say_what_was_expected() {
    assert_eq!(parse_window_id("zz"), Err("invalid window id: `zz`".to_string()));
    assert_eq!(parse_window_id(" 0X1F "), Ok(31));
    assert_eq!(parse_window_id("4294967296"), Err("invalid window id: `4294967296`".to_string()));
    assert_eq!(
        parse_width("wide"),
        Err("invalid width: `wide` (expected a positive number or `auto`)".to_string())
    );
    assert_eq!(
        parse_width("-3"),
        Err("width must be a positive number or `auto`, got `-3`".to_string())
    );
    assert_eq!(parse_width("AUTO"), Ok(Width::Auto));
    assert_eq!(
        parse_line_height("0"),
        Err("line height must be a positive number or `auto`, got `0`".to_string())
    );
    assert_eq!(
        parse_monitor("x"),
        Err("invalid monitor: `x` (expected a number or `auto`)".to_string())
    );
}

#[test]
fn slide_command_prefers_the_positional_form() {
    let args = SlideArgs {
        min: 0,
        max: 100,
        value: None,
        step: None,
        big_step: None,
        command: Some("brightnessctl set".to_string()),
        command_flag: None,
    };
    assert_eq!(args.resolved_command().as_deref(), Some("brightnessctl set"));
    let flag = SlideArgs {
        command: None,
        command_flag: Some("pamixer --set-volume".to_string()),
        ..args.clone()
    };
    assert_eq!(flag.resolved_command().as_deref(), Some("pamixer --set-volume"));
}

#[test]
fn slide_defaults_fill_in_and_bad_ranges_fail() {
    let mut s = SlideSettings::default();
    assert_eq!(s.resolve(), Ok(()));
    assert_eq!((s.value, s.step, s.big_step), (Some(50), Some(1), Some(10)));
    let mut narrow = SlideSettings {
        min: 0,
        max: 20,
        value: Some(99),
        step: Some(7),
        ..SlideSettings::default()
    };
    assert_eq!(narrow.resolved_value(), 20);
    assert_eq!(narrow.resolved_big_step(), 7);
    assert_eq!(narrow.resolve(), Ok(()));
    let mut inverted = SlideSettings {
        min: 5,
        max: 5,
        ..SlideSettings::default()
    };
    assert_eq!(
        inverted.resolve(),
        Err("slide: minimum (5) must be less than maximum (5)".to_string())
    );
}

#[test]
fn small_enums_map_to_numbers() {
    assert_eq!(ExitStatus::Success.code(), 0);
    assert_eq!(ExitStatus::Failure.code(), 1);
    assert_eq!(Direction::Forward.step(), 1);
    assert_eq!(Direction::Backward.step(), -1);
    assert_eq!(LineHeight::Pixels(12).pixels(), 12);
    assert_eq!(LineHeight::FromFont.pixels(), 0);
    assert_eq!(LineHeight::Default.pixels(), 0);
}
