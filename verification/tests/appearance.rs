use instantmenu::appearance::{
    parse_color, resolve_appearance, Appearance, AppearanceError, CliColors, ColorOverrides,
    Palette, SchemeColors, SchemeOverride, Theme, ThemePalettes,
};
use instantmenu::color::Color;

fn scheme(v: u32) -> SchemeColors {
    SchemeColors {
        fg: Color::hex(v),
        bg: Color::hex(v + 1),
        detail: Color::hex(v + 2),
    }
}

fn palette() -> Palette {
    Palette {
        normal: scheme(0x100),
        fade: scheme(0x200),
        highlight: scheme(0x300),
        hover: scheme(0x400),
        selected: scheme(0x500),
        output: scheme(0x600),
        green: scheme(0x700),
        yellow: scheme(0x800),
        red: scheme(0x900),
    }
}

fn palette_at(base: u32) -> Palette {
    Palette {
        normal: scheme(base + 0x10),
        fade: scheme(base + 0x20),
        highlight: scheme(base + 0x30),
        hover: scheme(base + 0x40),
        selected: scheme(base + 0x50),
        output: scheme(base + 0x60),
        green: scheme(base + 0x70),
        yellow: scheme(base + 0x80),
        red: scheme(base + 0x90),
    }
}

fn themes() -> ThemePalettes {
    ThemePalettes {
        catppuccin: palette_at(0x10000),
        classic: palette_at(0x20000),
        gruvbox: palette_at(0x30000),
    }
}

fn over(fg: Option<&str>, bg: Option<&str>, detail: Option<&str>) -> SchemeOverride {
    SchemeOverride {
        foreground: fg.map(str::to_string),
        background: bg.map(str::to_string),
        detail: detail.map(str::to_string),
    }
}

#[test]
fn colors_parse_or_name_where_they_were_written() {
    assert_eq!(parse_color("selected", "background", "#010203"), Ok(Color::hex(0x010203)));
    assert_eq!(parse_color("normal", "detail", "#abc"), Ok(Color::hex(0xaabbcc)));
    assert_eq!(
        parse_color("normal", "foreground", "nope"),
        Err("invalid color `nope` for colors.normal.foreground".to_string())
    );
}

#[test]
fn named_overrides_replace_only_their_colors() {
    let mut p = palette();
    let overrides = ColorOverrides {
        selected: Some(over(None, Some("#010203"), Some("#ffffff"))),
        ..ColorOverrides::default()
    };
    overrides.apply(&mut p).unwrap();
    assert_eq!(p.selected.bg, Color::hex(0x010203));
    assert_eq!(p.selected.detail, Color::hex(0xffffff));
    assert_eq!(p.selected.fg, palette().selected.fg);
    assert_eq!(p.normal, palette().normal);
    assert_eq!(p.red, palette().red);
}

#[test]
fn an_invalid_value_stops_the_overrides_and_names_its_place() {
    let mut p = palette();
    let overrides = ColorOverrides {
        normal: Some(over(Some("#000001"), None, None)),
        hover: Some(over(Some("#000002"), Some("nope"), Some("#000003"))),
        red: Some(over(Some("#000004"), None, None)),
        ..ColorOverrides::default()
    };
    assert_eq!(
        overrides.apply(&mut p),
        Err("invalid color `nope` for colors.hover.background".to_string())
    );
    assert_eq!(p.normal.fg, Color::hex(1));
    assert_eq!(p.hover.fg, Color::hex(2));
    assert_eq!(p.hover.bg, palette().hover.bg);
    assert_eq!(p.hover.detail, palette().hover.detail);
    assert_eq!(p.red, palette().red);
}

#[test]
fn the_font_must_not_be_blank() {
    let mut font = "Inter-Regular:size=12".to_string();
    let mut p = palette();
    let blank = Appearance {
        font: Some("   ".to_string()),
        theme: Some(Theme::Gruvbox),
        colors: ColorOverrides::default(),
    };
    assert_eq!(
        blank.apply(&mut font, &mut p, &themes()),
        Err("`font` must not be empty".to_string())
    );
    assert_eq!(font, "Inter-Regular:size=12");
    assert_eq!(p, palette());
    let set = Appearance {
        font: Some("Iosevka:size=13".to_string()),
        theme: None,
        colors: ColorOverrides {
            red: Some(over(None, None, Some("#123456"))),
            ..ColorOverrides::default()
        },
    };
    assert_eq!(set.apply(&mut font, &mut p, &themes()), Ok(()));
    assert_eq!(font, "Iosevka:size=13");
    assert_eq!(p.red.detail, Color::hex(0x123456));
}

#[test]
fn a_scheme_override_sets_foreground_background_and_detail() {
    let mut s = scheme(0);
    over(Some("#111111"), Some("#222222"), Some("#333333"))
        .apply("green", &mut s)
        .unwrap();
    assert_eq!(
        s,
        SchemeColors {
            fg: Color::hex(0x111111),
            bg: Color::hex(0x222222),
            detail: Color::hex(0x333333),
        }
    );
}

#[test]
fn theme_then_named_overrides() {
    let mut font = "Inter-Regular:size=12".to_string();
    let mut p = palette();
    let a = Appearance {
        font: Some("Iosevka:size=13".to_string()),
        theme: Some(Theme::Gruvbox),
        colors: ColorOverrides {
            selected: Some(over(None, Some("#010203"), Some("rebeccapurple"))),
            ..ColorOverrides::default()
        },
    };
    assert_eq!(a.apply(&mut font, &mut p, &themes()), Ok(()));
    assert_eq!(font, "Iosevka:size=13");
    assert_eq!(p.normal, themes().gruvbox.normal);
    assert_eq!(p.selected.bg, Color::hex(0x010203));
    assert_ne!(p.selected.detail, themes().gruvbox.selected.detail);
    assert_eq!(p.selected.detail, Color::hex(0x663399));
}

#[test]
fn named_colors_parse() {
    assert_eq!(parse_color("normal", "detail", "rebeccapurple"), Ok(Color::hex(0x663399)));
    assert_eq!(parse_color("normal", "detail", "aliceblue"), Ok(Color::hex(0xf0f8ff)));
    assert_eq!(parse_color("normal", "detail", "yellowgreen"), Ok(Color::hex(0x9acd32)));
    assert_eq!(
        parse_color("red", "foreground", "mystery"),
        Err("invalid color `mystery` for colors.red.foreground".to_string())
    );
}

#[test]
fn built_in_themes_parse() {
    assert_eq!(Theme::parse("default"), Some(Theme::Catppuccin));
    assert_eq!(Theme::parse("catppuccin"), Some(Theme::Catppuccin));
    assert_eq!(Theme::parse("classic"), Some(Theme::Classic));
    assert_eq!(Theme::parse("gruvbox"), Some(Theme::Gruvbox));
    assert_eq!(Theme::parse("unknown"), None);
    assert_eq!(themes().palette(Theme::Classic), palette_at(0x20000));
}

#[test]
fn explicit_colors_override_the_selected_theme() {
    let mut p = palette();
    let cli = CliColors {
        theme: Some(Theme::Gruvbox),
        normal_bg: Some("#010203".to_string()),
        ..CliColors::default()
    };
    assert_eq!(cli.apply(&mut p, &themes()), Ok(()));
    assert_eq!(p.normal.bg, Color::hex(0x010203));
    assert_eq!(p.normal.fg, themes().gruvbox.normal.fg);
    assert_eq!(p.selected.bg, themes().gruvbox.selected.bg);
}

#[test]
fn a_bad_command_line_color_changes_nothing() {
    let mut p = palette();
    let cli = CliColors {
        theme: Some(Theme::Classic),
        normal_bg: Some("navy".to_string()),
        selected_fg: Some("nope".to_string()),
        ..CliColors::default()
    };
    assert_eq!(
        cli.apply(&mut p, &themes()),
        Err("invalid color `nope` for --selected-fg".to_string())
    );
    assert_eq!(p, palette());
}

#[test]
fn the_built_in_gruvbox_theme_matches_the_readme() {
    let t = instantmenu::appearance::builtin_themes();
    assert_eq!(t.gruvbox.normal.fg, Color::hex(0xEBDBB2));
    assert_eq!(t.gruvbox.normal.bg, Color::hex(0x282828));
    assert_eq!(t.gruvbox.selected.bg, Color::hex(0x83A598));
    assert_eq!(t.classic.normal.bg, Color::hex(0x121212));
}

#[test]
fn the_file_then_the_command_line() {
    let mut font = "Inter".to_string();
    let mut p = palette();
    let file = Appearance {
        font: Some("Iosevka".to_string()),
        theme: Some(Theme::Classic),
        colors: ColorOverrides {
            normal: Some(over(Some("#000001"), Some("#000002"), None)),
            ..ColorOverrides::default()
        },
    };
    let cli = CliColors {
        theme: None,
        normal_bg: Some("navy".to_string()),
        ..CliColors::default()
    };
    assert_eq!(
        resolve_appearance(Some(file), Some("Fira".to_string()), &cli, &mut font, &mut p, &themes()),
        Ok(())
    );
    assert_eq!(font, "Fira");
    assert_eq!(p.normal.fg, Color::hex(1));
    assert_eq!(p.normal.bg, Color::hex(0x000080));
    assert_eq!(p.red, themes().classic.red);
    let bad = Appearance {
        font: None,
        theme: None,
        colors: ColorOverrides { red: Some(over(Some("nope"), None, None)), ..ColorOverrides::default() },
    };
    assert_eq!(
        resolve_appearance(Some(bad), None, &cli, &mut font, &mut p, &themes()),
        Err(AppearanceError::File("invalid color `nope` for colors.red.foreground".to_string()))
    );
    let bad_cli = CliColors { normal_fg: Some("#12".to_string()), ..CliColors::default() };
    assert_eq!(
        resolve_appearance(None, None, &bad_cli, &mut font, &mut p, &themes()),
        Err(AppearanceError::CommandLine("invalid color `#12` for --normal-fg".to_string()))
    );
}
