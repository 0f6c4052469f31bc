//! Command line values: the strict parsers behind `--embed`, `--width`,
//! `--line-height` and `--monitor`, and the option groups that hold plain
//! values (the parser itself is configured in the application).
//!
//! Numeric options parse strictly: a malformed number is an error, not
//! silently 0. Sizing options take `auto` instead of a negative sentinel.
use vstd::prelude::*;

use crate::appearance::Theme;

use crate::backend::BackendChoice;
use crate::config::{LineHeight, MonitorChoice, Position, Width};
use crate::icons::{starts_with, trim, trim_bounds};
use crate::numbers::{int_in_range, parse_int};
use crate::text::{chars_of, lower_seq, push_str};

verus! {

broadcast use vstd::string::group_string_axioms;

/// `prefix`, then `s`, then `suffix`.
pub open spec fn framed(prefix: Seq<char>, s: Seq<char>, suffix: Seq<char>) -> Seq<char> {
    prefix + s + suffix
}

fn message(prefix: &str, s: &str, suffix: &str) -> (m: String)
    ensures
        m@ == framed(prefix@, s@, suffix@),
{
    let mut m = String::new();
    push_str(&mut m, prefix);
    push_str(&mut m, s);
    push_str(&mut m, suffix);
    m
}

/// Whether `s` is `auto` in any ASCII case.
pub open spec fn is_auto(s: Seq<char>) -> bool {
    lower_seq(s) == "auto"@
}

fn is_auto_exec(cs: &[char]) -> (b: bool)
    ensures
        b == is_auto(cs@),
{
    let mut lower: Vec<char> = Vec::new();
    let mut i: usize = 0;
    while i < cs.len()
        invariant
            i <= cs@.len(),
            lower@ == lower_seq(cs@.subrange(0, i as int)),
        decreases cs.len() - i,
    {
        lower.push(crate::text::to_lower(cs[i]));
        i += 1;
        assert(lower@ =~= lower_seq(cs@.subrange(0, i as int)));
    }
    assert(cs@.subrange(0, cs@.len() as int) =~= cs@);
    let auto = chars_of("auto");
    assert(lower@.skip(0) =~= lower@);
    crate::icons::chars_eq_from(&auto, &lower, 0)
}

/// The window id a `--embed` value spells: decimal, or hex after `0x`/`0X`,
/// surrounding white space ignored.
pub open spec fn window_id_of(s: Seq<char>) -> Option<int> {
    let t = trim(s);
    if starts_with(t, seq!['0', 'x']) || starts_with(t, seq!['0', 'X']) {
        int_in_range(t.skip(2), 16, false, 0, u32::MAX as int)
    } else {
        int_in_range(t, 10, false, 0, u32::MAX as int)
    }
}

/// Parse a window id for `--embed`: decimal, or 0x-prefixed hex, strictly —
/// garbage is an error instead of silently becoming 0.
pub fn parse_window_id(s: &str) -> (r: Result<u32, String>)
    ensures
        match window_id_of(s@) {
            Some(v) => r == Ok::<u32, String>(v as u32),
            None => r is Err && r->Err_0@ == framed("invalid window id: `"@, s@, "`"@),
        },
{
    let cs = chars_of(s);
    let (a, b) = trim_bounds(&cs);
    let ghost t = cs@.subrange(a as int, b as int);
    let hex = b - a >= 2 && cs[a] == '0' && (cs[a + 1] == 'x' || cs[a + 1] == 'X');
    proof {
        if hex {
            if cs[a + 1 as int] == 'x' {
                assert(t.subrange(0, 2) =~= seq!['0', 'x']);
            } else {
                assert(t.subrange(0, 2) =~= seq!['0', 'X']);
            }
            assert(cs@.subrange(a + 2, b as int) =~= t.skip(2));
        } else {
            if starts_with(t, seq!['0', 'x']) {
                assert(t.subrange(0, 2)[0] == '0' && t.subrange(0, 2)[1] == 'x');
            }
            if starts_with(t, seq!['0', 'X']) {
                assert(t.subrange(0, 2)[0] == '0' && t.subrange(0, 2)[1] == 'X');
            }
        }
    }
    let parsed = if hex {
        parse_int(&cs, a + 2, b, 16, false, 0, 0xFFFF_FFFF)
    } else {
        parse_int(&cs, a, b, 10, false, 0, 0xFFFF_FFFF)
    };
    match parsed {
        Some(v) => Ok(v as u32),
        None => Err(message("invalid window id: `", s, "`")),
    }
}

/// What a `--width` value means: `auto`, a positive pixel count, or an error
/// saying whether the number was malformed (`Err(true)`) or not positive
/// (`Err(false)`).
pub open spec fn width_of(s: Seq<char>) -> Result<Width, bool> {
    if is_auto(s) {
        Ok(Width::Auto)
    } else {
        match int_in_range(s, 10, true, i32::MIN as int, i32::MAX as int) {
            None => Err(true),
            Some(n) => if n > 0 {
                Ok(Width::Fixed(n as i32))
            } else {
                Err(false)
            },
        }
    }
}

/// Parse `--width`: a positive pixel count, or `auto` to fit the content.
pub fn parse_width(s: &str) -> (r: Result<Width, String>)
    ensures
        match width_of(s@) {
            Ok(w) => r == Ok::<Width, String>(w),
            Err(true) => r is Err && r->Err_0@ == framed(
                "invalid width: `"@,
                s@,
                "` (expected a positive number or `auto`)"@,
            ),
            Err(false) => r is Err && r->Err_0@ == framed(
                "width must be a positive number or `auto`, got `"@,
                s@,
                "`"@,
            ),
        },
{
    let cs = chars_of(s);
    if is_auto_exec(&cs) {
        return Ok(Width::Auto);
    }
    assert(cs@.subrange(0, cs@.len() as int) =~= cs@);
    match parse_int(&cs, 0, cs.len(), 10, true, -0x8000_0000, 0x7FFF_FFFF) {
        None => Err(message("invalid width: `", s, "` (expected a positive number or `auto`)")),
        Some(n) => if n > 0 {
            Ok(Width::Fixed(n as i32))
        } else {
            Err(message("width must be a positive number or `auto`, got `", s, "`"))
        },
    }
}

/// What a `--line-height` value means, like [`width_of`].
pub open spec fn line_height_of(s: Seq<char>) -> Result<LineHeight, bool> {
    if is_auto(s) {
        Ok(LineHeight::FromFont)
    } else {
        match int_in_range(s, 10, true, i32::MIN as int, i32::MAX as int) {
            None => Err(true),
            Some(n) => if n > 0 {
                Ok(LineHeight::Pixels(n as i32))
            } else {
                Err(false)
            },
        }
    }
}

/// Parse `--line-height`: a positive pixel count, or `auto` to derive it
/// from the font.
pub fn parse_line_height(s: &str) -> (r: Result<LineHeight, String>)
    ensures
        match line_height_of(s@) {
            Ok(h) => r == Ok::<LineHeight, String>(h),
            Err(true) => r is Err && r->Err_0@ == framed(
                "invalid line height: `"@,
                s@,
                "` (expected a positive number or `auto`)"@,
            ),
            Err(false) => r is Err && r->Err_0@ == framed(
                "line height must be a positive number or `auto`, got `"@,
                s@,
                "`"@,
            ),
        },
{
    let cs = chars_of(s);
    if is_auto_exec(&cs) {
        return Ok(LineHeight::FromFont);
    }
    assert(cs@.subrange(0, cs@.len() as int) =~= cs@);
    match parse_int(&cs, 0, cs.len(), 10, true, -0x8000_0000, 0x7FFF_FFFF) {
        None => Err(
            message("invalid line height: `", s, "` (expected a positive number or `auto`)"),
        ),
        Some(n) => if n > 0 {
            Ok(LineHeight::Pixels(n as i32))
        } else {
            Err(message("line height must be a positive number or `auto`, got `", s, "`"))
        },
    }
}

/// What a `--monitor` value means: `auto` or a 0-based index.
pub open spec fn monitor_of(s: Seq<char>) -> Option<MonitorChoice> {
    if is_auto(s) {
        Some(MonitorChoice::Auto)
    } else {
        match int_in_range(s, 10, false, 0, u32::MAX as int) {
            Some(n) => Some(MonitorChoice::Index(n as u32)),
            None => None,
        }
    }
}

/// Parse `--monitor`: a 0-based index, or `auto`.
pub fn parse_monitor(s: &str) -> (r: Result<MonitorChoice, String>)
    ensures
        match monitor_of(s@) {
            Some(m) => r == Ok::<MonitorChoice, String>(m),
            None => r is Err && r->Err_0@ == framed(
                "invalid monitor: `"@,
                s@,
                "` (expected a number or `auto`)"@,
            ),
        },
{
    let cs = chars_of(s);
    if is_auto_exec(&cs) {
        return Ok(MonitorChoice::Auto);
    }
    assert(cs@.subrange(0, cs@.len() as int) =~= cs@);
    match parse_int(&cs, 0, cs.len(), 10, false, 0, 0xFFFF_FFFF) {
        Some(n) => Ok(MonitorChoice::Index(n as u32)),
        None => Err(message("invalid monitor: `", s, "` (expected a number or `auto`)")),
    }
}

/// Window, geometry, font and color options shared by menu and slide modes.
#[derive(Debug, Clone)]
pub struct WindowArgs {
    /// Backend to use: auto, x11 or wayland.
    pub backend: BackendChoice,
    /// Anchor the menu to a corner, edge or the center of the screen.
    pub position: Option<Position>,
    /// Place the menu at the mouse position.
    pub follow_cursor: bool,
    /// Use a monospace font.
    pub monospace: bool,
    /// Don't grab the keyboard.
    pub no_grab: bool,
    /// Don't close the menu when clicking outside of it.
    pub no_outside_close: bool,
    /// Let the window manager manage the menu as a normal window.
    pub managed: bool,
    /// Horizontal offset from the anchor position.
    pub x_offset: Option<i32>,
    /// Vertical offset from the anchor position.
    pub y_offset: Option<i32>,
    /// Menu width.
    pub width: Option<Width>,
    /// Monitor selection.
    pub monitor: Option<MonitorChoice>,
    /// Prompt left of the input field (menu mode) or the slider label.
    pub prompt: Option<String>,
    /// Font or font set.
    pub font: Option<String>,
    /// Minimum height of one menu line.
    pub line_height: Option<LineHeight>,
    /// Built-in color theme; explicit colors override it.
    pub theme: Option<Theme>,
    /// Normal background color.
    pub normal_bg: Option<String>,
    /// Normal foreground color.
    pub normal_fg: Option<String>,
    /// Selected background color.
    pub selected_bg: Option<String>,
    /// Selected foreground color.
    pub selected_fg: Option<String>,
    /// Embedding window id (X11 only).
    pub embed: Option<u32>,
    /// Border width.
    pub border_width: Option<i32>,
}

/// A non-default running mode, selected with a subcommand.
#[derive(Debug)]
pub enum Cmd {
    /// Slide mode: show a value slider instead of a menu.
    Slide(SlideArgs),
}

/// Options for [`Cmd::Slide`] — the value slider.
#[derive(Debug, Clone)]
pub struct SlideArgs {
    /// Minimum slider value.
    pub min: i32,
    /// Maximum slider value.
    pub max: i32,
    /// Initial slider value.
    pub value: Option<i32>,
    /// Small step for left/right.
    pub step: Option<i32>,
    /// Large step for up/down.
    pub big_step: Option<i32>,
    /// Command run on every value change (positional form).
    pub command: Option<String>,
    /// Command run on every value change (flag form of `command`).
    pub command_flag: Option<String>,
}

impl SlideArgs {
    /// The command from either the positional argument or the `--command`
    /// flag, the positional one first.
    pub fn resolved_command(&self) -> (r: Option<String>)
        ensures
            r == (if self.command is Some { self.command } else { self.command_flag }),
    {
        match &self.command {
            Some(c) => Some(c.clone()),
            None => match &self.command_flag {
                Some(c) => Some(c.clone()),
                None => None,
            },
        }
    }
}

} // verus!
