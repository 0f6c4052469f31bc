//! Appearance settings: the font, the built-in themes and the colors of the
//! nine color schemes, as a configuration file or the command line may set
//! them. Nothing here can change how
//! the menu starts or reads input.
use vstd::prelude::*;

use crate::color::{color_of_spelling, hex_color, parse_color_spelling, Color};
use crate::entry::opt_view;
use crate::keybind::{blank_from, is_blank};
use crate::icons::chars_eq_from;
use crate::text::{chars_of, push_str};

verus! {

/// The three colors of one scheme.
#[derive(Debug, Clone, Copy, PartialEq, Eq, Structural)]
pub struct SchemeColors {
    pub fg: Color,
    pub bg: Color,
    pub detail: Color,
}

/// The colors of every scheme.
#[derive(Debug, Clone, Copy, PartialEq, Eq, Structural)]
pub struct Palette {
    pub normal: SchemeColors,
    pub fade: SchemeColors,
    pub highlight: SchemeColors,
    pub hover: SchemeColors,
    pub selected: SchemeColors,
    pub output: SchemeColors,
    pub green: SchemeColors,
    pub yellow: SchemeColors,
    pub red: SchemeColors,
}

/// Colors one scheme overrides, as written.
#[derive(Debug, Clone, Default)]
pub struct SchemeOverride {
    pub foreground: Option<String>,
    pub background: Option<String>,
    pub detail: Option<String>,
}

/// Overrides per scheme.
#[derive(Debug, Clone, Default)]
pub struct ColorOverrides {
    pub normal: Option<SchemeOverride>,
    pub fade: Option<SchemeOverride>,
    pub highlight: Option<SchemeOverride>,
    pub hover: Option<SchemeOverride>,
    pub selected: Option<SchemeOverride>,
    pub output: Option<SchemeOverride>,
    pub green: Option<SchemeOverride>,
    pub yellow: Option<SchemeOverride>,
    pub red: Option<SchemeOverride>,
}

/// A built-in color theme.
#[derive(Debug, Clone, Copy, PartialEq, Eq, Structural)]
pub enum Theme {
    Catppuccin,
    Classic,
    Gruvbox,
}

/// The theme a name selects: `default` and `catppuccin`, `classic`,
/// `gruvbox`.
pub open spec fn theme_named(name: Seq<char>) -> Option<Theme> {
    if name == "default"@ || name == "catppuccin"@ {
        Some(Theme::Catppuccin)
    } else if name == "classic"@ {
        Some(Theme::Classic)
    } else if name == "gruvbox"@ {
        Some(Theme::Gruvbox)
    } else {
        None
    }
}

fn is_word(cs: &Vec<char>, word: &str) -> (r: bool)
    ensures
        r == (cs@ == word@),
{
    let w = chars_of(word);
    let r = chars_eq_from(&w, cs, 0);
    assert(cs@.skip(0) =~= cs@);
    r
}

impl Theme {
    /// The theme named `name`, if any.
    pub fn parse(name: &str) -> (r: Option<Theme>)
        ensures
            r == theme_named(name@),
    {
        let cs = chars_of(name);
        if is_word(&cs, "default") || is_word(&cs, "catppuccin") {
            Some(Theme::Catppuccin)
        } else if is_word(&cs, "classic") {
            Some(Theme::Classic)
        } else if is_word(&cs, "gruvbox") {
            Some(Theme::Gruvbox)
        } else {
            None
        }
    }
}

/// The palette of each built-in theme.
#[derive(Debug, Clone, Copy, PartialEq, Eq, Structural)]
pub struct ThemePalettes {
    pub catppuccin: Palette,
    pub classic: Palette,
    pub gruvbox: Palette,
}

impl ThemePalettes {
    pub open spec fn of(self, t: Theme) -> Palette {
        match t {
            Theme::Catppuccin => self.catppuccin,
            Theme::Classic => self.classic,
            Theme::Gruvbox => self.gruvbox,
        }
    }

    /// The palette of theme `t`.
    pub fn palette(&self, t: Theme) -> (p: Palette)
        ensures
            p == self.of(t),
    {
        match t {
            Theme::Catppuccin => self.catppuccin,
            Theme::Classic => self.classic,
            Theme::Gruvbox => self.gruvbox,
        }
    }
}


/// The palette of the catppuccin theme. Catppuccin (Mocha): the scheme's published colors.
pub open spec fn catppuccin_palette() -> Palette {
    Palette {
        normal: SchemeColors { fg: hex_color(0xCDD6F4), bg: hex_color(0x1E1E2E), detail: hex_color(0x45475A) },
        fade: SchemeColors { fg: hex_color(0x6C7086), bg: hex_color(0x1E1E2E), detail: hex_color(0x45475A) },
        highlight: SchemeColors { fg: hex_color(0xCDD6F4), bg: hex_color(0x313244), detail: hex_color(0x181825) },
        hover: SchemeColors { fg: hex_color(0xCDD6F4), bg: hex_color(0x181825), detail: hex_color(0x313244) },
        selected: SchemeColors { fg: hex_color(0x1E1E2E), bg: hex_color(0x89B4FA), detail: hex_color(0xB4BEFE) },
        output: SchemeColors { fg: hex_color(0x1E1E2E), bg: hex_color(0x74C7EC), detail: hex_color(0x74C7EC) },
        green: SchemeColors { fg: hex_color(0x1E1E2E), bg: hex_color(0xA6E3A1), detail: hex_color(0x94E2D5) },
        yellow: SchemeColors { fg: hex_color(0x1E1E2E), bg: hex_color(0xF9E2AF), detail: hex_color(0xFAB387) },
        red: SchemeColors { fg: hex_color(0x1E1E2E), bg: hex_color(0xF38BA8), detail: hex_color(0xEBA0AC) },
    }
}

fn catppuccin_palette_exec() -> (p: Palette)
    ensures
        p == catppuccin_palette(),
{
    Palette {
        normal: SchemeColors { fg: Color::hex(0xCDD6F4), bg: Color::hex(0x1E1E2E), detail: Color::hex(0x45475A) },
        fade: SchemeColors { fg: Color::hex(0x6C7086), bg: Color::hex(0x1E1E2E), detail: Color::hex(0x45475A) },
        highlight: SchemeColors { fg: Color::hex(0xCDD6F4), bg: Color::hex(0x313244), detail: Color::hex(0x181825) },
        hover: SchemeColors { fg: Color::hex(0xCDD6F4), bg: Color::hex(0x181825), detail: Color::hex(0x313244) },
        selected: SchemeColors { fg: Color::hex(0x1E1E2E), bg: Color::hex(0x89B4FA), detail: Color::hex(0xB4BEFE) },
        output: SchemeColors { fg: Color::hex(0x1E1E2E), bg: Color::hex(0x74C7EC), detail: Color::hex(0x74C7EC) },
        green: SchemeColors { fg: Color::hex(0x1E1E2E), bg: Color::hex(0xA6E3A1), detail: Color::hex(0x94E2D5) },
        yellow: SchemeColors { fg: Color::hex(0x1E1E2E), bg: Color::hex(0xF9E2AF), detail: Color::hex(0xFAB387) },
        red: SchemeColors { fg: Color::hex(0x1E1E2E), bg: Color::hex(0xF38BA8), detail: Color::hex(0xEBA0AC) },
    }
}

/// The palette of the classic theme. Classic: instantOS's colors.
pub open spec fn classic_palette() -> Palette {
    Palette {
        normal: SchemeColors { fg: hex_color(0xDFDFDF), bg: hex_color(0x121212), detail: hex_color(0x3E485B) },
        fade: SchemeColors { fg: hex_color(0x575E70), bg: hex_color(0x121212), detail: hex_color(0x3E485B) },
        highlight: SchemeColors { fg: hex_color(0xDFDFDF), bg: hex_color(0x384252), detail: hex_color(0x272727) },
        hover: SchemeColors { fg: hex_color(0xDFDFDF), bg: hex_color(0x272727), detail: hex_color(0x2E2E2E) },
        selected: SchemeColors { fg: hex_color(0x000000), bg: hex_color(0x8AB4F8), detail: hex_color(0x536DFE) },
        output: SchemeColors { fg: hex_color(0x000000), bg: hex_color(0x3579CA), detail: hex_color(0x3579CA) },
        green: SchemeColors { fg: hex_color(0x000000), bg: hex_color(0x81C995), detail: hex_color(0x1E8E3E) },
        yellow: SchemeColors { fg: hex_color(0x000000), bg: hex_color(0xFDD663), detail: hex_color(0xF9AB00) },
        red: SchemeColors { fg: hex_color(0x000000), bg: hex_color(0xF28B82), detail: hex_color(0xD93025) },
    }
}

fn classic_palette_exec() -> (p: Palette)
    ensures
        p == classic_palette(),
{
    Palette {
        normal: SchemeColors { fg: Color::hex(0xDFDFDF), bg: Color::hex(0x121212), detail: Color::hex(0x3E485B) },
        fade: SchemeColors { fg: Color::hex(0x575E70), bg: Color::hex(0x121212), detail: Color::hex(0x3E485B) },
        highlight: SchemeColors { fg: Color::hex(0xDFDFDF), bg: Color::hex(0x384252), detail: Color::hex(0x272727) },
        hover: SchemeColors { fg: Color::hex(0xDFDFDF), bg: Color::hex(0x272727), detail: Color::hex(0x2E2E2E) },
        selected: SchemeColors { fg: Color::hex(0x000000), bg: Color::hex(0x8AB4F8), detail: Color::hex(0x536DFE) },
        output: SchemeColors { fg: Color::hex(0x000000), bg: Color::hex(0x3579CA), detail: Color::hex(0x3579CA) },
        green: SchemeColors { fg: Color::hex(0x000000), bg: Color::hex(0x81C995), detail: Color::hex(0x1E8E3E) },
        yellow: SchemeColors { fg: Color::hex(0x000000), bg: Color::hex(0xFDD663), detail: Color::hex(0xF9AB00) },
        red: SchemeColors { fg: Color::hex(0x000000), bg: Color::hex(0xF28B82), detail: Color::hex(0xD93025) },
    }
}

/// The palette of the gruvbox theme. Gruvbox (dark): its normal and selected schemes as the README shows them, the rest from the scheme's published colors.
pub open spec fn gruvbox_palette() -> Palette {
    Palette {
        normal: SchemeColors { fg: hex_color(0xEBDBB2), bg: hex_color(0x282828), detail: hex_color(0x504945) },
        fade: SchemeColors { fg: hex_color(0x928374), bg: hex_color(0x282828), detail: hex_color(0x504945) },
        highlight: SchemeColors { fg: hex_color(0xEBDBB2), bg: hex_color(0x3C3836), detail: hex_color(0x282828) },
        hover: SchemeColors { fg: hex_color(0xEBDBB2), bg: hex_color(0x32302F), detail: hex_color(0x3C3836) },
        selected: SchemeColors { fg: hex_color(0x282828), bg: hex_color(0x83A598), detail: hex_color(0x8EC07C) },
        output: SchemeColors { fg: hex_color(0x282828), bg: hex_color(0x458588), detail: hex_color(0x458588) },
        green: SchemeColors { fg: hex_color(0x282828), bg: hex_color(0xB8BB26), detail: hex_color(0x98971A) },
        yellow: SchemeColors { fg: hex_color(0x282828), bg: hex_color(0xFABD2F), detail: hex_color(0xD79921) },
        red: SchemeColors { fg: hex_color(0x282828), bg: hex_color(0xFB4934), detail: hex_color(0xCC241D) },
    }
}

fn gruvbox_palette_exec() -> (p: Palette)
    ensures
        p == gruvbox_palette(),
{
    Palette {
        normal: SchemeColors { fg: Color::hex(0xEBDBB2), bg: Color::hex(0x282828), detail: Color::hex(0x504945) },
        fade: SchemeColors { fg: Color::hex(0x928374), bg: Color::hex(0x282828), detail: Color::hex(0x504945) },
        highlight: SchemeColors { fg: Color::hex(0xEBDBB2), bg: Color::hex(0x3C3836), detail: Color::hex(0x282828) },
        hover: SchemeColors { fg: Color::hex(0xEBDBB2), bg: Color::hex(0x32302F), detail: Color::hex(0x3C3836) },
        selected: SchemeColors { fg: Color::hex(0x282828), bg: Color::hex(0x83A598), detail: Color::hex(0x8EC07C) },
        output: SchemeColors { fg: Color::hex(0x282828), bg: Color::hex(0x458588), detail: Color::hex(0x458588) },
        green: SchemeColors { fg: Color::hex(0x282828), bg: Color::hex(0xB8BB26), detail: Color::hex(0x98971A) },
        yellow: SchemeColors { fg: Color::hex(0x282828), bg: Color::hex(0xFABD2F), detail: Color::hex(0xD79921) },
        red: SchemeColors { fg: Color::hex(0x282828), bg: Color::hex(0xFB4934), detail: Color::hex(0xCC241D) },
    }
}

/// The built-in themes' palettes.
pub open spec fn builtin_palettes() -> ThemePalettes {
    ThemePalettes {
        catppuccin: catppuccin_palette(),
        classic: classic_palette(),
        gruvbox: gruvbox_palette(),
    }
}

/// The built-in themes' palettes.
pub fn builtin_themes() -> (t: ThemePalettes)
    ensures
        t == builtin_palettes(),
{
    ThemePalettes {
        catppuccin: catppuccin_palette_exec(),
        classic: classic_palette_exec(),
        gruvbox: gruvbox_palette_exec(),
    }
}

/// The appearance a configuration file sets: a font, a theme and color
/// overrides.
#[derive(Debug, Clone, Default)]
pub struct Appearance {
    pub font: Option<String>,
    pub theme: Option<Theme>,
    pub colors: ColorOverrides,
}

/// The palette a theme choice starts from: the theme's own, or `p` when no
/// theme is chosen.
pub open spec fn themed(p: Palette, theme: Option<Theme>, themes: ThemePalettes) -> Palette {
    match theme {
        Some(t) => themes.of(t),
        None => p,
    }
}

/// The message for a color that does not parse.
pub open spec fn color_error(scheme: Seq<char>, role: Seq<char>, value: Seq<char>) -> Seq<char> {
    "invalid color `"@ + value + "` for colors."@ + scheme + "."@ + role
}

/// The color `value` spells, or the message naming where it was written.
pub open spec fn spec_parse_color(scheme: Seq<char>, role: Seq<char>, value: Seq<char>) -> Result<
    Color,
    Seq<char>,
> {
    match color_of_spelling(value) {
        Some(c) => Ok(c),
        None => Err(color_error(scheme, role, value)),
    }
}

/// Parses the color written for `colors.<scheme>.<role>`.
pub fn parse_color(scheme: &str, role: &str, value: &str) -> (r: Result<Color, String>)
    ensures
        match spec_parse_color(scheme@, role@, value@) {
            Ok(c) => r == Ok::<Color, String>(c),
            Err(m) => r matches Err(e) && e@ == m,
        },
{
    match parse_color_spelling(value) {
        Some(c) => Ok(c),
        None => {
            let mut m = String::new();
            push_str(&mut m, "invalid color `");
            push_str(&mut m, value);
            push_str(&mut m, "` for colors.");
            push_str(&mut m, scheme);
            push_str(&mut m, ".");
            push_str(&mut m, role);
            Err(m)
        },
    }
}

/// One override step: the colors after setting one role to `value` (when
/// written), or the unchanged colors and the error.
pub open spec fn override_role(
    t: SchemeColors,
    role: int,
    value: Option<Seq<char>>,
    scheme: Seq<char>,
) -> (SchemeColors, Result<(), Seq<char>>) {
    let name = if role == 0 {
        "foreground"@
    } else if role == 1 {
        "background"@
    } else {
        "detail"@
    };
    match value {
        None => (t, Ok(())),
        Some(v) => match spec_parse_color(scheme, name, v) {
            Ok(c) => (
                if role == 0 {
                    SchemeColors { fg: c, ..t }
                } else if role == 1 {
                    SchemeColors { bg: c, ..t }
                } else {
                    SchemeColors { detail: c, ..t }
                },
                Ok(()),
            ),
            Err(m) => (t, Err(m)),
        },
    }
}

/// Foreground, then background, then detail; the first error stops the
/// rest, keeping what was set before it.
pub open spec fn spec_override_scheme(
    t: SchemeColors,
    fg: Option<Seq<char>>,
    bg: Option<Seq<char>>,
    detail: Option<Seq<char>>,
    scheme: Seq<char>,
) -> (SchemeColors, Result<(), Seq<char>>) {
    let (t1, r1) = override_role(t, 0, fg, scheme);
    if r1 is Err {
        (t1, r1)
    } else {
        let (t2, r2) = override_role(t1, 1, bg, scheme);
        if r2 is Err {
            (t2, r2)
        } else {
            override_role(t2, 2, detail, scheme)
        }
    }
}

pub open spec fn unit_result(r: Result<(), String>) -> Result<(), Seq<char>> {
    match r {
        Ok(()) => Ok(()),
        Err(e) => Err(e@),
    }
}

impl SchemeOverride {
    /// Sets the colors written for scheme `scheme_name` on `target`.
    pub fn apply(self, scheme_name: &str, target: &mut SchemeColors) -> (r: Result<(), String>)
        ensures
            (*final(target), unit_result(r)) == spec_override_scheme(
                *old(target),
                opt_view(self.foreground),
                opt_view(self.background),
                opt_view(self.detail),
                scheme_name@,
            ),
    {
        proof {
            reveal_strlit("foreground");
            reveal_strlit("background");
            reveal_strlit("detail");
        }
        if let Some(value) = self.foreground {
            match parse_color(scheme_name, "foreground", value.as_str()) {
                Ok(c) => target.fg = c,
                Err(e) => return Err(e),
            }
        }
        if let Some(value) = self.background {
            match parse_color(scheme_name, "background", value.as_str()) {
                Ok(c) => target.bg = c,
                Err(e) => return Err(e),
            }
        }
        if let Some(value) = self.detail {
            match parse_color(scheme_name, "detail", value.as_str()) {
                Ok(c) => target.detail = c,
                Err(e) => return Err(e),
            }
        }
        Ok(())
    }
}


/// The schemes in the order overrides apply, by name.
pub open spec fn scheme_name(k: int) -> Seq<char> {
    if k == 0 {
        "normal"@
    } else if k == 1 {
        "fade"@
    } else if k == 2 {
        "highlight"@
    } else if k == 3 {
        "hover"@
    } else if k == 4 {
        "selected"@
    } else if k == 5 {
        "output"@
    } else if k == 6 {
        "green"@
    } else if k == 7 {
        "yellow"@
    } else {
        "red"@
    }
}

pub open spec fn scheme_at(p: Palette, k: int) -> SchemeColors {
    if k == 0 {
        p.normal
    } else if k == 1 {
        p.fade
    } else if k == 2 {
        p.highlight
    } else if k == 3 {
        p.hover
    } else if k == 4 {
        p.selected
    } else if k == 5 {
        p.output
    } else if k == 6 {
        p.green
    } else if k == 7 {
        p.yellow
    } else {
        p.red
    }
}

pub open spec fn with_scheme(p: Palette, k: int, s: SchemeColors) -> Palette {
    if k == 0 {
        Palette { normal: s, ..p }
    } else if k == 1 {
        Palette { fade: s, ..p }
    } else if k == 2 {
        Palette { highlight: s, ..p }
    } else if k == 3 {
        Palette { hover: s, ..p }
    } else if k == 4 {
        Palette { selected: s, ..p }
    } else if k == 5 {
        Palette { output: s, ..p }
    } else if k == 6 {
        Palette { green: s, ..p }
    } else if k == 7 {
        Palette { yellow: s, ..p }
    } else {
        Palette { red: s, ..p }
    }
}

pub open spec fn override_at(o: ColorOverrides, k: int) -> Option<SchemeOverride> {
    if k == 0 {
        o.normal
    } else if k == 1 {
        o.fade
    } else if k == 2 {
        o.highlight
    } else if k == 3 {
        o.hover
    } else if k == 4 {
        o.selected
    } else if k == 5 {
        o.output
    } else if k == 6 {
        o.green
    } else if k == 7 {
        o.yellow
    } else {
        o.red
    }
}

/// One scheme's override applied to the palette.
pub open spec fn override_step(p: Palette, o: Option<SchemeOverride>, k: int) -> (
    Palette,
    Result<(), Seq<char>>,
) {
    match o {
        None => (p, Ok(())),
        Some(so) => {
            let (s, r) = spec_override_scheme(
                scheme_at(p, k),
                opt_view(so.foreground),
                opt_view(so.background),
                opt_view(so.detail),
                scheme_name(k),
            );
            (with_scheme(p, k, s), r)
        },
    }
}

/// The schemes from `k` on, in order; the first error stops the rest,
/// keeping what was set before it.
pub open spec fn spec_override_palette(p: Palette, o: ColorOverrides, k: int) -> (
    Palette,
    Result<(), Seq<char>>,
)
    decreases 9 - k,
{
    if k >= 9 {
        (p, Ok(()))
    } else {
        let (p2, r) = override_step(p, override_at(o, k), k);
        if r is Err {
            (p2, r)
        } else {
            spec_override_palette(p2, o, k + 1)
        }
    }
}

fn apply_scheme(o: Option<SchemeOverride>, name: &str, target: &mut SchemeColors) -> (r: Result<
    (),
    String,
>)
    ensures
        (*final(target), unit_result(r)) == match o {
            None => (*old(target), Ok(())),
            Some(so) => spec_override_scheme(
                *old(target),
                opt_view(so.foreground),
                opt_view(so.background),
                opt_view(so.detail),
                name@,
            ),
        },
{
    match o {
        Some(so) => so.apply(name, target),
        None => Ok(()),
    }
}

impl ColorOverrides {
    /// Applies each scheme's overrides to `palette`, in scheme order.
    pub fn apply(self, palette: &mut Palette) -> (r: Result<(), String>)
        ensures
            (*final(palette), unit_result(r)) == spec_override_palette(*old(palette), self, 0),
    {
        proof {
            reveal_strlit("normal");
            reveal_strlit("fade");
            reveal_strlit("highlight");
            reveal_strlit("hover");
            reveal_strlit("selected");
            reveal_strlit("output");
            reveal_strlit("green");
            reveal_strlit("yellow");
            reveal_strlit("red");
        }
        let ghost o = self;
        let ghost p0 = *palette;
        let ghost before = *palette;
        let r = apply_scheme(self.normal, "normal", &mut palette.normal);
        assert((*palette, unit_result(r)) == override_step(before, override_at(o, 0), 0));
        assert(spec_override_palette(before, o, 0) == if unit_result(r) is Err {
            (*palette, unit_result(r))
        } else {
            spec_override_palette(*palette, o, 1)
        });
        if r.is_err() {
            return r;
        }
        let ghost before = *palette;
        let r = apply_scheme(self.fade, "fade", &mut palette.fade);
        assert((*palette, unit_result(r)) == override_step(before, override_at(o, 1), 1));
        assert(spec_override_palette(before, o, 1) == if unit_result(r) is Err {
            (*palette, unit_result(r))
        } else {
            spec_override_palette(*palette, o, 2)
        });
        if r.is_err() {
            return r;
        }
        let ghost before = *palette;
        let r = apply_scheme(self.highlight, "highlight", &mut palette.highlight);
        assert((*palette, unit_result(r)) == override_step(before, override_at(o, 2), 2));
        assert(spec_override_palette(before, o, 2) == if unit_result(r) is Err {
            (*palette, unit_result(r))
        } else {
            spec_override_palette(*palette, o, 3)
        });
        if r.is_err() {
            return r;
        }
        let ghost before = *palette;
        let r = apply_scheme(self.hover, "hover", &mut palette.hover);
        assert((*palette, unit_result(r)) == override_step(before, override_at(o, 3), 3));
        assert(spec_override_palette(before, o, 3) == if unit_result(r) is Err {
            (*palette, unit_result(r))
        } else {
            spec_override_palette(*palette, o, 4)
        });
        if r.is_err() {
            return r;
        }
        let ghost before = *palette;
        let r = apply_scheme(self.selected, "selected", &mut palette.selected);
        assert((*palette, unit_result(r)) == override_step(before, override_at(o, 4), 4));
        assert(spec_override_palette(before, o, 4) == if unit_result(r) is Err {
            (*palette, unit_result(r))
        } else {
            spec_override_palette(*palette, o, 5)
        });
        if r.is_err() {
            return r;
        }
        let ghost before = *palette;
        let r = apply_scheme(self.output, "output", &mut palette.output);
        assert((*palette, unit_result(r)) == override_step(before, override_at(o, 5), 5));
        assert(spec_override_palette(before, o, 5) == if unit_result(r) is Err {
            (*palette, unit_result(r))
        } else {
            spec_override_palette(*palette, o, 6)
        });
        if r.is_err() {
            return r;
        }
        let ghost before = *palette;
        let r = apply_scheme(self.green, "green", &mut palette.green);
        assert((*palette, unit_result(r)) == override_step(before, override_at(o, 6), 6));
        assert(spec_override_palette(before, o, 6) == if unit_result(r) is Err {
            (*palette, unit_result(r))
        } else {
            spec_override_palette(*palette, o, 7)
        });
        if r.is_err() {
            return r;
        }
        let ghost before = *palette;
        let r = apply_scheme(self.yellow, "yellow", &mut palette.yellow);
        assert((*palette, unit_result(r)) == override_step(before, override_at(o, 7), 7));
        assert(spec_override_palette(before, o, 7) == if unit_result(r) is Err {
            (*palette, unit_result(r))
        } else {
            spec_override_palette(*palette, o, 8)
        });
        if r.is_err() {
            return r;
        }
        let ghost before = *palette;
        let r = apply_scheme(self.red, "red", &mut palette.red);
        assert((*palette, unit_result(r)) == override_step(before, override_at(o, 8), 8));
        assert(spec_override_palette(*palette, o, 9) == (*palette, Ok::<(), Seq<char>>(())));
        r
    }
}


impl Appearance {
    /// Applies the font, then the theme, then the color overrides. A blank
    /// font is refused before anything changes; a bad color stops the
    /// overrides after the font, the theme and the schemes before it were
    /// set.
    pub fn apply(self, font: &mut String, palette: &mut Palette, themes: &ThemePalettes) -> (r:
        Result<(), String>)
        ensures
            match opt_view(self.font) {
                Some(f) => if is_blank(f) {
                    r matches Err(e) && e@ == "`font` must not be empty"@ && final(font)@ == old(
                        font,
                    )@ && *final(palette) == *old(palette)
                } else {
                    final(font)@ == f && (*final(palette), unit_result(r)) == spec_override_palette(
                        themed(*old(palette), self.theme, *themes),
                        self.colors,
                        0,
                    )
                },
                None => final(font)@ == old(font)@ && (*final(palette), unit_result(r))
                    == spec_override_palette(themed(*old(palette), self.theme, *themes), self.colors, 0),
            },
    {
        if let Some(f) = self.font {
            let cs = chars_of(f.as_str());
            assert(cs@.skip(0) =~= cs@);
            if blank_from(&cs, 0) {
                return Err(String::from_str("`font` must not be empty"));
            }
            *font = f;
        }
        if let Some(t) = self.theme {
            *palette = themes.palette(t);
        }
        self.colors.apply(palette)
    }
}

/// The colors the command line sets: a theme, then four single colors.
#[derive(Debug, Clone, Default)]
pub struct CliColors {
    pub theme: Option<Theme>,
    pub normal_bg: Option<String>,
    pub normal_fg: Option<String>,
    pub selected_bg: Option<String>,
    pub selected_fg: Option<String>,
}

/// Whether a color given on the command line is absent or parses.
pub open spec fn cli_color_ok(v: Option<Seq<char>>) -> bool {
    match v {
        Some(s) => color_of_spelling(s) is Some,
        None => true,
    }
}

/// The message for a bad color given as `--<flag>`.
pub open spec fn cli_color_error(flag: Seq<char>, value: Seq<char>) -> Seq<char> {
    "invalid color `"@ + value + "` for --"@ + flag
}

/// `c` with the command-line color `v` in place of the old one.
pub open spec fn with_cli_color(old: Color, v: Option<Seq<char>>) -> Color {
    match v {
        Some(s) => color_of_spelling(s).unwrap(),
        None => old,
    }
}

/// The palette after the command line's theme and colors, when all of its
/// colors parse.
pub open spec fn spec_cli_palette(p: Palette, c: CliColors, themes: ThemePalettes) -> Palette {
    let t = themed(p, c.theme, themes);
    Palette {
        normal: SchemeColors {
            bg: with_cli_color(t.normal.bg, opt_view(c.normal_bg)),
            fg: with_cli_color(t.normal.fg, opt_view(c.normal_fg)),
            ..t.normal
        },
        selected: SchemeColors {
            bg: with_cli_color(t.selected.bg, opt_view(c.selected_bg)),
            fg: with_cli_color(t.selected.fg, opt_view(c.selected_fg)),
            ..t.selected
        },
        ..t
    }
}

/// The first bad command-line color, in the order normal-bg, normal-fg,
/// selected-bg, selected-fg, as its message.
pub open spec fn cli_colors_error(c: CliColors) -> Option<Seq<char>> {
    if !cli_color_ok(opt_view(c.normal_bg)) {
        Some(cli_color_error("normal-bg"@, opt_view(c.normal_bg).unwrap()))
    } else if !cli_color_ok(opt_view(c.normal_fg)) {
        Some(cli_color_error("normal-fg"@, opt_view(c.normal_fg).unwrap()))
    } else if !cli_color_ok(opt_view(c.selected_bg)) {
        Some(cli_color_error("selected-bg"@, opt_view(c.selected_bg).unwrap()))
    } else if !cli_color_ok(opt_view(c.selected_fg)) {
        Some(cli_color_error("selected-fg"@, opt_view(c.selected_fg).unwrap()))
    } else {
        None
    }
}

fn parse_cli_color(flag: &str, v: &Option<String>) -> (r: Result<Option<Color>, String>)
    ensures
        match opt_view(*v) {
            None => r == Ok::<Option<Color>, String>(None),
            Some(s) => match color_of_spelling(s) {
                Some(c) => r == Ok::<Option<Color>, String>(Some(c)),
                None => r matches Err(e) && e@ == cli_color_error(flag@, s),
            },
        },
{
    match v {
        None => Ok(None),
        Some(s) => match parse_color_spelling(s.as_str()) {
            Some(c) => Ok(Some(c)),
            None => {
                let mut m = String::new();
                push_str(&mut m, "invalid color `");
                push_str(&mut m, s.as_str());
                push_str(&mut m, "` for --");
                push_str(&mut m, flag);
                Err(m)
            },
        },
    }
}

impl CliColors {
    /// Applies the command line's theme, then its colors, after the
    /// configuration file. Every color is read before anything changes: a
    /// bad one leaves `palette` as it was.
    pub fn apply(&self, palette: &mut Palette, themes: &ThemePalettes) -> (r: Result<(), String>)
        ensures
            match cli_colors_error(*self) {
                Some(m) => r matches Err(e) && e@ == m && *final(palette) == *old(palette),
                None => r is Ok && *final(palette) == spec_cli_palette(*old(palette), *self, *themes),
            },
    {
        let nb = parse_cli_color("normal-bg", &self.normal_bg);
        let nb = match nb { Ok(c) => c, Err(e) => return Err(e) };
        let nf = parse_cli_color("normal-fg", &self.normal_fg);
        let nf = match nf { Ok(c) => c, Err(e) => return Err(e) };
        let sb = parse_cli_color("selected-bg", &self.selected_bg);
        let sb = match sb { Ok(c) => c, Err(e) => return Err(e) };
        let sf = parse_cli_color("selected-fg", &self.selected_fg);
        let sf = match sf { Ok(c) => c, Err(e) => return Err(e) };
        if let Some(t) = self.theme {
            *palette = themes.palette(t);
        }
        if let Some(c) = nb {
            palette.normal.bg = c;
        }
        if let Some(c) = nf {
            palette.normal.fg = c;
        }
        if let Some(c) = sb {
            palette.selected.bg = c;
        }
        if let Some(c) = sf {
            palette.selected.fg = c;
        }
        Ok(())
    }
}

/// Whether a written color does not parse.
pub open spec fn is_bad_color(v: Option<Seq<char>>) -> bool {
    v matches Some(c) && color_of_spelling(c) is None
}

/// Whether an override writes a color that does not parse.
pub open spec fn has_bad_color(o: Option<SchemeOverride>) -> bool {
    o matches Some(so) && (is_bad_color(opt_view(so.foreground)) || is_bad_color(
        opt_view(so.background),
    ) || is_bad_color(opt_view(so.detail)))
}

proof fn lemma_scheme_fails_iff_bad(p: Palette, o: Option<SchemeOverride>, k: int)
    ensures
        override_step(p, o, k).1 is Err <==> has_bad_color(o),
{
}

proof fn lemma_palette_fails_iff_bad(p: Palette, o: ColorOverrides, k: int)
    requires
        0 <= k <= 9,
    ensures
        spec_override_palette(p, o, k).1 is Err <==> exists|j: int|
            k <= j < 9 && has_bad_color(#[trigger] override_at(o, j)),
    decreases 9 - k,
{
    if k < 9 {
        let (p2, r) = override_step(p, override_at(o, k), k);
        lemma_scheme_fails_iff_bad(p, override_at(o, k), k);
        lemma_palette_fails_iff_bad(p2, o, k + 1);
        if exists|j: int| k <= j < 9 && has_bad_color(#[trigger] override_at(o, j)) {
            let j = choose|j: int| k <= j < 9 && has_bad_color(#[trigger] override_at(o, j));
            if j > k {
                assert(k + 1 <= j < 9 && has_bad_color(override_at(o, j)));
            }
        }
    }
}

/// Applying color overrides fails exactly when one of the colors written
/// for any scheme does not parse.
pub proof fn lemma_overrides_fail_exactly_on_bad_colors(p: Palette, o: ColorOverrides)
    ensures
        spec_override_palette(p, o, 0).1 is Err <==> exists|j: int|
            0 <= j < 9 && has_bad_color(#[trigger] override_at(o, j)),
{
    lemma_palette_fails_iff_bad(p, o, 0);
}

/// The order of appearance settings: a theme in the file replaces every
/// color set before it (so the result does not depend on the defaults),
/// the file's colors come next, and the command line comes last: its theme
/// replaces the file's colors, and each of its colors wins over both.
pub proof fn lemma_theme_then_colors_then_command_line(
    p1: Palette,
    p2: Palette,
    file: ColorOverrides,
    t: Theme,
    q: Palette,
    cli: CliColors,
    themes: ThemePalettes,
)
    ensures
        spec_override_palette(themed(p1, Some(t), themes), file, 0) == spec_override_palette(
            themed(p2, Some(t), themes),
            file,
            0,
        ),
        cli_colors_error(cli) is None ==> {
            let r = spec_cli_palette(q, cli, themes);
            let base = themed(q, cli.theme, themes);
            &&& r.fade == base.fade && r.highlight == base.highlight && r.hover == base.hover
                && r.output == base.output && r.green == base.green && r.yellow == base.yellow
                && r.red == base.red
            &&& r.normal.detail == base.normal.detail && r.selected.detail == base.selected.detail
            &&& (opt_view(cli.normal_bg) matches Some(v) ==> Some(r.normal.bg) == color_of_spelling(v))
            &&& (opt_view(cli.normal_fg) matches Some(v) ==> Some(r.normal.fg) == color_of_spelling(v))
            &&& (opt_view(cli.selected_bg) matches Some(v) ==> Some(r.selected.bg)
                == color_of_spelling(v))
            &&& (opt_view(cli.selected_fg) matches Some(v) ==> Some(r.selected.fg)
                == color_of_spelling(v))
            &&& (opt_view(cli.normal_bg) is None ==> r.normal.bg == base.normal.bg)
        },
{
}

/// What applying an appearance file does: the font, the palette and the
/// outcome (the refusal's message).
pub open spec fn spec_file_apply(a: Appearance, font: Seq<char>, p: Palette, themes: ThemePalettes) -> (
    Seq<char>,
    Palette,
    Result<(), Seq<char>>,
) {
    match opt_view(a.font) {
        Some(f) => if is_blank(f) {
            (font, p, Err("`font` must not be empty"@))
        } else {
            let (p2, r) = spec_override_palette(themed(p, a.theme, themes), a.colors, 0);
            (f, p2, r)
        },
        None => {
            let (p2, r) = spec_override_palette(themed(p, a.theme, themes), a.colors, 0);
            (font, p2, r)
        },
    }
}

/// What the command line's theme and colors do to a palette.
pub open spec fn spec_cli_apply(c: CliColors, p: Palette, themes: ThemePalettes) -> (
    Palette,
    Result<(), Seq<char>>,
) {
    match cli_colors_error(c) {
        Some(m) => (p, Err(m)),
        None => (spec_cli_palette(p, c, themes), Ok(())),
    }
}

/// Where an appearance setting was refused.
#[derive(Debug, Clone, PartialEq, Eq)]
pub enum AppearanceError {
    /// In the configuration file.
    File(String),
    /// On the command line.
    CommandLine(String),
}

/// A refusal as values: `true` for the file, and the message.
pub open spec fn appearance_outcome(r: Result<(), AppearanceError>) -> Result<(), (bool, Seq<char>)> {
    match r {
        Ok(()) => Ok(()),
        Err(AppearanceError::File(m)) => Err((true, m@)),
        Err(AppearanceError::CommandLine(m)) => Err((false, m@)),
    }
}

/// The appearance in the order it is settled: the configuration file (its
/// font, then its theme, then its colors), then the command line's font,
/// then its theme, then its colors. A refusal stops there.
pub open spec fn spec_resolve_appearance(
    file: Option<Appearance>,
    cli_font: Option<Seq<char>>,
    cli: CliColors,
    font: Seq<char>,
    p: Palette,
    themes: ThemePalettes,
) -> (Seq<char>, Palette, Result<(), (bool, Seq<char>)>) {
    let (f1, p1, r1) = match file {
        Some(a) => spec_file_apply(a, font, p, themes),
        None => (font, p, Ok(())),
    };
    match r1 {
        Err(m) => (f1, p1, Err((true, m))),
        Ok(()) => {
            let f2 = match cli_font {
                Some(f) => f,
                None => f1,
            };
            let (p2, r2) = spec_cli_apply(cli, p1, themes);
            match r2 {
                Err(m) => (f2, p2, Err((false, m))),
                Ok(()) => (f2, p2, Ok(())),
            }
        },
    }
}

/// Settles the appearance: the configuration file first, then the command
/// line's font, theme and colors.
pub fn resolve_appearance(
    file: Option<Appearance>,
    cli_font: Option<String>,
    cli: &CliColors,
    font: &mut String,
    palette: &mut Palette,
    themes: &ThemePalettes,
) -> (r: Result<(), AppearanceError>)
    ensures
        (final(font)@, *final(palette), appearance_outcome(r)) == spec_resolve_appearance(
            file,
            opt_view(cli_font),
            *cli,
            old(font)@,
            *old(palette),
            *themes,
        ),
{
    if let Some(a) = file {
        let ghost a0 = a;
        let r = a.apply(font, palette, themes);
        assert(spec_file_apply(a0, old(font)@, *old(palette), *themes) == (
            font@,
            *palette,
            unit_result(r),
        ));
        if let Err(m) = r {
            return Err(AppearanceError::File(m));
        }
    }
    if let Some(f) = cli_font {
        *font = f;
    }
    let r = cli.apply(palette, themes);
    match r {
        Err(m) => Err(AppearanceError::CommandLine(m)),
        Ok(()) => Ok(()),
    }
}

} // verus!
