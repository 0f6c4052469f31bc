//! Settings types: placement, sizing, monitor choice, matching mode and the
//! slider.
use vstd::prelude::*;

use crate::text::{decimal, push_decimal, push_str};

verus! {

/// Where the menu appears on screen (`--position`).
#[derive(Debug, Clone, Copy, PartialEq, Eq, Structural)]
pub enum Position {
    /// Top-left corner.
    TopLeft,
    /// Top edge, centered horizontally (the default).
    Top,
    /// Top-right corner.
    TopRight,
    /// Left edge, centered vertically.
    Left,
    /// Centered on the screen.
    Center,
    /// Right edge, centered vertically.
    Right,
    /// Bottom-left corner.
    BottomLeft,
    /// Bottom edge, centered horizontally.
    Bottom,
    /// Bottom-right corner.
    BottomRight,
}

/// Window width (`--width`).
#[derive(Debug, Clone, Copy, PartialEq, Eq, Structural)]
pub enum Width {
    /// Not set: each placement mode picks its own default width.
    Default,
    /// A fixed width in pixels.
    Fixed(i32),
    /// Fit the content: measure the items and size the menu to match.
    Auto,
}

/// Minimum height of one menu line (`--line-height`).
#[derive(Debug, Clone, Copy, PartialEq, Eq, Structural)]
pub enum LineHeight {
    /// No minimum beyond the font height plus padding.
    Default,
    /// Derived from the font (2.5x the font height).
    FromFont,
    /// At least this many pixels.
    Pixels(i32),
}

impl LineHeight {
    /// The pixel value (0 = no minimum). [`LineHeight::FromFont`] counts as
    /// unresolved here.
    pub fn pixels(self) -> (p: i32)
        ensures
            p == (match self {
                LineHeight::Pixels(n) => n,
                _ => 0i32,
            }),
    {
        match self {
            LineHeight::Default | LineHeight::FromFont => 0,
            LineHeight::Pixels(n) => n,
        }
    }
}

/// Monitor selection (`--monitor`).
#[derive(Debug, Clone, Copy, PartialEq, Eq, Structural)]
pub enum MonitorChoice {
    /// Follow keyboard focus, then use the first monitor.
    Auto,
    /// A specific monitor index (0-based).
    Index(u32),
}

/// Item matching algorithm (`--match-mode`).
#[derive(Debug, Clone, Copy, PartialEq, Eq, Structural)]
pub enum MatchMode {
    /// Fuzzy matching (the default): ranks by how tightly the pattern fits.
    Fuzzy,
    /// The classic dmenu matcher: every token must appear; exact, prefix,
    /// then substring matches are ranked in that order.
    Dmenu,
    /// Only exact matches.
    Exact,
}

/// Slide settings as given on the command line, before defaults are
/// applied. `resolve` fills in the defaults and rejects empty/inverted
/// ranges.
#[derive(Debug, Clone, PartialEq, Eq)]
pub struct SlideSettings {
    /// Minimum value (default 0).
    pub min: i32,
    /// Maximum value (default 100).
    pub max: i32,
    /// Initial value (default: the middle of the range).
    pub value: Option<i32>,
    /// Small step for left/right (default 1).
    pub step: Option<i32>,
    /// Large step for up/down (default max(range/10, 5)).
    pub big_step: Option<i32>,
    /// Command run on every value change, the value appended as its last
    /// argument.
    pub command: Option<String>,
}

impl Default for SlideSettings {
    /// The command line defaults: a 0..=100 slider.
    fn default() -> (s: Self)
        ensures
            s.min == 0,
            s.max == 100,
            s.value is None,
            s.step is None,
            s.big_step is None,
            s.command is None,
    {
        SlideSettings { min: 0, max: 100, value: None, step: None, big_step: None, command: None }
    }
}

/// Rust's `/` on integers: the quotient rounded toward zero.
pub open spec fn div_trunc(a: int, b: int) -> int {
    if a >= 0 {
        a / b
    } else {
        -((-a) / b)
    }
}

pub open spec fn max3(a: int, b: int, c: int) -> int {
    let m = if a > b { a } else { b };
    if m > c { m } else { c }
}

pub open spec fn clamp_to(v: int, lo: int, hi: int) -> int {
    if v < lo {
        lo
    } else if v > hi {
        hi
    } else {
        v
    }
}

impl SlideSettings {
    /// The range `max - min` fits an `i32`.
    pub open spec fn range_fits(&self) -> bool {
        i32::MIN <= self.max - self.min <= i32::MAX
    }

    pub open spec fn spec_step(&self) -> int {
        match self.step {
            Some(s) => if s < 1 { 1 } else { s as int },
            None => 1,
        }
    }

    pub open spec fn spec_big_step(&self) -> int {
        let base = match self.big_step {
            Some(b) => b as int,
            None => div_trunc(self.max - self.min, 10),
        };
        max3(base, 5, self.spec_step())
    }

    pub open spec fn spec_value(&self) -> int {
        let v = match self.value {
            Some(v) => v as int,
            None => self.min + div_trunc(self.max - self.min, 2),
        };
        clamp_to(v, self.min as int, self.max as int)
    }

    /// The step after defaults: at least 1.
    pub fn resolved_step(&self) -> (s: i32)
        ensures
            s == self.spec_step(),
    {
        let s = match self.step {
            Some(s) => s,
            None => 1,
        };
        if s < 1 {
            1
        } else {
            s
        }
    }

    /// The large step after defaults: at least the small step, at least a
    /// tenth of the range (min 5).
    pub fn resolved_big_step(&self) -> (s: i32)
        requires
            self.big_step is None ==> self.range_fits(),
        ensures
            s == self.spec_big_step(),
    {
        let base = match self.big_step {
            Some(b) => b,
            None => (self.max - self.min) / 10,
        };
        let m = if base > 5 { base } else { 5 };
        let step = self.resolved_step();
        if m > step {
            m
        } else {
            step
        }
    }

    /// The initial value after defaults: the middle of the range, clamped
    /// into it.
    pub fn resolved_value(&self) -> (v: i32)
        requires
            self.min <= self.max,
            self.value is None ==> self.range_fits(),
        ensures
            v == self.spec_value(),
    {
        let v = match self.value {
            Some(v) => v,
            None => {
                let half = (self.max - self.min) / 2;
                assert(self.min + div_trunc(self.max - self.min, 2) <= self.max);
                self.min + half
            },
        };
        if v < self.min {
            self.min
        } else if v > self.max {
            self.max
        } else {
            v
        }
    }

    /// Validate the range and apply the defaults in place. `Err` carries a
    /// ready-to-print message.
    pub fn resolve(&mut self) -> (r: Result<(), String>)
        requires
            old(self).min < old(self).max && (old(self).value is None || old(self).big_step is None)
                ==> old(self).range_fits(),
        ensures
            old(self).min >= old(self).max ==> *final(self) == *old(self) && r is Err && r->Err_0@
                == "slide: minimum ("@ + decimal(old(self).min as int)
                + ") must be less than maximum ("@ + decimal(old(self).max as int) + ")"@,
            old(self).min < old(self).max ==> r is Ok && final(self).min == old(self).min
                && final(self).max == old(self).max && final(self).command == old(self).command
                && final(self).value == Some(old(self).spec_value() as i32) && final(self).step
                == Some(old(self).spec_step() as i32) && final(self).big_step == Some(
                old(self).spec_big_step() as i32,
            ),
    {
        if self.min >= self.max {
            let mut msg = String::new();
            push_str(&mut msg, "slide: minimum (");
            push_decimal(&mut msg, self.min as i64);
            push_str(&mut msg, ") must be less than maximum (");
            push_decimal(&mut msg, self.max as i64);
            push_str(&mut msg, ")");
            return Err(msg);
        }
        let value = self.resolved_value();
        let step = self.resolved_step();
        let big_step = self.resolved_big_step();
        self.value = Some(value);
        self.step = Some(step);
        self.big_step = Some(big_step);
        Ok(())
    }
}


/* ------------------------------ the configuration file ------------------------------ */

/// `.config`, as bytes.
pub open spec fn dot_config() -> Seq<u8> {
    seq![46u8, 99u8, 111u8, 110u8, 102u8, 105u8, 103u8]
}

/// `instantmenu/config.toml`, as bytes.
pub open spec fn config_file_rel() -> Seq<u8> {
    seq![105u8, 110u8, 115u8, 116u8, 97u8, 110u8, 116u8, 109u8, 101u8, 110u8, 117u8, 47u8, 99u8, 111u8, 110u8, 102u8, 105u8, 103u8, 46u8, 116u8, 111u8, 109u8, 108u8]
}

/// `base` joined with the relative path `rel`, as paths join: a `/`
/// between them unless `base` is empty or already ends with one.
pub open spec fn join_path(base: Seq<u8>, rel: Seq<u8>) -> Seq<u8> {
    if base.len() == 0 {
        rel
    } else if base.last() == 47u8 {
        base + rel
    } else {
        base.push(47u8) + rel
    }
}

/// The configuration file's default place: under `$XDG_CONFIG_HOME` when
/// that is set, non-empty and absolute (starts with `/`), else under
/// `$HOME/.config`; none without either.
pub open spec fn spec_default_path(xdg: Option<Seq<u8>>, home: Option<Seq<u8>>) -> Option<Seq<u8>> {
    let base = if xdg is Some && xdg->0.len() > 0 && xdg->0[0] == 47u8 {
        xdg
    } else {
        match home {
            Some(h) => Some(join_path(h, dot_config())),
            None => None,
        }
    };
    match base {
        Some(b) => Some(join_path(b, config_file_rel())),
        None => None,
    }
}

fn join_exec(base: &[u8], rel: &[u8]) -> (r: Vec<u8>)
    ensures
        r@ == join_path(base@, rel@),
{
    let mut v: Vec<u8> = Vec::new();
    let mut i: usize = 0;
    while i < base.len()
        invariant
            i <= base@.len(),
            v@ == base@.take(i as int),
        decreases base.len() - i,
    {
        v.push(base[i]);
        i += 1;
        assert(v@ =~= base@.take(i as int));
    }
    assert(base@.take(base@.len() as int) =~= base@);
    if base.len() > 0 && base[base.len() - 1] != 47u8 {
        v.push(47u8);
    }
    let ghost head = v@;
    let mut j: usize = 0;
    while j < rel.len()
        invariant
            j <= rel@.len(),
            v@ == head + rel@.take(j as int),
        decreases rel.len() - j,
    {
        v.push(rel[j]);
        j += 1;
        assert(v@ =~= head + rel@.take(j as int));
    }
    assert(rel@.take(rel@.len() as int) =~= rel@);
    assert(head + rel@ =~= join_path(base@, rel@));
    v
}

/// Where the configuration file is by default: `$XDG_CONFIG_HOME` when
/// set to a non-empty absolute path, else `$HOME/.config`, then
/// `instantmenu/config.toml`; `None` when neither variable is set.
pub fn default_config_path(xdg: Option<&[u8]>, home: Option<&[u8]>) -> (r: Option<Vec<u8>>)
    ensures
        match spec_default_path(
            match xdg {
                Some(x) => Some(x@),
                None => None,
            },
            match home {
                Some(h) => Some(h@),
                None => None,
            },
        ) {
            Some(p) => r matches Some(v) && v@ == p,
            None => r is None,
        },
{
    let cfg: Vec<u8> = vec![46u8, 99u8, 111u8, 110u8, 102u8, 105u8, 103u8];
    let rel: Vec<u8> = vec![105u8, 110u8, 115u8, 116u8, 97u8, 110u8, 116u8, 109u8, 101u8, 110u8, 117u8, 47u8, 99u8, 111u8, 110u8, 102u8, 105u8, 103u8, 46u8, 116u8, 111u8, 109u8, 108u8];
    assert(cfg@ =~= dot_config());
    assert(rel@ =~= config_file_rel());
    let base: Option<Vec<u8>> = match xdg {
        Some(x) => if x.len() > 0 && x[0] == 47u8 {
            Some(join_exec(&[], x))
        } else {
            match home {
                Some(h) => Some(join_exec(h, cfg.as_slice())),
                None => None,
            }
        },
        None => match home {
            Some(h) => Some(join_exec(h, cfg.as_slice())),
            None => None,
        },
    };
    match base {
        Some(b) => Some(join_exec(b.as_slice(), rel.as_slice())),
        None => None,
    }
}

} // verus!
