//! The menu window's geometry: line height, size and position, worked out
//! from the monitors, the pointer and the placement settings before the
//! window is created.
use vstd::prelude::*;

use crate::backend::holds_point;
use crate::geom::{Point, Rect};

verus! {

/// What the geometry depends on, measured and configured.
#[derive(Debug, Clone)]
pub struct GeometryInput {
    pub font_height: i32,
    /// Minimum line height (0: none).
    pub line_height: i32,
    pub lines: i32,
    /// Comment mode: a wide prompt and a narrow input.
    pub commented: bool,
    /// Width of a non-empty prompt (its text width less a quarter of the
    /// padding); 0 without one.
    pub prompt_w: i32,
    pub monitors: Vec<Rect>,
    pub root_w: i32,
    pub root_h: i32,
    /// The monitor asked for; negative or out of range: none.
    pub monitor: i32,
    /// The monitor with the focused window.
    pub focused: Option<usize>,
    pub pointer: Option<Point>,
    pub centered: bool,
    pub follow_cursor: bool,
    pub top_bar: bool,
    pub right_x_offset: bool,
    pub full_height: bool,
    /// Requested width, x and y offsets (`-1` centers, `-2` for y means
    /// the font offset below).
    pub dmw: i32,
    pub dmx: i32,
    pub dmy: i32,
    /// The y offset a `dmy` below `-1` stands for (1.55 font heights).
    pub font_offset_y: i32,
    pub border_width: i32,
    pub min_width: i32,
    /// The widest item text.
    pub max_text_w: i32,
    /// Size of the window the menu is embedded in, when there are no
    /// monitors.
    pub embed_parent: Option<(i32, i32)>,
}

/// Where and how large the menu window is.
#[derive(Debug, Clone, Copy, PartialEq, Eq, Structural)]
pub struct Geometry {
    pub x: i64,
    pub y: i64,
    pub mw: i64,
    pub mh: i64,
    /// Height of one line.
    pub bh: i64,
    pub lines: i64,
    pub prompt_w: i64,
    pub input_w: i64,
}

/// Division rounding toward zero, as integer division does.
pub open spec fn tdiv(a: int, b: int) -> int {
    if a >= 0 {
        a / b
    } else {
        -((-a) / b)
    }
}

pub open spec fn max_int(a: int, b: int) -> int {
    if a >= b {
        a
    } else {
        b
    }
}

pub open spec fn min_int(a: int, b: int) -> int {
    if a <= b {
        a
    } else {
        b
    }
}

impl GeometryInput {
    /// The inputs the geometry is defined for: a positive line height,
    /// sizes that are not negative, monitor edges that fit, and a minimum
    /// line height to divide by when the menu takes the full height.
    pub open spec fn wf(self) -> bool {
        &&& self.line_height >= 0
        &&& max_int(self.font_height + 12, self.line_height as int) > 0
        &&& self.root_w >= 0
        &&& self.root_h >= 0
        &&& forall|i: int|
            0 <= i < self.monitors@.len() ==> (#[trigger] self.monitors@[i]).w >= 0
                && self.monitors@[i].h >= 0 && self.monitors@[i].edges_fit()
        &&& (self.full_height && self.monitors@.len() > 0 ==> self.line_height > 0)
    }

    pub open spec fn bh(self) -> int {
        max_int(self.font_height + 12, self.line_height as int)
    }

    pub open spec fn lines0(self) -> int {
        max_int(self.lines as int, 0)
    }

    pub open spec fn prompt(self) -> int {
        if self.commented {
            self.bh() * 15
        } else {
            self.prompt_w as int
        }
    }

    /// The width that fits the widest item and the prompt, at least the
    /// minimum width and at most `limit`.
    pub open spec fn fit_w(self, limit: int) -> int {
        min_int(max_int(self.max_text_w + self.prompt(), self.min_width as int), limit)
    }
}

/// The first monitor from `k` on that holds `p`.
pub open spec fn monitor_at(ms: Seq<Rect>, p: Point, k: int) -> Option<int>
    decreases ms.len() - k,
{
    if k < 0 || k >= ms.len() {
        None
    } else if holds_point(ms[k], p) {
        Some(k)
    } else {
        monitor_at(ms, p, k + 1)
    }
}

/// The monitor the menu goes on: the one asked for, else the focused one,
/// else (when none was asked for) the one under the pointer, else the
/// first.
pub open spec fn chosen_monitor(g: GeometryInput) -> int {
    let n = g.monitors@.len();
    if 0 <= g.monitor < n {
        g.monitor as int
    } else {
        let (i, found) = match g.focused {
            Some(f) => if f < n {
                (f as int, true)
            } else {
                (0int, false)
            },
            None => (0int, false),
        };
        if g.monitor < 0 && !found {
            match g.pointer {
                Some(p) => match monitor_at(g.monitors@, p, 0) {
                    Some(k) => k,
                    None => i,
                },
                None => i,
            }
        } else {
            i
        }
    }
}

/// Lines that fit in `h`: fewer lines, as many as fit, when `lines + 1`
/// lines of height `bh` do not.
pub open spec fn fit_lines(lines: int, bh: int, h: int) -> int {
    if (lines + 1) * bh > h {
        h / bh - 1
    } else {
        lines
    }
}

/// The placement on monitor `m`: `(x, y, mw, mh, lines)` before the
/// limits of the screen are applied.
pub open spec fn placed(g: GeometryInput, m: Rect) -> (int, int, int, int, int) {
    let bh = g.bh();
    let mh0 = (g.lines0() + 1) * bh;
    if g.centered {
        let mw = if g.dmw != 0 && g.dmw < m.w {
            g.dmw as int
        } else {
            m.w - 100
        };
        let lines = fit_lines(g.lines0(), bh, m.h as int);
        let mh = (lines + 1) * bh;
        let y = m.y + tdiv(m.h - mh, 2);
        (m.x + tdiv(m.w - mw, 2), if y < 0 {
            0
        } else {
            y
        }, mw, mh, lines)
    } else if g.follow_cursor {
        let mw = if g.dmw != 0 {
            g.dmw as int
        } else {
            g.fit_w(g.root_w as int)
        };
        match g.pointer {
            Some(p) => {
                let x = if p.x > m.x + tdiv(g.root_w - m.x, 2) {
                    p.x - mw + 20
                } else {
                    p.x - 20
                };
                let y = if p.y > m.y + tdiv(g.root_h - m.y, 2) {
                    p.y - mh0 + 20
                } else {
                    p.y - 20
                };
                (max_int(x, 0), max_int(y, 0), mw, mh0, g.lines0())
            },
            None => (0, 0, mw, mh0, g.lines0()),
        }
    } else {
        let dmy = if g.dmy <= -1 {
            if g.dmy == -1 {
                tdiv(m.h - mh0, 2)
            } else {
                g.font_offset_y as int
            }
        } else {
            g.dmy as int
        };
        let mw = if g.dmw > 0 && g.dmw < m.w {
            g.dmw as int
        } else {
            m.w as int
        };
        let dmx = if g.dmx == -1 {
            tdiv(m.w - mw, 2)
        } else {
            g.dmx as int
        };
        let x = if g.right_x_offset {
            m.x + m.w - dmx - mw - 2 * g.border_width
        } else {
            m.x + dmx
        };
        let y = m.y + if g.top_bar {
            dmy
        } else {
            m.h - mh0 - dmy
        };
        (x, y, mw, mh0, g.lines0())
    }
}

/// The placement on a monitor, kept on the screen and on the monitor.
pub open spec fn on_monitor(g: GeometryInput, m: Rect) -> (int, int, int, int, int) {
    let (x, y, mw, mh, lines) = placed(g, m);
    let bw = g.border_width as int;
    let divisor = if g.line_height != 0 {
        g.line_height as int
    } else {
        g.bh()
    };
    let (mh2, lines2) = if mh > g.root_h - 10 {
        (g.root_h - bw * 2 - 10, (g.root_h as int) / divisor - 1)
    } else {
        (mh, lines)
    };
    let mw2 = if mw > g.root_w - 10 {
        g.root_w - bw * 2
    } else {
        mw
    };
    let x2 = if x < m.x {
        m.x as int
    } else {
        x
    };
    let x3 = if x2 + mw2 > m.x + m.w {
        m.x + m.w - mw2 - bw * 2
    } else {
        x2
    };
    if g.full_height {
        (
            x3,
            m.y + 32,
            mw2,
            g.root_h - bw * 2 - (g.root_h - m.h + 32),
            (g.root_h as int) / (g.line_height as int) - 2,
        )
    } else if y + mh2 > g.root_h {
        (x3, g.root_h - mh2, mw2, mh2, lines2)
    } else {
        (x3, y, mw2, mh2, lines2)
    }
}

/// The placement inside the window the menu is embedded in, of size
/// `(ww, wh)`.
pub open spec fn embedded(g: GeometryInput, ww: int, wh: int) -> (int, int, int, int, int) {
    let mh0 = (g.lines0() + 1) * g.bh();
    if g.centered {
        let mw = g.fit_w(ww);
        (tdiv(ww - mw, 2), tdiv(wh - mh0, 2), mw, mh0, g.lines0())
    } else if g.follow_cursor {
        // the width is not yet set when the pointer is placed: it is 0
        let (x, y) = match g.pointer {
            Some(p) => (
                p.x as int,
                if p.y > tdiv(g.root_h as int, 2) {
                    p.y - mh0
                } else {
                    p.y as int
                },
            ),
            None => (0, 0),
        };
        (x, y, g.fit_w(ww), mh0, g.lines0())
    } else {
        let y = if g.top_bar {
            g.dmy as int
        } else {
            wh - mh0 - g.dmy
        };
        let mw = if g.dmw > 0 && g.dmw < ww {
            g.dmw as int
        } else {
            ww
        };
        (g.dmx as int, y, mw, mh0, g.lines0())
    }
}

/// The geometry, or `None` when there are no monitors and no window to
/// embed in (the menu then exits).
pub open spec fn spec_geometry(g: GeometryInput) -> Option<Geometry> {
    let placed5 = if g.monitors@.len() > 0 {
        Some(on_monitor(g, g.monitors@[chosen_monitor(g)]))
    } else {
        match g.embed_parent {
            Some((ww, wh)) => Some(embedded(g, ww as int, wh as int)),
            None => None,
        }
    };
    match placed5 {
        None => None,
        Some((x, y, mw, mh, lines)) => Some(
            Geometry {
                x: x as i64,
                y: y as i64,
                mw: mw as i64,
                mh: mh as i64,
                bh: g.bh() as i64,
                lines: lines as i64,
                prompt_w: g.prompt() as i64,
                input_w: tdiv(
                    mw,
                    if g.commented {
                        10
                    } else {
                        3
                    },
                ) as i64,
            },
        ),
    }
}

fn tdiv_exec(a: i64, b: i64) -> (r: i64)
    requires
        b > 0,
        a > i64::MIN,
    ensures
        r == tdiv(a as int, b as int),
        -0x8000_0000_0000_0000 < a ==> (a >= 0 ==> 0 <= r <= a) && (a < 0 ==> a <= r <= 0),
{
    if a >= 0 {
        assert(a / b <= a) by (nonlinear_arith)
            requires
                a >= 0,
                b > 0,
        ;
        a / b
    } else {
        let n = -a;
        assert(n / b <= n) by (nonlinear_arith)
            requires
                n >= 0,
                b > 0,
        ;
        -(n / b)
    }
}

fn monitor_at_exec(ms: &Vec<Rect>, p: Point) -> (r: Option<usize>)
    requires
        forall|i: int| 0 <= i < ms@.len() ==> (#[trigger] ms@[i]).edges_fit(),
    ensures
        match monitor_at(ms@, p, 0) {
            Some(k) => r == Some(k as usize),
            None => r is None,
        },
{
    let mut k: usize = 0;
    while k < ms.len()
        invariant
            k <= ms@.len(),
            forall|i: int| 0 <= i < ms@.len() ==> (#[trigger] ms@[i]).edges_fit(),
            monitor_at(ms@, p, 0) == monitor_at(ms@, p, k as int),
        decreases ms.len() - k,
    {
        let r = ms[k];
        assert(ms@[k as int].edges_fit());
        if r.x <= p.x && (p.x as i64) < r.x as i64 + r.w as i64 && r.y <= p.y && (p.y as i64)
            < r.y as i64 + r.h as i64 {
            return Some(k);
        }
        k += 1;
    }
    None
}

fn chosen_monitor_exec(g: &GeometryInput) -> (i: usize)
    requires
        g.monitors@.len() > 0,
        g.wf(),
    ensures
        i == chosen_monitor(*g),
        i < g.monitors@.len(),
{
    let n = g.monitors.len();
    if 0 <= g.monitor && (g.monitor as usize) < n {
        return g.monitor as usize;
    }
    let (i, found) = match g.focused {
        Some(f) => if f < n {
            (f, true)
        } else {
            (0, false)
        },
        None => (0, false),
    };
    if g.monitor < 0 && !found {
        match g.pointer {
            Some(p) => {
                proof {
                    lemma_monitor_at_bound(g.monitors@, p, 0);
                }
                match monitor_at_exec(&g.monitors, p) {
                    Some(k) => k,
                    None => i,
                }
            },
            None => i,
        }
    } else {
        i
    }
}

proof fn lemma_monitor_at_bound(ms: Seq<Rect>, p: Point, k: int)
    ensures
        monitor_at(ms, p, k) matches Some(j) ==> k <= j < ms.len() && 0 <= j,
    decreases ms.len() - k,
{
    if 0 <= k < ms.len() && !holds_point(ms[k], p) {
        lemma_monitor_at_bound(ms, p, k + 1);
    }
}

/// `(lines + 1) * bh` for lines and heights of 32 bits.
fn span(lines: i64, bh: i64) -> (r: i64)
    requires
        -1 <= lines <= 0x7fff_ffff,
        0 < bh <= 0x8000_000b,
    ensures
        r == (lines + 1) * bh,
        0 <= r <= 0x8000_0000 * 0x8000_000b,
{
    assert(0 <= (lines + 1) * bh <= 0x8000_0000 * 0x8000_000b) by (nonlinear_arith)
        requires
            -1 <= lines <= 0x7fff_ffff,
            0 < bh <= 0x8000_000b,
    ;
    (lines + 1) * bh
}

/// The lines of height `bh` that fit in `h`, as the original loop counts
/// them down.
fn fit_lines_exec(lines: i64, bh: i64, h: i64) -> (r: i64)
    requires
        0 <= lines <= 0x7fff_ffff,
        0 < bh <= 0x8000_000b,
        0 <= h <= 0x7fff_ffff,
    ensures
        r == fit_lines(lines as int, bh as int, h as int),
        -1 <= r <= lines,
        (r + 1) * bh <= h || r == lines,
{
    let m = span(lines, bh);
    if m > h {
        let q = h / bh;
        assert(q * bh <= h < (q + 1) * bh) by (nonlinear_arith)
            requires
                q == h / bh,
                0 <= h,
                0 < bh,
        ;
        assert(q <= lines) by (nonlinear_arith)
            requires
                q * bh <= h,
                h < (lines + 1) * bh,
                0 < bh,
        ;
        assert(0 <= q) by (nonlinear_arith)
            requires
                q == h / bh,
                0 <= h,
                0 < bh,
        ;
        q - 1
    } else {
        lines
    }
}

fn placed_exec(g: &GeometryInput, m: Rect, bh: i64, lines0: i64, mh0: i64, fit_raw: i64) -> (r: (
    i64,
    i64,
    i64,
    i64,
    i64,
))
    requires
        g.wf(),
        bh == g.bh(),
        lines0 == g.lines0(),
        mh0 == (g.lines0() + 1) * g.bh(),
        0 <= mh0 <= 0x8000_0000 * 0x8000_000b,
        fit_raw == max_int(g.max_text_w + g.prompt(), g.min_width as int),
        -0x1_0000_0000 <= fit_raw <= 0x1_0000_0000 * 0x10,
        m.w >= 0,
        m.h >= 0,
        m.edges_fit(),
    ensures
        (r.0 as int, r.1 as int, r.2 as int, r.3 as int, r.4 as int) == placed(*g, m),
        -0x4_0000_0000 <= r.0 <= 0x4_0000_0000,
        -0x4_0000_0000 <= r.2 <= 0x4_0000_0000,
        -0x8000_0000 * 0x8000_0010 <= r.1 <= 0x8000_0000 * 0x8000_0010,
        0 <= r.3 <= 0x8000_0000 * 0x8000_000b,
        -1 <= r.4 <= 0x7fff_ffff,
{
    if g.centered {
        let mw: i64 = if g.dmw != 0 && g.dmw < m.w {
            g.dmw as i64
        } else {
            m.w as i64 - 100
        };
        let lines = fit_lines_exec(lines0, bh, m.h as i64);
        let mh = span(lines, bh);
        let y = m.y as i64 + tdiv_exec(m.h as i64 - mh, 2);
        (m.x as i64 + tdiv_exec(m.w as i64 - mw, 2), if y < 0 {
            0
        } else {
            y
        }, mw, mh, lines)
    } else if g.follow_cursor {
        let mw: i64 = if g.dmw != 0 {
            g.dmw as i64
        } else if fit_raw <= g.root_w as i64 {
            fit_raw
        } else {
            g.root_w as i64
        };
        match g.pointer {
            Some(p) => {
                let x = if p.x as i64 > m.x as i64 + tdiv_exec(g.root_w as i64 - m.x as i64, 2) {
                    p.x as i64 - mw + 20
                } else {
                    p.x as i64 - 20
                };
                let y = if p.y as i64 > m.y as i64 + tdiv_exec(g.root_h as i64 - m.y as i64, 2) {
                    p.y as i64 - mh0 + 20
                } else {
                    p.y as i64 - 20
                };
                (if x >= 0 {
                    x
                } else {
                    0
                }, if y >= 0 {
                    y
                } else {
                    0
                }, mw, mh0, lines0)
            },
            None => (0, 0, mw, mh0, lines0),
        }
    } else {
        let dmy: i64 = if g.dmy <= -1 {
            if g.dmy == -1 {
                tdiv_exec(m.h as i64 - mh0, 2)
            } else {
                g.font_offset_y as i64
            }
        } else {
            g.dmy as i64
        };
        let mw: i64 = if g.dmw > 0 && g.dmw < m.w {
            g.dmw as i64
        } else {
            m.w as i64
        };
        let dmx: i64 = if g.dmx == -1 {
            tdiv_exec(m.w as i64 - mw, 2)
        } else {
            g.dmx as i64
        };
        let x = if g.right_x_offset {
            m.x as i64 + m.w as i64 - dmx - mw - 2 * g.border_width as i64
        } else {
            m.x as i64 + dmx
        };
        let y = m.y as i64 + if g.top_bar {
            dmy
        } else {
            m.h as i64 - mh0 - dmy
        };
        (x, y, mw, mh0, lines0)
    }
}

fn on_monitor_exec(g: &GeometryInput, bh: i64, lines0: i64, mh0: i64, fit_raw: i64) -> (r: (
    i64,
    i64,
    i64,
    i64,
    i64,
))
    requires
        g.wf(),
        g.monitors@.len() > 0,
        bh == g.bh(),
        lines0 == g.lines0(),
        mh0 == (g.lines0() + 1) * g.bh(),
        0 <= mh0 <= 0x8000_0000 * 0x8000_000b,
        fit_raw == max_int(g.max_text_w + g.prompt(), g.min_width as int),
        -0x1_0000_0000 <= fit_raw <= 0x1_0000_0000 * 0x10,
    ensures
        (r.0 as int, r.1 as int, r.2 as int, r.3 as int, r.4 as int) == on_monitor(
            *g,
            g.monitors@[chosen_monitor(*g)],
        ),
{
    let i = chosen_monitor_exec(g);
    let m = g.monitors[i];
    assert(g.monitors@[i as int].w >= 0 && g.monitors@[i as int].h >= 0);
    assert(g.monitors@[i as int].edges_fit());
    let (x, y, mw, mh, lines) = placed_exec(g, m, bh, lines0, mh0, fit_raw);
    let bw = g.border_width as i64;
    let divisor: i64 = if g.line_height != 0 {
        g.line_height as i64
    } else {
        bh
    };
    let (mh2, lines2) = if mh > g.root_h as i64 - 10 {
        (g.root_h as i64 - bw * 2 - 10, tdiv_exec(g.root_h as i64, divisor) - 1)
    } else {
        (mh, lines)
    };
    let mw2 = if mw > g.root_w as i64 - 10 {
        g.root_w as i64 - bw * 2
    } else {
        mw
    };
    let x2 = if x < m.x as i64 {
        m.x as i64
    } else {
        x
    };
    let x3 = if x2 + mw2 > m.x as i64 + m.w as i64 {
        m.x as i64 + m.w as i64 - mw2 - bw * 2
    } else {
        x2
    };
    if g.full_height {
        (
            x3,
            m.y as i64 + 32,
            mw2,
            g.root_h as i64 - bw * 2 - (g.root_h as i64 - m.h as i64 + 32),
            tdiv_exec(g.root_h as i64, g.line_height as i64) - 2,
        )
    } else if (y as i128) + (mh2 as i128) > g.root_h as i128 {
        (x3, g.root_h as i64 - mh2, mw2, mh2, lines2)
    } else {
        (x3, y, mw2, mh2, lines2)
    }
}

fn embedded_exec(g: &GeometryInput, ww: i32, wh: i32, lines0: i64, mh0: i64, fit_raw: i64) -> (r: (
    i64,
    i64,
    i64,
    i64,
    i64,
))
    requires
        g.wf(),
        lines0 == g.lines0(),
        mh0 == (g.lines0() + 1) * g.bh(),
        0 <= mh0 <= 0x8000_0000 * 0x8000_000b,
        fit_raw == max_int(g.max_text_w + g.prompt(), g.min_width as int),
        -0x1_0000_0000 <= fit_raw <= 0x1_0000_0000 * 0x10,
    ensures
        (r.0 as int, r.1 as int, r.2 as int, r.3 as int, r.4 as int) == embedded(
            *g,
            ww as int,
            wh as int,
        ),
{
    let fit = if fit_raw <= ww as i64 {
        fit_raw
    } else {
        ww as i64
    };
    if g.centered {
        (tdiv_exec(ww as i64 - fit, 2), tdiv_exec(wh as i64 - mh0, 2), fit, mh0, lines0)
    } else if g.follow_cursor {
        let (x, y): (i64, i64) = match g.pointer {
            Some(p) => (
                p.x as i64,
                if p.y as i64 > tdiv_exec(g.root_h as i64, 2) {
                    p.y as i64 - mh0
                } else {
                    p.y as i64
                },
            ),
            None => (0, 0),
        };
        (x, y, fit, mh0, lines0)
    } else {
        let y = if g.top_bar {
            g.dmy as i64
        } else {
            wh as i64 - mh0 - g.dmy as i64
        };
        let mw = if g.dmw > 0 && g.dmw < ww {
            g.dmw as i64
        } else {
            ww as i64
        };
        (g.dmx as i64, y, mw, mh0, lines0)
    }
}

proof fn lemma_chosen_monitor_in_range(g: GeometryInput)
    requires
        g.monitors@.len() > 0,
    ensures
        0 <= chosen_monitor(g) < g.monitors@.len(),
{
    if let Some(p) = g.pointer {
        lemma_monitor_at_bound(g.monitors@, p, 0);
    }
}

/// A bar sits on its edge of the chosen monitor: for a menu that is
/// neither centered nor placed at the pointer nor of full height, with a
/// y offset that is not negative and a window that fits on the screen, a
/// top bar's top edge is the offset below the monitor's top, and a bottom
/// bar's bottom edge is the offset above the monitor's bottom. The window
/// keeps the height of its lines.
pub proof fn lemma_bar_sits_on_its_edge(g: GeometryInput)
    requires
        g.wf(),
        g.monitors@.len() > 0,
        !g.centered,
        !g.follow_cursor,
        !g.full_height,
        g.dmy >= 0,
        (g.lines0() + 1) * g.bh() <= g.root_h - 10,
        g.top_bar ==> g.monitors@[chosen_monitor(g)].y + g.dmy + (g.lines0() + 1) * g.bh()
            <= g.root_h,
        !g.top_bar ==> g.monitors@[chosen_monitor(g)].y + g.monitors@[chosen_monitor(g)].h
            - g.dmy <= g.root_h,
    ensures
        spec_geometry(g) matches Some(r) && {
            let m = g.monitors@[chosen_monitor(g)];
            &&& r.mh == (g.lines0() + 1) * g.bh()
            &&& g.top_bar ==> r.y == m.y + g.dmy
            &&& !g.top_bar ==> r.y + r.mh == m.y + m.h - g.dmy
        },
{
    let m = g.monitors@[chosen_monitor(g)];
    lemma_chosen_monitor_in_range(g);
    let bh = g.bh();
    let l = g.lines0();
    assert(0 <= l <= i32::MAX);
    assert(0 < bh <= i32::MAX + 12);
    assert((l + 1) * bh <= 0x8000_0000 * 0x8000_000c) by (nonlinear_arith)
        requires
            0 <= l <= 0x7fff_ffff,
            0 < bh <= 0x8000_000b,
    ;
    assert((l + 1) * bh >= 0) by (nonlinear_arith)
        requires
            0 <= l,
            0 < bh,
    ;
}

/// Works out the menu window's geometry: the chosen monitor (or the window
/// it is embedded in), the line height, size and position, and the widths
/// of the prompt and the input field.
pub fn geometry(g: &GeometryInput) -> (r: Option<Geometry>)
    requires
        g.wf(),
    ensures
        r == spec_geometry(*g),
{
    let fh = g.font_height as i64 + 12;
    let bh: i64 = if fh >= g.line_height as i64 {
        fh
    } else {
        g.line_height as i64
    };
    let lines0: i64 = if g.lines >= 0 {
        g.lines as i64
    } else {
        0
    };
    let mh0 = span(lines0, bh);
    let prompt: i64 = if g.commented {
        bh * 15
    } else {
        g.prompt_w as i64
    };
    let a = g.max_text_w as i64 + prompt;
    let fit_raw = if a >= g.min_width as i64 {
        a
    } else {
        g.min_width as i64
    };
    let placed5: Option<(i64, i64, i64, i64, i64)> = if g.monitors.len() > 0 {
        Some(on_monitor_exec(g, bh, lines0, mh0, fit_raw))
    } else {
        match g.embed_parent {
            None => None,
            Some((ww, wh)) => Some(embedded_exec(g, ww, wh, lines0, mh0, fit_raw)),
        }
    };
    match placed5 {
        None => None,
        Some((x, y, mw, mh, lines)) => {
            let input_w = tdiv_exec(
                mw,
                if g.commented {
                    10
                } else {
                    3
                },
            );
            Some(Geometry { x, y, mw, mh, bh, lines, prompt_w: prompt, input_w })
        },
    }
}

} // verus!
