//! The pointer: which item the pointer is over (hover), and what a button
//! press does, given the layout of the menu as it was drawn.
//!
//! The menu is drawn as one of three layouts:
//! - a horizontal bar (`lines <= 0`): prompt, input, `<`, the visible items
//!   side by side, `>`;
//! - a vertical list (`lines > 0`, `columns <= 0`): the input line, then one
//!   row per visible item;
//! - a grid (`lines > 0`, `columns > 0`): columns of `lines` rows each.
use vstd::prelude::*;

use crate::menu::{hovered_row, row_at};

verus! {

/// The measured layout of the drawn menu, as plain numbers.
#[derive(Debug, Clone)]
pub struct PointerLayout {
    /// Width of the prompt; 0 when there is no prompt or it is empty.
    pub prompt_w: i32,
    /// Width of the input field in the horizontal bar.
    pub input_w: i32,
    /// Width of the menu window.
    pub menu_w: i32,
    /// Height of one line.
    pub row_h: i32,
    pub lines: i32,
    pub columns: i32,
    /// Width of the `<` arrow.
    pub left_arrow_w: i32,
    /// Width of the `>` arrow.
    pub right_arrow_w: i32,
    /// Width of the command slot at either end of the input line.
    pub command_w: i32,
    /// Text widths of the visible matches, starting with `curr`.
    pub item_widths: Vec<u32>,
    /// Whether each visible match (from `curr`) is a heading.
    pub headings: Vec<bool>,
    pub curr: Option<usize>,
    pub next: Option<usize>,
    pub prev: usize,
    pub sel: Option<usize>,
    /// Number of matches.
    pub matches: usize,
    pub has_left_command: bool,
    /// The selected match is a heading.
    pub sel_heading: bool,
    /// The selected match's text is empty.
    pub sel_text_empty: bool,
}

/// What a button press asks of the menu.
#[derive(Debug, Clone, Copy, PartialEq, Eq, Structural)]
pub enum ButtonAction {
    /// Exit with this status (right button).
    Exit(i32),
    /// Run the left (0) or right (1) command.
    Command(usize),
    /// Clear the input line.
    ClearInput,
    /// Print the match `index` (or the input when `None`); exit unless
    /// `keep_open`, else mark it printed and select it.
    Output { index: Option<usize>, keep_open: bool },
    /// Show the previous page, selecting the first item of this one.
    PagePrev,
    /// Show the next page, selecting its first item.
    PageNext,
    /// Paste the primary selection, or the clipboard.
    Paste { clipboard: bool },
    Nothing,
}

pub open spec fn min_int(a: int, b: int) -> int {
    if a <= b {
        a
    } else {
        b
    }
}

impl PointerLayout {
    /// What the menu keeps true of its layout: `curr` is a match, widths
    /// and heights are not negative.
    pub open spec fn wf(self) -> bool {
        &&& (self.curr matches Some(c) ==> c < self.matches)
        &&& self.menu_w >= 0
        &&& self.row_h >= 0
    }

    /// One past the last visible match: `next`, or the end of the matches.
    pub open spec fn stop(self) -> int {
        match (self.curr, self.next) {
            (Some(c), Some(n)) => if c <= n && n < self.matches {
                n as int
            } else {
                self.matches as int
            },
            _ => self.matches as int,
        }
    }

    /// The text width of match `p` (0 when it was not measured).
    pub open spec fn width_at(self, p: int) -> int {
        match self.curr {
            Some(c) => if 0 <= p - c < self.item_widths@.len() {
                self.item_widths@[p - c] as int
            } else {
                0
            },
            None => 0,
        }
    }

    /// Whether match `p` is a heading.
    pub open spec fn heading_at(self, p: int) -> bool {
        match self.curr {
            Some(c) => 0 <= p - c < self.headings@.len() && self.headings@[p - c],
            None => false,
        }
    }

    /// There is a page before this one.
    pub open spec fn can_page_back(self) -> bool {
        self.prev != 0 || (self.curr matches Some(c) && c > 0)
    }

    /// The space of `<` counts as input when there is no page before.
    pub open spec fn reserves_arrow(self) -> bool {
        self.prev == 0 || !(self.curr matches Some(c) && c != 0)
    }

    /// Width of one grid column.
    pub open spec fn column_w(self) -> int {
        self.menu_w as int / self.columns as int
    }
}

/// The horizontal bar, from match `p` whose slot starts at `s`: each slot is
/// as wide as its text, cut at the `>` arrow; the first slot whose span
/// `[s, s + w]` holds `ex`.
pub open spec fn bar_item(l: PointerLayout, p: int, s: int, ex: int) -> Option<int>
    decreases l.stop() - p,
{
    if p >= l.stop() {
        None
    } else {
        let w = min_int(l.width_at(p), l.menu_w - s - l.right_arrow_w);
        if s <= ex <= s + w {
            Some(p)
        } else {
            bar_item(l, p + 1, s + w, ex)
        }
    }
}

/// Where the first item slot of the bar starts.
pub open spec fn bar_start(l: PointerLayout) -> int {
    l.prompt_w + l.input_w + l.left_arrow_w
}

/// The grid walk: at match `pos`, row `i` of column `ncols`, whose row top
/// is `cy`. A column holds `lines` rows; the walk stops at `next` or the
/// last match. Each step moves to the next cell and tests whether
/// `(ex, ey)` lies in it.
pub open spec fn grid_item(
    l: PointerLayout,
    pos: int,
    i: int,
    init: bool,
    ncols: int,
    cy: int,
    ex: int,
    ey: int,
) -> Option<int>
    decreases 4 * (l.matches - pos) + (if i >= l.lines {
        1int
    } else {
        0int
    }) + (if !init {
        2int
    } else {
        0int
    }),
{
    if l.lines <= 0 || pos < 0 || pos >= l.matches || l.next == Some(pos as usize) {
        None
    } else if i >= l.lines {
        let cx = l.prompt_w + (ncols + 1) * l.column_w();
        if 0 <= ey <= l.row_h && cx <= ex <= cx + l.column_w() {
            Some(pos)
        } else {
            grid_item(l, pos, 0, init, ncols + 1, 0, ex, ey)
        }
    } else if !init {
        let cx = l.prompt_w + ncols * l.column_w();
        if cy + l.row_h <= ey <= cy + 2 * l.row_h && cx <= ex <= cx + l.column_w() {
            Some(pos)
        } else {
            grid_item(l, pos, i + 1, true, ncols, cy + l.row_h, ex, ey)
        }
    } else if pos + 1 >= l.matches {
        None
    } else {
        let cx = l.prompt_w + ncols * l.column_w();
        if cy + l.row_h <= ey <= cy + 2 * l.row_h && cx <= ex <= cx + l.column_w() {
            Some(pos + 1)
        } else {
            grid_item(l, pos + 1, i + 1, true, ncols, cy + l.row_h, ex, ey)
        }
    }
}

/// The match the pointer at `(x, y)` is over, in whichever layout is drawn.
pub open spec fn spec_hovered_item(x: i32, y: i32, l: PointerLayout) -> Option<usize> {
    let r = match l.curr {
        None => None,
        Some(c) => if l.lines > 0 {
            if l.columns > 0 {
                grid_item(l, c as int, 0, false, 0, 0, x as int, y as int)
            } else {
                row_at(c as int, l.stop(), 0, l.row_h as int, y as int)
            }
        } else if l.matches > 0 {
            bar_item(l, c as int, bar_start(l), x as int)
        } else {
            None
        },
    };
    match r {
        Some(k) => Some(k as usize),
        None => None,
    }
}

/// A left click.
pub open spec fn spec_left_click(ctrl: bool, x: int, y: int, l: PointerLayout) -> ButtonAction {
    let x0 = l.prompt_w as int;
    let w = if l.lines > 0 || l.matches == 0 {
        l.menu_w - x0
    } else {
        l.input_w as int
    };
    let arrow = if l.reserves_arrow() {
        l.left_arrow_w as int
    } else {
        0
    };
    let input_hit = (l.lines <= 0 && x >= 0 && x <= x0 + w + arrow) || (l.lines > 0 && y >= 0 && y
        <= l.row_h);
    if input_hit {
        if l.has_left_command && x < l.command_w {
            ButtonAction::Command(0)
        } else if x > l.menu_w - l.command_w {
            ButtonAction::Command(1)
        } else {
            ButtonAction::ClearInput
        }
    } else if l.lines > 0 {
        if l.sel is Some && l.sel_heading {
            ButtonAction::Nothing
        } else {
            ButtonAction::Output { index: l.sel, keep_open: ctrl }
        }
    } else if l.matches > 0 {
        let ax = x0 + l.input_w;
        let item = match l.curr {
            Some(c) => bar_item(l, c as int, bar_start(l), x),
            None => None,
        };
        let rx = l.menu_w - l.right_arrow_w;
        if l.can_page_back() && ax <= x <= ax + l.left_arrow_w {
            ButtonAction::PagePrev
        } else if item matches Some(p) && !(l.sel is Some && !l.sel_text_empty && l.heading_at(p)) {
            ButtonAction::Output { index: Some(item.unwrap() as usize), keep_open: ctrl }
        } else if l.next is Some && rx <= x <= rx + l.right_arrow_w {
            ButtonAction::PageNext
        } else {
            ButtonAction::Nothing
        }
    } else {
        ButtonAction::Nothing
    }
}

/// What pressing `button` (1 left, 2 middle, 3 right, 4/5 wheel) with the
/// given modifiers at `(x, y)` does.
pub open spec fn spec_button_action(
    button: u8,
    ctrl: bool,
    shift: bool,
    x: i32,
    y: i32,
    l: PointerLayout,
) -> ButtonAction {
    if button == 3 {
        ButtonAction::Exit(1)
    } else if button == 1 {
        spec_left_click(ctrl, x as int, y as int, l)
    } else if button == 2 {
        ButtonAction::Paste { clipboard: shift }
    } else if button == 4 && l.can_page_back() {
        ButtonAction::PagePrev
    } else if button == 5 && l.next is Some {
        ButtonAction::PageNext
    } else {
        ButtonAction::Nothing
    }
}

fn stop_of(l: &PointerLayout) -> (s: usize)
    ensures
        s == l.stop(),
{
    match (l.curr, l.next) {
        (Some(c), Some(n)) => if c <= n && n < l.matches {
            n
        } else {
            l.matches
        },
        _ => l.matches,
    }
}

fn width_of(l: &PointerLayout, c: usize, p: usize) -> (w: u32)
    requires
        l.curr == Some(c),
        c <= p,
    ensures
        w == l.width_at(p as int),
{
    let k = p - c;
    if k < l.item_widths.len() {
        l.item_widths[k]
    } else {
        0
    }
}

fn heading_of(l: &PointerLayout, c: usize, p: usize) -> (b: bool)
    requires
        l.curr == Some(c),
        c <= p,
    ensures
        b == l.heading_at(p as int),
{
    let k = p - c;
    k < l.headings.len() && l.headings[k]
}

/// The slot of the horizontal bar under `x`.
fn bar_item_exec(l: &PointerLayout, c: usize, x: i32) -> (r: Option<usize>)
    requires
        l.curr == Some(c),
        l.wf(),
    ensures
        match bar_item(*l, c as int, bar_start(*l), x as int) {
            Some(k) => r == Some(k as usize),
            None => r is None,
        },
{
    let stop = stop_of(l);
    let s0: i64 = l.prompt_w as i64 + l.input_w as i64 + l.left_arrow_w as i64;
    let edge: i64 = l.menu_w as i64 - l.right_arrow_w as i64;
    let lo: i64 = if s0 <= edge {
        s0
    } else {
        edge
    };
    let hi: i64 = if s0 <= edge {
        edge
    } else {
        s0
    };
    let mut p = c;
    let mut s = s0;
    while p < stop
        invariant
            c <= p,
            l.curr == Some(c),
            stop == l.stop(),
            stop <= l.matches,
            edge == l.menu_w - l.right_arrow_w,
            lo <= s <= hi,
            lo <= edge <= hi,
            -0x3_0000_0000 <= lo,
            hi <= 0x3_0000_0000,
            bar_item(*l, c as int, bar_start(*l), x as int) == bar_item(
                *l,
                p as int,
                s as int,
                x as int,
            ),
        decreases stop - p,
    {
        let width = width_of(l, c, p) as i64;
        let room = edge - s;
        let w = if width <= room {
            width
        } else {
            room
        };
        if s <= x as i64 && x as i64 <= s + w {
            return Some(p);
        }
        s = s + w;
        p += 1;
    }
    None
}

/// The cell of the grid under `(x, y)`.
fn grid_item_exec(l: &PointerLayout, c: usize, x: i32, y: i32) -> (r: Option<usize>)
    requires
        l.curr == Some(c),
        l.wf(),
        l.lines > 0,
        l.columns > 0,
    ensures
        match grid_item(*l, c as int, 0, false, 0, 0, x as int, y as int) {
            Some(k) => r == Some(k as usize),
            None => r is None,
        },
{
    let colw: i32 = l.menu_w / l.columns;
    assert(colw == l.column_w());
    assert(0 <= colw <= 0x7fff_ffff) by (nonlinear_arith)
        requires
            colw == l.menu_w as int / l.columns as int,
            0 <= l.menu_w,
            0 < l.columns,
    ;
    let h = l.row_h;
    let lines = l.lines;
    let mut pos = c;
    let mut i: i32 = 0;
    let mut init = false;
    let mut ncols: usize = 0;
    let mut cy: i128 = 0;
    loop
        invariant
            l.curr == Some(c),
            l.wf(),
            l.lines == lines,
            lines > 0,
            l.columns > 0,
            h == l.row_h,
            colw == l.column_w(),
            0 <= colw <= 0x7fff_ffff,
            c <= pos < l.matches,
            0 <= i <= lines,
            init ==> ncols + i <= pos - c + 1,
            !init ==> ncols == 0 && i == 0 && pos == c,
            cy == i * h,
            grid_item(*l, c as int, 0, false, 0, 0, x as int, y as int) == grid_item(
                *l,
                pos as int,
                i as int,
                init,
                ncols as int,
                cy as int,
                x as int,
                y as int,
            ),
        decreases 4 * (l.matches - pos) + (if i >= lines {
            1int
        } else {
            0int
        }) + (if !init {
            2int
        } else {
            0int
        }),
    {
        assert(0 <= (i as int) * (h as int) <= 0x4000_0000_0000_0000) by (nonlinear_arith)
            requires
                0 <= i <= 0x7fff_ffff,
                0 <= h <= 0x7fff_ffff,
        ;
        match l.next {
            Some(n) => {
                if n == pos {
                    return None;
                }
            },
            None => {},
        }
        let hit_pos;
        if i >= lines {
            i = 0;
            ncols = ncols + 1;
            cy = 0;
            hit_pos = pos;
        } else if !init {
            init = true;
            assert((i + 1) * h == i * h + h) by (nonlinear_arith);
            i = i + 1;
            cy = cy + h as i128;
            hit_pos = pos;
        } else {
            if pos + 1 >= l.matches {
                return None;
            }
            pos = pos + 1;
            assert((i + 1) * h == i * h + h) by (nonlinear_arith);
            i = i + 1;
            cy = cy + h as i128;
            hit_pos = pos;
        }
        assert(0 <= (ncols as int) * (colw as int) <= 0xffff_ffff_ffff_ffff * 0x7fff_ffff)
            by (nonlinear_arith)
            requires
                0 <= ncols <= 0xffff_ffff_ffff_ffff,
                0 <= colw <= 0x7fff_ffff,
        ;
        let cx: i128 = l.prompt_w as i128 + (ncols as i128) * (colw as i128);
        if cy <= y as i128 && y as i128 <= cy + h as i128 && cx <= x as i128
            && x as i128 <= cx + colw as i128 {
            return Some(hit_pos);
        }
    }
}

/// The match the pointer at `(x, y)` is over: a cell of the grid, a row of
/// the vertical list, or a slot of the horizontal bar.
pub fn hovered_item(x: i32, y: i32, l: &PointerLayout) -> (r: Option<usize>)
    requires
        l.wf(),
    ensures
        r == spec_hovered_item(x, y, *l),
{
    match l.curr {
        None => None,
        Some(c) => if l.lines > 0 {
            if l.columns > 0 {
                grid_item_exec(l, c, x, y)
            } else {
                let stop = stop_of(l);
                hovered_row(Some(c), None, stop, l.row_h, y)
            }
        } else if l.matches > 0 {
            bar_item_exec(l, c, x)
        } else {
            None
        },
    }
}

fn left_click(ctrl: bool, x: i32, y: i32, l: &PointerLayout) -> (a: ButtonAction)
    requires
        l.wf(),
    ensures
        a == spec_left_click(ctrl, x as int, y as int, *l),
{
    let x0 = l.prompt_w as i64;
    let w: i64 = if l.lines > 0 || l.matches == 0 {
        l.menu_w as i64 - x0
    } else {
        l.input_w as i64
    };
    let reserves = l.prev == 0 || !match l.curr {
        Some(c) => c != 0,
        None => false,
    };
    let arrow: i64 = if reserves {
        l.left_arrow_w as i64
    } else {
        0
    };
    let xi = x as i64;
    let input_hit = (l.lines <= 0 && xi >= 0 && xi <= x0 + w + arrow) || (l.lines > 0 && y >= 0
        && y <= l.row_h);
    if input_hit {
        if l.has_left_command && x < l.command_w {
            ButtonAction::Command(0)
        } else if xi > l.menu_w as i64 - l.command_w as i64 {
            ButtonAction::Command(1)
        } else {
            ButtonAction::ClearInput
        }
    } else if l.lines > 0 {
        if l.sel.is_some() && l.sel_heading {
            ButtonAction::Nothing
        } else {
            ButtonAction::Output { index: l.sel, keep_open: ctrl }
        }
    } else if l.matches > 0 {
        let ax = x0 + l.input_w as i64;
        let item = match l.curr {
            Some(c) => bar_item_exec(l, c, x),
            None => None,
        };
        let rx = l.menu_w as i64 - l.right_arrow_w as i64;
        let back = l.prev != 0 || match l.curr {
            Some(c) => c > 0,
            None => false,
        };
        if back && ax <= xi && xi <= ax + l.left_arrow_w as i64 {
            return ButtonAction::PagePrev;
        }
        match item {
            Some(p) => {
                let c = l.curr.unwrap();
                proof {
                    lemma_bar_item_from(*l, c as int, bar_start(*l), x as int);
                    let k = bar_item(*l, c as int, bar_start(*l), x as int).unwrap();
                    assert(c <= k < l.stop());
                    assert(p == k);
                }
                let blocked = l.sel.is_some() && !l.sel_text_empty && heading_of(l, c, p);
                if !blocked {
                    return ButtonAction::Output { index: Some(p), keep_open: ctrl };
                }
            },
            None => {},
        }
        if l.next.is_some() && rx <= xi && xi <= rx + l.right_arrow_w as i64 {
            ButtonAction::PageNext
        } else {
            ButtonAction::Nothing
        }
    } else {
        ButtonAction::Nothing
    }
}

proof fn lemma_bar_item_from(l: PointerLayout, p: int, s: int, ex: int)
    ensures
        bar_item(l, p, s, ex) matches Some(k) ==> p <= k < l.stop(),
    decreases l.stop() - p,
{
    if p < l.stop() {
        lemma_bar_item_from(l, p + 1, s + min_int(l.width_at(p), l.menu_w - s - l.right_arrow_w), ex);
    }
}

/// What a button press does: exit on the right button, paste on the
/// middle one, page on the wheel, and on the left button clear the input,
/// run a command, page through the arrows or print an item.
pub fn button_action(button: u8, ctrl: bool, shift: bool, x: i32, y: i32, l: &PointerLayout) -> (a:
    ButtonAction)
    requires
        l.wf(),
    ensures
        a == spec_button_action(button, ctrl, shift, x, y, *l),
{
    if button == 3 {
        ButtonAction::Exit(1)
    } else if button == 1 {
        left_click(ctrl, x, y, l)
    } else if button == 2 {
        ButtonAction::Paste { clipboard: shift }
    } else if button == 4 && (l.prev != 0 || match l.curr {
        Some(c) => c > 0,
        None => false,
    }) {
        ButtonAction::PagePrev
    } else if button == 5 && l.next.is_some() {
        ButtonAction::PageNext
    } else {
        ButtonAction::Nothing
    }
}

proof fn lemma_row_at_range(p: int, stop: int, top: int, h: int, y: int)
    ensures
        row_at(p, stop, top, h, y) matches Some(k) ==> p <= k < stop,
    decreases stop - p,
{
    if p < stop {
        lemma_row_at_range(p + 1, stop, top + h, h, y);
    }
}

proof fn lemma_grid_item_range(
    l: PointerLayout,
    pos: int,
    i: int,
    init: bool,
    ncols: int,
    cy: int,
    ex: int,
    ey: int,
)
    ensures
        grid_item(l, pos, i, init, ncols, cy, ex, ey) matches Some(k) ==> pos <= k < l.matches,
    decreases 4 * (l.matches - pos) + (if i >= l.lines {
        1int
    } else {
        0int
    }) + (if !init {
        2int
    } else {
        0int
    }),
{
    if l.lines <= 0 || pos < 0 || pos >= l.matches || l.next == Some(pos as usize) {
    } else if i >= l.lines {
        lemma_grid_item_range(l, pos, 0, init, ncols + 1, 0, ex, ey);
    } else if !init {
        lemma_grid_item_range(l, pos, i + 1, true, ncols, cy + l.row_h, ex, ey);
    } else if pos + 1 < l.matches {
        lemma_grid_item_range(l, pos + 1, i + 1, true, ncols, cy + l.row_h, ex, ey);
    }
}

/// The pointer only ever hovers a match that exists, from the first one
/// shown on: in every layout, a hovered index `k` has `curr <= k <
/// matches`.
pub proof fn lemma_hover_picks_a_shown_match(x: i32, y: i32, l: PointerLayout)
    requires
        l.wf(),
    ensures
        spec_hovered_item(x, y, l) matches Some(k) ==> l.curr matches Some(c) && c <= k < l.matches,
{
    if let Some(c) = l.curr {
        if l.lines > 0 {
            if l.columns > 0 {
                lemma_grid_item_range(l, c as int, 0, false, 0, 0, x as int, y as int);
            } else {
                lemma_row_at_range(c as int, l.stop(), 0, l.row_h as int, y as int);
            }
        } else if l.matches > 0 {
            lemma_bar_item_from(l, c as int, bar_start(l), x as int);
        }
    }
}

} // verus!
