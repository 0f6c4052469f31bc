//! Where the parts of the menu are drawn: the prompt, the input field and
//! its text, the text cursor, the items (a grid of rows, or a horizontal
//! bar between `<` and `>`), the match counter and the command slots.
//! Widths of text come measured; the layout decides where everything goes.
use vstd::prelude::*;

use crate::geometry::tdiv;
use crate::menu::counter_shown;

verus! {

/// The measurements and state the layout depends on.
#[derive(Debug, Clone)]
pub struct LayoutInput {
    pub menu_w: i32,
    pub row_h: i32,
    pub font_h: i32,
    pub lines: i32,
    pub columns: i32,
    /// Horizontal padding of text.
    pub lrpad: i32,
    /// Width of a command slot.
    pub command_w: i32,
    /// Widths of `<` and `>`.
    pub left_arrow_w: i32,
    pub right_arrow_w: i32,
    /// Width of the match counter's text.
    pub counter_w: i32,
    /// Width of the prompt; 0 when there is none or it is empty.
    pub prompt_w: i32,
    pub input_w: i32,
    pub has_left_command: bool,
    pub has_right_command: bool,
    pub commented: bool,
    pub password: bool,
    pub toast: bool,
    /// Length of the typed text in bytes; whether a placeholder is set.
    pub text_len: usize,
    pub has_placeholder: bool,
    /// Widths of the typed text before and after the cursor.
    pub before_cursor_w: i32,
    pub after_cursor_w: i32,
    /// Text widths of the shown matches, from `curr` on.
    pub item_widths: Vec<i32>,
    pub curr: Option<usize>,
    pub next: Option<usize>,
    pub matches: usize,
}

/// What the input field shows.
#[derive(Debug, Clone, Copy, PartialEq, Eq, Structural)]
pub enum InputText {
    /// One dot per byte of the typed text (password entry).
    Dots(usize),
    Typed,
    Placeholder,
    Empty,
}

/// A box an item is drawn in.
#[derive(Debug, Clone, Copy, PartialEq, Eq, Structural)]
pub struct ItemBox {
    pub x: i128,
    pub y: i128,
    pub w: i128,
}

/// Where everything goes.
#[derive(Debug, Clone, PartialEq, Eq)]
pub struct MenuLayout {
    /// The prompt: x, width and height.
    pub prompt: Option<(i64, i64, i64)>,
    /// The input field: x and width.
    pub input_x: i64,
    pub input_w: i64,
    pub input_text: InputText,
    /// Where the input's text starts.
    pub text_x: i64,
    /// The text cursor: x, y, width and height.
    pub cursor: Option<(i64, i64, i64, i64)>,
    /// The shown matches' boxes, from `curr` on.
    pub items: Vec<ItemBox>,
    /// The `<` and `>` arrows' x (horizontal bar).
    pub left_arrow: Option<i64>,
    pub right_arrow: Option<i64>,
    /// The match counter's x.
    pub counter: Option<i64>,
    /// The command slots' x (list or grid).
    pub left_command: Option<i64>,
    pub right_command: Option<i64>,
}

/// The layout as values: what [`MenuLayout`] holds, its items as a
/// sequence.
pub struct LayoutView {
    pub prompt: Option<(i64, i64, i64)>,
    pub input_x: i64,
    pub input_w: i64,
    pub input_text: InputText,
    pub text_x: i64,
    pub cursor: Option<(i64, i64, i64, i64)>,
    pub items: Seq<ItemBox>,
    pub left_arrow: Option<i64>,
    pub right_arrow: Option<i64>,
    pub counter: Option<i64>,
    pub left_command: Option<i64>,
    pub right_command: Option<i64>,
}

impl View for MenuLayout {
    type V = LayoutView;

    open spec fn view(&self) -> LayoutView {
        LayoutView {
            prompt: self.prompt,
            input_x: self.input_x,
            input_w: self.input_w,
            input_text: self.input_text,
            text_x: self.text_x,
            cursor: self.cursor,
            items: self.items@,
            left_arrow: self.left_arrow,
            right_arrow: self.right_arrow,
            counter: self.counter,
            left_command: self.left_command,
            right_command: self.right_command,
        }
    }
}

impl LayoutInput {
    pub open spec fn counter(self) -> bool {
        counter_shown(self.matches as int, self.toast, self.lines as int)
    }

    pub open spec fn shift(self) -> int {
        if self.has_left_command {
            self.command_w as int
        } else {
            0
        }
    }

    /// One past the last shown match: `next`, or the end of the matches.
    pub open spec fn stop(self) -> int {
        match (self.curr, self.next) {
            (Some(c), Some(n)) => if c <= n && n < self.matches {
                n as int
            } else {
                self.matches as int
            },
            _ => self.matches as int,
        }
    }

    pub open spec fn shown(self) -> int {
        match self.curr {
            Some(c) => if c < self.stop() {
                self.stop() - c
            } else {
                0
            },
            None => 0,
        }
    }

    pub open spec fn width_at(self, k: int) -> int {
        if 0 <= k < self.item_widths@.len() {
            self.item_widths@[k] as int
        } else {
            0
        }
    }

    /// Where the input field starts: after the prompt (and the left
    /// command slot before it), at 0 without a prompt.
    pub open spec fn input_x(self) -> int {
        if self.prompt_w != 0 {
            self.shift() + self.prompt_w
        } else {
            0
        }
    }
}

/// The width of an item whose text is `measured` wide, with `budget` left.
pub open spec fn clamped_w(l: LayoutInput, budget: int, measured: int) -> int {
    if l.commented {
        l.row_h as int
    } else if budget == 0 {
        0
    } else if budget < 0 {
        measured + l.lrpad
    } else if measured + l.lrpad < budget {
        measured + l.lrpad
    } else {
        budget
    }
}

/// The bar's boxes from the `k`-th shown match on, starting at `x`; each
/// takes its text's width, cut where `>` and the counter begin.
pub open spec fn bar_boxes(l: LayoutInput, k: int, x: int) -> Seq<ItemBox>
    decreases l.shown() - k,
{
    if k < 0 || k >= l.shown() {
        Seq::empty()
    } else {
        let w = clamped_w(l, l.menu_w - x - l.right_arrow_w - l.counter_w, l.width_at(k));
        seq![ItemBox { x: x as i128, y: 0, w: w as i128 }] + bar_boxes(l, k + 1, x + w)
    }
}

/// The `k`-th cell of the grid: columns of `lines` rows each, filled top
/// to bottom below the input line.
pub open spec fn grid_box(l: LayoutInput, k: int) -> ItemBox {
    let cw = tdiv(l.menu_w - l.input_x(), l.columns as int);
    ItemBox {
        x: (l.input_x() + (k / (l.lines as int)) * cw) as i128,
        y: (((k % (l.lines as int)) + 1) * l.row_h) as i128,
        w: cw as i128,
    }
}

/// Where everything goes.
pub open spec fn spec_menu_layout(l: LayoutInput) -> LayoutView {
    let x = l.input_x();
    let w = if l.lines > 0 || l.matches == 0 {
        l.menu_w - x
    } else {
        l.input_w as int
    };
    let input_text = if l.password {
        InputText::Dots(l.text_len)
    } else if l.text_len > 0 {
        InputText::Typed
    } else if l.has_placeholder {
        InputText::Placeholder
    } else {
        InputText::Empty
    };
    let curpos = l.before_cursor_w - l.after_cursor_w + tdiv(l.lrpad as int, 2) - 1;
    let bar = l.lines <= 0 && l.matches > 0;
    let ax = x + l.input_w;
    LayoutView {
        prompt: if l.prompt_w != 0 {
            Some(
                (
                    l.shift() as i64,
                    l.prompt_w as i64,
                    (if l.lines < 8 {
                        l.row_h * (l.lines + 1)
                    } else {
                        l.row_h as int
                    }) as i64,
                ),
            )
        } else {
            None
        },
        input_x: x as i64,
        input_w: w as i64,
        input_text,
        text_x: (if l.password {
            x
        } else {
            x + l.shift()
        }) as i64,
        cursor: if curpos < w && !l.password && !l.toast {
            Some(
                (
                    (x + l.shift() + curpos) as i64,
                    (2 + tdiv(l.row_h - l.font_h, 2)) as i64,
                    2,
                    (l.font_h - 4) as i64,
                ),
            )
        } else {
            None
        },
        items: if l.lines > 0 {
            Seq::new(l.shown() as nat, |k: int| grid_box(l, k))
        } else if l.matches > 0 {
            bar_boxes(l, 0, ax + l.left_arrow_w)
        } else {
            Seq::empty()
        },
        left_arrow: if bar && (l.curr matches Some(c) && c > 0) {
            Some(ax as i64)
        } else {
            None
        },
        right_arrow: if bar && l.next is Some && l.counter() {
            Some((l.menu_w - l.right_arrow_w - l.counter_w) as i64)
        } else {
            None
        },
        counter: if l.counter() {
            Some(
                (l.menu_w - l.counter_w - if l.has_right_command {
                    l.command_w as int
                } else {
                    0
                }) as i64,
            )
        } else {
            None
        },
        left_command: if l.lines > 0 && l.has_left_command {
            Some(0)
        } else {
            None
        },
        right_command: if l.lines > 0 && l.has_right_command {
            Some((l.menu_w - l.command_w) as i64)
        } else {
            None
        },
    }
}

fn tdiv_exec(a: i64, b: i64) -> (r: i64)
    requires
        b > 0,
        a > i64::MIN,
    ensures
        r == tdiv(a as int, b as int),
        a >= 0 ==> 0 <= r <= a,
        a < 0 ==> a <= r <= 0,
{
    if a >= 0 {
        assert(a / b <= a) by (nonlinear_arith)
            requires
                a >= 0,
                b > 0,
        ;
        a / b
    } else {
        let n = -a;
        assert(n / b <= n) by (nonlinear_arith)
            requires
                n >= 0,
                b > 0,
        ;
        -(n / b)
    }
}

fn stop_exec(l: &LayoutInput) -> (s: usize)
    ensures
        s == l.stop(),
{
    match (l.curr, l.next) {
        (Some(c), Some(n)) => if c <= n && n < l.matches {
            n
        } else {
            l.matches
        },
        _ => l.matches,
    }
}

fn shown_exec(l: &LayoutInput) -> (n: usize)
    ensures
        n == l.shown(),
{
    let stop = stop_exec(l);
    match l.curr {
        Some(c) => if c < stop {
            stop - c
        } else {
            0
        },
        None => 0,
    }
}

fn grid_boxes(l: &LayoutInput, x: i64, shown: usize) -> (v: Vec<ItemBox>)
    requires
        l.lines > 0,
        l.columns > 0,
        x == l.input_x(),
        shown == l.shown(),
        -0x2_0000_0000 <= x <= 0x2_0000_0000,
    ensures
        v@ == Seq::new(l.shown() as nat, |k: int| grid_box(*l, k)),
{
    let cw = tdiv_exec(l.menu_w as i64 - x, l.columns as i64);
    let lines = l.lines as i128;
    let mut v: Vec<ItemBox> = Vec::new();
    let mut k: usize = 0;
    while k < shown
        invariant
            k <= shown,
            shown == l.shown(),
            l.lines > 0,
            l.columns > 0,
            lines == l.lines,
            x == l.input_x(),
            cw == tdiv(l.menu_w - l.input_x(), l.columns as int),
            -0x3_0000_0000 <= cw <= 0x3_0000_0000,
            -0x2_0000_0000 <= x <= 0x2_0000_0000,
            v@ == Seq::new(k as nat, |j: int| grid_box(*l, j)),
        decreases shown - k,
    {
        let kk = k as i128;
        let col = kk / lines;
        let row = kk % lines;
        assert(0 <= col <= kk) by (nonlinear_arith)
            requires
                col == kk / lines,
                kk >= 0,
                lines > 0,
        ;
        assert(0 <= row < lines) by (nonlinear_arith)
            requires
                row == kk % lines,
                kk >= 0,
                lines > 0,
        ;
        assert(-0x3_0000_0000 * 0x1_0000_0000_0000_0000 <= col * cw <= 0x3_0000_0000
            * 0x1_0000_0000_0000_0000) by (nonlinear_arith)
            requires
                0 <= col <= 0x1_0000_0000_0000_0000,
                -0x3_0000_0000 <= cw <= 0x3_0000_0000,
        ;
        assert(0 <= (row + 1) * l.row_h || (row + 1) * l.row_h < 0);
        assert(-0x1_0000_0000 * 0x1_0000_0000 <= (row + 1) * (l.row_h as int) <= 0x1_0000_0000
            * 0x1_0000_0000) by (nonlinear_arith)
            requires
                1 <= row + 1 <= 0x8000_0000,
                -0x8000_0000 <= l.row_h <= 0x7fff_ffff,
        ;
        let b = ItemBox {
            x: x as i128 + col * (cw as i128),
            y: (row + 1) * (l.row_h as i128),
            w: cw as i128,
        };
        assert(b == grid_box(*l, k as int));
        v.push(b);
        k += 1;
        assert(v@ =~= Seq::new(k as nat, |j: int| grid_box(*l, j)));
    }
    v
}

fn clamped_exec(l: &LayoutInput, budget: i128, measured: i32) -> (w: i128)
    requires
        -0x1_0000_0000_0000_0000_0000_0000_0000 <= budget <= 0x1_0000_0000_0000_0000_0000_0000_0000,
    ensures
        w == clamped_w(*l, budget as int, measured as int),
{
    let m = measured as i128 + l.lrpad as i128;
    if l.commented {
        l.row_h as i128
    } else if budget == 0 {
        0
    } else if budget < 0 {
        m
    } else if m < budget {
        m
    } else {
        budget
    }
}

fn bar_boxes_exec(l: &LayoutInput, x0: i64, shown: usize) -> (v: Vec<ItemBox>)
    requires
        shown == l.shown(),
        -0x4_0000_0000 <= x0 <= 0x4_0000_0000,
    ensures
        v@ == bar_boxes(*l, 0, x0 as int),
{
    let mut v: Vec<ItemBox> = Vec::new();
    let mut k: usize = 0;
    let mut x: i128 = x0 as i128;
    let edge: i128 = l.menu_w as i128 - l.right_arrow_w as i128 - l.counter_w as i128;
    while k < shown
        invariant
            k <= shown,
            shown == l.shown(),
            edge == l.menu_w - l.right_arrow_w - l.counter_w,
            -0x10_0000_0000 - k * 0x4_0000_0000 <= x <= 0x10_0000_0000 + k * 0x4_0000_0000,
            v@ + bar_boxes(*l, k as int, x as int) == bar_boxes(*l, 0, x0 as int),
        decreases shown - k,
    {
        let measured = if k < l.item_widths.len() {
            l.item_widths[k]
        } else {
            0
        };
        assert(measured == l.width_at(k as int));
        let w = clamped_exec(l, edge - x, measured);
        let b = ItemBox { x, y: 0, w };
        proof {
            let rest = bar_boxes(*l, k as int + 1, x + w);
            assert(bar_boxes(*l, k as int, x as int) == seq![b] + rest);
            assert(v@.push(b) + rest =~= v@ + (seq![b] + rest));
        }
        v.push(b);
        x = x + w;
        k += 1;
    }
    proof {
        assert(bar_boxes(*l, k as int, x as int) =~= Seq::<ItemBox>::empty());
        assert(v@ + Seq::<ItemBox>::empty() =~= v@);
    }
    v
}

/// Lays the menu out: the prompt (after the left command slot), the input
/// field and its text, the cursor, the items, the arrows, the counter and
/// the command slots.
pub fn menu_layout(l: &LayoutInput) -> (r: MenuLayout)
    requires
        l.lines > 0 ==> l.columns > 0,
    ensures
        r@ == spec_menu_layout(*l),
{
    let shift: i64 = if l.has_left_command {
        l.command_w as i64
    } else {
        0
    };
    let x: i64 = if l.prompt_w != 0 {
        shift + l.prompt_w as i64
    } else {
        0
    };
    let w: i64 = if l.lines > 0 || l.matches == 0 {
        l.menu_w as i64 - x
    } else {
        l.input_w as i64
    };
    let input_text = if l.password {
        InputText::Dots(l.text_len)
    } else if l.text_len > 0 {
        InputText::Typed
    } else if l.has_placeholder {
        InputText::Placeholder
    } else {
        InputText::Empty
    };
    let curpos: i64 = l.before_cursor_w as i64 - l.after_cursor_w as i64 + tdiv_exec(
        l.lrpad as i64,
        2,
    ) - 1;
    let bar = l.lines <= 0 && l.matches > 0;
    let ax: i64 = x + l.input_w as i64;
    let counter = !l.toast && l.matches > 1 && (l.lines <= 1 || l.matches as i128 > l.lines as i128);
    let shown = shown_exec(l);
    assert(-0x4000_0000_0000_0000 <= (l.row_h as int) * (l.lines as int + 1) <= 0x4000_0000_0000_0000)
        by (nonlinear_arith)
        requires
            -0x8000_0000 <= l.row_h <= 0x7fff_ffff,
            -0x7fff_ffff <= l.lines as int + 1 <= 0x8000_0000,
    ;
    let items = if l.lines > 0 {
        grid_boxes(l, x, shown)
    } else if l.matches > 0 {
        bar_boxes_exec(l, ax + l.left_arrow_w as i64, shown)
    } else {
        Vec::new()
    };
    let r = MenuLayout {
        prompt: if l.prompt_w != 0 {
            Some(
                (
                    shift,
                    l.prompt_w as i64,
                    if l.lines < 8 {
                        l.row_h as i64 * (l.lines as i64 + 1)
                    } else {
                        l.row_h as i64
                    },
                ),
            )
        } else {
            None
        },
        input_x: x,
        input_w: w,
        input_text,
        text_x: if l.password {
            x
        } else {
            x + shift
        },
        cursor: if curpos < w && !l.password && !l.toast {
            Some(
                (
                    x + shift + curpos,
                    2 + tdiv_exec(l.row_h as i64 - l.font_h as i64, 2),
                    2,
                    l.font_h as i64 - 4,
                ),
            )
        } else {
            None
        },
        items,
        left_arrow: if bar && match l.curr {
            Some(c) => c > 0,
            None => false,
        } {
            Some(ax)
        } else {
            None
        },
        right_arrow: if bar && l.next.is_some() && counter {
            Some(l.menu_w as i64 - l.right_arrow_w as i64 - l.counter_w as i64)
        } else {
            None
        },
        counter: if counter {
            Some(
                l.menu_w as i64 - l.counter_w as i64 - if l.has_right_command {
                    l.command_w as i64
                } else {
                    0
                },
            )
        } else {
            None
        },
        left_command: if l.lines > 0 && l.has_left_command {
            Some(0)
        } else {
            None
        },
        right_command: if l.lines > 0 && l.has_right_command {
            Some(l.menu_w as i64 - l.command_w as i64)
        } else {
            None
        },
    };
    assert(r@.items =~= spec_menu_layout(*l).items);
    r
}

} // verus!
