//! The menu's keyboard bindings: Ctrl, Alt, Shift and logo chords are
//! first translated (remapped to plain keys, or turned into their own
//! commands), then the plain key acts on the line and the match list.
use vstd::prelude::*;

use crate::backend::Modifiers;
use crate::enums::{Direction, Side};

verus! {

/* X11 keysym values of the keys the menu binds. */
pub const KEY_SPACE: u32 = 0x0020;
pub const KEY_1: u32 = 0x0031;
pub const KEY_9: u32 = 0x0039;
pub const KEY_UPPER_G: u32 = 0x0047;
pub const KEY_UPPER_J: u32 = 0x004a;
pub const KEY_UPPER_M: u32 = 0x004d;
pub const KEY_UPPER_Y: u32 = 0x0059;
pub const KEY_BRACKETLEFT: u32 = 0x005b;
pub const KEY_A: u32 = 0x0061;
pub const KEY_B: u32 = 0x0062;
pub const KEY_C: u32 = 0x0063;
pub const KEY_D: u32 = 0x0064;
pub const KEY_E: u32 = 0x0065;
pub const KEY_F: u32 = 0x0066;
pub const KEY_G: u32 = 0x0067;
pub const KEY_H: u32 = 0x0068;
pub const KEY_I: u32 = 0x0069;
pub const KEY_J: u32 = 0x006a;
pub const KEY_K: u32 = 0x006b;
pub const KEY_L: u32 = 0x006c;
pub const KEY_M: u32 = 0x006d;
pub const KEY_N: u32 = 0x006e;
pub const KEY_P: u32 = 0x0070;
pub const KEY_Q: u32 = 0x0071;
pub const KEY_S: u32 = 0x0073;
pub const KEY_U: u32 = 0x0075;
pub const KEY_V: u32 = 0x0076;
pub const KEY_W: u32 = 0x0077;
pub const KEY_Y: u32 = 0x0079;
pub const KEY_BACKSPACE: u32 = 0xff08;
pub const KEY_TAB: u32 = 0xff09;
pub const KEY_RETURN: u32 = 0xff0d;
pub const KEY_ESCAPE: u32 = 0xff1b;
pub const KEY_HOME: u32 = 0xff50;
pub const KEY_LEFT: u32 = 0xff51;
pub const KEY_UP: u32 = 0xff52;
pub const KEY_RIGHT: u32 = 0xff53;
pub const KEY_DOWN: u32 = 0xff54;
pub const KEY_PRIOR: u32 = 0xff55;
pub const KEY_NEXT: u32 = 0xff56;
pub const KEY_END: u32 = 0xff57;
pub const KEY_KP_ENTER: u32 = 0xff8d;
pub const KEY_KP_HOME: u32 = 0xff95;
pub const KEY_KP_LEFT: u32 = 0xff96;
pub const KEY_KP_UP: u32 = 0xff97;
pub const KEY_KP_RIGHT: u32 = 0xff98;
pub const KEY_KP_DOWN: u32 = 0xff99;
pub const KEY_KP_PRIOR: u32 = 0xff9a;
pub const KEY_KP_NEXT: u32 = 0xff9b;
pub const KEY_KP_END: u32 = 0xff9c;
pub const KEY_KP_DELETE: u32 = 0xff9f;
pub const KEY_F4: u32 = 0xffc1;
pub const KEY_DELETE: u32 = 0xffff;

/// Line edits a chord makes before its key acts.
#[derive(Debug, Clone, Copy, PartialEq, Eq, Structural)]
pub enum Prelude {
    /// Ctrl-S: insert `.*` at the cursor.
    InsertPattern,
    /// Ctrl-K: cut the line at the cursor.
    CutRight,
    /// Ctrl-U: delete everything before the cursor.
    CutLeft,
    /// Ctrl-W: delete the word before the cursor.
    CutWord,
    /// Shift in alt-tab mode: the previous match.
    TabBackward,
    /// Alt-Space in alt-tab mode: leave alt-tab mode.
    AltTabOff,
    /// Alt-Tab: the next match, wrapping.
    TabForward,
}

/// What a chord leads to.
#[derive(Debug, Clone, Copy, PartialEq, Eq, Structural)]
pub enum Flow {
    /// Nothing more; redraw or not.
    Stop { redraw: bool },
    /// Exit with this status.
    Exit(i32),
    /// Ask for the clipboard (or the primary selection) to be pasted.
    Paste { clipboard: bool, redraw: bool },
    /// Move the cursor to a word edge, then redraw.
    WordMove(Direction),
    /// Select the match `n` places after the first one shown and submit it
    /// with these modifiers.
    SelectNumber(usize, Modifiers),
    /// Go on to the plain key `sym` with these modifiers.
    Key(u32, Modifiers),
}

/// What a chord of its own does (rather than standing for a plain key).
#[derive(Debug, Clone, Copy, PartialEq, Eq, Structural)]
pub enum Chord {
    /// Return, without Ctrl.
    Submit,
    /// A line edit, then the key itself.
    Edit(Prelude),
    /// Paste the clipboard with Shift, else the primary selection.
    Paste { redraw: bool },
    WordMove(Direction),
    /// Exit with status 1.
    Abort,
}

/// The value `m` gives `k`, if any.
pub open spec fn lookup<V>(m: Map<u32, V>, k: u32) -> Option<V> {
    if m.dom().contains(k) {
        Some(m[k])
    } else {
        None
    }
}

/// The Ctrl chords.
pub open spec fn ctrl_chords() -> Map<u32, Chord> {
    map![
        KEY_UPPER_J => Chord::Submit,
        KEY_J => Chord::Submit,
        KEY_M => Chord::Submit,
        KEY_UPPER_M => Chord::Submit,
        KEY_S => Chord::Edit(Prelude::InsertPattern),
        KEY_V => Chord::Paste { redraw: true },
        KEY_K => Chord::Edit(Prelude::CutRight),
        KEY_U => Chord::Edit(Prelude::CutLeft),
        KEY_W => Chord::Edit(Prelude::CutWord),
        KEY_Y => Chord::Paste { redraw: false },
        KEY_UPPER_Y => Chord::Paste { redraw: false },
        KEY_LEFT => Chord::WordMove(Direction::Backward),
        KEY_KP_LEFT => Chord::WordMove(Direction::Backward),
        KEY_RIGHT => Chord::WordMove(Direction::Forward),
        KEY_KP_RIGHT => Chord::WordMove(Direction::Forward),
        KEY_BRACKETLEFT => Chord::Abort,
    ]
}

/// The Alt chords.
pub open spec fn alt_chords() -> Map<u32, Chord> {
    map![
        KEY_F4 => Chord::Abort,
        KEY_B => Chord::WordMove(Direction::Backward),
        KEY_F => Chord::WordMove(Direction::Forward),
    ]
}

/// The Ctrl chords that stand for a plain key (emacs-style).
pub open spec fn ctrl_remaps() -> Map<u32, u32> {
    map![
        KEY_A => KEY_HOME,
        KEY_B => KEY_LEFT,
        KEY_C => KEY_ESCAPE,
        KEY_G => KEY_ESCAPE,
        KEY_D => KEY_DELETE,
        KEY_E => KEY_END,
        KEY_F => KEY_RIGHT,
        KEY_H => KEY_BACKSPACE,
        KEY_I => KEY_TAB,
        KEY_N => KEY_DOWN,
        KEY_P => KEY_UP,
        KEY_RETURN => KEY_RETURN,
        KEY_KP_ENTER => KEY_KP_ENTER,
    ]
}

/// The Alt chords that stand for a plain key (vi-style).
pub open spec fn alt_remaps() -> Map<u32, u32> {
    map![
        KEY_G => KEY_HOME,
        KEY_UPPER_G => KEY_END,
        KEY_H => KEY_UP,
        KEY_J => KEY_NEXT,
        KEY_K => KEY_PRIOR,
        KEY_L => KEY_DOWN,
        KEY_SPACE => KEY_SPACE,
        KEY_TAB => KEY_TAB,
    ]
}

pub open spec fn ctrl_remap(sym: u32) -> Option<u32> {
    lookup(ctrl_remaps(), sym)
}

pub open spec fn alt_remap(sym: u32) -> Option<u32> {
    lookup(alt_remaps(), sym)
}

/// What chord `ch`, pressed as `sym` with `mods`, leads to.
pub open spec fn chord_outcome(ch: Chord, sym: u32, mods: Modifiers) -> (Option<Prelude>, Flow) {
    match ch {
        Chord::Submit => (None, Flow::Key(KEY_RETURN, Modifiers { ctrl: false, ..mods })),
        Chord::Edit(p) => (Some(p), Flow::Key(sym, mods)),
        Chord::Paste { redraw } => (None, Flow::Paste { clipboard: mods.shift, redraw }),
        Chord::WordMove(d) => (None, Flow::WordMove(d)),
        Chord::Abort => (None, Flow::Exit(1)),
    }
}

/// How a key press with `mods` is translated. Ctrl wins over Shift, Shift
/// over Alt, Alt over the logo key. Under Ctrl: the Ctrl chords, then the
/// digits 1 to 9 (select that match), then the plain keys Ctrl stands for;
/// anything else does nothing. Under Alt: the Alt chords, Space and Tab for
/// alt-tab, then the plain keys Alt stands for.
pub open spec fn spec_translate(sym: u32, mods: Modifiers, alttab: bool) -> (Option<Prelude>, Flow) {
    if mods.ctrl {
        match lookup(ctrl_chords(), sym) {
            Some(ch) => chord_outcome(ch, sym, mods),
            None => if KEY_1 <= sym <= KEY_9 {
                (None, Flow::SelectNumber((sym - KEY_1) as usize, Modifiers { ctrl: false, ..mods }))
            } else {
                match ctrl_remap(sym) {
                    Some(k) => (None, Flow::Key(k, mods)),
                    None => (None, Flow::Stop { redraw: false }),
                }
            },
        }
    } else if mods.shift {
        (if alttab {
            Some(Prelude::TabBackward)
        } else {
            None
        }, Flow::Key(sym, mods))
    } else if mods.alt {
        match lookup(alt_chords(), sym) {
            Some(ch) => chord_outcome(ch, sym, mods),
            None => if sym == KEY_SPACE {
                (if alttab {
                    Some(Prelude::AltTabOff)
                } else {
                    None
                }, Flow::Key(sym, mods))
            } else if sym == KEY_TAB {
                (Some(Prelude::TabForward), Flow::Key(sym, mods))
            } else {
                match alt_remap(sym) {
                    Some(k) => (None, Flow::Key(k, mods)),
                    None => (None, Flow::Stop { redraw: false }),
                }
            },
        }
    } else if mods.logo && sym == KEY_Q {
        (None, Flow::Exit(1))
    } else {
        (None, Flow::Key(sym, mods))
    }
}

fn ctrl_remap_exec(sym: u32) -> (r: Option<u32>)
    ensures
        r == ctrl_remap(sym),
{
    if sym == KEY_A {
        Some(KEY_HOME)
    } else if sym == KEY_B {
        Some(KEY_LEFT)
    } else if sym == KEY_C || sym == KEY_G {
        Some(KEY_ESCAPE)
    } else if sym == KEY_D {
        Some(KEY_DELETE)
    } else if sym == KEY_E {
        Some(KEY_END)
    } else if sym == KEY_F {
        Some(KEY_RIGHT)
    } else if sym == KEY_H {
        Some(KEY_BACKSPACE)
    } else if sym == KEY_I {
        Some(KEY_TAB)
    } else if sym == KEY_N {
        Some(KEY_DOWN)
    } else if sym == KEY_P {
        Some(KEY_UP)
    } else if sym == KEY_RETURN || sym == KEY_KP_ENTER {
        Some(sym)
    } else {
        None
    }
}

fn alt_remap_exec(sym: u32) -> (r: Option<u32>)
    ensures
        r == alt_remap(sym),
{
    if sym == KEY_G {
        Some(KEY_HOME)
    } else if sym == KEY_UPPER_G {
        Some(KEY_END)
    } else if sym == KEY_H {
        Some(KEY_UP)
    } else if sym == KEY_J {
        Some(KEY_NEXT)
    } else if sym == KEY_K {
        Some(KEY_PRIOR)
    } else if sym == KEY_L {
        Some(KEY_DOWN)
    } else if sym == KEY_SPACE || sym == KEY_TAB {
        Some(sym)
    } else {
        None
    }
}

/// Translates a key press: the line edit its chord makes first, if any,
/// and what follows.
pub fn translate_key(sym: u32, mods: Modifiers, alttab: bool) -> (r: (Option<Prelude>, Flow))
    ensures
        r == spec_translate(sym, mods, alttab),
{
    if mods.ctrl {
        if sym == KEY_UPPER_J || sym == KEY_J || sym == KEY_M || sym == KEY_UPPER_M {
            (None, Flow::Key(KEY_RETURN, Modifiers { ctrl: false, ..mods }))
        } else if sym == KEY_S {
            (Some(Prelude::InsertPattern), Flow::Key(sym, mods))
        } else if sym == KEY_V {
            (None, Flow::Paste { clipboard: mods.shift, redraw: true })
        } else if sym == KEY_K {
            (Some(Prelude::CutRight), Flow::Key(sym, mods))
        } else if sym == KEY_U {
            (Some(Prelude::CutLeft), Flow::Key(sym, mods))
        } else if sym == KEY_W {
            (Some(Prelude::CutWord), Flow::Key(sym, mods))
        } else if sym == KEY_Y || sym == KEY_UPPER_Y {
            (None, Flow::Paste { clipboard: mods.shift, redraw: false })
        } else if sym == KEY_LEFT || sym == KEY_KP_LEFT {
            (None, Flow::WordMove(Direction::Backward))
        } else if sym == KEY_RIGHT || sym == KEY_KP_RIGHT {
            (None, Flow::WordMove(Direction::Forward))
        } else if KEY_1 <= sym && sym <= KEY_9 {
            (None, Flow::SelectNumber((sym - KEY_1) as usize, Modifiers { ctrl: false, ..mods }))
        } else if sym == KEY_BRACKETLEFT {
            (None, Flow::Exit(1))
        } else {
            match ctrl_remap_exec(sym) {
                Some(k) => (None, Flow::Key(k, mods)),
                None => (None, Flow::Stop { redraw: false }),
            }
        }
    } else if mods.shift {
        (if alttab {
            Some(Prelude::TabBackward)
        } else {
            None
        }, Flow::Key(sym, mods))
    } else if mods.alt {
        if sym == KEY_F4 {
            (None, Flow::Exit(1))
        } else if sym == KEY_B {
            (None, Flow::WordMove(Direction::Backward))
        } else if sym == KEY_F {
            (None, Flow::WordMove(Direction::Forward))
        } else if sym == KEY_SPACE {
            (if alttab {
                Some(Prelude::AltTabOff)
            } else {
                None
            }, Flow::Key(sym, mods))
        } else if sym == KEY_TAB {
            (Some(Prelude::TabForward), Flow::Key(sym, mods))
        } else {
            match alt_remap_exec(sym) {
                Some(k) => (None, Flow::Key(k, mods)),
                None => (None, Flow::Stop { redraw: false }),
            }
        }
    } else if mods.logo && sym == KEY_Q {
        (None, Flow::Exit(1))
    } else {
        (None, Flow::Key(sym, mods))
    }
}


/// What the menu state looks like to a key press.
#[derive(Debug, Clone, Copy, PartialEq, Eq, Structural)]
pub struct KeyContext {
    /// The text cursor and the line length, in bytes.
    pub cursor: usize,
    pub text_len: usize,
    pub sel: Option<usize>,
    pub curr: Option<usize>,
    pub next: Option<usize>,
    /// How many items match.
    pub matches: usize,
    pub lines: i32,
    pub columns: i32,
    pub alttab: bool,
    /// A left or right command is configured.
    pub has_command: bool,
}

/// What a plain key does.
#[derive(Debug, Clone, Copy, PartialEq, Eq, Structural)]
pub enum Action {
    /// Nothing; redraw or not.
    Stop { redraw: bool },
    /// Exit with this status.
    Exit(i32),
    /// Delete the character under the cursor.
    DeleteForward,
    /// Delete the character before the cursor.
    DeleteBack,
    /// Cursor to the end of the line, and the last match selected (without
    /// scrolling to it).
    EndOfLine,
    /// Cursor to the start of the line.
    CursorToStart,
    /// Cursor one character back.
    CursorBack,
    /// Cursor one character forward.
    CursorForward,
    /// A list move.
    Navigate(crate::menu::Nav),
    /// A column move in a grid; no redraw when it cannot move.
    GridMove(Direction),
    /// Run the left or right command.
    RunCommand(Side),
    /// Submit with these modifiers (Return).
    Submit(Modifiers),
    /// Replace the line with the selected match.
    Complete,
    /// Note that Tab was pressed in alt-tab mode.
    MarkTabbed,
    /// Insert the typed text.
    Insert,
}

/// The keys the menu binds, by role.
#[derive(Debug, Clone, Copy, PartialEq, Eq, Structural)]
pub enum KeyRole {
    Delete,
    Backspace,
    End,
    Escape,
    Home,
    Left,
    Up,
    PageDown,
    PageUp,
    Return,
    Right,
    Down,
    Tab,
}

/// The keysyms of each role (the keypad keys share the main keys' roles).
pub open spec fn key_roles() -> Map<u32, KeyRole> {
    map![
        KEY_DELETE => KeyRole::Delete,
        KEY_KP_DELETE => KeyRole::Delete,
        KEY_BACKSPACE => KeyRole::Backspace,
        KEY_END => KeyRole::End,
        KEY_KP_END => KeyRole::End,
        KEY_ESCAPE => KeyRole::Escape,
        KEY_HOME => KeyRole::Home,
        KEY_KP_HOME => KeyRole::Home,
        KEY_LEFT => KeyRole::Left,
        KEY_KP_LEFT => KeyRole::Left,
        KEY_UP => KeyRole::Up,
        KEY_KP_UP => KeyRole::Up,
        KEY_NEXT => KeyRole::PageDown,
        KEY_KP_NEXT => KeyRole::PageDown,
        KEY_PRIOR => KeyRole::PageUp,
        KEY_KP_PRIOR => KeyRole::PageUp,
        KEY_RETURN => KeyRole::Return,
        KEY_KP_ENTER => KeyRole::Return,
        KEY_RIGHT => KeyRole::Right,
        KEY_KP_RIGHT => KeyRole::Right,
        KEY_DOWN => KeyRole::Down,
        KEY_KP_DOWN => KeyRole::Down,
        KEY_TAB => KeyRole::Tab,
    ]
}

/// What a key of role `role` does in context `c`.
pub open spec fn role_action(role: KeyRole, mods: Modifiers, c: KeyContext) -> Action {
    let has_sel = c.sel is Some;
    let at_first = c.sel == Some(0usize);
    match role {
        KeyRole::Delete => if c.cursor >= c.text_len { Action::Stop { redraw: false } } else { Action::DeleteForward },
        KeyRole::Backspace => if c.cursor == 0 { Action::Stop { redraw: false } } else { Action::DeleteBack },
        KeyRole::End => if c.cursor < c.text_len {
            Action::EndOfLine
        } else {
            Action::Navigate(crate::menu::Nav::End)
        },
        KeyRole::Escape => Action::Exit(1),
        KeyRole::Home => if (c.sel is None && c.matches == 0) || at_first {
            Action::CursorToStart
        } else {
            Action::Navigate(crate::menu::Nav::Home)
        },
        KeyRole::Left => if c.columns > 1 {
            if has_sel { Action::GridMove(Direction::Backward) } else { Action::Stop { redraw: false } }
        } else if (mods.shift || mods.logo) && c.has_command {
            Action::RunCommand(Side::Left)
        } else if c.cursor > 0 && (c.sel is None || at_first || c.lines > 0) {
            Action::CursorBack
        } else if c.lines > 0 {
            Action::Stop { redraw: false }
        } else {
            Action::Navigate(crate::menu::Nav::Up)
        },
        KeyRole::Up => Action::Navigate(crate::menu::Nav::Up),
        KeyRole::PageDown => if c.next is None {
            Action::Stop { redraw: false }
        } else {
            Action::Navigate(crate::menu::Nav::PageDown)
        },
        KeyRole::PageUp => if c.curr is None {
            Action::Stop { redraw: false }
        } else {
            Action::Navigate(crate::menu::Nav::PageUp)
        },
        KeyRole::Return => Action::Submit(mods),
        KeyRole::Right => if c.columns > 1 {
            if has_sel { Action::GridMove(Direction::Forward) } else { Action::Stop { redraw: false } }
        } else if (mods.shift || mods.logo) && c.has_command {
            Action::RunCommand(Side::Right)
        } else if c.cursor < c.text_len {
            Action::CursorForward
        } else if c.lines > 0 {
            Action::Stop { redraw: false }
        } else {
            Action::Navigate(crate::menu::Nav::Down)
        },
        KeyRole::Down => Action::Navigate(crate::menu::Nav::Down),
        KeyRole::Tab => if c.alttab {
            Action::MarkTabbed
        } else if has_sel {
            Action::Complete
        } else {
            Action::Stop { redraw: false }
        },
    }
}

/// What plain key `sym` does: a bound key acts by its role; any other key
/// inserts its text when that starts with a printable byte (`printable`),
/// and otherwise only redraws.
pub open spec fn spec_main_key(sym: u32, mods: Modifiers, printable: bool, c: KeyContext) -> Action {
    match lookup(key_roles(), sym) {
        Some(role) => role_action(role, mods, c),
        None => if printable {
            Action::Insert
        } else {
            Action::Stop { redraw: true }
        },
    }
}

/// What plain key `sym` does in context `c`.
pub fn main_key(sym: u32, mods: Modifiers, printable: bool, c: &KeyContext) -> (r: Action)
    ensures
        r == spec_main_key(sym, mods, printable, *c),
{
    let has_sel = c.sel.is_some();
    if sym == KEY_DELETE || sym == KEY_KP_DELETE {
        if c.cursor >= c.text_len {
            Action::Stop { redraw: false }
        } else {
            Action::DeleteForward
        }
    } else if sym == KEY_BACKSPACE {
        if c.cursor == 0 {
            Action::Stop { redraw: false }
        } else {
            Action::DeleteBack
        }
    } else if sym == KEY_END || sym == KEY_KP_END {
        if c.cursor < c.text_len {
            Action::EndOfLine
        } else {
            Action::Navigate(crate::menu::Nav::End)
        }
    } else if sym == KEY_ESCAPE {
        Action::Exit(1)
    } else if sym == KEY_HOME || sym == KEY_KP_HOME {
        if (c.sel.is_none() && c.matches == 0) || c.sel == Some(0usize) {
            Action::CursorToStart
        } else {
            Action::Navigate(crate::menu::Nav::Home)
        }
    } else if sym == KEY_LEFT || sym == KEY_KP_LEFT {
        if c.columns > 1 {
            if has_sel {
                Action::GridMove(Direction::Backward)
            } else {
                Action::Stop { redraw: false }
            }
        } else if (mods.shift || mods.logo) && c.has_command {
            Action::RunCommand(Side::Left)
        } else if c.cursor > 0 && (c.sel.is_none() || c.sel == Some(0usize) || c.lines > 0) {
            Action::CursorBack
        } else if c.lines > 0 {
            Action::Stop { redraw: false }
        } else {
            Action::Navigate(crate::menu::Nav::Up)
        }
    } else if sym == KEY_UP || sym == KEY_KP_UP {
        Action::Navigate(crate::menu::Nav::Up)
    } else if sym == KEY_NEXT || sym == KEY_KP_NEXT {
        if c.next.is_none() {
            Action::Stop { redraw: false }
        } else {
            Action::Navigate(crate::menu::Nav::PageDown)
        }
    } else if sym == KEY_PRIOR || sym == KEY_KP_PRIOR {
        if c.curr.is_none() {
            Action::Stop { redraw: false }
        } else {
            Action::Navigate(crate::menu::Nav::PageUp)
        }
    } else if sym == KEY_RETURN || sym == KEY_KP_ENTER {
        Action::Submit(mods)
    } else if sym == KEY_RIGHT || sym == KEY_KP_RIGHT {
        if c.columns > 1 {
            if has_sel {
                Action::GridMove(Direction::Forward)
            } else {
                Action::Stop { redraw: false }
            }
        } else if (mods.shift || mods.logo) && c.has_command {
            Action::RunCommand(Side::Right)
        } else if c.cursor < c.text_len {
            Action::CursorForward
        } else if c.lines > 0 {
            Action::Stop { redraw: false }
        } else {
            Action::Navigate(crate::menu::Nav::Down)
        }
    } else if sym == KEY_DOWN || sym == KEY_KP_DOWN {
        Action::Navigate(crate::menu::Nav::Down)
    } else if sym == KEY_TAB {
        if c.alttab {
            Action::MarkTabbed
        } else if has_sel {
            Action::Complete
        } else {
            Action::Stop { redraw: false }
        }
    } else if printable {
        Action::Insert
    } else {
        Action::Stop { redraw: true }
    }
}

/// What submitting prints and whether the menu closes.
#[derive(Debug, Clone, Copy, PartialEq, Eq, Structural)]
pub enum Output {
    /// Nothing happens (a comment row is selected, or the release is not a
    /// submit).
    Nothing,
    /// Print the selected match (`selection`) or the typed text; close the
    /// menu when `exit`, else mark the match as output.
    Print { selection: bool, exit: bool },
}

/// Return: a selected comment row (text starting with `>`) cannot be
/// submitted; Shift submits the typed text instead of the selection
/// (unless input must match); Ctrl keeps the menu open.
pub fn submit(mods: Modifiers, has_sel: bool, sel_is_comment: bool, reject_no_match: bool) -> (r: Output)
    ensures
        r == if has_sel && sel_is_comment {
            Output::Nothing
        } else {
            Output::Print {
                selection: has_sel && !(mods.shift && !reject_no_match),
                exit: !mods.ctrl,
            }
        },
{
    if has_sel && sel_is_comment {
        return Output::Nothing;
    }
    Output::Print { selection: has_sel && !(mods.shift && !reject_no_match), exit: !mods.ctrl }
}

/// What a key release does in alt-tab mode: releasing Alt (without Shift)
/// submits the selection, unless Tab was pressed since.
pub open spec fn spec_release(alttab: bool, tabbed: bool, mods: Modifiers, has_sel: bool, sel_is_comment: bool) -> (bool, Output) {
    if !alttab {
        (tabbed, Output::Nothing)
    } else if tabbed {
        (false, Output::Nothing)
    } else if mods.alt && !mods.shift && !(has_sel && sel_is_comment) {
        (false, Output::Print { selection: has_sel, exit: !mods.ctrl })
    } else {
        (false, Output::Nothing)
    }
}

/// A key release: whether Tab is still marked as pressed, and the output.
pub fn key_release(alttab: bool, tabbed: bool, mods: Modifiers, has_sel: bool, sel_is_comment: bool) -> (r: (bool, Output))
    ensures
        r == spec_release(alttab, tabbed, mods, has_sel, sel_is_comment),
{
    if !alttab {
        (tabbed, Output::Nothing)
    } else if tabbed {
        (false, Output::Nothing)
    } else if mods.alt && !mods.shift && !(has_sel && sel_is_comment) {
        (false, Output::Print { selection: has_sel, exit: !mods.ctrl })
    } else {
        (false, Output::Nothing)
    }
}

/// The plain key a chord stands for, if it stands for one.
pub open spec fn stands_for(sym: u32, mods: Modifiers, alttab: bool) -> Option<(u32, Modifiers)> {
    match spec_translate(sym, mods, alttab).1 {
        Flow::Key(k, m) => Some((k, m)),
        _ => None,
    }
}

/// What the chord `sym` with `mods` does as a plain key, whatever the menu
/// state; `Stop` when it is not a plain key.
pub open spec fn chord_action(sym: u32, mods: Modifiers, alttab: bool, printable: bool, c: KeyContext) -> Action {
    match stands_for(sym, mods, alttab) {
        Some((k, m)) => spec_main_key(k, m, printable, c),
        None => Action::Stop { redraw: false },
    }
}

/// The emacs chords under Ctrl do what the keys they stand for do, in
/// every state: Ctrl-N selects the next match and Ctrl-P the previous one
/// (as Down and Up do), Ctrl-A and Ctrl-E act as Home and End, Ctrl-B and
/// Ctrl-F as Left and Right, Ctrl-H as Backspace, Ctrl-D as Delete, Ctrl-I
/// as Tab, and Ctrl-C and Ctrl-G as Escape (exit with status 1).
pub proof fn lemma_emacs_chords_act_as_their_keys(
    mods: Modifiers,
    alttab: bool,
    printable: bool,
    c: KeyContext,
)
    requires
        mods.ctrl,
    ensures
        chord_action(KEY_N, mods, alttab, printable, c) == Action::Navigate(crate::menu::Nav::Down),
        chord_action(KEY_P, mods, alttab, printable, c) == Action::Navigate(crate::menu::Nav::Up),
        chord_action(KEY_A, mods, alttab, printable, c) == spec_main_key(KEY_HOME, mods, printable, c),
        chord_action(KEY_E, mods, alttab, printable, c) == spec_main_key(KEY_END, mods, printable, c),
        chord_action(KEY_B, mods, alttab, printable, c) == spec_main_key(KEY_LEFT, mods, printable, c),
        chord_action(KEY_F, mods, alttab, printable, c) == spec_main_key(KEY_RIGHT, mods, printable, c),
        chord_action(KEY_H, mods, alttab, printable, c) == spec_main_key(
            KEY_BACKSPACE,
            mods,
            printable,
            c,
        ),
        chord_action(KEY_D, mods, alttab, printable, c) == spec_main_key(KEY_DELETE, mods, printable, c),
        chord_action(KEY_I, mods, alttab, printable, c) == spec_main_key(KEY_TAB, mods, printable, c),
        chord_action(KEY_C, mods, alttab, printable, c) == Action::Exit(1),
        chord_action(KEY_G, mods, alttab, printable, c) == Action::Exit(1),
{
}

/// The vi chords under Alt (without Ctrl or Shift) do what the keys they
/// stand for do: Alt-H selects the previous match and Alt-L the next (as Up
/// and Down do), Alt-J shows the next page and Alt-K the previous one, and
/// Alt-G and Alt-Shift-g (`G`) act as Home and End.
pub proof fn lemma_vi_chords_act_as_their_keys(
    mods: Modifiers,
    alttab: bool,
    printable: bool,
    c: KeyContext,
)
    requires
        mods.alt,
        !mods.ctrl,
        !mods.shift,
    ensures
        chord_action(KEY_H, mods, alttab, printable, c) == Action::Navigate(crate::menu::Nav::Up),
        chord_action(KEY_L, mods, alttab, printable, c) == Action::Navigate(crate::menu::Nav::Down),
        chord_action(KEY_J, mods, alttab, printable, c) == spec_main_key(KEY_NEXT, mods, printable, c),
        chord_action(KEY_K, mods, alttab, printable, c) == spec_main_key(KEY_PRIOR, mods, printable, c),
        chord_action(KEY_G, mods, alttab, printable, c) == spec_main_key(KEY_HOME, mods, printable, c),
        chord_action(KEY_UPPER_G, mods, alttab, printable, c) == spec_main_key(
            KEY_END,
            mods,
            printable,
            c,
        ),
{
}

} // verus!
