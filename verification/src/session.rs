//! One key press applied to the menu: the line edit its chord makes first
//! (a [`Prelude`]), then what its plain key does (an [`Action`]) to the
//! input line, the match list's paging and the alt-tab state. What needs
//! the outside world (exiting, running a command, printing, matching the
//! new text again) comes back as an [`Effect`].
use vstd::prelude::*;
use vstd::utf8::is_char_boundary;

use crate::enums::{Direction, EditOp, Side};
use crate::backend::Modifiers;
use crate::keys::{Action, Output, Prelude};
use crate::pointer::ButtonAction;
use crate::menu::{
    cut_left, cut_right, cut_word, delete_back, delete_forward, edit,
    lemma_edits_keep_the_line_bounded, next_rune, spec_edit,
    spec_grid_move, spec_navigate, spec_next_rune, spec_scroll_up, spec_tab_backward,
    spec_word_edge, Nav, Pager,
};

verus! {

/// The input line: its UTF-8 bytes and the cursor (a byte offset).
#[derive(Debug, Clone)]
pub struct LineState {
    pub text: Vec<u8>,
    pub cursor: usize,
}

impl LineState {
    pub open spec fn wf(self) -> bool {
        self.cursor <= self.text@.len() < usize::MAX
    }
}

/// What the menu must do after a key press.
#[derive(Debug, Clone, Copy, PartialEq, Eq, Structural)]
pub enum Effect {
    /// Redraw or not.
    Redraw(bool),
    /// Exit with this status.
    Exit(i32),
    /// Run the left or right command.
    RunCommand(Side),
    /// Submit with these modifiers.
    Submit(Modifiers),
    /// The text changed: match it again (which also resets the paging).
    Rematch,
    /// Print the match at `index` (or the typed text when `None`); then
    /// exit with status 0 when `exit`.
    Print { index: Option<usize>, exit: bool },
    /// Ask for the clipboard (or the primary selection) to be pasted.
    Paste { clipboard: bool },
}

/// The line after an edit that may be refused (it would make the line too
/// long): the edited line and a new match, or the line `(t, c)` unchanged.
pub open spec fn after_edit(t: Seq<u8>, c: int, r: Option<(Seq<u8>, int)>) -> (Seq<u8>, int, Effect) {
    match r {
        Some((t2, c2)) => (t2, c2, Effect::Rematch),
        None => (t, c, Effect::Redraw(true)),
    }
}

/// What action `a` does to the line `(t, c)`, the paging `p` and the Tab
/// mark: the new line, paging and mark, and the effect. `w` holds the
/// matches' widths (one per match), `selected` the selected match's text,
/// `typed` the text the key typed.
pub open spec fn spec_apply(
    a: Action,
    t: Seq<u8>,
    c: int,
    p: Pager,
    tabbed: bool,
    selected: Seq<u8>,
    typed: &str,
    w: Seq<i32>,
    budget: i32,
    lines: i32,
) -> (Seq<u8>, int, Pager, bool, Effect) {
    match a {
        Action::Stop { redraw } => (t, c, p, tabbed, Effect::Redraw(redraw)),
        Action::Exit(n) => (t, c, p, tabbed, Effect::Exit(n)),
        Action::DeleteForward => if c < t.len() {
            let c1 = spec_next_rune(t, c, Direction::Forward);
            let (t2, c2, e) = after_edit(
                t,
                c1,
                spec_edit(
                    t,
                    c1,
                    EditOp::Delete((c1 - spec_next_rune(t, c1, Direction::Backward)) as usize),
                ),
            );
            (t2, c2, p, tabbed, e)
        } else {
            (t, c, p, tabbed, Effect::Redraw(false))
        },
        Action::DeleteBack => if c > 0 {
            let (t2, c2, e) = after_edit(
                t,
                c,
                spec_edit(t, c, EditOp::Delete((c - spec_next_rune(t, c, Direction::Backward)) as usize)),
            );
            (t2, c2, p, tabbed, e)
        } else {
            (t, c, p, tabbed, Effect::Redraw(false))
        },
        Action::EndOfLine => (
            t,
            t.len() as int,
            Pager {
                sel: if w.len() == 0 {
                    None
                } else {
                    Some((w.len() - 1) as usize)
                },
                ..p
            },
            tabbed,
            Effect::Redraw(true),
        ),
        Action::CursorToStart => (t, 0, p, tabbed, Effect::Redraw(true)),
        Action::CursorBack => (
            t,
            spec_next_rune(t, c, Direction::Backward),
            p,
            tabbed,
            Effect::Redraw(true),
        ),
        Action::CursorForward => if c < t.len() {
            (t, spec_next_rune(t, c, Direction::Forward), p, tabbed, Effect::Redraw(true))
        } else {
            (t, c, p, tabbed, Effect::Redraw(false))
        },
        Action::Navigate(nav) => (t, c, spec_navigate(p, nav, w, budget), tabbed, Effect::Redraw(true)),
        Action::GridMove(d) => (
            t,
            c,
            spec_grid_move(p, d, lines, w, budget),
            tabbed,
            Effect::Redraw(true),
        ),
        Action::RunCommand(s) => (t, c, p, tabbed, Effect::RunCommand(s)),
        Action::Submit(m) => (t, c, p, tabbed, Effect::Submit(m)),
        Action::Complete => {
            let n = if selected.len() <= crate::menu::TEXT_MAX {
                selected.len() as int
            } else {
                crate::menu::TEXT_MAX as int
            };
            (selected.take(n), n, p, tabbed, Effect::Rematch)
        },
        Action::MarkTabbed => (t, c, p, true, Effect::Redraw(true)),
        Action::Insert => {
            let (t2, c2, e) = after_edit(t, c, spec_edit(t, c, EditOp::Insert(typed)));
            (t2, c2, p, tabbed, e)
        },
    }
}

fn take_edit(line: &mut LineState, r: Option<(Vec<u8>, usize)>) -> (e: Effect)
    requires
        old(line).wf(),
        r matches Some((v, k)) ==> k <= v@.len() < usize::MAX,
    ensures
        final(line).wf(),
        (final(line).text@, final(line).cursor as int, e) == after_edit(
            old(line).text@,
            old(line).cursor as int,
            match r {
                Some((v, k)) => Some((v@, k as int)),
                None => None,
            },
        ),
{
    match r {
        Some((v, k)) => {
            line.text = v;
            line.cursor = k;
            Effect::Rematch
        },
        None => Effect::Redraw(true),
    }
}

/// Applies what a plain key does to the line, the paging and the Tab mark.
pub fn apply_action(
    a: Action,
    line: &mut LineState,
    pager: &mut Pager,
    tabbed: &mut bool,
    selected: &[u8],
    typed: &str,
    widths: &[i32],
    budget: i32,
    lines: i32,
) -> (e: Effect)
    requires
        old(line).wf(),
        old(line).text@.len() <= crate::menu::TEXT_MAX,
        selected@.len() > crate::menu::TEXT_MAX ==> is_char_boundary(
            selected@,
            crate::menu::TEXT_MAX as int,
        ),
    ensures
        final(line).wf(),
        final(line).text@.len() <= crate::menu::TEXT_MAX,
        (final(line).text@, final(line).cursor as int, *final(pager), *final(tabbed), e) == spec_apply(
            a,
            old(line).text@,
            old(line).cursor as int,
            *old(pager),
            *old(tabbed),
            selected@,
            typed,
            widths@,
            budget,
            lines,
        ),
{
    match a {
        Action::Stop { redraw } => Effect::Redraw(redraw),
        Action::Exit(n) => Effect::Exit(n),
        Action::DeleteForward => {
            if line.cursor < line.text.len() {
                let c1 = next_rune(&line.text, line.cursor, Direction::Forward);
                let r = delete_forward(&line.text, line.cursor);
                proof {
                    lemma_edits_keep_the_line_bounded(
                        line.text@,
                        c1 as int,
                        EditOp::Delete(
                            (c1 - spec_next_rune(line.text@, c1 as int, Direction::Backward)) as usize,
                        ),
                    );
                }
                line.cursor = c1;
                take_edit(line, r)
            } else {
                Effect::Redraw(false)
            }
        },
        Action::DeleteBack => {
            if line.cursor > 0 {
                let r = delete_back(&line.text, line.cursor);
                proof {
                    lemma_edits_keep_the_line_bounded(
                        line.text@,
                        line.cursor as int,
                        EditOp::Delete(
                            (line.cursor - spec_next_rune(line.text@, line.cursor as int, Direction::Backward)) as usize,
                        ),
                    );
                }
                take_edit(line, r)
            } else {
                Effect::Redraw(false)
            }
        },
        Action::EndOfLine => {
            line.cursor = line.text.len();
            pager.select_last(widths.len());
            Effect::Redraw(true)
        },
        Action::CursorToStart => {
            line.cursor = 0;
            Effect::Redraw(true)
        },
        Action::CursorBack => {
            line.cursor = next_rune(&line.text, line.cursor, Direction::Backward);
            Effect::Redraw(true)
        },
        Action::CursorForward => {
            if line.cursor < line.text.len() {
                line.cursor = next_rune(&line.text, line.cursor, Direction::Forward);
                Effect::Redraw(true)
            } else {
                Effect::Redraw(false)
            }
        },
        Action::Navigate(nav) => {
            pager.navigate(nav, widths, budget);
            Effect::Redraw(true)
        },
        Action::GridMove(d) => {
            pager.grid_move(d, lines, widths, budget);
            Effect::Redraw(true)
        },
        Action::RunCommand(s) => Effect::RunCommand(s),
        Action::Submit(m) => Effect::Submit(m),
        Action::Complete => {
            let n = if selected.len() <= crate::menu::TEXT_MAX {
                selected.len()
            } else {
                crate::menu::TEXT_MAX
            };
            let mut v: Vec<u8> = Vec::new();
            let mut i: usize = 0;
            while i < n
                invariant
                    i <= n <= selected@.len(),
                    v@ == selected@.take(i as int),
                decreases n - i,
            {
                v.push(selected[i]);
                i += 1;
                assert(v@ =~= selected@.take(i as int));
            }
            line.cursor = v.len();
            line.text = v;
            Effect::Rematch
        },
        Action::MarkTabbed => {
            *tabbed = true;
            Effect::Redraw(true)
        },
        Action::Insert => {
            let r = edit(&line.text, line.cursor, EditOp::Insert(typed));
            proof {
                lemma_edits_keep_the_line_bounded(line.text@, line.cursor as int, EditOp::Insert(typed));
            }
            take_edit(line, r)
        },
    }
}

/// What a chord's line edit does: the new line `(t, c)`, paging, Tab mark
/// and alt-tab mode, and whether the text changed.
pub open spec fn spec_prelude(
    pr: Prelude,
    t: Seq<u8>,
    c: int,
    p: Pager,
    tabbed: bool,
    alttab: bool,
    delims: Seq<u8>,
    w: Seq<i32>,
    budget: i32,
) -> (Seq<u8>, int, Pager, bool, bool, bool) {
    let edited = |r: Option<(Seq<u8>, int)>|
        match r {
            Some((t2, c2)) => (t2, c2, p, tabbed, alttab, true),
            None => (t, c, p, tabbed, alttab, false),
        };
    match pr {
        Prelude::InsertPattern => edited(spec_edit(t, c, EditOp::Insert(".*"))),
        Prelude::CutRight => (t.take(c), c, p, tabbed, alttab, true),
        Prelude::CutLeft => edited(spec_edit(t, c, EditOp::Delete(c as usize))),
        Prelude::CutWord => edited(
            spec_edit(
                t,
                c,
                EditOp::Delete((c - spec_word_edge(t, c, delims, Direction::Backward)) as usize),
            ),
        ),
        Prelude::TabBackward => (t, c, spec_tab_backward(p, w, budget), tabbed, alttab, false),
        Prelude::AltTabOff => (t, c, p, false, false, false),
        Prelude::TabForward => (t, c, spec_navigate(p, Nav::TabForward, w, budget), true, alttab, false),
    }
}

/// Applies a chord's line edit before its key acts; says whether the text
/// changed (and must be matched again).
pub fn apply_prelude(
    pr: Prelude,
    line: &mut LineState,
    pager: &mut Pager,
    tabbed: &mut bool,
    alttab: &mut bool,
    delims: &[u8],
    widths: &[i32],
    budget: i32,
) -> (changed: bool)
    requires
        old(line).wf(),
        old(line).text@.len() <= crate::menu::TEXT_MAX,
    ensures
        final(line).wf(),
        final(line).text@.len() <= crate::menu::TEXT_MAX,
        (
            final(line).text@,
            final(line).cursor as int,
            *final(pager),
            *final(tabbed),
            *final(alttab),
            changed,
        ) == spec_prelude(
            pr,
            old(line).text@,
            old(line).cursor as int,
            *old(pager),
            *old(tabbed),
            *old(alttab),
            delims@,
            widths@,
            budget,
        ),
{
    let ghost t0 = line.text@;
    let ghost c0 = line.cursor as int;
    proof {
        lemma_edits_keep_the_line_bounded(t0, c0, EditOp::Insert(".*"));
        lemma_edits_keep_the_line_bounded(t0, c0, EditOp::Delete(c0 as usize));
        lemma_edits_keep_the_line_bounded(
            t0,
            c0,
            EditOp::Delete((c0 - spec_word_edge(t0, c0, delims@, Direction::Backward)) as usize),
        );
    }
    let r = match pr {
        Prelude::InsertPattern => edit(&line.text, line.cursor, EditOp::Insert(".*")),
        Prelude::CutRight => {
            let v = cut_right(&line.text, line.cursor);
            line.text = v;
            return true;
        },
        Prelude::CutLeft => cut_left(&line.text, line.cursor),
        Prelude::CutWord => cut_word(&line.text, line.cursor, delims),
        Prelude::TabBackward => {
            pager.tab_backward(widths, budget);
            return false;
        },
        Prelude::AltTabOff => {
            *tabbed = false;
            *alttab = false;
            return false;
        },
        Prelude::TabForward => {
            *tabbed = true;
            pager.navigate(Nav::TabForward, widths, budget);
            return false;
        },
    };
    match r {
        Some((v, k)) => {
            line.text = v;
            line.cursor = k;
            true
        },
        None => false,
    }
}

/// `out` with the item shown at match position `i` marked as printed.
pub open spec fn marked(out: Seq<bool>, matches: Seq<usize>, i: int) -> Seq<bool> {
    out.update(matches[i] as int, true)
}

/// Whether match position `i` names an item that `out` has a mark for.
pub open spec fn markable(out: Seq<bool>, matches: Seq<usize>, i: int) -> bool {
    0 <= i < matches.len() && matches[i] < out.len()
}

fn mark(out: &mut Vec<bool>, matches: &[usize], i: usize)
    requires
        markable(old(out)@, matches@, i as int),
    ensures
        final(out)@ == marked(old(out)@, matches@, i as int),
{
    let item = matches[i];
    out.set(item, true);
}

/// What printing after Return does: when the menu stays open (Ctrl), the
/// selected match's item is marked as printed.
pub open spec fn spec_apply_output(o: Output, sel: Option<usize>, out: Seq<bool>, matches: Seq<usize>) -> (
    Seq<bool>,
    Effect,
) {
    match o {
        Output::Nothing => (out, Effect::Redraw(false)),
        Output::Print { selection, exit } => {
            let index = if selection {
                sel
            } else {
                None
            };
            if exit {
                (out, Effect::Print { index, exit: true })
            } else {
                match sel {
                    Some(s) => (marked(out, matches, s as int), Effect::Print { index, exit: false }),
                    None => (out, Effect::Print { index, exit: false }),
                }
            }
        },
    }
}

/// Applies what submitting decided: print, then exit or mark the selected
/// match's item as printed.
pub fn apply_output(o: Output, sel: Option<usize>, out: &mut Vec<bool>, matches: &[usize]) -> (e: Effect)
    requires
        sel matches Some(s) ==> markable(old(out)@, matches@, s as int),
    ensures
        (final(out)@, e) == spec_apply_output(o, sel, old(out)@, matches@),
{
    match o {
        Output::Nothing => Effect::Redraw(false),
        Output::Print { selection, exit } => {
            let index = if selection {
                sel
            } else {
                None
            };
            if !exit {
                if let Some(s) = sel {
                    mark(out, matches, s);
                }
            }
            Effect::Print { index, exit }
        },
    }
}

/// What a button action does to the line `(t, c)`, the paging `p` and the
/// printed marks `out` (one per item; `matches` maps match positions to
/// items): the new line, paging and marks, and the effect.
pub open spec fn spec_apply_button(
    a: ButtonAction,
    t: Seq<u8>,
    c: int,
    p: Pager,
    out: Seq<bool>,
    matches: Seq<usize>,
    w: Seq<i32>,
    budget: i32,
) -> (Seq<u8>, int, Pager, Seq<bool>, Effect) {
    match a {
        ButtonAction::Exit(n) => (t, c, p, out, Effect::Exit(n)),
        ButtonAction::Command(k) => (t, c, p, out, Effect::RunCommand(
            if k == 0 {
                Side::Left
            } else {
                Side::Right
            },
        )),
        ButtonAction::ClearInput => {
            let (t2, c2, e) = after_edit(t, c, spec_edit(t, c, EditOp::Delete(c as usize)));
            (t2, c2, p, out, e)
        },
        ButtonAction::Output { index, keep_open } => if !keep_open {
            (t, c, p, out, Effect::Print { index, exit: true })
        } else {
            match index {
                Some(i) => (
                    t,
                    c,
                    Pager { sel: Some(i), ..p },
                    marked(out, matches, i as int),
                    Effect::Print { index, exit: false },
                ),
                None => (t, c, p, out, Effect::Print { index: None, exit: false }),
            }
        },
        ButtonAction::PagePrev => (t, c, spec_scroll_up(p, w, budget), out, Effect::Redraw(true)),
        ButtonAction::PageNext => (
            t,
            c,
            spec_navigate(p, Nav::PageDown, w, budget),
            out,
            Effect::Redraw(true),
        ),
        ButtonAction::Paste { clipboard } => (t, c, p, out, Effect::Paste { clipboard }),
        ButtonAction::Nothing => (t, c, p, out, Effect::Redraw(false)),
    }
}

/// Applies a button action: the left and right commands, clearing the
/// input, printing (and on Ctrl selecting and marking) an item, paging
/// back (the arrow or the wheel up: the first item shown is selected and
/// the previous page shown) and forward (the next page's first item is
/// selected and shown), and pasting.
pub fn apply_button(
    a: ButtonAction,
    line: &mut LineState,
    pager: &mut Pager,
    out: &mut Vec<bool>,
    matches: &[usize],
    widths: &[i32],
    budget: i32,
) -> (e: Effect)
    requires
        old(line).wf(),
        old(line).text@.len() <= crate::menu::TEXT_MAX,
        a matches ButtonAction::Output { index: Some(i), keep_open: true } ==> markable(
            old(out)@,
            matches@,
            i as int,
        ),
    ensures
        final(line).wf(),
        final(line).text@.len() <= crate::menu::TEXT_MAX,
        (final(line).text@, final(line).cursor as int, *final(pager), final(out)@, e)
            == spec_apply_button(
            a,
            old(line).text@,
            old(line).cursor as int,
            *old(pager),
            old(out)@,
            matches@,
            widths@,
            budget,
        ),
{
    match a {
        ButtonAction::Exit(n) => Effect::Exit(n),
        ButtonAction::Command(k) => Effect::RunCommand(
            if k == 0 {
                Side::Left
            } else {
                Side::Right
            },
        ),
        ButtonAction::ClearInput => {
            let r = cut_left(&line.text, line.cursor);
            proof {
                lemma_edits_keep_the_line_bounded(
                    line.text@,
                    line.cursor as int,
                    EditOp::Delete(line.cursor),
                );
            }
            take_edit(line, r)
        },
        ButtonAction::Output { index, keep_open } => {
            if keep_open {
                if let Some(i) = index {
                    pager.sel = Some(i);
                    mark(out, matches, i);
                }
            }
            Effect::Print { index, exit: !keep_open }
        },
        ButtonAction::PagePrev => {
            let _ = pager.scroll_up(widths, budget);
            Effect::Redraw(true)
        },
        ButtonAction::PageNext => {
            pager.navigate(Nav::PageDown, widths, budget);
            Effect::Redraw(true)
        },
        ButtonAction::Paste { clipboard } => Effect::Paste { clipboard },
        ButtonAction::Nothing => Effect::Redraw(false),
    }
}

/// Pressing a button pages the way the keys do: with a next page, the wheel
/// down (or the `>` arrow) selects that page's first match and shows it
/// from there; the wheel up (or the `<` arrow) selects the first match
/// shown and shows the previous page. A right click exits with status 1
/// and a middle click pastes, changing neither the line nor the paging.
pub proof fn lemma_buttons_page_and_exit(
    t: Seq<u8>,
    c: int,
    p: Pager,
    out: Seq<bool>,
    matches: Seq<usize>,
    w: Seq<i32>,
    budget: i32,
    clipboard: bool,
)
    ensures
        p.next matches Some(n) ==> {
            let r = spec_apply_button(ButtonAction::PageNext, t, c, p, out, matches, w, budget);
            r.2.sel == Some(n) && r.2.curr == Some(n) && r.0 == t && r.1 == c
        },
        (p.prev != 0 || (p.curr matches Some(k) && k > 0)) ==> {
            let r = spec_apply_button(ButtonAction::PagePrev, t, c, p, out, matches, w, budget);
            r.2.sel == p.curr && r.2.curr == Some(p.prev)
        },
        spec_apply_button(ButtonAction::Exit(1), t, c, p, out, matches, w, budget) == (
            t,
            c,
            p,
            out,
            Effect::Exit(1),
        ),
        spec_apply_button(ButtonAction::Paste { clipboard }, t, c, p, out, matches, w, budget) == (
            t,
            c,
            p,
            out,
            Effect::Paste { clipboard },
        ),
{
}

/// Ctrl-Return prints and keeps the menu open, marking the selected
/// match's item as printed (and nothing else); plain Return prints and
/// exits, marking nothing.
pub proof fn lemma_ctrl_return_marks_the_selection(
    mods: Modifiers,
    has_sel: bool,
    sel: Option<usize>,
    out: Seq<bool>,
    matches: Seq<usize>,
    reject_no_match: bool,
)
    requires
        sel matches Some(s) ==> markable(out, matches, s as int),
        has_sel == sel is Some,
    ensures
        mods.ctrl ==> {
            let o = Output::Print {
                selection: has_sel && !(mods.shift && !reject_no_match),
                exit: !mods.ctrl,
            };
            let r = spec_apply_output(o, sel, out, matches);
            &&& r.1 matches Effect::Print { exit: false, .. }
            &&& (sel matches Some(s) ==> r.0[matches[s as int] as int] && forall|j: int|
                0 <= j < out.len() && j != matches[s as int] ==> r.0[j] == out[j])
            &&& (sel is None ==> r.0 == out)
        },
        !mods.ctrl ==> spec_apply_output(
            Output::Print { selection: has_sel && !(mods.shift && !reject_no_match), exit: true },
            sel,
            out,
            matches,
        ).0 == out,
{
}

} // verus!
