use instantmenu::keys::{Action, Prelude};
use instantmenu::menu::Pager;
use instantmenu::session::{apply_action, apply_prelude, Effect, LineState};

fn line(t: &str, c: usize) -> LineState {
    LineState { text: t.as_bytes().to_vec(), cursor: c }
}

fn pager() -> Pager {
    Pager { sel: Some(0), curr: Some(0), next: None, prev: 0 }
}

fn act(a: Action, l: &mut LineState, p: &mut Pager, typed: &str, selected: &str) -> Effect {
    let mut tabbed = false;
    apply_action(a, l, p, &mut tabbed, selected.as_bytes(), typed, &[10, 10, 10], 100, 0)
}

#[test]
fn typing_inserts_at_the_cursor_and_rematches() {
    let mut l = line("ab", 1);
    let mut p = pager();
    assert_eq!(act(Action::Insert, &mut l, &mut p, "X", ""), Effect::Rematch);
    assert_eq!((l.text.as_slice(), l.cursor), (&b"aXb"[..], 2));
}

#[test]
fn deleting_at_the_edges_does_nothing() {
    let mut l = line("ab", 0);
    let mut p = pager();
    assert_eq!(act(Action::DeleteBack, &mut l, &mut p, "", ""), Effect::Redraw(false));
    assert_eq!(act(Action::DeleteForward, &mut l, &mut p, "", ""), Effect::Rematch);
    assert_eq!((l.text.as_slice(), l.cursor), (&b"b"[..], 0));
    let mut l = line("h\u{e9}", 3);
    assert_eq!(act(Action::DeleteBack, &mut l, &mut p, "", ""), Effect::Rematch);
    assert_eq!((l.text.as_slice(), l.cursor), (&b"h"[..], 1));
}

#[test]
fn end_of_line_selects_the_last_match() {
    let mut l = line("abc", 1);
    let mut p = pager();
    assert_eq!(act(Action::EndOfLine, &mut l, &mut p, "", ""), Effect::Redraw(true));
    assert_eq!(l.cursor, 3);
    assert_eq!(p.sel, Some(2));
}

#[test]
fn tab_completes_the_selection() {
    let mut l = line("fi", 2);
    let mut p = pager();
    assert_eq!(act(Action::Complete, &mut l, &mut p, "", "firefox"), Effect::Rematch);
    assert_eq!((l.text.as_slice(), l.cursor), (&b"firefox"[..], 7));
    assert_eq!(act(Action::Exit(1), &mut l, &mut p, "", ""), Effect::Exit(1));
}

#[test]
fn chord_edits_come_first() {
    let mut p = pager();
    let (mut tabbed, mut alttab) = (true, true);
    let mut l = line("hello world", 5);
    assert!(apply_prelude(Prelude::CutRight, &mut l, &mut p, &mut tabbed, &mut alttab, b" ", &[10], 100));
    assert_eq!(l.text, b"hello");
    let mut l = line("hello world", 11);
    assert!(apply_prelude(Prelude::CutWord, &mut l, &mut p, &mut tabbed, &mut alttab, b" ", &[10], 100));
    assert_eq!((l.text.as_slice(), l.cursor), (&b"hello "[..], 6));
    assert!(apply_prelude(Prelude::InsertPattern, &mut l, &mut p, &mut tabbed, &mut alttab, b" ", &[10], 100));
    assert_eq!(l.text, b"hello .*");
    assert!(!apply_prelude(Prelude::AltTabOff, &mut l, &mut p, &mut tabbed, &mut alttab, b" ", &[10], 100));
    assert_eq!((tabbed, alttab), (false, false));
}

use instantmenu::keys::Output;
use instantmenu::pointer::ButtonAction;
use instantmenu::session::{apply_button, apply_output};

#[test]
fn the_wheel_pages_like_the_keys() {
    let widths = [60, 60, 60, 60];
    let mut l = line("ab", 1);
    let mut out = vec![false; 4];
    let matches = [0, 1, 2, 3];
    let mut p = Pager { sel: Some(0), curr: Some(0), next: Some(2), prev: 0 };
    assert_eq!(
        apply_button(ButtonAction::PageNext, &mut l, &mut p, &mut out, &matches, &widths, 100),
        Effect::Redraw(true)
    );
    assert_eq!((p.sel, p.curr), (Some(2), Some(2)));
    let mut p = Pager { sel: Some(3), curr: Some(2), next: None, prev: 0 };
    apply_button(ButtonAction::PagePrev, &mut l, &mut p, &mut out, &matches, &widths, 100);
    assert_eq!((p.sel, p.curr), (Some(2), Some(0)));
    assert_eq!(
        apply_button(ButtonAction::Exit(1), &mut l, &mut p, &mut out, &matches, &widths, 100),
        Effect::Exit(1)
    );
    assert_eq!(
        apply_button(ButtonAction::Paste { clipboard: true }, &mut l, &mut p, &mut out, &matches, &widths, 100),
        Effect::Paste { clipboard: true }
    );
    assert_eq!((l.text.as_slice(), l.cursor), (&b"ab"[..], 1));
}

#[test]
fn a_ctrl_click_selects_and_marks_the_item() {
    let mut l = line("hello", 3);
    let mut out = vec![false; 7];
    let matches = [4, 5, 6];
    let mut p = pager();
    assert_eq!(
        apply_button(ButtonAction::Output { index: Some(1), keep_open: true }, &mut l, &mut p, &mut out, &matches, &[1, 1, 1], 100),
        Effect::Print { index: Some(1), exit: false }
    );
    assert_eq!(p.sel, Some(1));
    assert_eq!(out, vec![false, false, false, false, false, true, false]);
    assert_eq!(
        apply_button(ButtonAction::Output { index: Some(2), keep_open: false }, &mut l, &mut p, &mut out, &matches, &[1, 1, 1], 100),
        Effect::Print { index: Some(2), exit: true }
    );
    assert_eq!(
        apply_button(ButtonAction::ClearInput, &mut l, &mut p, &mut out, &matches, &[1, 1, 1], 100),
        Effect::Rematch
    );
    assert_eq!((l.text.as_slice(), l.cursor), (&b"lo"[..], 0));
}

#[test]
fn ctrl_return_marks_the_selection_as_printed() {
    let mut out = vec![false; 3];
    let e = apply_output(Output::Print { selection: true, exit: false }, Some(0), &mut out, &[2]);
    assert_eq!(e, Effect::Print { index: Some(0), exit: false });
    assert_eq!(out, vec![false, false, true]);
    let mut out = vec![false; 3];
    let e = apply_output(Output::Print { selection: true, exit: true }, Some(0), &mut out, &[2]);
    assert_eq!(e, Effect::Print { index: Some(0), exit: true });
    assert_eq!(out, vec![false; 3]);
}
