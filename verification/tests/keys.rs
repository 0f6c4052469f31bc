use instantmenu::backend::Modifiers;
use instantmenu::enums::{Direction, Side};
use instantmenu::keys::{
    key_release, main_key, submit, translate_key, Action, Flow, KeyContext, Output, Prelude,
    KEY_A, KEY_BACKSPACE, KEY_DELETE, KEY_END, KEY_ESCAPE, KEY_F4, KEY_HOME, KEY_J, KEY_LEFT,
    KEY_NEXT, KEY_RETURN, KEY_RIGHT, KEY_S, KEY_TAB, KEY_UP,
};
use instantmenu::menu::Nav;

fn ctrl() -> Modifiers {
    Modifiers {
        ctrl: true,
        ..Modifiers::default()
    }
}

fn alt() -> Modifiers {
    Modifiers {
        alt: true,
        ..Modifiers::default()
    }
}

fn shift() -> Modifiers {
    Modifiers {
        shift: true,
        ..Modifiers::default()
    }
}

fn ctx() -> KeyContext {
    KeyContext {
        cursor: 2,
        text_len: 4,
        sel: Some(1),
        curr: Some(0),
        next: Some(3),
        matches: 5,
        lines: 0,
        columns: 1,
        alttab: false,
        has_command: false,
    }
}

#[test]
fn chords_translate_to_plain_keys_or_commands() {
    assert_eq!(translate_key(KEY_A, ctrl(), false), (None, Flow::Key(KEY_HOME, ctrl())));
    assert_eq!(
        translate_key(KEY_J, ctrl(), false),
        (None, Flow::Key(KEY_RETURN, Modifiers::default()))
    );
    assert_eq!(
        translate_key(KEY_S, ctrl(), false),
        (Some(Prelude::InsertPattern), Flow::Key(KEY_S, ctrl()))
    );
    assert_eq!(translate_key(0x0033, ctrl(), false), (None, Flow::SelectNumber(2, Modifiers::default())));
    assert_eq!(translate_key(KEY_LEFT, ctrl(), false), (None, Flow::WordMove(Direction::Backward)));
    assert_eq!(translate_key(0x0078, ctrl(), false), (None, Flow::Stop { redraw: false }));
    assert_eq!(translate_key(KEY_F4, alt(), false), (None, Flow::Exit(1)));
    assert_eq!(translate_key(0x006c, alt(), false), (None, Flow::Key(0xff54, alt())));
    assert_eq!(
        translate_key(KEY_TAB, alt(), true),
        (Some(Prelude::TabForward), Flow::Key(KEY_TAB, alt()))
    );
    assert_eq!(
        translate_key(KEY_UP, shift(), true),
        (Some(Prelude::TabBackward), Flow::Key(KEY_UP, shift()))
    );
    let logo = Modifiers {
        logo: true,
        ..Modifiers::default()
    };
    assert_eq!(translate_key(0x0071, logo, false), (None, Flow::Exit(1)));
    assert_eq!(translate_key(0x0061, Modifiers::default(), false), (None, Flow::Key(0x0061, Modifiers::default())));
}

#[test]
fn plain_keys_act_on_line_and_list() {
    let c = ctx();
    let none = Modifiers::default();
    assert_eq!(main_key(KEY_DELETE, none, false, &c), Action::DeleteForward);
    assert_eq!(main_key(KEY_BACKSPACE, none, false, &c), Action::DeleteBack);
    assert_eq!(main_key(KEY_END, none, false, &c), Action::EndOfLine);
    assert_eq!(
        main_key(KEY_END, none, false, &KeyContext { cursor: 4, ..c }),
        Action::Navigate(Nav::End)
    );
    assert_eq!(main_key(KEY_ESCAPE, none, false, &c), Action::Exit(1));
    assert_eq!(main_key(KEY_HOME, none, false, &c), Action::Navigate(Nav::Home));
    assert_eq!(
        main_key(KEY_HOME, none, false, &KeyContext { sel: Some(0), ..c }),
        Action::CursorToStart
    );
    assert_eq!(main_key(KEY_LEFT, none, false, &c), Action::Navigate(Nav::Up));
    assert_eq!(
        main_key(KEY_LEFT, none, false, &KeyContext { lines: 10, ..c }),
        Action::CursorBack
    );
    assert_eq!(
        main_key(KEY_LEFT, shift(), false, &KeyContext { has_command: true, ..c }),
        Action::RunCommand(Side::Left)
    );
    assert_eq!(
        main_key(KEY_RIGHT, none, false, &KeyContext { columns: 3, ..c }),
        Action::GridMove(Direction::Forward)
    );
    assert_eq!(main_key(KEY_RIGHT, none, false, &c), Action::CursorForward);
    assert_eq!(main_key(KEY_NEXT, none, false, &c), Action::Navigate(Nav::PageDown));
    assert_eq!(
        main_key(KEY_NEXT, none, false, &KeyContext { next: None, ..c }),
        Action::Stop { redraw: false }
    );
    assert_eq!(main_key(KEY_RETURN, ctrl(), false, &c), Action::Submit(ctrl()));
    assert_eq!(main_key(KEY_TAB, none, false, &c), Action::Complete);
    assert_eq!(
        main_key(KEY_TAB, none, false, &KeyContext { alttab: true, ..c }),
        Action::MarkTabbed
    );
    assert_eq!(main_key(0x0061, none, true, &c), Action::Insert);
    assert_eq!(main_key(0x0061, none, false, &c), Action::Stop { redraw: true });
}

#[test]
fn submitting_prints_and_ctrl_keeps_the_menu_open() {
    let none = Modifiers::default();
    assert_eq!(submit(none, true, false, false), Output::Print { selection: true, exit: true });
    assert_eq!(submit(shift(), true, false, false), Output::Print { selection: false, exit: true });
    assert_eq!(submit(shift(), true, false, true), Output::Print { selection: true, exit: true });
    assert_eq!(submit(ctrl(), true, false, false), Output::Print { selection: true, exit: false });
    assert_eq!(submit(none, true, true, false), Output::Nothing);
    assert_eq!(submit(none, false, false, false), Output::Print { selection: false, exit: true });
}

#[test]
fn releasing_alt_submits_in_alt_tab_mode() {
    let none = Modifiers::default();
    assert_eq!(key_release(false, false, alt(), true, false), (false, Output::Nothing));
    assert_eq!(key_release(true, true, alt(), true, false), (false, Output::Nothing));
    assert_eq!(
        key_release(true, false, alt(), true, false),
        (false, Output::Print { selection: true, exit: true })
    );
    assert_eq!(key_release(true, false, none, true, false), (false, Output::Nothing));
}
