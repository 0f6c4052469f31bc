use instantmenu::pointer::{button_action, hovered_item, ButtonAction, PointerLayout};

fn bar() -> PointerLayout {
    PointerLayout {
        prompt_w: 50,
        input_w: 100,
        menu_w: 500,
        row_h: 20,
        lines: 0,
        columns: 0,
        left_arrow_w: 10,
        right_arrow_w: 10,
        command_w: 20,
        item_widths: vec![40, 60, 1000],
        headings: vec![false, true, false],
        curr: Some(0),
        next: Some(3),
        prev: 0,
        sel: Some(0),
        matches: 5,
        has_left_command: false,
        sel_heading: false,
        sel_text_empty: false,
    }
}

fn list() -> PointerLayout {
    PointerLayout {
        lines: 5,
        curr: Some(2),
        next: Some(5),
        sel: Some(3),
        matches: 8,
        has_left_command: true,
        ..bar()
    }
}

fn grid() -> PointerLayout {
    PointerLayout {
        prompt_w: 0,
        menu_w: 400,
        lines: 2,
        columns: 2,
        curr: Some(0),
        next: None,
        matches: 5,
        ..bar()
    }
}

#[test]
fn hover_over_the_bar_follows_the_cut_slots() {
    let l = bar();
    assert_eq!(hovered_item(170, 5, &l), Some(0));
    assert_eq!(hovered_item(200, 5, &l), Some(0));
    assert_eq!(hovered_item(230, 5, &l), Some(1));
    // the third slot is cut at the `>` arrow
    assert_eq!(hovered_item(300, 5, &l), Some(2));
    assert_eq!(hovered_item(495, 5, &l), None);
    assert_eq!(hovered_item(100, 5, &l), None);
}

#[test]
fn hover_over_the_list_skips_the_input_line() {
    let l = list();
    assert_eq!(hovered_item(0, 10, &l), None);
    assert_eq!(hovered_item(0, 25, &l), Some(2));
    assert_eq!(hovered_item(0, 45, &l), Some(3));
    assert_eq!(hovered_item(0, 110, &l), None);
}

#[test]
fn hover_over_the_grid_walks_column_by_column() {
    let l = grid();
    assert_eq!(hovered_item(100, 30, &l), Some(0));
    assert_eq!(hovered_item(100, 50, &l), Some(1));
    assert_eq!(hovered_item(300, 10, &l), Some(1));
    assert_eq!(hovered_item(300, 30, &l), Some(2));
    assert_eq!(hovered_item(300, 50, &l), Some(3));
    assert_eq!(hovered_item(450, 30, &l), Some(4));
    assert_eq!(hovered_item(100, 10, &l), None);
}

#[test]
fn buttons_outside_the_left_one() {
    let l = bar();
    assert_eq!(button_action(3, false, false, 0, 0, &l), ButtonAction::Exit(1));
    assert_eq!(button_action(2, false, true, 0, 0, &l), ButtonAction::Paste { clipboard: true });
    assert_eq!(button_action(2, false, false, 0, 0, &l), ButtonAction::Paste { clipboard: false });
    assert_eq!(button_action(4, false, false, 0, 0, &l), ButtonAction::Nothing);
    assert_eq!(button_action(5, false, false, 0, 0, &l), ButtonAction::PageNext);
    let back = PointerLayout { curr: Some(3), next: None, prev: 1, ..bar() };
    assert_eq!(button_action(4, false, false, 0, 0, &back), ButtonAction::PagePrev);
    assert_eq!(button_action(5, false, false, 0, 0, &back), ButtonAction::Nothing);
}

#[test]
fn left_clicks_on_the_bar() {
    let l = bar();
    assert_eq!(button_action(1, false, false, 100, 5, &l), ButtonAction::ClearInput);
    // a heading while a selection with text exists: not printed
    assert_eq!(button_action(1, false, false, 230, 5, &l), ButtonAction::Nothing);
    assert_eq!(
        button_action(1, false, false, 300, 5, &l),
        ButtonAction::Output { index: Some(2), keep_open: false }
    );
    assert_eq!(
        button_action(1, true, false, 170, 5, &l),
        ButtonAction::Output { index: Some(0), keep_open: true }
    );
    assert_eq!(button_action(1, false, false, 495, 5, &l), ButtonAction::PageNext);
    let back = PointerLayout { curr: Some(3), prev: 1, ..bar() };
    assert_eq!(button_action(1, false, false, 155, 5, &back), ButtonAction::PagePrev);
}

#[test]
fn left_clicks_on_the_list() {
    let l = list();
    assert_eq!(button_action(1, false, false, 5, 10, &l), ButtonAction::Command(0));
    assert_eq!(button_action(1, false, false, 490, 10, &l), ButtonAction::Command(1));
    assert_eq!(button_action(1, false, false, 200, 10, &l), ButtonAction::ClearInput);
    assert_eq!(
        button_action(1, false, false, 200, 50, &l),
        ButtonAction::Output { index: Some(3), keep_open: false }
    );
    let heading = PointerLayout { sel_heading: true, ..list() };
    assert_eq!(button_action(1, false, false, 200, 50, &heading), ButtonAction::Nothing);
    let none = PointerLayout { sel: None, ..list() };
    assert_eq!(
        button_action(1, true, false, 200, 50, &none),
        ButtonAction::Output { index: None, keep_open: true }
    );
}
