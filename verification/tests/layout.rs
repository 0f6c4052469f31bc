use instantmenu::enums::Scheme;
use instantmenu::layout::{menu_layout, InputText, ItemBox, LayoutInput};
use instantmenu::style::{item_style, IconSlot, ItemCategory, ItemStyle};

fn bar() -> LayoutInput {
    LayoutInput {
        menu_w: 500,
        row_h: 20,
        font_h: 12,
        lines: 0,
        columns: 1,
        lrpad: 8,
        command_w: 10,
        left_arrow_w: 10,
        right_arrow_w: 10,
        counter_w: 30,
        prompt_w: 40,
        input_w: 100,
        has_left_command: false,
        has_right_command: false,
        commented: false,
        password: false,
        toast: false,
        text_len: 3,
        has_placeholder: false,
        before_cursor_w: 20,
        after_cursor_w: 0,
        item_widths: vec![50, 1000],
        curr: Some(1),
        next: None,
        matches: 3,
    }
}

#[test]
fn the_bar_cuts_items_at_the_counter() {
    let r = menu_layout(&bar());
    assert_eq!(r.prompt, Some((0, 40, 20)));
    assert_eq!((r.input_x, r.input_w, r.text_x), (40, 100, 40));
    assert_eq!(r.input_text, InputText::Typed);
    assert_eq!(r.cursor, Some((63, 6, 2, 8)));
    assert_eq!(r.left_arrow, Some(140));
    assert_eq!(
        r.items,
        vec![ItemBox { x: 150, y: 0, w: 58 }, ItemBox { x: 208, y: 0, w: 252 }]
    );
    assert_eq!(r.right_arrow, None);
    assert_eq!(r.counter, Some(470));
    assert_eq!((r.left_command, r.right_command), (None, None));
}

#[test]
fn the_grid_fills_columns_top_to_bottom() {
    let l = LayoutInput {
        lines: 2,
        columns: 2,
        prompt_w: 0,
        menu_w: 400,
        curr: Some(0),
        next: None,
        matches: 3,
        has_left_command: true,
        has_right_command: true,
        before_cursor_w: 0,
        text_len: 0,
        has_placeholder: true,
        ..bar()
    };
    let r = menu_layout(&l);
    assert_eq!(r.prompt, None);
    assert_eq!((r.input_x, r.input_w), (0, 400));
    assert_eq!(r.input_text, InputText::Placeholder);
    assert_eq!(
        r.items,
        vec![
            ItemBox { x: 0, y: 20, w: 200 },
            ItemBox { x: 0, y: 40, w: 200 },
            ItemBox { x: 200, y: 20, w: 200 },
        ]
    );
    assert_eq!(r.counter, Some(360));
    assert_eq!((r.left_command, r.right_command), (Some(0), Some(390)));
    assert_eq!(r.cursor, Some((13, 6, 2, 8)));
    let secret = LayoutInput { password: true, text_len: 4, ..l };
    let r = menu_layout(&secret);
    assert_eq!(r.input_text, InputText::Dots(4));
    assert_eq!(r.cursor, None);
}

#[test]
fn item_markers_pick_category_and_scheme() {
    assert_eq!(
        item_style(b">>r hi", false, false),
        ItemStyle { category: ItemCategory::ColoredComment, icon: None, label_scheme: Scheme::Red, label_invert: true }
    );
    assert_eq!(
        item_style(b">x", false, false),
        ItemStyle { category: ItemCategory::Comment, icon: None, label_scheme: Scheme::Normal, label_invert: false }
    );
    assert_eq!(
        item_style(":r \u{f011} off".as_bytes(), true, false),
        ItemStyle {
            category: ItemCategory::Icon,
            icon: Some(IconSlot { from: 3, to: 6, scheme: Scheme::Red }),
            label_scheme: Scheme::Hover,
            label_invert: true,
        }
    );
    assert_eq!(
        item_style(b":r x", false, false),
        ItemStyle {
            category: ItemCategory::Icon,
            icon: Some(IconSlot { from: 3, to: 3, scheme: Scheme::Normal }),
            label_scheme: Scheme::Normal,
            label_invert: false,
        }
    );
    assert_eq!(item_style(b":q", true, false).label_scheme, Scheme::Selected);
    assert_eq!(item_style(b":q", true, false).category, ItemCategory::Normal);
    assert_eq!(item_style(b"plain", false, true).label_scheme, Scheme::Output);
    assert_eq!(item_style(b"plain", true, true).label_scheme, Scheme::Selected);
}
