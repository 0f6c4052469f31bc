use instantmenu::geom::{Point, Rect};
use instantmenu::geometry::{geometry, Geometry, GeometryInput};

fn base() -> GeometryInput {
    GeometryInput {
        font_height: 16,
        line_height: 0,
        lines: 0,
        commented: false,
        prompt_w: 40,
        monitors: vec![Rect { x: 0, y: 0, w: 1920, h: 1080 }],
        root_w: 1920,
        root_h: 1080,
        monitor: -1,
        focused: None,
        pointer: None,
        centered: false,
        follow_cursor: false,
        top_bar: true,
        right_x_offset: false,
        full_height: false,
        dmw: 0,
        dmx: 0,
        dmy: 0,
        font_offset_y: 24,
        border_width: 0,
        min_width: 500,
        max_text_w: 300,
        embed_parent: None,
    }
}

#[test]
fn a_top_bar_spans_the_monitor() {
    assert_eq!(
        geometry(&base()),
        Some(Geometry { x: 0, y: 0, mw: 1920, mh: 28, bh: 28, lines: 0, prompt_w: 40, input_w: 640 })
    );
}

#[test]
fn a_centered_menu_drops_lines_that_do_not_fit() {
    let g = GeometryInput {
        lines: 10,
        monitors: vec![Rect { x: 0, y: 0, w: 1000, h: 200 }],
        root_w: 1000,
        root_h: 200,
        centered: true,
        dmw: 600,
        ..base()
    };
    assert_eq!(
        geometry(&g),
        Some(Geometry { x: 200, y: 2, mw: 600, mh: 190, bh: 28, lines: 6, prompt_w: 40, input_w: 200 })
    );
}

#[test]
fn the_pointer_picks_the_monitor() {
    let g = GeometryInput {
        monitors: vec![Rect { x: 0, y: 0, w: 1000, h: 800 }, Rect { x: 1000, y: 0, w: 800, h: 600 }],
        root_w: 1800,
        root_h: 800,
        pointer: Some(Point { x: 1200, y: 10 }),
        ..base()
    };
    let r = geometry(&g).unwrap();
    assert_eq!((r.x, r.y, r.mw), (1000, 0, 800));
    let asked = GeometryInput { monitor: 0, ..g };
    assert_eq!(geometry(&asked).unwrap().x, 0);
}

#[test]
fn an_embedded_menu_follows_the_pointer() {
    let g = GeometryInput {
        monitors: vec![],
        root_h: 1000,
        follow_cursor: true,
        pointer: Some(Point { x: 700, y: 500 }),
        embed_parent: Some((800, 600)),
        ..base()
    };
    assert_eq!(
        geometry(&g),
        Some(Geometry { x: 700, y: 500, mw: 500, mh: 28, bh: 28, lines: 0, prompt_w: 40, input_w: 166 })
    );
}

#[test]
fn without_monitors_or_a_parent_there_is_no_geometry() {
    let g = GeometryInput { monitors: vec![], ..base() };
    assert_eq!(geometry(&g), None);
}
