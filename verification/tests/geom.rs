use instantmenu::color::{parse_hex_color, Color};
use instantmenu::geom::{Point, Rect, Size};

#[test]
fn rectangles_measure_and_contain() {
    let r = Rect::new(10, 20, 100, 50);
    assert_eq!(r.right(), 110);
    assert_eq!(r.bottom(), 70);
    assert_eq!(r.origin(), Point::new(10, 20));
    assert_eq!(r.size(), Size::new(100, 50));
    assert_eq!(Rect::with_size(Size::new(3, 4)), Rect::new(0, 0, 3, 4));
    assert!(r.contains(Point::new(110, 70)));
    assert!(!r.contains_exclusive(Point::new(110, 70)));
    assert!(r.contains_exclusive(Point::new(10, 20)));
    assert_eq!(r.intersect_area(Rect::new(60, 45, 100, 100)), 50 * 25);
    assert_eq!(r.intersect_area(Rect::new(500, 500, 1, 1)), 0);
    assert_eq!(Point::new(-3, 4).clamp_non_negative(), Point::new(0, 4));
}

#[test]
fn colors_parse_from_hex() {
    assert_eq!(parse_hex_color("#010203"), Some(Color::hex(0x010203)));
    assert_eq!(parse_hex_color("#fff"), Some(Color::rgb(255, 255, 255)));
    assert_eq!(parse_hex_color("010203"), None);
    assert_eq!(parse_hex_color("#12345"), None);
    assert_eq!(parse_hex_color("#gg0000"), None);
    let c = Color::hex(0x123456);
    assert_eq!((c.r(), c.g(), c.b(), c.a()), (0x12, 0x34, 0x56, 255));
}
