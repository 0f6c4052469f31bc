use instantmenu::backend::MonitorInfo;
use instantmenu::enums::{Direction, EditOp, Side};
use instantmenu::geom::Rect;
use instantmenu::menu::{
    command_for, cut_left, cut_right, cut_word, delete_back, delete_forward, first_line,
    hovered_row, item_width,
    contains, contains_ascii_upper, dmenu_matches, edit, eq_n, fuzzy_matches, fuzzy_span,
    intersect_area, is_delimiter, match_counter, next_rune, safe_slice, split_tokens, sym_eq,
    word_edge, Nav, Pager, TEXT_MAX,
};

fn items(v: &[&str]) -> Vec<String> {
    v.iter().map(|s| s.to_string()).collect()
}

fn fresh(widths: &[i32], budget: i32) -> Pager {
    let mut p = Pager {
        sel: None,
        curr: None,
        next: None,
        prev: 0,
    };
    p.reset(widths, budget);
    p
}

#[test]
fn cursor_motion_skips_continuation_bytes() {
    let text = "aé b".as_bytes();
    assert_eq!(next_rune(text, 1, Direction::Forward), 3);
    assert_eq!(next_rune(text, 3, Direction::Backward), 1);
    assert_eq!(next_rune(text, 0, Direction::Backward), 0);
    assert_eq!(next_rune(text, 5, Direction::Forward), 6);
}

#[test]
fn word_edges_skip_delimiters_then_the_word() {
    let text = "foo bar  baz".as_bytes();
    assert_eq!(word_edge(text, 12, b" ", Direction::Backward), 9);
    assert_eq!(word_edge(text, 9, b" ", Direction::Backward), 4);
    assert_eq!(word_edge(text, 3, b" ", Direction::Forward), 7);
    assert_eq!(word_edge(text, 7, b" ", Direction::Forward), 12);
    assert!(is_delimiter(text, 3, b" "));
    assert!(!is_delimiter(text, 12, b" "));
}

#[test]
fn edits_insert_and_delete_at_the_cursor() {
    assert_eq!(
        edit(b"foobar", 3, EditOp::Insert("XY")),
        Some((b"fooXYbar".to_vec(), 5))
    );
    assert_eq!(
        edit(b"fooXYbar", 5, EditOp::Delete(2)),
        Some((b"foobar".to_vec(), 3))
    );
    assert_eq!(
        edit(b"foobar", 2, EditOp::Delete(10)),
        Some((b"obar".to_vec(), 0))
    );
    let full = vec![b'a'; TEXT_MAX];
    assert_eq!(edit(&full, 0, EditOp::Insert("x")), None);
    assert_eq!(
        edit(&full, TEXT_MAX, EditOp::Delete(1)),
        Some((vec![b'a'; TEXT_MAX - 1], TEXT_MAX - 1))
    );
    assert!(contains_ascii_upper(b"abC"));
    assert!(!contains_ascii_upper("abcé".as_bytes()));
}

#[test]
fn strncmp_stops_at_the_first_nul() {
    assert!(!eq_n(b"abc", b"abcd", 4, false));
    assert!(eq_n(b"abc", b"abc", 4, false));
    assert!(eq_n(b"ABC", b"abc", 3, true));
    assert!(!eq_n(b"ABC", b"abc", 3, false));
    assert!(eq_n(b"ab", b"abX", 2, false));
}

#[test]
fn substring_search_folds_case_on_request() {
    assert!(contains("Hello World", "o w", true));
    assert!(!contains("Hello World", "o w", false));
    assert!(contains("anything", "", false));
    assert_eq!(split_tokens("  foo  bar "), items(&["foo", "bar"]));
    assert!(split_tokens("   ").is_empty());
}

#[test]
fn dmenu_ranks_exact_then_prefix_then_substring() {
    let list = items(&["foo", "foobar", "barfoo", "baz"]);
    assert_eq!(dmenu_matches(&list, "foo", false, true), (vec![0, 1, 2], true));
    assert_eq!(dmenu_matches(&list, "foo", false, false), (vec![0, 1], false));
    assert_eq!(dmenu_matches(&list, "", false, true), (vec![0, 1, 2, 3], false));
    assert_eq!(dmenu_matches(&list, "foo bar", false, true), (vec![1, 2], true));
    assert_eq!(dmenu_matches(&list, "FOO", true, true), (vec![0, 1, 2], true));
    assert_eq!(dmenu_matches(&list, "FOO", false, true), (vec![], false));
}

#[test]
fn fuzzy_spans_follow_the_greedy_subsequence() {
    assert_eq!(fuzzy_span(b"fb", b"foobar", false), Some((0, 3)));
    assert_eq!(fuzzy_span(b"FB", b"foobar", true), Some((0, 3)));
    assert_eq!(fuzzy_span(b"FB", b"foobar", false), None);
    assert_eq!(fuzzy_span(b"zz", b"foobar", false), None);
    assert_eq!(fuzzy_span(b"", b"x", false), None);
    let list = items(&["foobar", "xyz", "fab"]);
    assert_eq!(
        fuzzy_matches(&list, "fb", false),
        vec![(0, Some((0, 3))), (2, Some((0, 2)))]
    );
    assert_eq!(
        fuzzy_matches(&list, "", false),
        vec![(0, None), (1, None), (2, None)]
    );
}

#[test]
fn pages_hold_what_fits_the_budget() {
    let w = [10, 10, 10, 10, 10];
    let mut p = fresh(&w, 25);
    assert_eq!((p.sel, p.curr, p.next, p.prev), (Some(0), Some(0), Some(2), 0));
    p.navigate(Nav::Down, &w, 25);
    assert_eq!((p.sel, p.curr, p.next), (Some(1), Some(0), Some(2)));
    p.navigate(Nav::Down, &w, 25);
    assert_eq!((p.sel, p.curr, p.next, p.prev), (Some(2), Some(2), Some(4), 0));
    p.navigate(Nav::Up, &w, 25);
    assert_eq!((p.sel, p.curr, p.next, p.prev), (Some(1), Some(0), Some(2), 0));
    p.navigate(Nav::End, &w, 25);
    assert_eq!((p.sel, p.curr, p.next, p.prev), (Some(4), Some(3), None, 1));
    p.navigate(Nav::PageUp, &w, 25);
    assert_eq!((p.sel, p.curr, p.next, p.prev), (Some(1), Some(1), Some(3), 0));
    p.navigate(Nav::Select(1), &w, 25);
    assert_eq!(p.sel, Some(2));
    p.navigate(Nav::PageDown, &w, 25);
    assert_eq!((p.sel, p.curr, p.next), (Some(3), Some(3), None));
    p.navigate(Nav::Home, &w, 25);
    assert_eq!((p.sel, p.curr, p.next), (Some(0), Some(0), Some(2)));
}

#[test]
fn tab_wraps_and_grids_move_by_columns() {
    let w = [10, 10, 10, 10, 10];
    let mut p = fresh(&w, 25);
    p.grid_move(Direction::Forward, 2, &w, 25);
    assert_eq!((p.sel, p.curr, p.next, p.prev), (Some(2), Some(2), Some(4), 0));
    p.grid_move(Direction::Forward, 3, &w, 25);
    assert_eq!(p.sel, Some(2), "past the last match: no move");
    p.grid_move(Direction::Backward, 2, &w, 25);
    assert_eq!((p.sel, p.curr), (Some(0), Some(0)));
    p.tab_backward(&w, 25);
    assert_eq!((p.sel, p.curr), (Some(4), Some(0)));
    p.navigate(Nav::TabForward, &w, 25);
    assert_eq!((p.sel, p.curr), (Some(0), Some(0)));
}

#[test]
fn an_empty_list_has_no_selection() {
    let mut p = fresh(&[], 100);
    assert_eq!((p.sel, p.curr, p.next, p.prev), (None, None, None, 0));
    p.navigate(Nav::Down, &[], 100);
    p.navigate(Nav::End, &[], 100);
    assert_eq!((p.sel, p.curr), (None, None));
}

#[test]
fn the_counter_shows_matches_of_items() {
    assert_eq!(match_counter(5, 10, false, 0), (true, Some("5/10".to_string())));
    assert_eq!(match_counter(1, 10, false, 0), (false, Some("1/10".to_string())));
    assert_eq!(match_counter(3, 10, false, 5), (false, Some("3/10".to_string())));
    assert_eq!(match_counter(6, 10, false, 5), (true, Some("6/10".to_string())));
    assert_eq!(match_counter(5, 10, true, 0), (false, None));
}

#[test]
fn helpers_measure_compare_and_slice() {
    let mon = MonitorInfo {
        rect: Rect::new(50, 50, 100, 100),
        name: "DP-1".to_string(),
    };
    assert_eq!(intersect_area(0, 0, 100, 100, &mon), 2500);
    assert_eq!(intersect_area(200, 200, 10, 10, &mon), 0);
    assert!(sym_eq(0xff0d, 0xff0d));
    assert!(!sym_eq(0xff0d, 0xff8d));
    assert_eq!(safe_slice("héllo", 0, 2), "");
    assert_eq!(safe_slice("héllo", 0, 3), "hé");
    assert_eq!(safe_slice("abc", 1, 10), "bc");
    assert_eq!(safe_slice("abc", 2, 1), "");
    assert_eq!(safe_slice("abc", 4, 5), "");
}

#[test]
fn key_edits_cut_around_the_cursor() {
    let text = "foo bär".as_bytes();
    assert_eq!(delete_back(text, 8), Some(("foo bä".as_bytes().to_vec(), 7)));
    assert_eq!(delete_back(text, 7), Some(("foo br".as_bytes().to_vec(), 5)));
    assert_eq!(delete_back(b"abc", 0), Some((b"abc".to_vec(), 0)));
    assert_eq!(delete_forward(text, 5), Some(("foo br".as_bytes().to_vec(), 5)));
    assert_eq!(cut_left(text, 4), Some(("bär".as_bytes().to_vec(), 0)));
    assert_eq!(cut_right(text, 3), b"foo".to_vec());
    assert_eq!(cut_word(b"foo bar  ", 9, b" "), Some((b"foo ".to_vec(), 4)));
}

#[test]
fn scrolling_and_hovering_follow_the_page() {
    let w = [10, 10, 10, 10, 10];
    let mut p = fresh(&w, 25);
    assert!(!p.scroll_up(&w, 25));
    p.navigate(Nav::PageDown, &w, 25);
    assert_eq!((p.sel, p.curr, p.prev), (Some(2), Some(2), 0));
    assert!(p.scroll_up(&w, 25));
    assert_eq!((p.sel, p.curr, p.next), (Some(2), Some(0), Some(2)));
    assert_eq!(hovered_row(Some(3), Some(6), 10, 20, 25), Some(3));
    assert_eq!(hovered_row(Some(3), Some(6), 10, 20, 45), Some(4));
    assert_eq!(hovered_row(Some(3), Some(6), 10, 20, 75), Some(5));
    assert_eq!(hovered_row(Some(3), Some(6), 10, 20, 90), None);
    assert_eq!(hovered_row(Some(3), None, 4, 20, 45), None);
    assert_eq!(hovered_row(None, None, 4, 20, 25), None);
    assert_eq!(hovered_row(Some(0), None, 4, 20, 10), None);
}

#[test]
fn commands_pastes_and_widths() {
    let left = Some("left".to_string());
    let right = Some("right".to_string());
    assert_eq!(command_for(Side::Left, &left, &right), left);
    assert_eq!(command_for(Side::Right, &left, &right), right);
    assert_eq!(command_for(Side::Right, &left, &None), left);
    assert_eq!(command_for(Side::Left, &None, &None), None);
    assert_eq!(first_line(b"one\ntwo"), b"one".to_vec());
    assert_eq!(first_line(b"single"), b"single".to_vec());
    assert_eq!(first_line(b"\nx"), Vec::<u8>::new());
    assert_eq!(item_width(true, 30, 100, 50, 10), 30);
    assert_eq!(item_width(false, 30, 0, 50, 10), 0);
    assert_eq!(item_width(false, 30, -1, 50, 10), 60);
    assert_eq!(item_width(false, 30, 100, 50, 10), 60);
    assert_eq!(item_width(false, 30, 55, 50, 10), 55);
}
