use instantmenu::input::{list_shape, stdin_items};

fn items(input: &[u8]) -> (Vec<Vec<u8>>, usize) {
    let (ranges, count) = stdin_items(input);
    (ranges.into_iter().map(|(a, b)| input[a..b].to_vec()).collect(), count)
}

#[test]
fn lines_lose_a_tab_stop_at_nul_and_must_be_utf8() {
    let (it, count) = items(b"a\tb\t\nc\0d\nx\xffy\nlast");
    assert_eq!(it, vec![b"a\tb".to_vec(), b"c".to_vec(), b"last".to_vec()]);
    assert_eq!(count, 4);
}

#[test]
fn a_final_newline_ends_the_input() {
    assert_eq!(items(b""), (vec![], 0));
    assert_eq!(items(b"\n"), (vec![vec![]], 1));
    assert_eq!(items(b"a\n"), (vec![b"a".to_vec()], 1));
    assert_eq!(items(b"a\n\nb"), (vec![b"a".to_vec(), vec![], b"b".to_vec()], 3));
}

#[test]
fn the_list_shape_fits_the_items() {
    assert_eq!(list_shape(10, 1, 3), (3, 1));
    assert_eq!(list_shape(5, 3, 7), (3, 3));
    assert_eq!(list_shape(2, 4, 3), (1, 3));
    assert_eq!(list_shape(0, 1, 3), (0, 1));
}
