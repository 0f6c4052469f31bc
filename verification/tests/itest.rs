use instantmenu::itest::{parse_args, selected, Flags, ItestArg, PathFacts, StatFacts};

const DIR_MODE: u32 = 0o040755;
const FILE_MODE: u32 = 0o100644;
const SETUID_FILE_MODE: u32 = 0o104755;
const FIFO_MODE: u32 = 0o010644;
const LINK_MODE: u32 = 0o120777;

fn facts(mode: u32, len: u64, mtime: i64) -> PathFacts {
    PathFacts {
        stat: Some(StatFacts {
            mode,
            is_dir: mode & 0o170000 == 0o040000,
            is_file: mode & 0o170000 == 0o100000,
            len,
            mtime,
        }),
        link_mode: Some(mode),
        exists: true,
        readable: true,
        writable: false,
        executable: mode & 0o111 != 0,
    }
}

fn flags(letters: &str) -> Flags {
    let mut f = Flags::default();
    for b in letters.bytes() {
        f.set(b).unwrap();
    }
    f
}

fn args(v: &[&str]) -> Vec<String> {
    v.iter().map(|s| s.to_string()).collect()
}

#[test]
fn letters_set_their_tests() {
    let mut f = Flags::default();
    assert_eq!(f.set(b'd'), Ok(()));
    assert_eq!(f.set(b'x'), Ok(()));
    assert!(f.directory && f.executable && !f.regular);
    assert_eq!(f.set(b'z'), Err(()));
    assert_eq!(f.set(b'n'), Err(()));
    assert_eq!(f, flags("dx"));
}

#[test]
fn paths_pass_every_requested_test() {
    let dir = facts(DIR_MODE, 4096, 100);
    let file = facts(FILE_MODE, 0, 100);
    assert!(selected(&flags("d"), "src", &dir));
    assert!(!selected(&flags("d"), "main.rs", &file));
    assert!(selected(&flags("f"), "main.rs", &file));
    assert!(!selected(&flags("fs"), "main.rs", &file), "-s wants a non-empty file");
    assert!(selected(&flags("dv"), "main.rs", &file), "-v inverts");
    assert!(!selected(&flags("w"), "src", &dir));
    assert!(selected(&flags("ux"), "su", &facts(SETUID_FILE_MODE, 1, 0)));
    assert!(selected(&flags("p"), "fifo", &facts(FIFO_MODE, 0, 0)));
    assert!(selected(&flags("h"), "link", &facts(LINK_MODE, 0, 0)));
}

#[test]
fn hidden_names_need_the_all_flag() {
    let file = facts(FILE_MODE, 1, 0);
    assert!(!selected(&flags("f"), ".profile", &file));
    assert!(selected(&flags("af"), ".profile", &file));
}

#[test]
fn a_failed_stat_fails_the_path_unless_inverted() {
    let missing = PathFacts {
        stat: None,
        link_mode: None,
        exists: false,
        readable: false,
        writable: false,
        executable: false,
    };
    assert!(!selected(&Flags::default(), "gone", &missing));
    assert!(selected(&flags("v"), "gone", &missing));
}

#[test]
fn reference_times_compare_strictly() {
    let mut f = Flags::default();
    f.newer = true;
    f.new_mtime = Some(100);
    assert!(selected(&f, "a", &facts(FILE_MODE, 1, 101)));
    assert!(!selected(&f, "a", &facts(FILE_MODE, 1, 100)));
    f.new_mtime = None;
    assert!(!selected(&f, "a", &facts(FILE_MODE, 1, 101)));
}

#[test]
fn arguments_bundle_letters_and_take_files() {
    assert_eq!(
        parse_args(&args(&["-df", "a", "-nref", "-o", "old", "b"])),
        vec![
            ItestArg::Flag(b'd'),
            ItestArg::Flag(b'f'),
            ItestArg::File("a".to_string()),
            ItestArg::Newer("ref".to_string()),
            ItestArg::Older("old".to_string()),
            ItestArg::File("b".to_string()),
        ]
    );
    assert_eq!(
        parse_args(&args(&["-dz", "a"])),
        vec![ItestArg::Flag(b'd'), ItestArg::Usage]
    );
    assert_eq!(parse_args(&args(&["a", "-n"])), vec![ItestArg::File("a".to_string()), ItestArg::Usage]);
    assert_eq!(parse_args(&args(&["-", "x"])), vec![ItestArg::File("x".to_string())]);
    assert_eq!(
        parse_args(&args(&["-ano", "x"])),
        vec![ItestArg::Flag(b'a'), ItestArg::Newer("o".to_string()), ItestArg::File("x".to_string())]
    );
}
