//! `itest`: the file test that feeds the menu lists of paths. Which tests
//! are asked for, how the arguments spell them, and whether a path passes
//! them, decided over facts gathered about the path.
use vstd::prelude::*;

use crate::text::{chars_of, string_of};

verus! {

/// POSIX file mode bits.
pub const S_IFMT: u32 = 0o170000;
pub const S_IFBLK: u32 = 0o060000;
pub const S_IFCHR: u32 = 0o020000;
pub const S_IFIFO: u32 = 0o010000;
pub const S_IFLNK: u32 = 0o120000;
pub const S_ISGID: u32 = 0o2000;
pub const S_ISUID: u32 = 0o4000;

/// The tests asked for, one per option letter, and the reference times of
/// `-n` and `-o`.
#[derive(Debug, Clone, Copy, PartialEq, Eq, Structural)]
pub struct Flags {
    /// -a: include hidden files
    pub all: bool,
    /// -b: block special
    pub block: bool,
    /// -c: character special
    pub character: bool,
    /// -d: directory
    pub directory: bool,
    /// -e: exists
    pub exists: bool,
    /// -f: regular file
    pub regular: bool,
    /// -g: set-group-id flag
    pub set_group_id: bool,
    /// -h: symbolic link
    pub symlink: bool,
    /// -l: test a directory's contents
    pub list_dir: bool,
    /// -n: newer than the reference file
    pub newer: bool,
    /// -o: older than the reference file
    pub older: bool,
    /// -p: named pipe
    pub pipe: bool,
    /// -q: quit on the first match
    pub quiet: bool,
    /// -r: readable
    pub readable: bool,
    /// -s: not empty
    pub not_empty: bool,
    /// -u: set-user-id flag
    pub set_user_id: bool,
    /// -v: invert the result
    pub invert: bool,
    /// -w: writable
    pub writable: bool,
    /// -x: executable
    pub executable: bool,
    /// mtime of the `-n` reference
    pub new_mtime: Option<i64>,
    /// mtime of the `-o` reference
    pub old_mtime: Option<i64>,
}

impl Default for Flags {
    fn default() -> (f: Self)
        ensures
            f == no_flags(),
    {
        Flags {
            all: false,
            block: false,
            character: false,
            directory: false,
            exists: false,
            regular: false,
            set_group_id: false,
            symlink: false,
            list_dir: false,
            newer: false,
            older: false,
            pipe: false,
            quiet: false,
            readable: false,
            not_empty: false,
            set_user_id: false,
            invert: false,
            writable: false,
            executable: false,
            new_mtime: None,
            old_mtime: None,
        }
    }
}

pub open spec fn no_flags() -> Flags {
    Flags {
        all: false,
        block: false,
        character: false,
        directory: false,
        exists: false,
        regular: false,
        set_group_id: false,
        symlink: false,
        list_dir: false,
        newer: false,
        older: false,
        pipe: false,
        quiet: false,
        readable: false,
        not_empty: false,
        set_user_id: false,
        invert: false,
        writable: false,
        executable: false,
        new_mtime: None,
        old_mtime: None,
    }
}

/// The flags with option letter `flag` turned on, or `None` for a letter
/// that names no plain test (`n` and `o` take a file and are not set this
/// way).
pub open spec fn with_flag(f: Flags, flag: u8) -> Option<Flags> {
    if flag == 0x61 {
        Some(Flags { all: true, ..f })
    } else if flag == 0x62 {
        Some(Flags { block: true, ..f })
    } else if flag == 0x63 {
        Some(Flags { character: true, ..f })
    } else if flag == 0x64 {
        Some(Flags { directory: true, ..f })
    } else if flag == 0x65 {
        Some(Flags { exists: true, ..f })
    } else if flag == 0x66 {
        Some(Flags { regular: true, ..f })
    } else if flag == 0x67 {
        Some(Flags { set_group_id: true, ..f })
    } else if flag == 0x68 {
        Some(Flags { symlink: true, ..f })
    } else if flag == 0x6c {
        Some(Flags { list_dir: true, ..f })
    } else if flag == 0x70 {
        Some(Flags { pipe: true, ..f })
    } else if flag == 0x71 {
        Some(Flags { quiet: true, ..f })
    } else if flag == 0x72 {
        Some(Flags { readable: true, ..f })
    } else if flag == 0x73 {
        Some(Flags { not_empty: true, ..f })
    } else if flag == 0x75 {
        Some(Flags { set_user_id: true, ..f })
    } else if flag == 0x76 {
        Some(Flags { invert: true, ..f })
    } else if flag == 0x77 {
        Some(Flags { writable: true, ..f })
    } else if flag == 0x78 {
        Some(Flags { executable: true, ..f })
    } else {
        None
    }
}

fn flag_applied(f: Flags, flag: u8) -> (r: Option<Flags>)
    ensures
        r == with_flag(f, flag),
{
        if flag == 0x61 {
            Some(Flags { all: true, ..f })
        } else if flag == 0x62 {
            Some(Flags { block: true, ..f })
        } else if flag == 0x63 {
            Some(Flags { character: true, ..f })
        } else if flag == 0x64 {
            Some(Flags { directory: true, ..f })
        } else if flag == 0x65 {
            Some(Flags { exists: true, ..f })
        } else if flag == 0x66 {
            Some(Flags { regular: true, ..f })
        } else if flag == 0x67 {
            Some(Flags { set_group_id: true, ..f })
        } else if flag == 0x68 {
            Some(Flags { symlink: true, ..f })
        } else if flag == 0x6c {
            Some(Flags { list_dir: true, ..f })
        } else if flag == 0x70 {
            Some(Flags { pipe: true, ..f })
        } else if flag == 0x71 {
            Some(Flags { quiet: true, ..f })
        } else if flag == 0x72 {
            Some(Flags { readable: true, ..f })
        } else if flag == 0x73 {
            Some(Flags { not_empty: true, ..f })
        } else if flag == 0x75 {
            Some(Flags { set_user_id: true, ..f })
        } else if flag == 0x76 {
            Some(Flags { invert: true, ..f })
        } else if flag == 0x77 {
            Some(Flags { writable: true, ..f })
        } else if flag == 0x78 {
            Some(Flags { executable: true, ..f })
        } else {
            None
        }
}

impl Flags {
    /// Turns on the test named by option letter `flag`; `Err` (and no
    /// change) for an unknown letter.
    pub fn set(&mut self, flag: u8) -> (r: Result<(), ()>)
        ensures
            match with_flag(*old(self), flag) {
                Some(f) => r is Ok && *final(self) == f,
                None => r is Err && *final(self) == *old(self),
            },
    {
        match flag_applied(*self, flag) {
            Some(f) => {
                *self = f;
                Ok(())
            },
            None => Err(()),
        }
    }
}

/// What `stat` tells about a path.
#[derive(Debug, Clone, Copy, PartialEq, Eq, Structural)]
pub struct StatFacts {
    pub mode: u32,
    pub is_dir: bool,
    pub is_file: bool,
    pub len: u64,
    /// Modification time in seconds since the epoch (0 when unknown).
    pub mtime: i64,
}

/// What is known of a path: its `stat` (when that succeeded), the mode
/// `lstat` gives (when that succeeded), and the `access` checks.
#[derive(Debug, Clone, Copy, PartialEq, Eq, Structural)]
pub struct PathFacts {
    pub stat: Option<StatFacts>,
    pub link_mode: Option<u32>,
    pub exists: bool,
    pub readable: bool,
    pub writable: bool,
    pub executable: bool,
}

pub open spec fn file_type(mode: u32) -> u32 {
    mode & S_IFMT
}

/// Whether a path named `name` passes every test asked for: a failed
/// `stat` fails the path; hidden names (leading `.`) pass only with `-a`.
pub open spec fn spec_passes(f: Flags, hidden: bool, p: PathFacts) -> bool {
    let stat_ok = match p.stat {
        Some(st) => {
            &&& (f.all || !hidden)
            &&& (f.block ==> file_type(st.mode) == S_IFBLK)
            &&& (f.character ==> file_type(st.mode) == S_IFCHR)
            &&& (f.directory ==> st.is_dir)
            &&& (f.regular ==> st.is_file)
            &&& (f.set_group_id ==> st.mode & S_ISGID != 0)
            &&& (f.newer ==> (f.new_mtime matches Some(t) && st.mtime > t))
            &&& (f.older ==> (f.old_mtime matches Some(t) && st.mtime < t))
            &&& (f.pipe ==> file_type(st.mode) == S_IFIFO)
            &&& (f.not_empty ==> st.len > 0)
            &&& (f.set_user_id ==> st.mode & S_ISUID != 0)
        },
        None => false,
    };
    &&& stat_ok
    &&& (f.exists ==> p.exists)
    &&& (f.symlink ==> (p.link_mode matches Some(m) && file_type(m) == S_IFLNK))
    &&& (f.readable ==> p.readable)
    &&& (f.writable ==> p.writable)
    &&& (f.executable ==> p.executable)
}

/// Whether the path is listed: it passes the tests, or fails them under
/// `-v`.
pub fn selected(f: &Flags, name: &str, p: &PathFacts) -> (r: bool)
    ensures
        r == (spec_passes(*f, name@.len() > 0 && name@[0] == '.', *p) != f.invert),
{
    let cs = chars_of(name);
    let hidden = cs.len() > 0 && cs[0] == '.';
    let mut result = true;
    match p.stat {
        Some(st) => {
            result = result && (f.all || !hidden);
            if f.block {
                result = result && (st.mode & S_IFMT) == S_IFBLK;
            }
            if f.character {
                result = result && (st.mode & S_IFMT) == S_IFCHR;
            }
            if f.directory {
                result = result && st.is_dir;
            }
            if f.regular {
                result = result && st.is_file;
            }
            if f.set_group_id {
                result = result && (st.mode & S_ISGID) != 0;
            }
            if f.newer {
                result = result && match f.new_mtime {
                    Some(t) => st.mtime > t,
                    None => false,
                };
            }
            if f.older {
                result = result && match f.old_mtime {
                    Some(t) => st.mtime < t,
                    None => false,
                };
            }
            if f.pipe {
                result = result && (st.mode & S_IFMT) == S_IFIFO;
            }
            if f.not_empty {
                result = result && st.len > 0;
            }
            if f.set_user_id {
                result = result && (st.mode & S_ISUID) != 0;
            }
        },
        None => {
            result = false;
        },
    }
    if f.exists {
        result = result && p.exists;
    }
    if f.symlink {
        result = result && match p.link_mode {
            Some(m) => (m & S_IFMT) == S_IFLNK,
            None => false,
        };
    }
    if f.readable {
        result = result && p.readable;
    }
    if f.writable {
        result = result && p.writable;
    }
    if f.executable {
        result = result && p.executable;
    }
    result != f.invert
}


/// One step of `itest`'s command line, in the order the arguments give
/// them.
#[derive(Debug, Clone, PartialEq, Eq)]
pub enum ItestArg {
    /// A test letter (`-abc` gives three).
    Flag(u8),
    /// `-n FILE`: newer than the reference file.
    Newer(String),
    /// `-o FILE`: older than the reference file.
    Older(String),
    /// A path to test.
    File(String),
    /// An unknown letter, or `-n`/`-o` without a file: print the usage.
    Usage,
}

/// The kind, letter and text of an argument step (kinds in declaration
/// order: flag, newer, older, file, usage).
pub open spec fn arg_view(a: ItestArg) -> (int, u8, Seq<char>) {
    match a {
        ItestArg::Flag(c) => (0, c, Seq::empty()),
        ItestArg::Newer(f) => (1, 0, f@),
        ItestArg::Older(f) => (2, 0, f@),
        ItestArg::File(f) => (3, 0, f@),
        ItestArg::Usage => (4, 0, Seq::empty()),
    }
}

pub open spec fn args_view(v: Seq<ItestArg>) -> Seq<(int, u8, Seq<char>)> {
    v.map_values(|a: ItestArg| arg_view(a))
}

/// Whether `c` is a plain test letter.
pub open spec fn is_test_letter(c: char) -> bool {
    (c as u32) < 128 && with_flag(no_flags(), c as u8) is Some
}

/// The steps a cluster of option letters (`rest`, after the `-`) spells,
/// whether it took the following argument as a file, and whether it ends
/// in the usage message. A letter `n` or `o` takes the rest of the
/// cluster as its file, or the next argument when nothing follows it.
pub open spec fn cluster_steps(rest: Seq<char>, next: Option<Seq<char>>) -> (
    Seq<(int, u8, Seq<char>)>,
    bool,
    bool,
)
    decreases rest.len(),
{
    if rest.len() == 0 {
        (Seq::empty(), false, false)
    } else {
        let c = rest[0];
        let tail = rest.skip(1);
        if c == 'n' || c == 'o' {
            let kind = if c == 'n' {
                1int
            } else {
                2int
            };
            if tail.len() == 0 {
                match next {
                    Some(f) => (seq![(kind, 0u8, f)], true, false),
                    None => (seq![(4int, 0u8, Seq::empty())], false, true),
                }
            } else {
                (seq![(kind, 0u8, tail)], false, false)
            }
        } else if is_test_letter(c) {
            let (e, taken, usage) = cluster_steps(tail, next);
            (seq![(0int, c as u8, Seq::<char>::empty())] + e, taken, usage)
        } else {
            (seq![(4int, 0u8, Seq::empty())], false, true)
        }
    }
}

/// The steps of the arguments from `i` on; the usage message ends them.
pub open spec fn arg_steps(args: Seq<Seq<char>>, i: int) -> Seq<(int, u8, Seq<char>)>
    decreases args.len() + 1 - i,
{
    if i < 0 || i >= args.len() {
        Seq::empty()
    } else {
        let a = args[i];
        if a.len() > 0 && a[0] == '-' {
            let next = if i + 1 < args.len() {
                Some(args[i + 1])
            } else {
                None
            };
            let (e, taken, usage) = cluster_steps(a.skip(1), next);
            if usage {
                e
            } else {
                e + arg_steps(
                    args,
                    if taken {
                        i + 2
                    } else {
                        i + 1
                    },
                )
            }
        } else {
            seq![(3int, 0u8, a)] + arg_steps(args, i + 1)
        }
    }
}

fn test_letter(c: char) -> (r: Option<u8>)
    ensures
        is_test_letter(c) ==> r == Some(c as u8),
        !is_test_letter(c) ==> r is None,
{
    if (c as u32) < 128 {
        let b = c as u8;
        match flag_applied(Flags::default(), b) {
            Some(_) => Some(b),
            None => None,
        }
    } else {
        None
    }
}

fn push_cluster(a: &Vec<char>, next: Option<&String>, out: &mut Vec<ItestArg>) -> (r: (bool, bool))
    requires
        a@.len() >= 1,
    ensures
        ({
            let next_view = match next {
                Some(f) => Some(f@),
                None => None,
            };
            let steps = cluster_steps(a@.skip(1), next_view);
            args_view(final(out)@) == args_view(old(out)@) + steps.0 && r == (steps.1, steps.2)
        }),
        r.0 ==> next is Some,
{
    let ghost next_view = match next {
        Some(f) => Some(f@),
        None => None::<Seq<char>>,
    };
    let ghost whole = cluster_steps(a@.skip(1), next_view);
    let ghost base = args_view(out@);
    let mut j: usize = 1;
    let mut taken = false;
    let mut usage = false;
    let mut done = false;
    while j < a.len() && !done
        invariant
            1 <= j <= a@.len(),
            taken ==> next is Some,
            !done ==> !taken && !usage && args_view(out@) + cluster_steps(a@.skip(j as int), next_view).0
                == base + whole.0 && cluster_steps(a@.skip(j as int), next_view).1 == whole.1
                && cluster_steps(a@.skip(j as int), next_view).2 == whole.2,
            done ==> args_view(out@) == base + whole.0 && taken == whole.1 && usage == whole.2,
            next_view == match next {
                Some(f) => Some(f@),
                None => None::<Seq<char>>,
            },
        decreases a.len() - j + if done { 0int } else { 1int },
    {
        let c = a[j];
        let ghost rest = a@.skip(j as int);
        assert(rest[0] == c);
        assert(rest.skip(1) =~= a@.skip(j + 1));
        let ghost before = args_view(out@);
        if c == 'n' || c == 'o' {
            let file = if j + 1 == a.len() {
                match next {
                    Some(f) => {
                        taken = true;
                        Some(f.clone())
                    },
                    None => None,
                }
            } else {
                Some(string_of(a, j + 1, a.len()))
            };
            match file {
                Some(f) => {
                    if c == 'n' {
                        out.push(ItestArg::Newer(f));
                    } else {
                        out.push(ItestArg::Older(f));
                    }
                },
                None => {
                    out.push(ItestArg::Usage);
                    usage = true;
                },
            }
            done = true;
            assert(args_view(out@) =~= before + cluster_steps(rest, next_view).0);
        } else {
            match test_letter(c) {
                Some(b) => {
                    out.push(ItestArg::Flag(b));
                    assert(args_view(out@) =~= before.push((0int, c as u8, Seq::<char>::empty())));
                },
                None => {
                    out.push(ItestArg::Usage);
                    usage = true;
                    done = true;
                    assert(args_view(out@) =~= before + cluster_steps(rest, next_view).0);
                },
            }
            j += 1;
        }
    }
    if !done {
        assert(a@.skip(j as int).len() == 0);
        assert(args_view(out@) =~= base + whole.0);
    }
    (taken, usage)
}

/// Splits `itest`'s arguments into steps.
pub fn parse_args(args: &Vec<String>) -> (r: Vec<ItestArg>)
    ensures
        args_view(r@) == arg_steps(args@.map_values(|a: String| a@), 0),
{
    let ghost views = args@.map_values(|a: String| a@);
    let n = args.len();
    let mut out: Vec<ItestArg> = Vec::new();
    let mut i: usize = 0;
    let mut stop = false;
    while i < n && !stop
        invariant
            n == args@.len(),
            views == args@.map_values(|a: String| a@),
            i <= n + 1,
            stop ==> args_view(out@) == arg_steps(views, 0),
            !stop ==> args_view(out@) + arg_steps(views, i as int) == arg_steps(views, 0),
        decreases n + 1 - i + if stop { 0int } else { 1int },
    {
        let a = chars_of(args[i].as_str());
        assert(a@ == views[i as int]);
        let ghost before = args_view(out@);
        if a.len() > 0 && a[0] == '-' {
            let next = if i + 1 < n {
                Some(&args[i + 1])
            } else {
                None
            };
            let (taken, usage) = push_cluster(&a, next, &mut out);
            if usage {
                stop = true;
            } else if taken {
                i = i + 2;
            } else {
                i = i + 1;
            }
        } else {
            out.push(ItestArg::File(args[i].clone()));
            assert(args_view(out@) =~= before.push((3int, 0u8, views[i as int])));
            i += 1;
        }
    }
    if !stop {
        assert(arg_steps(views, i as int).len() == 0);
        assert(args_view(out@) =~= arg_steps(views, 0));
    }
    out
}

} // verus!
