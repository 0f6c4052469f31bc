//! The backend-independent menu core: editing the input line, matching
//! items against it, and paging through the matches.
//!
//! The input line is held as UTF-8 bytes with a byte cursor, as the menu
//! edits it: cursor motion skips continuation bytes, and edits insert or
//! delete byte runs at the cursor.
use vstd::prelude::*;

use crate::backend::MonitorInfo;
use crate::enums::{Direction, EditOp, Side};
use crate::geom::{fits_i32, Rect};
use vstd::string::StringSliceAdditionalSpecFns;
use vstd::utf8::{
    encode_utf8, encode_utf8_valid_utf8, is_char_boundary,
    is_char_boundary_iff_not_is_continuation_byte, is_char_boundary_start_end_of_seq, valid_utf8,
    valid_utf8_split,
};

use crate::icons::{contains_chars, contains_run};
use crate::text::{
    chars_of, decimal, lowercase_of, push_char, push_decimal, str_lowercase, string_of,
};

verus! {

/// The longest input line, in bytes.
pub const TEXT_MAX: usize = 8191;

/* ------------------------------ cursor motion ------------------------------ */

/// Whether `b` is a UTF-8 continuation byte (`10xxxxxx`).
pub open spec fn is_continuation(b: u8) -> bool {
    0x80 <= b < 0xc0
}

fn continuation(b: u8) -> (r: bool)
    ensures
        r == is_continuation(b),
{
    assert(((b & 0xc0) == 0x80) == (0x80 <= b && b < 0xc0)) by (bit_vector);
    (b & 0xc0) == 0x80
}

/// The first index at or after `n` that is the end of `t` or does not hold
/// a continuation byte.
pub open spec fn rune_start_after(t: Seq<u8>, n: int) -> int
    decreases t.len() - n,
{
    if n >= t.len() || !is_continuation(t[n]) {
        n
    } else {
        rune_start_after(t, n + 1)
    }
}

/// The last index at or before `n` that is the start of `t` or does not
/// hold a continuation byte.
pub open spec fn rune_start_before(t: Seq<u8>, n: int) -> int
    decreases n,
{
    if n <= 0 || n >= t.len() || !is_continuation(t[n]) {
        n
    } else {
        rune_start_before(t, n - 1)
    }
}

/// Where the cursor lands after one character in `dir`: forward past the
/// character's continuation bytes, backward to its first byte, never below
/// the start of the line.
pub open spec fn spec_next_rune(t: Seq<u8>, cursor: int, dir: Direction) -> int {
    match dir {
        Direction::Forward => rune_start_after(t, cursor + 1),
        Direction::Backward => if cursor <= 0 {
            0
        } else {
            rune_start_before(t, cursor - 1)
        },
    }
}

proof fn lemma_rune_start_after(t: Seq<u8>, n: int)
    requires
        0 <= n,
    ensures
        n <= rune_start_after(t, n),
        n <= t.len() ==> rune_start_after(t, n) <= t.len(),
    decreases t.len() - n,
{
    if n < t.len() && is_continuation(t[n]) {
        lemma_rune_start_after(t, n + 1);
    }
}

proof fn lemma_rune_start_before(t: Seq<u8>, n: int)
    requires
        0 <= n,
    ensures
        0 <= rune_start_before(t, n) <= n,
    decreases n,
{
    if 0 < n < t.len() && is_continuation(t[n]) {
        lemma_rune_start_before(t, n - 1);
    }
}

/// The cursor position one character away from `cursor` in `dir`.
pub fn next_rune(text: &[u8], cursor: usize, dir: Direction) -> (r: usize)
    requires
        cursor <= text@.len() < usize::MAX,
    ensures
        r == spec_next_rune(text@, cursor as int, dir),
        dir == Direction::Forward ==> cursor < r <= text@.len() + 1,
        dir == Direction::Forward && cursor < text@.len() ==> r <= text@.len(),
        dir == Direction::Backward ==> r <= cursor && (cursor > 0 ==> r < cursor),
{
    match dir {
        Direction::Forward => {
            let mut n = cursor + 1;
            proof {
                lemma_rune_start_after(text@, n as int);
            }
            while n < text.len() && continuation(text[n])
                invariant
                    cursor < n,
                    n <= text@.len() + 1,
                    rune_start_after(text@, cursor as int + 1) == rune_start_after(text@, n as int),
                decreases text.len() - n,
            {
                n += 1;
            }
            n
        },
        Direction::Backward => {
            if cursor == 0 {
                return 0;
            }
            let mut n = cursor - 1;
            proof {
                lemma_rune_start_before(text@, n as int);
            }
            while n > 0 && n < text.len() && continuation(text[n])
                invariant
                    n < cursor,
                    rune_start_before(text@, cursor - 1) == rune_start_before(text@, n as int),
                decreases n,
            {
                n -= 1;
            }
            n
        },
    }
}

/// Whether the byte at `pos` is one of the word delimiters.
pub open spec fn spec_is_delimiter(t: Seq<u8>, pos: int, delims: Seq<u8>) -> bool {
    0 <= pos < t.len() && delims.contains(t[pos])
}

pub fn is_delimiter(text: &[u8], pos: usize, delims: &[u8]) -> (r: bool)
    ensures
        r == spec_is_delimiter(text@, pos as int, delims@),
{
    if pos >= text.len() {
        return false;
    }
    let b = text[pos];
    let mut i: usize = 0;
    while i < delims.len()
        invariant
            i <= delims@.len(),
            pos < text@.len(),
            b == text@[pos as int],
            forall|j: int| 0 <= j < i ==> delims@[j] != b,
        decreases delims.len() - i,
    {
        if delims[i] == b {
            assert(delims@[i as int] == b);
            return true;
        }
        i += 1;
    }
    false
}

/// Moving backward: skips the characters before the cursor while their
/// first byte is (`delim`) or is not (`!delim`) a delimiter.
pub open spec fn skip_back(t: Seq<u8>, c: int, delims: Seq<u8>, delim: bool) -> int
    decreases c,
{
    if c > 0 && c <= t.len() && spec_is_delimiter(
        t,
        spec_next_rune(t, c, Direction::Backward),
        delims,
    ) == delim {
        let p = spec_next_rune(t, c, Direction::Backward);
        if 0 <= p < c {
            skip_back(t, p, delims, delim)
        } else {
            c
        }
    } else {
        c
    }
}

/// Moving forward: skips characters while the byte under the cursor is
/// (`delim`) or is not (`!delim`) a delimiter.
pub open spec fn skip_forward(t: Seq<u8>, c: int, delims: Seq<u8>, delim: bool) -> int
    decreases t.len() - c,
{
    if 0 <= c < t.len() && spec_is_delimiter(t, c, delims) == delim {
        let p = spec_next_rune(t, c, Direction::Forward);
        if c < p <= t.len() {
            skip_forward(t, p, delims, delim)
        } else {
            c
        }
    } else {
        c
    }
}

/// Where the cursor lands at the edge of a word: backward to the start of
/// the word before it (skipping delimiters first), forward to the end of
/// the word after it.
pub open spec fn spec_word_edge(t: Seq<u8>, c: int, delims: Seq<u8>, dir: Direction) -> int {
    match dir {
        Direction::Backward => skip_back(t, skip_back(t, c, delims, true), delims, false),
        Direction::Forward => skip_forward(t, skip_forward(t, c, delims, true), delims, false),
    }
}

proof fn lemma_next_rune_back_bounds(t: Seq<u8>, c: int)
    requires
        0 < c <= t.len(),
    ensures
        0 <= spec_next_rune(t, c, Direction::Backward) < c,
{
    lemma_rune_start_before(t, c - 1);
}

proof fn lemma_next_rune_forward_bounds(t: Seq<u8>, c: int)
    requires
        0 <= c < t.len(),
    ensures
        c < spec_next_rune(t, c, Direction::Forward) <= t.len(),
{
    lemma_rune_start_after(t, c + 1);
}

fn skip_back_exec(text: &[u8], cursor: usize, delims: &[u8], delim: bool) -> (r: usize)
    requires
        cursor <= text@.len() < usize::MAX,
    ensures
        r == skip_back(text@, cursor as int, delims@, delim),
        r <= cursor,
{
    let mut c = cursor;
    while c > 0 && is_delimiter(text, next_rune(text, c, Direction::Backward), delims) == delim
        invariant
            c <= cursor <= text@.len() < usize::MAX,
            skip_back(text@, cursor as int, delims@, delim) == skip_back(
                text@,
                c as int,
                delims@,
                delim,
            ),
        decreases c,
    {
        proof {
            lemma_next_rune_back_bounds(text@, c as int);
        }
        c = next_rune(text, c, Direction::Backward);
    }
    c
}

fn skip_forward_exec(text: &[u8], cursor: usize, delims: &[u8], delim: bool) -> (r: usize)
    requires
        cursor <= text@.len() < usize::MAX,
    ensures
        r == skip_forward(text@, cursor as int, delims@, delim),
        cursor <= r <= text@.len(),
{
    let mut c = cursor;
    while c < text.len() && is_delimiter(text, c, delims) == delim
        invariant
            cursor <= c <= text@.len() < usize::MAX,
            skip_forward(text@, cursor as int, delims@, delim) == skip_forward(
                text@,
                c as int,
                delims@,
                delim,
            ),
        decreases text@.len() - c,
    {
        proof {
            lemma_next_rune_forward_bounds(text@, c as int);
        }
        c = next_rune(text, c, Direction::Forward);
    }
    c
}

/// The cursor position at the word edge from `cursor` in `dir`.
pub fn word_edge(text: &[u8], cursor: usize, delims: &[u8], dir: Direction) -> (r: usize)
    requires
        cursor <= text@.len() < usize::MAX,
    ensures
        r == spec_word_edge(text@, cursor as int, delims@, dir),
        r <= text@.len(),
{
    match dir {
        Direction::Backward => {
            let c = skip_back_exec(text, cursor, delims, true);
            skip_back_exec(text, c, delims, false)
        },
        Direction::Forward => {
            let c = skip_forward_exec(text, cursor, delims, true);
            skip_forward_exec(text, c, delims, false)
        },
    }
}


/* ------------------------------ editing ------------------------------ */

/// The input line and cursor after `op` at cursor `c`, or `None` when the
/// line would grow past [`TEXT_MAX`] bytes. Deleting `n` bytes stops at the
/// start of the line.
pub open spec fn spec_edit(t: Seq<u8>, c: int, op: EditOp) -> Option<(Seq<u8>, int)> {
    match op {
        EditOp::Insert(s) => {
            let b = s.spec_bytes();
            if t.len() + b.len() > TEXT_MAX {
                None
            } else {
                Some((t.take(c) + b + t.skip(c), c + b.len()))
            }
        },
        EditOp::Delete(n) => {
            if t.len() - n > TEXT_MAX {
                None
            } else {
                let cut = if c - n < 0 {
                    0
                } else {
                    c - n
                };
                Some((t.take(cut) + t.skip(c), cut))
            }
        },
    }
}

/// Appends `src[from..to]` to `dst`.
fn extend_range(dst: &mut Vec<u8>, src: &[u8], from: usize, to: usize)
    requires
        from <= to <= src@.len(),
    ensures
        final(dst)@ == old(dst)@ + src@.subrange(from as int, to as int),
{
    let ghost d0 = dst@;
    let mut i = from;
    while i < to
        invariant
            from <= i <= to <= src@.len(),
            dst@ == d0 + src@.subrange(from as int, i as int),
        decreases to - i,
    {
        dst.push(src[i]);
        i += 1;
        assert(dst@ =~= d0 + src@.subrange(from as int, i as int));
    }
}

/// Applies `op` to the line `text` at `cursor`: the new line and cursor,
/// or `None` (the line unchanged) when it would grow past [`TEXT_MAX`].
pub fn edit(text: &[u8], cursor: usize, op: EditOp) -> (r: Option<(Vec<u8>, usize)>)
    requires
        cursor <= text@.len(),
    ensures
        match spec_edit(text@, cursor as int, op) {
            Some((t, c)) => r matches Some((v, k)) && v@ == t && k == c,
            None => r is None,
        },
{
    match op {
        EditOp::Insert(s) => {
            let b = s.as_bytes();
            if text.len() > TEXT_MAX || b.len() > TEXT_MAX - text.len() {
                return None;
            }
            let mut v: Vec<u8> = Vec::new();
            extend_range(&mut v, text, 0, cursor);
            extend_range(&mut v, b, 0, b.len());
            extend_range(&mut v, text, cursor, text.len());
            assert(text@.subrange(0, cursor as int) =~= text@.take(cursor as int));
            assert(b@.subrange(0, b@.len() as int) =~= b@);
            assert(text@.subrange(cursor as int, text@.len() as int) =~= text@.skip(cursor as int));
            Some((v, cursor + b.len()))
        },
        EditOp::Delete(n) => {
            if text.len() > n && text.len() - n > TEXT_MAX {
                return None;
            }
            let cut = if cursor < n {
                0
            } else {
                cursor - n
            };
            let mut v: Vec<u8> = Vec::new();
            extend_range(&mut v, text, 0, cut);
            extend_range(&mut v, text, cursor, text.len());
            assert(text@.subrange(0, cut as int) =~= text@.take(cut as int));
            assert(text@.subrange(cursor as int, text@.len() as int) =~= text@.skip(cursor as int));
            Some((v, cut))
        },
    }
}

/// Whether `t` holds an ASCII capital (what turns smart case sensitive).
pub open spec fn has_ascii_upper(t: Seq<u8>) -> bool {
    exists|i: int| 0 <= i < t.len() && 65 <= #[trigger] t[i] <= 90
}

pub fn contains_ascii_upper(text: &[u8]) -> (r: bool)
    ensures
        r == has_ascii_upper(text@),
{
    let mut i: usize = 0;
    while i < text.len()
        invariant
            i <= text@.len(),
            forall|j: int| 0 <= j < i ==> !(65 <= #[trigger] text@[j] <= 90),
        decreases text.len() - i,
    {
        if 65 <= text[i] && text[i] <= 90 {
            return true;
        }
        i += 1;
    }
    false
}


/* ------------------------------ matching ------------------------------ */

/// `s[i]`, or NUL past the end (how a C string reads).
pub open spec fn byte_or_nul(s: Seq<u8>, i: int) -> u8 {
    if 0 <= i < s.len() {
        s[i]
    } else {
        0
    }
}

/// `b` lowercased when matching ignores ASCII case.
pub open spec fn fold_case(b: u8, insensitive: bool) -> u8 {
    if insensitive && 65 <= b <= 90 {
        (b + 32) as u8
    } else {
        b
    }
}

/// `strncmp(a, b, n) == 0`, ASCII case folded when `insensitive`: the first
/// `n` bytes agree, up to the first NUL.
pub open spec fn spec_eq_n(a: Seq<u8>, b: Seq<u8>, n: int, insensitive: bool) -> bool {
    forall|i: int|
        0 <= i < n && (forall|j: int| 0 <= j < i ==> byte_or_nul(a, j) != 0) ==> fold_case(
            #[trigger] byte_or_nul(a, i),
            insensitive,
        ) == fold_case(byte_or_nul(b, i), insensitive)
}

fn fold(b: u8, insensitive: bool) -> (r: u8)
    ensures
        r == fold_case(b, insensitive),
{
    if insensitive && 65 <= b && b <= 90 {
        b + 32
    } else {
        b
    }
}

fn at_or_nul(s: &[u8], i: usize) -> (r: u8)
    ensures
        r == byte_or_nul(s@, i as int),
{
    if i < s.len() {
        s[i]
    } else {
        0
    }
}

/// Whether `a` and `b` agree on their first `n` bytes, C-string style.
pub fn eq_n(a: &[u8], b: &[u8], n: usize, insensitive: bool) -> (r: bool)
    ensures
        r == spec_eq_n(a@, b@, n as int, insensitive),
{
    let mut i: usize = 0;
    while i < n
        invariant
            i <= n,
            forall|k: int|
                0 <= k < i && (forall|j: int| 0 <= j < k ==> byte_or_nul(a@, j) != 0) ==> fold_case(
                    #[trigger] byte_or_nul(a@, k),
                    insensitive,
                ) == fold_case(byte_or_nul(b@, k), insensitive),
            forall|j: int| 0 <= j < i ==> byte_or_nul(a@, j) != 0,
        decreases n - i,
    {
        let ca = fold(at_or_nul(a, i), insensitive);
        let cb = fold(at_or_nul(b, i), insensitive);
        if ca != cb {
            return false;
        }
        if ca == 0 {
            assert forall|k: int|
                0 <= k < n && (forall|j: int| 0 <= j < k ==> byte_or_nul(a@, j) != 0) implies fold_case(
                #[trigger] byte_or_nul(a@, k),
                insensitive,
            ) == fold_case(byte_or_nul(b@, k), insensitive) by {
                if k > i {
                    assert(byte_or_nul(a@, i as int) == 0);
                }
            }
            return true;
        }
        i += 1;
    }
    true
}

/// Whether `needle` occurs in `haystack`, after lowercasing both when
/// matching ignores case. An empty needle is everywhere.
pub open spec fn spec_contains(haystack: Seq<char>, needle: Seq<char>, insensitive: bool) -> bool {
    needle.len() == 0 || if insensitive {
        contains_run(str_lowercase(haystack), str_lowercase(needle))
    } else {
        contains_run(haystack, needle)
    }
}

/// Substring search, case folded when `insensitive`.
pub fn contains(haystack: &str, needle: &str, insensitive: bool) -> (r: bool)
    ensures
        r == spec_contains(haystack@, needle@, insensitive),
{
    if needle.is_empty() {
        return true;
    }
    if insensitive {
        let h = lowercase_of(haystack);
        let n = lowercase_of(needle);
        contains_chars(&chars_of(h.as_str()), &chars_of(n.as_str()))
    } else {
        contains_chars(&chars_of(haystack), &chars_of(needle))
    }
}

/// The space-separated tokens of `s` after the pending token `cur`, as
/// `strtok` finds them: runs of spaces separate, empty tokens vanish.
pub open spec fn tokens_from(s: Seq<char>, cur: Seq<char>) -> Seq<Seq<char>>
    decreases s.len(),
{
    if s.len() == 0 {
        if cur.len() == 0 {
            Seq::empty()
        } else {
            seq![cur]
        }
    } else if s[0] == ' ' {
        let done = if cur.len() == 0 {
            Seq::empty()
        } else {
            seq![cur]
        };
        done + tokens_from(s.skip(1), Seq::empty())
    } else {
        tokens_from(s.skip(1), cur.push(s[0]))
    }
}

/// The tokens of the input line.
pub open spec fn tokens(s: Seq<char>) -> Seq<Seq<char>> {
    tokens_from(s, Seq::empty())
}

/// The tokens of `text`, each as a `String`.
pub fn split_tokens(text: &str) -> (r: Vec<String>)
    ensures
        r@.map_values(|t: String| t@) == tokens(text@),
{
    let cs = chars_of(text);
    let mut out: Vec<String> = Vec::new();
    let mut cur: Vec<char> = Vec::new();
    let mut i: usize = 0;
    assert(cs@.skip(0) =~= cs@);
    while i < cs.len()
        invariant
            i <= cs@.len(),
            cs@ == text@,
            out@.map_values(|t: String| t@) + tokens_from(cs@.skip(i as int), cur@) == tokens(
                text@,
            ),
        decreases cs.len() - i,
    {
        let ghost rest = cs@.skip(i as int);
        assert(rest.skip(1) =~= cs@.skip(i + 1));
        if cs[i] == ' ' {
            if cur.len() > 0 {
                let t = string_of(&cur, 0, cur.len());
                assert(cur@.subrange(0, cur@.len() as int) =~= cur@);
                out.push(t);
            }
            cur = Vec::new();
        } else {
            cur.push(cs[i]);
        }
        i += 1;
        assert(out@.map_values(|t: String| t@) + tokens_from(cs@.skip(i as int), cur@) =~= tokens(
            text@,
        ));
    }
    if cur.len() > 0 {
        let t = string_of(&cur, 0, cur.len());
        assert(cur@.subrange(0, cur@.len() as int) =~= cur@);
        out.push(t);
    }
    assert(out@.map_values(|t: String| t@) =~= tokens(text@));
    out
}


/// How an item ranks against the input line in the dmenu matcher: `0` when
/// it equals the line (or the line has no tokens), `1` when the first token
/// is its prefix, `2` otherwise when substring matches are kept; `None`
/// when some token does not occur in it, or only as a substring and those
/// are not kept.
pub open spec fn dmenu_rank(item: Seq<char>, text: Seq<char>, insensitive: bool, substrings: bool) -> Option<int> {
    let toks = tokens(text);
    if !(forall|k: int| 0 <= k < toks.len() ==> spec_contains(item, #[trigger] toks[k], insensitive)) {
        None
    } else if toks.len() == 0 || spec_eq_n(
        encode_utf8(text),
        encode_utf8(item),
        encode_utf8(text).len() + 1 as int,
        insensitive,
    ) {
        Some(0)
    } else if spec_eq_n(
        encode_utf8(toks[0]),
        encode_utf8(item),
        encode_utf8(toks[0]).len() as int,
        insensitive,
    ) {
        Some(1)
    } else if substrings {
        Some(2)
    } else {
        None
    }
}

/// The positions among the first `n` items whose rank is `k`, in order.
pub open spec fn ranked(
    items: Seq<Seq<char>>,
    text: Seq<char>,
    insensitive: bool,
    substrings: bool,
    k: int,
    n: int,
) -> Seq<usize>
    decreases n,
{
    if n <= 0 {
        Seq::empty()
    } else {
        let r = ranked(items, text, insensitive, substrings, k, n - 1);
        if dmenu_rank(items[n - 1], text, insensitive, substrings) == Some(k) {
            r.push((n - 1) as usize)
        } else {
            r
        }
    }
}

/// The dmenu matcher's result: exact matches, then prefix matches, then
/// substring matches, each in input order.
pub open spec fn spec_dmenu_matches(
    items: Seq<Seq<char>>,
    text: Seq<char>,
    insensitive: bool,
    substrings: bool,
) -> Seq<usize> {
    let n = items.len() as int;
    ranked(items, text, insensitive, substrings, 0, n) + ranked(
        items,
        text,
        insensitive,
        substrings,
        1,
        n,
    ) + ranked(items, text, insensitive, substrings, 2, n)
}

pub open spec fn string_views(v: Seq<String>) -> Seq<Seq<char>> {
    v.map_values(|s: String| s@)
}

fn rank_item(
    item: &String,
    text: &str,
    toks: &Vec<String>,
    insensitive: bool,
    substrings: bool,
) -> (r: Option<u8>)
    requires
        string_views(toks@) == tokens(text@),
        text.spec_bytes().len() < usize::MAX,
    ensures
        match dmenu_rank(item@, text@, insensitive, substrings) {
            Some(k) => r matches Some(j) && j == k,
            None => r is None,
        },
{
    let ghost tv = tokens(text@);
    let mut k: usize = 0;
    while k < toks.len()
        invariant
            k <= toks@.len(),
            string_views(toks@) == tv,
            tv == tokens(text@),
            forall|j: int| 0 <= j < k ==> spec_contains(item@, #[trigger] tv[j], insensitive),
        decreases toks.len() - k,
    {
        assert(tv[k as int] == toks@[k as int]@);
        if !contains(item.as_str(), toks[k].as_str(), insensitive) {
            return None;
        }
        k += 1;
    }
    let tb = text.as_bytes();
    let ib = item.as_str().as_bytes();
    if toks.len() == 0 || eq_n(tb, ib, tb.len() + 1, insensitive) {
        return Some(0);
    }
    assert(tv[0] == toks@[0]@);
    let first = toks[0].as_str().as_bytes();
    if eq_n(first, ib, first.len(), insensitive) {
        Some(1)
    } else if substrings {
        Some(2)
    } else {
        None
    }
}

/// The dmenu matcher over `items`: the matching positions (exact, then
/// prefix, then substring matches), and whether any substring match was
/// kept.
pub fn dmenu_matches(items: &[String], text: &str, insensitive: bool, substrings: bool) -> (r: (
    Vec<usize>,
    bool,
))
    requires
        text.spec_bytes().len() < usize::MAX,
    ensures
        r.0@ == spec_dmenu_matches(string_views(items@), text@, insensitive, substrings),
        r.1 == (ranked(
            string_views(items@),
            text@,
            insensitive,
            substrings,
            2,
            items@.len() as int,
        ).len() > 0),
{
    let ghost views = string_views(items@);
    let toks = split_tokens(text);
    let mut exact: Vec<usize> = Vec::new();
    let mut prefix: Vec<usize> = Vec::new();
    let mut substr: Vec<usize> = Vec::new();
    let mut i: usize = 0;
    while i < items.len()
        invariant
            i <= items@.len(),
            views == string_views(items@),
            string_views(toks@) == tokens(text@),
            text.spec_bytes().len() < usize::MAX,
            exact@ == ranked(views, text@, insensitive, substrings, 0, i as int),
            prefix@ == ranked(views, text@, insensitive, substrings, 1, i as int),
            substr@ == ranked(views, text@, insensitive, substrings, 2, i as int),
        decreases items.len() - i,
    {
        assert(views[i as int] == items@[i as int]@);
        match rank_item(&items[i], text, &toks, insensitive, substrings) {
            Some(0) => exact.push(i),
            Some(1) => prefix.push(i),
            Some(_) => substr.push(i),
            None => {},
        }
        i += 1;
    }
    let had_substr = substr.len() > 0;
    let mut all = exact;
    let mut j: usize = 0;
    let ghost base = all@;
    while j < prefix.len()
        invariant
            j <= prefix@.len(),
            all@ == base + prefix@.subrange(0, j as int),
        decreases prefix.len() - j,
    {
        all.push(prefix[j]);
        j += 1;
        assert(all@ =~= base + prefix@.subrange(0, j as int));
    }
    assert(prefix@.subrange(0, prefix@.len() as int) =~= prefix@);
    let ghost base2 = all@;
    let mut j: usize = 0;
    while j < substr.len()
        invariant
            j <= substr@.len(),
            all@ == base2 + substr@.subrange(0, j as int),
        decreases substr.len() - j,
    {
        all.push(substr[j]);
        j += 1;
        assert(all@ =~= base2 + substr@.subrange(0, j as int));
    }
    assert(substr@.subrange(0, substr@.len() as int) =~= substr@);
    (all, had_substr)
}


/// The fuzzy matcher's walk over `item` from byte `i`, with `p` pattern
/// bytes already matched, the first of them at `start` (negative: none
/// yet): each item byte that equals the next pattern byte consumes it, and
/// the walk ends at the byte that consumes the last one. The result is the
/// first and last matched positions.
pub open spec fn fuzzy_walk(
    pattern: Seq<u8>,
    item: Seq<u8>,
    insensitive: bool,
    i: int,
    p: int,
    start: int,
) -> Option<(int, int)>
    decreases item.len() - i,
{
    if i < 0 || i >= item.len() {
        None
    } else if 0 <= p < pattern.len() && fold_case(pattern[p], insensitive) == fold_case(
        item[i],
        insensitive,
    ) {
        let s = if start < 0 {
            i
        } else {
            start
        };
        if p + 1 == pattern.len() {
            Some((s, i))
        } else {
            fuzzy_walk(pattern, item, insensitive, i + 1, p + 1, s)
        }
    } else {
        fuzzy_walk(pattern, item, insensitive, i + 1, p, start)
    }
}

/// Where a non-empty `pattern` fuzzily matches `item`: the first and last
/// item bytes of its leftmost greedy embedding as a subsequence.
pub open spec fn spec_fuzzy_span(pattern: Seq<u8>, item: Seq<u8>, insensitive: bool) -> Option<(int, int)> {
    if pattern.len() == 0 {
        None
    } else {
        fuzzy_walk(pattern, item, insensitive, 0, 0, -1)
    }
}

/// The span of `pattern` in `item` for the fuzzy matcher; `None` when it
/// does not match or the pattern is empty.
pub fn fuzzy_span(pattern: &[u8], item: &[u8], insensitive: bool) -> (r: Option<(usize, usize)>)
    ensures
        match spec_fuzzy_span(pattern@, item@, insensitive) {
            Some((s, e)) => r == Some((s as usize, e as usize)),
            None => r is None,
        },
{
    if pattern.len() == 0 {
        return None;
    }
    let mut p: usize = 0;
    let mut start: Option<usize> = None;
    let mut i: usize = 0;
    while i < item.len()
        invariant
            0 < pattern@.len(),
            i <= item@.len(),
            p < pattern@.len(),
            match start {
                Some(s) => s < i,
                None => true,
            },
            spec_fuzzy_span(pattern@, item@, insensitive) == fuzzy_walk(
                pattern@,
                item@,
                insensitive,
                i as int,
                p as int,
                match start {
                    Some(s) => s as int,
                    None => -1,
                },
            ),
        decreases item.len() - i,
    {
        if fold(pattern[p], insensitive) == fold(item[i], insensitive) {
            let s = match start {
                Some(s) => s,
                None => i,
            };
            if p + 1 == pattern.len() {
                return Some((s, i));
            }
            start = Some(s);
            p += 1;
        }
        i += 1;
    }
    None
}

/// A fuzzy match: the item's position and, for a non-empty pattern, the
/// span the pattern covers (which ranks it).
pub open spec fn spec_fuzzy_matches(
    items: Seq<Seq<char>>,
    pattern: Seq<char>,
    insensitive: bool,
    n: int,
) -> Seq<(usize, Option<(usize, usize)>)>
    decreases n,
{
    if n <= 0 {
        Seq::empty()
    } else {
        let r = spec_fuzzy_matches(items, pattern, insensitive, n - 1);
        if encode_utf8(pattern).len() == 0 {
            r.push(((n - 1) as usize, None))
        } else {
            match spec_fuzzy_span(encode_utf8(pattern), encode_utf8(items[n - 1]), insensitive) {
                Some((s, e)) => r.push(((n - 1) as usize, Some((s as usize, e as usize)))),
                None => r,
            }
        }
    }
}

/// The fuzzy matcher over `items`, in input order: every item for an empty
/// pattern, else the items the pattern matches, each with its span. Ranking
/// them by span is left to the caller.
pub fn fuzzy_matches(items: &[String], pattern: &str, insensitive: bool) -> (r: Vec<
    (usize, Option<(usize, usize)>),
>)
    ensures
        r@ == spec_fuzzy_matches(string_views(items@), pattern@, insensitive, items@.len() as int),
{
    let ghost views = string_views(items@);
    let pb = pattern.as_bytes();
    let mut out: Vec<(usize, Option<(usize, usize)>)> = Vec::new();
    let mut i: usize = 0;
    while i < items.len()
        invariant
            i <= items@.len(),
            views == string_views(items@),
            pb@ == encode_utf8(pattern@),
            out@ == spec_fuzzy_matches(views, pattern@, insensitive, i as int),
        decreases items.len() - i,
    {
        assert(views[i as int] == items@[i as int]@);
        if pb.len() == 0 {
            out.push((i, None));
        } else {
            match fuzzy_span(pb, items[i].as_str().as_bytes(), insensitive) {
                Some(span) => out.push((i, Some(span))),
                None => {},
            }
        }
        i += 1;
    }
    out
}


/// Whether `idx` places each byte of `pattern` on an equal byte of `item`
/// (ASCII case folded when `insensitive`), at strictly increasing positions.
pub open spec fn is_embedding(pattern: Seq<u8>, item: Seq<u8>, insensitive: bool, idx: Seq<int>) -> bool {
    &&& idx.len() == pattern.len()
    &&& forall|k: int|
        0 <= k < idx.len() ==> 0 <= #[trigger] idx[k] < item.len() && fold_case(
            item[idx[k]],
            insensitive,
        ) == fold_case(pattern[k], insensitive)
    &&& forall|k: int, l: int| 0 <= k < l < idx.len() ==> #[trigger] idx[k] < #[trigger] idx[l]
}

/// Whether `pattern` is a subsequence of `item` (up to ASCII case when
/// `insensitive`).
pub open spec fn is_subsequence(pattern: Seq<u8>, item: Seq<u8>, insensitive: bool) -> bool {
    exists|idx: Seq<int>| is_embedding(pattern, item, insensitive, idx)
}

proof fn lemma_walk_witness(
    pattern: Seq<u8>,
    item: Seq<u8>,
    insensitive: bool,
    i: int,
    p: int,
    start: int,
) -> (idx: Seq<int>)
    requires
        0 <= i,
        0 <= p < pattern.len(),
        fuzzy_walk(pattern, item, insensitive, i, p, start) is Some,
    ensures
        is_embedding(pattern.skip(p), item, insensitive, idx),
        forall|k: int| 0 <= k < idx.len() ==> i <= #[trigger] idx[k],
        fuzzy_walk(pattern, item, insensitive, i, p, start) matches Some((s, e)) ==> (start < 0
            ==> s == idx[0]) && (start >= 0 ==> s == start) && e == idx[idx.len() - 1],
    decreases item.len() - i,
{
    if fold_case(pattern[p], insensitive) == fold_case(item[i], insensitive) {
        let s = if start < 0 {
            i
        } else {
            start
        };
        if p + 1 == pattern.len() {
            let idx = seq![i];
            assert(pattern.skip(p)[0] == pattern[p]);
            idx
        } else {
            let rest = lemma_walk_witness(pattern, item, insensitive, i + 1, p + 1, s);
            let idx = seq![i] + rest;
            assert forall|k: int| 0 <= k < idx.len() implies 0 <= #[trigger] idx[k] < item.len()
                && fold_case(item[idx[k]], insensitive) == fold_case(
                pattern.skip(p)[k],
                insensitive,
            ) by {
                if k > 0 {
                    assert(idx[k] == rest[k - 1]);
                    assert(pattern.skip(p)[k] == pattern.skip(p + 1)[k - 1]);
                }
            }
            assert forall|k: int, l: int| 0 <= k < l < idx.len() implies #[trigger] idx[k]
                < #[trigger] idx[l] by {
                assert(idx[l] == rest[l - 1]);
                if k > 0 {
                    assert(idx[k] == rest[k - 1]);
                }
            }
            idx
        }
    } else {
        lemma_walk_witness(pattern, item, insensitive, i + 1, p, start)
    }
}

proof fn lemma_walk_complete(
    pattern: Seq<u8>,
    item: Seq<u8>,
    insensitive: bool,
    i: int,
    p: int,
    start: int,
    idx: Seq<int>,
)
    requires
        0 <= i,
        0 <= p < pattern.len(),
        is_embedding(pattern.skip(p), item, insensitive, idx),
        forall|k: int| 0 <= k < idx.len() ==> i <= #[trigger] idx[k],
    ensures
        fuzzy_walk(pattern, item, insensitive, i, p, start) is Some,
    decreases item.len() - i,
{
    assert(idx[0] >= i);
    assert(pattern.skip(p)[0] == pattern[p]);
    if fold_case(pattern[p], insensitive) == fold_case(item[i], insensitive) {
        let s = if start < 0 {
            i
        } else {
            start
        };
        if p + 1 < pattern.len() {
            let rest = idx.skip(1);
            assert forall|k: int| 0 <= k < rest.len() implies 0 <= #[trigger] rest[k] < item.len()
                && fold_case(item[rest[k]], insensitive) == fold_case(
                pattern.skip(p + 1)[k],
                insensitive,
            ) by {
                assert(rest[k] == idx[k + 1]);
                assert(pattern.skip(p + 1)[k] == pattern.skip(p)[k + 1]);
            }
            assert forall|k: int| 0 <= k < rest.len() implies i + 1 <= #[trigger] rest[k] by {
                assert(rest[k] == idx[k + 1]);
                assert(idx[0] < idx[k + 1]);
            }
            assert forall|k: int, l: int| 0 <= k < l < rest.len() implies #[trigger] rest[k]
                < #[trigger] rest[l] by {
                assert(rest[k] == idx[k + 1] && rest[l] == idx[l + 1]);
            }
            lemma_walk_complete(pattern, item, insensitive, i + 1, p + 1, s, rest);
        }
    } else {
        assert(idx[0] != i);
        assert forall|k: int| 0 <= k < idx.len() implies i + 1 <= #[trigger] idx[k] by {
            if k > 0 {
                assert(idx[0] < idx[k]);
            }
        }
        lemma_walk_complete(pattern, item, insensitive, i + 1, p, start, idx);
    }
}

/// The fuzzy matcher matches an item exactly when the pattern is non-empty
/// and, up to ASCII case when matching ignores it, a subsequence of the
/// item; the span then runs from the first to the last matched byte.
pub proof fn lemma_fuzzy_matches_subsequences(pattern: Seq<u8>, item: Seq<u8>, insensitive: bool)
    ensures
        spec_fuzzy_span(pattern, item, insensitive) is Some <==> (pattern.len() > 0
            && is_subsequence(pattern, item, insensitive)),
        spec_fuzzy_span(pattern, item, insensitive) matches Some((s, e)) ==> 0 <= s <= e
            < item.len() && e - s + 1 >= pattern.len(),
{
    if pattern.len() > 0 {
        assert(pattern.skip(0) =~= pattern);
        if spec_fuzzy_span(pattern, item, insensitive) is Some {
            let idx = lemma_walk_witness(pattern, item, insensitive, 0, 0, -1);
            assert(is_embedding(pattern, item, insensitive, idx));
            let (s, e) = spec_fuzzy_span(pattern, item, insensitive)->0;
            assert(idx[0] <= idx[idx.len() - 1]) by {
                if idx.len() > 1 {
                    assert(idx[0] < idx[idx.len() - 1]);
                }
            }
            lemma_increasing_spread(idx, idx.len() as int - 1);
        }
        if is_subsequence(pattern, item, insensitive) {
            let idx = choose|idx: Seq<int>| is_embedding(pattern, item, insensitive, idx);
            assert(is_embedding(pattern.skip(0), item, insensitive, idx));
            lemma_walk_complete(pattern, item, insensitive, 0, 0, -1, idx);
        }
    }
}

/// Strictly increasing integers spread: the last is at least `n` above the
/// first.
proof fn lemma_increasing_spread(idx: Seq<int>, n: int)
    requires
        0 <= n < idx.len(),
        forall|k: int, l: int| 0 <= k < l < idx.len() ==> #[trigger] idx[k] < #[trigger] idx[l],
    ensures
        idx[n] - idx[0] >= n,
    decreases n,
{
    if n > 0 {
        lemma_increasing_spread(idx, n - 1);
        assert(idx[n - 1] < idx[n]);
    }
}


/* ------------------------------ paging ------------------------------ */

/// The total width of the matches at positions `a..b`.
pub open spec fn width_sum(w: Seq<i32>, a: int, b: int) -> int
    decreases b - a,
{
    if a >= b {
        0
    } else {
        width_sum(w, a, b - 1) + w[b - 1]
    }
}

/// Whether every width is between zero and the page budget, so that each
/// match fits on a page by itself.
pub open spec fn widths_fit(w: Seq<i32>, budget: i32) -> bool {
    forall|k: int| 0 <= k < w.len() ==> 0 <= #[trigger] w[k] <= budget
}

/// The first position from `p` on at which the page, already `acc` wide,
/// overflows `budget`; `None` when the rest of the matches fit.
pub open spec fn next_page(w: Seq<i32>, budget: int, p: int, acc: int) -> Option<int>
    decreases w.len() - p,
{
    if p < 0 || p >= w.len() {
        None
    } else if acc + w[p] > budget {
        Some(p)
    } else {
        next_page(w, budget, p + 1, acc + w[p])
    }
}

/// The first position of the page that ends just before `q`, growing it
/// backward from `acc` wide while it fits `budget`.
pub open spec fn prev_page(w: Seq<i32>, budget: int, q: int, acc: int) -> int
    decreases q,
{
    if q <= 0 || q > w.len() {
        if q < 0 {
            0
        } else {
            q
        }
    } else if acc + w[q - 1] > budget {
        q
    } else {
        prev_page(w, budget, q - 1, acc + w[q - 1])
    }
}

/// Which matches are on screen and which is selected. `curr` is the first
/// match shown, `next` the first of the following page (`None` on the last
/// page), `prev` the first of the page before.
#[derive(Debug, Clone, Copy, PartialEq, Eq, Structural)]
pub struct Pager {
    pub sel: Option<usize>,
    pub curr: Option<usize>,
    pub next: Option<usize>,
    pub prev: usize,
}

impl Pager {
    /// The page boundaries `calc_offsets` derives from `curr`.
    pub open spec fn offsets_of(w: Seq<i32>, budget: i32, curr: Option<usize>) -> (Option<usize>, usize) {
        let next = match curr {
            Some(c) => match next_page(w, budget as int, c as int, 0) {
                Some(x) => Some(x as usize),
                None => None,
            },
            None => None,
        };
        let start = match curr {
            Some(c) => c as int,
            None => 0,
        };
        (next, prev_page(w, budget as int, start, 0) as usize)
    }

    /// Whether the pager is consistent with matches of widths `w`: a
    /// selection exists exactly when there are matches, it lies on the
    /// page starting at `curr`, and `next`/`prev` are that page's
    /// neighbours.
    pub open spec fn on_page(self, w: Seq<i32>, budget: i32) -> bool {
        &&& (w.len() == 0 <==> self.sel is None)
        &&& (self.sel is None <==> self.curr is None)
        &&& self.curr matches Some(c) ==> self.sel matches Some(s) && c <= s < w.len() && (
        self.next matches Some(x) ==> s < x)
        &&& (self.next, self.prev) == Pager::offsets_of(w, budget, self.curr)
    }

    /// Recomputes `next` and `prev` from `curr` (the menu's
    /// `calcoffsets`): how many matches of widths `widths` fit a page of
    /// `budget`.
    pub fn calc_offsets(&mut self, widths: &[i32], budget: i32)
        ensures
            final(self).sel == old(self).sel,
            final(self).curr == old(self).curr,
            (final(self).next, final(self).prev) == Pager::offsets_of(widths@, budget, old(self).curr),
    {
        let ghost w = widths@;
        let mut next: Option<usize> = None;
        if let Some(c) = self.curr {
            let mut p = c;
            let mut acc: i128 = 0;
            let mut done = false;
            while p < widths.len() && !done
                invariant
                    c <= p,
                    p <= w.len() || p == c,
                    w == widths@,
                    -0x8000_0000 * (p - c) <= acc,
                    acc <= budget || (acc == 0 && p == c),
                    !done ==> next is None && next_page(w, budget as int, c as int, 0) == next_page(
                        w,
                        budget as int,
                        p as int,
                        acc as int,
                    ),
                    done ==> p < w.len() && next == Some(p) && next_page(w, budget as int, c as int, 0)
                        == Some(p as int),
                decreases widths.len() - p + if done { 0int } else { 1int },
            {
                if acc + widths[p] as i128 > budget as i128 {
                    next = Some(p);
                    done = true;
                } else {
                    acc = acc + widths[p] as i128;
                    p += 1;
                }
            }
        }
        let mut q: usize = match self.curr {
            Some(c) => c,
            None => 0,
        };
        let ghost start = q;
        if q > widths.len() {
            self.next = next;
            self.prev = q;
            return;
        }
        let mut acc: i128 = 0;
        let mut done = false;
        while q > 0 && !done
            invariant
                q <= start <= w.len(),
                w == widths@,
                -0x8000_0000 * (start - q) <= acc,
                acc <= budget || (acc == 0 && q == start),
                prev_page(w, budget as int, start as int, 0) == if done {
                    q as int
                } else {
                    prev_page(w, budget as int, q as int, acc as int)
                },
            decreases q + if done { 0int } else { 1int },
        {
            if acc + widths[q - 1] as i128 > budget as i128 {
                done = true;
            } else {
                acc = acc + widths[q - 1] as i128;
                q -= 1;
            }
        }
        self.next = next;
        self.prev = q;
    }
}


/// A pager with `sel` and `curr` set and the page boundaries recomputed.
pub open spec fn repaged(w: Seq<i32>, budget: i32, sel: Option<usize>, curr: Option<usize>) -> Pager {
    let (next, prev) = Pager::offsets_of(w, budget, curr);
    Pager { sel, curr, next, prev }
}

/// One match up, scrolling to the previous page at the top of this one.
pub open spec fn spec_up(p: Pager, w: Seq<i32>, budget: i32) -> Pager {
    match p.sel {
        Some(s) => if s > 0 {
            if p.curr == Some(s) {
                repaged(w, budget, Some((s - 1) as usize), Some(p.prev))
            } else {
                Pager { sel: Some((s - 1) as usize), ..p }
            }
        } else {
            p
        },
        None => p,
    }
}

/// One match down, scrolling to the next page past the end of this one.
pub open spec fn spec_down(p: Pager, w: Seq<i32>, budget: i32) -> Pager {
    match p.sel {
        Some(s) => if s + 1 < w.len() {
            if p.next == Some((s + 1) as usize) {
                repaged(w, budget, Some((s + 1) as usize), p.next)
            } else {
                Pager { sel: Some((s + 1) as usize), ..p }
            }
        } else {
            p
        },
        None => p,
    }
}

/// `spec_down` `k` times.
pub open spec fn spec_down_times(p: Pager, w: Seq<i32>, budget: i32, k: nat) -> Pager
    decreases k,
{
    if k == 0 {
        p
    } else {
        spec_down(spec_down_times(p, w, budget, (k - 1) as nat), w, budget)
    }
}

/// Scrolling forward while a further page exists, ending on the page that
/// shows the last match.
pub open spec fn spec_scroll_to_end(p: Pager, w: Seq<i32>, budget: i32) -> Pager
    decreases w.len() - (match p.curr {
        Some(c) => c as int,
        None => w.len() as int,
    }),
{
    match p.curr {
        Some(c) => if p.next is Some && c + 1 < w.len() && c < usize::MAX {
            spec_scroll_to_end(repaged(w, budget, p.sel, Some((c + 1) as usize)), w, budget)
        } else {
            p
        },
        None => p,
    }
}

/// The last match, if any.
pub open spec fn last_match(w: Seq<i32>) -> Option<usize> {
    if w.len() == 0 {
        None
    } else {
        Some((w.len() - 1) as usize)
    }
}

/// The list moves one navigation key makes.
#[derive(Debug, Clone, Copy, PartialEq, Eq, Structural)]
pub enum Nav {
    /// Up: the previous match.
    Up,
    /// Down: the next match.
    Down,
    /// Page down: the first match of the next page.
    PageDown,
    /// Page up: the first match of the previous page.
    PageUp,
    /// Home, unless the first match is already selected (then Home moves
    /// the text cursor instead).
    Home,
    /// End with the text cursor already at the end of the line: the last
    /// match, on the last page.
    End,
    /// The match `n` places after the first one shown (Ctrl-1 to Ctrl-9).
    Select(usize),
    /// Alt-Tab: the next match, wrapping to the first.
    TabForward,
}

/// What a navigation does to the pager.
pub open spec fn spec_navigate(p: Pager, nav: Nav, w: Seq<i32>, budget: i32) -> Pager {
    match nav {
        Nav::Up => spec_up(p, w, budget),
        Nav::Down => spec_down(p, w, budget),
        Nav::PageDown => match p.next {
            Some(n) => repaged(w, budget, Some(n), Some(n)),
            None => p,
        },
        Nav::PageUp => match p.curr {
            Some(_) => repaged(w, budget, Some(p.prev), Some(p.prev)),
            None => p,
        },
        Nav::Home => if (p.sel is None && w.len() == 0) || p.sel == Some(0usize) {
            p
        } else {
            repaged(w, budget, Some(0), Some(0))
        },
        Nav::End => {
            let scrolled = if p.next is Some {
                let at_last = repaged(w, budget, p.sel, last_match(w));
                spec_scroll_to_end(repaged(w, budget, p.sel, Some(at_last.prev)), w, budget)
            } else {
                p
            };
            Pager { sel: last_match(w), ..scrolled }
        },
        Nav::Select(n) => spec_down_times(Pager { sel: p.curr, ..p }, w, budget, n as nat),
        Nav::TabForward => match p.sel {
            Some(s) => if s + 1 == w.len() {
                repaged(w, budget, Some(0), Some(0))
            } else {
                spec_down(p, w, budget)
            },
            None => p,
        },
    }
}

impl Pager {
    /// The pager after a new match list: the first match selected and shown.
    pub fn reset(&mut self, widths: &[i32], budget: i32)
        ensures
            *final(self) == repaged(
                widths@,
                budget,
                if widths@.len() == 0 {
                    None
                } else {
                    Some(0usize)
                },
                if widths@.len() == 0 {
                    None
                } else {
                    Some(0usize)
                },
            ),
    {
        let first = if widths.len() == 0 {
            None
        } else {
            Some(0usize)
        };
        self.sel = first;
        self.curr = first;
        self.calc_offsets(widths, budget);
    }

    fn up(&mut self, widths: &[i32], budget: i32)
        ensures
            *final(self) == spec_up(*old(self), widths@, budget),
    {
        if let Some(s) = self.sel {
            if s > 0 {
                if self.curr == Some(s) {
                    self.curr = Some(self.prev);
                    self.calc_offsets(widths, budget);
                }
                self.sel = Some(s - 1);
            }
        }
    }

    fn down(&mut self, widths: &[i32], budget: i32)
        ensures
            *final(self) == spec_down(*old(self), widths@, budget),
    {
        if let Some(s) = self.sel {
            if s < widths.len() && s + 1 < widths.len() {
                self.sel = Some(s + 1);
                if self.next == Some(s + 1) {
                    self.curr = self.next;
                    self.calc_offsets(widths, budget);
                }
            }
        }
    }

    fn scroll_to_end(&mut self, widths: &[i32], budget: i32)
        ensures
            *final(self) == spec_scroll_to_end(*old(self), widths@, budget),
    {
        while self.next.is_some() && self.curr.is_some() && self.curr.unwrap() < widths.len()
            && self.curr.unwrap() + 1 < widths.len()
            invariant
                spec_scroll_to_end(*old(self), widths@, budget) == spec_scroll_to_end(
                    *self,
                    widths@,
                    budget,
                ),
            decreases widths.len() - self.curr.unwrap(),
        {
            let c = self.curr.unwrap();
            self.curr = Some(c + 1);
            self.calc_offsets(widths, budget);
        }
    }

    /// Applies one navigation key to the pager.
    pub fn navigate(&mut self, nav: Nav, widths: &[i32], budget: i32)
        ensures
            *final(self) == spec_navigate(*old(self), nav, widths@, budget),
    {
        match nav {
            Nav::Up => self.up(widths, budget),
            Nav::Down => self.down(widths, budget),
            Nav::PageDown => {
                if let Some(n) = self.next {
                    self.sel = Some(n);
                    self.curr = Some(n);
                    self.calc_offsets(widths, budget);
                }
            },
            Nav::PageUp => {
                if self.curr.is_some() {
                    self.sel = Some(self.prev);
                    self.curr = Some(self.prev);
                    self.calc_offsets(widths, budget);
                }
            },
            Nav::Home => {
                if !((self.sel.is_none() && widths.len() == 0) || self.sel == Some(0)) {
                    self.sel = Some(0);
                    self.curr = Some(0);
                    self.calc_offsets(widths, budget);
                }
            },
            Nav::End => {
                let last = if widths.len() == 0 {
                    None
                } else {
                    Some(widths.len() - 1)
                };
                if self.next.is_some() {
                    self.curr = last;
                    self.calc_offsets(widths, budget);
                    self.curr = Some(self.prev);
                    self.calc_offsets(widths, budget);
                    self.scroll_to_end(widths, budget);
                }
                self.sel = last;
            },
            Nav::Select(n) => {
                self.sel = self.curr;
                let mut k: usize = 0;
                let ghost start = *self;
                while k < n
                    invariant
                        k <= n,
                        *self == spec_down_times(start, widths@, budget, k as nat),
                    decreases n - k,
                {
                    self.down(widths, budget);
                    k += 1;
                }
            },
            Nav::TabForward => {
                if let Some(s) = self.sel {
                    if s < widths.len() && s + 1 == widths.len() {
                        self.sel = Some(0);
                        self.curr = Some(0);
                        self.calc_offsets(widths, budget);
                    } else {
                        self.down(widths, budget);
                    }
                }
            },
        }
    }
}


proof fn lemma_next_page_range(w: Seq<i32>, budget: int, p: int, acc: int)
    requires
        0 <= p,
    ensures
        next_page(w, budget, p, acc) matches Some(x) ==> p <= x < w.len(),
    decreases w.len() - p,
{
    if p < w.len() && acc + w[p] <= budget {
        lemma_next_page_range(w, budget, p + 1, acc + w[p]);
    }
}

proof fn lemma_width_sum_nonneg(w: Seq<i32>, budget: i32, a: int, b: int)
    requires
        widths_fit(w, budget),
        0 <= a,
        b <= w.len(),
    ensures
        width_sum(w, a, b) >= 0,
    decreases b - a,
{
    if a < b {
        lemma_width_sum_nonneg(w, budget, a, b - 1);
    }
}

proof fn lemma_width_sum_front(w: Seq<i32>, a: int, b: int)
    requires
        a < b,
    ensures
        width_sum(w, a, b) == w[a] + width_sum(w, a + 1, b),
    decreases b - a,
{
    if a + 1 < b {
        lemma_width_sum_front(w, a, b - 1);
    } else {
        assert(width_sum(w, a, a) == 0);
        assert(width_sum(w, a + 1, b) == 0);
    }
}

/// A page that starts at `p` and already holds `acc` does not overflow
/// before `q` when the matches in between fit.
proof fn lemma_next_page_reaches(w: Seq<i32>, budget: i32, p: int, q: int, acc: int)
    requires
        widths_fit(w, budget),
        0 <= p <= q <= w.len(),
        acc + width_sum(w, p, q) <= budget,
    ensures
        next_page(w, budget as int, p, acc) matches Some(x) ==> q <= x,
    decreases q - p,
{
    if p == q {
        lemma_next_page_range(w, budget as int, p, acc);
    } else {
        lemma_width_sum_front(w, p, q);
        lemma_width_sum_nonneg(w, budget, p + 1, q);
        lemma_next_page_reaches(w, budget, p + 1, q, acc + w[p]);
    }
}

/// A page starting at a match holds at least that match.
proof fn lemma_next_page_past(w: Seq<i32>, budget: i32, p: int)
    requires
        widths_fit(w, budget),
        0 <= p < w.len(),
    ensures
        next_page(w, budget as int, p, 0) matches Some(x) ==> p < x,
{
    assert(0 <= w[p] <= budget);
    lemma_next_page_range(w, budget as int, p + 1, w[p] as int);
}

/// The previous page ends just before `q`, fits, and holds at least the
/// match before `q`.
proof fn lemma_prev_page(w: Seq<i32>, budget: i32, q: int, acc: int)
    requires
        widths_fit(w, budget),
        0 <= q <= w.len(),
        0 <= acc <= budget,
    ensures
        0 <= prev_page(w, budget as int, q, acc) <= q,
        acc + width_sum(w, prev_page(w, budget as int, q, acc), q) <= budget,
        q > 0 && acc + w[q - 1] <= budget ==> prev_page(w, budget as int, q, acc) < q,
    decreases q,
{
    if q > 0 && acc + w[q - 1] <= budget {
        assert(0 <= w[q - 1]);
        lemma_prev_page(w, budget, q - 1, acc + w[q - 1]);
    }
}

proof fn lemma_repaged_on_page(w: Seq<i32>, budget: i32, s: int, c: int)
    requires
        widths_fit(w, budget),
        w.len() <= usize::MAX,
        0 <= c <= s < w.len(),
        next_page(w, budget as int, c, 0) matches Some(x) ==> s < x,
    ensures
        repaged(w, budget, Some(s as usize), Some(c as usize)).on_page(w, budget),
{
    lemma_next_page_range(w, budget as int, c, 0);
}

proof fn lemma_down_on_page(p: Pager, w: Seq<i32>, budget: i32)
    requires
        p.on_page(w, budget),
        widths_fit(w, budget),
        w.len() <= usize::MAX,
    ensures
        spec_down(p, w, budget).on_page(w, budget),
{
    if let Some(s) = p.sel {
        if s + 1 < w.len() && p.next == Some((s + 1) as usize) {
            lemma_next_page_past(w, budget, s + 1);
            lemma_repaged_on_page(w, budget, s + 1, s + 1);
        }
    }
}

proof fn lemma_down_times_on_page(p: Pager, w: Seq<i32>, budget: i32, k: nat)
    requires
        p.on_page(w, budget),
        widths_fit(w, budget),
        w.len() <= usize::MAX,
    ensures
        spec_down_times(p, w, budget, k).on_page(w, budget),
    decreases k,
{
    if k > 0 {
        lemma_down_times_on_page(p, w, budget, (k - 1) as nat);
        lemma_down_on_page(spec_down_times(p, w, budget, (k - 1) as nat), w, budget);
    }
}

/// Scrolling to the end keeps the page consistent and stops on the last
/// page.
proof fn lemma_scroll_to_end(p: Pager, w: Seq<i32>, budget: i32)
    requires
        widths_fit(w, budget),
        w.len() <= usize::MAX,
        p.curr matches Some(c) && c < w.len(),
        (p.next, p.prev) == Pager::offsets_of(w, budget, p.curr),
    ensures
        spec_scroll_to_end(p, w, budget).curr matches Some(c) && c < w.len(),
        (spec_scroll_to_end(p, w, budget).next, spec_scroll_to_end(p, w, budget).prev)
            == Pager::offsets_of(w, budget, spec_scroll_to_end(p, w, budget).curr),
        spec_scroll_to_end(p, w, budget).next is None,
    decreases w.len() - p.curr->0,
{
    let c = p.curr->0;
    if p.next is Some && c + 1 < w.len() && c < usize::MAX {
        lemma_scroll_to_end(repaged(w, budget, p.sel, Some((c + 1) as usize)), w, budget);
    } else if p.next is Some {
        lemma_next_page_past(w, budget, c as int);
        lemma_next_page_range(w, budget as int, c as int, 0);
    }
}

/// A new match list leaves the pager consistent, when each match fits a
/// page.
pub proof fn lemma_reset_on_page(w: Seq<i32>, budget: i32)
    requires
        widths_fit(w, budget),
        w.len() <= usize::MAX,
    ensures
        repaged(
            w,
            budget,
            if w.len() == 0 {
                None
            } else {
                Some(0usize)
            },
            if w.len() == 0 {
                None
            } else {
                Some(0usize)
            },
        ).on_page(w, budget),
{
    if w.len() > 0 {
        lemma_next_page_past(w, budget, 0);
        lemma_repaged_on_page(w, budget, 0, 0);
    }
}

/// Navigation keeps the selection on the page shown: from a consistent
/// pager over matches that each fit a page, every navigation key leaves a
/// selected match (when there are matches) on the page that starts at
/// `curr`, with `next` and `prev` that page's neighbours.
pub proof fn lemma_navigation_keeps_selection_on_page(p: Pager, nav: Nav, w: Seq<i32>, budget: i32)
    requires
        p.on_page(w, budget),
        widths_fit(w, budget),
        w.len() <= usize::MAX,
    ensures
        spec_navigate(p, nav, w, budget).on_page(w, budget),
{
    match nav {
        Nav::Up => {
            if let Some(s) = p.sel {
                if s > 0 && p.curr == Some(s) {
                    lemma_prev_page(w, budget, s as int, 0);
                    let r = p.prev as int;
                    lemma_next_page_reaches(w, budget, r, s as int, 0);
                    lemma_repaged_on_page(w, budget, s - 1, r);
                }
            }
        },
        Nav::Down => lemma_down_on_page(p, w, budget),
        Nav::PageDown => {
            if let Some(n) = p.next {
                let c = p.curr->0;
                lemma_next_page_range(w, budget as int, c as int, 0);
                lemma_next_page_past(w, budget, n as int);
                lemma_repaged_on_page(w, budget, n as int, n as int);
            }
        },
        Nav::PageUp => {
            if let Some(c) = p.curr {
                lemma_prev_page(w, budget, c as int, 0);
                lemma_next_page_past(w, budget, p.prev as int);
                lemma_repaged_on_page(w, budget, p.prev as int, p.prev as int);
            }
        },
        Nav::Home => {
            if !((p.sel is None && w.len() == 0) || p.sel == Some(0usize)) {
                lemma_next_page_past(w, budget, 0);
                lemma_repaged_on_page(w, budget, 0, 0);
            }
        },
        Nav::End => {
            if p.next is Some {
                let last = (w.len() - 1) as int;
                let at_last = repaged(w, budget, p.sel, last_match(w));
                lemma_prev_page(w, budget, last, 0);
                let back = repaged(w, budget, p.sel, Some(at_last.prev));
                lemma_scroll_to_end(back, w, budget);
            }
        },
        Nav::Select(n) => {
            let start = Pager { sel: p.curr, ..p };
            if let Some(c) = p.curr {
                lemma_next_page_past(w, budget, c as int);
            }
            lemma_down_times_on_page(start, w, budget, n as nat);
        },
        Nav::TabForward => {
            if let Some(s) = p.sel {
                if s + 1 == w.len() {
                    lemma_next_page_past(w, budget, 0);
                    lemma_repaged_on_page(w, budget, 0, 0);
                } else {
                    lemma_down_on_page(p, w, budget);
                }
            }
        },
    }
}


/// Shift-Tab in alt-tab mode: the previous match, wrapping from the first
/// to the last (without scrolling to it).
pub open spec fn spec_tab_backward(p: Pager, w: Seq<i32>, budget: i32) -> Pager {
    match p.sel {
        Some(s) => if s == 0 {
            if w.len() == 0 {
                p
            } else {
                repaged(w, budget, Some((w.len() - 1) as usize), p.curr)
            }
        } else {
            spec_up(p, w, budget)
        },
        None => p,
    }
}

/// In a grid, Left moves a whole column (`lines` matches) back: `None`
/// when that would pass the first match; otherwise the new selection and
/// whether it leaves the page.
pub open spec fn grid_back(p: Pager, s: int, lines: int, offscreen: bool) -> Option<(int, bool)>
    decreases lines,
{
    if lines <= 0 {
        Some((s, offscreen))
    } else if s == 0 {
        None
    } else {
        grid_back(p, s - 1, lines - 1, offscreen || p.curr == Some(s as usize))
    }
}

/// In a grid, Right moves a whole column forward: `None` when that would
/// pass the last match.
pub open spec fn grid_forward(p: Pager, n: int, s: int, lines: int, offscreen: bool) -> Option<
    (int, bool),
>
    decreases lines,
{
    if lines <= 0 {
        Some((s, offscreen))
    } else if s + 1 >= n {
        None
    } else {
        grid_forward(p, n, s + 1, lines - 1, offscreen || p.next == Some((s + 1) as usize))
    }
}

/// A grid move by one column in `dir`.
pub open spec fn spec_grid_move(p: Pager, dir: Direction, lines: i32, w: Seq<i32>, budget: i32) -> Pager {
    match p.sel {
        Some(s) => {
            let moved = match dir {
                Direction::Backward => grid_back(p, s as int, lines as int, false),
                Direction::Forward => grid_forward(p, w.len() as int, s as int, lines as int, false),
            };
            match moved {
                Some((t, offscreen)) => if offscreen {
                    match dir {
                        Direction::Backward => repaged(w, budget, Some(t as usize), Some(p.prev)),
                        Direction::Forward => repaged(w, budget, Some(t as usize), p.next),
                    }
                } else {
                    Pager { sel: Some(t as usize), ..p }
                },
                None => p,
            }
        },
        None => p,
    }
}

impl Pager {
    /// Shift-Tab in alt-tab mode.
    pub fn tab_backward(&mut self, widths: &[i32], budget: i32)
        ensures
            *final(self) == spec_tab_backward(*old(self), widths@, budget),
    {
        if let Some(s) = self.sel {
            if s == 0 {
                if widths.len() > 0 {
                    self.sel = Some(widths.len() - 1);
                    self.calc_offsets(widths, budget);
                }
            } else {
                self.up(widths, budget);
            }
        }
    }

    /// Left or Right in a grid of `lines` rows.
    pub fn grid_move(&mut self, dir: Direction, lines: i32, widths: &[i32], budget: i32)
        ensures
            *final(self) == spec_grid_move(*old(self), dir, lines, widths@, budget),
    {
        let s = match self.sel {
            Some(s) => s,
            None => return,
        };
        let ghost p0 = *self;
        let mut t = s;
        let mut offscreen = false;
        let mut blocked = false;
        let mut k: i32 = 0;
        let n = widths.len();
        let curr = self.curr;
        let next = self.next;
        match dir {
            Direction::Backward => {
                while k < lines && !blocked
                    invariant
                        0 <= k <= lines || (k == 0 && lines <= 0),
                        t <= s,
                        curr == p0.curr,
                        grid_back(p0, s as int, lines as int, false) == if blocked {
                            None
                        } else {
                            grid_back(p0, t as int, (lines - k) as int, offscreen)
                        },
                    decreases lines - k + if blocked { 0int } else { 1int },
                {
                    if t == 0 {
                        blocked = true;
                    } else {
                        if curr == Some(t) {
                            offscreen = true;
                        }
                        t -= 1;
                        k += 1;
                    }
                }
            },
            Direction::Forward => {
                while k < lines && !blocked
                    invariant
                        0 <= k <= lines || (k == 0 && lines <= 0),
                        s <= t,
                        n == widths@.len(),
                        next == p0.next,
                        grid_forward(p0, n as int, s as int, lines as int, false) == if blocked {
                            None
                        } else {
                            grid_forward(p0, n as int, t as int, (lines - k) as int, offscreen)
                        },
                    decreases lines - k + if blocked { 0int } else { 1int },
                {
                    if t >= n || t + 1 >= n {
                        blocked = true;
                    } else {
                        t += 1;
                        if next == Some(t) {
                            offscreen = true;
                        }
                        k += 1;
                    }
                }
            },
        }
        if blocked {
            return;
        }
        self.sel = Some(t);
        if offscreen {
            match dir {
                Direction::Backward => self.curr = Some(self.prev),
                Direction::Forward => self.curr = self.next,
            }
            self.calc_offsets(widths, budget);
        }
    }
}

/* ------------------------------ counters ------------------------------ */

/// The match counter the menu shows: whether to show it for this many
/// matches, and the `matches/items` text. Toasts show no counter and keep
/// the previous text.
pub open spec fn counter_shown(matches: int, toast: bool, lines: int) -> bool {
    !toast && matches > 1 && (lines <= 1 || matches > lines)
}

pub fn match_counter(matches: usize, items: usize, toast: bool, lines: i32) -> (r: (bool, Option<
    String,
>))
    requires
        matches <= i64::MAX,
        items <= i64::MAX,
    ensures
        r.0 == counter_shown(matches as int, toast, lines as int),
        toast ==> r.1 is None,
        !toast ==> (r.1 matches Some(t) && t@ == decimal(matches as int) + seq!['/'] + decimal(
            items as int,
        )),
{
    if toast {
        return (false, None);
    }
    let shown = if matches > 1 {
        if lines > 1 {
            matches > lines as usize
        } else {
            true
        }
    } else {
        false
    };
    let mut t = String::new();
    push_decimal(&mut t, matches as i64);
    push_char(&mut t, '/');
    push_decimal(&mut t, items as i64);
    (shown, Some(t))
}

/* ------------------------------ helpers ------------------------------ */

pub open spec fn rect_of(x: i32, y: i32, w: i32, h: i32) -> Rect {
    Rect { x, y, w, h }
}

/// The area the rectangle `(x, y, w, h)` shares with a monitor.
pub fn intersect_area(x: i32, y: i32, w: i32, h: i32, mon: &MonitorInfo) -> (a: i32)
    requires
        rect_of(x, y, w, h).edges_fit(),
        mon.rect.edges_fit(),
        fits_i32(rect_of(x, y, w, h).overlap_w(mon.rect) * rect_of(x, y, w, h).overlap_h(mon.rect)),
    ensures
        a == rect_of(x, y, w, h).overlap_w(mon.rect) * rect_of(x, y, w, h).overlap_h(mon.rect),
{
    Rect::new(x, y, w, h).intersect_area(mon.rect)
}

/// Whether two keysyms are the same key.
pub fn sym_eq(a: u32, b: u32) -> (r: bool)
    ensures
        r == (a == b),
{
    a == b
}


/// What `safe_slice` cuts from bytes `b`: `b[from..min(to, len)]` when the
/// range is non-empty, starts inside `b` and both ends fall on character
/// boundaries; otherwise nothing.
pub open spec fn spec_safe_slice(b: Seq<u8>, from: int, to: int) -> Seq<u8> {
    let end = if to < b.len() {
        to
    } else {
        b.len() as int
    };
    if from >= to || from > b.len() {
        Seq::empty()
    } else if is_char_boundary(b, from) && is_char_boundary(b, end) {
        b.subrange(from, end)
    } else {
        Seq::empty()
    }
}

proof fn lemma_boundary_in_tail(b: Seq<u8>, from: int, end: int)
    requires
        valid_utf8(b),
        0 <= from <= end <= b.len(),
        is_char_boundary(b, from),
        is_char_boundary(b, end),
    ensures
        valid_utf8(b.subrange(from, b.len() as int)),
        is_char_boundary(b.subrange(from, b.len() as int), end - from),
{
    let rest = b.subrange(from, b.len() as int);
    valid_utf8_split(b, from);
    is_char_boundary_start_end_of_seq(rest);
    if from < end < b.len() {
        is_char_boundary_iff_not_is_continuation_byte(b, end);
        is_char_boundary_iff_not_is_continuation_byte(rest, end - from);
        assert(rest[end - from] == b[end]);
    }
}

/// A byte slice of `s` that never splits a character: empty when the
/// range is empty, starts past the end, or cuts a character.
pub fn safe_slice(s: &str, from: usize, to: usize) -> (r: &str)
    requires
        s.spec_bytes().len() <= usize::MAX,
    ensures
        r.spec_bytes() == spec_safe_slice(s.spec_bytes(), from as int, to as int),
{
    proof {
        reveal_strlit("");
        encode_utf8_valid_utf8(s@);
    }
    let empty: &str = "";
    assert(empty.spec_bytes() =~= Seq::<u8>::empty());
    let len = s.len();
    if from >= to || from > len {
        return empty;
    }
    let end = if to < len {
        to
    } else {
        len
    };
    if s.is_char_boundary(from) && s.is_char_boundary(end) {
        proof {
            lemma_boundary_in_tail(s.spec_bytes(), from as int, end as int);
        }
        let (_, rest) = s.split_at(from);
        let (mid, _) = rest.split_at(end - from);
        assert(mid.spec_bytes() =~= s.spec_bytes().subrange(from as int, end as int));
        mid
    } else {
        empty
    }
}


/* ------------------------------ key edits ------------------------------ */

/// Whether an edit's result `r` is the line and cursor `s` describes.
pub open spec fn edit_matches(r: Option<(Vec<u8>, usize)>, s: Option<(Seq<u8>, int)>) -> bool {
    match s {
        Some((t, c)) => r matches Some((v, k)) && v@ == t && k == c,
        None => r is None,
    }
}

/// Backspace: deletes the character before the cursor.
pub fn delete_back(text: &[u8], cursor: usize) -> (r: Option<(Vec<u8>, usize)>)
    requires
        cursor <= text@.len() < usize::MAX,
    ensures
        edit_matches(
            r,
            spec_edit(
                text@,
                cursor as int,
                EditOp::Delete(
                    (cursor - spec_next_rune(text@, cursor as int, Direction::Backward)) as usize,
                ),
            ),
        ),
{
    let p = next_rune(text, cursor, Direction::Backward);
    edit(text, cursor, EditOp::Delete(cursor - p))
}

/// Delete: deletes the character under the cursor (moving past it and
/// deleting back).
pub fn delete_forward(text: &[u8], cursor: usize) -> (r: Option<(Vec<u8>, usize)>)
    requires
        cursor < text@.len() < usize::MAX,
    ensures
        ({
            let c = spec_next_rune(text@, cursor as int, Direction::Forward);
            edit_matches(
                r,
                spec_edit(
                    text@,
                    c,
                    EditOp::Delete((c - spec_next_rune(text@, c, Direction::Backward)) as usize),
                ),
            )
        }),
{
    let c = next_rune(text, cursor, Direction::Forward);
    delete_back(text, c)
}

/// Ctrl-U: deletes everything before the cursor.
pub fn cut_left(text: &[u8], cursor: usize) -> (r: Option<(Vec<u8>, usize)>)
    requires
        cursor <= text@.len(),
    ensures
        edit_matches(r, spec_edit(text@, cursor as int, EditOp::Delete(cursor))),
{
    edit(text, cursor, EditOp::Delete(cursor))
}

/// Ctrl-W: deletes back to the start of the word before the cursor
/// (delimiters first).
pub fn cut_word(text: &[u8], cursor: usize, delims: &[u8]) -> (r: Option<(Vec<u8>, usize)>)
    requires
        cursor <= text@.len() < usize::MAX,
    ensures
        edit_matches(
            r,
            spec_edit(
                text@,
                cursor as int,
                EditOp::Delete(
                    (cursor - spec_word_edge(text@, cursor as int, delims@, Direction::Backward)) as usize,
                ),
            ),
        ),
{
    let p = word_edge(text, cursor, delims, Direction::Backward);
    proof {
        lemma_word_edge_back_bound(text@, cursor as int, delims@);
    }
    edit(text, cursor, EditOp::Delete(cursor - p))
}

proof fn lemma_skip_back_bound(t: Seq<u8>, c: int, delims: Seq<u8>, delim: bool)
    requires
        0 <= c,
    ensures
        0 <= skip_back(t, c, delims, delim) <= c,
    decreases c,
{
    if c > 0 && c <= t.len() && spec_is_delimiter(
        t,
        spec_next_rune(t, c, Direction::Backward),
        delims,
    ) == delim {
        let p = spec_next_rune(t, c, Direction::Backward);
        if 0 <= p < c {
            lemma_skip_back_bound(t, p, delims, delim);
        }
    }
}

proof fn lemma_word_edge_back_bound(t: Seq<u8>, c: int, delims: Seq<u8>)
    requires
        0 <= c,
    ensures
        0 <= spec_word_edge(t, c, delims, Direction::Backward) <= c,
{
    lemma_skip_back_bound(t, c, delims, true);
    lemma_skip_back_bound(t, skip_back(t, c, delims, true), delims, false);
}

/// Ctrl-K: the line cut at the cursor.
pub fn cut_right(text: &[u8], cursor: usize) -> (r: Vec<u8>)
    requires
        cursor <= text@.len(),
    ensures
        r@ == text@.take(cursor as int),
{
    let mut v: Vec<u8> = Vec::new();
    extend_range(&mut v, text, 0, cursor);
    assert(text@.subrange(0, cursor as int) =~= text@.take(cursor as int));
    v
}

impl Pager {
    /// Selects the last match without scrolling to it (End while the text
    /// cursor was not at the end of the line).
    pub fn select_last(&mut self, matches: usize)
        ensures
            *final(self) == (Pager {
                sel: if matches == 0 {
                    None
                } else {
                    Some((matches - 1) as usize)
                },
                ..*old(self)
            }),
    {
        self.sel = if matches == 0 {
            None
        } else {
            Some(matches - 1)
        };
    }
}


/* ------------------------------ mouse ------------------------------ */

/// The wheel (or the left arrow) scrolls back a page: the first match shown
/// becomes the selection and the previous page is shown.
pub open spec fn spec_scroll_up(p: Pager, w: Seq<i32>, budget: i32) -> Pager {
    if p.prev != 0 || (p.curr matches Some(c) && c > 0) {
        repaged(w, budget, p.curr, Some(p.prev))
    } else {
        p
    }
}

impl Pager {
    /// Scrolls back a page; whether it moved.
    pub fn scroll_up(&mut self, widths: &[i32], budget: i32) -> (moved: bool)
        ensures
            *final(self) == spec_scroll_up(*old(self), widths@, budget),
            moved == (old(self).prev != 0 || (old(self).curr matches Some(c) && c > 0)),
    {
        let back = self.prev != 0 || match self.curr {
            Some(c) => c > 0,
            None => false,
        };
        if back {
            self.sel = self.curr;
            self.curr = Some(self.prev);
            self.calc_offsets(widths, budget);
        }
        back
    }
}

/// The row of a vertical list under `y`: rows of height `h` follow the
/// input line, one per match from `p` up to `stop`; the first row whose
/// span `[top, top + h]` holds `y` wins.
pub open spec fn row_at(p: int, stop: int, top: int, h: int, y: int) -> Option<int>
    decreases stop - p,
{
    if p >= stop {
        None
    } else if top + h <= y <= top + 2 * h {
        Some(p)
    } else {
        row_at(p + 1, stop, top + h, h, y)
    }
}

/// The match whose row a pointer at height `y` is over, in a vertical list
/// showing `curr` up to (not including) `next`, or up to the last of
/// `count` matches.
pub fn hovered_row(curr: Option<usize>, next: Option<usize>, count: usize, h: i32, y: i32) -> (r: Option<usize>)
    requires
        0 <= h,
    ensures
        match curr {
            None => r is None,
            Some(c) => {
                let stop = match next {
                    Some(n) => if n < count {
                        n as int
                    } else {
                        count as int
                    },
                    None => count as int,
                };
                match row_at(c as int, stop, 0, h as int, y as int) {
                    Some(k) => r == Some(k as usize),
                    None => r is None,
                }
            },
        },
{
    let c = match curr {
        Some(c) => c,
        None => return None,
    };
    let stop = match next {
        Some(n) => if n < count {
            n
        } else {
            count
        },
        None => count,
    };
    let mut p = c;
    let mut top: i64 = 0;
    while p < stop
        invariant
            c <= p,
            curr == Some(c),
            stop == match next {
                Some(n) => if n < count {
                    n
                } else {
                    count
                },
                None => count,
            },
            0 <= top <= 0x1_0000_0000,
            row_at(c as int, stop as int, 0, h as int, y as int) == row_at(
                p as int,
                stop as int,
                top as int,
                h as int,
                y as int,
            ),
            0 <= h,
        decreases stop - p,
    {
        if top + h as i64 <= y as i64 && y as i64 <= top + 2 * (h as i64) {
            return Some(p);
        }
        if top > 0x7fff_ffff {
            assert(row_at(p as int, stop as int, top as int, h as int, y as int) is None) by {
                lemma_row_at_past(p as int, stop as int, top as int, h as int, y as int);
            }
            return None;
        }
        top = top + h as i64;
        p += 1;
    }
    None
}

proof fn lemma_row_at_past(p: int, stop: int, top: int, h: int, y: int)
    requires
        0 <= h,
        top > y,
    ensures
        row_at(p, stop, top, h, y) is None,
    decreases stop - p,
{
    if p < stop {
        lemma_row_at_past(p + 1, stop, top + h, h, y);
    }
}


/* ------------------------------ odds and ends ------------------------------ */

/// The command a side runs: its own, or else the other side's.
pub fn command_for(side: Side, left: &Option<String>, right: &Option<String>) -> (r: Option<String>)
    ensures
        r == match side {
            Side::Left => if left is Some {
                *left
            } else {
                *right
            },
            Side::Right => if right is Some {
                *right
            } else {
                *left
            },
        },
{
    let (first, second) = match side {
        Side::Left => (left, right),
        Side::Right => (right, left),
    };
    match first {
        Some(c) => Some(c.clone()),
        None => match second {
            Some(c) => Some(c.clone()),
            None => None,
        },
    }
}

/// What a paste inserts: the text up to its first newline.
pub fn first_line(text: &[u8]) -> (r: Vec<u8>)
    ensures
        r@ == match first_newline(text@, 0) {
            Some(i) => text@.take(i),
            None => text@,
        },
{
    let mut i: usize = 0;
    while i < text.len()
        invariant
            i <= text@.len(),
            first_newline(text@, 0) == first_newline(text@, i as int),
        decreases text.len() - i,
    {
        if text[i] == 0x0a {
            let mut v: Vec<u8> = Vec::new();
            extend_range(&mut v, text, 0, i);
            assert(text@.subrange(0, i as int) =~= text@.take(i as int));
            return v;
        }
        i += 1;
    }
    let mut v: Vec<u8> = Vec::new();
    extend_range(&mut v, text, 0, text.len());
    assert(text@.subrange(0, text@.len() as int) =~= text@);
    v
}

/// The index of the first newline at or after `i`.
pub open spec fn first_newline(t: Seq<u8>, i: int) -> Option<int>
    decreases t.len() - i,
{
    if i < 0 || i >= t.len() {
        None
    } else if t[i] == 0x0a {
        Some(i)
    } else {
        first_newline(t, i + 1)
    }
}

/// The width an item takes on a page of `budget`, from its measured text
/// width (`measured`, already clamped to the budget by the renderer) and
/// the padding: a full row in commented mode, nothing for a zero budget,
/// the unclamped width for a negative one.
pub open spec fn spec_item_width(
    commented: bool,
    row_height: i32,
    budget: i32,
    measured: i32,
    padding: i32,
) -> int {
    if commented {
        row_height as int
    } else if budget == 0 {
        0
    } else if budget < 0 {
        measured + padding
    } else if measured + padding < budget {
        measured + padding
    } else {
        budget as int
    }
}

pub fn item_width(commented: bool, row_height: i32, budget: i32, measured: i32, padding: i32) -> (r: i32)
    requires
        fits_i32(measured + padding),
    ensures
        r == spec_item_width(commented, row_height, budget, measured, padding),
{
    if commented {
        row_height
    } else if budget == 0 {
        0
    } else if budget < 0 {
        measured + padding
    } else if measured + padding < budget {
        measured + padding
    } else {
        budget
    }
}


/* ------------------------------ laws ------------------------------ */

/// Edits keep the line within [`TEXT_MAX`] bytes and the cursor on it.
pub proof fn lemma_edits_keep_the_line_bounded(t: Seq<u8>, c: int, op: EditOp)
    requires
        0 <= c <= t.len() <= TEXT_MAX,
    ensures
        spec_edit(t, c, op) matches Some((t2, c2)) ==> t2.len() <= TEXT_MAX && 0 <= c2 <= t2.len(),
{
}

/// Deleting what was just inserted restores the line and the cursor.
pub proof fn lemma_delete_undoes_insert(t: Seq<u8>, c: int, s: &str)
    requires
        0 <= c <= t.len(),
    ensures
        spec_edit(t, c, EditOp::Insert(s)) matches Some((t2, c2)) ==> spec_edit(
            t2,
            c2,
            EditOp::Delete(s.spec_bytes().len() as usize),
        ) == Some((t, c)),
{
    let b = s.spec_bytes();
    if t.len() + b.len() <= TEXT_MAX {
        let t2 = t.take(c) + b + t.skip(c);
        let c2 = c + b.len();
        assert((b.len() as usize) as int == b.len());
        assert(t2.take(c) + t2.skip(c2) =~= t);
    }
}

proof fn lemma_ranked_members(
    items: Seq<Seq<char>>,
    text: Seq<char>,
    insensitive: bool,
    substrings: bool,
    k: int,
    n: int,
)
    requires
        0 <= n <= items.len() <= usize::MAX,
    ensures
        forall|j: int|
            0 <= j < ranked(items, text, insensitive, substrings, k, n).len() ==> {
                let i = #[trigger] ranked(items, text, insensitive, substrings, k, n)[j];
                0 <= i < n && dmenu_rank(items[i as int], text, insensitive, substrings) == Some(
                    k,
                )
            },
    decreases n,
{
    if n > 0 {
        lemma_ranked_members(items, text, insensitive, substrings, k, n - 1);
        let r = ranked(items, text, insensitive, substrings, k, n - 1);
        let all = ranked(items, text, insensitive, substrings, k, n);
        assert forall|j: int| 0 <= j < all.len() implies {
            let i = #[trigger] all[j];
            0 <= i < n && dmenu_rank(items[i as int], text, insensitive, substrings) == Some(k)
        } by {
            if j < r.len() {
                assert(all[j] == r[j]);
            }
        }
    }
}

/// Every item the dmenu matcher lists holds every token of the line.
pub proof fn lemma_dmenu_matches_hold_every_token(
    items: Seq<Seq<char>>,
    text: Seq<char>,
    insensitive: bool,
    substrings: bool,
    j: int,
    k: int,
)
    requires
        items.len() <= usize::MAX,
        0 <= j < spec_dmenu_matches(items, text, insensitive, substrings).len(),
        0 <= k < tokens(text).len(),
    ensures
        ({
            let i = spec_dmenu_matches(items, text, insensitive, substrings)[j] as int;
            0 <= i < items.len() && spec_contains(items[i], tokens(text)[k], insensitive)
        }),
{
    let n = items.len() as int;
    let a = ranked(items, text, insensitive, substrings, 0, n);
    let b = ranked(items, text, insensitive, substrings, 1, n);
    let c = ranked(items, text, insensitive, substrings, 2, n);
    lemma_ranked_members(items, text, insensitive, substrings, 0, n);
    lemma_ranked_members(items, text, insensitive, substrings, 1, n);
    lemma_ranked_members(items, text, insensitive, substrings, 2, n);
    let m = spec_dmenu_matches(items, text, insensitive, substrings);
    let i = if j < a.len() {
        a[j]
    } else if j < a.len() + b.len() {
        b[j - a.len()]
    } else {
        c[j - a.len() - b.len()]
    };
    assert(m[j] == i);
    let toks = tokens(text);
    assert(spec_contains(items[i as int], toks[k], insensitive));
}

/// Instant mode: with exactly one match, that match is printed at once,
/// unless substring matches were kept to reach it (dmenu matching).
pub fn instant_pick(instant: bool, matches: &[usize], had_substr: bool) -> (r: Option<usize>)
    ensures
        r == if instant && matches@.len() == 1 && !had_substr {
            Some(matches@[0])
        } else {
            None
        },
{
    if instant && matches.len() == 1 && !had_substr {
        Some(matches[0])
    } else {
        None
    }
}

/// Whether `b` holds no NUL byte.
pub open spec fn no_nul(b: Seq<u8>) -> bool {
    forall|i: int| 0 <= i < b.len() ==> b[i] != 0u8
}

/// An item counts as an exact match only when it is the whole line: with a
/// line that has tokens (and neither holds a NUL byte), an item the dmenu
/// matcher ranks exact has the line's length, byte for byte equal to it up
/// to ASCII case when matching ignores case. An item that merely starts
/// with the line and is longer is never exact.
pub proof fn lemma_exact_matches_are_the_whole_line(
    item: Seq<char>,
    text: Seq<char>,
    insensitive: bool,
    substrings: bool,
)
    requires
        tokens(text).len() > 0,
        no_nul(encode_utf8(text)),
        no_nul(encode_utf8(item)),
    ensures
        dmenu_rank(item, text, insensitive, substrings) == Some(0int) ==> {
            let a = encode_utf8(text);
            let b = encode_utf8(item);
            &&& b.len() == a.len()
            &&& forall|i: int|
                0 <= i < a.len() ==> fold_case(#[trigger] b[i], insensitive) == fold_case(
                    a[i],
                    insensitive,
                )
        },
{
    let a = encode_utf8(text);
    let b = encode_utf8(item);
    if dmenu_rank(item, text, insensitive, substrings) == Some(0int) {
        assert(spec_eq_n(a, b, a.len() + 1 as int, insensitive));
        assert forall|i: int| 0 <= i < a.len() implies fold_case(#[trigger] b[i], insensitive)
            == fold_case(a[i], insensitive) && i < b.len() by {
            assert(forall|j: int| 0 <= j < i ==> byte_or_nul(a, j) != 0);
            assert(fold_case(byte_or_nul(a, i), insensitive) == fold_case(
                byte_or_nul(b, i),
                insensitive,
            ));
            assert(a[i] != 0u8);
            if i >= b.len() {
                assert(fold_case(a[i], insensitive) != 0u8);
            }
        }
        if b.len() < a.len() {
            let i = b.len() as int;
            assert(forall|j: int| 0 <= j < i ==> byte_or_nul(a, j) != 0);
            assert(fold_case(byte_or_nul(a, i), insensitive) == fold_case(
                byte_or_nul(b, i),
                insensitive,
            ));
            assert(a[i] != 0u8);
            assert(fold_case(a[i], insensitive) != 0u8);
        }
        assert(forall|j: int| 0 <= j < a.len() ==> byte_or_nul(a, j) != 0);
        assert(fold_case(byte_or_nul(a, a.len() as int), insensitive) == fold_case(
            byte_or_nul(b, a.len() as int),
            insensitive,
        ));
        if b.len() > a.len() {
            assert(b[a.len() as int] != 0u8);
            assert(fold_case(b[a.len() as int], insensitive) != 0u8);
        }
    }
}

proof fn lemma_fuzzy_entries_below(items: Seq<Seq<char>>, pattern: Seq<char>, insensitive: bool, n: int)
    requires
        n <= usize::MAX + 1,
    ensures
        forall|k: int|
            0 <= k < spec_fuzzy_matches(items, pattern, insensitive, n).len() ==> (
            #[trigger] spec_fuzzy_matches(items, pattern, insensitive, n)[k]).0 < n,
    decreases n,
{
    if n > 0 {
        lemma_fuzzy_entries_below(items, pattern, insensitive, n - 1);
        lemma_fuzzy_step(items, pattern, insensitive, n);
    }
}

/// One step of the fuzzy matcher's list: the first `n - 1` items' entries,
/// then item `n - 1`'s when it matches.
proof fn lemma_fuzzy_step(items: Seq<Seq<char>>, pattern: Seq<char>, insensitive: bool, n: int)
    requires
        0 < n <= usize::MAX + 1,
    ensures
        ({
            let r = spec_fuzzy_matches(items, pattern, insensitive, n - 1);
            let full = spec_fuzzy_matches(items, pattern, insensitive, n);
            &&& r.len() <= full.len() <= r.len() + 1
            &&& forall|k: int| 0 <= k < r.len() ==> #[trigger] full[k] == r[k]
            &&& full.len() == r.len() + 1 ==> full[r.len() as int].0 == n - 1
            &&& (encode_utf8(pattern).len() > 0 ==> (full.len() == r.len() + 1 <==> spec_fuzzy_span(
                encode_utf8(pattern),
                encode_utf8(items[n - 1]),
                insensitive,
            ) is Some))
        }),
{
    let r = spec_fuzzy_matches(items, pattern, insensitive, n - 1);
    let full = spec_fuzzy_matches(items, pattern, insensitive, n);
    if encode_utf8(pattern).len() == 0 {
        assert(full == r.push(((n - 1) as usize, None)));
    } else {
        let sp = spec_fuzzy_span(encode_utf8(pattern), encode_utf8(items[n - 1]), insensitive);
        match sp {
            Some((s, e)) => {
                assert(full == r.push(((n - 1) as usize, Some((s as usize, e as usize)))));
            },
            None => {
                assert(full == r);
            },
        }
    }
}

/// With a non-empty pattern, the fuzzy matcher lists item `i` (of the first
/// `n`) exactly when the pattern is a subsequence of it, up to ASCII case
/// when matching ignores case.
pub proof fn lemma_fuzzy_lists_exactly_the_subsequences(
    items: Seq<Seq<char>>,
    pattern: Seq<char>,
    insensitive: bool,
    n: int,
    i: int,
)
    requires
        encode_utf8(pattern).len() > 0,
        0 <= i < n <= items.len(),
        n <= usize::MAX,
    ensures
        (exists|k: int|
            0 <= k < spec_fuzzy_matches(items, pattern, insensitive, n).len() && (
            #[trigger] spec_fuzzy_matches(items, pattern, insensitive, n)[k]).0 == i)
            <==> is_subsequence(encode_utf8(pattern), encode_utf8(items[i]), insensitive),
    decreases n,
{
    let r = spec_fuzzy_matches(items, pattern, insensitive, n - 1);
    let full = spec_fuzzy_matches(items, pattern, insensitive, n);
    lemma_fuzzy_entries_below(items, pattern, insensitive, n - 1);
    lemma_fuzzy_step(items, pattern, insensitive, n);
    lemma_fuzzy_matches_subsequences(encode_utf8(pattern), encode_utf8(items[n - 1]), insensitive);
    if i < n - 1 {
        lemma_fuzzy_lists_exactly_the_subsequences(items, pattern, insensitive, n - 1, i);
        if exists|k: int| 0 <= k < r.len() && (#[trigger] r[k]).0 == i {
            let k = choose|k: int| 0 <= k < r.len() && (#[trigger] r[k]).0 == i;
            assert(full[k] == r[k]);
        }
        if exists|k: int| 0 <= k < full.len() && (#[trigger] full[k]).0 == i {
            let k = choose|k: int| 0 <= k < full.len() && (#[trigger] full[k]).0 == i;
            if k < r.len() {
                assert(full[k] == r[k]);
            }
        }
    } else {
        if is_subsequence(encode_utf8(pattern), encode_utf8(items[i]), insensitive) {
            assert(full[r.len() as int].0 == i);
        }
        if exists|k: int| 0 <= k < full.len() && (#[trigger] full[k]).0 == i {
            let k = choose|k: int| 0 <= k < full.len() && (#[trigger] full[k]).0 == i;
            if k < r.len() {
                assert(full[k] == r[k]);
                assert(r[k].0 < n - 1);
            }
        }
    }
}

} // verus!
