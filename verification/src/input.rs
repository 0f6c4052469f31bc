//! Items from standard input: the bytes read are split into lines at
//! `\n` (a last line without its newline still counts), each line loses one
//! trailing tab and is cut at its first NUL, and lines that are not UTF-8
//! are dropped (they still count towards the list's shape). The count then
//! bounds the number of lines and columns the menu shows.
use vstd::prelude::*;
use vstd::slice::slice_subrange;
use vstd::utf8::valid_utf8;

verus! {

/// Index of the first `b` in `s` at or after `k`.
pub open spec fn first_byte(s: Seq<u8>, b: u8, k: int) -> Option<int>
    decreases s.len() - k,
{
    if k < 0 || k >= s.len() {
        None
    } else if s[k] == b {
        Some(k)
    } else {
        first_byte(s, b, k + 1)
    }
}

/// `s` split at every `\n`: one more piece than there are newlines.
pub open spec fn pieces(s: Seq<u8>) -> Seq<Seq<u8>>
    decreases s.len(),
{
    match first_byte(s, 10u8, 0) {
        Some(i) => if 0 <= i < s.len() {
            seq![s.take(i)] + pieces(s.skip(i + 1))
        } else {
            seq![s]
        },
        None => seq![s],
    }
}

/// The lines of the input: its pieces, without the empty one after a final
/// newline (or of empty input), which is the end of input, not a line.
pub open spec fn input_lines(s: Seq<u8>) -> Seq<Seq<u8>> {
    if s.len() == 0 || s.last() == 10u8 {
        pieces(s).drop_last()
    } else {
        pieces(s)
    }
}

/// How many bytes of `line` make its item: without one trailing tab, and
/// up to the first NUL.
pub open spec fn item_len(line: Seq<u8>) -> int {
    let l = if line.len() > 0 && line.last() == 9u8 {
        line.len() - 1
    } else {
        line.len() as int
    };
    match first_byte(line.take(l), 0u8, 0) {
        Some(z) => z,
        None => l,
    }
}

/// The items of the lines `ls`: each line's item bytes, for the lines
/// whose item is UTF-8.
pub open spec fn items_of(ls: Seq<Seq<u8>>) -> Seq<Seq<u8>>
    decreases ls.len(),
{
    if ls.len() == 0 {
        Seq::empty()
    } else {
        let rest = items_of(ls.drop_last());
        let it = ls.last().take(item_len(ls.last()));
        if valid_utf8(it) {
            rest.push(it)
        } else {
            rest
        }
    }
}

/// Whether `b` is UTF-8 (`std::str::from_utf8` accepts it). The contract
/// claims what std documents: `from_utf8` succeeds exactly on valid UTF-8,
/// which is what `valid_utf8` defines.
#[verifier::external_body]
fn is_utf8(b: &[u8]) -> (r: bool)
    ensures
        r == valid_utf8(b@),
{
    std::str::from_utf8(b).is_ok()
}

proof fn lemma_first_byte_bounds(s: Seq<u8>, b: u8, k: int)
    requires
        0 <= k,
    ensures
        first_byte(s, b, k) matches Some(i) ==> k <= i < s.len() && s[i] == b && forall|j: int|
            k <= j < i ==> s[j] != b,
        first_byte(s, b, k) is None ==> forall|j: int| k <= j < s.len() && 0 <= j ==> s[j] != b,
    decreases s.len() - k,
{
    if 0 <= k < s.len() && s[k] != b {
        lemma_first_byte_bounds(s, b, k + 1);
    }
}

proof fn lemma_first_byte_from(s: Seq<u8>, b: u8, k: int, j: int)
    requires
        0 <= k <= j,
        forall|q: int| k <= q < j && q < s.len() ==> s[q] != b,
    ensures
        first_byte(s, b, k) == first_byte(s, b, j),
    decreases j - k,
{
    if k < j && k < s.len() {
        lemma_first_byte_from(s, b, k + 1, j);
    }
}

proof fn lemma_first_byte_shift(s: Seq<u8>, b: u8, start: int, k: int)
    requires
        0 <= start <= s.len(),
        0 <= k,
    ensures
        first_byte(s.skip(start), b, k) == match first_byte(s, b, start + k) {
            Some(i) => Some(i - start),
            None => None,
        },
    decreases s.len() - start - k,
{
    if k < s.len() - start {
        assert(s.skip(start)[k] == s[start + k]);
        if s[start + k] != b {
            lemma_first_byte_shift(s, b, start, k + 1);
        }
    }
}

/// The item of the line `s[start..end]`: its bounds in `s`.
fn item_range(s: &[u8], start: usize, end: usize) -> (r: usize)
    requires
        start <= end <= s@.len(),
    ensures
        r == start + item_len(s@.subrange(start as int, end as int)),
        start <= r <= end,
{
    let ghost line = s@.subrange(start as int, end as int);
    let l = if end > start && s[end - 1] == 9u8 {
        end - 1
    } else {
        end
    };
    assert(line.len() == end - start);
    assert(line.len() > 0 ==> line.last() == s@[end - 1]);
    assert(line.take(l - start) =~= s@.subrange(start as int, l as int));
    let mut k = start;
    while k < l
        invariant
            start <= k <= l <= end <= s@.len(),
            line == s@.subrange(start as int, end as int),
            line.take(l - start) == s@.subrange(start as int, l as int),
            forall|q: int| start <= q < k ==> s@[q] != 0u8,
            l - start == (if line.len() > 0 && line.last() == 9u8 {
                line.len() - 1
            } else {
                line.len() as int
            }),
        decreases l - k,
    {
        if s[k] == 0u8 {
            proof {
                let t = line.take(l - start);
                assert forall|q: int| 0 <= q < k - start && q < t.len() implies t[q] != 0u8 by {
                    assert(t[q] == s@[start + q]);
                }
                lemma_first_byte_from(t, 0u8, 0, k - start);
                assert(t[k - start] == 0u8);
                assert(first_byte(t, 0u8, k - start) == Some(k - start));
                let ll = if line.len() > 0 && line.last() == 9u8 {
                    line.len() - 1
                } else {
                    line.len() as int
                };
                assert(ll == l - start);
                assert(item_len(line) == k - start);
            }
            return k;
        }
        k += 1;
    }
    proof {
        let t = line.take(l - start);
        lemma_first_byte_bounds(t, 0u8, 0);
        assert(first_byte(t, 0u8, 0) is None) by {
            if first_byte(t, 0u8, 0) is Some {
                let i = first_byte(t, 0u8, 0)->0;
                assert(t[i] == s@[start + i]);
            }
        }
    }
    l
}

pub open spec fn range_views(s: Seq<u8>, r: Seq<(usize, usize)>) -> Seq<Seq<u8>> {
    r.map_values(|p: (usize, usize)| s.subrange(p.0 as int, p.1 as int))
}

proof fn lemma_pieces_step(s: Seq<u8>, start: int, j: int)
    requires
        0 <= start <= j < s.len(),
        s[j] == 10u8,
        forall|q: int| start <= q < j ==> s[q] != 10u8,
    ensures
        pieces(s.skip(start)) == seq![s.subrange(start, j)] + pieces(s.skip(j + 1)),
{
    let t = s.skip(start);
    lemma_first_byte_shift(s, 10u8, start, 0);
    lemma_first_byte_from(s, 10u8, start, j);
    assert(first_byte(t, 10u8, 0) == Some(j - start));
    assert(t.take(j - start) =~= s.subrange(start, j));
    assert(t.skip(j - start + 1) =~= s.skip(j + 1));
}

proof fn lemma_pieces_last(s: Seq<u8>, start: int)
    requires
        0 <= start <= s.len(),
        forall|q: int| start <= q < s.len() ==> s[q] != 10u8,
    ensures
        pieces(s.skip(start)) == seq![s.skip(start)],
{
    let t = s.skip(start);
    lemma_first_byte_shift(s, 10u8, start, 0);
    lemma_first_byte_bounds(s, 10u8, start);
}

/// The items stdin's bytes make, as `[from, to)` ranges of `input`, and how
/// many lines there were (kept or not).
pub fn stdin_items(input: &[u8]) -> (r: (Vec<(usize, usize)>, usize))
    ensures
        range_views(input@, r.0@) == items_of(input_lines(input@)),
        r.1 == input_lines(input@).len(),
        forall|k: int| 0 <= k < r.0@.len() ==> (#[trigger] r.0@[k]).0 <= r.0@[k].1 <= input@.len(),
{
    let n = input.len();
    let mut out: Vec<(usize, usize)> = Vec::new();
    let ghost mut done: Seq<Seq<u8>> = Seq::empty();
    let mut count: usize = 0;
    let mut start: usize = 0;
    let mut j: usize = 0;
    assert(input@.skip(0) =~= input@);
    while j < n
        invariant
            n == input@.len(),
            start <= j <= n,
            forall|q: int| start <= q < j ==> input@[q] != 10u8,
            done + pieces(input@.skip(start as int)) == pieces(input@),
            count == done.len(),
            count <= start,
            range_views(input@, out@) == items_of(done),
            forall|k: int| 0 <= k < out@.len() ==> (#[trigger] out@[k]).0 <= out@[k].1 <= input@.len(),
            start > 0 ==> input@[start - 1] == 10u8,
        decreases n - j,
    {
        if input[j] == 10u8 {
            proof {
                lemma_pieces_step(input@, start as int, j as int);
                assert(done.push(input@.subrange(start as int, j as int)) + pieces(
                    input@.skip(j + 1),
                ) =~= done + (seq![input@.subrange(start as int, j as int)] + pieces(
                    input@.skip(j + 1),
                )));
            }
            let e = item_range(input, start, j);
            let ghost line = input@.subrange(start as int, j as int);
            let ghost it = line.take(item_len(line));
            assert(input@.subrange(start as int, e as int) =~= it);
            let ghost done2 = done.push(line);
            assert(done2.drop_last() =~= done);
            if is_utf8(slice_subrange(input, start, e)) {
                out.push((start, e));
                assert(range_views(input@, out@) =~= items_of(done).push(it));
            }
            proof {
                done = done2;
            }
            count = count + 1;
            start = j + 1;
        }
        j += 1;
    }
    proof {
        lemma_pieces_last(input@, start as int);
    }
    let ghost all = pieces(input@);
    assert(all =~= done.push(input@.skip(start as int)));
    if start < n {
        let e = item_range(input, start, n);
        let ghost line = input@.subrange(start as int, n as int);
        assert(line =~= input@.skip(start as int));
        assert(input@.subrange(start as int, e as int) =~= line.take(item_len(line)));
        assert(input@.last() != 10u8);
        assert(all.drop_last() =~= done);
        if is_utf8(slice_subrange(input, start, e)) {
            out.push((start, e));
            assert(range_views(input@, out@) =~= items_of(done).push(line.take(item_len(line))));
        }
        count = count + 1;
    } else {
        assert(input@.skip(start as int) =~= Seq::<u8>::empty());
        assert(all.drop_last() =~= done);
        assert(n == 0 || input@.last() == 10u8);
    }
    (out, count)
}

/// The ceiling of `a / b`.
pub open spec fn ceil_div(a: int, b: int) -> int {
    a / b + if a % b != 0 {
        1int
    } else {
        0int
    }
}

/// The list's shape for `count` items: no more lines than the items fill
/// in `columns` columns, and then (with more than one column and some
/// lines) no more columns than the items fill in those lines.
pub open spec fn spec_list_shape(lines: i32, columns: i32, count: int) -> (i32, i32) {
    let l = if ceil_div(count, columns as int) < lines {
        ceil_div(count, columns as int) as i32
    } else {
        lines
    };
    let c = if columns != 1 && l != 0 {
        if ceil_div(count, l as int) < columns {
            ceil_div(count, l as int) as i32
        } else {
            columns
        }
    } else {
        columns
    };
    (l, c)
}

fn ceil_div_exec(a: u64, b: u64) -> (r: u64)
    requires
        b > 0,
    ensures
        r == ceil_div(a as int, b as int),
        r <= a,
{
    assert(a / b <= a) by (nonlinear_arith)
        requires
            b > 0,
    ;
    let q = a / b;
    if a % b != 0 {
        assert(q < a) by (nonlinear_arith)
            requires
                q == a / b,
                a % b != 0,
                b > 0,
        ;
        q + 1
    } else {
        q
    }
}

/// The lines and columns the menu shows for `count` items.
pub fn list_shape(lines: i32, columns: i32, count: usize) -> (r: (i32, i32))
    requires
        lines >= 0,
        columns >= 1,
    ensures
        r == spec_list_shape(lines, columns, count as int),
{
    let a = ceil_div_exec(count as u64, columns as u64);
    let l: i32 = if a < lines as u64 {
        a as i32
    } else {
        lines
    };
    let c: i32 = if columns != 1 && l != 0 {
        let b = ceil_div_exec(count as u64, l as u64);
        if b < columns as u64 {
            b as i32
        } else {
            columns
        }
    } else {
        columns
    };
    (l, c)
}

} // verus!
