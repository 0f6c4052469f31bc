//! Strict integer parsing, as Rust's `FromStr` / `from_str_radix` read
//! integers: an optional sign followed by at least one digit, and a value
//! inside the target type's range.
use vstd::prelude::*;

verus! {

/// The value of digit `c` in the given radix (10 or 16), or -1.
pub open spec fn digit_value(c: char, radix: int) -> int {
    if '0' <= c <= '9' {
        c as int - '0' as int
    } else if radix == 16 && 'a' <= c <= 'f' {
        c as int - 'a' as int + 10
    } else if radix == 16 && 'A' <= c <= 'F' {
        c as int - 'A' as int + 10
    } else {
        -1
    }
}

/// The number the digits `d` spell in `radix`.
pub open spec fn radix_value(d: Seq<char>, radix: int) -> int
    decreases d.len(),
{
    if d.len() == 0 {
        0
    } else {
        radix_value(d.drop_last(), radix) * radix + digit_value(d.last(), radix)
    }
}

pub open spec fn all_digits(d: Seq<char>, radix: int) -> bool {
    forall|i: int| 0 <= i < d.len() ==> digit_value(#[trigger] d[i], radix) >= 0
}

/// The integer `s` spells: `+` may lead, `-` too when `signed`, and at
/// least one digit follows.
pub open spec fn int_value(s: Seq<char>, radix: int, signed: bool) -> Option<int> {
    if s.len() == 0 {
        None
    } else {
        let neg = signed && s[0] == '-';
        let d = if s[0] == '+' || neg {
            s.skip(1)
        } else {
            s
        };
        if d.len() == 0 || !all_digits(d, radix) {
            None
        } else if neg {
            Some(-radix_value(d, radix))
        } else {
            Some(radix_value(d, radix))
        }
    }
}

/// The value of `s` when it spells an integer in `[lo, hi]`.
pub open spec fn int_in_range(s: Seq<char>, radix: int, signed: bool, lo: int, hi: int) -> Option<
    int,
> {
    match int_value(s, radix, signed) {
        Some(v) => if lo <= v <= hi {
            Some(v)
        } else {
            None
        },
        None => None,
    }
}

proof fn lemma_radix_value_prefix(d: Seq<char>, radix: int, i: int)
    requires
        radix == 10 || radix == 16,
        0 <= i <= d.len(),
        all_digits(d, radix),
    ensures
        0 <= radix_value(d.take(i), radix) <= radix_value(d, radix),
    decreases d.len() - i,
{
    if i < d.len() {
        lemma_radix_value_prefix(d, radix, i + 1);
        assert(d.take(i + 1).drop_last() =~= d.take(i));
        assert(digit_value(d[i], radix) >= 0);
        assert(radix_value(d.take(i + 1), radix) == radix_value(d.take(i), radix) * radix
            + digit_value(d[i], radix));
        assert(radix_value(d.take(i), radix) * radix >= radix_value(d.take(i), radix)) by (
        nonlinear_arith)
            requires
                radix_value(d.take(i), radix) >= 0,
                radix >= 1,
        ;
    } else {
        assert(d.take(i) =~= d);
        lemma_radix_value_nonneg(d, radix);
    }
}

proof fn lemma_radix_value_nonneg(d: Seq<char>, radix: int)
    requires
        radix == 10 || radix == 16,
        all_digits(d, radix),
    ensures
        radix_value(d, radix) >= 0,
    decreases d.len(),
{
    if d.len() > 0 {
        assert(all_digits(d.drop_last(), radix)) by {
            assert forall|i: int| 0 <= i < d.drop_last().len() implies digit_value(
                #[trigger] d.drop_last()[i],
                radix,
            ) >= 0 by {
                assert(d.drop_last()[i] == d[i]);
            }
        }
        lemma_radix_value_nonneg(d.drop_last(), radix);
        assert(digit_value(d[d.len() - 1], radix) >= 0);
        assert(radix_value(d.drop_last(), radix) * radix >= 0) by (nonlinear_arith)
            requires
                radix_value(d.drop_last(), radix) >= 0,
                radix >= 1,
        ;
    }
}

/// The integer `cs[from..to]` spells, when it lies in `[lo, hi]`
/// (`0 <= hi < 2^58`, `-2^58 < lo`).
pub fn parse_int(cs: &[char], from: usize, to: usize, radix: u32, signed: bool, lo: i64, hi: i64) -> (r:
    Option<i64>)
    requires
        from <= to <= cs@.len(),
        radix == 10 || radix == 16,
        -0x0400_0000_0000_0000 < lo <= 0 <= hi < 0x0400_0000_0000_0000,
    ensures
        match r {
            Some(v) => int_in_range(cs@.subrange(from as int, to as int), radix as int, signed, lo as int, hi as int) == Some(v as int),
            None => int_in_range(cs@.subrange(from as int, to as int), radix as int, signed, lo as int, hi as int) is None,
        },
{
    let ghost s = cs@.subrange(from as int, to as int);
    if from == to {
        return None;
    }
    let first = cs[from];
    let neg = signed && first == '-';
    let start = if first == '+' || neg {
        from + 1
    } else {
        from
    };
    let ghost d = cs@.subrange(start as int, to as int);
    assert(d == (if s[0] == '+' || neg { s.skip(1) } else { s }));
    if start == to {
        return None;
    }
    let bound: u64 = if neg { (-(lo as i128)) as u64 } else { hi as u64 };
    let mut acc: u64 = 0;
    let mut i = start;
    while i < to
        invariant
            start <= i <= to <= cs@.len(),
            from <= start,
            s == cs@.subrange(from as int, to as int),
            s.len() > 0,
            neg == (signed && s[0] == '-'),
            d == (if s[0] == '+' || neg { s.skip(1) } else { s }),
            d.len() > 0,
            bound == (if neg { -lo } else { hi as int }),
            -0x0400_0000_0000_0000 < lo <= 0 <= hi < 0x0400_0000_0000_0000,
            d == cs@.subrange(start as int, to as int),
            radix == 10 || radix == 16,
            forall|j: int| start <= j < i ==> digit_value(#[trigger] cs@[j], radix as int) >= 0,
            acc == radix_value(cs@.subrange(start as int, i as int), radix as int),
            acc <= bound,
            bound < 0x0400_0000_0000_0000,
        decreases to - i,
    {
        let c = cs[i];
        let dv: u64 = if '0' <= c && c <= '9' {
            (c as u64) - ('0' as u64)
        } else if radix == 16 && 'a' <= c && c <= 'f' {
            (c as u64) - ('a' as u64) + 10
        } else if radix == 16 && 'A' <= c && c <= 'F' {
            (c as u64) - ('A' as u64) + 10
        } else {
            assert(!all_digits(d, radix as int)) by {
                assert(d[i - start] == cs@[i as int]);
            }
            return None;
        };
        assert(cs@.subrange(start as int, i + 1).drop_last() =~= cs@.subrange(start as int, i as int));
        assert(acc * (radix as u64) <= 0x0400_0000_0000_0000 * 16) by (nonlinear_arith)
            requires
                acc <= 0x0400_0000_0000_0000,
                radix <= 16,
        ;
        let next: u64 = acc * (radix as u64) + dv;
        if next > bound {
            proof {
                assert(all_digits(d, radix as int) ==> radix_value(d, radix as int) > bound) by {
                    if all_digits(d, radix as int) {
                        lemma_radix_value_prefix(d, radix as int, i + 1 - start);
                        assert(d.take(i + 1 - start) =~= cs@.subrange(start as int, i + 1));
                    }
                }
            }
            return None;
        }
        acc = next;
        i += 1;
    }
    assert(cs@.subrange(start as int, to as int) =~= d);
    assert(all_digits(d, radix as int)) by {
        assert forall|j: int| 0 <= j < d.len() implies digit_value(#[trigger] d[j], radix as int) >= 0 by {
            assert(d[j] == cs@[start + j]);
        }
    }
    if neg {
        Some(-(acc as i64))
    } else {
        Some(acc as i64)
    }
}

} // verus!
