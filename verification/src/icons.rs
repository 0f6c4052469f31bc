//! Icon resolution for item entries.
//!
//! The icon field of an entry may spell a glyph three ways, all resolved by
//! [`lookup`]:
//!
//! - the literal glyph (a Nerd Fonts codepoint or an emoji),
//! - its name: `power-off`, `power_off`, `poweroff` and `power off` all
//!   resolve, with or without a family qualifier (`md-`, `fa-`, ... and the
//!   old `nf-` prefix),
//! - a hex codepoint (`f011`, `0xf011`, `u+f011`) that lands in an icon or
//!   emoji range, so incidental hex words do not resolve.
use vstd::prelude::*;

use crate::text::{
    ascii_lower, chars_of, is_alnum, is_ascii_alnum, is_white_space, is_whitespace, to_lower,
};

pub mod names;

use names::{alias_table, bare_table, qualified_table, name_views, pair_views};

verus! {

broadcast use vstd::string::group_string_axioms;

/// The private-use ranges Nerd Fonts icons live in.
pub open spec fn is_icon_code(u: u32) -> bool {
    (0xE000 <= u <= 0xF8FF) || (0xF0000 <= u <= 0xFFFFD) || (0x100000 <= u <= 0x10FFFD)
}

/// The emoji/symbol ranges.
pub open spec fn is_emoji_code(u: u32) -> bool {
    u >= 0x1F000 || (0x2600 <= u <= 0x27BF) || (0x2190 <= u <= 0x21FF) || (0x2B00 <= u <= 0x2BFF)
}

/// Whether `u` is a Unicode scalar value (a `char`).
pub open spec fn is_scalar(u: u32) -> bool {
    u <= 0xD7FF || (0xE000 <= u <= 0x10FFFF)
}

/// The character with scalar value `u`, if there is one.
pub open spec fn scalar_char(u: u32) -> Option<char> {
    if is_scalar(u) {
        Some(u as char)
    } else {
        None
    }
}

/// Whether `c` is in the private-use ranges Nerd Fonts icons live in
/// (the ranges the renderer routes to the secondary font).
pub fn is_icon_char(c: char) -> (b: bool)
    ensures
        b == is_icon_code(c as u32),
{
    let u = c as u32;
    (0xE000 <= u && u <= 0xF8FF) || (0xF0000 <= u && u <= 0xFFFFD) || (0x100000 <= u && u
        <= 0x10FFFD)
}

/// Whether `c` is in the emoji/symbol ranges (routed to the emoji font).
pub fn is_emoji_char(c: char) -> (b: bool)
    ensures
        b == is_emoji_code(c as u32),
{
    let u = c as u32;
    u >= 0x1F000 || (0x2600 <= u && u <= 0x27BF) || (0x2190 <= u && u <= 0x21FF) || (0x2B00 <= u
        && u <= 0x2BFF)
}

/// `char::from_u32`: the character with scalar value `u`, or `None` when
/// `u` is a surrogate or beyond U+10FFFF.
#[verifier::external_body]
fn char_from_u32(u: u32) -> (r: Option<char>)
    ensures
        r == scalar_char(u),
        r matches Some(c) ==> c as u32 == u,
{
    char::from_u32(u)
}

/// Index of the first non-white-space character of `s` at or after `i`.
pub open spec fn skip_ws(s: Seq<char>, i: int) -> int
    decreases s.len() - i,
{
    if 0 <= i < s.len() && is_white_space(s[i]) {
        skip_ws(s, i + 1)
    } else {
        i
    }
}

/// End of `s[lo..j]` once trailing white space is dropped.
pub open spec fn trim_end_at(s: Seq<char>, lo: int, j: int) -> int
    decreases j - lo,
{
    if lo < j && is_white_space(s[j - 1]) {
        trim_end_at(s, lo, j - 1)
    } else {
        j
    }
}

/// `s` without leading and trailing white space (`str::trim`).
pub open spec fn trim(s: Seq<char>) -> Seq<char> {
    let a = skip_ws(s, 0);
    s.subrange(a, trim_end_at(s, a, s.len() as int))
}

/// The lookup key of a name: ASCII letters and digits only, lowercased.
pub open spec fn normalize_key(s: Seq<char>) -> Seq<char>
    decreases s.len(),
{
    if s.len() == 0 {
        Seq::empty()
    } else {
        let r = normalize_key(s.drop_last());
        if is_ascii_alnum(s.last()) {
            r.push(ascii_lower(s.last()))
        } else {
            r
        }
    }
}

/// The value of the first entry of `table` named `key`.
pub open spec fn table_find<V>(table: Seq<(Seq<char>, V)>, key: Seq<char>) -> Option<V>
    decreases table.len(),
{
    if table.len() == 0 {
        None
    } else if table[0].0 == key {
        Some(table[0].1)
    } else {
        table_find(table.drop_first(), key)
    }
}

pub open spec fn or_else(a: Option<u32>, b: Option<u32>) -> Option<u32> {
    if a is Some {
        a
    } else {
        b
    }
}

pub open spec fn starts_with(s: Seq<char>, p: Seq<char>) -> bool {
    p.len() <= s.len() && s.subrange(0, p.len() as int) == p
}

/// The codepoint a normalized name resolves to: an alias (through the bare
/// table), then the bare name, then the family-qualified one, and finally
/// the qualified one behind the old `nf` prefix.
pub open spec fn name_code(key: Seq<char>) -> Option<u32> {
    let via_alias = match table_find(alias_table(), key) {
        Some(target) => table_find(bare_table(), target),
        None => None,
    };
    let nf = if starts_with(key, seq!['n', 'f']) {
        table_find(qualified_table(), key.skip(2))
    } else {
        None
    };
    or_else(
        via_alias,
        or_else(table_find(bare_table(), key), or_else(table_find(qualified_table(), key), nf)),
    )
}

pub open spec fn hex_digit_value(c: char) -> int {
    if '0' <= c <= '9' {
        c as int - '0' as int
    } else if 'a' <= c <= 'f' {
        c as int - 'a' as int + 10
    } else {
        c as int - 'A' as int + 10
    }
}

pub open spec fn is_hex_digit(c: char) -> bool {
    ('0' <= c <= '9') || ('a' <= c <= 'f') || ('A' <= c <= 'F')
}

/// The number the hex digits `d` spell.
pub open spec fn hex_value(d: Seq<char>) -> int
    decreases d.len(),
{
    if d.len() == 0 {
        0
    } else {
        hex_value(d.drop_last()) * 16 + hex_digit_value(d.last())
    }
}

/// `key` without its optional `0x` and then `u` prefixes.
pub open spec fn hex_digits(key: Seq<char>) -> Seq<char> {
    let d0 = if starts_with(key, seq!['0', 'x']) {
        key.skip(2)
    } else {
        key
    };
    if starts_with(d0, seq!['u']) {
        d0.skip(1)
    } else {
        d0
    }
}

/// The hex-codepoint spelling: `0x` and then `u` are optional prefixes,
/// three to six hex digits follow, and the codepoint must be an icon or
/// emoji character.
pub open spec fn hex_glyph(key: Seq<char>) -> Option<char> {
    let d = hex_digits(key);
    if 3 <= d.len() <= 6 && (forall|i: int| 0 <= i < d.len() ==> is_hex_digit(#[trigger] d[i])) {
        let v = hex_value(d) as u32;
        if is_scalar(v) && (is_icon_code(v) || is_emoji_code(v)) {
            Some(v as char)
        } else {
            None
        }
    } else {
        None
    }
}

/// What an icon field resolves to.
pub open spec fn spec_lookup(spec: Seq<char>) -> Option<char> {
    let s = trim(spec);
    if s.len() == 1 && (is_icon_code(s[0] as u32) || is_emoji_code(s[0] as u32)) {
        Some(s[0])
    } else {
        let key = normalize_key(s);
        if key.len() == 0 {
            None
        } else {
            match name_code(key) {
                Some(code) => scalar_char(code),
                None => hex_glyph(key),
            }
        }
    }
}


/// Whether `a` equals `b[from..]`.
pub fn chars_eq_from(a: &[char], b: &[char], from: usize) -> (r: bool)
    requires
        from <= b@.len(),
    ensures
        r == (a@ == b@.skip(from as int)),
{
    let bl = b.len();
    if a.len() != bl - from {
        return false;
    }
    let mut i: usize = 0;
    while i < a.len()
        invariant
            a@.len() == b@.len() - from,
            from <= b@.len(),
            from + a@.len() == b@.len(),
            bl == b@.len(),
            i <= a@.len(),
            forall|j: int| 0 <= j < i ==> a@[j] == b@[from + j],
        decreases a.len() - i,
    {
        if a[i] != b[from + i] {
            assert(a@[i as int] != b@.skip(from as int)[i as int]);
            return false;
        }
        i += 1;
    }
    assert(a@ =~= b@.skip(from as int));
    true
}

proof fn lemma_table_find_skip<V>(t: Seq<(Seq<char>, V)>, key: Seq<char>, i: int)
    requires
        0 <= i < t.len(),
    ensures
        table_find(t.skip(i), key) == if t[i].0 == key {
            Some(t[i].1)
        } else {
            table_find(t.skip(i + 1), key)
        },
{
    assert(t.skip(i).drop_first() =~= t.skip(i + 1));
}

/// The value of the first entry of `table` named `key`.
fn find_code(table: &Vec<(&'static str, u32)>, key: &[char], from: usize) -> (r: Option<u32>)
    requires
        from <= key@.len(),
    ensures
        r == table_find(name_views(table@), key@.skip(from as int)),
{
    let ghost views = name_views(table@);
    let mut i: usize = 0;
    assert(views.skip(0) =~= views);
    while i < table.len()
        invariant
            views == name_views(table@),
            i <= table@.len(),
            from <= key@.len(),
            table_find(views, key@.skip(from as int)) == table_find(
                views.skip(i as int),
                key@.skip(from as int),
            ),
        decreases table.len() - i,
    {
        proof {
            lemma_table_find_skip(views, key@.skip(from as int), i as int);
        }
        let (name, code) = table[i];
        let name_chars = chars_of(name);
        if chars_eq_from(&name_chars, key, from) {
            return Some(code);
        }
        i += 1;
    }
    assert(views.skip(i as int).len() == 0);
    None
}

/// The target of the first pair in `table` named `key`.
pub(crate) fn find_alias(table: &Vec<(&'static str, &'static str)>, key: &[char]) -> (r: Option<&'static str>)
    ensures
        match r {
            Some(t) => table_find(pair_views(table@), key@) == Some(t@),
            None => table_find(pair_views(table@), key@) is None,
        },
{
    let ghost views = pair_views(table@);
    let mut i: usize = 0;
    assert(views.skip(0) =~= views);
    while i < table.len()
        invariant
            views == pair_views(table@),
            i <= table@.len(),
            table_find(views, key@) == table_find(views.skip(i as int), key@),
        decreases table.len() - i,
    {
        proof {
            lemma_table_find_skip(views, key@, i as int);
        }
        let (name, target) = table[i];
        let name_chars = chars_of(name);
        assert(key@.skip(0) =~= key@);
        if chars_eq_from(&name_chars, key, 0) {
            return Some(target);
        }
        i += 1;
    }
    assert(views.skip(i as int).len() == 0);
    None
}

/// The bounds `(a, b)` of `cs` without leading and trailing white space.
pub fn trim_bounds(cs: &[char]) -> (r: (usize, usize))
    ensures
        r.0 == skip_ws(cs@, 0),
        r.1 == trim_end_at(cs@, r.0 as int, cs@.len() as int),
        r.0 <= r.1 <= cs@.len(),
{
    let mut a: usize = 0;
    while a < cs.len() && is_whitespace(cs[a])
        invariant
            a <= cs@.len(),
            skip_ws(cs@, 0) == skip_ws(cs@, a as int),
        decreases cs.len() - a,
    {
        a += 1;
    }
    let mut b: usize = cs.len();
    while a < b && is_whitespace(cs[b - 1])
        invariant
            a <= b <= cs@.len(),
            trim_end_at(cs@, a as int, cs@.len() as int) == trim_end_at(cs@, a as int, b as int),
        decreases b - a,
    {
        b -= 1;
    }
    (a, b)
}

/// The lookup key of `cs[from..to]`.
pub fn normalize_range(cs: &[char], from: usize, to: usize) -> (r: Vec<char>)
    requires
        from <= to <= cs@.len(),
    ensures
        r@ == normalize_key(cs@.subrange(from as int, to as int)),
{
    let mut r: Vec<char> = Vec::new();
    let mut i = from;
    assert(cs@.subrange(from as int, from as int).len() == 0);
    while i < to
        invariant
            from <= i <= to <= cs@.len(),
            r@ == normalize_key(cs@.subrange(from as int, i as int)),
        decreases to - i,
    {
        assert(cs@.subrange(from as int, i + 1).drop_last() =~= cs@.subrange(from as int, i as int));
        let c = cs[i];
        if is_alnum(c) {
            r.push(to_lower(c));
        }
        i += 1;
    }
    r
}


/// `16^n`.
pub open spec fn pow16(n: nat) -> int
    decreases n,
{
    if n == 0 {
        1
    } else {
        16 * pow16((n - 1) as nat)
    }
}

proof fn lemma_hex_value_bound(d: Seq<char>)
    requires
        forall|i: int| 0 <= i < d.len() ==> is_hex_digit(#[trigger] d[i]),
    ensures
        0 <= hex_value(d) < pow16(d.len()),
    decreases d.len(),
{
    if d.len() > 0 {
        lemma_hex_value_bound(d.drop_last());
        assert(is_hex_digit(d[d.len() - 1]));
    }
}

proof fn lemma_pow16_mono(a: nat, b: nat)
    requires
        a <= b,
    ensures
        1 <= pow16(a) <= pow16(b),
    decreases b,
{
    if b > a {
        lemma_pow16_mono(a, (b - 1) as nat);
    } else if a > 0 {
        lemma_pow16_mono((a - 1) as nat, (a - 1) as nat);
    }
}

/// The value of the hex digits `d[from..]` (at most six of them), or `None`
/// when one of them is not a hex digit.
fn parse_hex6(d: &[char], from: usize) -> (r: Option<u32>)
    requires
        from <= d@.len(),
        d@.len() - from <= 6,
    ensures
        match r {
            Some(v) => (forall|i: int|
                0 <= i < d@.skip(from as int).len() ==> is_hex_digit(#[trigger] d@.skip(from as int)[i]))
                && v == hex_value(d@.skip(from as int)),
            None => !(forall|i: int|
                0 <= i < d@.skip(from as int).len() ==> is_hex_digit(#[trigger] d@.skip(from as int)[i])),
        },
{
    let mut v: u32 = 0;
    let mut i = from;
    assert(d@.subrange(from as int, from as int).len() == 0);
    while i < d.len()
        invariant
            from <= i <= d@.len(),
            d@.len() - from <= 6,
            forall|j: int| from <= j < i ==> is_hex_digit(#[trigger] d@[j]),
            v == hex_value(d@.subrange(from as int, i as int)),
            v < pow16((i - from) as nat),
        decreases d.len() - i,
    {
        let c = d[i];
        let digit: u32 = if '0' <= c && c <= '9' {
            (c as u32) - ('0' as u32)
        } else if 'a' <= c && c <= 'f' {
            (c as u32) - ('a' as u32) + 10
        } else if 'A' <= c && c <= 'F' {
            (c as u32) - ('A' as u32) + 10
        } else {
            assert(!is_hex_digit(d@.skip(from as int)[i - from]));
            return None;
        };
        proof {
            lemma_pow16_mono((i - from) as nat, 5);
            assert(pow16(5) == 1048576) by {
                reveal_with_fuel(pow16, 6);
            }
            assert(d@.subrange(from as int, i + 1).drop_last() =~= d@.subrange(from as int, i as int));
        }
        v = v * 16 + digit;
        i += 1;
    }
    assert(d@.subrange(from as int, d@.len() as int) =~= d@.skip(from as int));
    Some(v)
}

/// Resolve the icon field `cs` to the glyph it names.
pub fn lookup_chars(cs: &[char]) -> (r: Option<char>)
    ensures
        r == spec_lookup(cs@),
{
    let (a, b) = trim_bounds(cs);
    let ghost s = cs@.subrange(a as int, b as int);
    if b - a == 1 {
        let c = cs[a];
        if is_icon_char(c) || is_emoji_char(c) {
            return Some(c);
        }
    }
    let key = normalize_range(cs, a, b);
    if key.len() == 0 {
        return None;
    }
    assert(key@.skip(0) =~= key@);
    let aliases = names::aliases();
    let bare = names::bare();
    let qualified = names::qualified();
    let via_alias = match find_alias(&aliases, &key) {
        Some(target) => {
            let target_chars = chars_of(target);
            assert(target_chars@.skip(0) =~= target_chars@);
            find_code(&bare, &target_chars, 0)
        },
        None => None,
    };
    let code = if via_alias.is_some() {
        via_alias
    } else {
        let bare_code = find_code(&bare, &key, 0);
        if bare_code.is_some() {
            bare_code
        } else {
            let qualified_code = find_code(&qualified, &key, 0);
            if qualified_code.is_some() {
                qualified_code
            } else if key.len() >= 2 && key[0] == 'n' && key[1] == 'f' {
                assert(key@.subrange(0, 2) =~= seq!['n', 'f']);
                find_code(&qualified, &key, 2)
            } else {
                assert(!starts_with(key@, seq!['n', 'f'])) by {
                    if starts_with(key@, seq!['n', 'f']) {
                        assert(key@.subrange(0, 2)[0] == 'n');
                        assert(key@.subrange(0, 2)[1] == 'f');
                    }
                }
                None
            }
        }
    };
    if let Some(code) = code {
        return char_from_u32(code);
    }
    /* a hex codepoint: `0x` and `u` prefixes are optional */
    let mut from: usize = 0;
    if key.len() >= 2 && key[0] == '0' && key[1] == 'x' {
        assert(key@.subrange(0, 2) =~= seq!['0', 'x']);
        from = 2;
    } else {
        assert(!starts_with(key@, seq!['0', 'x'])) by {
            if starts_with(key@, seq!['0', 'x']) {
                assert(key@.subrange(0, 2)[0] == '0');
                assert(key@.subrange(0, 2)[1] == 'x');
            }
        }
    }
    let ghost d0 = key@.skip(from as int);
    assert(d0 == if starts_with(key@, seq!['0', 'x']) { key@.skip(2) } else { key@ });
    if from < key.len() && key[from] == 'u' {
        assert(d0.subrange(0, 1) =~= seq!['u']);
        assert(key@.skip(from + 1) =~= d0.skip(1));
        from = from + 1;
    } else {
        assert(!starts_with(d0, seq!['u'])) by {
            if starts_with(d0, seq!['u']) {
                assert(d0.subrange(0, 1)[0] == 'u');
            }
        }
    }
    let ghost d = key@.skip(from as int);
    assert(d == hex_digits(key@));
    assert(name_code(key@) is None);
    assert(key@ == normalize_key(trim(cs@)));
    assert(spec_lookup(cs@) == hex_glyph(key@));
    let n = key.len() - from;
    if n < 3 || n > 6 {
        return None;
    }
    let result = match parse_hex6(&key, from) {
        Some(value) => {
            proof {
                lemma_hex_value_bound(key@.skip(from as int));
                lemma_pow16_mono(d.len(), 6);
                assert(pow16(6) == 16777216) by {
                    reveal_with_fuel(pow16, 7);
                }
                assert(hex_value(d) as u32 == value);
                assert(forall|i: int| 0 <= i < d.len() ==> is_hex_digit(#[trigger] d[i]));
                assert(3 <= d.len() <= 6);
                assert(hex_glyph(key@) == (if is_scalar(value) && (is_icon_code(value) || is_emoji_code(value)) { Some(value as char) } else { None }));
            }
            match char_from_u32(value) {
                Some(c) => {
                    assert(c == value as char);
                    if is_icon_char(c) || is_emoji_char(c) {
                        assert(hex_glyph(key@) == Some(c));
                        Some(c)
                    } else {
                        assert(hex_glyph(key@) is None);
                        None
                    }
                },
                None => {
                    assert(hex_glyph(key@) is None);
                    None
                },
            }
        },
        None => {
            assert(!(forall|i: int| 0 <= i < d.len() ==> is_hex_digit(#[trigger] d[i])));
            assert(hex_glyph(key@) is None);
            None
        },
    };
    assert(result == hex_glyph(key@));
    assert(result == spec_lookup(cs@));
    result
}


/// Resolve an icon field to the glyph it names, or `None` when it spells
/// no icon (the entry then renders its exact text instead).
pub fn lookup(spec: &str) -> (r: Option<char>)
    ensures
        r == spec_lookup(spec@),
{
    let cs = chars_of(spec);
    lookup_chars(&cs)
}

/// The lookup key of a name: lowercase, separators dropped (`power-off`,
/// `power_off` and `poweroff` share one key).
pub fn normalize(spec: &str) -> (r: String)
    ensures
        r@ == normalize_key(spec@),
{
    let cs = chars_of(spec);
    let key = normalize_range(&cs, 0, cs.len());
    assert(cs@.subrange(0, cs@.len() as int) =~= cs@);
    crate::text::string_of(&key, 0, key.len())
}

/// One discoverable Nerd Fonts icon. Names are normalized, family-qualified
/// lookup keys such as `mdpoweroff`.
#[derive(Debug, Clone, Copy, PartialEq, Eq)]
pub struct CatalogIcon {
    pub name: &'static str,
    pub glyph: char,
}

/// The catalog entries of `table`: every entry whose codepoint is a `char`.
pub open spec fn catalog_of(table: Seq<(Seq<char>, u32)>) -> Seq<(Seq<char>, char)>
    decreases table.len(),
{
    if table.len() == 0 {
        Seq::empty()
    } else {
        let rest = catalog_of(table.drop_last());
        match scalar_char(table.last().1) {
            Some(c) => rest.push((table.last().0, c)),
            None => rest,
        }
    }
}

/// Whether `needle` occurs in `hay` as a contiguous run.
pub open spec fn contains_run(hay: Seq<char>, needle: Seq<char>) -> bool {
    exists|i: int| 0 <= i <= hay.len() - needle.len() && #[trigger] hay.subrange(i, i + needle.len()) == needle
}

/// The catalog entries whose name contains `query`, in catalog order.
pub open spec fn search_of(entries: Seq<(Seq<char>, char)>, query: Seq<char>) -> Seq<(Seq<char>, char)>
    decreases entries.len(),
{
    if entries.len() == 0 {
        Seq::empty()
    } else {
        let rest = search_of(entries.drop_last(), query);
        if contains_run(entries.last().0, query) {
            rest.push(entries.last())
        } else {
            rest
        }
    }
}

pub open spec fn icon_views(v: Seq<CatalogIcon>) -> Seq<(Seq<char>, char)> {
    v.map_values(|i: CatalogIcon| (i.name@, i.glyph))
}

/// Every family-qualified Nerd Fonts icon, sorted by name.
pub fn catalog() -> (r: Vec<CatalogIcon>)
    ensures
        icon_views(r@) == catalog_of(qualified_table()),
{
    let table = names::qualified();
    let ghost views = name_views(table@);
    let mut r: Vec<CatalogIcon> = Vec::new();
    let mut i: usize = 0;
    assert(views.take(0) =~= Seq::<(Seq<char>, u32)>::empty());
    while i < table.len()
        invariant
            views == name_views(table@),
            views == qualified_table(),
            i <= table@.len(),
            icon_views(r@) == catalog_of(views.take(i as int)),
        decreases table.len() - i,
    {
        let (name, code) = table[i];
        assert(views.take(i + 1).drop_last() =~= views.take(i as int));
        let ghost before = r@;
        match char_from_u32(code) {
            Some(glyph) => {
                r.push(CatalogIcon { name, glyph });
                assert(icon_views(r@) =~= icon_views(before).push((name@, glyph)));
            },
            None => {},
        }
        i += 1;
    }
    assert(views.take(table@.len() as int) =~= views);
    r
}

/// Whether `needle` occurs in `hay`.
pub(crate) fn contains_chars(hay: &[char], needle: &[char]) -> (r: bool)
    ensures
        r == contains_run(hay@, needle@),
{
    if needle.len() > hay.len() {
        return false;
    }
    let hl = hay.len();
    let last = hl - needle.len();
    let mut i: usize = 0;
    while i <= last
        invariant
            last == hay@.len() - needle@.len(),
            needle@.len() <= hay@.len(),
            hl == hay@.len(),
            forall|k: int| 0 <= k < i ==> #[trigger] hay@.subrange(k, k + needle@.len()) != needle@,
        decreases last + 1 - i,
    {
        let mut j: usize = 0;
        let mut same = true;
        while j < needle.len()
            invariant
                i <= last,
                last == hay@.len() - needle@.len(),
                needle@.len() <= hay@.len(),
                hl == hay@.len(),
                j <= needle@.len(),
                same == (forall|t: int| 0 <= t < j ==> hay@[i + t] == needle@[t]),
            decreases needle.len() - j,
        {
            if hay[i + j] != needle[j] {
                same = false;
            }
            j += 1;
        }
        if same {
            assert(hay@.subrange(i as int, i + needle@.len()) =~= needle@);
            return true;
        }
        assert(hay@.subrange(i as int, i + needle@.len()) != needle@) by {
            let t = choose|t: int| 0 <= t < needle@.len() && hay@[i + t] != needle@[t];
            assert(hay@.subrange(i as int, i + needle@.len())[t] != needle@[t]);
        }
        if i == last {
            assert(!contains_run(hay@, needle@)) by {
                if contains_run(hay@, needle@) {
                    let k = choose|k: int| 0 <= k <= hay@.len() - needle@.len() && #[trigger] hay@.subrange(k, k + needle@.len()) == needle@;
                    assert(k <= i);
                }
            }
            return false;
        }
        i += 1;
    }
    false
}

/// Search every icon name. Search uses the same case- and separator-insensitive
/// normalization as entry parsing; an empty query returns the whole catalog.
pub fn search(query: &str) -> (r: Vec<CatalogIcon>)
    ensures
        icon_views(r@) == search_of(catalog_of(qualified_table()), normalize_key(query@)),
{
    let qcs = chars_of(query);
    let q = normalize_range(&qcs, 0, qcs.len());
    assert(qcs@.subrange(0, qcs@.len() as int) =~= qcs@);
    let all = catalog();
    let ghost entries = icon_views(all@);
    let mut r: Vec<CatalogIcon> = Vec::new();
    let mut i: usize = 0;
    assert(entries.take(0) =~= Seq::<(Seq<char>, char)>::empty());
    while i < all.len()
        invariant
            entries == icon_views(all@),
            i <= all@.len(),
            icon_views(r@) == search_of(entries.take(i as int), q@),
        decreases all.len() - i,
    {
        let icon = all[i];
        assert(entries.take(i + 1).drop_last() =~= entries.take(i as int));
        let name_chars = chars_of(icon.name);
        let ghost before = r@;
        if contains_chars(&name_chars, &q) {
            r.push(icon);
            assert(icon_views(r@) =~= icon_views(before).push((icon.name@, icon.glyph)));
        }
        i += 1;
    }
    assert(entries.take(all@.len() as int) =~= entries);
    r
}


/// Whether `s` is, after trimming, a single icon or emoji character (which
/// stands for itself).
pub open spec fn is_literal_glyph(s: Seq<char>) -> bool {
    trim(s).len() == 1 && (is_icon_code(trim(s)[0] as u32) || is_emoji_code(trim(s)[0] as u32))
}

/// Names resolve regardless of case, separators and surrounding white
/// space: two names with the same letters and digits name the same glyph.
pub proof fn lemma_lookup_ignores_case_and_separators(a: Seq<char>, b: Seq<char>)
    requires
        !is_literal_glyph(a),
        !is_literal_glyph(b),
        normalize_key(trim(a)) == normalize_key(trim(b)),
    ensures
        spec_lookup(a) == spec_lookup(b),
{
}

proof fn lemma_lower_is_alnum(c: char)
    requires
        is_ascii_alnum(c),
    ensures
        is_ascii_alnum(ascii_lower(c)),
        ascii_lower(ascii_lower(c)) == ascii_lower(c),
        !is_white_space(ascii_lower(c)),
        (ascii_lower(c) as u32) < 128,
{
}

proof fn lemma_normalize_key_ascii(s: Seq<char>)
    ensures
        forall|i: int|
            0 <= i < normalize_key(s).len() ==> is_ascii_alnum(#[trigger] normalize_key(s)[i])
                && (normalize_key(s)[i] as u32) < 128 && !is_white_space(normalize_key(s)[i]),
    decreases s.len(),
{
    if s.len() > 0 {
        lemma_normalize_key_ascii(s.drop_last());
        let r = normalize_key(s.drop_last());
        if is_ascii_alnum(s.last()) {
            lemma_lower_is_alnum(s.last());
            let c = ascii_lower(s.last());
            assert forall|i: int| 0 <= i < r.push(c).len() implies is_ascii_alnum(
                #[trigger] r.push(c)[i],
            ) && (r.push(c)[i] as u32) < 128 && !is_white_space(r.push(c)[i]) by {
                if i < r.len() {
                    assert(r.push(c)[i] == r[i]);
                }
            }
        }
    }
}

/// Normalizing a name twice changes nothing.
pub proof fn lemma_normalize_is_idempotent(s: Seq<char>)
    ensures
        normalize_key(normalize_key(s)) == normalize_key(s),
    decreases s.len(),
{
    if s.len() > 0 {
        let r = normalize_key(s.drop_last());
        lemma_normalize_is_idempotent(s.drop_last());
        if is_ascii_alnum(s.last()) {
            let c = ascii_lower(s.last());
            lemma_lower_is_alnum(s.last());
            assert(r.push(c).drop_last() =~= r);
        }
    }
}

proof fn lemma_normalize_concat(a: Seq<char>, b: Seq<char>)
    ensures
        normalize_key(a + b) == normalize_key(a) + normalize_key(b),
    decreases b.len(),
{
    if b.len() == 0 {
        assert(a + b =~= a);
        assert(normalize_key(a) + normalize_key(b) =~= normalize_key(a));
    } else {
        lemma_normalize_concat(a, b.drop_last());
        assert((a + b).drop_last() =~= a + b.drop_last());
        assert((a + b).last() == b.last());
        if is_ascii_alnum(b.last()) {
            assert(normalize_key(a) + normalize_key(b.drop_last()).push(ascii_lower(b.last()))
                =~= (normalize_key(a) + normalize_key(b.drop_last())).push(ascii_lower(b.last())));
        }
    }
}

proof fn lemma_normalize_blank(s: Seq<char>)
    requires
        forall|i: int| 0 <= i < s.len() ==> is_white_space(#[trigger] s[i]),
    ensures
        normalize_key(s) == Seq::<char>::empty(),
    decreases s.len(),
{
    if s.len() > 0 {
        assert(is_white_space(s[s.len() - 1]));
        lemma_normalize_blank(s.drop_last());
    }
}

proof fn lemma_skip_ws_blank(s: Seq<char>, i: int)
    requires
        0 <= i <= s.len(),
    ensures
        i <= skip_ws(s, i) <= s.len(),
        forall|j: int| i <= j < skip_ws(s, i) ==> is_white_space(#[trigger] s[j]),
    decreases s.len() - i,
{
    if i < s.len() && is_white_space(s[i]) {
        lemma_skip_ws_blank(s, i + 1);
    }
}

proof fn lemma_trim_end_blank(s: Seq<char>, lo: int, j: int)
    requires
        0 <= lo <= j <= s.len(),
    ensures
        lo <= trim_end_at(s, lo, j) <= j,
        forall|k: int| trim_end_at(s, lo, j) <= k < j ==> is_white_space(#[trigger] s[k]),
    decreases j - lo,
{
    if lo < j && is_white_space(s[j - 1]) {
        lemma_trim_end_blank(s, lo, j - 1);
    }
}

/// Surrounding white space never changes a name's key.
pub proof fn lemma_normalize_ignores_trim(s: Seq<char>)
    ensures
        normalize_key(trim(s)) == normalize_key(s),
{
    let a = skip_ws(s, 0);
    lemma_skip_ws_blank(s, 0);
    let e = trim_end_at(s, a, s.len() as int);
    lemma_trim_end_blank(s, a, s.len() as int);
    let head = s.subrange(0, a);
    let mid = s.subrange(a, e);
    let tail = s.subrange(e, s.len() as int);
    assert(s =~= head + mid + tail);
    lemma_normalize_blank(head);
    lemma_normalize_blank(tail);
    lemma_normalize_concat(head + mid, tail);
    lemma_normalize_concat(head, mid);
    assert(normalize_key(s) =~= normalize_key(mid));
}

proof fn lemma_trim_of_key(s: Seq<char>)
    ensures
        trim(normalize_key(s)) == normalize_key(s),
{
    let k = normalize_key(s);
    lemma_normalize_key_ascii(s);
    if k.len() > 0 {
        assert(!is_white_space(k[0]));
        assert(!is_white_space(k[k.len() - 1]));
    }
    assert(skip_ws(k, 0) == 0);
    assert(trim_end_at(k, 0, k.len() as int) == k.len());
    assert(k.subrange(0, k.len() as int) =~= k);
}

/// `lookup(s) == lookup(&normalize(s))` for every name `s` that is not a
/// lone icon or emoji character: case, separators and surrounding white
/// space never change the result (the two calls' contracts are
/// `spec_lookup(s@)` and `spec_lookup(normalize_key(s@))`).
pub proof fn lemma_lookup_of_normalized(s: Seq<char>)
    requires
        !is_literal_glyph(s),
    ensures
        spec_lookup(s) == spec_lookup(normalize_key(s)),
{
    let k = normalize_key(s);
    lemma_trim_of_key(s);
    lemma_normalize_key_ascii(s);
    if k.len() == 1 {
        assert((k[0] as u32) < 128);
    }
    assert(!is_literal_glyph(k));
    lemma_normalize_ignores_trim(s);
    lemma_normalize_is_idempotent(s);
    lemma_lookup_ignores_case_and_separators(s, k);
}

proof fn lemma_search_of_everything(entries: Seq<(Seq<char>, char)>)
    ensures
        search_of(entries, Seq::<char>::empty()) == entries,
    decreases entries.len(),
{
    if entries.len() > 0 {
        lemma_search_of_everything(entries.drop_last());
        let hay = entries.last().0;
        let e = Seq::<char>::empty();
        assert(hay.subrange(0int, 0int + e.len()) =~= e);
        assert(contains_run(hay, Seq::<char>::empty()));
        assert(entries.drop_last().push(entries.last()) =~= entries);
    }
}

/// `search(q) == search(&normalize(q))` for every query, and a query with
/// no letters or digits (the empty one among them) keeps every catalog
/// entry: `search("")` is `catalog()` (the calls' contracts are
/// `search_of(catalog_of(..), normalize_key(q@))` and `catalog_of(..)`).
pub proof fn lemma_search_laws(q: Seq<char>)
    ensures
        search_of(catalog_of(qualified_table()), normalize_key(q)) == search_of(
            catalog_of(qualified_table()),
            normalize_key(normalize_key(q)),
        ),
        normalize_key(q).len() == 0 ==> search_of(catalog_of(qualified_table()), normalize_key(q))
            == catalog_of(qualified_table()),
{
    lemma_normalize_is_idempotent(q);
    if normalize_key(q).len() == 0 {
        assert(normalize_key(q) =~= Seq::<char>::empty());
        lemma_search_of_everything(catalog_of(qualified_table()));
    }
}

} // verus!
