//! Colors: 8-bit RGBA values, the hex spellings `#RGB` and `#RRGGBB`, and
//! the named colors.
use vstd::prelude::*;

use crate::color_names::{color_names, color_values, name_list, value_list};
use crate::icons::chars_eq_from;
use crate::keybind::str_views;
use crate::numbers::{all_digits, digit_value};
use crate::text::{ascii_lower, chars_of, lower_seq};

verus! {

broadcast use vstd::string::group_string_axioms;

/// An opaque-by-default 8-bit RGBA color.
#[derive(Debug, Clone, Copy, PartialEq, Eq, Structural)]
pub struct Color {
    pub r: u8,
    pub g: u8,
    pub b: u8,
    pub a: u8,
}

/// The opaque color `0xRRGGBB` (higher bits ignored).
pub open spec fn hex_color(v: u32) -> Color {
    Color {
        r: ((v / 0x10000) % 0x100) as u8,
        g: ((v / 0x100) % 0x100) as u8,
        b: (v % 0x100) as u8,
        a: 255,
    }
}

impl Color {
    pub fn rgb(r: u8, g: u8, b: u8) -> (c: Color)
        ensures
            c == (Color { r, g, b, a: 255 }),
    {
        Color { r, g, b, a: 255 }
    }

    /// An opaque color from `0xRRGGBB` (higher bits ignored).
    pub fn hex(v: u32) -> (c: Color)
        ensures
            c == hex_color(v),
    {
        Color {
            r: ((v / 0x10000) % 0x100) as u8,
            g: ((v / 0x100) % 0x100) as u8,
            b: (v % 0x100) as u8,
            a: 255,
        }
    }

    pub fn r(self) -> (v: u8)
        ensures
            v == self.r,
    {
        self.r
    }

    pub fn g(self) -> (v: u8)
        ensures
            v == self.g,
    {
        self.g
    }

    pub fn b(self) -> (v: u8)
        ensures
            v == self.b,
    {
        self.b
    }

    pub fn a(self) -> (v: u8)
        ensures
            v == self.a,
    {
        self.a
    }
}

/// The color a `#RGB` or `#RRGGBB` spelling names (each short digit is
/// doubled: `#abc` is `#aabbcc`); hex digits in either case.
pub open spec fn color_of_hex(s: Seq<char>) -> Option<Color> {
    if (s.len() == 7 || s.len() == 4) && s[0] == '#' && all_digits(s.skip(1), 16) {
        if s.len() == 7 {
            Some(
                Color {
                    r: (digit_value(s[1], 16) * 16 + digit_value(s[2], 16)) as u8,
                    g: (digit_value(s[3], 16) * 16 + digit_value(s[4], 16)) as u8,
                    b: (digit_value(s[5], 16) * 16 + digit_value(s[6], 16)) as u8,
                    a: 255,
                },
            )
        } else {
            Some(
                Color {
                    r: (digit_value(s[1], 16) * 17) as u8,
                    g: (digit_value(s[2], 16) * 17) as u8,
                    b: (digit_value(s[3], 16) * 17) as u8,
                    a: 255,
                },
            )
        }
    } else {
        None
    }
}

/// Whether `c` is a hex digit, `0`-`9`, `a`-`f` or `A`-`F`.
pub open spec fn is_hex_char(c: char) -> bool {
    ('0' <= c <= '9') || ('a' <= c <= 'f') || ('A' <= c <= 'F')
}

proof fn lemma_lower_keeps_hex_digit(c: char)
    ensures
        digit_value(ascii_lower(c), 16) == digit_value(c, 16),
        ascii_lower(c) == '#' <==> c == '#',
{
}

/// Hex colors are read in either case: every spelling names the same
/// color as the spelling with its letters lowered, and a `#` followed by
/// three or six hex digits, of either case, always names a color.
pub proof fn lemma_hex_digits_in_either_case(s: Seq<char>)
    ensures
        color_of_hex(s) == color_of_hex(lower_seq(s)),
        (s.len() == 7 || s.len() == 4) && s[0] == '#' && (forall|j: int|
            1 <= j < s.len() ==> is_hex_char(#[trigger] s[j])) ==> color_of_hex(s) is Some,
{
    let t = lower_seq(s);
    assert(t.len() == s.len());
    assert forall|j: int| 0 <= j < s.len() implies #[trigger] t[j] == ascii_lower(s[j])
        && digit_value(t[j], 16) == digit_value(s[j], 16) && (t[j] == '#' <==> s[j] == '#') by {
        lemma_lower_keeps_hex_digit(s[j]);
    }
    if s.len() >= 1 {
        let a = s.skip(1);
        let b = t.skip(1);
        assert(a.len() == b.len());
        if all_digits(a, 16) {
            assert forall|j: int| 0 <= j < b.len() implies digit_value(#[trigger] b[j], 16)
                >= 0 by {
                assert(a[j] == s[j + 1]);
                assert(b[j] == t[j + 1]);
                assert(digit_value(a[j], 16) >= 0);
            }
        }
        if all_digits(b, 16) {
            assert forall|j: int| 0 <= j < a.len() implies digit_value(#[trigger] a[j], 16)
                >= 0 by {
                assert(a[j] == s[j + 1]);
                assert(b[j] == t[j + 1]);
                assert(digit_value(b[j], 16) >= 0);
            }
        }
        assert(all_digits(s.skip(1), 16) == all_digits(t.skip(1), 16));
    }
    if (s.len() == 7 || s.len() == 4) && s[0] == '#' && (forall|j: int|
        1 <= j < s.len() ==> is_hex_char(#[trigger] s[j])) {
        assert forall|j: int| 0 <= j < s.skip(1).len() implies digit_value(
            #[trigger] s.skip(1)[j],
            16,
        ) >= 0 by {
            assert(s.skip(1)[j] == s[j + 1]);
            assert(is_hex_char(s[j + 1]));
        }
    }
}

fn hex_digit(c: char) -> (d: Option<u8>)
    ensures
        match d {
            Some(v) => digit_value(c, 16) == v as int && v < 16,
            None => digit_value(c, 16) < 0,
        },
{
    if '0' <= c && c <= '9' {
        Some(((c as u32) - ('0' as u32)) as u8)
    } else if 'a' <= c && c <= 'f' {
        Some(((c as u32) - ('a' as u32) + 10) as u8)
    } else if 'A' <= c && c <= 'F' {
        Some(((c as u32) - ('A' as u32) + 10) as u8)
    } else {
        None
    }
}

/// Parse `#RGB` or `#RRGGBB`.
pub fn parse_hex_color(s: &str) -> (r: Option<Color>)
    ensures
        r == color_of_hex(s@),
{
    let cs = chars_of(s);
    let n = cs.len();
    if !((n == 7 || n == 4) && cs[0] == '#') {
        return None;
    }
    let mut ds: Vec<u8> = Vec::new();
    let mut i: usize = 1;
    while i < n
        invariant
            n == cs@.len(),
            cs@ == s@,
            cs@[0] == '#',
            n == 7 || n == 4,
            1 <= i <= n,
            ds@.len() == i - 1,
            forall|j: int| 1 <= j < i ==> digit_value(#[trigger] cs@[j], 16) == ds@[j - 1] as int
                && ds@[j - 1] < 16,
        decreases n - i,
    {
        match hex_digit(cs[i]) {
            Some(d) => {
                let ghost prev = ds@;
                ds.push(d);
                assert(forall|j: int| 0 <= j < prev.len() ==> ds@[j] == prev[j]);
                assert(ds@[i - 1] == d);
            },
            None => {
                assert(!all_digits(cs@.skip(1), 16)) by {
                    assert(cs@.skip(1)[i - 1] == cs@[i as int]);
                }
                return None;
            },
        }
        i += 1;
    }
    assert(all_digits(cs@.skip(1), 16)) by {
        assert forall|j: int| 0 <= j < cs@.skip(1).len() implies digit_value(#[trigger] cs@.skip(1)[j], 16) >= 0 by {
            assert(cs@.skip(1)[j] == cs@[j + 1]);
        }
    }
    if n == 7 {
        Some(
            Color {
                r: ds[0] * 16 + ds[1],
                g: ds[2] * 16 + ds[3],
                b: ds[4] * 16 + ds[5],
                a: 255,
            },
        )
    } else {
        Some(Color { r: ds[0] * 17, g: ds[1] * 17, b: ds[2] * 17, a: 255 })
    }
}

/// The color of the first keyword at or after position `k` of the name
/// table that equals `s`.
pub open spec fn named_color_from(s: Seq<char>, k: int) -> Option<Color>
    decreases color_names().len() - k,
{
    if k < 0 || k >= color_names().len() {
        None
    } else if color_names()[k] == s {
        Some(hex_color(color_values()[k]))
    } else {
        named_color_from(s, k + 1)
    }
}

/// The color a keyword such as `rebeccapurple` names (keywords are
/// lowercase and matched exactly).
pub open spec fn named_color(s: Seq<char>) -> Option<Color> {
    named_color_from(s, 0)
}

/// The color a written spelling names: `#RGB`, `#RRGGBB` or a keyword.
pub open spec fn color_of_spelling(s: Seq<char>) -> Option<Color> {
    match color_of_hex(s) {
        Some(c) => Some(c),
        None => named_color(s),
    }
}

/// Looks a color keyword up in the name table.
pub fn parse_named_color(s: &str) -> (r: Option<Color>)
    ensures
        r == named_color(s@),
{
    let names = name_list();
    let values = value_list();
    let cs = chars_of(s);
    assert(cs@.skip(0) =~= cs@);
    let mut i: usize = 0;
    while i < names.len()
        invariant
            str_views(names@) == color_names(),
            values@ == color_values(),
            names@.len() == color_names().len(),
            cs@ == s@,
            cs@.skip(0) == cs@,
            i <= names@.len(),
            named_color(s@) == named_color_from(s@, i as int),
        decreases names.len() - i,
    {
        let item = chars_of(names[i]);
        assert(str_views(names@)[i as int] == names@[i as int]@);
        if chars_eq_from(&item, &cs, 0) {
            return Some(Color::hex(values[i]));
        }
        i += 1;
    }
    None
}

/// Parses a color spelling: `#RGB`, `#RRGGBB`, or a color keyword.
pub fn parse_color_spelling(s: &str) -> (r: Option<Color>)
    ensures
        r == color_of_spelling(s@),
{
    match parse_hex_color(s) {
        Some(c) => Some(c),
        None => parse_named_color(s),
    }
}

} // verus!
