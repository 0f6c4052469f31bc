//! How one item is drawn: its category (plain, comment, colored comment,
//! colored, with an icon), the color scheme of its label, the icon slot and
//! its scheme, and whether the label is drawn inverted. The markers are
//! the item text's first bytes: `>` for a comment, `>>` plus a color letter
//! for a colored comment, `:` plus a color letter for an item colored while
//! selected, and `: ` … in third place for an icon.
use vstd::prelude::*;

use crate::enums::Scheme;

verus! {

/// What kind of item a text is.
#[derive(Debug, Clone, Copy, PartialEq, Eq, Structural)]
pub enum ItemCategory {
    Normal,
    Comment,
    ColoredComment,
    Colored,
    Icon,
}

/// The icon of an item: bytes `from..to` of its text, drawn in `scheme`.
#[derive(Debug, Clone, Copy, PartialEq, Eq, Structural)]
pub struct IconSlot {
    pub from: usize,
    pub to: usize,
    pub scheme: Scheme,
}

/// How an item is drawn.
#[derive(Debug, Clone, Copy, PartialEq, Eq, Structural)]
pub struct ItemStyle {
    pub category: ItemCategory,
    pub icon: Option<IconSlot>,
    /// The scheme of the label.
    pub label_scheme: Scheme,
    /// Whether the label is drawn inverted.
    pub label_invert: bool,
}

pub open spec fn byte_at(t: Seq<u8>, i: int) -> Option<u8> {
    if 0 <= i < t.len() {
        Some(t[i])
    } else {
        None
    }
}

/// The color letters of a colored comment: red, green, yellow, highlight,
/// blue (the selected scheme).
pub open spec fn comment_color(b: Option<u8>) -> Option<Scheme> {
    if b == Some(0x72u8) {
        Some(Scheme::Red)
    } else if b == Some(0x67u8) {
        Some(Scheme::Green)
    } else if b == Some(0x79u8) {
        Some(Scheme::Yellow)
    } else if b == Some(0x68u8) {
        Some(Scheme::Highlight)
    } else if b == Some(0x62u8) {
        Some(Scheme::Selected)
    } else {
        None
    }
}

/// The color letters of a colored item: red, green, yellow, blue.
pub open spec fn item_color(b: Option<u8>) -> Option<Scheme> {
    if b == Some(0x72u8) {
        Some(Scheme::Red)
    } else if b == Some(0x67u8) {
        Some(Scheme::Green)
    } else if b == Some(0x79u8) {
        Some(Scheme::Yellow)
    } else if b == Some(0x62u8) {
        Some(Scheme::Selected)
    } else {
        None
    }
}

pub open spec fn is_continuation(b: u8) -> bool {
    0x80 <= b < 0xC0
}

/// The last character start at or below `k` (0 when there is none).
pub open spec fn last_start(t: Seq<u8>, k: int) -> int
    decreases k + 1,
{
    if k < 0 {
        0
    } else if k < t.len() && !is_continuation(t[k]) {
        k
    } else {
        last_start(t, k - 1)
    }
}

/// Where an icon ends: byte 6 when that is a character boundary, else the
/// last character start before byte 6, but not before byte 3.
pub open spec fn icon_end(t: Seq<u8>) -> int {
    if t.len() == 6 || (t.len() > 6 && !is_continuation(t[6])) {
        6
    } else {
        let s = last_start(t, 5);
        if s >= 3 {
            s
        } else {
            3
        }
    }
}

/// The category and scheme the markers give, before an icon is found.
pub open spec fn marked_style(t: Seq<u8>, sel: bool, out: bool) -> (ItemCategory, Scheme) {
    if byte_at(t, 0) == Some(0x3eu8) {
        if byte_at(t, 1) == Some(0x3eu8) {
            match comment_color(byte_at(t, 2)) {
                Some(s) => (ItemCategory::ColoredComment, s),
                None => (ItemCategory::Comment, Scheme::Normal),
            }
        } else {
            (ItemCategory::Comment, Scheme::Normal)
        }
    } else if byte_at(t, 0) == Some(0x3au8) {
        if sel {
            match item_color(byte_at(t, 1)) {
                Some(s) => (ItemCategory::Colored, s),
                None => (ItemCategory::Normal, Scheme::Selected),
            }
        } else {
            (ItemCategory::Colored, Scheme::Normal)
        }
    } else {
        (ItemCategory::Normal, if sel {
            Scheme::Selected
        } else if out {
            Scheme::Output
        } else {
            Scheme::Normal
        })
    }
}

/// How an item with text `t` is drawn, selected or not, printed before or
/// not. A colored item with a space in third place has an icon: bytes 3
/// up to its end, in the item's color; its label then takes the hover
/// scheme while selected.
pub open spec fn spec_item_style(t: Seq<u8>, sel: bool, out: bool) -> ItemStyle {
    let (cat, scheme) = marked_style(t, sel, out);
    if cat == ItemCategory::Colored && byte_at(t, 2) == Some(0x20u8) {
        ItemStyle {
            category: ItemCategory::Icon,
            icon: Some(IconSlot { from: 3, to: icon_end(t) as usize, scheme }),
            label_scheme: if sel {
                Scheme::Hover
            } else {
                Scheme::Normal
            },
            label_invert: sel,
        }
    } else {
        ItemStyle {
            category: cat,
            icon: None,
            label_scheme: scheme,
            label_invert: cat == ItemCategory::ColoredComment || sel,
        }
    }
}

fn get(t: &[u8], i: usize) -> (r: Option<u8>)
    ensures
        r == byte_at(t@, i as int),
{
    if i < t.len() {
        Some(t[i])
    } else {
        None
    }
}

fn comment_color_exec(b: Option<u8>) -> (r: Option<Scheme>)
    ensures
        r == comment_color(b),
{
    match b {
        Some(0x72u8) => Some(Scheme::Red),
        Some(0x67u8) => Some(Scheme::Green),
        Some(0x79u8) => Some(Scheme::Yellow),
        Some(0x68u8) => Some(Scheme::Highlight),
        Some(0x62u8) => Some(Scheme::Selected),
        _ => None,
    }
}

fn item_color_exec(b: Option<u8>) -> (r: Option<Scheme>)
    ensures
        r == item_color(b),
{
    match b {
        Some(0x72u8) => Some(Scheme::Red),
        Some(0x67u8) => Some(Scheme::Green),
        Some(0x79u8) => Some(Scheme::Yellow),
        Some(0x62u8) => Some(Scheme::Selected),
        _ => None,
    }
}

fn icon_end_exec(t: &[u8]) -> (r: usize)
    ensures
        r == icon_end(t@),
        3 <= r <= 6,
{
    if t.len() == 6 || (t.len() > 6 && !(0x80u8 <= t[6] && t[6] < 0xC0u8)) {
        return 6;
    }
    let mut k: usize = 6;
    while k > 0
        invariant
            k <= 6,
            last_start(t@, 5) == last_start(t@, k - 1),
            !(t@.len() == 6 || (t@.len() > 6 && !is_continuation(t@[6]))),
        decreases k,
    {
        let i = k - 1;
        if i < t.len() && !(0x80u8 <= t[i] && t[i] < 0xC0u8) {
            assert(last_start(t@, i as int) == i);
            return if i >= 3 {
                i
            } else {
                3
            };
        }
        k = i;
    }
    3
}

/// How an item with text `text` is drawn.
pub fn item_style(text: &[u8], sel: bool, out: bool) -> (s: ItemStyle)
    ensures
        s == spec_item_style(text@, sel, out),
{
    let first = get(text, 0);
    let (cat, scheme) = if first == Some(0x3eu8) {
        if get(text, 1) == Some(0x3eu8) {
            match comment_color_exec(get(text, 2)) {
                Some(s) => (ItemCategory::ColoredComment, s),
                None => (ItemCategory::Comment, Scheme::Normal),
            }
        } else {
            (ItemCategory::Comment, Scheme::Normal)
        }
    } else if first == Some(0x3au8) {
        if sel {
            match item_color_exec(get(text, 1)) {
                Some(s) => (ItemCategory::Colored, s),
                None => (ItemCategory::Normal, Scheme::Selected),
            }
        } else {
            (ItemCategory::Colored, Scheme::Normal)
        }
    } else {
        (ItemCategory::Normal, if sel {
            Scheme::Selected
        } else if out {
            Scheme::Output
        } else {
            Scheme::Normal
        })
    };
    assert((cat, scheme) == marked_style(text@, sel, out));
    if cat == ItemCategory::Colored && get(text, 2) == Some(0x20u8) {
        ItemStyle {
            category: ItemCategory::Icon,
            icon: Some(IconSlot { from: 3, to: icon_end_exec(text), scheme }),
            label_scheme: if sel {
                Scheme::Hover
            } else {
                Scheme::Normal
            },
            label_invert: sel,
        }
    } else {
        ItemStyle {
            category: cat,
            icon: None,
            label_scheme: scheme,
            label_invert: cat == ItemCategory::ColoredComment || sel,
        }
    }
}

} // verus!
