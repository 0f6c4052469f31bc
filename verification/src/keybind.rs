//! Global accept bindings (`KEY:LABEL`), parsed once at startup and shared
//! by every backend.
//!
//! Parsing is split around the keysym lookup, which the keymap library
//! performs: [`Keybind::parse_spec`] validates the binding and names the
//! keysym to look up, and [`Keybind::from_spec`] completes it with the
//! keysym that came back.
use vstd::prelude::*;

use crate::backend::Modifiers;
use crate::icons::names::pair_views;
use crate::icons::{chars_eq_from, find_alias, starts_with, table_find};
use crate::numbers::int_in_range;
use crate::text::{
    chars_of, copy_range, is_ascii_alnum, is_ascii_lower, is_ascii_upper, is_control,
    is_control_char, is_white_space, is_whitespace, push_char, push_str, string_of,
    char_uppercase, debug_quoted, str_debug, uppercase_of,
};

verus! {

broadcast use vstd::string::group_string_axioms;

/// The keysym value that names no key.
pub const NO_SYMBOL: u32 = 0;

/// A global accept binding.
#[derive(Debug, Clone)]
pub struct Keybind {
    pub key: String,
    pub label: String,
    sym: u32,
    mods: Modifiers,
}

/// A validated binding before its keysym is known: the key and label as
/// written, the modifiers the key names, the keysym name to look up and
/// whether that lookup must match case exactly (single-character keys) or
/// may ignore it.
#[derive(Debug, Clone, PartialEq, Eq)]
pub struct KeySpec {
    pub key: String,
    pub label: String,
    pub mods: Modifiers,
    pub name: String,
    pub exact_case: bool,
}

/// Why a binding was refused.
#[derive(Debug, Clone, PartialEq, Eq)]
pub enum KeybindError {
    /// No `:` between key and label.
    MissingSeparator,
    /// The key is not a supported menu key, or is reserved.
    UnsupportedKey(String),
    /// The label is blank or holds a control character.
    InvalidLabel,
    /// The keymap library knows no key of that name.
    UnknownKey(String),
}

/// The message a refused binding is reported with.
pub open spec fn error_message(e: KeybindError) -> Seq<char> {
    match e {
        KeybindError::MissingSeparator => "expected KEY:LABEL (for example ctrl-e:Edit)"@,
        KeybindError::UnsupportedKey(k) => "unsupported or reserved menu key "@ + str_debug(k@),
        KeybindError::InvalidLabel => "binding labels must be nonempty and contain no control characters"@,
        KeybindError::UnknownKey(k) => "unknown key "@ + str_debug(k@),
    }
}

impl KeybindError {
    /// The message for this refusal; the key is quoted as `{:?}` writes it.
    pub fn message(&self) -> (r: String)
        ensures
            r@ == error_message(*self),
    {
        let mut m = String::new();
        match self {
            KeybindError::MissingSeparator => {
                push_str(&mut m, "expected KEY:LABEL (for example ctrl-e:Edit)");
            },
            KeybindError::UnsupportedKey(k) => {
                push_str(&mut m, "unsupported or reserved menu key ");
                let q = debug_quoted(k.as_str());
                push_str(&mut m, q.as_str());
            },
            KeybindError::InvalidLabel => {
                push_str(&mut m, "binding labels must be nonempty and contain no control characters");
            },
            KeybindError::UnknownKey(k) => {
                push_str(&mut m, "unknown key ");
                let q = debug_quoted(k.as_str());
                push_str(&mut m, q.as_str());
            },
        }
        assert(m@ =~= error_message(*self));
        m
    }
}

/* ------------------------------ key names ------------------------------ */

pub open spec fn str_views(v: Seq<&'static str>) -> Seq<Seq<char>> {
    v.map_values(|s: &'static str| s@)
}

/// Keys that abort, submit, toggle or navigate the menu.
pub open spec fn reserved_keys() -> Seq<Seq<char>> {
    seq![
        "esc"@, "ctrl-c"@, "ctrl-g"@, "ctrl-q"@, "enter"@, "ctrl-m"@, "tab"@, "btab"@,
        "shift-tab"@, "up"@, "down"@, "ctrl-p"@, "ctrl-n"@, "ctrl-k"@, "ctrl-j"@,
    ]
}

pub open spec fn named_keys() -> Seq<Seq<char>> {
    seq![
        "enter"@, "space"@, "backspace"@, "tab"@, "shift-tab"@, "esc"@, "delete"@, "up"@,
        "down"@, "left"@, "right"@, "home"@, "end"@, "insert"@, "page-up"@, "page-down"@,
    ]
}

pub open spec fn modified_named_keys() -> Seq<Seq<char>> {
    seq![
        "up"@, "down"@, "left"@, "right"@, "home"@, "end"@, "backspace"@, "delete"@,
        "page-up"@, "page-down"@, "enter"@, "space"@,
    ]
}

fn reserved_list() -> (v: Vec<&'static str>)
    ensures
        str_views(v@) == reserved_keys(),
{
    let v = vec![
        "esc", "ctrl-c", "ctrl-g", "ctrl-q", "enter", "ctrl-m", "tab", "btab", "shift-tab", "up",
        "down", "ctrl-p", "ctrl-n", "ctrl-k", "ctrl-j",
    ];
    assert(str_views(v@) =~= reserved_keys());
    v
}

fn named_list() -> (v: Vec<&'static str>)
    ensures
        str_views(v@) == named_keys(),
{
    let v = vec![
        "enter", "space", "backspace", "tab", "shift-tab", "esc", "delete", "up", "down", "left",
        "right", "home", "end", "insert", "page-up", "page-down",
    ];
    assert(str_views(v@) =~= named_keys());
    v
}

fn modified_named_list() -> (v: Vec<&'static str>)
    ensures
        str_views(v@) == modified_named_keys(),
{
    let v = vec![
        "up", "down", "left", "right", "home", "end", "backspace", "delete", "page-up",
        "page-down", "enter", "space",
    ];
    assert(str_views(v@) =~= modified_named_keys());
    v
}

/// Whether `s` is one ASCII character (one byte of UTF-8).
pub open spec fn is_one_ascii(s: Seq<char>) -> bool {
    s.len() == 1 && (s[0] as u32) < 128
}

/// A key that may follow `ctrl-`, `ctrl-alt-` etc.: a lowercase letter.
pub open spec fn is_ascii_letter_key(s: Seq<char>) -> bool {
    is_one_ascii(s) && is_ascii_lower(s[0])
}

/// A key that may follow `alt-`: a letter or digit.
pub open spec fn is_safe_alt_key(s: Seq<char>) -> bool {
    is_one_ascii(s) && is_ascii_alnum(s[0])
}

/// The keys a binding may use: named keys, `f1`..`f12`, a single letter or
/// digit, and modifier combinations with the keys each combination allows.
pub open spec fn is_supported_key(key: Seq<char>) -> bool {
    let named = |s: Seq<char>| modified_named_keys().contains(s);
    if named_keys().contains(key) {
        true
    } else if starts_with(key, "f"@) {
        match int_in_range(key.skip(1), 10, false, 0, 255) {
            Some(n) => 1 <= n <= 12,
            None => false,
        }
    } else if is_one_ascii(key) {
        is_ascii_alnum(key[0])
    } else if starts_with(key, "ctrl-alt-shift-"@) {
        named(key.skip(15))
    } else if starts_with(key, "ctrl-alt-"@) {
        is_ascii_letter_key(key.skip(9)) || named(key.skip(9))
    } else if starts_with(key, "ctrl-shift-"@) {
        named(key.skip(11))
    } else if starts_with(key, "ctrl-"@) {
        is_ascii_letter_key(key.skip(5)) || named(key.skip(5))
    } else if starts_with(key, "alt-shift-"@) {
        named(key.skip(10))
    } else if starts_with(key, "alt-"@) {
        is_safe_alt_key(key.skip(4)) || named(key.skip(4))
    } else if starts_with(key, "shift-"@) {
        named(key.skip(6))
    } else {
        false
    }
}

/// Whether `list` (as characters) holds `key[from..]`.
fn list_contains(list: &Vec<&'static str>, key: &[char], from: usize) -> (r: bool)
    requires
        from <= key@.len(),
    ensures
        r == str_views(list@).contains(key@.skip(from as int)),
{
    let ghost views = str_views(list@);
    let mut i: usize = 0;
    while i < list.len()
        invariant
            i <= list@.len(),
            views == str_views(list@),
            from <= key@.len(),
            forall|j: int| 0 <= j < i ==> views[j] != key@.skip(from as int),
        decreases list.len() - i,
    {
        let item = chars_of(list[i]);
        if chars_eq_from(&item, key, from) {
            assert(views[i as int] == key@.skip(from as int));
            return true;
        }
        i += 1;
    }
    false
}

/// Whether `key` starts with `prefix`.
fn has_prefix(key: &[char], prefix: &str) -> (r: bool)
    ensures
        r == starts_with(key@, prefix@),
{
    let p = chars_of(prefix);
    if p.len() > key.len() {
        return false;
    }
    let mut i: usize = 0;
    while i < p.len()
        invariant
            p@ == prefix@,
            p@.len() <= key@.len(),
            i <= p@.len(),
            forall|j: int| 0 <= j < i ==> key@[j] == p@[j],
        decreases p.len() - i,
    {
        if key[i] != p[i] {
            assert(key@.subrange(0, p@.len() as int)[i as int] != p@[i as int]);
            return false;
        }
        i += 1;
    }
    assert(key@.subrange(0, p@.len() as int) =~= p@);
    true
}

fn one_ascii_from(key: &[char], from: usize) -> (r: Option<char>)
    requires
        from <= key@.len(),
    ensures
        is_one_ascii(key@.skip(from as int)) ==> r == Some(key@[from as int]),
        !is_one_ascii(key@.skip(from as int)) ==> r is None,
{
    if key.len() - from == 1 && (key[from] as u32) < 128 {
        Some(key[from])
    } else {
        None
    }
}

/// Whether `key` is a supported menu key.
pub fn is_supported_menu_key(key: &[char]) -> (r: bool)
    ensures
        r == is_supported_key(key@),
{
    let named = named_list();
    let modified = modified_named_list();
    assert(key@.skip(0) =~= key@);
    if list_contains(&named, key, 0) {
        return true;
    }
    if has_prefix(key, "f") {
        proof {
            assert("f"@.len() == 1) by {
                reveal_strlit("f");
            }
        }
        assert(key@.subrange(1, key@.len() as int) =~= key@.skip(1));
        return match crate::numbers::parse_int(key, 1, key.len(), 10, false, 0, 255) {
            Some(n) => 1 <= n && n <= 12,
            None => false,
        };
    }
    if let Some(c) = one_ascii_from(key, 0) {
        return crate::text::is_alnum(c);
    }
    if has_prefix(key, "ctrl-alt-shift-") {
        proof { reveal_strlit("ctrl-alt-shift-"); }
        return list_contains(&modified, key, 15);
    }
    if has_prefix(key, "ctrl-alt-") {
        proof { reveal_strlit("ctrl-alt-"); }
        let letter = match one_ascii_from(key, 9) {
            Some(c) => 'a' <= c && c <= 'z',
            None => false,
        };
        return letter || list_contains(&modified, key, 9);
    }
    if has_prefix(key, "ctrl-shift-") {
        proof { reveal_strlit("ctrl-shift-"); }
        return list_contains(&modified, key, 11);
    }
    if has_prefix(key, "ctrl-") {
        proof { reveal_strlit("ctrl-"); }
        let letter = match one_ascii_from(key, 5) {
            Some(c) => 'a' <= c && c <= 'z',
            None => false,
        };
        return letter || list_contains(&modified, key, 5);
    }
    if has_prefix(key, "alt-shift-") {
        proof { reveal_strlit("alt-shift-"); }
        return list_contains(&modified, key, 10);
    }
    if has_prefix(key, "alt-") {
        proof { reveal_strlit("alt-"); }
        let safe = match one_ascii_from(key, 4) {
            Some(c) => crate::text::is_alnum(c),
            None => false,
        };
        return safe || list_contains(&modified, key, 4);
    }
    if has_prefix(key, "shift-") {
        proof { reveal_strlit("shift-"); }
        return list_contains(&modified, key, 6);
    }
    false
}


/* ------------------------------ bindings ------------------------------ */

/// The index of the first `c` in `s` at or after `i`.
pub open spec fn first_index_of(s: Seq<char>, c: char, i: int) -> Option<int>
    decreases s.len() - i,
{
    if i < 0 || i >= s.len() {
        None
    } else if s[i] == c {
        Some(i)
    } else {
        first_index_of(s, c, i + 1)
    }
}

proof fn lemma_first_index_of(s: Seq<char>, c: char, i: int)
    requires
        0 <= i,
    ensures
        first_index_of(s, c, i) matches Some(j) ==> i <= j < s.len() && s[j] == c,
    decreases s.len() - i,
{
    if i < s.len() && s[i] != c {
        lemma_first_index_of(s, c, i + 1);
    }
}

/// Whether every character of `s` is white space (so `s.trim()` is empty).
pub open spec fn is_blank(s: Seq<char>) -> bool {
    forall|j: int| 0 <= j < s.len() ==> is_white_space(#[trigger] s[j])
}

/// Whether `s` holds a control character.
pub open spec fn has_control(s: Seq<char>) -> bool {
    exists|j: int| 0 <= j < s.len() && is_control_char(#[trigger] s[j])
}

/// `s` without the prefix `p`, and whether it was there.
pub open spec fn strip_flag(s: Seq<char>, p: Seq<char>) -> (bool, Seq<char>) {
    if starts_with(s, p) {
        (true, s.skip(p.len() as int))
    } else {
        (false, s)
    }
}

/// The modifiers a key names and the key left after them: `ctrl-`, then
/// `alt-`, then `shift-` are taken off in that order; a single uppercase
/// letter implies Shift.
pub open spec fn mods_and_suffix(key: Seq<char>) -> (Modifiers, Seq<char>) {
    let (ctrl, a) = strip_flag(key, "ctrl-"@);
    let (alt, b) = strip_flag(a, "alt-"@);
    let (shift, c) = strip_flag(b, "shift-"@);
    let upper = is_one_ascii(c) && is_ascii_upper(c[0]);
    (Modifiers { shift: shift || upper, ctrl, alt, logo: false }, c)
}

/// Key names whose keysym is spelled differently.
pub open spec fn keysym_names() -> Seq<(Seq<char>, Seq<char>)> {
    seq![
        ("enter"@, "Return"@), ("space"@, "space"@), ("backspace"@, "BackSpace"@),
        ("delete"@, "Delete"@), ("left"@, "Left"@), ("right"@, "Right"@), ("up"@, "Up"@),
        ("down"@, "Down"@), ("home"@, "Home"@), ("end"@, "End"@), ("insert"@, "Insert"@),
        ("page-up"@, "Prior"@), ("page-down"@, "Next"@),
    ]
}

fn keysym_name_list() -> (v: Vec<(&'static str, &'static str)>)
    ensures
        pair_views(v@) == keysym_names(),
{
    let v = vec![
        ("enter", "Return"), ("space", "space"), ("backspace", "BackSpace"),
        ("delete", "Delete"), ("left", "Left"), ("right", "Right"), ("up", "Up"),
        ("down", "Down"), ("home", "Home"), ("end", "End"), ("insert", "Insert"),
        ("page-up", "Prior"), ("page-down", "Next"),
    ];
    assert(pair_views(v@) =~= keysym_names());
    v
}

/// The keysym name to look up for a key without its modifiers.
pub open spec fn keysym_name(suffix: Seq<char>) -> Seq<char> {
    match table_find(keysym_names(), suffix) {
        Some(n) => n,
        None => suffix,
    }
}

impl View for KeySpec {
    type V = (Seq<char>, Seq<char>, Modifiers, Seq<char>, bool);

    open spec fn view(&self) -> Self::V {
        (self.key@, self.label@, self.mods, self.name@, self.exact_case)
    }
}

/// The binding a valid `key` and `label` describe.
pub open spec fn key_spec_of(key: Seq<char>, label: Seq<char>) -> (
    Seq<char>,
    Seq<char>,
    Modifiers,
    Seq<char>,
    bool,
) {
    let (mods, suffix) = mods_and_suffix(key);
    (key, label, mods, keysym_name(suffix), is_one_ascii(suffix))
}

/// What `KEY:LABEL` parses to before the keysym lookup.
pub open spec fn binding_outcome(spec: Seq<char>, r: Result<KeySpec, KeybindError>) -> bool {
    match first_index_of(spec, ':', 0) {
        None => r == Err::<KeySpec, KeybindError>(KeybindError::MissingSeparator),
        Some(i) => {
            let key = spec.take(i);
            let label = spec.skip(i + 1);
            if !is_supported_key(key) || reserved_keys().contains(key) {
                r matches Err(KeybindError::UnsupportedKey(k)) && k@ == key
            } else if is_blank(label) || has_control(label) {
                r == Err::<KeySpec, KeybindError>(KeybindError::InvalidLabel)
            } else {
                r matches Ok(s) && s@ == key_spec_of(key, label)
            }
        },
    }
}

fn find_colon(cs: &[char]) -> (r: Option<usize>)
    ensures
        match first_index_of(cs@, ':', 0) {
            Some(i) => r == Some(i as usize),
            None => r is None,
        },
{
    let mut i: usize = 0;
    while i < cs.len()
        invariant
            i <= cs@.len(),
            first_index_of(cs@, ':', 0) == first_index_of(cs@, ':', i as int),
        decreases cs.len() - i,
    {
        if cs[i] == ':' {
            return Some(i);
        }
        i += 1;
    }
    None
}

/// Whether `cs[from..]` is all white space.
pub(crate) fn blank_from(cs: &[char], from: usize) -> (r: bool)
    requires
        from <= cs@.len(),
    ensures
        r == is_blank(cs@.skip(from as int)),
{
    let mut i = from;
    while i < cs.len()
        invariant
            from <= i <= cs@.len(),
            forall|j: int| from <= j < i ==> is_white_space(#[trigger] cs@[j]),
        decreases cs.len() - i,
    {
        if !is_whitespace(cs[i]) {
            assert(cs@.skip(from as int)[i - from] == cs@[i as int]);
            return false;
        }
        i += 1;
    }
    assert forall|j: int| 0 <= j < cs@.skip(from as int).len() implies is_white_space(
        #[trigger] cs@.skip(from as int)[j],
    ) by {
        assert(cs@.skip(from as int)[j] == cs@[from + j]);
    }
    true
}

/// Whether `cs[from..]` holds a control character.
fn control_from(cs: &[char], from: usize) -> (r: bool)
    requires
        from <= cs@.len(),
    ensures
        r == has_control(cs@.skip(from as int)),
{
    let mut i = from;
    while i < cs.len()
        invariant
            from <= i <= cs@.len(),
            forall|j: int| from <= j < i ==> !is_control_char(#[trigger] cs@[j]),
        decreases cs.len() - i,
    {
        if is_control(cs[i]) {
            assert(cs@.skip(from as int)[i - from] == cs@[i as int]);
            return true;
        }
        i += 1;
    }
    assert forall|j: int| 0 <= j < cs@.skip(from as int).len() implies !is_control_char(
        #[trigger] cs@.skip(from as int)[j],
    ) by {
        assert(cs@.skip(from as int)[j] == cs@[from + j]);
    }
    false
}

/// Whether `key[from..]` starts with `prefix`.
fn has_prefix_at(key: &[char], from: usize, prefix: &str) -> (r: bool)
    requires
        from <= key@.len(),
    ensures
        r == starts_with(key@.skip(from as int), prefix@),
{
    let rest = copy_range(key, from, key.len());
    assert(rest@ =~= key@.skip(from as int));
    has_prefix(&rest, prefix)
}

impl KeySpec {
    /// Validates `KEY:LABEL` and works out the modifiers and the keysym
    /// name to look up: the key must be supported and not reserved, and
    /// the label must not be blank or hold control characters.
    pub fn parse_spec(spec: &str) -> (r: Result<KeySpec, KeybindError>)
        ensures
            binding_outcome(spec@, r),
    {
        let cs = chars_of(spec);
        let i = match find_colon(&cs) {
            Some(i) => i,
            None => return Err(KeybindError::MissingSeparator),
        };
        proof {
            lemma_first_index_of(cs@, ':', 0);
        }
        let n = cs.len();
        assert(i < n);
        let key = copy_range(&cs, 0, i);
        assert(key@ =~= spec@.take(i as int));
        let reserved = reserved_list();
        assert(key@.skip(0) =~= key@);
        if !is_supported_menu_key(&key) || list_contains(&reserved, &key, 0) {
            return Err(KeybindError::UnsupportedKey(string_of(&cs, 0, i)));
        }
        if blank_from(&cs, i + 1) || control_from(&cs, i + 1) {
            return Err(KeybindError::InvalidLabel);
        }
        let mut from: usize = 0;
        let ctrl = has_prefix_at(&key, from, "ctrl-");
        proof {
            reveal_strlit("ctrl-");
            reveal_strlit("alt-");
            reveal_strlit("shift-");
        }
        let ghost a = strip_flag(key@, "ctrl-"@).1;
        if ctrl {
            from = from + 5;
        }
        assert(key@.skip(from as int) =~= a);
        let alt = has_prefix_at(&key, from, "alt-");
        let ghost b = strip_flag(a, "alt-"@).1;
        if alt {
            from = from + 4;
        }
        assert(key@.skip(from as int) =~= b);
        let mut shift = has_prefix_at(&key, from, "shift-");
        let ghost c = strip_flag(b, "shift-"@).1;
        if shift {
            from = from + 6;
        }
        assert(key@.skip(from as int) =~= c);
        let suffix = copy_range(&key, from, key.len());
        assert(suffix@ =~= c);
        let exact_case = suffix.len() == 1 && (suffix[0] as u32) < 128;
        if exact_case && 'A' <= suffix[0] && suffix[0] <= 'Z' {
            shift = true;
        }
        let table = keysym_name_list();
        let name = match find_alias(&table, &suffix) {
            Some(n) => String::from_str(n),
            None => string_of(&suffix, 0, suffix.len()),
        };
        assert(suffix@.subrange(0, suffix@.len() as int) =~= suffix@);
        let label = string_of(&cs, i + 1, cs.len());
        assert(label@ =~= spec@.skip(i + 1));
        assert(exact_case == is_one_ascii(suffix@));
        Ok(KeySpec {
            key: string_of(&cs, 0, i),
            label,
            mods: Modifiers { shift, ctrl, alt, logo: false },
            name,
            exact_case,
        })
    }
}

impl View for Keybind {
    /// The key and label as written, the keysym the binding fires on and
    /// the modifiers it requires, exactly.
    type V = (Seq<char>, Seq<char>, u32, Modifiers);

    closed spec fn view(&self) -> Self::V {
        (self.key@, self.label@, self.sym, self.mods)
    }
}


/// What `key[i]` becomes in a hint: `-` separates the key's parts and
/// becomes `+`, and the first character of each part is uppercased.
pub open spec fn hint_piece(key: Seq<char>, i: int) -> Seq<char> {
    if key[i] == '-' {
        seq!['+']
    } else if i == 0 || key[i - 1] == '-' {
        char_uppercase(key[i])
    } else {
        seq![key[i]]
    }
}

/// The hint for the first `n` characters of `key`.
pub open spec fn hint_keys(key: Seq<char>, n: int) -> Seq<char>
    decreases n,
{
    if n <= 0 {
        Seq::empty()
    } else {
        hint_keys(key, n - 1) + hint_piece(key, n - 1)
    }
}

/// The text a binding shows: its key, parts capitalised and joined by `+`,
/// two spaces, and its label (`ctrl-e` / `Edit` gives `Ctrl+E  Edit`).
pub open spec fn hint_text(key: Seq<char>, label: Seq<char>) -> Seq<char> {
    hint_keys(key, key.len() as int) + "  "@ + label
}

impl Keybind {
    /// Completes a validated binding with the keysym its name resolved to;
    /// [`NO_SYMBOL`] means the name is unknown.
    pub fn from_spec(spec: KeySpec, sym: u32) -> (r: Result<Keybind, KeybindError>)
        ensures
            sym == NO_SYMBOL ==> (r matches Err(KeybindError::UnknownKey(k)) && k@ == spec.key@),
            sym != NO_SYMBOL ==> (r matches Ok(b) && b@ == (spec.key@, spec.label@, sym, spec.mods)),
    {
        if sym == NO_SYMBOL {
            return Err(KeybindError::UnknownKey(spec.key));
        }
        Ok(Keybind { key: spec.key, label: spec.label, sym, mods: spec.mods })
    }

    /// Whether a key press of `sym` with exactly `mods` held fires this
    /// binding.
    pub fn matches(&self, sym: u32, mods: Modifiers) -> (r: bool)
        ensures
            r == (sym == self@.2 && mods == self@.3),
    {
        self.sym == sym && self.mods == mods
    }

    /// The binding as shown to the user.
    pub fn hint(&self) -> (h: String)
        ensures
            h@ == hint_text(self@.0, self@.1),
    {
        let cs = chars_of(self.key.as_str());
        let mut out = String::new();
        let mut i: usize = 0;
        while i < cs.len()
            invariant
                i <= cs@.len(),
                cs@ == self.key@,
                out@ == hint_keys(cs@, i as int),
            decreases cs.len() - i,
        {
            if cs[i] == '-' {
                push_char(&mut out, '+');
            } else if i == 0 || cs[i - 1] == '-' {
                let upper = uppercase_of(cs[i]);
                push_str(&mut out, upper.as_str());
            } else {
                push_char(&mut out, cs[i]);
            }
            i += 1;
        }
        push_str(&mut out, "  ");
        push_str(&mut out, self.label.as_str());
        out
    }
}


/// A binding is accepted only for a supported key that is not reserved,
/// with a label that is neither blank nor holds control characters; its
/// key and label are the text around the first `:`.
pub proof fn lemma_accepted_bindings_are_safe(spec: Seq<char>, r: Result<KeySpec, KeybindError>)
    requires
        binding_outcome(spec, r),
        r is Ok,
    ensures
        is_supported_key(r->Ok_0@.0),
        !reserved_keys().contains(r->Ok_0@.0),
        !is_blank(r->Ok_0@.1),
        !has_control(r->Ok_0@.1),
        spec == r->Ok_0@.0 + seq![':'] + r->Ok_0@.1,
{
    let i = first_index_of(spec, ':', 0)->0;
    lemma_first_index_of(spec, ':', 0);
    assert(spec =~= spec.take(i) + seq![':'] + spec.skip(i + 1));
}

/// The modifier prefixes a binding may start with.
pub open spec fn modifier_prefixes() -> Seq<Seq<char>> {
    seq![
        "ctrl-"@, "alt-"@, "shift-"@, "ctrl-alt-"@, "ctrl-shift-"@, "alt-shift-"@,
        "ctrl-alt-shift-"@,
    ]
}

proof fn lemma_not_prefix(key: Seq<char>, q: Seq<char>, m: int)
    requires
        0 <= m < q.len(),
        m >= key.len() || key[m] != q[m],
    ensures
        !starts_with(key, q),
{
    if starts_with(key, q) {
        assert(key.subrange(0, q.len() as int)[m] == key[m]);
    }
}

proof fn lemma_modified_key_shape(k: Seq<char>)
    requires
        modified_named_keys().contains(k),
    ensures
        k.len() >= 2,
        k[0] != 'a',
        k[0] == 's' ==> k[1] == 'p',
{
    let j = choose|j: int| 0 <= j < modified_named_keys().len() && modified_named_keys()[j] == k;
    reveal_strlit("up");
    reveal_strlit("down");
    reveal_strlit("left");
    reveal_strlit("right");
    reveal_strlit("home");
    reveal_strlit("end");
    reveal_strlit("backspace");
    reveal_strlit("delete");
    reveal_strlit("page-up");
    reveal_strlit("page-down");
    reveal_strlit("enter");
    reveal_strlit("space");
    if j == 0 {
        assert(k == "up"@);
    } else if j == 1 {
        assert(k == "down"@);
    } else if j == 2 {
        assert(k == "left"@);
    } else if j == 3 {
        assert(k == "right"@);
    } else if j == 4 {
        assert(k == "home"@);
    } else if j == 5 {
        assert(k == "end"@);
    } else if j == 6 {
        assert(k == "backspace"@);
    } else if j == 7 {
        assert(k == "delete"@);
    } else if j == 8 {
        assert(k == "page-up"@);
    } else if j == 9 {
        assert(k == "page-down"@);
    } else if j == 10 {
        assert(k == "enter"@);
    } else if j == 11 {
        assert(k == "space"@);
    }
}

proof fn lemma_prefixed_key(p: Seq<char>, k: Seq<char>)
    requires
        modifier_prefixes().contains(p),
        modified_named_keys().contains(k) || (k.len() == 1 && is_ascii_lower(k[0])),
    ensures
        is_supported_key(p + k) == (modified_named_keys().contains(k) || p == "ctrl-"@ || p
            == "alt-"@ || p == "ctrl-alt-"@),
{
    reveal_strlit("alt-");
    reveal_strlit("alt-shift-");
    reveal_strlit("backspace");
    reveal_strlit("ctrl-");
    reveal_strlit("ctrl-alt-");
    reveal_strlit("ctrl-alt-shift-");
    reveal_strlit("ctrl-shift-");
    reveal_strlit("delete");
    reveal_strlit("down");
    reveal_strlit("end");
    reveal_strlit("enter");
    reveal_strlit("esc");
    reveal_strlit("f");
    reveal_strlit("home");
    reveal_strlit("insert");
    reveal_strlit("left");
    reveal_strlit("page-down");
    reveal_strlit("page-up");
    reveal_strlit("right");
    reveal_strlit("shift-");
    reveal_strlit("shift-tab");
    reveal_strlit("space");
    reveal_strlit("tab");
    reveal_strlit("up");
    let key = p + k;
    let i = choose|i: int| 0 <= i < modifier_prefixes().len() && modifier_prefixes()[i] == p;
    assert(p == modifier_prefixes()[i]);
    assert(p.len() >= 4);
    assert(!named_keys().contains(key)) by {
        if named_keys().contains(key) {
            let i = choose|i: int| 0 <= i < named_keys().len() && named_keys()[i] == key;
            assert(key[key.len() - 1] == named_keys()[i][named_keys()[i].len() - 1]);
            assert(key[0] == named_keys()[i][0]);
            assert(key[1] == named_keys()[i][1]);
            assert(key[2] == named_keys()[i][2]);
            assert(key[3] == named_keys()[i][3]);
            assert(key[4] == named_keys()[i][4]);
        }
    }
    assert(!starts_with(key, "f"@)) by {
        assert(key.subrange(0, 1)[0] == key[0]);
    }
    assert(!is_one_ascii(key));
    assert(key.skip(p.len() as int) =~= k);
    assert(p[0] == key[0]);
    if k.len() >= 2 {
        lemma_modified_key_shape(k);
    } else {
        assert(!modified_named_keys().contains(k)) by {
            if modified_named_keys().contains(k) {
                lemma_modified_key_shape(k);
            }
        }
    }
    if i == 0 {
        assert(p == "ctrl-"@);
        lemma_not_prefix(key, "ctrl-alt-shift-"@, if k.len() >= 2 && k[0] != 'a' { 5 } else { 6 });
        lemma_not_prefix(key, "ctrl-alt-"@, if k.len() >= 2 && k[0] != 'a' { 5 } else { 6 });
        lemma_not_prefix(key, "ctrl-shift-"@, if k.len() >= 2 && k[0] != 's' { 5 } else { 6 });
        assert(key.subrange(0, 5) =~= "ctrl-"@);
    } else if i == 1 {
        assert(p == "alt-"@);
        lemma_not_prefix(key, "ctrl-alt-shift-"@, 0);
        lemma_not_prefix(key, "ctrl-alt-"@, 0);
        lemma_not_prefix(key, "ctrl-shift-"@, 0);
        lemma_not_prefix(key, "ctrl-"@, 0);
        lemma_not_prefix(key, "alt-shift-"@, if k.len() >= 2 && k[0] != 's' { 4 } else { 5 });
        assert(key.subrange(0, 4) =~= "alt-"@);
    } else if i == 2 {
        assert(p == "shift-"@);
        lemma_not_prefix(key, "ctrl-alt-shift-"@, 0);
        lemma_not_prefix(key, "ctrl-alt-"@, 0);
        lemma_not_prefix(key, "ctrl-shift-"@, 0);
        lemma_not_prefix(key, "ctrl-"@, 0);
        lemma_not_prefix(key, "alt-shift-"@, 0);
        lemma_not_prefix(key, "alt-"@, 0);
        assert(key.subrange(0, 6) =~= "shift-"@);
    } else if i == 3 {
        assert(p == "ctrl-alt-"@);
        lemma_not_prefix(key, "ctrl-alt-shift-"@, if k.len() >= 2 && k[0] != 's' { 9 } else { 10 });
        assert(key.subrange(0, 9) =~= "ctrl-alt-"@);
    } else if i == 4 {
        assert(p == "ctrl-shift-"@);
        lemma_not_prefix(key, "ctrl-alt-shift-"@, 5);
        lemma_not_prefix(key, "ctrl-alt-"@, 5);
        assert(key.subrange(0, 11) =~= "ctrl-shift-"@);
    } else if i == 5 {
        assert(p == "alt-shift-"@);
        lemma_not_prefix(key, "ctrl-alt-shift-"@, 0);
        lemma_not_prefix(key, "ctrl-alt-"@, 0);
        lemma_not_prefix(key, "ctrl-shift-"@, 0);
        lemma_not_prefix(key, "ctrl-"@, 0);
        assert(key.subrange(0, 10) =~= "alt-shift-"@);
    } else if i == 6 {
        assert(p == "ctrl-alt-shift-"@);
        assert(key.subrange(0, 15) =~= "ctrl-alt-shift-"@);
    }
}

/// For each of the seven modifier prefixes `p`, each modifiable named key
/// `n` and each lowercase letter `c`: `is_supported_menu_key(p + n)` holds,
/// and `is_supported_menu_key(p + c)` holds exactly for `ctrl-`, `alt-`
/// and `ctrl-alt-` (the function's contract is `is_supported_key`).
pub proof fn lemma_modifier_prefixes(p: Seq<char>, n: Seq<char>, c: char)
    requires
        modifier_prefixes().contains(p),
        modified_named_keys().contains(n),
        is_ascii_lower(c),
    ensures
        is_supported_key(p + n),
        is_supported_key(p + seq![c]) == (p == "ctrl-"@ || p == "alt-"@ || p == "ctrl-alt-"@),
{
    lemma_prefixed_key(p, n);
    reveal_strlit("alt-");
    reveal_strlit("alt-shift-");
    reveal_strlit("backspace");
    reveal_strlit("ctrl-");
    reveal_strlit("ctrl-alt-");
    reveal_strlit("ctrl-alt-shift-");
    reveal_strlit("ctrl-shift-");
    reveal_strlit("delete");
    reveal_strlit("down");
    reveal_strlit("end");
    reveal_strlit("enter");
    reveal_strlit("esc");
    reveal_strlit("f");
    reveal_strlit("home");
    reveal_strlit("insert");
    reveal_strlit("left");
    reveal_strlit("page-down");
    reveal_strlit("page-up");
    reveal_strlit("right");
    reveal_strlit("shift-");
    reveal_strlit("shift-tab");
    reveal_strlit("space");
    reveal_strlit("tab");
    reveal_strlit("up");
    assert(!modified_named_keys().contains(seq![c])) by {
        if modified_named_keys().contains(seq![c]) {
            let i = choose|i: int|
                0 <= i < modified_named_keys().len() && modified_named_keys()[i] == seq![c];
            assert(modified_named_keys()[i].len() >= 2);
        }
    }
    lemma_prefixed_key(p, seq![c]);
}

} // verus!
