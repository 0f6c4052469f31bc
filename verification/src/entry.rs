//! Parsing for the line-oriented item format.
//!
//! A plain line is both the visible label and the value written to stdout:
//!
//! ```text
//! Display
//! ```
//!
//! An optional leading attribute block adds presentation and matching
//! metadata without becoming part of the label or output:
//!
//! ```text
//! {blue icon=display key=d match="monitor screen"} Display
//! {heading green} System actions
//! {value="/tmp/a b"} My File
//! ```
//!
//! Attributes are whitespace-separated. Values containing whitespace may be
//! single- or double-quoted; a backslash quotes the following character.
//! Known color names are shorthand for `color=<name>`, so `{red}` and
//! `{color=red}` are equivalent. A line is interpreted as markup only when
//! the complete leading block is valid; otherwise it remains literal text.
use vstd::prelude::*;

use crate::enums::Scheme;
use crate::icons::{chars_eq_from, lookup_chars, skip_ws, spec_lookup};
use vstd::string::StrSliceExecFns;
use crate::text::{
    chars_of, copy_range, is_control, is_control_char, is_white_space, is_whitespace, lower_seq, string_of,
    to_lower,
};

verus! {

broadcast use vstd::string::group_string_axioms;

/// Parsed metadata which affects one menu item.
#[derive(Debug, Clone, Copy, PartialEq, Eq, Structural)]
pub struct ItemEntry {
    /// Optional item color. Ordinary items use it while selected; a
    /// heading carries it at all times.
    pub scheme: Option<Scheme>,
    /// Optional glyph drawn in the icon gutter.
    pub icon: Option<char>,
    /// Explicit activation key used by single-key mode.
    pub key: Option<char>,
    /// Structural, non-selectable heading row.
    pub heading: bool,
}

/// The entry of a line without metadata.
pub open spec fn no_entry() -> ItemEntry {
    ItemEntry { scheme: None, icon: None, key: None, heading: false }
}

impl ItemEntry {
    pub fn is_heading(self) -> (b: bool)
        ensures
            b == self.heading,
    {
        self.heading
    }
}

impl Default for ItemEntry {
    fn default() -> (e: Self)
        ensures
            e == no_entry(),
    {
        ItemEntry { scheme: None, icon: None, key: None, heading: false }
    }
}

/// The result of parsing one source line; the label borrows from the line.
#[derive(Debug, Clone, PartialEq, Eq)]
pub struct ParsedItem<'a> {
    /// Visible label and default output value.
    pub label: &'a str,
    /// Extra text used only for regular-menu matching.
    pub match_text: Option<String>,
    /// Optional output value printed when selected.
    pub value: Option<String>,
    pub entry: ItemEntry,
}

/// The mathematical content of a parsed line: label, match text, value and
/// entry.
pub type ParsedView = (Seq<char>, Option<Seq<char>>, Option<Seq<char>>, ItemEntry);

pub open spec fn opt_view(o: Option<String>) -> Option<Seq<char>> {
    match o {
        Some(s) => Some(s@),
        None => None,
    }
}

impl<'a> View for ParsedItem<'a> {
    type V = ParsedView;

    open spec fn view(&self) -> ParsedView {
        (self.label@, opt_view(self.match_text), opt_view(self.value), self.entry)
    }
}

/// A line taken literally: the whole text is the label.
pub open spec fn plain_view(t: Seq<char>) -> ParsedView {
    (t, None, None, no_entry())
}

impl<'a> ParsedItem<'a> {
    /// The literal reading of `text`.
    pub fn plain(text: &'a str) -> (p: Self)
        ensures
            p@ == plain_view(text@),
    {
        ParsedItem { label: text, match_text: None, value: None, entry: ItemEntry::default() }
    }
}

/* ------------------------------------------------------------------ */
/* The grammar, stated over the characters `t` of the whole line.     */
/* ------------------------------------------------------------------ */

/// Index of the first unquoted `}` at or after `i`, scanning with the given
/// quote and escape state; `None` when an unquoted `{` or the end of the
/// line comes first. Metadata is flat: nested blocks are not part of the
/// language.
pub open spec fn closing_brace(t: Seq<char>, i: int, quote: Option<char>, escaped: bool) -> Option<
    int,
>
    decreases t.len() - i,
{
    if i < 0 || i >= t.len() {
        None
    } else {
        let c = t[i];
        if escaped {
            closing_brace(t, i + 1, quote, false)
        } else if c == '\\' {
            closing_brace(t, i + 1, quote, true)
        } else if quote is Some {
            if c == quote->0 {
                closing_brace(t, i + 1, None, false)
            } else {
                closing_brace(t, i + 1, quote, false)
            }
        } else if c == '\'' || c == '"' {
            closing_brace(t, i + 1, Some(c), false)
        } else if c == '}' {
            Some(i)
        } else if c == '{' {
            None
        } else {
            closing_brace(t, i + 1, None, false)
        }
    }
}

/// First index at or after `i` (before `end`) that is not white space.
pub open spec fn skip_ws_in(t: Seq<char>, i: int, end: int) -> int
    decreases end - i,
{
    if 0 <= i < end && is_white_space(t[i]) {
        skip_ws_in(t, i + 1, end)
    } else {
        i
    }
}

/// Characters that may not appear in an attribute name.
pub open spec fn is_name_special(c: char) -> bool {
    c == '{' || c == '}' || c == '\'' || c == '"' || c == '\\'
}

/// Characters that may not appear in an unquoted value.
pub open spec fn is_value_special(c: char) -> bool {
    c == '=' || is_name_special(c)
}

/// End of the name starting at `i`: the first white space, `=` or `end`.
pub open spec fn name_stop(t: Seq<char>, i: int, end: int) -> int
    decreases end - i,
{
    if 0 <= i < end && !is_white_space(t[i]) && t[i] != '=' {
        name_stop(t, i + 1, end)
    } else {
        i
    }
}

/// End of the unquoted value starting at `i`: the first white space or `end`.
pub open spec fn bare_stop(t: Seq<char>, i: int, end: int) -> int
    decreases end - i,
{
    if 0 <= i < end && !is_white_space(t[i]) {
        bare_stop(t, i + 1, end)
    } else {
        i
    }
}

/// Prepend `acc` to the value of a scan result.
pub open spec fn prefixed(acc: Seq<char>, r: Option<(Seq<char>, int)>) -> Option<(Seq<char>, int)> {
    match r {
        Some((v, k)) => Some((acc + v, k)),
        None => None,
    }
}

/// The rest of a value quoted by `q`, scanned from `j`: the unescaped text
/// and the index just past the closing quote, or `None` when the quote is
/// not closed before `end`.
pub open spec fn quoted_value(t: Seq<char>, j: int, end: int, q: char, escaped: bool) -> Option<
    (Seq<char>, int),
>
    decreases end - j,
{
    if j < 0 || j >= end {
        None
    } else {
        let c = t[j];
        if escaped {
            prefixed(seq![c], quoted_value(t, j + 1, end, q, false))
        } else if c == '\\' {
            quoted_value(t, j + 1, end, q, true)
        } else if c == q {
            Some((Seq::empty(), j + 1))
        } else {
            prefixed(seq![c], quoted_value(t, j + 1, end, q, false))
        }
    }
}

/// The value starting at `i` and the index just after it: quoted, or a
/// non-empty run of characters without white space or `= { } ' " \`.
pub open spec fn value_at(t: Seq<char>, i: int, end: int) -> Option<(Seq<char>, int)> {
    if i < 0 || i >= end {
        None
    } else if t[i] == '\'' || t[i] == '"' {
        quoted_value(t, i + 1, end, t[i], false)
    } else {
        let e = bare_stop(t, i, end);
        if exists|j: int| i <= j < e && is_value_special(#[trigger] t[j]) {
            None
        } else if e > i {
            Some((t.subrange(i, e), e))
        } else {
            None
        }
    }
}

/// An attribute: its lowercased name and optional value.
pub type AttrView = (Seq<char>, Option<Seq<char>>);

/// The attribute starting at or after `c` and the index just after it;
/// `Some(None)` when only white space remains, `None` when the text is
/// malformed.
pub open spec fn next_attr(t: Seq<char>, c: int, end: int) -> Option<Option<(AttrView, int)>> {
    let s = skip_ws_in(t, c, end);
    if s >= end {
        Some(None)
    } else {
        let e = name_stop(t, s, end);
        if e == s || exists|j: int| s <= j < e && is_name_special(#[trigger] t[j]) {
            None
        } else {
            let name = lower_seq(t.subrange(s, e));
            if e < end && t[e] == '=' {
                match value_at(t, e + 1, end) {
                    None => None,
                    Some((v, k)) => if k < end && !is_white_space(t[k]) {
                        None
                    } else {
                        Some(Some(((name, Some(v)), k)))
                    },
                }
            } else {
                Some(Some(((name, None), e)))
            }
        }
    }
}

/// Named item schemes. `blue` is the friendly alias for `selected`;
/// `default` aliases `normal`. Case does not matter.
pub open spec fn color_of(name: Seq<char>) -> Option<Scheme> {
    let l = lower_seq(name);
    if l == "normal"@ || l == "default"@ {
        Some(Scheme::Normal)
    } else if l == "fade"@ {
        Some(Scheme::Fade)
    } else if l == "highlight"@ {
        Some(Scheme::Highlight)
    } else if l == "hover"@ {
        Some(Scheme::Hover)
    } else if l == "selected"@ || l == "blue"@ {
        Some(Scheme::Selected)
    } else if l == "output"@ {
        Some(Scheme::Output)
    } else if l == "green"@ {
        Some(Scheme::Green)
    } else if l == "yellow"@ {
        Some(Scheme::Yellow)
    } else if l == "red"@ {
        Some(Scheme::Red)
    } else {
        None
    }
}

/// The metadata collected so far: entry, match text and value.
pub type Collected = (ItemEntry, Option<Seq<char>>, Option<Seq<char>>);

/// Add one attribute to the metadata, or `None` when it is unknown,
/// repeated, empty or invalid.
pub open spec fn apply_attr(st: Collected, name: Seq<char>, value: Option<Seq<char>>) -> Option<
    Collected,
> {
    let (e, mt, val) = st;
    if name == "color"@ && value is Some && e.scheme is None {
        match color_of(value->0) {
            Some(s) => Some((ItemEntry { scheme: Some(s), ..e }, mt, val)),
            None => None,
        }
    } else if name == "icon"@ && value is Some && e.icon is None {
        match spec_lookup(value->0) {
            Some(g) => Some((ItemEntry { icon: Some(g), ..e }, mt, val)),
            None => None,
        }
    } else if name == "key"@ && value is Some && e.key is None {
        let v = value->0;
        if v.len() == 1 && !is_control_char(v[0]) && !is_white_space(v[0]) {
            Some((ItemEntry { key: Some(v[0]), ..e }, mt, val))
        } else {
            None
        }
    } else if name == "match"@ && value is Some && mt is None && value->0.len() > 0 {
        Some((e, value, val))
    } else if name == "value"@ && value is Some && val is None && value->0.len() > 0 {
        Some((e, mt, value))
    } else if name == "heading"@ && value is None && !e.heading {
        Some((ItemEntry { heading: true, ..e }, mt, val))
    } else if value is None && e.scheme is None {
        match color_of(name) {
            Some(s) => Some((ItemEntry { scheme: Some(s), ..e }, mt, val)),
            None => None,
        }
    } else {
        None
    }
}

/// Scan and apply every attribute from `c` up to `end`; the result also
/// says whether any attribute was seen.
pub open spec fn run_attrs(t: Seq<char>, c: int, end: int, st: Collected, saw: bool) -> Option<
    (Collected, bool),
>
    decreases end - c,
{
    match next_attr(t, c, end) {
        None => None,
        Some(None) => Some((st, saw)),
        Some(Some((attr, k))) => if c < k <= end {
            match apply_attr(st, attr.0, attr.1) {
                None => None,
                Some(st2) => run_attrs(t, k, end, st2, true),
            }
        } else {
            None
        },
    }
}

/// The markup reading of a line: a valid, complete leading block followed
/// by white space or the end of the line.
pub open spec fn spec_markup(t: Seq<char>) -> Option<ParsedView> {
    if t.len() == 0 || t[0] != '{' {
        None
    } else {
        match closing_brace(t, 1, None, false) {
            None => None,
            Some(end) => {
                let after = end + 1;
                if after < t.len() && !is_white_space(t[after]) {
                    None
                } else {
                    match run_attrs(t, 1, end, (no_entry(), None, None), false) {
                        None => None,
                        Some((st, saw)) => {
                            let (e, mt, val) = st;
                            if !saw || (e.heading && (e.key is Some || mt is Some || val is Some)) {
                                None
                            } else {
                                Some((t.subrange(skip_ws(t, after), t.len() as int), mt, val, e))
                            }
                        },
                    }
                }
            },
        }
    }
}

/// How a line reads: `{{` escapes a literal brace; otherwise a valid block
/// is markup and anything else is literal text.
pub open spec fn spec_parse(t: Seq<char>) -> ParsedView {
    if t.len() >= 2 && t[0] == '{' && t[1] == '{' {
        plain_view(t.skip(1))
    } else {
        match spec_markup(t) {
            Some(p) => p,
            None => plain_view(t),
        }
    }
}


/* ------------------------------------------------------------------ */
/* Facts about the scanning functions.                                 */
/* ------------------------------------------------------------------ */

proof fn lemma_skip_ws_in(t: Seq<char>, i: int, end: int)
    requires
        0 <= i <= end <= t.len(),
    ensures
        i <= skip_ws_in(t, i, end) <= end,
        skip_ws_in(t, i, end) < end ==> !is_white_space(t[skip_ws_in(t, i, end)]),
    decreases end - i,
{
    if i < end && is_white_space(t[i]) {
        lemma_skip_ws_in(t, i + 1, end);
    }
}

proof fn lemma_name_stop(t: Seq<char>, i: int, end: int)
    requires
        0 <= i <= end <= t.len(),
    ensures
        i <= name_stop(t, i, end) <= end,
        forall|j: int| i <= j < name_stop(t, i, end) ==> !is_white_space(#[trigger] t[j]) && t[j] != '=',
        name_stop(t, i, end) < end ==> (is_white_space(t[name_stop(t, i, end)]) || t[name_stop(t, i, end)] == '='),
    decreases end - i,
{
    if i < end && !is_white_space(t[i]) && t[i] != '=' {
        lemma_name_stop(t, i + 1, end);
    }
}

proof fn lemma_bare_stop(t: Seq<char>, i: int, end: int)
    requires
        0 <= i <= end <= t.len(),
    ensures
        i <= bare_stop(t, i, end) <= end,
        forall|j: int| i <= j < bare_stop(t, i, end) ==> !is_white_space(#[trigger] t[j]),
        bare_stop(t, i, end) < end ==> is_white_space(t[bare_stop(t, i, end)]),
    decreases end - i,
{
    if i < end && !is_white_space(t[i]) {
        lemma_bare_stop(t, i + 1, end);
    }
}

proof fn lemma_quoted_value_bounds(t: Seq<char>, j: int, end: int, q: char, escaped: bool)
    requires
        0 <= j,
        end <= t.len(),
    ensures
        quoted_value(t, j, end, q, escaped) matches Some((v, k)) ==> j < k <= end,
    decreases end - j,
{
    if 0 <= j < end {
        lemma_quoted_value_bounds(t, j + 1, end, q, false);
        lemma_quoted_value_bounds(t, j + 1, end, q, true);
    }
}

proof fn lemma_prefixed_push(acc: Seq<char>, c: char, r: Option<(Seq<char>, int)>)
    ensures
        prefixed(acc, prefixed(seq![c], r)) == prefixed(acc.push(c), r),
{
    match r {
        Some((v, k)) => {
            assert(acc + (seq![c] + v) =~= acc.push(c) + v);
        },
        None => {},
    }
}

/* ------------------------------------------------------------------ */
/* The scanner.                                                        */
/* ------------------------------------------------------------------ */

/// One scanned attribute: its lowercased name and optional value.
struct Attribute {
    name: Vec<char>,
    value: Option<Vec<char>>,
}

pub open spec fn opt_chars(o: Option<Vec<char>>) -> Option<Seq<char>> {
    match o {
        Some(v) => Some(v@),
        None => None,
    }
}

/// A small shell-like scanner for the flat contents of `{...}`. It accepts
/// `name=value`, quoted values, and bare shorthand words; whitespace around
/// `=` is intentionally not accepted so the grammar remains unambiguous.
struct AttributeScanner<'a> {
    text: &'a [char],
    end: usize,
    cursor: usize,
}

impl<'a> AttributeScanner<'a> {
    spec fn wf(&self) -> bool {
        self.cursor <= self.end <= self.text@.len()
    }

    fn new(text: &'a [char], start: usize, end: usize) -> (s: Self)
        requires
            start <= end <= text@.len(),
        ensures
            s.wf(),
            s.text == text,
            s.cursor == start,
            s.end == end,
    {
        AttributeScanner { text, end, cursor: start }
    }

    fn peek(&self) -> (r: Option<char>)
        requires
            self.wf(),
        ensures
            r == if self.cursor < self.end {
                Some(self.text@[self.cursor as int])
            } else {
                None
            },
    {
        if self.cursor < self.end {
            Some(self.text[self.cursor])
        } else {
            None
        }
    }

    fn bump(&mut self)
        requires
            old(self).wf(),
            old(self).cursor < old(self).end,
        ensures
            final(self).wf(),
            final(self).text == old(self).text,
            final(self).end == old(self).end,
            final(self).cursor == old(self).cursor + 1,
    {
        self.cursor = self.cursor + 1;
    }

    fn skip_whitespace(&mut self)
        requires
            old(self).wf(),
        ensures
            final(self).wf(),
            final(self).text == old(self).text,
            final(self).end == old(self).end,
            final(self).cursor == skip_ws_in(old(self).text@, old(self).cursor as int, old(self).end as int),
    {
        let ghost t = self.text@;
        let ghost text0 = self.text;
        let ghost end0 = self.end;
        let ghost start = self.cursor as int;
        while self.cursor < self.end && is_whitespace(self.text[self.cursor])
            invariant
                self.wf(),
                self.text@ == t,
                self.text == text0,
                self.end == end0,
                self.end == old(self).end,
                skip_ws_in(t, start, self.end as int) == skip_ws_in(t, self.cursor as int, self.end as int),
            decreases self.end - self.cursor,
        {
            self.bump();
        }
    }

    /// The value at the cursor (after `=`).
    fn value(&mut self) -> (r: Option<Vec<char>>)
        requires
            old(self).wf(),
        ensures
            final(self).wf(),
            final(self).text == old(self).text,
            final(self).end == old(self).end,
            old(self).cursor <= final(self).cursor,
            value_at(old(self).text@, old(self).cursor as int, old(self).end as int) == match r {
                Some(v) => Some((v@, final(self).cursor as int)),
                None => None,
            },
    {
        let ghost t = self.text@;
        let ghost text0 = self.text;
        let ghost end0 = self.end;
        let ghost end = self.end as int;
        let start = self.cursor;
        let first = match self.peek() {
            None => return None,
            Some(c) => c,
        };
        if first == '\'' || first == '"' {
            self.bump();
            let quote = first;
            let mut value: Vec<char> = Vec::new();
            let mut escaped = false;
            let mut closed = false;
            assert(value@ + Seq::<char>::empty() =~= Seq::<char>::empty());
            while !closed && self.cursor < self.end
                invariant
                    self.wf(),
                    self.text@ == t,
                    self.text == text0,
                    self.end == end0,
                    self.end as int == end,
                    start < self.cursor,
                    closed ==> quoted_value(t, start + 1, end, quote, false) == Some(
                        (value@, self.cursor as int),
                    ),
                    !closed ==> quoted_value(t, start + 1, end, quote, false) == prefixed(
                        value@,
                        quoted_value(t, self.cursor as int, end, quote, escaped),
                    ),
                decreases self.end - self.cursor,
            {
                let ghost cur = self.cursor as int;
                let c = self.text[self.cursor];
                self.bump();
                if escaped {
                    proof {
                        lemma_prefixed_push(value@, c, quoted_value(t, cur + 1, end, quote, false));
                    }
                    value.push(c);
                    escaped = false;
                } else if c == '\\' {
                    escaped = true;
                } else if c == quote {
                    assert(value@ + Seq::<char>::empty() =~= value@);
                    closed = true;
                } else {
                    proof {
                        lemma_prefixed_push(value@, c, quoted_value(t, cur + 1, end, quote, false));
                    }
                    value.push(c);
                }
            }
            if closed {
                Some(value)
            } else {
                None
            }
        } else {
            proof {
                lemma_bare_stop(t, start as int, end);
            }
            let mut bad = false;
            while !bad && self.cursor < self.end && !is_whitespace(self.text[self.cursor])
                invariant
                    self.wf(),
                    self.text@ == t,
                    self.text == text0,
                    self.end == end0,
                    self.end as int == end,
                    start <= self.cursor,
                    bare_stop(t, start as int, end) == bare_stop(t, self.cursor as int, end),
                    forall|j: int| start <= j < self.cursor ==> !is_value_special(#[trigger] t[j]),
                    bad ==> exists|j: int| start <= j < bare_stop(t, start as int, end) && is_value_special(#[trigger] t[j]),
                decreases self.end - self.cursor + if bad { 0int } else { 1int },
            {
                let c = self.text[self.cursor];
                if c == '=' || c == '{' || c == '}' || c == '\'' || c == '"' || c == '\\' {
                    proof {
                        lemma_bare_stop(t, self.cursor as int, end);
                        assert(is_value_special(t[self.cursor as int]));
                    }
                    bad = true;
                } else {
                    self.bump();
                }
            }
            proof {
                lemma_bare_stop(t, self.cursor as int, end);
            }
            if bad {
                None
            } else if self.cursor > start {
                Some(copy_range(self.text, start, self.cursor))
            } else {
                None
            }
        }
    }

    /// The next attribute; `Ok(None)` when only white space remains and
    /// `Err` when the block is malformed.
    fn next_attribute(&mut self) -> (r: Result<Option<Attribute>, ()>)
        requires
            old(self).wf(),
        ensures
            final(self).wf(),
            final(self).text == old(self).text,
            final(self).end == old(self).end,
            next_attr(old(self).text@, old(self).cursor as int, old(self).end as int) == match r {
                Err(()) => None,
                Ok(None) => Some(None),
                Ok(Some(a)) => Some(Some(((a.name@, opt_chars(a.value)), final(self).cursor as int))),
            },
            r matches Ok(Some(_)) ==> old(self).cursor < final(self).cursor,
            old(self).cursor <= final(self).cursor,
    {
        let ghost t = self.text@;
        let ghost text0 = self.text;
        let ghost end0 = self.end;
        let ghost end = self.end as int;
        let ghost c0 = self.cursor as int;
        self.skip_whitespace();
        proof {
            lemma_skip_ws_in(t, c0, end);
        }
        if self.cursor == self.end {
            return Ok(None);
        }
        let name_start = self.cursor;
        proof {
            lemma_name_stop(t, name_start as int, end);
        }
        let mut bad = false;
        while !bad && self.cursor < self.end && !is_whitespace(self.text[self.cursor])
            && self.text[self.cursor] != '='
            invariant
                self.wf(),
                self.text@ == t,
                self.text == text0,
                self.end == end0,
                self.end as int == end,
                name_start <= self.cursor,
                name_stop(t, name_start as int, end) == name_stop(t, self.cursor as int, end),
                forall|j: int| name_start <= j < self.cursor ==> !is_name_special(#[trigger] t[j]),
                bad ==> exists|j: int| name_start <= j < name_stop(t, name_start as int, end) && is_name_special(#[trigger] t[j]),
            decreases self.end - self.cursor + if bad { 0int } else { 1int },
        {
            let c = self.text[self.cursor];
            if c == '{' || c == '}' || c == '\'' || c == '"' || c == '\\' {
                proof {
                    lemma_name_stop(t, self.cursor as int, end);
                    assert(is_name_special(t[self.cursor as int]));
                }
                bad = true;
            } else {
                self.bump();
            }
        }
        if bad {
            return Err(());
        }
        proof {
            lemma_name_stop(t, self.cursor as int, end);
        }
        let name_end = self.cursor;
        if name_end == name_start {
            return Err(());
        }
        let name = lower_range(self.text, name_start, name_end);
        let value = if self.peek() == Some('=') {
            self.bump();
            match self.value() {
                Some(v) => Some(v),
                None => return Err(()),
            }
        } else {
            None
        };
        proof {
            if value is Some {
                let vs = value_at(t, name_end + 1, end);
                if t[name_end + 1] == '\'' || t[name_end + 1] == '"' {
                    lemma_quoted_value_bounds(t, name_end + 2, end, t[name_end + 1], false);
                } else {
                    lemma_bare_stop(t, name_end + 1, end);
                }
            }
        }
        if let Some(c) = self.peek() {
            if !is_whitespace(c) {
                return Err(());
            }
        }
        Ok(Some(Attribute { name, value }))
    }
}

/// `t[from..to]` ASCII-lowercased.
fn lower_range(t: &[char], from: usize, to: usize) -> (v: Vec<char>)
    requires
        from <= to <= t@.len(),
    ensures
        v@ == lower_seq(t@.subrange(from as int, to as int)),
{
    let mut v: Vec<char> = Vec::new();
    let mut i = from;
    while i < to
        invariant
            from <= i <= to <= t@.len(),
            v@ == lower_seq(t@.subrange(from as int, i as int)),
        decreases to - i,
    {
        v.push(to_lower(t[i]));
        i += 1;
        assert(v@ =~= lower_seq(t@.subrange(from as int, i as int)));
    }
    v
}


/// Index of the first unquoted closing brace at or after `from`.
fn closing_brace_exec(t: &[char], from: usize) -> (r: Option<usize>)
    requires
        from <= t@.len(),
    ensures
        match r {
            Some(i) => closing_brace(t@, from as int, None, false) == Some(i as int) && from <= i
                < t@.len(),
            None => closing_brace(t@, from as int, None, false) is None,
        },
{
    let mut quote: Option<char> = None;
    let mut escaped = false;
    let mut i = from;
    while i < t.len()
        invariant
            from <= i <= t@.len(),
            closing_brace(t@, from as int, None, false) == closing_brace(t@, i as int, quote, escaped),
        decreases t.len() - i,
    {
        let c = t[i];
        if escaped {
            escaped = false;
        } else if c == '\\' {
            escaped = true;
        } else if quote.is_some() {
            if Some(c) == quote {
                quote = None;
            }
        } else if c == '\'' || c == '"' {
            quote = Some(c);
        } else if c == '}' {
            return Some(i);
        } else if c == '{' {
            return None;
        }
        i += 1;
    }
    None
}

/// Whether `s` spells the literal `lit`.
fn is_lit(s: &[char], lit: &str) -> (b: bool)
    ensures
        b == (s@ == lit@),
{
    let l = chars_of(lit);
    assert(s@.skip(0) =~= s@);
    chars_eq_from(&l, s, 0)
}

/// Named item schemes. `blue` is the friendly alias for the palette's
/// `selected` role; `default` aliases `normal`.
fn parse_color(name: &[char]) -> (r: Option<Scheme>)
    ensures
        r == color_of(name@),
{
    let l = lower_range(name, 0, name.len());
    assert(name@.subrange(0, name@.len() as int) =~= name@);
    if is_lit(&l, "normal") || is_lit(&l, "default") {
        Some(Scheme::Normal)
    } else if is_lit(&l, "fade") {
        Some(Scheme::Fade)
    } else if is_lit(&l, "highlight") {
        Some(Scheme::Highlight)
    } else if is_lit(&l, "hover") {
        Some(Scheme::Hover)
    } else if is_lit(&l, "selected") || is_lit(&l, "blue") {
        Some(Scheme::Selected)
    } else if is_lit(&l, "output") {
        Some(Scheme::Output)
    } else if is_lit(&l, "green") {
        Some(Scheme::Green)
    } else if is_lit(&l, "yellow") {
        Some(Scheme::Yellow)
    } else if is_lit(&l, "red") {
        Some(Scheme::Red)
    } else {
        None
    }
}

/// Add one attribute to the collected metadata.
fn apply_attribute(
    entry: ItemEntry,
    match_text: Option<Vec<char>>,
    value: Option<Vec<char>>,
    attribute: Attribute,
) -> (r: Option<(ItemEntry, Option<Vec<char>>, Option<Vec<char>>)>)
    ensures
        apply_attr(
            (entry, opt_chars(match_text), opt_chars(value)),
            attribute.name@,
            opt_chars(attribute.value),
        ) == match r {
            Some((e, m, v)) => Some((e, opt_chars(m), opt_chars(v))),
            None => None,
        },
{
    let name = attribute.name;
    let ghost st: Collected = (entry, opt_chars(match_text), opt_chars(value));
    match attribute.value {
        Some(v) => {
            assert(opt_chars(attribute.value) == Some(v@));
            if is_lit(&name, "color") && entry.scheme.is_none() {
                match parse_color(&v) {
                    Some(s) => {
                        assert(apply_attr(st, name@, Some(v@)) == Some((ItemEntry { scheme: Some(s), ..entry }, st.1, st.2)));
                        Some((ItemEntry { scheme: Some(s), ..entry }, match_text, value))
                    },
                    None => None,
                }
            } else if is_lit(&name, "icon") && entry.icon.is_none() {
                match lookup_chars(&v) {
                    Some(g) => {
                        assert(apply_attr(st, name@, Some(v@)) == Some((ItemEntry { icon: Some(g), ..entry }, st.1, st.2)));
                        Some((ItemEntry { icon: Some(g), ..entry }, match_text, value))
                    },
                    None => {
                        assert(apply_attr(st, name@, Some(v@)) is None);
                        None
                    },
                }
            } else if is_lit(&name, "key") && entry.key.is_none() {
                if v.len() == 1 && !is_control(v[0]) && !is_whitespace(v[0]) {
                    assert(apply_attr(st, name@, Some(v@)) == Some((ItemEntry { key: Some(v[0]), ..entry }, st.1, st.2)));
                    Some((ItemEntry { key: Some(v[0]), ..entry }, match_text, value))
                } else {
                    assert(apply_attr(st, name@, Some(v@)) is None);
                    None
                }
            } else if is_lit(&name, "match") && match_text.is_none() && v.len() > 0 {
                assert(apply_attr(st, name@, Some(v@)) == Some((entry, Some(v@), st.2)));
                Some((entry, Some(v), value))
            } else if is_lit(&name, "value") && value.is_none() && v.len() > 0 {
                assert(apply_attr(st, name@, Some(v@)) == Some((entry, st.1, Some(v@))));
                Some((entry, match_text, Some(v)))
            } else {
                assert(apply_attr(st, name@, Some(v@)) is None);
                None
            }
        },
        None => {
            if is_lit(&name, "heading") && !entry.heading {
                Some((ItemEntry { heading: true, ..entry }, match_text, value))
            } else if entry.scheme.is_none() {
                match parse_color(&name) {
                    Some(s) => Some((ItemEntry { scheme: Some(s), ..entry }, match_text, value)),
                    None => None,
                }
            } else {
                None
            }
        },
    }
}

/// The markup reading of the line `text` (whose characters are `t`).
fn parse_markup<'a>(text: &'a str, t: &Vec<char>) -> (r: Option<ParsedItem<'a>>)
    requires
        t@ == text@,
    ensures
        match r {
            Some(p) => spec_markup(text@) == Some(p@),
            None => spec_markup(text@) is None,
        },
{
    let n = t.len();
    if n == 0 || t[0] != '{' {
        return None;
    }
    let end = match closing_brace_exec(t, 1) {
        Some(end) => end,
        None => return None,
    };
    let after = end + 1;
    if after < n && !is_whitespace(t[after]) {
        return None;
    }
    let mut scanner = AttributeScanner::new(t.as_slice(), 1, end);
    let mut entry = ItemEntry::default();
    let mut match_text: Option<Vec<char>> = None;
    let mut value: Option<Vec<char>> = None;
    let mut saw_attribute = false;
    let mut done = false;
    let mut failed = false;
    let ghost init: Collected = (no_entry(), None, None);
    while !done
        invariant
            scanner.wf(),
            scanner.text@ == t@,
            scanner.end == end,
            end < t@.len(),
            !done ==> run_attrs(t@, 1, end as int, init, false) == run_attrs(
                t@,
                scanner.cursor as int,
                end as int,
                (entry, opt_chars(match_text), opt_chars(value)),
                saw_attribute,
            ),
            done && !failed ==> run_attrs(t@, 1, end as int, init, false) == Some(
                ((entry, opt_chars(match_text), opt_chars(value)), saw_attribute),
            ),
            failed ==> done && run_attrs(t@, 1, end as int, init, false) is None,
        decreases end - scanner.cursor + if done { 0int } else { 1int },
    {
        let ghost c0 = scanner.cursor as int;
        let ghost st0: Collected = (entry, opt_chars(match_text), opt_chars(value));
        match scanner.next_attribute() {
            Err(()) => {
                failed = true;
                done = true;
            },
            Ok(None) => {
                done = true;
            },
            Ok(Some(attribute)) => {
                let ghost a = (attribute.name@, opt_chars(attribute.value));
                let ghost saw0 = saw_attribute;
                match apply_attribute(entry, match_text, value, attribute) {
                    Some((e, m, v)) => {
                        assert(run_attrs(t@, c0, end as int, st0, saw0) == run_attrs(
                            t@,
                            scanner.cursor as int,
                            end as int,
                            (e, opt_chars(m), opt_chars(v)),
                            true,
                        ));
                        entry = e;
                        match_text = m;
                        value = v;
                        saw_attribute = true;
                    },
                    None => {
                        match_text = None;
                        value = None;
                        failed = true;
                        done = true;
                    },
                }
            },
        }
    }
    if failed {
        return None;
    }
    if !saw_attribute || (entry.heading && (entry.key.is_some() || match_text.is_some()
        || value.is_some())) {
        return None;
    }
    let mut k = after;
    while k < n && is_whitespace(t[k])
        invariant
            after <= k <= n,
            n == t@.len(),
            skip_ws(t@, after as int) == skip_ws(t@, k as int),
        decreases n - k,
    {
        k += 1;
    }
    let label = text.substring_char(k, n);
    let match_string = match match_text {
        Some(m) => {
            assert(m@.subrange(0, m@.len() as int) =~= m@);
            Some(string_of(&m, 0, m.len()))
        },
        None => None,
    };
    let value_string = match value {
        Some(v) => {
            assert(v@.subrange(0, v@.len() as int) =~= v@);
            Some(string_of(&v, 0, v.len()))
        },
        None => None,
    };
    Some(ParsedItem { label, match_text: match_string, value: value_string, entry })
}

/// Parse one item line. Invalid or incomplete markup is deliberately literal:
/// arbitrary command output remains safe to pipe into the menu, while a
/// valid block has strict names, values and duplicate checking.
pub fn parse(text: &str) -> (p: ParsedItem<'_>)
    ensures
        p@ == spec_parse(text@),
{
    let t = chars_of(text);
    if t.len() >= 2 && t[0] == '{' && t[1] == '{' {
        return ParsedItem::plain(text.substring_char(1, t.len()));
    }
    match parse_markup(text, &t) {
        Some(p) => p,
        None => ParsedItem::plain(text),
    }
}


/* ------------------------------------------------------------------ */
/* What every line reads as.                                           */
/* ------------------------------------------------------------------ */

/// A line that does not open with `{` is plain: its text is its label and
/// output, with no metadata.
pub proof fn lemma_plain_lines_are_unchanged(t: Seq<char>)
    requires
        t.len() == 0 || t[0] != '{',
    ensures
        spec_parse(t) == plain_view(t),
{
}

/// Doubling the opening brace makes any markup-like line literal, with one
/// brace removed.
pub proof fn lemma_doubled_brace_is_literal(rest: Seq<char>)
    ensures
        spec_parse(seq!['{', '{'] + rest) == plain_view(seq!['{'] + rest),
{
    let t = seq!['{', '{'] + rest;
    assert(t.skip(1) =~= seq!['{'] + rest);
}

/// A heading is never searchable or activated: it carries no key, match
/// text or value, whatever the line says.
pub proof fn lemma_headings_are_inert(t: Seq<char>)
    ensures
        spec_parse(t).3.heading ==> spec_parse(t).3.key is None && spec_parse(t).1 is None
            && spec_parse(t).2 is None,
{
}

/// Markup is all or nothing: a line reads either literally (whole, or
/// without the doubled brace) or as a complete valid block whose label is
/// the rest of the line after the block and its white space.
pub proof fn lemma_markup_is_never_partially_consumed(t: Seq<char>)
    ensures
        spec_parse(t) == plain_view(t) || (t.len() >= 2 && t[0] == '{' && t[1] == '{'
            && spec_parse(t) == plain_view(t.skip(1))) || (spec_markup(t) is Some && spec_parse(t)
            == spec_markup(t)->0 && (closing_brace(t, 1, None, false) matches Some(end) && spec_parse(
            t,
        ).0 == t.subrange(skip_ws(t, end + 1), t.len() as int))),
{
}

/// Whether some metadata was collected.
pub open spec fn collected_any(st: Collected) -> bool {
    st.0.scheme is Some || st.0.icon is Some || st.0.key is Some || st.0.heading || st.1 is Some
        || st.2 is Some
}

proof fn lemma_run_attrs_collects(t: Seq<char>, c: int, end: int, st: Collected, saw: bool)
    requires
        saw ==> collected_any(st),
    ensures
        run_attrs(t, c, end, st, saw) matches Some((st2, saw2)) ==> (saw2 ==> collected_any(st2)),
    decreases end - c,
{
    match next_attr(t, c, end) {
        Some(Some((attr, k))) => if c < k <= end {
            match apply_attr(st, attr.0, attr.1) {
                Some(st2) => lemma_run_attrs_collects(t, k, end, st2, true),
                None => {},
            }
        },
        _ => {},
    }
}

proof fn lemma_closing_brace_bound(t: Seq<char>, i: int, quote: Option<char>, escaped: bool)
    ensures
        closing_brace(t, i, quote, escaped) matches Some(e) ==> i <= e < t.len(),
    decreases t.len() - i,
{
    if 0 <= i < t.len() {
        let c = t[i];
        if escaped {
            lemma_closing_brace_bound(t, i + 1, quote, false);
        } else if c == '\\' {
            lemma_closing_brace_bound(t, i + 1, quote, true);
        } else if quote is Some {
            if c == quote->0 {
                lemma_closing_brace_bound(t, i + 1, None, false);
            } else {
                lemma_closing_brace_bound(t, i + 1, quote, false);
            }
        } else if c == '\'' || c == '"' {
            lemma_closing_brace_bound(t, i + 1, Some(c), false);
        } else if c == '}' {
        } else if c == '{' {
        } else {
            lemma_closing_brace_bound(t, i + 1, None, false);
        }
    }
}

proof fn lemma_skip_ws_stops(s: Seq<char>, i: int)
    requires
        0 <= i,
    ensures
        i <= skip_ws(s, i),
        i <= s.len() ==> skip_ws(s, i) <= s.len(),
        skip_ws(s, i) < s.len() ==> !is_white_space(s[skip_ws(s, i)]),
    decreases s.len() - i,
{
    if 0 <= i < s.len() && is_white_space(s[i]) {
        lemma_skip_ws_stops(s, i + 1);
    }
}

/// Every line reads one way only: `{{` escapes a literal brace; otherwise
/// the line is literal, or it is markup whose label is the end of the line
/// with no leading white space, whose metadata is not empty, and whose
/// heading carries no key, match text or value.
pub proof fn lemma_each_line_reads_one_way(t: Seq<char>)
    ensures
        if t.len() >= 2 && t[0] == '{' && t[1] == '{' {
            spec_parse(t) == plain_view(t.skip(1))
        } else {
            let p = spec_parse(t);
            p == plain_view(t) || (t.len() > 0 && t[0] == '{' && p.0.len() <= t.len() && p.0
                == t.subrange(t.len() - p.0.len(), t.len() as int) && (p.0.len() == 0
                || !is_white_space(p.0[0])) && p != plain_view(p.0) && !(p.3.heading && (p.3.key is Some
                || p.1 is Some || p.2 is Some)))
        },
{
    if !(t.len() >= 2 && t[0] == '{' && t[1] == '{') {
        if spec_markup(t) is Some {
            let end = closing_brace(t, 1, None, false)->0;
            lemma_run_attrs_collects(t, 1, end, (no_entry(), None, None), false);
            let k = skip_ws(t, end + 1);
            lemma_skip_ws_stops(t, end + 1);
            assert(end + 1 <= t.len()) by {
                lemma_closing_brace_bound(t, 1, None, false);
            }
            let p = spec_parse(t);
            assert(p.0 == t.subrange(k, t.len() as int));
            assert(k <= t.len());
            assert(p.0 == t.subrange(t.len() - p.0.len(), t.len() as int));
            if p.0.len() > 0 {
                assert(p.0[0] == t[k]);
            }
        }
    }
}

} // verus!
