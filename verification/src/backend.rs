//! The backend vocabulary shared by the X11 and Wayland front ends, and the
//! display-independent decisions they make: poll budgets, key repeat
//! scheduling, modifier masks, layer-shell margins, output geometry and
//! frame composition.
use vstd::prelude::*;

use crate::color::Color;
use crate::geom::{fits_i32, max_i, min_i, Point, Rect, Size};
use crate::text::{ascii_lower, chars_of, lower_seq, to_lower};

verus! {

/// Backend selection for `--backend`.
#[derive(Debug, Clone, Copy, PartialEq, Eq, Structural)]
pub enum BackendChoice {
    /// Auto-detect: Wayland when WAYLAND_DISPLAY is set, else X11.
    Auto,
    /// X11 (runs on Xwayland when started from a Wayland session).
    X11,
    /// Wayland (layer-shell / xdg-shell).
    Wayland,
}

/// Which display connections to try, in order.
#[derive(Debug, Clone, Copy, PartialEq, Eq, Structural)]
pub enum DisplayPlan {
    /// Wayland only; a failure is an error.
    Wayland,
    /// X11 only; a failure is an error.
    X11,
    /// Wayland first; when it fails, X11.
    WaylandThenX11,
}

/// The connections an explicit choice insists on, or, for `Auto`, Wayland
/// with X11 as the fallback when `WAYLAND_DISPLAY` is set and X11 otherwise.
pub fn display_plan(choice: BackendChoice, wayland_display_set: bool) -> (p: DisplayPlan)
    ensures
        p == match choice {
            BackendChoice::X11 => DisplayPlan::X11,
            BackendChoice::Wayland => DisplayPlan::Wayland,
            BackendChoice::Auto => if wayland_display_set {
                DisplayPlan::WaylandThenX11
            } else {
                DisplayPlan::X11
            },
        },
{
    match choice {
        BackendChoice::X11 => DisplayPlan::X11,
        BackendChoice::Wayland => DisplayPlan::Wayland,
        BackendChoice::Auto => if wayland_display_set {
            DisplayPlan::WaylandThenX11
        } else {
            DisplayPlan::X11
        },
    }
}

/// A monitor.
#[derive(Debug, Clone)]
pub struct MonitorInfo {
    /// The monitor's bounds in root coordinates.
    pub rect: Rect,
    pub name: String,
}

/// A mouse button, normalized across backends.
#[derive(Debug, Clone, Copy, PartialEq, Eq, Structural)]
pub enum MouseButton {
    Left,
    Middle,
    Right,
}

/// Modifier keys held during an input event: Shift, Ctrl, Alt and the logo
/// key, free of protocol bit values.
#[derive(Debug, Clone, Copy, PartialEq, Eq, Structural)]
pub struct Modifiers {
    pub shift: bool,
    pub ctrl: bool,
    pub alt: bool,
    /// Mod4 / the logo key.
    pub logo: bool,
}

impl Default for Modifiers {
    fn default() -> (m: Self)
        ensures
            !m.shift && !m.ctrl && !m.alt && !m.logo,
    {
        Modifiers { shift: false, ctrl: false, alt: false, logo: false }
    }
}

/// Which surface a pointer event arrived on.
#[derive(Debug, Clone, Copy, PartialEq, Eq, Structural)]
pub enum InputSource {
    /// On the menu window itself; coordinates are menu-local.
    Menu,
    /// Anywhere outside the menu window.
    External,
}

/// Backend-agnostic input and window events.
#[derive(Debug, Clone, PartialEq, Eq)]
pub enum BackendEvent {
    KeyPress {
        /// XKB keysym.
        sym: u32,
        mods: Modifiers,
        /// UTF-8 string produced by the key.
        text: String,
    },
    KeyRelease { sym: u32, mods: Modifiers },
    ButtonPress { button: MouseButton, mods: Modifiers, pos: Point, source: InputSource },
    ButtonRelease { button: MouseButton, pos: Point, source: InputSource },
    Motion {
        /// Server timestamp (ms) for the 60fps throttle.
        time: u32,
        pos: Point,
        source: InputSource,
    },
    /// Wheel movement. Positive `delta` scrolls down, negative up.
    Scroll { delta: i32 },
    /// Redraw needed.
    Expose,
    /// Focus went to another window — regrab focus.
    FocusInOther,
    /// Window got obscured — raise it again.
    VisibilityObscured,
    /// Our window was destroyed.
    Destroyed,
    /// Selection contents arrived.
    SelectionNotify { text: String },
}

/// Result of polling for a backend event with an optional timeout.
#[derive(Debug, Clone, PartialEq, Eq)]
pub enum EventPoll {
    /// An event arrived from the backend.
    Event(BackendEvent),
    /// The extra fd at the given index became readable (or hung up).
    Readable(usize),
    /// The timeout expired before an event arrived.
    Timeout,
    /// The backend connection died or was closed.
    Closed,
}

/* ---------------------------- poll budget ---------------------------- */

/// Milliseconds left of a `timeout_ns` budget after `elapsed_ns`: `Err(())`
/// when the budget is spent, `-1` (block indefinitely) without a timeout,
/// otherwise the whole milliseconds left, capped at `i32::MAX`.
pub open spec fn spec_remaining_ms(elapsed_ns: u128, timeout_ns: Option<u128>) -> Result<i32, ()> {
    match timeout_ns {
        Some(d) => if elapsed_ns >= d {
            Err(())
        } else {
            let ms = (d - elapsed_ns) / 1_000_000;
            Ok(if ms > i32::MAX { i32::MAX } else { ms as i32 })
        },
        None => Ok(-1i32),
    }
}

/// Milliseconds left of `timeout_ns` once `elapsed_ns` have passed.
pub fn remaining_ms(elapsed_ns: u128, timeout_ns: Option<u128>) -> (r: Result<i32, ()>)
    ensures
        r == spec_remaining_ms(elapsed_ns, timeout_ns),
{
    match timeout_ns {
        Some(d) => {
            if elapsed_ns >= d {
                return Err(());
            }
            let ms = (d - elapsed_ns) / 1_000_000;
            Ok(if ms > 0x7FFF_FFFF { 0x7FFF_FFFF } else { ms as i32 })
        },
        None => Ok(-1),
    }
}

/* ------------------------------ key repeat ---------------------------- */

/// Compositor repeat settings, in nanoseconds.
#[derive(Debug, Clone, Copy, PartialEq, Eq, Structural)]
pub enum RepeatSettings {
    Disabled,
    Enabled { delay: u64, interval: u64 },
}

/// Whether a held key still waits for its first repeat.
#[derive(Debug, Clone, Copy, PartialEq, Eq, Structural)]
pub enum RepeatPhase {
    Delay,
    Interval,
}

/// The held key, its next repeat time and its phase.
#[derive(Debug, Clone, Copy, PartialEq, Eq, Structural)]
pub struct ActiveRepeat {
    pub code: u32,
    pub deadline: u64,
    pub phase: RepeatPhase,
}

/// Times are nanoseconds from an origin the caller picks; they stay below
/// 2^63 so that adding a repeat delay cannot overflow.
pub open spec fn time_ok(now: u64) -> bool {
    now < 0x8000_0000_0000_0000
}

/// The settings a `repeat_info(rate, delay)` event asks for: disabled for a
/// non-positive rate or a negative delay, otherwise the delay in
/// milliseconds and one repeat every `1/rate` seconds (at least 1 ns).
pub open spec fn settings_for(rate: i32, delay: i32) -> RepeatSettings {
    if rate <= 0 || delay < 0 {
        RepeatSettings::Disabled
    } else {
        let i = 1_000_000_000int / (rate as int);
        RepeatSettings::Enabled {
            delay: (delay as int * 1_000_000) as u64,
            interval: (if i < 1 { 1 } else { i }) as u64,
        }
    }
}

pub type RepeatView = (RepeatSettings, Option<ActiveRepeat>);

/// New settings; a held key is rescheduled from `now` with the new delay
/// (before its first repeat) or the new interval (afterwards).
pub open spec fn after_update_info(s: RepeatView, rate: i32, delay: i32, now: u64) -> RepeatView {
    let settings = settings_for(rate, delay);
    let active = match (settings, s.1) {
        (RepeatSettings::Enabled { delay: d, interval: i }, Some(a)) => Some(
            ActiveRepeat {
                deadline: (now + if a.phase == RepeatPhase::Delay {
                    d
                } else {
                    i
                }) as u64,
                ..a
            },
        ),
        _ => None,
    };
    (settings, active)
}

/// A key press starts the delay when repeat is enabled.
pub open spec fn after_arm(s: RepeatView, code: u32, now: u64) -> RepeatView {
    match s.0 {
        RepeatSettings::Enabled { delay, .. } => (
            s.0,
            Some(ActiveRepeat { code, deadline: (now + delay) as u64, phase: RepeatPhase::Delay }),
        ),
        RepeatSettings::Disabled => s,
    }
}

/// Releasing the held key (and only that key) stops its repeat.
pub open spec fn after_release(s: RepeatView, code: u32) -> RepeatView {
    match s.1 {
        Some(a) => if a.code == code {
            (s.0, None)
        } else {
            s
        },
        None => s,
    }
}

/// One due repeat, the next one scheduled a whole interval after `now`.
pub open spec fn after_take_due(s: RepeatView, now: u64) -> (RepeatView, Option<u32>) {
    match (s.0, s.1) {
        (RepeatSettings::Enabled { interval, .. }, Some(a)) => if now < a.deadline {
            (s, None)
        } else {
            (
                (
                    s.0,
                    Some(
                        ActiveRepeat {
                            deadline: (now + interval) as u64,
                            phase: RepeatPhase::Interval,
                            ..a
                        },
                    ),
                ),
                Some(a.code),
            )
        },
        _ => (s, None),
    }
}

/// The settings are the compositor's: a delay of at most `i32::MAX`
/// milliseconds and an interval of 1 ns to 1 s.
pub open spec fn settings_wf(s: RepeatSettings) -> bool {
    match s {
        RepeatSettings::Enabled { delay, interval } => delay <= 0x7FFF_FFFF * 1_000_000 && 1
            <= interval <= 1_000_000_000,
        RepeatSettings::Disabled => true,
    }
}

/// Client-side half of `wl_keyboard` repeat handling.
///
/// A positive compositor rate asks the client to schedule repeats. A zero
/// rate disables this timer; the compositor may then send repeated key
/// events itself.
pub struct KeyboardRepeat {
    settings: RepeatSettings,
    active: Option<ActiveRepeat>,
}

impl View for KeyboardRepeat {
    type V = RepeatView;

    closed spec fn view(&self) -> RepeatView {
        (self.settings, self.active)
    }
}

impl KeyboardRepeat {
    pub closed spec fn wf(&self) -> bool {
        settings_wf(self.settings)
    }

    pub fn new() -> (r: Self)
        ensures
            r@ == (RepeatSettings::Disabled, None::<ActiveRepeat>),
            r.wf(),
    {
        KeyboardRepeat { settings: RepeatSettings::Disabled, active: None }
    }

    pub fn update_info(&mut self, rate: i32, delay: i32, now: u64)
        requires
            time_ok(now),
        ensures
            final(self)@ == after_update_info(old(self)@, rate, delay, now),
            final(self).wf(),
    {
        self.settings = if rate <= 0 || delay < 0 {
            RepeatSettings::Disabled
        } else {
            /* Nanosecond precision avoids a zero interval even for a large
             * (but protocol-valid) rate. */
            let interval_ns = 1_000_000_000u64 / (rate as u64);
            let interval_ns = if interval_ns < 1 { 1 } else { interval_ns };
            RepeatSettings::Enabled { delay: (delay as u64) * 1_000_000, interval: interval_ns }
        };
        match self.settings {
            RepeatSettings::Disabled => {
                self.active = None;
            },
            RepeatSettings::Enabled { delay, interval } => {
                match self.active {
                    Some(active) => {
                        let wait = if active.phase == RepeatPhase::Delay {
                            delay
                        } else {
                            interval
                        };
                        self.active = Some(ActiveRepeat { deadline: now + wait, ..active });
                    },
                    None => {},
                }
            },
        }
    }

    pub fn arm(&mut self, code: u32, now: u64)
        requires
            time_ok(now),
            old(self).wf(),
        ensures
            final(self)@ == after_arm(old(self)@, code, now),
            final(self).wf(),
    {
        if let RepeatSettings::Enabled { delay, .. } = self.settings {
            self.active = Some(ActiveRepeat { code, deadline: now + delay, phase: RepeatPhase::Delay });
        }
    }

    pub fn release(&mut self, code: u32)
        ensures
            final(self)@ == after_release(old(self)@, code),
            old(self).wf() ==> final(self).wf(),
    {
        if let Some(active) = self.active {
            if active.code == code {
                self.active = None;
            }
        }
    }

    pub fn cancel(&mut self)
        ensures
            final(self)@ == (old(self)@.0, None::<ActiveRepeat>),
            old(self).wf() ==> final(self).wf(),
    {
        self.active = None;
    }

    /// When the held key repeats next.
    pub fn deadline(&self) -> (d: Option<u64>)
        ensures
            d == match self@.1 {
                Some(a) => Some(a.deadline),
                None => None::<u64>,
            },
    {
        match self.active {
            Some(active) => Some(active.deadline),
            None => None,
        }
    }

    /// Return one due repeat and schedule the next interval from `now`.
    /// Scheduling from the observation time deliberately avoids a burst of
    /// catch-up keypresses after rendering or process scheduling stalls.
    pub fn take_due(&mut self, now: u64) -> (r: Option<u32>)
        requires
            time_ok(now),
            old(self).wf(),
        ensures
            (final(self)@, r) == after_take_due(old(self)@, now),
            final(self).wf(),
    {
        let interval = match self.settings {
            RepeatSettings::Enabled { interval, .. } => interval,
            RepeatSettings::Disabled => return None,
        };
        let active = match self.active {
            Some(a) => a,
            None => return None,
        };
        if now < active.deadline {
            return None;
        }
        self.active = Some(
            ActiveRepeat { deadline: now + interval, phase: RepeatPhase::Interval, ..active },
        );
        Some(active.code)
    }
}

/// A due repeat is never followed by another at the same instant: after
/// `take_due(now)` yields a key, asking again at `now` yields nothing, so a
/// stalled loop cannot emit a catch-up burst.
pub proof fn lemma_no_catch_up_burst(s: RepeatView, now: u64)
    requires
        settings_wf(s.0),
        time_ok(now),
        after_take_due(s, now).1 is Some,
    ensures
        after_take_due(after_take_due(s, now).0, now).1 is None,
{
}

/// Releasing a key other than the held one changes nothing; releasing the
/// held one stops the repeat.
pub proof fn lemma_only_the_held_key_is_released(s: RepeatView, code: u32)
    ensures
        s.1 matches Some(a) && a.code != code ==> after_release(s, code) == s,
        s.1 matches Some(a) && a.code == code ==> after_release(s, code).1 is None,
{
}

/// A zero rate disables repeat and drops any held key.
pub proof fn lemma_zero_rate_disables(s: RepeatView, delay: i32, now: u64)
    ensures
        after_update_info(s, 0, delay, now) == (RepeatSettings::Disabled, None::<ActiveRepeat>),
{
}


/* ----------------------------- modifiers ------------------------------ */

/// The xkb index of a modifier name that the keymap does not define.
pub const MOD_INVALID: u32 = 0xffff_ffff;

/// The xkb modifier indices the semantic [`Modifiers`] map to, resolved
/// once per keymap. An index that did not resolve never matches.
#[derive(Debug, Clone, Copy, PartialEq, Eq, Structural)]
pub struct ModIndices {
    pub shift: u32,
    pub ctrl: u32,
    pub alt: u32,
    pub logo: u32,
}

/// A resolved index is below 32, or is [`MOD_INVALID`].
pub open spec fn index_ok(i: u32) -> bool {
    i < 32 || i == MOD_INVALID
}

/// Whether the modifier at `index` is held in `mask`.
pub open spec fn mask_has(mask: u32, index: u32) -> bool {
    index != MOD_INVALID && mask & (1u32 << index) != 0
}

fn bit(mask: u32, index: u32) -> (b: bool)
    requires
        index_ok(index),
    ensures
        b == mask_has(mask, index),
{
    index != MOD_INVALID && mask & (1u32 << index) != 0
}

impl ModIndices {
    pub open spec fn wf(self) -> bool {
        index_ok(self.shift) && index_ok(self.ctrl) && index_ok(self.alt) && index_ok(self.logo)
    }

    /// Semantic modifiers for a raw xkb modifier mask.
    pub fn modifiers(self, mask: u32) -> (m: Modifiers)
        requires
            self.wf(),
        ensures
            m.shift == mask_has(mask, self.shift),
            m.ctrl == mask_has(mask, self.ctrl),
            m.alt == mask_has(mask, self.alt),
            m.logo == mask_has(mask, self.logo),
    {
        Modifiers {
            shift: bit(mask, self.shift),
            ctrl: bit(mask, self.ctrl),
            alt: bit(mask, self.alt),
            logo: bit(mask, self.logo),
        }
    }
}

/* --------------------------- output geometry -------------------------- */

/// The rectangle grown by a border on every side (position unchanged).
pub fn bordered(rect: Rect, border: i32) -> (r: Rect)
    requires
        fits_i32(rect.w + 2 * border),
        fits_i32(rect.h + 2 * border),
        fits_i32(2 * border),
    ensures
        r == (Rect { x: rect.x, y: rect.y, w: (rect.w + 2 * border) as i32, h: (rect.h + 2 * border) as i32 }),
{
    Rect::new(rect.x, rect.y, rect.w + 2 * border, rect.h + 2 * border)
}

/// An absolute rectangle as layer-shell `(top, left)` margins from the
/// monitor origin, clamped at 0.
pub fn layer_margins(rect: Rect, monitor: Rect) -> (m: (i32, i32))
    requires
        fits_i32(rect.y - monitor.y),
        fits_i32(rect.x - monitor.x),
    ensures
        m.0 == max_i(rect.y - monitor.y, 0),
        m.1 == max_i(rect.x - monitor.x, 0),
{
    let top = rect.y - monitor.y;
    let left = rect.x - monitor.x;
    (if top > 0 { top } else { 0 }, if left > 0 { left } else { 0 })
}

/// All rectangles have edges that fit an `i32`.
pub open spec fn all_edges_fit(rects: Seq<Rect>) -> bool {
    forall|i: int| 0 <= i < rects.len() ==> (#[trigger] rects[i]).edges_fit()
}

/// Half-open containment: a point on a shared edge belongs to the
/// left/top rectangle only.
pub open spec fn holds_point(r: Rect, p: Point) -> bool {
    r.x <= p.x < r.x + r.w && r.y <= p.y < r.y + r.h
}

/// Index of the output containing the global point `pos` (the first such
/// output), or 0 when none does.
pub fn output_for_point(outputs: &[Rect], pos: Point) -> (i: usize)
    requires
        all_edges_fit(outputs@),
    ensures
        (exists|k: int| 0 <= k < outputs@.len() && holds_point(#[trigger] outputs@[k], pos)) ==> (
        i < outputs@.len() && holds_point(outputs@[i as int], pos) && forall|j: int|
            0 <= j < i ==> !holds_point(#[trigger] outputs@[j], pos)),
        !(exists|k: int| 0 <= k < outputs@.len() && holds_point(#[trigger] outputs@[k], pos))
            ==> i == 0,
{
    let mut i: usize = 0;
    while i < outputs.len()
        invariant
            i <= outputs@.len(),
            all_edges_fit(outputs@),
            forall|j: int| 0 <= j < i ==> !holds_point(#[trigger] outputs@[j], pos),
        decreases outputs.len() - i,
    {
        let r = outputs[i];
        assert(outputs@[i as int].edges_fit());
        if r.contains_exclusive(pos) {
            return i;
        }
        i += 1;
    }
    0
}

/// The bounding size of all outputs (their union), or 0x0 without outputs.
pub open spec fn union_size(outputs: Seq<Rect>) -> (int, int)
    decreases outputs.len(),
{
    if outputs.len() == 0 {
        (0, 0)
    } else {
        let b = union_bounds(outputs);
        (b.2 - b.0, b.3 - b.1)
    }
}

/// `(min x, min y, max right, max bottom)` over the outputs.
pub open spec fn union_bounds(outputs: Seq<Rect>) -> (int, int, int, int)
    decreases outputs.len(),
{
    if outputs.len() == 0 {
        (i32::MAX as int, i32::MAX as int, i32::MIN as int, i32::MIN as int)
    } else {
        let b = union_bounds(outputs.drop_last());
        let r = outputs.last();
        (
            min_i(b.0, r.x as int),
            min_i(b.1, r.y as int),
            max_i(b.2, r.x + r.w),
            max_i(b.3, r.y + r.h),
        )
    }
}

/// Size of the union of all outputs: the root size a compositor offers.
pub fn outputs_union_size(outputs: &[Rect]) -> (s: Size)
    requires
        all_edges_fit(outputs@),
        outputs@.len() > 0 ==> fits_i32(union_bounds(outputs@).2 - union_bounds(outputs@).0)
            && fits_i32(union_bounds(outputs@).3 - union_bounds(outputs@).1),
    ensures
        outputs@.len() > 0 ==> s.w == union_size(outputs@).0 && s.h == union_size(outputs@).1,
        outputs@.len() == 0 ==> s.w == 0 && s.h == 0,
{
    let mut min_x = i32::MAX;
    let mut min_y = i32::MAX;
    let mut max_x = i32::MIN;
    let mut max_y = i32::MIN;
    let mut i: usize = 0;
    while i < outputs.len()
        invariant
            i <= outputs@.len(),
            all_edges_fit(outputs@),
            (min_x as int, min_y as int, max_x as int, max_y as int) == union_bounds(
                outputs@.take(i as int),
            ),
        decreases outputs.len() - i,
    {
        let r = outputs[i];
        assert(outputs@[i as int].edges_fit());
        assert(outputs@.take(i + 1).drop_last() =~= outputs@.take(i as int));
        if r.x < min_x {
            min_x = r.x;
        }
        if r.y < min_y {
            min_y = r.y;
        }
        if r.right() > max_x {
            max_x = r.right();
        }
        if r.bottom() > max_y {
            max_y = r.bottom();
        }
        i += 1;
    }
    assert(outputs@.take(outputs@.len() as int) =~= outputs@);
    if outputs.len() == 0 {
        return Size::new(0, 0);
    }
    Size::new(max_x - min_x, max_y - min_y)
}

/* ------------------------------ pixels --------------------------------- */

/// X11 pixel value for a 24-bit depth: RGB in the low three bytes.
pub fn x11_pixel(color: Color) -> (p: u32)
    ensures
        p == color.r as int * 0x10000 + color.g as int * 0x100 + color.b as int,
{
    let p = ((color.r() as u32) << 16) | ((color.g() as u32) << 8) | color.b() as u32;
    let r = color.r as u32;
    let g = color.g as u32;
    let b = color.b as u32;
    assert(((r << 16) | (g << 8) | b) == r * 0x10000 + g * 0x100 + b) by (bit_vector)
        requires
            r < 256,
            g < 256,
            b < 256,
    ;
    p
}

/// Whether the native-endian 32-bit words of `bytes` (complete words
/// only) include `word`.
pub open spec fn has_word(bytes: Seq<u8>, word: Seq<u8>) -> bool {
    exists|i: int| 0 <= i && 4 * i + 4 <= bytes.len() && #[trigger] bytes.subrange(4 * i, 4 * i + 4) == word
}

/// The bytes of `2u32` in this machine's byte order (`u32::to_ne_bytes`):
/// little-endian `[2, 0, 0, 0]` or big-endian `[0, 0, 0, 2]`.
#[verifier::external_body]
fn activated_word() -> (w: (u8, u8, u8, u8))
    ensures
        w == (2u8, 0u8, 0u8, 0u8) || w == (0u8, 0u8, 0u8, 2u8),
{
    let b = 2u32.to_ne_bytes();
    (b[0], b[1], b[2], b[3])
}

/// Whether a foreign-toplevel `state` array (native-endian `u32` words)
/// holds `activated` (2). A trailing incomplete word is ignored.
pub fn states_contain_activated(bytes: &[u8]) -> (r: bool)
    ensures
        r == has_word(bytes@, seq![2u8, 0u8, 0u8, 0u8]) || r == has_word(bytes@, seq![0u8, 0u8, 0u8, 2u8]),
{
    let w = activated_word();
    let found = contains_word(bytes, w);
    assert(seq![w.0, w.1, w.2, w.3] =~= seq![2u8, 0u8, 0u8, 0u8] || seq![w.0, w.1, w.2, w.3] =~= seq![0u8, 0u8, 0u8, 2u8]);
    found
}

/// Whether the complete 4-byte words of `bytes` include `w`.
pub fn contains_word(bytes: &[u8], w: (u8, u8, u8, u8)) -> (r: bool)
    ensures
        r == has_word(bytes@, seq![w.0, w.1, w.2, w.3]),
{
    let bl = bytes.len();
    let n = bl / 4;
    let mut i: usize = 0;
    while i < n
        invariant
            bl == bytes@.len(),
            n == bytes@.len() / 4,
            i <= n,
            forall|k: int| 0 <= k < i ==> #[trigger] bytes@.subrange(4 * k, 4 * k + 4) != seq![w.0, w.1, w.2, w.3],
        decreases n - i,
    {
        let j = 4 * i;
        if bytes[j] == w.0 && bytes[j + 1] == w.1 && bytes[j + 2] == w.2 && bytes[j + 3] == w.3 {
            assert(bytes@.subrange(4 * i, 4 * i + 4) =~= seq![w.0, w.1, w.2, w.3]);
            return true;
        }
        assert(bytes@.subrange(4 * i, 4 * i + 4) != seq![w.0, w.1, w.2, w.3]) by {
            let s = bytes@.subrange(4 * i, 4 * i + 4);
            if s == seq![w.0, w.1, w.2, w.3] {
                assert(s[0] == w.0 && s[1] == w.1 && s[2] == w.2 && s[3] == w.3);
            }
        }
        i += 1;
    }
    assert(!has_word(bytes@, seq![w.0, w.1, w.2, w.3])) by {
        if has_word(bytes@, seq![w.0, w.1, w.2, w.3]) {
            let k = choose|k: int| 0 <= k && 4 * k + 4 <= bytes@.len() && #[trigger] bytes@.subrange(4 * k, 4 * k + 4) == seq![w.0, w.1, w.2, w.3];
            assert(k < n);
        }
    }
    false
}


/* ---------------------------- poll and paste ---------------------------- */

/// `poll` event bits: readable, error, hang-up.
pub const POLLIN: i16 = 0x1;
pub const POLLERR: i16 = 0x8;
pub const POLLHUP: i16 = 0x10;

/// Whether a `revents` value reports the descriptor readable, failed or
/// hung up.
pub open spec fn is_ready(revents: i16) -> bool {
    revents & (POLLIN | POLLERR | POLLHUP) != 0
}

/// The first descriptor from `from` on whose `revents` report it ready.
pub fn first_ready(revents: &[i16], from: usize) -> (r: Option<usize>)
    ensures
        match r {
            Some(i) => from <= i < revents@.len() && is_ready(revents@[i as int]) && forall|j: int|
                from <= j < i ==> !is_ready(#[trigger] revents@[j]),
            None => forall|j: int| from <= j < revents@.len() ==> !is_ready(#[trigger] revents@[j]),
        },
{
    let mut i = from;
    while i < revents.len()
        invariant
            from <= i,
            forall|j: int| from <= j < i && j < revents@.len() ==> !is_ready(#[trigger] revents@[j]),
        decreases revents.len() - i,
    {
        if revents[i] & (POLLIN | POLLERR | POLLHUP) != 0 {
            return Some(i);
        }
        i += 1;
    }
    None
}

/// The first offer that equals `wanted`, ASCII case aside.
pub open spec fn find_offer(offers: Seq<Seq<char>>, wanted: Seq<char>) -> Option<Seq<char>>
    decreases offers.len(),
{
    if offers.len() == 0 {
        None
    } else if lower_seq(offers[0]) == lower_seq(wanted) {
        Some(offers[0])
    } else {
        find_offer(offers.drop_first(), wanted)
    }
}

/// The offered paste format to ask for: UTF-8 text, else plain text, else
/// an X11-style UTF-8 string, as the offer spells it.
pub open spec fn spec_best_mime(offers: Seq<Seq<char>>) -> Option<Seq<char>> {
    match find_offer(offers, "text/plain;charset=utf-8"@) {
        Some(m) => Some(m),
        None => match find_offer(offers, "text/plain"@) {
            Some(m) => Some(m),
            None => find_offer(offers, "UTF8_STRING"@),
        },
    }
}

fn same_ignoring_ascii_case(a: &[char], b: &[char]) -> (r: bool)
    ensures
        r == (lower_seq(a@) == lower_seq(b@)),
{
    if a.len() != b.len() {
        assert(lower_seq(a@).len() != lower_seq(b@).len());
        return false;
    }
    let mut i: usize = 0;
    while i < a.len()
        invariant
            i <= a@.len(),
            a@.len() == b@.len(),
            forall|j: int| 0 <= j < i ==> ascii_lower(a@[j]) == ascii_lower(b@[j]),
        decreases a.len() - i,
    {
        if to_lower(a[i]) != to_lower(b[i]) {
            assert(lower_seq(a@)[i as int] != lower_seq(b@)[i as int]);
            return false;
        }
        i += 1;
    }
    assert(lower_seq(a@) =~= lower_seq(b@));
    true
}

fn find_offer_exec(offers: &[String], wanted: &str) -> (r: Option<String>)
    ensures
        match find_offer(offers@.map_values(|s: String| s@), wanted@) {
            Some(m) => r matches Some(x) && x@ == m,
            None => r is None,
        },
{
    let ghost views = offers@.map_values(|s: String| s@);
    let w = chars_of(wanted);
    let mut i: usize = 0;
    assert(views.skip(0) =~= views);
    while i < offers.len()
        invariant
            i <= offers@.len(),
            views == offers@.map_values(|s: String| s@),
            w@ == wanted@,
            find_offer(views, wanted@) == find_offer(views.skip(i as int), wanted@),
        decreases offers.len() - i,
    {
        assert(views.skip(i as int).drop_first() =~= views.skip(i + 1));
        assert(views.skip(i as int)[0] == offers@[i as int]@);
        let o = chars_of(offers[i].as_str());
        if same_ignoring_ascii_case(&o, &w) {
            return Some(offers[i].clone());
        }
        i += 1;
    }
    None
}

/// The offered paste format to ask for.
pub fn best_mime(offers: &[String]) -> (r: Option<String>)
    ensures
        match spec_best_mime(offers@.map_values(|s: String| s@)) {
            Some(m) => r matches Some(x) && x@ == m,
            None => r is None,
        },
{
    match find_offer_exec(offers, "text/plain;charset=utf-8") {
        Some(m) => Some(m),
        None => match find_offer_exec(offers, "text/plain") {
            Some(m) => Some(m),
            None => find_offer_exec(offers, "UTF8_STRING"),
        },
    }
}


/// The area `window` shares with `monitor`.
pub open spec fn overlap_area(window: Rect, monitor: Rect) -> int {
    window.overlap_w(monitor) * window.overlap_h(monitor)
}

/// The monitor a window is mostly on: the first with the largest overlap,
/// or none when the window is on no monitor.
pub fn monitor_for_window(window: Rect, monitors: &[Rect]) -> (r: Option<usize>)
    requires
        window.edges_fit(),
        all_edges_fit(monitors@),
        forall|j: int| 0 <= j < monitors@.len() ==> fits_i32(overlap_area(window, #[trigger] monitors@[j])),
    ensures
        match r {
            Some(i) => i < monitors@.len() && overlap_area(window, monitors@[i as int]) > 0 && (forall|j: int|
                0 <= j < monitors@.len() ==> overlap_area(window, #[trigger] monitors@[j]) <= overlap_area(
                    window,
                    monitors@[i as int],
                )) && (forall|j: int|
                0 <= j < i ==> overlap_area(window, #[trigger] monitors@[j]) < overlap_area(
                    window,
                    monitors@[i as int],
                )),
            None => forall|j: int| 0 <= j < monitors@.len() ==> overlap_area(window, #[trigger] monitors@[j]) == 0,
        },
{
    let mut best: usize = 0;
    let mut area: i32 = 0;
    let mut i: usize = 0;
    while i < monitors.len()
        invariant
            i <= monitors@.len(),
            window.edges_fit(),
            all_edges_fit(monitors@),
            forall|j: int| 0 <= j < monitors@.len() ==> fits_i32(overlap_area(window, #[trigger] monitors@[j])),
            area >= 0,
            area == 0 ==> forall|j: int| 0 <= j < i ==> overlap_area(window, #[trigger] monitors@[j]) == 0,
            area > 0 ==> best < i && area == overlap_area(window, monitors@[best as int]),
            forall|j: int| 0 <= j < i ==> overlap_area(window, #[trigger] monitors@[j]) <= area,
            forall|j: int| 0 <= j < best ==> overlap_area(window, #[trigger] monitors@[j]) < area,
        decreases monitors.len() - i,
    {
        assert(monitors@[i as int].edges_fit());
        assert(fits_i32(overlap_area(window, monitors@[i as int])));
        assert(window.overlap_w(monitors@[i as int]) >= 0 && window.overlap_h(monitors@[i as int]) >= 0);
        assert(overlap_area(window, monitors@[i as int]) >= 0) by (nonlinear_arith)
            requires
                window.overlap_w(monitors@[i as int]) >= 0,
                window.overlap_h(monitors@[i as int]) >= 0,
        ;
        let a = window.intersect_area(monitors[i]);
        if a > area {
            area = a;
            best = i;
        }
        i += 1;
    }
    if area == 0 {
        None
    } else {
        Some(best)
    }
}


/// The output a focused window is on, by output id: only when it is on
/// exactly one output (several give no primary one); its position among
/// the known outputs.
pub fn single_focused_output(focused: &[u32], outputs: &[u32]) -> (r: Option<usize>)
    ensures
        focused@.len() != 1 ==> r is None,
        focused@.len() == 1 ==> match r {
            Some(i) => i < outputs@.len() && outputs@[i as int] == focused@[0] && forall|j: int|
                0 <= j < i ==> #[trigger] outputs@[j] != focused@[0],
            None => forall|j: int| 0 <= j < outputs@.len() ==> #[trigger] outputs@[j] != focused@[0],
        },
{
    if focused.len() != 1 {
        return None;
    }
    let id = focused[0];
    let mut i: usize = 0;
    while i < outputs.len()
        invariant
            i <= outputs@.len(),
            focused@.len() == 1,
            id == focused@[0],
            forall|j: int| 0 <= j < i ==> #[trigger] outputs@[j] != id,
        decreases outputs.len() - i,
    {
        if outputs[i] == id {
            return Some(i);
        }
        i += 1;
    }
    None
}

/* ------------------------------ X11 pointer routing ------------------------------ */

/// Where an X11 button press goes.
#[derive(Debug, Clone, Copy, PartialEq, Eq, Structural)]
pub enum PressRoute {
    /// Dropped: a wheel turned outside the menu while the pointer is
    /// grabbed (it neither dismisses nor scrolls the menu), or a button
    /// the menu has no use for (the horizontal wheel, extra buttons).
    Drop,
    /// Wheel movement: positive scrolls down (towards later items).
    Scroll(i32),
    /// A click, on the menu or outside it.
    Button(MouseButton, InputSource),
}

/// The mouse button an X11 button number names.
pub open spec fn x11_button(detail: u8) -> Option<MouseButton> {
    if detail == 1 {
        Some(MouseButton::Left)
    } else if detail == 2 {
        Some(MouseButton::Middle)
    } else if detail == 3 {
        Some(MouseButton::Right)
    } else {
        None
    }
}

/// Where a press of X11 button `detail` goes: `grabbed` says the pointer
/// is grabbed, `on_window` that the press was reported on the menu window
/// (else on the grab window, the root). Buttons 4 and 5 are the vertical
/// wheel (up, down).
pub open spec fn spec_route_press(grabbed: bool, on_window: bool, detail: u8) -> PressRoute {
    let source = if on_window || !grabbed {
        InputSource::Menu
    } else {
        InputSource::External
    };
    if grabbed && !on_window && 4 <= detail <= 7 {
        PressRoute::Drop
    } else if detail == 4 {
        PressRoute::Scroll(-1i32)
    } else if detail == 5 {
        PressRoute::Scroll(1i32)
    } else {
        match x11_button(detail) {
            Some(b) => PressRoute::Button(b, source),
            None => PressRoute::Drop,
        }
    }
}

/// Routes an X11 button press.
pub fn route_press(grabbed: bool, on_window: bool, detail: u8) -> (r: PressRoute)
    ensures
        r == spec_route_press(grabbed, on_window, detail),
{
    let source = if on_window || !grabbed {
        InputSource::Menu
    } else {
        InputSource::External
    };
    if grabbed && !on_window && 4 <= detail && detail <= 7 {
        PressRoute::Drop
    } else if detail == 4 {
        PressRoute::Scroll(-1)
    } else if detail == 5 {
        PressRoute::Scroll(1)
    } else if detail == 1 {
        PressRoute::Button(MouseButton::Left, source)
    } else if detail == 2 {
        PressRoute::Button(MouseButton::Middle, source)
    } else if detail == 3 {
        PressRoute::Button(MouseButton::Right, source)
    } else {
        PressRoute::Drop
    }
}

/// Root coordinates can be mapped back to the menu through the window's
/// origin only when the window is not managed and sits directly on the
/// root window.
pub fn root_events_mappable(managed: bool, parent: u32, root: u32) -> (r: bool)
    ensures
        r == (!managed && parent == root),
{
    !managed && parent == root
}

/// A root-coordinate point relative to the window at `origin`.
pub open spec fn to_menu(root: Point, origin: Point) -> Point {
    Point { x: (root.x - origin.x) as i32, y: (root.y - origin.y) as i32 }
}

/// Where pointer motion goes: outside the menu while grabbed, root
/// coordinates mapped back to the menu, or dropped when they cannot be;
/// otherwise the event's own coordinates.
pub open spec fn spec_route_motion(
    grabbed: bool,
    on_window: bool,
    mappable: bool,
    root: Point,
    origin: Point,
    ev: Point,
) -> Option<Point> {
    if grabbed && !on_window {
        if mappable {
            Some(to_menu(root, origin))
        } else {
            None
        }
    } else {
        Some(ev)
    }
}

/// Routes X11 pointer motion (always on behalf of the menu).
pub fn route_motion(
    grabbed: bool,
    on_window: bool,
    mappable: bool,
    root: Point,
    origin: Point,
    ev: Point,
) -> (r: Option<Point>)
    requires
        fits_i32(root.x - origin.x),
        fits_i32(root.y - origin.y),
    ensures
        r == spec_route_motion(grabbed, on_window, mappable, root, origin, ev),
{
    if grabbed && !on_window {
        if mappable {
            Some(Point { x: root.x - origin.x, y: root.y - origin.y })
        } else {
            None
        }
    } else {
        Some(ev)
    }
}

/// Where a button release goes: outside the menu while grabbed, mapped
/// back to the menu when the origin is authoritative, else reported as
/// external with the event's coordinates; otherwise on the menu.
pub open spec fn spec_route_release(
    grabbed: bool,
    on_window: bool,
    mappable: bool,
    detail: u8,
    root: Point,
    origin: Point,
    ev: Point,
) -> Option<(MouseButton, Point, InputSource)> {
    match x11_button(detail) {
        None => None,
        Some(b) => if grabbed && !on_window {
            if mappable {
                Some((b, to_menu(root, origin), InputSource::Menu))
            } else {
                Some((b, ev, InputSource::External))
            }
        } else {
            Some((b, ev, InputSource::Menu))
        },
    }
}

/// Routes an X11 button release.
pub fn route_release(
    grabbed: bool,
    on_window: bool,
    mappable: bool,
    detail: u8,
    root: Point,
    origin: Point,
    ev: Point,
) -> (r: Option<(MouseButton, Point, InputSource)>)
    requires
        fits_i32(root.x - origin.x),
        fits_i32(root.y - origin.y),
    ensures
        r == spec_route_release(grabbed, on_window, mappable, detail, root, origin, ev),
{
    let b = if detail == 1 {
        MouseButton::Left
    } else if detail == 2 {
        MouseButton::Middle
    } else if detail == 3 {
        MouseButton::Right
    } else {
        return None;
    };
    if grabbed && !on_window {
        if mappable {
            Some((b, Point { x: root.x - origin.x, y: root.y - origin.y }, InputSource::Menu))
        } else {
            Some((b, ev, InputSource::External))
        }
    } else {
        Some((b, ev, InputSource::Menu))
    }
}

} // verus!
