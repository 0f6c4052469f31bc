//! Startup decisions: in which order stdin is read and the keyboard is
//! grabbed, which output the menu opens on, and how command-line values
//! combine with the defaults.
use vstd::prelude::*;

use crate::backend::{all_edges_fit, holds_point};
use crate::config::{LineHeight, MonitorChoice};
use crate::geom::{Point, Rect};

verus! {

/// How stdin feeds the menu.
#[derive(Debug, Clone, Copy, PartialEq, Eq, Structural)]
pub enum StdinMode {
    /// Items arrive while the menu runs.
    Stream,
    /// The whole corpus is read before the menu opens (toasts, and a tty
    /// where the user types the items).
    Load,
    /// Stdin is never read (password, input-only and slide modes).
    Skip,
}

/// When the keyboard is grabbed relative to reading stdin.
#[derive(Debug, Clone, Copy, PartialEq, Eq, Structural)]
pub struct StartupPlan {
    pub mode: StdinMode,
    /// Grab before the configuration is read and stdin is loaded.
    pub grab_early: bool,
    /// Grab after stdin has been loaded.
    pub grab_late: bool,
}

pub open spec fn spec_stdin_mode(skip_stdin: bool, toast: bool, stdin_is_tty: bool) -> StdinMode {
    if skip_stdin {
        StdinMode::Skip
    } else if toast || stdin_is_tty {
        StdinMode::Load
    } else {
        StdinMode::Stream
    }
}

/// The startup ordering: streaming is the default and grabs first; a
/// toast or a tty stdin is loaded before the grab; password, input-only
/// and slide menus (`skip_stdin`) never read stdin. Toasts and
/// `--no-grab` never grab.
pub fn startup_plan(skip_stdin: bool, toast: bool, stdin_is_tty: bool, no_grab: bool) -> (p: StartupPlan)
    ensures
        p.mode == spec_stdin_mode(skip_stdin, toast, stdin_is_tty),
        p.grab_early == (!toast && !no_grab && p.mode != StdinMode::Load),
        p.grab_late == (!toast && !no_grab && p.mode == StdinMode::Load),
{
    let mode = if skip_stdin {
        StdinMode::Skip
    } else if toast || stdin_is_tty {
        StdinMode::Load
    } else {
        StdinMode::Stream
    };
    let grab = !toast && !no_grab;
    let load = match mode {
        StdinMode::Load => true,
        _ => false,
    };
    StartupPlan { mode, grab_early: grab && !load, grab_late: grab && load }
}

/// A tty on stdin is read to its end before the keyboard is grabbed, so
/// the user can type the items; and the keyboard is grabbed at most once.
pub proof fn lemma_tty_input_is_read_before_the_grab(skip_stdin: bool, toast: bool, no_grab: bool)
    requires
        !skip_stdin,
    ensures
        spec_stdin_mode(skip_stdin, toast, true) == StdinMode::Load,
        !(!toast && !no_grab && spec_stdin_mode(skip_stdin, toast, true) != StdinMode::Load),
{
}

/// How the output for the menu is found.
#[derive(Debug, Clone, Copy, PartialEq, Eq, Structural)]
pub enum OutputProbe {
    /// Known without asking: a monitor index, or none (the compositor
    /// picks).
    Fixed(Option<usize>),
    /// The output under the pointer.
    Pointer,
    /// The output holding the focused window.
    Focus,
}

/// Which output to open on: a valid `--monitor` index as given, an
/// invalid one as the first output; `auto` follows the pointer with
/// `--follow-cursor` and keyboard focus otherwise.
pub fn output_probe(choice: MonitorChoice, follow_cursor: bool, outputs: usize) -> (p: OutputProbe)
    ensures
        p == match choice {
            MonitorChoice::Index(i) => if (i as int) < outputs {
                OutputProbe::Fixed(Some(i as usize))
            } else {
                OutputProbe::Fixed(Some(0))
            },
            MonitorChoice::Auto => if follow_cursor {
                OutputProbe::Pointer
            } else {
                OutputProbe::Focus
            },
        },
{
    match choice {
        MonitorChoice::Index(i) => if (i as usize) < outputs {
            OutputProbe::Fixed(Some(i as usize))
        } else {
            OutputProbe::Fixed(Some(0))
        },
        MonitorChoice::Auto => if follow_cursor {
            OutputProbe::Pointer
        } else {
            OutputProbe::Focus
        },
    }
}

/// The first output holding the pointer (half-open), if the pointer is
/// known and on one.
pub fn output_at_pointer(outputs: &[Rect], pointer: Option<Point>) -> (r: Option<usize>)
    requires
        all_edges_fit(outputs@),
    ensures
        match pointer {
            None => r is None,
            Some(p) => match r {
                Some(i) => i < outputs@.len() && holds_point(outputs@[i as int], p) && forall|j: int|
                    0 <= j < i ==> !holds_point(#[trigger] outputs@[j], p),
                None => forall|j: int| 0 <= j < outputs@.len() ==> !holds_point(#[trigger] outputs@[j], p),
            },
        },
{
    let p = match pointer {
        Some(p) => p,
        None => return None,
    };
    let mut i: usize = 0;
    while i < outputs.len()
        invariant
            i <= outputs@.len(),
            pointer == Some(p),
            all_edges_fit(outputs@),
            forall|j: int| 0 <= j < i ==> !holds_point(#[trigger] outputs@[j], p),
        decreases outputs.len() - i,
    {
        assert(outputs@[i as int].edges_fit());
        if outputs[i].contains_exclusive(p) {
            return Some(i);
        }
        i += 1;
    }
    None
}

/// The focused output, if it is one of the known outputs.
pub fn focused_output(focused: Option<usize>, outputs: usize) -> (r: Option<usize>)
    ensures
        r == match focused {
            Some(i) => if i < outputs {
                Some(i)
            } else {
                None
            },
            None => None,
        },
{
    match focused {
        Some(i) => if i < outputs {
            Some(i)
        } else {
            None
        },
        None => None,
    }
}

/// `--line-height`: a pixel value is raised to at least 8 unless the
/// height fills the screen anyway.
pub fn clamp_line_height(h: LineHeight, full_height: bool) -> (r: LineHeight)
    ensures
        r == match h {
            LineHeight::Pixels(n) => if !full_height && n < 8 {
                LineHeight::Pixels(8)
            } else {
                h
            },
            _ => h,
        },
{
    match h {
        LineHeight::Pixels(n) => if !full_height && n < 8 {
            LineHeight::Pixels(8)
        } else {
            h
        },
        _ => h,
    }
}

/// `--columns` and `--lines` applied to the defaults: columns alone imply
/// one line; an explicit line count wins.
pub fn grid_shape(lines: i32, columns: i32, arg_lines: Option<i32>, arg_columns: Option<i32>) -> (r: (
    i32,
    i32,
))
    ensures
        r == (
            match arg_lines {
                Some(l) => l,
                None => if arg_columns is Some {
                    1
                } else {
                    lines
                },
            },
            match arg_columns {
                Some(c) => c,
                None => columns,
            },
        ),
{
    let mut lines = lines;
    let mut columns = columns;
    if let Some(c) = arg_columns {
        columns = c;
        if arg_lines.is_none() {
            lines = 1;
        }
    }
    if let Some(l) = arg_lines {
        lines = l;
    }
    (lines, columns)
}

} // verus!
