//! The words of the command line: which long names denote options and
//! switches, and how one argument is shaped.
use vstd::prelude::*;

use crate::text::{chars_eq_str, find_char, find_char_in, lemma_find_char};

verus! {

/// The options that take a value.
#[derive(Clone, Copy, Debug, PartialEq, Eq, Structural)]
pub enum OptId {
    /// `--server <ADDRESS>`, also spelled `--remote-tcp`.
    Server,
    /// `--frame <FRAME>`.
    Frame,
    /// `--neovim-bin <NEOVIM_BIN>`.
    NeovimBin,
    /// `--wayland_app_id <WAYLAND_APP_ID>`.
    WaylandAppId,
    /// `--x11-wm-class <X11_WM_CLASS>`.
    X11WmClass,
    /// `--x11-wm-class-instance <X11_WM_CLASS_INSTANCE>`.
    X11WmClassInstance,
    /// `--grid [<GRID>]`, whose value may be left out.
    Grid,
    /// `--size <SIZE>`.
    Size,
}

/// The switches, which take no value.
#[derive(Clone, Copy, Debug, PartialEq, Eq, Structural)]
pub enum FlagId {
    Log,
    Wsl,
    NoMultigrid,
    NoFork,
    NoIdle,
    NoTabs,
    Srgb,
    NoSrgb,
    Vsync,
    NoVsync,
    Maximized,
}

/// What a long name (the part after `--`) denotes.
#[derive(Clone, Copy, Debug, PartialEq, Eq, Structural)]
pub enum LongArg {
    Opt(OptId),
    Flag(FlagId),
    Help,
    Version,
}

/// The number of switches.
pub const FLAG_COUNT: usize = 11;

/// The slot of each switch in the table of switches seen.
pub open spec fn flag_index(f: FlagId) -> int {
    match f {
        FlagId::Log => 0,
        FlagId::Wsl => 1,
        FlagId::NoMultigrid => 2,
        FlagId::NoFork => 3,
        FlagId::NoIdle => 4,
        FlagId::NoTabs => 5,
        FlagId::Srgb => 6,
        FlagId::NoSrgb => 7,
        FlagId::Vsync => 8,
        FlagId::NoVsync => 9,
        FlagId::Maximized => 10,
    }
}

pub fn flag_slot(f: FlagId) -> (res: usize)
    ensures
        res == flag_index(f),
        res < FLAG_COUNT,
{
    match f {
        FlagId::Log => 0,
        FlagId::Wsl => 1,
        FlagId::NoMultigrid => 2,
        FlagId::NoFork => 3,
        FlagId::NoIdle => 4,
        FlagId::NoTabs => 5,
        FlagId::Srgb => 6,
        FlagId::NoSrgb => 7,
        FlagId::Vsync => 8,
        FlagId::NoVsync => 9,
        FlagId::Maximized => 10,
    }
}

/// The long names of the command line and what each denotes.
pub open spec fn spec_long_arg(name: Seq<char>) -> Option<LongArg> {
    if name == "log"@ {
        Some(LongArg::Flag(FlagId::Log))
    } else if name == "server"@ || name == "remote-tcp"@ {
        Some(LongArg::Opt(OptId::Server))
    } else if name == "wsl"@ {
        Some(LongArg::Flag(FlagId::Wsl))
    } else if name == "frame"@ {
        Some(LongArg::Opt(OptId::Frame))
    } else if name == "no-multigrid"@ {
        Some(LongArg::Flag(FlagId::NoMultigrid))
    } else if name == "no-fork"@ {
        Some(LongArg::Flag(FlagId::NoFork))
    } else if name == "no-idle"@ {
        Some(LongArg::Flag(FlagId::NoIdle))
    } else if name == "no-tabs"@ {
        Some(LongArg::Flag(FlagId::NoTabs))
    } else if name == "srgb"@ {
        Some(LongArg::Flag(FlagId::Srgb))
    } else if name == "no-srgb"@ {
        Some(LongArg::Flag(FlagId::NoSrgb))
    } else if name == "vsync"@ {
        Some(LongArg::Flag(FlagId::Vsync))
    } else if name == "no-vsync"@ {
        Some(LongArg::Flag(FlagId::NoVsync))
    } else if name == "neovim-bin"@ {
        Some(LongArg::Opt(OptId::NeovimBin))
    } else if name == "wayland_app_id"@ {
        Some(LongArg::Opt(OptId::WaylandAppId))
    } else if name == "x11-wm-class"@ {
        Some(LongArg::Opt(OptId::X11WmClass))
    } else if name == "x11-wm-class-instance"@ {
        Some(LongArg::Opt(OptId::X11WmClassInstance))
    } else if name == "grid"@ {
        Some(LongArg::Opt(OptId::Grid))
    } else if name == "size"@ {
        Some(LongArg::Opt(OptId::Size))
    } else if name == "maximized"@ {
        Some(LongArg::Flag(FlagId::Maximized))
    } else if name == "help"@ {
        Some(LongArg::Help)
    } else if name == "version"@ {
        Some(LongArg::Version)
    } else {
        None
    }
}

/// Looks up a long name.
pub fn long_arg(name: &Vec<char>) -> (res: Option<LongArg>)
    ensures
        res == spec_long_arg(name@),
{
    if chars_eq_str(name, "log") {
        Some(LongArg::Flag(FlagId::Log))
    } else if chars_eq_str(name, "server") || chars_eq_str(name, "remote-tcp") {
        Some(LongArg::Opt(OptId::Server))
    } else if chars_eq_str(name, "wsl") {
        Some(LongArg::Flag(FlagId::Wsl))
    } else if chars_eq_str(name, "frame") {
        Some(LongArg::Opt(OptId::Frame))
    } else if chars_eq_str(name, "no-multigrid") {
        Some(LongArg::Flag(FlagId::NoMultigrid))
    } else if chars_eq_str(name, "no-fork") {
        Some(LongArg::Flag(FlagId::NoFork))
    } else if chars_eq_str(name, "no-idle") {
        Some(LongArg::Flag(FlagId::NoIdle))
    } else if chars_eq_str(name, "no-tabs") {
        Some(LongArg::Flag(FlagId::NoTabs))
    } else if chars_eq_str(name, "srgb") {
        Some(LongArg::Flag(FlagId::Srgb))
    } else if chars_eq_str(name, "no-srgb") {
        Some(LongArg::Flag(FlagId::NoSrgb))
    } else if chars_eq_str(name, "vsync") {
        Some(LongArg::Flag(FlagId::Vsync))
    } else if chars_eq_str(name, "no-vsync") {
        Some(LongArg::Flag(FlagId::NoVsync))
    } else if chars_eq_str(name, "neovim-bin") {
        Some(LongArg::Opt(OptId::NeovimBin))
    } else if chars_eq_str(name, "wayland_app_id") {
        Some(LongArg::Opt(OptId::WaylandAppId))
    } else if chars_eq_str(name, "x11-wm-class") {
        Some(LongArg::Opt(OptId::X11WmClass))
    } else if chars_eq_str(name, "x11-wm-class-instance") {
        Some(LongArg::Opt(OptId::X11WmClassInstance))
    } else if chars_eq_str(name, "grid") {
        Some(LongArg::Opt(OptId::Grid))
    } else if chars_eq_str(name, "size") {
        Some(LongArg::Opt(OptId::Size))
    } else if chars_eq_str(name, "maximized") {
        Some(LongArg::Flag(FlagId::Maximized))
    } else if chars_eq_str(name, "help") {
        Some(LongArg::Help)
    } else if chars_eq_str(name, "version") {
        Some(LongArg::Version)
    } else {
        None
    }
}

/// The shape of one argument.
pub enum ArgShape {
    /// Exactly `--`: everything after it is passed through.
    Escape,
    /// `--name` or `--name=value` (split at the first `=`).
    Long { name: Seq<char>, value: Option<Seq<char>> },
    /// `-` followed by at least one character other than `-`; only the
    /// first of those characters is ever looked at.
    Short { first: char },
    /// Anything else, `-` alone and the empty string included.
    Plain,
}

pub open spec fn arg_shape(a: Seq<char>) -> ArgShape {
    if a.len() == 2 && a[0] == '-' && a[1] == '-' {
        ArgShape::Escape
    } else if a.len() > 2 && a[0] == '-' && a[1] == '-' {
        let rest = a.skip(2);
        match find_char(rest, '=') {
            Some(k) => ArgShape::Long { name: rest.take(k), value: Some(rest.skip(k + 1)) },
            None => ArgShape::Long { name: rest, value: None },
        }
    } else if a.len() >= 2 && a[0] == '-' {
        ArgShape::Short { first: a[1] }
    } else {
        ArgShape::Plain
    }
}

/// The shape of an argument, with the positions that delimit its parts.
pub enum Shape {
    Escape,
    /// The name is `a[2..name_end]`; with a value, `=` stands at
    /// `name_end` and the value is what follows it.
    Long { name_end: usize, has_value: bool },
    Short { first: char },
    Plain,
}

pub open spec fn shape_matches(s: Shape, a: Seq<char>) -> bool {
    match s {
        Shape::Escape => arg_shape(a) is Escape,
        Shape::Long { name_end, has_value } => {
            &&& 2 <= name_end <= a.len()
            &&& has_value ==> name_end < a.len()
            &&& arg_shape(a) == ArgShape::Long {
                name: a.subrange(2, name_end as int),
                value: if has_value {
                    Some(a.subrange(name_end + 1, a.len() as int))
                } else {
                    None
                },
            }
        },
        Shape::Short { first } => arg_shape(a) == ArgShape::Short { first },
        Shape::Plain => arg_shape(a) is Plain,
    }
}

/// Tells the shape of an argument.
pub fn shape(a: &Vec<char>) -> (res: Shape)
    ensures
        shape_matches(res, a@),
{
    let n = a.len();
    if n == 2 && a[0] == '-' && a[1] == '-' {
        Shape::Escape
    } else if n > 2 && a[0] == '-' && a[1] == '-' {
        let ghost rest = a@.skip(2);
        proof {
            lemma_find_char(rest, '=');
        }
        assert(a@.subrange(2, n as int) =~= rest);
        match find_char_in(a, 2, n, '=') {
            Some(k) => {
                assert(rest.take(k - 2) =~= a@.subrange(2, k as int));
                assert(rest.skip(k - 2 + 1) =~= a@.subrange(k + 1, n as int));
                Shape::Long { name_end: k, has_value: true }
            },
            None => Shape::Long { name_end: n, has_value: false },
        }
    } else if n >= 2 && a[0] == '-' {
        Shape::Short { first: a[1] }
    } else {
        Shape::Plain
    }
}

} // verus!
