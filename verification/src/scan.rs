//! Reading the argument list from left to right.
//!
//! The reader keeps what the arguments seen so far have given: the
//! switches met, the values of the options met, the files to open, the
//! arguments passed through after `--`, and at most one option whose value
//! is still being read. An option given without `=` is settled, and its
//! value checked, only later: when a known switch or option, `-h` or `-V`
//! comes, when a further plain argument comes (the first one after `--`
//! included), or at the end of the list. An unknown argument, or a value
//! attached to a switch, is refused before the waiting option is settled.
use vstd::prelude::*;

use crate::dimensions::{parse_dimensions, spec_parse_dimensions, Dimensions};
use crate::error::CmdLineError;
use crate::frame::{parse_frame, spec_parse_frame, Frame};
use crate::grammar::{
    arg_shape, flag_index, flag_slot, long_arg, shape, spec_long_arg, ArgShape, FlagId, LongArg,
    OptId, Shape, FLAG_COUNT,
};
use crate::text::{chars_range, string_chars, string_from_range};

verus! {

/// What the arguments read so far have given.
pub struct ScanModel {
    /// Whether `--` has been read.
    pub trailing: bool,
    /// An option whose value may still follow, with its value if it came.
    pub pending: Option<(OptId, Option<Seq<char>>)>,
    pub files: Seq<Seq<char>>,
    pub passthrough: Seq<Seq<char>>,
    /// Which switches have been given, by `flag_index`.
    pub flags: Seq<bool>,
    pub server: Option<Seq<char>>,
    pub frame: Option<Frame>,
    pub neovim_bin: Option<Seq<char>>,
    pub wayland_app_id: Option<Seq<char>>,
    pub x11_wm_class: Option<Seq<char>>,
    pub x11_wm_class_instance: Option<Seq<char>>,
    /// `Some(None)` for `--grid` given without a value.
    pub grid: Option<Option<Dimensions>>,
    pub size: Option<Dimensions>,
}

/// Nothing read yet.
pub open spec fn initial_scan() -> ScanModel {
    ScanModel {
        trailing: false,
        pending: None,
        files: Seq::empty(),
        passthrough: Seq::empty(),
        flags: Seq::new(FLAG_COUNT as nat, |i: int| false),
        server: None,
        frame: None,
        neovim_bin: None,
        wayland_app_id: None,
        x11_wm_class: None,
        x11_wm_class_instance: None,
        grid: None,
        size: None,
    }
}

pub open spec fn flag_seen(st: ScanModel, f: FlagId) -> bool {
    st.flags[flag_index(f)]
}

/// Whether an option has already been given.
pub open spec fn opt_present(st: ScanModel, o: OptId) -> bool {
    match o {
        OptId::Server => st.server is Some,
        OptId::Frame => st.frame is Some,
        OptId::NeovimBin => st.neovim_bin is Some,
        OptId::WaylandAppId => st.wayland_app_id is Some,
        OptId::X11WmClass => st.x11_wm_class is Some,
        OptId::X11WmClassInstance => st.x11_wm_class_instance is Some,
        OptId::Grid => st.grid is Some,
        OptId::Size => st.size is Some,
    }
}

/// Settles an option with the values it was given (none or one): an
/// option other than `--grid` needs a value; no option may be given twice;
/// and the value must read as the option's kind of value.
pub open spec fn spec_record_option(st: ScanModel, o: OptId, value: Option<Seq<char>>) -> Result<
    ScanModel,
    CmdLineError,
> {
    match value {
        None => if o != OptId::Grid {
            Err(CmdLineError::InvalidValue)
        } else if st.grid is Some {
            Err(CmdLineError::ArgumentConflict)
        } else {
            Ok(ScanModel { grid: Some(None), ..st })
        },
        Some(v) => if opt_present(st, o) {
            Err(CmdLineError::ArgumentConflict)
        } else {
            match o {
                OptId::Server => Ok(ScanModel { server: Some(v), ..st }),
                OptId::Frame => match spec_parse_frame(v) {
                    Some(f) => Ok(ScanModel { frame: Some(f), ..st }),
                    None => Err(CmdLineError::InvalidValue),
                },
                OptId::NeovimBin => Ok(ScanModel { neovim_bin: Some(v), ..st }),
                OptId::WaylandAppId => Ok(ScanModel { wayland_app_id: Some(v), ..st }),
                OptId::X11WmClass => Ok(ScanModel { x11_wm_class: Some(v), ..st }),
                OptId::X11WmClassInstance => Ok(ScanModel { x11_wm_class_instance: Some(v), ..st }),
                OptId::Grid => match spec_parse_dimensions(v) {
                    Some(d) => Ok(ScanModel { grid: Some(Some(d)), ..st }),
                    None => Err(CmdLineError::ValueValidation),
                },
                OptId::Size => match spec_parse_dimensions(v) {
                    Some(d) => Ok(ScanModel { size: Some(d), ..st }),
                    None => Err(CmdLineError::ValueValidation),
                },
            }
        },
    }
}

/// Settles the option that is waiting for its value, if any.
pub open spec fn spec_resolve_pending(st: ScanModel) -> Result<ScanModel, CmdLineError> {
    match st.pending {
        None => Ok(st),
        Some((o, v)) => spec_record_option(ScanModel { pending: None, ..st }, o, v),
    }
}

/// Records a switch; no switch may be given twice.
pub open spec fn spec_record_flag(st: ScanModel, f: FlagId) -> Result<ScanModel, CmdLineError> {
    if flag_seen(st, f) {
        Err(CmdLineError::ArgumentConflict)
    } else {
        Ok(ScanModel { flags: st.flags.update(flag_index(f), true), ..st })
    }
}

/// Settles the waiting option, then gives the error that asking for help
/// or for the version is.
pub open spec fn spec_display(st: ScanModel, e: CmdLineError) -> Result<ScanModel, CmdLineError> {
    match spec_resolve_pending(st) {
        Err(e2) => Err(e2),
        Ok(_) => Err(e),
    }
}

/// Reads one argument.
pub open spec fn spec_step(st: ScanModel, arg: Seq<char>) -> Result<ScanModel, CmdLineError> {
    if st.trailing {
        match spec_resolve_pending(st) {
            Err(e) => Err(e),
            Ok(s) => Ok(ScanModel { passthrough: s.passthrough.push(arg), ..s }),
        }
    } else {
        match arg_shape(arg) {
            ArgShape::Escape => Ok(ScanModel { trailing: true, ..st }),
            ArgShape::Long { name, value } => match spec_long_arg(name) {
                None => Err(CmdLineError::UnknownArgument),
                Some(LongArg::Opt(o)) => match spec_resolve_pending(st) {
                    Err(e) => Err(e),
                    Ok(s) => match value {
                        Some(v) => spec_record_option(s, o, Some(v)),
                        None => Ok(ScanModel { pending: Some((o, None)), ..s }),
                    },
                },
                Some(LongArg::Flag(f)) => if value is Some {
                    Err(CmdLineError::TooManyValues)
                } else {
                    match spec_resolve_pending(st) {
                        Err(e) => Err(e),
                        Ok(s) => spec_record_flag(s, f),
                    }
                },
                Some(LongArg::Help) => if value is Some {
                    Err(CmdLineError::TooManyValues)
                } else {
                    spec_display(st, CmdLineError::DisplayHelp)
                },
                Some(LongArg::Version) => if value is Some {
                    Err(CmdLineError::TooManyValues)
                } else {
                    spec_display(st, CmdLineError::DisplayVersion)
                },
            },
            ArgShape::Short { first } => if first == 'h' {
                spec_display(st, CmdLineError::DisplayHelp)
            } else if first == 'V' {
                spec_display(st, CmdLineError::DisplayVersion)
            } else {
                Err(CmdLineError::UnknownArgument)
            },
            ArgShape::Plain => match st.pending {
                Some((o, None)) => Ok(ScanModel { pending: Some((o, Some(arg))), ..st }),
                _ => match spec_resolve_pending(st) {
                    Err(e) => Err(e),
                    Ok(s) => Ok(ScanModel { files: s.files.push(arg), ..s }),
                },
            },
        }
    }
}

/// Reads the arguments in order; the first error ends the reading.
pub open spec fn spec_scan(args: Seq<Seq<char>>, st: ScanModel) -> Result<ScanModel, CmdLineError>
    decreases args.len(),
{
    if args.len() == 0 {
        Ok(st)
    } else {
        match spec_step(st, args[0]) {
            Err(e) => Err(e),
            Ok(s) => spec_scan(args.drop_first(), s),
        }
    }
}

/// Reads a whole argument list, whose first item is the program's name,
/// and settles the option left waiting at the end.
pub open spec fn spec_read_args(args: Seq<Seq<char>>) -> Result<ScanModel, CmdLineError> {
    let words = if args.len() == 0 {
        args
    } else {
        args.drop_first()
    };
    match spec_scan(words, initial_scan()) {
        Err(e) => Err(e),
        Ok(st) => spec_resolve_pending(st),
    }
}

/// The reader's state in executable form.
pub struct Scan {
    pub trailing: bool,
    pub pending: Option<(OptId, Option<String>)>,
    pub files: Vec<String>,
    pub passthrough: Vec<String>,
    pub flags: Vec<bool>,
    pub server: Option<String>,
    pub frame: Option<Frame>,
    pub neovim_bin: Option<String>,
    pub wayland_app_id: Option<String>,
    pub x11_wm_class: Option<String>,
    pub x11_wm_class_instance: Option<String>,
    pub grid: Option<Option<Dimensions>>,
    pub size: Option<Dimensions>,
}

impl View for Scan {
    type V = ScanModel;

    open spec fn view(&self) -> ScanModel {
        ScanModel {
            trailing: self.trailing,
            pending: match self.pending {
                Some((o, v)) => Some((o, v.deep_view())),
                None => None,
            },
            files: self.files.deep_view(),
            passthrough: self.passthrough.deep_view(),
            flags: self.flags@,
            server: self.server.deep_view(),
            frame: self.frame,
            neovim_bin: self.neovim_bin.deep_view(),
            wayland_app_id: self.wayland_app_id.deep_view(),
            x11_wm_class: self.x11_wm_class.deep_view(),
            x11_wm_class_instance: self.x11_wm_class_instance.deep_view(),
            grid: self.grid,
            size: self.size,
        }
    }
}

/// The outcome of a step, compared with what the model gives.
pub open spec fn step_result(r: Result<(), CmdLineError>, after: ScanModel, expected: Result<ScanModel, CmdLineError>) -> bool {
    match r {
        Ok(()) => expected == Ok::<ScanModel, CmdLineError>(after),
        Err(e) => expected == Err::<ScanModel, CmdLineError>(e),
    }
}

pub fn push_string(v: &mut Vec<String>, s: String)
    ensures
        final(v).deep_view() == old(v).deep_view().push(s@),
{
    v.push(s);
    assert(v.deep_view() =~= old(v).deep_view().push(s@));
}

impl Scan {
    /// The table of switches has a slot for each switch.
    pub open spec fn wf(&self) -> bool {
        self.flags@.len() == FLAG_COUNT
    }

    pub fn new() -> (res: Scan)
        ensures
            res@ == initial_scan(),
            res.wf(),
    {
        let mut flags: Vec<bool> = Vec::new();
        let mut i: usize = 0;
        while i < FLAG_COUNT
            invariant
                i <= FLAG_COUNT,
                flags@ == Seq::new(i as nat, |j: int| false),
            decreases FLAG_COUNT - i,
        {
            flags.push(false);
            i = i + 1;
            assert(flags@ =~= Seq::new(i as nat, |j: int| false));
        }
        let res = Scan {
            trailing: false,
            pending: None,
            files: Vec::new(),
            passthrough: Vec::new(),
            flags,
            server: None,
            frame: None,
            neovim_bin: None,
            wayland_app_id: None,
            x11_wm_class: None,
            x11_wm_class_instance: None,
            grid: None,
            size: None,
        };
        assert(res.files.deep_view() =~= Seq::<Seq<char>>::empty());
        assert(res.passthrough.deep_view() =~= Seq::<Seq<char>>::empty());
        res
    }

    fn opt_is_present(&self, o: OptId) -> (res: bool)
        ensures
            res == opt_present(self@, o),
    {
        match o {
            OptId::Server => self.server.is_some(),
            OptId::Frame => self.frame.is_some(),
            OptId::NeovimBin => self.neovim_bin.is_some(),
            OptId::WaylandAppId => self.wayland_app_id.is_some(),
            OptId::X11WmClass => self.x11_wm_class.is_some(),
            OptId::X11WmClassInstance => self.x11_wm_class_instance.is_some(),
            OptId::Grid => self.grid.is_some(),
            OptId::Size => self.size.is_some(),
        }
    }

    /// Settles option `o` with `value`.
    fn record_option(&mut self, o: OptId, value: Option<String>) -> (res: Result<(), CmdLineError>)
        requires
            old(self).wf(),
        ensures
            final(self).wf(),
            step_result(res, final(self)@, spec_record_option(old(self)@, o, value.deep_view())),
    {
        match value {
            None => {
                if o != OptId::Grid {
                    Err(CmdLineError::InvalidValue)
                } else if self.grid.is_some() {
                    Err(CmdLineError::ArgumentConflict)
                } else {
                    self.grid = Some(None);
                    Ok(())
                }
            },
            Some(v) => {
                if self.opt_is_present(o) {
                    return Err(CmdLineError::ArgumentConflict);
                }
                match o {
                    OptId::Server => {
                        self.server = Some(v);
                        Ok(())
                    },
                    OptId::Frame => {
                        let chars = string_chars(&v);
                        match parse_frame(&chars) {
                            Some(f) => {
                                self.frame = Some(f);
                                Ok(())
                            },
                            None => Err(CmdLineError::InvalidValue),
                        }
                    },
                    OptId::NeovimBin => {
                        self.neovim_bin = Some(v);
                        Ok(())
                    },
                    OptId::WaylandAppId => {
                        self.wayland_app_id = Some(v);
                        Ok(())
                    },
                    OptId::X11WmClass => {
                        self.x11_wm_class = Some(v);
                        Ok(())
                    },
                    OptId::X11WmClassInstance => {
                        self.x11_wm_class_instance = Some(v);
                        Ok(())
                    },
                    OptId::Grid => {
                        let chars = string_chars(&v);
                        assert(chars@.subrange(0, chars.len() as int) =~= chars@);
                        match parse_dimensions(&chars, 0, chars.len()) {
                            Some(d) => {
                                self.grid = Some(Some(d));
                                Ok(())
                            },
                            None => Err(CmdLineError::ValueValidation),
                        }
                    },
                    OptId::Size => {
                        let chars = string_chars(&v);
                        assert(chars@.subrange(0, chars.len() as int) =~= chars@);
                        match parse_dimensions(&chars, 0, chars.len()) {
                            Some(d) => {
                                self.size = Some(d);
                                Ok(())
                            },
                            None => Err(CmdLineError::ValueValidation),
                        }
                    },
                }
            },
        }
    }

    /// Settles the option that waits for its value, if any.
    pub fn resolve_pending(&mut self) -> (res: Result<(), CmdLineError>)
        requires
            old(self).wf(),
        ensures
            final(self).wf(),
            step_result(res, final(self)@, spec_resolve_pending(old(self)@)),
    {
        match self.pending.take() {
            None => Ok(()),
            Some((o, v)) => self.record_option(o, v),
        }
    }

    fn record_flag(&mut self, f: FlagId) -> (res: Result<(), CmdLineError>)
        requires
            old(self).wf(),
        ensures
            final(self).wf(),
            step_result(res, final(self)@, spec_record_flag(old(self)@, f)),
    {
        let i = flag_slot(f);
        if self.flags[i] {
            Err(CmdLineError::ArgumentConflict)
        } else {
            self.flags.set(i, true);
            Ok(())
        }
    }

    fn display(&mut self, e: CmdLineError) -> (res: Result<(), CmdLineError>)
        requires
            old(self).wf(),
        ensures
            final(self).wf(),
            step_result(res, final(self)@, spec_display(old(self)@, e)),
    {
        match self.resolve_pending() {
            Err(e2) => Err(e2),
            Ok(()) => Err(e),
        }
    }

    /// Reads one argument.
    pub fn step(&mut self, arg: String) -> (res: Result<(), CmdLineError>)
        requires
            old(self).wf(),
        ensures
            final(self).wf(),
            step_result(res, final(self)@, spec_step(old(self)@, arg@)),
    {
        if self.trailing {
            match self.resolve_pending() {
                Err(e) => Err(e),
                Ok(()) => {
                    push_string(&mut self.passthrough, arg);
                    Ok(())
                },
            }
        } else {
            let chars = string_chars(&arg);
            match shape(&chars) {
                Shape::Escape => {
                    self.trailing = true;
                    Ok(())
                },
                Shape::Long { name_end, has_value } => {
                    assert(has_value ==> name_end < chars.len());
                    let name = chars_range(&chars, 2, name_end);
                    match long_arg(&name) {
                        None => Err(CmdLineError::UnknownArgument),
                        Some(LongArg::Opt(o)) => {
                            match self.resolve_pending() {
                                Err(e) => Err(e),
                                Ok(()) => {
                                    if has_value {
                                        let v = string_from_range(&chars, name_end + 1, chars.len());
                                        self.record_option(o, Some(v))
                                    } else {
                                        self.pending = Some((o, None));
                                        Ok(())
                                    }
                                },
                            }
                        },
                        Some(LongArg::Flag(f)) => {
                            if has_value {
                                Err(CmdLineError::TooManyValues)
                            } else {
                                match self.resolve_pending() {
                                    Err(e) => Err(e),
                                    Ok(()) => self.record_flag(f),
                                }
                            }
                        },
                        Some(LongArg::Help) => {
                            if has_value {
                                Err(CmdLineError::TooManyValues)
                            } else {
                                self.display(CmdLineError::DisplayHelp)
                            }
                        },
                        Some(LongArg::Version) => {
                            if has_value {
                                Err(CmdLineError::TooManyValues)
                            } else {
                                self.display(CmdLineError::DisplayVersion)
                            }
                        },
                    }
                },
                Shape::Short { first } => {
                    if first == 'h' {
                        self.display(CmdLineError::DisplayHelp)
                    } else if first == 'V' {
                        self.display(CmdLineError::DisplayVersion)
                    } else {
                        Err(CmdLineError::UnknownArgument)
                    }
                },
                Shape::Plain => {
                    let waiting = match &self.pending {
                        Some((o, None)) => Some(*o),
                        _ => None,
                    };
                    match waiting {
                        Some(o) => {
                            self.pending = Some((o, Some(arg)));
                            Ok(())
                        },
                        None => match self.resolve_pending() {
                            Err(e) => Err(e),
                            Ok(()) => {
                                push_string(&mut self.files, arg);
                                Ok(())
                            },
                        },
                    }
                },
            }
        }
    }
}

} // verus!
