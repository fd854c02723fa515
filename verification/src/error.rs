//! What a command line that is not run reports.
use vstd::prelude::*;

verus! {

/// Why a command line was not accepted, or what it asked for in place of a run.
#[derive(Clone, Copy, Debug, PartialEq, Eq, Structural)]
pub enum CmdLineError {
    /// An argument that names no option or switch.
    UnknownArgument,
    /// A value outside those an option accepts, or an option given no value.
    InvalidValue,
    /// A value that the option's own reading rejects, such as a malformed size.
    ValueValidation,
    /// A value attached to a switch that takes none.
    TooManyValues,
    /// An option or switch given twice, or two of the mutually exclusive
    /// geometry options given together.
    ArgumentConflict,
    /// `--help` or `-h`: the usage text was asked for.
    DisplayHelp,
    /// `--version` or `-V`: the version was asked for.
    DisplayVersion,
}

} // verus!
