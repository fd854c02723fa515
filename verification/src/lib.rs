//! Command-line handling for the Neovide front end.
//!
//! The library turns the program's argument list, together with the
//! environment variables that the command line consults, into
//! [`CmdLineSettings`], or into the [`CmdLineError`] that the command line
//! reports.
//!
//! - [`grammar`] names the long options and switches and tells the shape of
//!   an argument;
//! - [`scan`] reads the argument list from left to right;
//! - [`cmd_line`] adds the environment and the defaults and makes the
//!   settings;
//! - [`dimensions`], [`frame`] and [`value_parsers`] read option values;
//! - [`laws`] states and proves what holds of every command line.
pub mod cmd_line;
pub mod dimensions;
pub mod error;
pub mod frame;
pub mod grammar;
pub mod laws;
pub mod scan;
pub mod text;
pub mod value_parsers;

pub use cmd_line::{handle_command_line_arguments, parse_command_line, CmdLineSettings, GeometryArgs};
pub use dimensions::Dimensions;
pub use error::CmdLineError;
pub use frame::Frame;
