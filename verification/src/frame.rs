//! The kind of window decorations to use.
use vstd::prelude::*;

use crate::text::chars_eq_str;

verus! {

/// Which window decorations to use.
#[derive(Clone, Copy, Debug, PartialEq, Eq, Structural)]
pub enum Frame {
    /// The decorations of the platform.
    Full,
    /// No decorations; the window might then not be resizable.
    Frameless,
}

impl Default for Frame {
    fn default() -> (res: Frame)
        ensures
            res == Frame::Full,
    {
        Frame::Full
    }
}

/// The values that `--frame` accepts: the variants' names in lower case.
pub open spec fn spec_parse_frame(s: Seq<char>) -> Option<Frame> {
    if s == "full"@ {
        Some(Frame::Full)
    } else if s == "none"@ {
        Some(Frame::Frameless)
    } else {
        None
    }
}

/// Parses the value of `--frame`.
pub fn parse_frame(s: &Vec<char>) -> (res: Option<Frame>)
    ensures
        res == spec_parse_frame(s@),
{
    if chars_eq_str(s, "full") {
        Some(Frame::Full)
    } else if chars_eq_str(s, "none") {
        Some(Frame::Frameless)
    } else {
        None
    }
}

} // verus!
