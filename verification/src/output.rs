//! How results are shown on the command line.
use vstd::prelude::*;

verus! {

/// The form of command-line output.
#[derive(Debug, Clone, Copy, PartialEq, Eq, Structural)]
pub enum OutputFormat {
    /// Human-readable table.
    Table,
    Json,
    Csv,
}

/// The kind of a message, which decides its colour.
#[derive(Debug, Clone, Copy, PartialEq, Eq, Structural)]
pub enum MessageType {
    Info,
    Success,
    Warning,
    Error,
}

/// Prints results in one output format, with or without colours.
#[derive(Debug, Clone, Copy, PartialEq, Eq, Structural)]
pub struct OutputFormatter {
    pub format: OutputFormat,
    pub no_color: bool,
}

impl OutputFormatter {
    pub fn new(format: OutputFormat, no_color: bool) -> (res: Self)
        ensures
            res.format == format,
            res.no_color == no_color,
    {
        OutputFormatter { format, no_color }
    }
}

} // verus!
