//! What the command line decides from its arguments: the output format and the file
//! extension of the output.

use vstd::prelude::*;
use crate::text::str_eq;

verus! {

/// A format the command line writes.
#[derive(Debug, Clone, Copy, PartialEq, Eq, Structural)]
pub enum OutputFormat {
    Svg,
    Png,
}

/// The format a `--format` value names; `None` for any other value.
pub open spec fn format_named(name: Seq<char>) -> Option<OutputFormat> {
    if name == "svg"@ {
        Some(OutputFormat::Svg)
    } else if name == "png"@ {
        Some(OutputFormat::Png)
    } else {
        None
    }
}

/// Reads a `--format` value.
pub fn output_format(name: &str) -> (r: Option<OutputFormat>)
    ensures
        r == format_named(name@),
{
    if str_eq(name, "svg") {
        Some(OutputFormat::Svg)
    } else if str_eq(name, "png") {
        Some(OutputFormat::Png)
    } else {
        None
    }
}

/// The extension of the default output file: `png` for the PNG format, `svg` for any other.
pub open spec fn extension_of(format: Seq<char>) -> Seq<char> {
    if format == "png"@ { "png"@ } else { "svg"@ }
}

/// The extension given to the output file when none is named.
pub fn output_extension(format: &str) -> (e: &'static str)
    ensures
        e@ == extension_of(format@),
{
    if str_eq(format, "png") { "png" } else { "svg" }
}

} // verus!
