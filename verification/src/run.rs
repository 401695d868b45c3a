//! One run: from the configuration and the outcome of reading the file to
//! the lines to print, or to the failure to report.

use crate::config::Config;
use crate::search::{filter_lines, matching_lines};
use crate::text::text_lines;
use vstd::prelude::*;

verus! {

/// Why the file's text could not be had.
#[derive(Clone, Copy, Debug, PartialEq, Eq, Structural)]
pub enum IoCause {
    /// There is no file at the path.
    NotFound,
    /// The file may not be read.
    PermissionDenied,
    /// The file's bytes are no text.
    InvalidEncoding,
    /// Any other failure of the read.
    Other,
}

/// Why a run ended without a result.
#[derive(Clone, Copy, Debug, PartialEq, Eq, Structural)]
pub enum RuntimeError {
    /// The file could not be read.
    IoFailure(IoCause),
}

/// The lines that a run prints, in this order, each a slice of the text that
/// was read. `read` is the outcome of reading the whole file at
/// `config.filename`. A failed read ends the run with that cause and without
/// any line; a run that finds no line succeeds.
pub fn run<'a>(config: &Config, read: Result<&'a str, IoCause>) -> (out: Result<
    Vec<&'a str>,
    RuntimeError,
>)
    ensures
        match read {
            Ok(contents) => {
                &&& out is Ok
                &&& out->Ok_0.deep_view() == matching_lines(
                    config.spec_mode(),
                    config.query@,
                    contents@,
                )
                &&& config.query@.len() == 0 ==> out->Ok_0.deep_view() == text_lines(contents@)
            },
            Err(cause) => out == Err::<Vec<&'a str>, RuntimeError>(RuntimeError::IoFailure(cause)),
        },
{
    match read {
        Ok(contents) => Ok(filter_lines(config.query.as_str(), contents, config.mode())),
        Err(cause) => Err(RuntimeError::IoFailure(cause)),
    }
}

} // verus!
