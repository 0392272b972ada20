//! The formats in which records are written out.

use vstd::prelude::*;
use crate::error::{Failure, ScrapeError};
use crate::text::same_text;

verus! {

/// A format for the records of a run.
#[derive(Debug, Clone, Copy, PartialEq, Eq)]
pub enum FileFormat {
    JSON,
    CSV,
}

/// The format that `name` names: `json` and `csv` are names, in lower case,
/// and nothing else is.
pub open spec fn format_named(name: Seq<char>) -> Option<FileFormat> {
    if name == "json"@ {
        Some(FileFormat::JSON)
    } else if name == "csv"@ {
        Some(FileFormat::CSV)
    } else {
        None
    }
}

impl FileFormat {
    /// The format that `s` names.
    pub fn from_str(s: &str) -> (outcome: Result<FileFormat, ScrapeError>)
        ensures
            match outcome {
                Ok(format) => format_named(s@) == Some(format),
                Err(error) => format_named(s@) is None && error@
                    == Failure::UnsupportedFileFormat,
            },
    {
        if same_text(s, "json") {
            Ok(FileFormat::JSON)
        } else if same_text(s, "csv") {
            Ok(FileFormat::CSV)
        } else {
            Err(ScrapeError::UnsupportedFileFormat)
        }
    }

    /// The extension of a file in this format.
    pub fn extension(&self) -> (extension: &'static str)
        ensures
            extension@ == match self {
                FileFormat::JSON => "json"@,
                FileFormat::CSV => "csv"@,
            },
    {
        match self {
            FileFormat::JSON => "json",
            FileFormat::CSV => "csv",
        }
    }
}

} // verus!
