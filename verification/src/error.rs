//! The ways in which a table, a row or a request can fail.

use vstd::prelude::*;
use vstd::string::StringExecFns;

verus! {

/// `std::io::Error`, which an error of this library may carry; nothing is
/// said of what is in it.
#[verifier::external_type_specification]
#[verifier::external_body]
pub struct ExIoError(std::io::Error);

/// Why a table or a row gave no record, or a request could not be met.
/// None of them ends a run: a table or a row that fails is left out.
#[derive(Debug)]
pub enum ScrapeError {
    /// Reading or writing a file failed.
    IOError(std::io::Error),
    /// The header names a unit that is neither millions nor thousands; the
    /// unit is given as it stands in the header.
    UnknownUnit(String),
    /// The table counts in percent, or a row was read with no multiplier.
    PercentageUnit,
    /// The subscriber cell of the named operator does not start with a
    /// decimal number.
    InvalidSubscriptions(String),
    /// The row has no subscriber cell, or the cell has no text.
    SubscriberValueEmpty,
    /// The row has no operator cell, or the cell has no text.
    EmptyOperator,
    /// The header has no cell for the subscribers.
    HeaderUnavailable,
    /// The name of an output format is not known.
    UnsupportedFileFormat,
}

/// A [`ScrapeError`] with its texts as sequences of characters.
pub enum Failure {
    IOError,
    UnknownUnit(Seq<char>),
    PercentageUnit,
    InvalidSubscriptions(Seq<char>),
    SubscriberValueEmpty,
    EmptyOperator,
    HeaderUnavailable,
    UnsupportedFileFormat,
}

impl View for ScrapeError {
    type V = Failure;

    open spec fn view(&self) -> Failure {
        match self {
            ScrapeError::IOError(_) => Failure::IOError,
            ScrapeError::UnknownUnit(unit) => Failure::UnknownUnit(unit@),
            ScrapeError::PercentageUnit => Failure::PercentageUnit,
            ScrapeError::InvalidSubscriptions(operator) => Failure::InvalidSubscriptions(operator@),
            ScrapeError::SubscriberValueEmpty => Failure::SubscriberValueEmpty,
            ScrapeError::EmptyOperator => Failure::EmptyOperator,
            ScrapeError::HeaderUnavailable => Failure::HeaderUnavailable,
            ScrapeError::UnsupportedFileFormat => Failure::UnsupportedFileFormat,
        }
    }
}

/// What a failure says of itself.
pub open spec fn message_of(failure: Failure) -> Seq<char> {
    match failure {
        Failure::IOError => "transparent"@,
        Failure::UnknownUnit(unit) => "Unknown unit type "@ + unit,
        Failure::PercentageUnit => "Percentage as unit. Drop the operator"@,
        Failure::InvalidSubscriptions(operator) => "Invalid subscriber number for "@ + operator,
        Failure::SubscriberValueEmpty => "Subscriber value empty"@,
        Failure::EmptyOperator => "Empty operator"@,
        Failure::HeaderUnavailable => "Unwrapping header failed"@,
        Failure::UnsupportedFileFormat => "Unsupported file-format"@,
    }
}

impl ScrapeError {
    /// What the error says of itself, for a reader.
    pub fn message(&self) -> (message: String)
        ensures
            message@ == message_of(self@),
    {
        match self {
            ScrapeError::IOError(_) => "transparent".to_owned(),
            ScrapeError::UnknownUnit(unit) => {
                let mut message = "Unknown unit type ".to_owned();
                message.append(unit.as_str());
                message
            },
            ScrapeError::PercentageUnit => "Percentage as unit. Drop the operator".to_owned(),
            ScrapeError::InvalidSubscriptions(operator) => {
                let mut message = "Invalid subscriber number for ".to_owned();
                message.append(operator.as_str());
                message
            },
            ScrapeError::SubscriberValueEmpty => "Subscriber value empty".to_owned(),
            ScrapeError::EmptyOperator => "Empty operator".to_owned(),
            ScrapeError::HeaderUnavailable => "Unwrapping header failed".to_owned(),
            ScrapeError::UnsupportedFileFormat => "Unsupported file-format".to_owned(),
        }
    }
}

} // verus!
