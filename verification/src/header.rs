//! Reading the header of a table: the unit in which the table counts its
//! subscribers, and whether it has a column of network codes.

use vstd::prelude::*;
use crate::error::{Failure, ScrapeError};
use crate::table::{CellView, Table};
use crate::text::{chars_of, contains, has, lowercase, to_lowercase};

verus! {

/// The factor that a unit stands for: a million for a unit that names
/// millions, a thousand for one that names thousands, in upper or lower
/// case. A unit in percent is refused, and so is any other; the error holds
/// the unit as it stands in the header.
pub open spec fn unit_multiplier(unit: Seq<char>) -> Result<usize, Failure> {
    let lowered = lowercase(unit);
    if contains(lowered, "million"@) {
        Ok(1_000_000)
    } else if contains(lowered, "thousand"@) {
        Ok(1_000)
    } else if contains(lowered, "%"@) {
        Err(Failure::PercentageUnit)
    } else {
        Err(Failure::UnknownUnit(unit))
    }
}

/// What a header gives: the factor of the unit, and the number of header
/// cells after the subscriber cell. The first three cells name the rank, the
/// operator and the technology; the fourth is the subscriber cell. Its
/// second text is the unit; with one text or none the table counts single
/// subscribers.
pub open spec fn header_outcome(header: Seq<CellView>) -> Result<(usize, usize), Failure> {
    if header.len() < 4 {
        Err(Failure::HeaderUnavailable)
    } else if header[3].len() > 1 {
        match unit_multiplier(header[3][1]) {
            Ok(multiplier) => Ok((multiplier, (header.len() - 4) as usize)),
            Err(failure) => Err(failure),
        }
    } else {
        Ok((1, (header.len() - 4) as usize))
    }
}

/// Resolves the unit named by `unit`.
pub fn resolve_unit(unit: &str) -> (outcome: Result<usize, ScrapeError>)
    ensures
        match outcome {
            Ok(multiplier) => unit_multiplier(unit@) == Ok::<usize, Failure>(multiplier),
            Err(error) => unit_multiplier(unit@) == Err::<usize, Failure>(error@),
        },
{
    let lowered = to_lowercase(&chars_of(unit));
    if has(&lowered, &chars_of("million")) {
        Ok(1_000_000)
    } else if has(&lowered, &chars_of("thousand")) {
        Ok(1_000)
    } else if has(&lowered, &chars_of("%")) {
        Err(ScrapeError::PercentageUnit)
    } else {
        Err(ScrapeError::UnknownUnit(unit.to_owned()))
    }
}

/// Reads the header of `table`: the factor of its unit, and the number of
/// header cells after the subscriber cell. With more than one such cell the
/// table has a column of network codes.
pub fn parse_header(table: &Table) -> (outcome: Result<(usize, usize), ScrapeError>)
    ensures
        match outcome {
            Ok(found) => header_outcome(table@.header) == Ok::<(usize, usize), Failure>(found),
            Err(error) => header_outcome(table@.header) == Err::<(usize, usize), Failure>(error@),
        },
{
    let header = &table.header;
    if header.len() < 4 {
        return Err(ScrapeError::HeaderUnavailable);
    }
    let rest: usize = header.len() - 4;
    let texts = &header[3].texts;
    if texts.len() > 1 {
        match resolve_unit(texts[1].as_str()) {
            Ok(multiplier) => Ok((multiplier, rest)),
            Err(error) => Err(error),
        }
    } else {
        Ok((1, rest))
    }
}

/// A header whose unit holds a percent sign, and names neither millions nor
/// thousands, fails as a unit in percent.
pub proof fn lemma_percent_unit(header: Seq<CellView>)
    requires
        header.len() >= 4,
        header[3].len() > 1,
        contains(lowercase(header[3][1]), "%"@),
        !contains(lowercase(header[3][1]), "million"@),
        !contains(lowercase(header[3][1]), "thousand"@),
    ensures
        header_outcome(header) == Err::<(usize, usize), Failure>(Failure::PercentageUnit),
{
}

} // verus!
