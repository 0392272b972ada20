//! Reading one row of a table.

use vstd::prelude::*;
use crate::code::{decimal_number, is_unsigned, network_code, read_code, unsigned_digits};
use crate::error::{Failure, ScrapeError};
use crate::normalize::{ends_in_note, lemma_stripped, stripped};
use crate::record::{CarrierRecord, RecordView};
use crate::subscribers::{
    amount_in, is_decimal, leading_amount, lemma_leading_amount, Subscribers, SubscribersView,
};
use crate::table::{Row, RowView};
use crate::text::{is_digit, without_spaces};

verus! {

/// The network code of a row whose table has a column for it: the code in
/// the first text of the last cell, where a cell follows the subscriber
/// cell, and `0` where none does or the last cell has no text.
pub open spec fn trailing_code(cells: RowView) -> nat {
    if cells.len() > 4 && cells.last().len() > 0 {
        network_code(cells.last()[0])
    } else {
        0
    }
}

/// What a row gives. The cells are, from the left: the rank, the operator,
/// the technology, the subscribers, and what else the table has. The name of
/// the operator is the first text of its cell, the count is read from the
/// first text of the subscriber cell.
pub open spec fn row_outcome(
    cells: RowView,
    country: Seq<char>,
    region: Seq<char>,
    multiplier: usize,
    mcc: bool,
) -> Result<RecordView, Failure> {
    if multiplier == 0 {
        Err(Failure::PercentageUnit)
    } else if cells.len() < 2 || cells[1].len() == 0 {
        Err(Failure::EmptyOperator)
    } else if cells.len() < 4 || cells[3].len() == 0 {
        Err(Failure::SubscriberValueEmpty)
    } else {
        match amount_in(cells[3][0]) {
            None => Err(Failure::InvalidSubscriptions(cells[1][0])),
            Some(literal) => Ok(
                RecordView {
                    operator: stripped(cells[1][0]),
                    country: stripped(country),
                    region,
                    subscribers: SubscribersView { literal, multiplier },
                    mccmnc: if mcc {
                        trailing_code(cells) as u32
                    } else {
                        0
                    },
                },
            ),
        }
    }
}

/// `outcome` is `expected`, seen through the views of the record and of the
/// error.
pub open spec fn shows(
    outcome: Result<CarrierRecord, ScrapeError>,
    expected: Result<RecordView, Failure>,
) -> bool {
    match outcome {
        Ok(record) => expected == Ok::<RecordView, Failure>(record@),
        Err(error) => expected == Err::<RecordView, Failure>(error@),
    }
}

/// Reads the row `carrier` of a table of `country`, which lies in `region`.
/// `multiplier` is the factor of the table's unit, and `mcc` says whether
/// the table has a column of network codes.
pub fn parse_carrier(
    carrier: &Row,
    country: &str,
    region: &str,
    multiplier: usize,
    mcc: bool,
) -> (outcome: Result<CarrierRecord, ScrapeError>)
    ensures
        shows(outcome, row_outcome(carrier@, country@, region@, multiplier, mcc)),
{
    if multiplier == 0 {
        return Err(ScrapeError::PercentageUnit);
    }
    let cells = &carrier.cells;
    if cells.len() < 2 || cells[1].texts.len() == 0 {
        return Err(ScrapeError::EmptyOperator);
    }
    let operator = cells[1].texts[0].as_str();
    // The cell between the operator and the subscribers names the technology.
    if cells.len() < 4 || cells[3].texts.len() == 0 {
        return Err(ScrapeError::SubscriberValueEmpty);
    }
    match Subscribers::read(cells[3].texts[0].as_str(), multiplier) {
        None => Err(ScrapeError::InvalidSubscriptions(operator.to_owned())),
        Some(subscribers) => {
            let last = &cells[cells.len() - 1];
            let mccmnc: u32 = if mcc && cells.len() > 4 && last.texts.len() > 0 {
                read_code(last.texts[0].as_str())
            } else {
                0
            };
            Ok(CarrierRecord::new(operator, country, region, subscribers, mccmnc))
        },
    }
}

/// The names of a record end in no note: neither in a bracketed
/// annotation nor in an escaped line break. Each is what its text starts
/// with, and a text that ends in no note is kept whole.
pub proof fn lemma_names_of_record(
    cells: RowView,
    country: Seq<char>,
    region: Seq<char>,
    multiplier: usize,
    mcc: bool,
)
    requires
        row_outcome(cells, country, region, multiplier, mcc) is Ok,
    ensures
        ({
            let record = row_outcome(cells, country, region, multiplier, mcc)->Ok_0;
            &&& !ends_in_note(record.operator)
            &&& !ends_in_note(record.country)
            &&& record.operator == cells[1][0].take(record.operator.len() as int)
            &&& record.country == country.take(record.country.len() as int)
            &&& !ends_in_note(cells[1][0]) ==> record.operator == cells[1][0]
            &&& !ends_in_note(country) ==> record.country == country
            &&& record.region == region
        }),
{
    lemma_stripped(cells[1][0]);
    lemma_stripped(country);
}

/// The count of a record is the number that the subscriber cell of its row
/// starts with, spaces aside, and the multiplier of its table: the literal
/// is the longest run of digits and points at the start of the text, it is
/// a decimal literal, which has no sign, and the multiplier is the one the
/// row was read with, which is not `0`.
pub proof fn lemma_count_of_record(
    cells: RowView,
    country: Seq<char>,
    region: Seq<char>,
    multiplier: usize,
    mcc: bool,
)
    requires
        row_outcome(cells, country, region, multiplier, mcc) is Ok,
    ensures
        ({
            let record = row_outcome(cells, country, region, multiplier, mcc)->Ok_0;
            &&& cells.len() >= 4 && cells[3].len() > 0
            &&& record.subscribers.literal == leading_amount(without_spaces(cells[3][0]))
            &&& is_decimal(record.subscribers.literal)
            &&& record.subscribers.multiplier == multiplier
            &&& multiplier > 0
        }),
{
}

/// A record has a network code other than `0` only where its table has a
/// column of codes, a cell follows the subscriber cell, and the first text
/// of the last cell has five characters or more, the first five of which
/// write an unsigned number: the code is that number.
pub proof fn lemma_code_of_record(
    cells: RowView,
    country: Seq<char>,
    region: Seq<char>,
    multiplier: usize,
    mcc: bool,
)
    requires
        row_outcome(cells, country, region, multiplier, mcc) is Ok,
        row_outcome(cells, country, region, multiplier, mcc)->Ok_0.mccmnc != 0,
    ensures
        mcc,
        cells.len() > 4,
        cells.last().len() > 0,
        cells.last()[0].len() >= 5,
        is_unsigned(cells.last()[0].take(5)),
        row_outcome(cells, country, region, multiplier, mcc)->Ok_0.mccmnc == decimal_number(
            unsigned_digits(cells.last()[0].take(5)),
        ),
{
    let text = cells.last()[0];
    assert(network_code(text) != 0);
    let digits = unsigned_digits(text.take(5));
    crate::code::lemma_decimal_number_bound(digits);
}

/// A row whose subscriber text, spaces aside, is empty or starts with
/// anything but a digit fails, and the error names the operator.
pub proof fn lemma_count_must_start_with_digit(
    cells: RowView,
    country: Seq<char>,
    region: Seq<char>,
    multiplier: usize,
    mcc: bool,
)
    requires
        multiplier > 0,
        cells.len() >= 4,
        cells[1].len() > 0,
        cells[3].len() > 0,
        without_spaces(cells[3][0]).len() == 0 || !is_digit(without_spaces(cells[3][0])[0]),
    ensures
        row_outcome(cells, country, region, multiplier, mcc) == Err::<RecordView, Failure>(
            Failure::InvalidSubscriptions(cells[1][0]),
        ),
{
    let cleaned = without_spaces(cells[3][0]);
    let token = leading_amount(cleaned);
    lemma_leading_amount(cleaned);
    if token.len() > 0 {
        assert(token[0] == cleaned[0]);
    }
}

/// A row without a cell after the rank has no operator, and a row with an
/// operator but no text for the subscribers has no subscriber value.
pub proof fn lemma_missing_cells(
    cells: RowView,
    country: Seq<char>,
    region: Seq<char>,
    multiplier: usize,
    mcc: bool,
)
    requires
        multiplier > 0,
    ensures
        cells.len() < 2 ==> row_outcome(cells, country, region, multiplier, mcc) == Err::<
            RecordView,
            Failure,
        >(Failure::EmptyOperator),
        cells.len() >= 2 && cells[1].len() > 0 && (cells.len() < 4 || cells[3].len() == 0)
            ==> row_outcome(cells, country, region, multiplier, mcc) == Err::<
            RecordView,
            Failure,
        >(Failure::SubscriberValueEmpty),
{
}

} // verus!
