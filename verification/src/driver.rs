//! From the headings and tables of a document to its records, and to the
//! tables and rows that gave none.

use vstd::prelude::*;
use crate::error::{Failure, ScrapeError};
use crate::header::{header_outcome, parse_header};
use crate::normalize::{ends_in_note, lemma_stripped, stripped};
use crate::record::{CarrierRecord, RecordView};
use crate::row::{parse_carrier, row_outcome};
use crate::subscribers::is_decimal;
use crate::table::{CellView, Document, DocumentView, RowView, Table, TableView};

verus! {

/// The records in `records`, each as what it holds.
pub open spec fn views(records: Seq<CarrierRecord>) -> Seq<RecordView> {
    records.map_values(|record: CarrierRecord| record@)
}

/// The name of the country that a heading gives: its first text, and the
/// empty name for a heading without text.
pub open spec fn heading_name(heading: CellView) -> Seq<char> {
    if heading.len() > 0 {
        heading[0]
    } else {
        Seq::empty()
    }
}

/// The records of the rows before row `upto`, in the order of the rows. Row
/// `0` holds the header and gives none. A row that fails gives none, and the
/// rows after it are read all the same.
pub open spec fn rows_records(
    rows: Seq<RowView>,
    upto: int,
    country: Seq<char>,
    region: Seq<char>,
    multiplier: usize,
    mcc: bool,
) -> Seq<RecordView>
    decreases upto,
{
    if upto <= 1 {
        Seq::empty()
    } else {
        let before = rows_records(rows, upto - 1, country, region, multiplier, mcc);
        match row_outcome(rows[upto - 1], country, region, multiplier, mcc) {
            Ok(record) => before.push(record),
            Err(_) => before,
        }
    }
}

/// The records of a table of `country`. A table whose header fails gives
/// none. The table has a column of network codes where more than one header
/// cell follows the subscriber cell.
pub open spec fn table_records(
    country: Seq<char>,
    table: TableView,
    region: Seq<char>,
) -> Seq<RecordView> {
    match header_outcome(table.header) {
        Ok((multiplier, rest)) => rows_records(
            table.rows,
            table.rows.len() as int,
            country,
            region,
            multiplier,
            rest > 1,
        ),
        Err(_) => Seq::empty(),
    }
}

/// The records of the first `upto` tables, each table under the heading
/// that stands at its place among the headings.
pub open spec fn paired_records(document: DocumentView, region: Seq<char>, upto: int) -> Seq<
    RecordView,
>
    decreases upto,
{
    if upto <= 0 {
        Seq::empty()
    } else {
        paired_records(document, region, upto - 1) + table_records(
            heading_name(document.headings[upto - 1]),
            document.tables[upto - 1],
            region,
        )
    }
}

/// The number of headings that have a table at their place, and of tables
/// that have a heading.
pub open spec fn pairs(document: DocumentView) -> int {
    if document.headings.len() <= document.tables.len() {
        document.headings.len() as int
    } else {
        document.tables.len() as int
    }
}

/// The records of a document: those of its tables in the order of the
/// document, the first table under the first heading, the second under the
/// second, and so on; a heading or a table without a partner gives none.
pub open spec fn document_records(document: DocumentView, region: Seq<char>) -> Seq<RecordView> {
    paired_records(document, region, pairs(document))
}

/// A table or a row that gave no record: the country of the table as its
/// heading names it, and why it failed. A failure of the header stands for
/// the whole table, every other failure for one row.
#[derive(Debug)]
pub struct Dropped {
    pub country: String,
    pub error: ScrapeError,
}

/// What a [`Dropped`] holds.
pub struct DroppedView {
    pub country: Seq<char>,
    pub error: Failure,
}

impl View for Dropped {
    type V = DroppedView;

    open spec fn view(&self) -> DroppedView {
        DroppedView { country: self.country@, error: self.error@ }
    }
}

/// The failures in `dropped`, each as what it holds.
pub open spec fn dropped_views(dropped: Seq<Dropped>) -> Seq<DroppedView> {
    dropped.map_values(|failure: Dropped| failure@)
}

/// What reading gave: the records, and the failures of the tables and rows
/// that gave none, each in the order of the document.
#[derive(Debug)]
pub struct Report {
    pub records: Vec<CarrierRecord>,
    pub dropped: Vec<Dropped>,
}

/// The failures of the rows before row `upto`, in the order of the rows.
pub open spec fn rows_failures(
    rows: Seq<RowView>,
    upto: int,
    country: Seq<char>,
    region: Seq<char>,
    multiplier: usize,
    mcc: bool,
) -> Seq<DroppedView>
    decreases upto,
{
    if upto <= 1 {
        Seq::empty()
    } else {
        let before = rows_failures(rows, upto - 1, country, region, multiplier, mcc);
        match row_outcome(rows[upto - 1], country, region, multiplier, mcc) {
            Ok(_) => before,
            Err(error) => before.push(DroppedView { country, error }),
        }
    }
}

/// The failures of a table of `country`: the failure of its header alone
/// where the header fails, and else the failures of its rows.
pub open spec fn table_failures(
    country: Seq<char>,
    table: TableView,
    region: Seq<char>,
) -> Seq<DroppedView> {
    match header_outcome(table.header) {
        Ok((multiplier, rest)) => rows_failures(
            table.rows,
            table.rows.len() as int,
            country,
            region,
            multiplier,
            rest > 1,
        ),
        Err(error) => seq![DroppedView { country, error }],
    }
}

/// The failures of the first `upto` tables, table after table.
pub open spec fn paired_failures(document: DocumentView, region: Seq<char>, upto: int) -> Seq<
    DroppedView,
>
    decreases upto,
{
    if upto <= 0 {
        Seq::empty()
    } else {
        paired_failures(document, region, upto - 1) + table_failures(
            heading_name(document.headings[upto - 1]),
            document.tables[upto - 1],
            region,
        )
    }
}

/// The failures of a document: those of its tables in the order of the
/// document, and within a table in the order of its rows.
pub open spec fn document_failures(document: DocumentView, region: Seq<char>) -> Seq<
    DroppedView,
> {
    paired_failures(document, region, pairs(document))
}

/// Every row after the header row of a table whose header holds gives
/// either a record or a failure, and nothing else does.
pub proof fn lemma_rows_are_accounted_for(
    rows: Seq<RowView>,
    upto: int,
    country: Seq<char>,
    region: Seq<char>,
    multiplier: usize,
    mcc: bool,
)
    requires
        1 <= upto,
    ensures
        rows_records(rows, upto, country, region, multiplier, mcc).len() + rows_failures(
            rows,
            upto,
            country,
            region,
            multiplier,
            mcc,
        ).len() == upto - 1,
        forall|i: int|
            0 <= i < rows_failures(rows, upto, country, region, multiplier, mcc).len()
                ==> (#[trigger] rows_failures(
                rows,
                upto,
                country,
                region,
                multiplier,
                mcc,
            )[i]).country == country,
    decreases upto,
{
    if upto > 1 {
        lemma_rows_are_accounted_for(rows, upto - 1, country, region, multiplier, mcc);
    }
}

/// A table whose header fails gives no record: so a table that counts in
/// percent, and one with an unknown unit or without a subscriber cell in
/// its header.
pub proof fn lemma_failed_header_gives_nothing(
    country: Seq<char>,
    table: TableView,
    region: Seq<char>,
)
    requires
        header_outcome(table.header) is Err,
    ensures
        table_records(country, table, region) == Seq::<RecordView>::empty(),
{
}

/// Each record of a table comes from one of its rows after the header row,
/// read with the multiplier of the table, and the records stand in the
/// order of their rows.
pub proof fn lemma_records_come_from_rows(
    rows: Seq<RowView>,
    upto: int,
    country: Seq<char>,
    region: Seq<char>,
    multiplier: usize,
    mcc: bool,
) -> (from: Seq<int>)
    requires
        upto <= rows.len(),
    ensures
        from.len() == rows_records(rows, upto, country, region, multiplier, mcc).len(),
        forall|i: int|
            0 <= i < from.len() ==> 1 <= #[trigger] from[i] < upto && row_outcome(
                rows[from[i]],
                country,
                region,
                multiplier,
                mcc,
            ) == Ok::<RecordView, Failure>(
                rows_records(rows, upto, country, region, multiplier, mcc)[i],
            ),
        forall|i: int, j: int| 0 <= i < j < from.len() ==> from[i] < from[j],
    decreases upto,
{
    if upto <= 1 {
        Seq::empty()
    } else {
        let before = lemma_records_come_from_rows(
            rows,
            upto - 1,
            country,
            region,
            multiplier,
            mcc,
        );
        match row_outcome(rows[upto - 1], country, region, multiplier, mcc) {
            Ok(_) => before.push(upto - 1),
            Err(_) => before,
        }
    }
}

/// Every record of a table holds the region as it was given, the country
/// of the table without the notes at its end, an operator that ends in no
/// note, a count that is a decimal literal, and as multiplier the factor of
/// the table's unit, which is a million, a thousand or one.
pub proof fn lemma_records_of_table(country: Seq<char>, table: TableView, region: Seq<char>)
    ensures
        forall|i: int|
            0 <= i < table_records(country, table, region).len() ==> {
                let record = #[trigger] table_records(country, table, region)[i];
                &&& header_outcome(table.header) is Ok
                &&& record.subscribers.multiplier == header_outcome(table.header)->Ok_0.0
                &&& record.subscribers.multiplier == 1_000_000 || record.subscribers.multiplier
                    == 1_000 || record.subscribers.multiplier == 1
                &&& is_decimal(record.subscribers.literal)
                &&& record.region == region
                &&& record.country == stripped(country)
                &&& !ends_in_note(record.country)
                &&& !ends_in_note(record.operator)
            },
{
    match header_outcome(table.header) {
        Ok((multiplier, rest)) => {
            let from = lemma_records_come_from_rows(
                table.rows,
                table.rows.len() as int,
                country,
                region,
                multiplier,
                rest > 1,
            );
            assert forall|i: int| 0 <= i < table_records(country, table, region).len() implies {
                let record = #[trigger] table_records(country, table, region)[i];
                &&& is_decimal(record.subscribers.literal)
                &&& record.subscribers.multiplier == multiplier
                &&& record.region == region
                &&& record.country == stripped(country)
                &&& !ends_in_note(record.country)
                &&& !ends_in_note(record.operator)
            } by {
                assert(1 <= from[i]);
                lemma_stripped(country);
                lemma_stripped(table.rows[from[i]][1][0]);
            }
        },
        Err(_) => {},
    }
}

/// Reads the rows of `table`, a table of `country`. The records are put at
/// the end of `records`, and the failures at the end of `dropped`: the
/// failure of the header, or those of the rows that gave no record.
pub fn scan_table(
    table: &Table,
    country: &str,
    region: &str,
    records: &mut Vec<CarrierRecord>,
    dropped: &mut Vec<Dropped>,
)
    ensures
        views(final(records)@) == views(old(records)@) + table_records(
            country@,
            table@,
            region@,
        ),
        dropped_views(final(dropped)@) == dropped_views(old(dropped)@) + table_failures(
            country@,
            table@,
            region@,
        ),
{
    let ghost before = views(records@);
    let ghost failed = dropped_views(dropped@);
    match parse_header(table) {
        Ok((multiplier, rest)) => {
            let mcc = rest > 1;
            let ghost rows = table@.rows;
            let mut at: usize = 1;
            assert(views(records@) == before + rows_records(
                rows,
                1,
                country@,
                region@,
                multiplier,
                mcc,
            ));
            assert(dropped_views(dropped@) == failed + rows_failures(
                rows,
                1,
                country@,
                region@,
                multiplier,
                mcc,
            ));
            while at < table.rows.len()
                invariant
                    at >= 1,
                    at <= table.rows.len() || at == 1,
                    rows == table@.rows,
                    views(records@) == before + rows_records(
                        rows,
                        at as int,
                        country@,
                        region@,
                        multiplier,
                        mcc,
                    ),
                    dropped_views(dropped@) == failed + rows_failures(
                        rows,
                        at as int,
                        country@,
                        region@,
                        multiplier,
                        mcc,
                    ),
                decreases table.rows.len() - at,
            {
                let ghost so_far = records@;
                let ghost failed_so_far = dropped@;
                match parse_carrier(&table.rows[at], country, region, multiplier, mcc) {
                    Ok(record) => {
                        records.push(record);
                        assert(views(records@) == views(so_far).push(record@));
                    },
                    Err(error) => {
                        let failure = Dropped { country: country.to_owned(), error };
                        dropped.push(failure);
                        assert(dropped_views(dropped@) == dropped_views(failed_so_far).push(
                            failure@,
                        ));
                    },
                }
                at += 1;
            }
            assert(rows_records(rows, at as int, country@, region@, multiplier, mcc)
                == rows_records(rows, rows.len() as int, country@, region@, multiplier, mcc));
            assert(rows_failures(rows, at as int, country@, region@, multiplier, mcc)
                == rows_failures(rows, rows.len() as int, country@, region@, multiplier, mcc));
        },
        Err(error) => {
            let ghost failed_so_far = dropped@;
            let failure = Dropped { country: country.to_owned(), error };
            dropped.push(failure);
            assert(dropped_views(dropped@) == dropped_views(failed_so_far).push(failure@));
            assert(views(records@) == before + Seq::<RecordView>::empty());
        },
    }
}

/// Reads the rows of `table`, a table of `country`, and puts their records
/// at the end of `records`. What fails is left out.
pub fn parse_table(table: &Table, country: &str, region: &str, records: &mut Vec<CarrierRecord>)
    ensures
        views(final(records)@) == views(old(records)@) + table_records(
            country@,
            table@,
            region@,
        ),
{
    let mut dropped: Vec<Dropped> = Vec::new();
    scan_table(table, country, region, records, &mut dropped);
}

/// Reads all tables of `document`, whose countries lie in `region`, and
/// gives the records together with the failures.
pub fn scan_document(document: &Document, region: &str) -> (report: Report)
    ensures
        views(report.records@) == document_records(document@, region@),
        dropped_views(report.dropped@) == document_failures(document@, region@),
{
    let mut records: Vec<CarrierRecord> = Vec::new();
    let mut dropped: Vec<Dropped> = Vec::new();
    let count: usize = if document.headings.len() <= document.tables.len() {
        document.headings.len()
    } else {
        document.tables.len()
    };
    let mut at: usize = 0;
    assert(views(records@) == paired_records(document@, region@, 0));
    assert(dropped_views(dropped@) == paired_failures(document@, region@, 0));
    while at < count
        invariant
            at <= count,
            count == pairs(document@),
            views(records@) == paired_records(document@, region@, at as int),
            dropped_views(dropped@) == paired_failures(document@, region@, at as int),
        decreases count - at,
    {
        let texts = &document.headings[at].texts;
        let heading: &str = if texts.len() > 0 {
            texts[0].as_str()
        } else {
            proof {
                reveal_strlit("");
            }
            ""
        };
        assert(heading@ == heading_name(document@.headings[at as int]));
        scan_table(&document.tables[at], heading, region, &mut records, &mut dropped);
        assert(document@.tables[at as int] == document.tables[at as int]@);
        at += 1;
    }
    Report { records, dropped }
}

/// Reads all tables of `document`, whose countries lie in `region`. What
/// fails is left out.
pub fn parse_document(document: &Document, region: &str) -> (records: Vec<CarrierRecord>)
    ensures
        views(records@) == document_records(document@, region@),
{
    scan_document(document, region).records
}

} // verus!
