use carriers::driver::{parse_document, parse_table, scan_document, scan_table};
use carriers::error::ScrapeError;
use carriers::record::CarrierRecord;
use carriers::table::{Cell, Document, Row, Table};

fn cell(texts: &[&str]) -> Cell {
    Cell { texts: texts.iter().map(|text| text.to_string()).collect() }
}

fn row(cells: &[&str]) -> Row {
    Row { cells: cells.iter().map(|text| cell(&[text])).collect() }
}

fn table(unit: &[&str], more: usize, rows: Vec<Row>) -> Table {
    let mut header = vec![cell(&["Rank"]), cell(&["Operator"]), cell(&["Technology"])];
    header.push(cell(unit));
    for _ in 0..more {
        header.push(cell(&["More"]));
    }
    let mut all = vec![Row { cells: Vec::new() }];
    all.extend(rows);
    Table { header, rows: all }
}

fn names(records: &[CarrierRecord]) -> Vec<(String, String)> {
    records
        .iter()
        .map(|record| (record.country().to_string(), record.operator().to_string()))
        .collect()
}

fn pair(country: &str, operator: &str) -> (String, String) {
    (country.to_string(), operator.to_string())
}

#[test]
fn finland_document_gives_its_record() {
    let document = Document {
        headings: vec![cell(&["Finland"])],
        tables: vec![table(
            &["Subscribers", "(millions)"],
            0,
            vec![row(&["1", "Operator X", "GSM", "5.2"])],
        )],
    };
    let records = parse_document(&document, "Nordics");
    assert_eq!(records.len(), 1);
    assert_eq!(records[0].operator(), "Operator X");
    assert_eq!(records[0].country(), "Finland");
    assert_eq!(records[0].region(), "Nordics");
    assert_eq!(records[0].subscribers().literal(), "5.2");
    assert_eq!(records[0].subscribers().multiplier(), 1_000_000);
    assert_eq!(records[0].mccmnc(), 0);
}

#[test]
fn code_column_needs_two_cells_after_the_subscribers() {
    let rows = || vec![row(&["1", "Operator X", "GSM", "5.2", "x", "24405"])];
    for (more, code) in [(0, 0), (1, 0), (2, 24405), (3, 24405)] {
        let document = Document {
            headings: vec![cell(&["Finland"])],
            tables: vec![table(&["Subscribers", "(millions)"], more, rows())],
        };
        let records = parse_document(&document, "Europe");
        assert_eq!(records.len(), 1);
        assert_eq!(records[0].mccmnc(), code);
    }
}

#[test]
fn first_row_is_the_header_row() {
    let rows = vec![
        row(&["1", "Zero", "GSM", "1"]),
        row(&["2", "One", "GSM", "2"]),
        row(&["3", "Two", "GSM", "3"]),
    ];
    let mut first = table(&["Subscribers"], 0, Vec::new());
    first.rows = rows;
    let mut records = Vec::new();
    parse_table(&first, "Malta", "Europe", &mut records);
    assert_eq!(names(&records), vec![pair("Malta", "One"), pair("Malta", "Two")]);
}

#[test]
fn table_without_rows_gives_nothing() {
    let mut empty = table(&["Subscribers"], 0, Vec::new());
    empty.rows = Vec::new();
    let mut records = Vec::new();
    parse_table(&empty, "Malta", "Europe", &mut records);
    assert!(records.is_empty());
    parse_table(&table(&["Subscribers"], 0, Vec::new()), "Malta", "Europe", &mut records);
    assert!(records.is_empty());
}

#[test]
fn records_are_put_after_those_that_are_there() {
    let mut records = Vec::new();
    parse_table(&table(&["S"], 0, vec![row(&["1", "A", "x", "1"])]), "First", "R", &mut records);
    parse_table(&table(&["S", "(furlongs)"], 0, vec![row(&["1", "B", "x", "1"])]), "Second", "R", &mut records);
    parse_table(&table(&["S"], 0, vec![row(&["1", "C", "x", "1"]), row(&["2", "D", "x", "2"])]), "Third", "R", &mut records);
    assert_eq!(
        names(&records),
        vec![pair("First", "A"), pair("Third", "C"), pair("Third", "D")]
    );
}

#[test]
fn failing_table_is_dropped_whole() {
    let rows = || vec![row(&["1", "A", "x", "10"]), row(&["2", "B", "x", "20"])];
    let document = Document {
        headings: vec![cell(&["P"]), cell(&["Q"]), cell(&["R"]), cell(&["S"])],
        tables: vec![
            table(&["Share", "(%)"], 0, rows()),
            table(&["Subscribers", "(dozens)"], 0, rows()),
            Table { header: vec![cell(&["Rank"])], rows: rows() },
            table(&["Subscribers", "(thousands)"], 0, rows()),
        ],
    };
    let records = parse_document(&document, "Europe");
    assert_eq!(names(&records), vec![pair("S", "A"), pair("S", "B")]);
    assert_eq!(records[0].subscribers().multiplier(), 1_000);
}

#[test]
fn failing_row_is_dropped_alone() {
    let rows = vec![
        row(&["1", "A", "x", "10"]),
        row(&["2"]),
        row(&["3", "B", "x"]),
        row(&["4", "C", "x", "none"]),
        row(&["5", "D", "x", "7.5"]),
    ];
    let document = Document {
        headings: vec![cell(&["Chile"])],
        tables: vec![table(&["Subscribers"], 0, rows)],
    };
    let records = parse_document(&document, "Americas");
    assert_eq!(names(&records), vec![pair("Chile", "A"), pair("Chile", "D")]);
}

#[test]
fn tables_pair_with_headings_by_position() {
    let one = |operator: &str| table(&["S"], 0, vec![row(&["1", operator, "x", "1"])]);
    let document = Document {
        headings: vec![cell(&["First"]), cell(&["Second", "[edit]"]), cell(&["Third"])],
        tables: vec![one("A"), one("B")],
    };
    assert_eq!(
        names(&parse_document(&document, "R")),
        vec![pair("First", "A"), pair("Second", "B")]
    );
    let document = Document {
        headings: vec![cell(&["First"])],
        tables: vec![one("A"), one("B")],
    };
    assert_eq!(names(&parse_document(&document, "R")), vec![pair("First", "A")]);
    let document = Document { headings: Vec::new(), tables: vec![one("A")] };
    assert!(parse_document(&document, "R").is_empty());
    let document = Document { headings: vec![cell(&["First"])], tables: Vec::new() };
    assert!(parse_document(&document, "R").is_empty());
}

#[test]
fn heading_without_text_gives_an_empty_country() {
    let document = Document {
        headings: vec![cell(&[])],
        tables: vec![table(&["S"], 0, vec![row(&["1", "A", "x", "1"])])],
    };
    assert_eq!(names(&parse_document(&document, "R")), vec![pair("", "A")]);
}

#[test]
fn country_loses_its_note() {
    let document = Document {
        headings: vec![cell(&["Åland (Finland)"])],
        tables: vec![table(&["S"], 0, vec![row(&["1", "A", "x", "1"])])],
    };
    assert_eq!(names(&parse_document(&document, "R")), vec![pair("Åland", "A")]);
}

#[test]
fn two_runs_give_the_same_records() {
    let document = Document {
        headings: vec![cell(&["Chile"]), cell(&["Peru"])],
        tables: vec![
            table(&["S", "(millions)"], 2, vec![row(&["1", "A (1)", "x", "1.5", "y", "73001"])]),
            table(&["S"], 0, vec![row(&["1", "B", "x", "9"]), row(&["2", "C", "x", "bad"])]),
        ],
    };
    let first = parse_document(&document, "Americas");
    let second = parse_document(&document, "Americas");
    assert_eq!(first.len(), 2);
    assert_eq!(first, second);
}

#[test]
fn failing_header_is_one_failure_for_the_table() {
    let rows = || vec![row(&["1", "A", "x", "10"]), row(&["2", "B", "x", "bad"])];
    let mut records = Vec::new();
    let mut dropped = Vec::new();
    scan_table(&table(&["Share", "(%)"], 0, rows()), "P", "R", &mut records, &mut dropped);
    scan_table(&Table { header: Vec::new(), rows: rows() }, "Q (1)", "R", &mut records, &mut dropped);
    assert!(records.is_empty());
    assert_eq!(dropped.len(), 2);
    assert_eq!(dropped[0].country, "P");
    assert!(matches!(dropped[0].error, ScrapeError::PercentageUnit));
    assert_eq!(dropped[1].country, "Q (1)");
    assert!(matches!(dropped[1].error, ScrapeError::HeaderUnavailable));
}

#[test]
fn each_row_gives_a_record_or_a_failure() {
    let rows = vec![
        row(&["1", "A", "x", "10"]),
        row(&["2"]),
        row(&["3", "B", "x"]),
        row(&["4", "C", "x", "none"]),
        row(&["5", "D", "x", "7.5"]),
    ];
    let document = Document {
        headings: vec![cell(&["Chile"]), cell(&["Peru"]), cell(&["Cuba"])],
        tables: vec![
            table(&["Subscribers"], 0, rows),
            table(&["Subscribers", "(furlongs)"], 0, vec![row(&["1", "E", "x", "1"])]),
        ],
    };
    let report = scan_document(&document, "Americas");
    assert_eq!(names(&report.records), vec![pair("Chile", "A"), pair("Chile", "D")]);
    assert_eq!(report.dropped.len(), 4);
    assert!(matches!(report.dropped[0].error, ScrapeError::EmptyOperator));
    assert!(matches!(report.dropped[1].error, ScrapeError::SubscriberValueEmpty));
    match &report.dropped[2].error {
        ScrapeError::InvalidSubscriptions(operator) => assert_eq!(operator, "C"),
        other => panic!("{:?}", other),
    }
    match &report.dropped[3].error {
        ScrapeError::UnknownUnit(unit) => assert_eq!(unit, "(furlongs)"),
        other => panic!("{:?}", other),
    }
    let countries: Vec<&str> = report.dropped.iter().map(|f| f.country.as_str()).collect();
    assert_eq!(countries, vec!["Chile", "Chile", "Chile", "Peru"]);
    assert_eq!(report.records.len() + 3, 5);
    assert_eq!(parse_document(&document, "Americas"), report.records);
}
