use carriers::error::ScrapeError;
use carriers::record::CarrierRecord;
use carriers::row::parse_carrier;
use carriers::table::{Cell, Row};

fn cell(texts: &[&str]) -> Cell {
    Cell { texts: texts.iter().map(|text| text.to_string()).collect() }
}

fn row(cells: &[&str]) -> Row {
    Row { cells: cells.iter().map(|text| cell(&[text])).collect() }
}

fn fields(record: &CarrierRecord) -> (String, String, String, String, usize, u32) {
    (
        record.operator().to_string(),
        record.country().to_string(),
        record.region().to_string(),
        record.subscribers().literal().to_string(),
        record.subscribers().multiplier(),
        record.mccmnc(),
    )
}

fn expect(operator: &str, country: &str, region: &str, literal: &str, multiplier: usize, code: u32)
    -> (String, String, String, String, usize, u32)
{
    (operator.to_string(), country.to_string(), region.to_string(), literal.to_string(), multiplier, code)
}

#[test]
fn row_of_four_cells_gives_a_record() {
    let record = parse_carrier(&row(&["1", "Operator X", "GSM", "5.2"]), "Finland", "Europe", 1_000_000, false)
        .expect("a record");
    assert_eq!(fields(&record), expect("Operator X", "Finland", "Europe", "5.2", 1_000_000, 0));
    let count = record.subscribers().literal().parse::<f64>().unwrap()
        * record.subscribers().multiplier() as f64;
    assert_eq!(count, 5200000.0);
}

#[test]
fn names_lose_their_notes_and_the_region_does_not() {
    let record = parse_carrier(
        &row(&["1", "Operator X (3)", "GSM", "5.2"]),
        "Finland\\n",
        "Europe (west)",
        1,
        false,
    )
    .expect("a record");
    assert_eq!(fields(&record), expect("Operator X", "Finland", "Europe (west)", "5.2", 1, 0));
}

#[test]
fn names_end_in_no_note() {
    let record = parse_carrier(
        &row(&["1", "Telia (ex Sonera)", "GSM", "5.2"]),
        "Åland (Finland) (1)\\n",
        "Europe\\n",
        1,
        false,
    )
    .expect("a record");
    assert_eq!(fields(&record), expect("Telia", "Åland", "Europe\\n", "5.2", 1, 0));
}

#[test]
fn only_the_first_text_of_a_cell_is_read() {
    let cells = vec![
        cell(&["1"]),
        cell(&["Telia", "[1]"]),
        cell(&[]),
        cell(&["3.1", "[2]", "x"]),
        cell(&["unused"]),
        cell(&["24491", "24405"]),
    ];
    let record = parse_carrier(&Row { cells }, "Finland", "Europe", 1_000, true).expect("a record");
    assert_eq!(fields(&record), expect("Telia", "Finland", "Europe", "3.1", 1_000, 24491));
}

#[test]
fn no_multiplier_is_a_percentage_unit() {
    let found = parse_carrier(&row(&["1", "Operator X", "GSM", "5.2"]), "Finland", "Europe", 0, false);
    assert!(matches!(found, Err(ScrapeError::PercentageUnit)));
    let found = parse_carrier(&row(&[]), "Finland", "Europe", 0, true);
    assert!(matches!(found, Err(ScrapeError::PercentageUnit)));
}

#[test]
fn row_without_operator_has_an_empty_operator() {
    let found = parse_carrier(&row(&["1"]), "Finland", "Europe", 1, false);
    assert!(matches!(found, Err(ScrapeError::EmptyOperator)));
    let found = parse_carrier(&row(&[]), "Finland", "Europe", 1, false);
    assert!(matches!(found, Err(ScrapeError::EmptyOperator)));
    let cells = vec![cell(&["1"]), cell(&[]), cell(&["GSM"]), cell(&["5"])];
    let found = parse_carrier(&Row { cells }, "Finland", "Europe", 1, false);
    assert!(matches!(found, Err(ScrapeError::EmptyOperator)));
}

#[test]
fn row_without_subscriber_text_has_an_empty_value() {
    let found = parse_carrier(&row(&["1", "Operator X", "GSM"]), "Finland", "Europe", 1, false);
    assert!(matches!(found, Err(ScrapeError::SubscriberValueEmpty)));
    let found = parse_carrier(&row(&["1", "Operator X"]), "Finland", "Europe", 1, false);
    assert!(matches!(found, Err(ScrapeError::SubscriberValueEmpty)));
    let cells = vec![cell(&["1"]), cell(&["Operator X"]), cell(&["GSM"]), cell(&[])];
    let found = parse_carrier(&Row { cells }, "Finland", "Europe", 1, false);
    assert!(matches!(found, Err(ScrapeError::SubscriberValueEmpty)));
}

#[test]
fn subscriber_text_must_start_with_a_digit() {
    for text in [",345", "n/a", "", "   ", "approx. 5", ".5", "-3", "1.2.3"] {
        let found = parse_carrier(&row(&["1", "Operator X (1)", "GSM", text]), "Finland", "Europe", 1, false);
        match found {
            Err(ScrapeError::InvalidSubscriptions(operator)) => assert_eq!(operator, "Operator X (1)"),
            other => panic!("{:?}: {:?}", text, other),
        }
    }
}

#[test]
fn number_ends_where_other_text_begins() {
    let record = parse_carrier(&row(&["1", "A", "GSM", "12,345"]), "B", "C", 1, false).expect("a record");
    assert_eq!(fields(&record), expect("A", "B", "C", "12", 1, 0));
    let record = parse_carrier(&row(&["1", "A", "GSM", "1.5 million"]), "B", "C", 1_000, false)
        .expect("a record");
    assert_eq!(fields(&record), expect("A", "B", "C", "1.5", 1_000, 0));
    let count = record.subscribers().literal().parse::<f64>().unwrap()
        * record.subscribers().multiplier() as f64;
    assert_eq!(count, 1500.0);
    let record = parse_carrier(&row(&["1", "A", "GSM", "1 234 567"]), "B", "C", 1, false)
        .expect("a record");
    assert_eq!(fields(&record), expect("A", "B", "C", "1234567", 1, 0));
}

#[test]
fn code_is_read_from_the_last_cell() {
    let cells = ["1", "Operator X", "GSM", "5.2", "State", "24405"];
    let record = parse_carrier(&row(&cells), "Finland", "Europe", 1_000_000, true).expect("a record");
    assert_eq!(record.mccmnc(), 24405);
    let record = parse_carrier(&row(&cells), "Finland", "Europe", 1_000_000, false).expect("a record");
    assert_eq!(record.mccmnc(), 0);
    let record = parse_carrier(&row(&["1", "Operator X", "GSM", "5.2", "24405"]), "Finland", "Europe", 1, true)
        .expect("a record");
    assert_eq!(record.mccmnc(), 24405);
}

#[test]
fn code_is_zero_where_the_last_cell_holds_none() {
    for last in ["2440", "", "n/a  x", "24-405", "abcde"] {
        let record = parse_carrier(&row(&["1", "A", "GSM", "5.2", "x", last]), "B", "C", 1, true)
            .expect("a record");
        assert_eq!(record.mccmnc(), 0, "{:?}", last);
    }
    let record = parse_carrier(&row(&["1", "A", "GSM", "52440"]), "B", "C", 1, true).expect("a record");
    assert_eq!(record.mccmnc(), 0);
    let cells = vec![cell(&["1"]), cell(&["A"]), cell(&["GSM"]), cell(&["5"]), cell(&[])];
    let record = parse_carrier(&Row { cells }, "B", "C", 1, true).expect("a record");
    assert_eq!(record.mccmnc(), 0);
}

#[test]
fn record_is_made_with_its_names_cleaned() {
    let subscribers = carriers::subscribers::Subscribers::read("40", 1_000).expect("a count");
    let record = CarrierRecord::new("Vodafone (UK)", "United Kingdom (2)", "Europe", subscribers, 23415);
    assert_eq!(fields(&record), expect("Vodafone", "United Kingdom", "Europe", "40", 1_000, 23415));
}
