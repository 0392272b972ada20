//! Reading carriers out of markup.

use vstd::prelude::*;
use scraper::{ElementRef, Selector};
use crate::dom::{
    byte_len, element_matches, element_texts, fragment_matches, fragment_tree, parse_fragment,
    parse_selector, select_in_element, select_in_fragment, selector_for, text_of,
    MAX_MARKUP_BYTES,
};
use crate::driver::{
    document_failures, document_records, dropped_views, scan_document, views, Dropped,
    DroppedView, Report,
};
use crate::record::{CarrierRecord, RecordView};
use crate::table::{Cell, CellView, Document, DocumentView, Row, RowView, Table, TableView};

verus! {

/// The selector that `css` stands for. It means something only where `css`
/// is a selector.
pub open spec fn selector(css: Seq<char>) -> Selector {
    selector_for(css)->0
}

/// The five selectors by which a document is read are selectors indeed.
pub open spec fn selectors_hold() -> bool {
    &&& selector_for("h2"@) is Some
    &&& selector_for("table[class^=wikitable]"@) is Some
    &&& selector_for("th"@) is Some
    &&& selector_for("tr"@) is Some
    &&& selector_for("td"@) is Some
}

/// The cells that `elements` are.
pub open spec fn cells_of(elements: Seq<ElementRef<'static>>) -> Seq<CellView> {
    elements.map_values(|element: ElementRef<'static>| element_texts(element))
}

/// The row that the element `row` is: the `td` elements in it.
pub open spec fn row_of(row: ElementRef<'static>) -> RowView {
    cells_of(element_matches(row, selector("td"@)))
}

/// The table that the element `table` is: as header the `th` elements in
/// it, and as rows its `tr` elements.
pub open spec fn table_of(table: ElementRef<'static>) -> TableView {
    TableView {
        header: cells_of(element_matches(table, selector("th"@))),
        rows: element_matches(table, selector("tr"@)).map_values(
            |row: ElementRef<'static>| row_of(row),
        ),
    }
}

/// The document that `markup` holds: as headings its `h2` elements, and as
/// tables its `table` elements of a class that starts with `wikitable`.
pub open spec fn document_of(markup: Seq<char>) -> DocumentView {
    let tree = fragment_tree(markup);
    DocumentView {
        headings: cells_of(fragment_matches(tree, selector("h2"@))),
        tables: fragment_matches(tree, selector("table[class^=wikitable]"@)).map_values(
            |table: ElementRef<'static>| table_of(table),
        ),
    }
}

/// `markup` is short enough to be read: it takes [`MAX_MARKUP_BYTES`] bytes
/// at most.
pub open spec fn readable(markup: Seq<char>) -> bool {
    byte_len(markup) <= MAX_MARKUP_BYTES
}

/// The records of a page: those of its document, and none for a page that
/// is too long to be read.
pub open spec fn page_records(markup: Seq<char>, region: Seq<char>) -> Seq<RecordView> {
    if readable(markup) {
        document_records(document_of(markup), region)
    } else {
        Seq::empty()
    }
}

/// The failures of a page: those of its document, and none for a page that
/// is too long to be read.
pub open spec fn page_failures(markup: Seq<char>, region: Seq<char>) -> Seq<DroppedView> {
    if readable(markup) {
        document_failures(document_of(markup), region)
    } else {
        Seq::empty()
    }
}

/// A page of markup and the region whose countries it lists.
#[derive(Debug, PartialEq, Eq)]
pub struct Page {
    pub region: String,
    pub markup: String,
}

/// The records of the first `upto` pages, page after page.
pub open spec fn pages_records(pages: Seq<Page>, upto: int) -> Seq<RecordView>
    decreases upto,
{
    if upto <= 0 {
        Seq::empty()
    } else {
        pages_records(pages, upto - 1) + page_records(
            pages[upto - 1].markup@,
            pages[upto - 1].region@,
        )
    }
}

/// The failures of the first `upto` pages, page after page.
pub open spec fn pages_failures(pages: Seq<Page>, upto: int) -> Seq<DroppedView>
    decreases upto,
{
    if upto <= 0 {
        Seq::empty()
    } else {
        pages_failures(pages, upto - 1) + page_failures(
            pages[upto - 1].markup@,
            pages[upto - 1].region@,
        )
    }
}

/// Two runs over the same markup for the same region give the same records
/// in the same order.
pub proof fn lemma_runs_agree(
    first: Seq<CarrierRecord>,
    second: Seq<CarrierRecord>,
    markup: Seq<char>,
    region: Seq<char>,
)
    requires
        views(first) == page_records(markup, region),
        views(second) == page_records(markup, region),
    ensures
        first.len() == second.len(),
        forall|i: int| 0 <= i < first.len() ==> first[i]@ == second[i]@,
{
    assert(views(first).len() == first.len());
    assert(views(second).len() == second.len());
    assert forall|i: int| 0 <= i < first.len() implies first[i]@ == second[i]@ by {
        assert(views(first)[i] == first[i]@);
        assert(views(second)[i] == second[i]@);
    }
}

/// The reader of carrier tables, with the selectors it reads by.
pub struct Carriers {
    th_selector: Selector,
    td_selector: Selector,
    h2_selector: Selector,
    tr_selector: Selector,
    table_selector: Selector,
}

impl Carriers {
    #[verifier::type_invariant]
    closed spec fn well_formed(&self) -> bool {
        &&& selector_for("th"@) == Some(self.th_selector)
        &&& selector_for("td"@) == Some(self.td_selector)
        &&& selector_for("h2"@) == Some(self.h2_selector)
        &&& selector_for("tr"@) == Some(self.tr_selector)
        &&& selector_for("table[class^=wikitable]"@) == Some(self.table_selector)
    }

    /// Makes a reader. There is one where the selector parser takes each of
    /// the five selectors.
    pub fn new() -> (carriers: Option<Carriers>)
        ensures
            carriers is Some <==> selectors_hold(),
    {
        let th_selector = parse_selector("th")?;
        let td_selector = parse_selector("td")?;
        let h2_selector = parse_selector("h2")?;
        let tr_selector = parse_selector("tr")?;
        let table_selector = parse_selector("table[class^=wikitable]")?;
        Some(Carriers { th_selector, td_selector, h2_selector, tr_selector, table_selector })
    }

    /// The cells that `elements` are.
    fn read_cells(elements: &Vec<ElementRef<'_>>) -> (cells: Vec<Cell>)
        ensures
            cells@.map_values(|cell: Cell| cell@) == cells_of(elements@),
    {
        let mut cells: Vec<Cell> = Vec::new();
        let mut at: usize = 0;
        while at < elements.len()
            invariant
                at <= elements.len(),
                cells.len() == at,
                forall|i: int| 0 <= i < at ==> (#[trigger] cells@[i])@ == element_texts(elements@[i]),
            decreases elements.len() - at,
        {
            cells.push(Cell { texts: text_of(&elements[at]) });
            at += 1;
        }
        assert(cells@.map_values(|cell: Cell| cell@) =~= cells_of(elements@));
        cells
    }

    /// The table that the element `table` is.
    fn read_table(&self, table: &ElementRef<'_>) -> (read: Table)
        ensures
            read@ == table_of(*table),
    {
        proof {
            use_type_invariant(self);
        }
        let header = Self::read_cells(&select_in_element(table, &self.th_selector));
        let elements = select_in_element(table, &self.tr_selector);
        let mut rows: Vec<Row> = Vec::new();
        let mut at: usize = 0;
        while at < elements.len()
            invariant
                at <= elements.len(),
                rows.len() == at,
                selector_for("td"@) == Some(self.td_selector),
                forall|i: int| 0 <= i < at ==> (#[trigger] rows@[i])@ == row_of(elements@[i]),
            decreases elements.len() - at,
        {
            let cells = Self::read_cells(&select_in_element(&elements[at], &self.td_selector));
            rows.push(Row { cells });
            at += 1;
        }
        let read = Table { header, rows };
        assert(read@.rows =~= table_of(*table).rows);
        read
    }

    /// Reads the headings and the tables out of `markup`. Markup of more
    /// than [`MAX_MARKUP_BYTES`] bytes is not read, and gives nothing.
    pub fn read_document(&self, markup: &str) -> (document: Option<Document>)
        ensures
            match document {
                Some(document) => readable(markup@) && document@ == document_of(markup@),
                None => !readable(markup@),
            },
    {
        proof {
            use_type_invariant(self);
        }
        if markup.as_bytes().len() > MAX_MARKUP_BYTES {
            return None;
        }
        let tree = parse_fragment(markup);
        let headings = Self::read_cells(&select_in_fragment(&tree, &self.h2_selector));
        let elements = select_in_fragment(&tree, &self.table_selector);
        let mut tables: Vec<Table> = Vec::new();
        let mut at: usize = 0;
        while at < elements.len()
            invariant
                at <= elements.len(),
                tables.len() == at,
                forall|i: int| 0 <= i < at ==> (#[trigger] tables@[i])@ == table_of(elements@[i]),
            decreases elements.len() - at,
        {
            let table = self.read_table(&elements[at]);
            tables.push(table);
            at += 1;
        }
        let document = Document { headings, tables };
        assert(document@.tables =~= document_of(markup@).tables);
        Some(document)
    }

    /// Reads the carriers out of the markup of one page, whose countries lie
    /// in `region`, and gives the records together with the failures. A
    /// page that is too long to be read gives neither.
    pub fn scan_page(&self, markup: &str, region: &str) -> (report: Report)
        ensures
            views(report.records@) == page_records(markup@, region@),
            dropped_views(report.dropped@) == page_failures(markup@, region@),
    {
        match self.read_document(markup) {
            Some(document) => scan_document(&document, region),
            None => Report { records: Vec::new(), dropped: Vec::new() },
        }
    }

    /// Reads the carriers out of the markup of one page, whose countries lie
    /// in `region`. What fails is left out.
    pub fn parse_page(&self, markup: &str, region: &str) -> (records: Vec<CarrierRecord>)
        ensures
            views(records@) == page_records(markup@, region@),
    {
        self.scan_page(markup, region).records
    }

    /// Reads the carriers out of `pages`, page after page, and gives the
    /// records together with the failures, each in the order of the pages.
    pub fn scan(&self, pages: &Vec<Page>) -> (report: Report)
        ensures
            views(report.records@) == pages_records(pages@, pages.len() as int),
            dropped_views(report.dropped@) == pages_failures(pages@, pages.len() as int),
    {
        let mut records: Vec<CarrierRecord> = Vec::new();
        let mut dropped: Vec<Dropped> = Vec::new();
        let mut at: usize = 0;
        assert(views(records@) == pages_records(pages@, 0));
        assert(dropped_views(dropped@) == pages_failures(pages@, 0));
        while at < pages.len()
            invariant
                at <= pages.len(),
                views(records@) == pages_records(pages@, at as int),
                dropped_views(dropped@) == pages_failures(pages@, at as int),
            decreases pages.len() - at,
        {
            let ghost before = records@;
            let ghost failed = dropped@;
            let mut found = self.scan_page(pages[at].markup.as_str(), pages[at].region.as_str());
            let ghost added = found.records@;
            let ghost added_failures = found.dropped@;
            records.append(&mut found.records);
            dropped.append(&mut found.dropped);
            assert(views(records@) == views(before) + views(added));
            assert(dropped_views(dropped@) == dropped_views(failed) + dropped_views(
                added_failures,
            ));
            at += 1;
        }
        Report { records, dropped }
    }

    /// Reads the carriers out of `pages`, page after page. What fails is
    /// left out.
    pub fn parse(&self, pages: &Vec<Page>) -> (records: Vec<CarrierRecord>)
        ensures
            views(records@) == pages_records(pages@, pages.len() as int),
    {
        self.scan(pages).records
    }
}

} // verus!
