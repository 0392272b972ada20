//! The part of a document that the tables are read from: headings and
//! tables, each cell as the texts that stand in it.

use vstd::prelude::*;

verus! {

/// The texts of a cell, in the order of the document.
pub type CellView = Seq<Seq<char>>;

/// The cells of a row, from left to right.
pub type RowView = Seq<Seq<Seq<char>>>;

/// A cell of a table, or a heading: the pieces of text that stand in it, in
/// the order of the document. A line break or an element inside the cell
/// parts one piece from the next.
#[derive(Debug, PartialEq, Eq)]
pub struct Cell {
    pub texts: Vec<String>,
}

impl View for Cell {
    type V = CellView;

    open spec fn view(&self) -> CellView {
        self.texts@.map_values(|text: String| text@)
    }
}

/// A row of a table: its data cells from left to right.
#[derive(Debug, PartialEq, Eq)]
pub struct Row {
    pub cells: Vec<Cell>,
}

impl View for Row {
    type V = RowView;

    open spec fn view(&self) -> RowView {
        self.cells@.map_values(|cell: Cell| cell@)
    }
}

/// A table: its header cells, and its rows from top to bottom, the row that
/// holds the header among them.
#[derive(Debug, PartialEq, Eq)]
pub struct Table {
    pub header: Vec<Cell>,
    pub rows: Vec<Row>,
}

/// What a [`Table`] holds.
pub struct TableView {
    pub header: Seq<CellView>,
    pub rows: Seq<RowView>,
}

impl View for Table {
    type V = TableView;

    open spec fn view(&self) -> TableView {
        TableView {
            header: self.header@.map_values(|cell: Cell| cell@),
            rows: self.rows@.map_values(|row: Row| row@),
        }
    }
}

/// The headings of a document and its tables, each in the order of the
/// document.
#[derive(Debug, PartialEq, Eq)]
pub struct Document {
    pub headings: Vec<Cell>,
    pub tables: Vec<Table>,
}

/// What a [`Document`] holds.
pub struct DocumentView {
    pub headings: Seq<CellView>,
    pub tables: Seq<TableView>,
}

impl View for Document {
    type V = DocumentView;

    open spec fn view(&self) -> DocumentView {
        DocumentView {
            headings: self.headings@.map_values(|cell: Cell| cell@),
            tables: self.tables@.map_values(|table: Table| table@),
        }
    }
}

} // verus!
