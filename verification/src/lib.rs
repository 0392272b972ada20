//! Carrier records from the operator tables of a marked-up document.
//!
//! A document lists countries as headings, each followed by a table of the
//! mobile network operators of that country. The library reads the headings
//! and tables out of the markup, resolves the unit in which a table counts
//! its subscribers, and turns each row into a [`record::CarrierRecord`].
//! A table whose unit cannot be resolved and a row that cannot be read are
//! left out; the rest of the document is read all the same.

pub mod carriers;
pub mod code;
pub mod csv;
pub mod dom;
pub mod driver;
pub mod error;
pub mod format;
pub mod header;
pub mod normalize;
pub mod record;
pub mod row;
pub mod subscribers;
pub mod table;
pub mod text;

