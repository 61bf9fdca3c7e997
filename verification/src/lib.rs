//! Turns comma-separated text into a fixed-width, pipe-delimited markdown
//! table.
//!
//! The conversion has three stages, one module each:
//!
//! * [`ingest`] parses the bytes of the source into rows and measures the
//!   columns;
//! * [`render`] lays the rows out as aligned lines, with a separator line
//!   after the header;
//! * [`sink`] decides how the finished text is handed over.
//!
//! [`convert`] runs ingest and render in one call. [`layout`] and [`widths`]
//! hold the mathematical model that the contracts of the executable
//! functions are stated over, and the facts proved about it: every line of a
//! table is equally long, the separator has one run of dashes per column,
//! widths only grow as rows are added.
//!
//! Rows that do not line up with the header are rejected when the table is
//! ingested, so the renderer only ever sees rows with one field per column.

pub mod convert;
pub mod error;
pub mod ingest;
pub mod layout;
pub mod render;
pub mod sink;
pub mod widths;

pub use convert::{csv_to_markdown, table_to_markdown};
pub use error::IngestError;
pub use ingest::read_csv;
pub use render::{first_col, first_row, print_data, sep_row, vec_to_string};
pub use sink::{deliver, Delivery};
pub use widths::measure;
