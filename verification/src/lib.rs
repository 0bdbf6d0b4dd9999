//! Parsing of RIR Statistics Exchange Format (RSEF) listings: the
//! pipe-separated text files in which the Regional Internet Registries
//! publish their allocations of AS numbers and IP address blocks.
//!
//! [`read_all`] decodes the text of a listing into its entries, and
//! [`Registry::resolve`] tells where a registry publishes the listing of a
//! given day.

pub mod download;
pub mod entry;
pub mod laws;
pub mod listing;
pub mod number;
pub mod text;

pub use download::{Compression, Edition, FetchError, Registry, Source};
pub use entry::{Line, Record, Summary, Type, Version};
pub use listing::{parse_line, read_all, ParseError, ParseErrorKind, Shape};
pub use number::Decimal;
