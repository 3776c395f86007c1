//! Extraction of state-query tables from macro documents: a reader for
//! brace-delimited cells, a tracker for conditional regions, the expansion
//! of parameterised rows, the normalisation of entries, a parser for the
//! compact type language, and the merging of complementary entries.

pub mod cell;
pub mod compact;
pub mod dedup;
pub mod document;
pub mod entry;
pub mod error;
pub mod laws;
pub mod normalize;
pub mod number;
pub mod process;
pub mod render;
pub mod row;
pub mod scan;
pub mod table;
pub mod text;
pub mod types;
pub mod unescape;
