//! The conditions that end a scan.

use vstd::prelude::*;

verus! {

/// Why a document could not be read. Each of these ends the scan of the
/// document at once; no table of it is handed out.
#[derive(Clone, Copy, Debug, PartialEq, Eq, Structural)]
pub enum ParseError {
    /// A delimited span has no balanced close, or does not open where one
    /// is expected.
    UnbalancedSpan,
    /// A conditional region begins inside another, or an `else` or an end
    /// stands where no matching region is open.
    ConditionMisuse,
    /// A description defines a footnote in a table whose caption has
    /// defined its footnotes already.
    FootnoteConflict,
    /// A caption defines more footnotes than a table can hold.
    TooManyFootnotes,
    /// A footnote is referred to that the table does not have.
    MissingFootnote,
    /// A description with a deprecation-conditional span stands under the
    /// imaging-subset condition.
    UnsupportedCondition,
    /// Two matching entries that would be merged carry the same condition.
    DuplicateEntry,
    /// A row expands through more levels than the expansion allows.
    ExpansionTooDeep,
    /// The text does not have the shape that the macro at hand asks for.
    Malformed,
}

} // verus!
