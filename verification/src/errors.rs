//! Error types: a source position for front-end diagnostics, and the
//! per-instance run-time failures of the execution engine.

use vstd::prelude::*;

verus! {

/// A row/column position inside a textual pattern source, as reported by
/// whatever front end produced the document.
#[derive(Copy, Clone, Eq, PartialEq, Structural, Debug)]
pub struct ParseErrorPos {
    pub row: u32,
    pub col: u32,
}

impl ParseErrorPos {
    /// The one-based source row.
    pub fn row(&self) -> (r: u32)
        ensures
            r == self.row,
    {
        self.row
    }

    /// The one-based source column.
    pub fn col(&self) -> (r: u32)
        ensures
            r == self.col,
    {
        self.col
    }
}

/// A failure raised while a pattern instance is being stepped.  Such a
/// failure is recoverable per instance: the engine that raised it marks
/// itself ended and reports the failure to the host instead of aborting
/// the whole run.
#[derive(PartialEq, Eq, Debug)]
pub enum RunError {
    /// A labeled reference was executed but no definition with that label
    /// exists in the document at the moment of resolution.
    DanglingReference(String),
    /// An expression asked for the positional parameter with this one-based
    /// index, which lies outside the active parameter list.
    ParameterOutOfRange(u32),
    /// A construct is missing a child it needs in order to act (for example
    /// a repeat without a times child), or the tree under a cursor is not a
    /// tree the engine can walk.
    MalformedSubtree(u32),
}

} // verus!
