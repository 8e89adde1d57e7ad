//! Source positions carried by syntax tree nodes.

use vstd::prelude::*;

verus! {

/// A place in the analysed source text. Lines and columns count from one.
#[derive(Clone, Copy, Debug, PartialEq, Eq, Structural)]
pub struct SourcePosition {
    pub line: u32,
    pub column: u32,
}

impl SourcePosition {
    /// The position at `line` and `column`.
    pub fn new(line: u32, column: u32) -> (at: SourcePosition)
        ensures
            at.line == line,
            at.column == column,
    {
        SourcePosition { line, column }
    }
}

} // verus!
