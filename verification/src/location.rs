use vstd::prelude::*;

verus! {

/// A one-based (line, column) coordinate in the source text, captured at the
/// first character of a lexeme and used for diagnostics and for stamping
/// syntax-tree nodes. Immutable once captured.
#[derive(Clone, Copy, Debug, PartialEq, Eq, Structural)]
pub struct Location {
    /// The (1-based) line offset.
    pub line: usize,

    /// The (1-based) character offset.
    pub column: usize,
}

/// The mathematical model of a `Location`: the same coordinate over
/// unbounded integers.
pub ghost struct LocV {
    pub line: int,
    pub column: int,
}

impl View for Location {
    type V = LocV;

    open spec fn view(&self) -> LocV {
        LocV { line: self.line as int, column: self.column as int }
    }
}

impl Location {
    pub fn new(line: usize, column: usize) -> (r: Self)
        ensures
            r.line == line,
            r.column == column,
    {
        Self { line, column }
    }
}

} // verus!
