use vstd::prelude::*;

verus! {

/// A position in a YAML text.
#[derive(Clone, Copy, Debug, Eq, PartialEq, Structural)]
pub struct Marker {
    pub line: usize,
    pub col: usize,
}

impl Marker {
    /// The line of the position.
    pub fn line(&self) -> (result: usize)
        ensures
            result == self.line,
    {
        let Marker { line, .. } = self;
        *line
    }
}

} // verus!
