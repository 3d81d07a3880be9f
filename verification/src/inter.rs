use vstd::prelude::*;

verus! {

/// Where in a grammar description a rule was written down. It is kept for diagnostics only.
#[derive(Debug)]
pub struct ILocation {
    pub filename: String,
    pub line: u32,
    pub column: u32,
}

impl Clone for ILocation {
    fn clone(&self) -> (copy: Self)
        ensures
            copy == *self,
    {
        ILocation { filename: self.filename.clone(), line: self.line, column: self.column }
    }
}

/// The range of subject text that one capture group of a match covers, in bytes, as the
/// matching engine reports it.
#[derive(Debug, Clone, Copy, PartialEq, Eq, Structural)]
pub struct CaptureIndex {
    pub start: usize,
    pub end: usize,
    pub length: usize,
}

} // verus!
