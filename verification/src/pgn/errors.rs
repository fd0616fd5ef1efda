use vstd::prelude::*;

verus! {

/// A place in a source file, for diagnostics.
#[derive(PartialEq, Eq, Clone, Debug)]
pub struct Location<'a> {
    pub file: &'a str,
    pub line: u32,
    pub col: u32,
}

/// A parse error with its code, message and place.
#[derive(PartialEq, Eq, Clone, Debug)]
pub struct PgnError<'a> {
    pub code: usize,
    pub message: String,
    pub location: Location<'a>,
}

} // verus!
