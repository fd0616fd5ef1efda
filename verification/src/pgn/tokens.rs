use vstd::prelude::*;

verus! {

/// The outcome a game's result token names.
#[derive(Debug, Clone, Copy, PartialEq, Eq, Structural)]
pub enum PgnResult {
    Undefined,
    WhiteWon,
    BlackWon,
    Draw,
}

impl Default for PgnResult {
    /// An unknown outcome.
    fn default() -> (r: Self)
        ensures
            r == PgnResult::Undefined,
    {
        PgnResult::Undefined
    }
}

} // verus!
