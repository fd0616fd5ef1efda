use vstd::prelude::*;

verus! {

/// Every error this library can report.
#[derive(Debug, Clone, Copy, PartialEq, Eq, Structural)]
pub enum LibCmbrErrorType {
    /// No error. Reachable only through `LibCmbrError::ok`.
    NoError,
    /// An internal invariant did not hold; reported instead of crashing.
    ShouldBeUnreachable,
    /// A Crazyhouse piece drop, which this format does not support.
    CrazyHouseNotSupported,
    /// Move text the rules oracle rejected against the current position.
    IllegalMove,
    /// Compressed container output, which is not implemented and is
    /// rejected rather than silently ignored.
    CompressedOutputNotSupported,
}

/// An error report carrying its kind.
#[derive(Debug, Clone, Copy, PartialEq, Eq, Structural)]
pub struct LibCmbrError {
    kind: LibCmbrErrorType,
}

impl LibCmbrError {
    /// Which kind of error this is.
    pub closed spec fn spec_kind(self) -> LibCmbrErrorType {
        self.kind
    }

    pub fn new(kind: LibCmbrErrorType) -> (r: Self)
        ensures
            r.spec_kind() == kind,
    {
        Self { kind }
    }

    /// The no-error value.
    pub fn ok() -> (r: Self)
        ensures
            r.spec_kind() == LibCmbrErrorType::NoError,
    {
        Self { kind: LibCmbrErrorType::NoError }
    }

    pub fn kind(&self) -> (r: LibCmbrErrorType)
        ensures
            r == self.spec_kind(),
    {
        self.kind
    }

    /// A short description of the error, in place of a formatter.
    pub fn message(&self) -> (r: &'static str)
        ensures
            r@ == match self.spec_kind() {
                LibCmbrErrorType::NoError => "ok"@,
                LibCmbrErrorType::ShouldBeUnreachable => "this should be unreachable"@,
                LibCmbrErrorType::CrazyHouseNotSupported => "crazyhouse is not supported yet"@,
                LibCmbrErrorType::IllegalMove => "move text is illegal in the current position"@,
                LibCmbrErrorType::CompressedOutputNotSupported => "creating compressed output is not supported"@,
            },
    {
        match self.kind {
            LibCmbrErrorType::NoError => "ok",
            LibCmbrErrorType::ShouldBeUnreachable => "this should be unreachable",
            LibCmbrErrorType::CrazyHouseNotSupported => "crazyhouse is not supported yet",
            LibCmbrErrorType::IllegalMove => "move text is illegal in the current position",
            LibCmbrErrorType::CompressedOutputNotSupported => "creating compressed output is not supported",
        }
    }
}

impl Default for LibCmbrError {
    /// The default error value is the no-error value.
    fn default() -> (r: Self)
        ensures
            r.spec_kind() == LibCmbrErrorType::NoError,
    {
        Self { kind: LibCmbrErrorType::NoError }
    }
}

} // verus!
