use vstd::prelude::*;

verus! {

/// A board position packed for the tensor exporter.
pub type CompressedPosition = Vec<u8>;

/// Conversion between a board type and its packed tensor form. The exporter
/// that implements this lives outside the conversion core.
pub trait CompressedPositionConvertable<T> {
    fn to_pytorch_position(s: &T) -> CompressedPosition;

    fn from_pytorch_position(position: &mut CompressedPosition) -> String;
}

} // verus!
