//! The CMBR side of the pipeline: the packed aggregate and the builder that
//! walks parsed games, drives the move convertor, and deduplicates board
//! positions by hash.

pub mod pgntocmbr;
pub mod structs;

pub use structs::{CmbrFen, CmbrFile, CmbrGame, CmbrMv, CmbrVariation};
