//! Conversion of chess games from Portable Game Notation (PGN) into a dense,
//! bit-packed binary representation, built around a verified move codec,
//! a memoizing move-text cache, a variation-tree builder and a file-level
//! builder that deduplicates board positions by hash.

pub mod cmbr;
pub mod convertor;
pub mod encoder;
pub mod error;
pub mod oracle;
pub mod pgn;
pub mod posmap;
pub mod position;
pub mod tree;
pub mod u24;
pub mod utils;
pub mod varmap;
