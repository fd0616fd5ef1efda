//! The PGN side of the pipeline: lexing raw bytes into tokens and building
//! the per-game variation tree.

pub mod ast;
pub mod errors;
pub mod headers;
pub mod lex;
pub mod tokens;
pub mod tree;

pub use ast::{build_pgn_ast, PgnGame, PgnToken, PgnVariation, VariationPointerT};
pub use lex::{lex_pgn, Token, TokenView};

use vstd::prelude::*;

verus! {

/// Lex a PGN input and build its per-game variation trees in one step.
pub fn parse_pgn(bytes: &[u8]) -> (r: Vec<PgnGame>)
    ensures
        r@.map_values(|g: PgnGame| ast::game_view(g)) == ast::spec_build(
            lex::spec_tokens(bytes@, lex::spec_lex_start(bytes@)),
        ),
{
    let tokens = lex_pgn(bytes);
    build_pgn_ast(tokens)
}

} // verus!
