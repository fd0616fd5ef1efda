//! The rules oracle: every call into the chess crate that the conversion
//! relies on, each behind a single trusted declaration. Board positions,
//! parsed move text and resolved moves stay opaque values; the wrappers hand
//! the verified logic plain values (square indexes, role codes, flags) and
//! take plain values back.

use vstd::prelude::*;
use crate::encoder::SanSuffix;
use shakmaty::Position;

verus! {

#[verifier::external_type_specification]
#[verifier::external_body]
pub struct ExChess(shakmaty::Chess);

#[verifier::external_type_specification]
#[verifier::external_body]
pub struct ExSanPlus(shakmaty::san::SanPlus);

#[verifier::external_type_specification]
#[verifier::external_body]
pub struct ExMove(shakmaty::Move);

/// Relies on `Chess::default`: the starting position.
#[verifier::external_body]
pub(crate) fn board_default() -> shakmaty::Chess {
    shakmaty::Chess::default()
}

/// Whether byte text is syntactically valid SAN with an optional suffix: a
/// function of the text alone.
pub uninterp spec fn san_text_parses(s: Seq<u8>) -> bool;

/// Relies on `SanPlus::from_ascii`: parses move text with an optional check
/// or checkmate suffix, and rejects anything not syntactically valid. The
/// outcome depends on the bytes alone.
#[verifier::external_body]
pub(crate) fn san_parse(bytes: &[u8]) -> (r: Result<shakmaty::san::SanPlus, ()>)
    ensures
        r is Ok <==> san_text_parses(bytes@),
{
    match shakmaty::san::SanPlus::from_ascii(bytes) {
        Ok(sp) => Ok(sp),
        Err(_) => Err(()),
    }
}

/// Relies on the `suffix` field of `SanPlus`, whose variants are check and
/// checkmate.
#[verifier::external_body]
pub(crate) fn san_suffix(sp: &shakmaty::san::SanPlus) -> Option<SanSuffix> {
    match sp.suffix {
        Some(shakmaty::san::Suffix::Check) => Some(SanSuffix::Check),
        Some(shakmaty::san::Suffix::Checkmate) => Some(SanSuffix::Checkmate),
        None => None,
    }
}

/// Relies on `San::to_move`: resolves and disambiguates move text against a
/// position, rejecting illegal moves. The board is only read.
#[verifier::external_body]
pub(crate) fn san_to_move(sp: &shakmaty::san::SanPlus, board: &shakmaty::Chess) -> Result<
    shakmaty::Move,
    (),
> {
    match sp.san.to_move(board) {
        Ok(m) => Ok(m),
        Err(_) => Err(()),
    }
}

/// Relies on `Move::Put` being the only piece-drop variant.
#[verifier::external_body]
pub(crate) fn move_is_put(m: &shakmaty::Move) -> bool {
    matches!(m, shakmaty::Move::Put { .. })
}

/// Relies on `Move::Castle` being the castling variant.
#[verifier::external_body]
pub(crate) fn move_is_castle(m: &shakmaty::Move) -> bool {
    matches!(m, shakmaty::Move::Castle { .. })
}

/// Relies on `Move::EnPassant` being the en-passant capture variant.
#[verifier::external_body]
pub(crate) fn move_is_en_passant(m: &shakmaty::Move) -> bool {
    matches!(m, shakmaty::Move::EnPassant { .. })
}

/// Relies on `Move::castling_side`: queen side or king side for a castling
/// move, nothing for any other move.
#[verifier::external_body]
pub(crate) fn move_castle_is_queenside(m: &shakmaty::Move) -> bool {
    matches!(m.castling_side(), Some(shakmaty::CastlingSide::QueenSide))
}

/// Relies on `Move::role` and the role discriminants pawn 1 through king 6.
#[verifier::external_body]
pub(crate) fn move_role_code(m: &shakmaty::Move) -> (r: u8)
    ensures
        1 <= r <= 6,
{
    m.role() as u8
}

/// Relies on `Move::from`: the origin square, absent only for drops.
/// Squares are numbered 0 through 63.
#[verifier::external_body]
pub(crate) fn move_from_square(m: &shakmaty::Move) -> (r: Option<u8>)
    ensures
        r matches Some(v) ==> v < 64,
{
    m.from().map(|s| s as u8)
}

/// Relies on `Move::to`: the destination square, 0 through 63. For castling
/// moves this is the rook's square; the castle encoding never reads it.
#[verifier::external_body]
pub(crate) fn move_to_square(m: &shakmaty::Move) -> (r: u8)
    ensures
        r < 64,
{
    m.to() as u8
}

/// Relies on `Move::is_capture`, which also covers en-passant captures.
#[verifier::external_body]
pub(crate) fn move_is_capture(m: &shakmaty::Move) -> bool {
    m.is_capture()
}

/// Relies on `Move::promotion` and the role discriminants: zero when the
/// move promotes nothing, otherwise the promoted role's code 1 through 6.
#[verifier::external_body]
pub(crate) fn move_promotion_code(m: &shakmaty::Move) -> (r: u8)
    ensures
        r <= 6,
{
    match m.promotion() {
        Some(role) => role as u8,
        None => 0,
    }
}

/// Relies on `Position::is_legal` and `Position::play_unchecked`: a move
/// legal in the position is applied, advancing the position by one ply; any
/// other move is refused and leaves the position unchanged, since applying
/// it unchecked may corrupt the position or panic.
#[verifier::external_body]
pub(crate) fn board_play(board: &mut shakmaty::Chess, m: &shakmaty::Move) -> (r: bool)
    ensures
        !r ==> *final(board) == *old(board),
{
    if board.is_legal(*m) {
        board.play_unchecked(*m);
        true
    } else {
        false
    }
}

/// Relies on `Position::turn`.
#[verifier::external_body]
pub(crate) fn board_turn_is_black(board: &shakmaty::Chess) -> bool {
    board.turn() == shakmaty::Color::Black
}

/// Relies on `Position::zobrist_hash` with legal en-passant mode: a stable
/// 32-bit fingerprint of the position, fit for transposition detection.
#[verifier::external_body]
pub(crate) fn board_zobrist32(board: &shakmaty::Chess) -> u32 {
    board.zobrist_hash::<shakmaty::zobrist::Zobrist32>(shakmaty::EnPassantMode::Legal).0
}

/// Relies on `Board::board_fen`: the piece-placement field of a FEN.
#[verifier::external_body]
pub(crate) fn board_fen_bytes(board: &shakmaty::Chess) -> Vec<u8> {
    format!("{}", board.board().board_fen()).into_bytes()
}

/// Relies on `Castles::has`: whether the given side may still castle on the
/// given wing.
#[verifier::external_body]
pub(crate) fn board_has_castling(board: &shakmaty::Chess, white: bool, kingside: bool) -> bool {
    let color = if white {
        shakmaty::Color::White
    } else {
        shakmaty::Color::Black
    };
    let side = if kingside {
        shakmaty::CastlingSide::KingSide
    } else {
        shakmaty::CastlingSide::QueenSide
    };
    board.castles().has(color, side)
}

/// Relies on `Position::ep_square` with legal en-passant mode, rendered
/// through the square's display form such as `e3`.
#[verifier::external_body]
pub(crate) fn board_ep_square_bytes(board: &shakmaty::Chess) -> Option<Vec<u8>> {
    board.ep_square(shakmaty::EnPassantMode::Legal).map(|s| s.to_string().into_bytes())
}

/// Relies on `Fen::from_ascii` and `Fen::into_position` with standard
/// castling: rebuilds a position from FEN text, accepting the partial FEN
/// this library stores, and rejects text that holds no valid position.
#[verifier::external_body]
pub(crate) fn board_from_fen(fen: &[u8]) -> Option<shakmaty::Chess> {
    let parsed = shakmaty::fen::Fen::from_ascii(fen).ok()?;
    parsed.into_position(shakmaty::CastlingMode::Standard).ok()
}

} // verus!
