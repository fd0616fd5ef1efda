use vstd::prelude::*;
use crate::u24::u24;

verus! {

/// Flag bit: the move gives check.
pub const FLAG_CHECK: u8 = 0x01;

/// Flag bit: the move gives checkmate.
pub const FLAG_MATE: u8 = 0x02;

/// Flag bit: the move is a capture.
pub const FLAG_CAPTURE: u8 = 0x04;

/// Flag bit: the entry is a numeric-annotation pseudo-entry; bits 8 to 23
/// then hold the raw annotation numeral instead of piece and square fields.
pub const FLAG_NAG: u8 = 0x08;

/// Flag bit: the entry is a variation-pointer or move-annotation
/// pseudo-entry; bits 8 to 23 then hold the payload instead of piece and
/// square fields. Nothing in the value itself tells the two apart; the
/// surrounding list position does.
pub const FLAG_IS_VARIATION_POINTER: u8 = 0x80;

/// Promotion flag plus selector for each promotion target.
pub const FLAG_PROMOTES_BISHOP: u8 = 0x40;

pub const FLAG_PROMOTES_KNIGHT: u8 = 0x50;

pub const FLAG_PROMOTES_ROOK: u8 = 0x60;

pub const FLAG_PROMOTES_QUEEN: u8 = 0x70;

/// One of the six piece kinds a move can involve.
#[derive(Debug, Clone, Copy, PartialEq, Eq, Structural)]
pub enum PieceRole {
    Pawn,
    Knight,
    Bishop,
    Rook,
    Queen,
    King,
}

/// A check or checkmate suffix on a move's text.
#[derive(Debug, Clone, Copy, PartialEq, Eq, Structural)]
pub enum SanSuffix {
    Check,
    Checkmate,
}

/// A move as the rules oracle resolved it, reduced to plain values.
#[derive(Debug, Clone, PartialEq, Eq, Structural)]
pub enum ResolvedMove {
    Normal { role: PieceRole, from: u8, to: u8, capture: bool, promotion: Option<PieceRole> },
    EnPassant { from: u8, to: u8 },
    Castle { queenside: bool },
}

impl PieceRole {
    /// Position of the role within the piece nibble.
    pub open spec fn index(self) -> int {
        match self {
            PieceRole::Pawn => 0,
            PieceRole::Knight => 1,
            PieceRole::Bishop => 2,
            PieceRole::Rook => 3,
            PieceRole::Queen => 4,
            PieceRole::King => 5,
        }
    }
}

/// The two low flag bits carrying a check or checkmate suffix.
pub open spec fn spec_suffix_flags(s: Option<SanSuffix>) -> int {
    match s {
        None => 0,
        Some(SanSuffix::Check) => 1,
        Some(SanSuffix::Checkmate) => 2,
    }
}

/// The promotion nibble of the flags byte: the promotion flag bit together
/// with the two selector bits. A promotion to pawn or king never reaches an
/// encoder, whose preconditions rule both out.
pub open spec fn spec_promo_flags(p: Option<PieceRole>) -> int {
    match p {
        None => 0,
        Some(PieceRole::Bishop) => 0x40,
        Some(PieceRole::Knight) => 0x50,
        Some(PieceRole::Rook) => 0x60,
        Some(PieceRole::Queen) => 0x70,
        Some(PieceRole::Pawn) => 0,
        Some(PieceRole::King) => 0,
    }
}

/// A promotion target the bit layout can carry.
pub open spec fn spec_valid_promotion(p: Option<PieceRole>) -> bool {
    match p {
        None => true,
        Some(r) => r == PieceRole::Knight || r == PieceRole::Bishop || r == PieceRole::Rook || r
            == PieceRole::Queen,
    }
}

/// The piece nibble: bit 3 is the side to move, bits 0 to 2 the role.
pub open spec fn spec_piece_code(role: PieceRole, black: bool) -> int {
    role.index() + if black {
        8int
    } else {
        0int
    }
}

/// The flags byte of a normal move.
pub open spec fn spec_normal_flags(
    capture: bool,
    promotion: Option<PieceRole>,
    suffix: Option<SanSuffix>,
) -> int {
    spec_suffix_flags(suffix) + (if capture {
        4int
    } else {
        0int
    }) + spec_promo_flags(promotion)
}

/// The full 24-bit layout of a normal move: flags in bits 0 to 7, the piece
/// nibble in bits 8 to 11, origin square in bits 12 to 17, destination
/// square in bits 18 to 23.
pub open spec fn spec_encode_normal(
    role: PieceRole,
    black: bool,
    from: int,
    to: int,
    capture: bool,
    promotion: Option<PieceRole>,
    suffix: Option<SanSuffix>,
) -> int {
    spec_normal_flags(capture, promotion, suffix) + spec_piece_code(role, black) * 0x100 + from
        * 0x1000 + to * 0x40000
}

/// The castle encoding: bits 0 to 2 hold 0b100 for king side and 0b101 for
/// queen side, bit 3 the side to move, and a check or checkmate suffix is
/// or-ed into the same low bits, as the layout prescribes; a king-side
/// castle giving check therefore shares its bits with a plain queen-side
/// castle.
pub open spec fn spec_encode_castle(black: bool, queenside: bool, suffix: Option<SanSuffix>) -> int {
    (match (queenside, suffix) {
        (false, None) => 4int,
        (false, Some(SanSuffix::Check)) => 5int,
        (false, Some(SanSuffix::Checkmate)) => 6int,
        (true, None) => 5int,
        (true, Some(SanSuffix::Check)) => 5int,
        (true, Some(SanSuffix::Checkmate)) => 7int,
    }) + if black {
        8int
    } else {
        0int
    }
}

/// A numeric-annotation pseudo-entry: the numeral sits in bits 8 to 23
/// above the NAG flag bit.
pub open spec fn spec_encode_nag(numeral: int) -> int {
    FLAG_NAG as int + numeral * 0x100
}

/// A variation-pointer or move-annotation pseudo-entry: the payload sits in
/// bits 8 to 23 above the pointer flag bit.
pub open spec fn spec_encode_marker(payload: int) -> int {
    FLAG_IS_VARIATION_POINTER as int + payload * 0x100
}

/// Field extraction from a packed code: the flags byte.
pub open spec fn spec_flags_of(c: int) -> int {
    c % 0x100
}

/// Field extraction from a packed code: the piece nibble.
pub open spec fn spec_piece_of(c: int) -> int {
    (c / 0x100) % 0x10
}

/// Field extraction from a packed code: the origin square.
pub open spec fn spec_from_of(c: int) -> int {
    (c / 0x1000) % 0x40
}

/// Field extraction from a packed code: the destination square.
pub open spec fn spec_to_of(c: int) -> int {
    (c / 0x40000) % 0x40
}

/// The payload of a pseudo-entry: bits 8 to 23.
pub open spec fn spec_payload_of(c: int) -> int {
    c / 0x100
}

/// Encode a normal move into its packed form. En-passant captures reuse
/// this path with the role forced to pawn and capture forced true.
pub fn shakmaty_move_to_cmbr(
    role: PieceRole,
    from: u8,
    to: u8,
    capture: bool,
    promotion: Option<PieceRole>,
    suffix: Option<SanSuffix>,
    black: bool,
) -> (r: u24)
    requires
        from < 64,
        to < 64,
        spec_valid_promotion(promotion),
    ensures
        r@ == spec_encode_normal(role, black, from as int, to as int, capture, promotion, suffix),
{
    let suffix_bits: u32 = match suffix {
        None => 0,
        Some(SanSuffix::Check) => 1,
        Some(SanSuffix::Checkmate) => 2,
    };
    let promo_bits: u32 = match promotion {
        None => 0,
        Some(PieceRole::Bishop) => 0x40,
        Some(PieceRole::Knight) => 0x50,
        Some(PieceRole::Rook) => 0x60,
        Some(PieceRole::Queen) => 0x70,
        Some(PieceRole::Pawn) => 0,
        Some(PieceRole::King) => 0,
    };
    let capture_bits: u32 = if capture {
        4
    } else {
        0
    };
    let role_bits: u32 = match role {
        PieceRole::Pawn => 0,
        PieceRole::Knight => 1,
        PieceRole::Bishop => 2,
        PieceRole::Rook => 3,
        PieceRole::Queen => 4,
        PieceRole::King => 5,
    };
    let piece_bits: u32 = role_bits + if black {
        8
    } else {
        0
    };
    let value = suffix_bits + capture_bits + promo_bits + piece_bits * 0x100 + (from as u32)
        * 0x1000 + (to as u32) * 0x40000;
    u24::from_u32(value)
}

/// Encode a castling move into its packed form.
pub fn encode_castle_cmbr(black: bool, queenside: bool, suffix: Option<SanSuffix>) -> (r: u24)
    ensures
        r@ == spec_encode_castle(black, queenside, suffix),
{
    let pattern: u32 = if queenside {
        5
    } else {
        4
    };
    let suffix_bits: u32 = match suffix {
        None => 0,
        Some(SanSuffix::Check) => 1,
        Some(SanSuffix::Checkmate) => 2,
    };
    let side: u32 = if black {
        8
    } else {
        0
    };
    let low = pattern | suffix_bits;
    proof {
        let p = pattern;
        let s = suffix_bits;
        assert((p == 4 || p == 5) && s <= 2 ==> (p | s) == if p == 4 && s == 0 {
            4u32
        } else if p == 4 && s == 1 {
            5u32
        } else if p == 4 && s == 2 {
            6u32
        } else if s == 2 {
            7u32
        } else {
            5u32
        }) by (bit_vector);
    }
    u24::from_u32(low + side)
}

/// Encode a numeric-annotation pseudo-entry.
pub fn encode_nag_cmbr(numeral: u16) -> (r: u24)
    ensures
        r@ == spec_encode_nag(numeral as int),
{
    u24::from_u32(FLAG_NAG as u32 + (numeral as u32) * 0x100)
}

/// Encode a variation-pointer or move-annotation pseudo-entry.
pub fn encode_marker_cmbr(payload: u16) -> (r: u24)
    ensures
        r@ == spec_encode_marker(payload as int),
{
    u24::from_u32(FLAG_IS_VARIATION_POINTER as u32 + (payload as u32) * 0x100)
}

/// Split a packed code into its flags, piece, origin and destination fields.
pub fn decode_move_fields(c: u24) -> (r: (u8, u8, u8, u8))
    ensures
        r.0 == spec_flags_of(c@ as int),
        r.1 == spec_piece_of(c@ as int),
        r.2 == spec_from_of(c@ as int),
        r.3 == spec_to_of(c@ as int),
{
    let v = c.to_u32();
    let flags = (v % 0x100) as u8;
    let piece = ((v / 0x100) % 0x10) as u8;
    let from = ((v / 0x1000) % 0x40) as u8;
    let to = ((v / 0x40000) % 0x40) as u8;
    (flags, piece, from, to)
}

/// Unpacking one field of a value composed as `low + rest * scale`.
proof fn lemma_unpack(low: int, rest: int, scale: int)
    requires
        0 <= low < scale,
        0 <= rest,
    ensures
        (low + rest * scale) % scale == low,
        (low + rest * scale) / scale == rest,
{
    vstd::arithmetic::div_mod::lemma_fundamental_div_mod_converse(
        low + rest * scale,
        scale,
        rest,
        low,
    );
}

/// Encoding a normal move and reading the four bit fields back recovers the
/// move exactly: role, side to move, origin, destination, capture flag,
/// promotion selector and check or checkmate suffix.
pub proof fn lemma_normal_move_roundtrip(
    role: PieceRole,
    black: bool,
    from: int,
    to: int,
    capture: bool,
    promotion: Option<PieceRole>,
    suffix: Option<SanSuffix>,
)
    requires
        0 <= from < 64,
        0 <= to < 64,
        spec_valid_promotion(promotion),
    ensures
        ({
            let c = spec_encode_normal(role, black, from, to, capture, promotion, suffix);
            let flags = spec_flags_of(c);
            &&& spec_to_of(c) == to
            &&& spec_from_of(c) == from
            &&& spec_piece_of(c) % 8 == role.index()
            &&& spec_piece_of(c) / 8 == if black {
                1int
            } else {
                0int
            }
            &&& flags % 4 == spec_suffix_flags(suffix)
            &&& (flags / 4) % 2 == if capture {
                1int
            } else {
                0int
            }
            &&& (flags / 0x40) % 2 == if promotion is Some {
                1int
            } else {
                0int
            }
            &&& (promotion is Some ==> (flags / 0x10) % 4 == match promotion {
                Some(PieceRole::Bishop) => 0int,
                Some(PieceRole::Knight) => 1int,
                Some(PieceRole::Rook) => 2int,
                Some(PieceRole::Queen) => 3int,
                _ => arbitrary(),
            })
        }),
{
    let c = spec_encode_normal(role, black, from, to, capture, promotion, suffix);
    let flags = spec_normal_flags(capture, promotion, suffix);
    let piece = spec_piece_code(role, black);
    let q1 = piece + from * 0x10 + to * 0x400;
    assert(c == flags + q1 * 0x100) by (nonlinear_arith)
        requires
            c == flags + piece * 0x100 + from * 0x1000 + to * 0x40000,
            q1 == piece + from * 0x10 + to * 0x400,
    ;
    lemma_unpack(flags, q1, 0x100);
    assert(spec_flags_of(c) == flags);
    assert(c / 0x100 == q1);
    let q2 = from + to * 0x40;
    assert(q1 == piece + q2 * 0x10) by (nonlinear_arith)
        requires
            q1 == piece + from * 0x10 + to * 0x400,
            q2 == from + to * 0x40,
    ;
    lemma_unpack(piece, q2, 0x10);
    assert(q1 % 0x10 == piece);
    assert(spec_piece_of(c) == piece);
    lemma_unpack(from, to, 0x40);
    assert(q1 / 0x10 == q2);
    assert(c / 0x1000 == q2) by (nonlinear_arith)
        requires
            c / 0x100 == q1,
            q1 / 0x10 == q2,
            c >= 0,
    ;
    assert(spec_from_of(c) == from);
    assert(c / 0x40000 == to) by (nonlinear_arith)
        requires
            c / 0x1000 == q2,
            q2 / 0x40 == to,
            q2 % 0x40 == from,
            q2 == from + to * 0x40,
            c >= 0,
    ;
    assert(to % 0x40 == to);
    assert(spec_to_of(c) == to);
    // The piece nibble splits into role and colour.
    lemma_unpack(
        role.index(),
        if black {
            1int
        } else {
            0int
        },
        8,
    );
    // The flags byte splits into suffix, capture and promotion parts.
    let sfx = spec_suffix_flags(suffix);
    let cap = if capture {
        1int
    } else {
        0int
    };
    let promo = spec_promo_flags(promotion) / 0x10;
    assert(flags == (sfx + cap * 4) + promo * 0x10);
    lemma_unpack(sfx + cap * 4, promo, 0x10);
    lemma_unpack(sfx, cap, 4);
    assert(flags % 0x10 == sfx + cap * 4) by (nonlinear_arith)
        requires
            flags == (sfx + cap * 4) + promo * 0x10,
            0 <= sfx + cap * 4 < 0x10,
            0 <= promo,
    ;
    assert(flags % 4 == sfx) by (nonlinear_arith)
        requires
            flags % 0x10 == sfx + cap * 4,
            flags >= 0,
            0 <= sfx < 4,
            0 <= cap,
    ;
    assert((flags / 4) % 2 == cap) by (nonlinear_arith)
        requires
            flags == sfx + cap * 4 + promo * 0x10,
            0 <= sfx < 4,
            0 <= cap <= 1,
            0 <= promo <= 7,
    ;
    assert((flags / 0x40) % 2 == promo / 4) by (nonlinear_arith)
        requires
            flags == sfx + cap * 4 + promo * 0x10,
            0 <= sfx < 4,
            0 <= cap <= 1,
            0 <= promo <= 7,
    ;
    assert((flags / 0x10) % 4 == promo % 4) by (nonlinear_arith)
        requires
            flags == sfx + cap * 4 + promo * 0x10,
            0 <= sfx < 4,
            0 <= cap <= 1,
            0 <= promo <= 7,
    ;
}

/// Reading the payload back from a pseudo-entry recovers it, and the two
/// pseudo-entry kinds keep their distinguishing flag bits.
pub proof fn lemma_pseudo_entry_roundtrip(payload: int)
    requires
        0 <= payload <= 0xFFFF,
    ensures
        spec_payload_of(spec_encode_nag(payload)) == payload,
        spec_payload_of(spec_encode_marker(payload)) == payload,
        spec_flags_of(spec_encode_nag(payload)) == FLAG_NAG as int,
        spec_flags_of(spec_encode_marker(payload)) == FLAG_IS_VARIATION_POINTER as int,
{
    lemma_unpack(FLAG_NAG as int, payload, 0x100);
    lemma_unpack(FLAG_IS_VARIATION_POINTER as int, payload, 0x100);
}

/// Field values a resolved move must carry to be encodable.
pub open spec fn spec_resolved_wf(m: ResolvedMove) -> bool {
    match m {
        ResolvedMove::Normal { from, to, promotion, .. } => from < 64 && to < 64
            && spec_valid_promotion(promotion),
        ResolvedMove::EnPassant { from, to } => from < 64 && to < 64,
        ResolvedMove::Castle { .. } => true,
    }
}

/// The packed form of any resolved move: normal moves and en-passant
/// captures share the normal layout (en passant with the role forced to
/// pawn and capture forced true), castling has its own.
pub open spec fn spec_encode_resolved(
    m: ResolvedMove,
    suffix: Option<SanSuffix>,
    black: bool,
) -> int {
    match m {
        ResolvedMove::Normal { role, from, to, capture, promotion } => spec_encode_normal(
            role,
            black,
            from as int,
            to as int,
            capture,
            promotion,
            suffix,
        ),
        ResolvedMove::EnPassant { from, to } => spec_encode_normal(
            PieceRole::Pawn,
            black,
            from as int,
            to as int,
            true,
            None,
            suffix,
        ),
        ResolvedMove::Castle { queenside } => spec_encode_castle(black, queenside, suffix),
    }
}

/// Encode a resolved move into its packed form.
pub fn encode_resolved(m: &ResolvedMove, suffix: Option<SanSuffix>, black: bool) -> (r: u24)
    requires
        spec_resolved_wf(*m),
    ensures
        r@ == spec_encode_resolved(*m, suffix, black),
{
    match m {
        ResolvedMove::Normal { role, from, to, capture, promotion } => shakmaty_move_to_cmbr(
            *role,
            *from,
            *to,
            *capture,
            *promotion,
            suffix,
            black,
        ),
        ResolvedMove::EnPassant { from, to } => shakmaty_move_to_cmbr(
            PieceRole::Pawn,
            *from,
            *to,
            true,
            None,
            suffix,
            black,
        ),
        ResolvedMove::Castle { queenside } => encode_castle_cmbr(black, *queenside, suffix),
    }
}

} // verus!
