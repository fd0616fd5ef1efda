use libcmbr::encoder::{
    decode_move_fields, encode_castle_cmbr, encode_marker_cmbr, encode_nag_cmbr,
    shakmaty_move_to_cmbr, PieceRole, SanSuffix,
};
use libcmbr::u24::u24;

// Square indexes, file-major within each rank from square a1 as zero.
const E2: u8 = 12;
const E4: u8 = 28;
const B7: u8 = 49;
const B8: u8 = 57;
const D7: u8 = 51;
const D8: u8 = 59;
const C7: u8 = 50;
const C8: u8 = 58;
const A7: u8 = 48;
const A8: u8 = 56;

#[test]
fn test_encode_decode_fields_roundtrip() {
    // Encoding then reading the four bit fields back recovers the move.
    let cases: [(PieceRole, u8, u8, bool, Option<PieceRole>, Option<SanSuffix>, bool); 4] = [
        (PieceRole::Pawn, E2, E4, false, None, None, false),
        (PieceRole::Knight, 6, 21, true, None, Some(SanSuffix::Check), true),
        (PieceRole::Queen, 0, 63, true, None, Some(SanSuffix::Checkmate), false),
        (PieceRole::Pawn, B7, B8, false, Some(PieceRole::Queen), None, false),
    ];
    for (role, from, to, capture, promotion, suffix, black) in cases {
        let code = shakmaty_move_to_cmbr(role, from, to, capture, promotion, suffix, black);
        let (flags, piece, dfrom, dto) = decode_move_fields(code);
        assert_eq!(dfrom, from);
        assert_eq!(dto, to);
        let role_index = match role {
            PieceRole::Pawn => 0,
            PieceRole::Knight => 1,
            PieceRole::Bishop => 2,
            PieceRole::Rook => 3,
            PieceRole::Queen => 4,
            PieceRole::King => 5,
        };
        assert_eq!(piece % 8, role_index);
        assert_eq!(piece / 8, if black { 1 } else { 0 });
        assert_eq!((flags >> 2) & 1, if capture { 1 } else { 0 });
        assert_eq!((flags >> 6) & 1, if promotion.is_some() { 1 } else { 0 });
        assert_eq!(
            flags & 3,
            match suffix {
                None => 0,
                Some(SanSuffix::Check) => 1,
                Some(SanSuffix::Checkmate) => 2,
            }
        );
    }
}

#[test]
fn test_move_sequence_field_semantics() {
    // A capture with a dubious-move glyph, a recapture with check, a castle,
    // and one promotion to each piece kind.
    let nxe4 = shakmaty_move_to_cmbr(PieceRole::Knight, 45, E4, true, None, None, false);
    let (flags, piece, _, to) = decode_move_fields(nxe4);
    assert_eq!(flags & 0b100, 0b100); // capture bit
    assert_eq!(piece, 1); // white knight
    assert_eq!(to, E4);

    // The glyph is its own pseudo-entry right after the move, not a flag on
    // the move itself: `?!` translates to 6.
    let glyph = encode_marker_cmbr(6);
    assert_eq!(glyph.to_u32(), (6 << 8) | 0b1000_0000);
    assert_eq!(flags & 0b1000_0000, 0);

    let bxe4 = shakmaty_move_to_cmbr(
        PieceRole::Bishop,
        D7 - 9,
        E4,
        true,
        None,
        Some(SanSuffix::Check),
        true,
    );
    let (flags, piece, _, _) = decode_move_fields(bxe4);
    assert_eq!(flags & 1, 1); // check bit
    assert_eq!(flags & 0b100, 0b100);
    assert_eq!(piece, 8 + 2); // black bishop

    // The castle leaves piece and square fields empty and uses the three-bit
    // pattern instead.
    let short = encode_castle_cmbr(false, false, None);
    assert_eq!(short.to_u32(), 0b100);
    let long_black = encode_castle_cmbr(true, true, None);
    assert_eq!(long_black.to_u32(), 0b1101);

    // Promotions: flag bit 6 with the selector in bits 4 and 5.
    let cases = [
        (PieceRole::Queen, B7, B8, 0b11),
        (PieceRole::Knight, D7, D8, 0b01),
        (PieceRole::Rook, C7, C8, 0b10),
        (PieceRole::Bishop, A7, A8, 0b00),
    ];
    for (target, from, to, selector) in cases {
        let code = shakmaty_move_to_cmbr(PieceRole::Pawn, from, to, false, Some(target), None, false);
        let (flags, piece, dfrom, dto) = decode_move_fields(code);
        assert_eq!((flags >> 6) & 1, 1);
        assert_eq!((flags >> 4) & 0b11, selector);
        assert_eq!(piece, 0);
        assert_eq!(dfrom, from);
        assert_eq!(dto, to);
    }
}

#[test]
fn test_pseudo_entries() {
    // A NAG pseudo-entry holds the numeral above flag bit 3.
    let nag = encode_nag_cmbr(12);
    assert_eq!(nag.to_u32(), (12 << 8) | 0b1000);
    // A pointer marker holds the pointer above flag bit 7.
    let marker = encode_marker_cmbr(42);
    assert_eq!(marker.to_u32(), (42 << 8) | 0b1000_0000);
    // Payloads travel through unchanged.
    assert_eq!(u24::from_u32(nag.to_u32()).to_u32() >> 8, 12);
    assert_eq!(marker.to_u32() >> 8, 42);
}
