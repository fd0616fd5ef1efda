use libcmbr::cmbr::pgntocmbr::move_to_halfmove;
use libcmbr::u24::u24;

#[test]
fn test_u24_roundtrip() {
    for v in [0u32, 1, 0xFF, 0x100, 0xFFFF, 0x10000, 0xFFFFFF] {
        assert_eq!(u24::from_u32(v).to_u32(), v);
    }
}

#[test]
fn test_u24_arithmetic() {
    let a = u24::from_u32(0x1234);
    let b = u24::from_u32(0x10);
    assert_eq!(a.add(b).to_u32(), 0x1244);
    assert_eq!(a.sub(b).to_u32(), 0x1224);
    assert_eq!(a.mul(b).to_u32(), 0x12340);
    assert_eq!(a.div(b).to_u32(), 0x123);
    assert_eq!(a.rem(b).to_u32(), 0x4);
    assert_eq!(a.shl(u24::from_u32(4)).to_u32(), 0x12340);
    assert_eq!(a.shr(u24::from_u32(4)).to_u32(), 0x123);
    assert_eq!(a.bitand(b).to_u32(), 0x10);
    assert_eq!(a.bitor(b).to_u32(), 0x1234);
    assert_eq!(a.bitxor(b).to_u32(), 0x1224);
    assert_eq!(a.not().to_u32(), 0xFFFFFF ^ 0x1234);
}

#[test]
fn test_u24_bit_counts() {
    assert_eq!(u24::from_u32(0).count_ones(), 0);
    assert_eq!(u24::from_u32(0).count_zeros(), 24);
    assert_eq!(u24::from_u32(0xFFFFFF).count_ones(), 24);
    assert_eq!(u24::from_u32(0xFFFFFF).count_zeros(), 0);
    assert_eq!(u24::from_u32(0b1011).count_ones(), 3);
    assert_eq!(u24::from_u32(0b1011).count_zeros(), 21);
    assert_eq!(u24::from_u32(0).trailing_zeroes(), 24);
    assert_eq!(u24::from_u32(1).trailing_zeroes(), 0);
    assert_eq!(u24::from_u32(0b1000).trailing_zeroes(), 3);
    assert_eq!(u24::from_u32(0x800000).trailing_zeroes(), 23);
}

#[test]
fn test_u24_equality_holds_value() {
    assert_eq!(u24::from_u32(0xABCDE), u24::from_u32(0xABCDE));
    assert_ne!(u24::from_u32(0xABCDE), u24::from_u32(0xABCDF));
}

#[test]
fn test_u24_renderings() {
    let v = libcmbr::u24::u24::from_u32(0b111111_110110_0000_01110101);
    assert_eq!(v.render_decimal(), format!("{}", 0b111111110110000001110101u32).into_bytes());
    assert_eq!(
        v.render_binary(),
        b"0b111111110110000001110101".to_vec()
    );
    assert_eq!(v.render_fields(), b"111111 110110 0000 01110101".to_vec());
    assert_eq!(libcmbr::u24::u24::from_u32(0).render_decimal(), b"0".to_vec());
}

#[test]
fn test_u24_in_place_ops() {
    let mut a = u24::from_u32(0x1234);
    a.add_assign(u24::from_u32(0x10));
    assert_eq!(a.to_u32(), 0x1244);
    a.sub_assign(u24::from_u32(0x44));
    assert_eq!(a.to_u32(), 0x1200);
    a.shr_assign(u24::from_u32(8));
    assert_eq!(a.to_u32(), 0x12);
    a.shl_assign(u24::from_u32(4));
    assert_eq!(a.to_u32(), 0x120);
    a.mul_assign(u24::from_u32(2));
    assert_eq!(a.to_u32(), 0x240);
    a.div_assign(u24::from_u32(3));
    assert_eq!(a.to_u32(), 0xC0);
    a.rem_assign(u24::from_u32(0x50));
    assert_eq!(a.to_u32(), 0x20);
    a.bitor_assign(u24::from_u32(0x3));
    assert_eq!(a.to_u32(), 0x23);
    a.bitand_assign(u24::from_u32(0x21));
    assert_eq!(a.to_u32(), 0x21);
    a.bitxor_assign(u24::from_u32(0x1));
    assert_eq!(a.to_u32(), 0x20);
}

#[test]
fn test_move_to_halfmove_formula() {
    assert_eq!(move_to_halfmove(1, false), 0);
    assert_eq!(move_to_halfmove(1, true), 1);
    assert_eq!(move_to_halfmove(2, false), 2);
    assert_eq!(move_to_halfmove(2, true), 3);
    assert_eq!(move_to_halfmove(0, false), 0);
    assert_eq!(move_to_halfmove(1_000_000, true), 0xFFFF);
}
