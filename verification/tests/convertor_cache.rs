use libcmbr::cmbr::pgntocmbr::get_fen_from_board;
use libcmbr::convertor::SanToCmbrMvConvertor;
use libcmbr::error::LibCmbrErrorType;

#[test]
fn test_memoization_same_code_and_board_advances() {
    let mut convertor = SanToCmbrMvConvertor::new(16 * 1024 * 1024);
    let mut board1 = shakmaty::Chess::default();
    let mut board2 = shakmaty::Chess::default();
    let start_fen = get_fen_from_board(&board1);

    // First call: a cache miss; second call from the same position: a hit.
    let first = convertor.san_to_cmbr(&mut board1, b"e4").unwrap();
    let second = convertor.san_to_cmbr(&mut board2, b"e4").unwrap();
    assert_eq!(first, second);

    // The board advances by exactly one ply on both calls, hit or miss.
    let fen1 = get_fen_from_board(&board1);
    let fen2 = get_fen_from_board(&board2);
    assert_ne!(fen1, start_fen);
    assert_eq!(fen1, fen2);
}

#[test]
fn test_illegal_move_rejected_board_unchanged() {
    let mut convertor = SanToCmbrMvConvertor::new(1024);
    let mut board = shakmaty::Chess::default();
    let before = get_fen_from_board(&board);
    // A king move that is illegal from the starting position.
    let err = convertor.san_to_cmbr(&mut board, b"Ke4").unwrap_err();
    assert_eq!(err.kind(), LibCmbrErrorType::IllegalMove);
    // Unparseable text is illegal too.
    let err = convertor.san_to_cmbr(&mut board, b"xyzzy").unwrap_err();
    assert_eq!(err.kind(), LibCmbrErrorType::IllegalMove);
    assert_eq!(get_fen_from_board(&board), before);
}

#[test]
fn test_promotion_game_codes() {
    // A short game exercising captures, a bishop line, a knight recapture
    // and a promotion to queen with check; every packed code is pinned.
    let moves: [&[u8]; 9] = [
        b"e4", b"f6", b"e5", b"e6", b"exf6", b"Bc5", b"fxg7", b"Nf6", b"gxh8=Q+",
    ];
    let expected: [u32; 9] = [
        0b011100001100000000000000,
        0b101101110101100000000000,
        0b100100011100000000000000,
        0b101100110100100000000000,
        0b101101100100000000000100,
        0b100010111101101000000000,
        0b110110101101000000000100,
        0b101101111110100100000000,
        0b111111110110000001110101,
    ];
    let mut convertor = SanToCmbrMvConvertor::new(16 * 1024 * 1024);
    let mut board = shakmaty::Chess::default();
    for (san, want) in moves.iter().zip(expected.iter()) {
        let code = convertor.san_to_cmbr(&mut board, san).unwrap();
        assert_eq!(code.to_u32(), *want, "move {}", String::from_utf8_lossy(san));
    }
}

use libcmbr::error::LibCmbrError;

#[test]
fn test_error_values() {
    let e = LibCmbrError::new(LibCmbrErrorType::CrazyHouseNotSupported);
    assert_eq!(e.kind(), LibCmbrErrorType::CrazyHouseNotSupported);
    assert_eq!(e.message(), "crazyhouse is not supported yet");
    assert_eq!(LibCmbrError::ok().kind(), LibCmbrErrorType::NoError);
    assert_eq!(LibCmbrError::default(), LibCmbrError::ok());
}
