use libcmbr::cmbr::pgntocmbr::{get_fen_from_board, BuildWarning, WarningKind};
use libcmbr::cmbr::CmbrFile;
use libcmbr::convertor::SanToCmbrMvConvertor;
use libcmbr::error::LibCmbrErrorType;
use libcmbr::pgn::parse_pgn;
use libcmbr::posmap::U32Map;

#[test]
fn test_position_table_first_writer_wins() {
    let mut table: U32Map<Vec<u8>> = U32Map::new();
    table.try_insert(7, b"first".to_vec());
    table.try_insert(7, b"second".to_vec());
    assert_eq!(table.get(7), Some(&b"first".to_vec()));
    assert_eq!(table.len(), 1);
    table.insert(9, b"x".to_vec());
    table.insert(9, b"y".to_vec());
    assert_eq!(table.get(9), Some(&b"y".to_vec()));
    assert!(table.contains_key(7));
    assert!(!table.contains_key(8));
}

#[test]
fn test_branch_resume_position_matches_ancestor() {
    // A variation branching at half-move 2 resumes from the very position
    // the main line recorded after two plies.
    let ast = parse_pgn(b"1. e4 e5 2. Nf3 (2. Nc3 d5) Nc6 1-0");
    let mut convertor = SanToCmbrMvConvertor::new(16 * 1024 * 1024);
    let (file, warnings) = CmbrFile::from_ast(&ast, &mut convertor, false).unwrap();
    assert!(warnings.is_empty());
    let game = file.games.get(0).unwrap();

    // The per-game table resolves (main line, half-move 2) to a hash, and
    // the file-wide table resolves that hash to a FEN.
    let hash = *game.encountered_positions.get(2).unwrap();
    let stored_fen = file.encountered_positions.get(hash).unwrap().clone();

    // Playing the ancestor line directly gives the same FEN.
    let mut board = shakmaty::Chess::default();
    for san in [b"e4".as_slice(), b"e5".as_slice()] {
        convertor.san_to_cmbr(&mut board, san).unwrap();
    }
    assert_eq!(stored_fen, get_fen_from_board(&board));

    // The branch itself was converted: its variation exists and holds its
    // two moves.
    let branch = game.variations.get(&2).unwrap();
    assert_eq!(branch.starts_at, 2);
    assert_eq!(branch.moves.len(), 2);

    // The main line carries the pointer marker among its entries.
    let main = game.variations.get(&0).unwrap();
    assert_eq!(main.starts_at, 0);
    assert!(main
        .moves
        .iter()
        .any(|m| m.to_u32() == (2 << 8) | 0b1000_0000));
}

#[test]
fn test_abandoned_game_scenario() {
    // One well-formed game, then one with an empty variation: the output
    // holds exactly the first, and a warning names the second.
    let ast = parse_pgn(b"1. e4 e5 1-0\n1. d4 () d5 0-1");
    let mut convertor = SanToCmbrMvConvertor::new(1024);
    let (file, warnings) = CmbrFile::from_ast(&ast, &mut convertor, false).unwrap();
    assert_eq!(ast.len(), 2);
    assert!(file.games.contains_key(0));
    assert!(!file.games.contains_key(1));
    assert_eq!(file.games.len(), 1);
    assert_eq!(
        warnings,
        vec![BuildWarning { game_index: 1, kind: WarningKind::EmptyVariation }]
    );
}

#[test]
fn test_illegal_san_abandons_only_that_game() {
    let ast = parse_pgn(b"1. e4 Ke4 1-0\n1. d4 d5 0-1");
    let mut convertor = SanToCmbrMvConvertor::new(1024);
    let (file, warnings) = CmbrFile::from_ast(&ast, &mut convertor, false).unwrap();
    assert!(!file.games.contains_key(0));
    assert!(file.games.contains_key(1));
    assert_eq!(warnings.len(), 1);
    assert_eq!(warnings[0].game_index, 0);
    assert!(matches!(warnings[0].kind, WarningKind::IllegalSan(_)));
    assert_eq!(file.games.get(1).unwrap().result, 'b');
}

#[test]
fn test_compressed_output_rejected() {
    let ast = parse_pgn(b"1. e4 e5 1-0");
    let mut convertor = SanToCmbrMvConvertor::new(1024);
    let err = match CmbrFile::from_ast(&ast, &mut convertor, true) {
        Ok(_) => panic!("compressed output must be rejected"),
        Err(e) => e,
    };
    assert_eq!(err.kind(), LibCmbrErrorType::CompressedOutputNotSupported);
}

#[test]
fn test_file_shape() {
    let ast = parse_pgn(b"[Event \"E\"]\n[Site \"S\"]\n1. e4 {king pawn} e5 $3 2. Nf3?! 1/2-1/2");
    let mut convertor = SanToCmbrMvConvertor::new(1024);
    let (file, warnings) = CmbrFile::from_ast(&ast, &mut convertor, false).unwrap();
    assert!(warnings.is_empty());
    assert_eq!(file.magic(), "CMBR!");
    assert!(!file.is_compressed);
    let game = file.games.get(0).unwrap();
    assert_eq!(game.result, 'd');
    assert_eq!(
        game.headers,
        vec![
            (b"Event".to_vec(), b"E".to_vec()),
            (b"Site".to_vec(), b"S".to_vec()),
        ]
    );
    let main = game.variations.get(&0).unwrap();
    // Three real moves, one NAG pseudo-entry, one glyph pseudo-entry.
    assert_eq!(main.moves.len(), 5);
    assert_eq!(main.moves[2].to_u32(), (3 << 8) | 0b1000);
    assert_eq!(main.moves[4].to_u32(), (6 << 8) | 0b1000_0000);
    // The comment hangs at the half-move after white's first move.
    assert_eq!(main.comments, vec![(1u16, b"king pawn".to_vec())]);
}

#[test]
fn test_nested_branch_resumes_from_parent_variation() {
    // The nested branch resumes from a position its parent variation
    // recorded, not from the main line.
    let ast = parse_pgn(b"1. e4 e5 2. Nf3 (2. Nc3 d5 (3. exd5)) Nc6 1-0");
    let mut convertor = SanToCmbrMvConvertor::new(1024);
    let (file, warnings) = CmbrFile::from_ast(&ast, &mut convertor, false).unwrap();
    assert!(warnings.is_empty());
    let game = file.games.get(0).unwrap();
    // Parent branch pointer 2, nested pointer 3 * (2 + 1) = 9.
    let nested = game.variations.get(&9).unwrap();
    assert_eq!(nested.starts_at, 4);
    assert_eq!(nested.moves.len(), 1);
    // The nested branch point was recorded under its parent's pointer.
    assert!(game.encountered_positions.get((2 << 16) | 4).is_some());
}

#[test]
fn test_unresolvable_branch_abandons_game() {
    // A branch claiming to start at a half-move nothing recorded.
    let ast = parse_pgn(b"1. e4 (5. d4) e5 1-0");
    let mut convertor = SanToCmbrMvConvertor::new(1024);
    let (file, warnings) = CmbrFile::from_ast(&ast, &mut convertor, false).unwrap();
    assert_eq!(file.games.len(), 0);
    assert_eq!(
        warnings,
        vec![BuildWarning { game_index: 0, kind: WarningKind::UnresolvedBranch }]
    );
}

#[test]
fn test_branch_start_read_from_first_move_number_token() {
    // The variation opens with a comment; its starting half-move still
    // comes from the first move-number token it contains.
    let ast = parse_pgn(b"1. e4 e5 2. Nf3 ({sideline} 2. Nc3 d5) Nc6 1-0");
    let mut convertor = SanToCmbrMvConvertor::new(1024);
    let (file, warnings) = CmbrFile::from_ast(&ast, &mut convertor, false).unwrap();
    assert!(warnings.is_empty());
    let game = file.games.get(0).unwrap();
    let branch = game.variations.get(&2).unwrap();
    assert_eq!(branch.starts_at, 2);
    assert_eq!(branch.moves.len(), 2);
    assert_eq!(branch.comments, vec![(2u16, b"sideline".to_vec())]);
}
