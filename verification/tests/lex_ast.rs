use libcmbr::pgn::{build_pgn_ast, lex_pgn, PgnToken, PgnVariation, Token};

const SAMPLE: &[u8] = b"[E \"E\"]\n[S \"S\"]\n1. e4 (1. d4) (1. c4) 1... e5 2. Nf3 (2. Nc3 d5 (2... d6)) (2. d3) 2... Nc6 3. Bc4 Bc5 4. O-O *\n";

#[test]
fn test_lex() {
    let tokens = lex_pgn(b"[E \"E\"]\n1. e4 { Comment } Nf3?! $12 (1... Nc3) 1-0 garbage");
    let expected = vec![
        Token::TagSymbol(b"E".to_vec()),
        Token::TagString(b"E".to_vec()),
        Token::MoveNumber(1, false),
        Token::Move(b"e4".to_vec()),
        Token::Commentary(b" Comment ".to_vec()),
        Token::Move(b"Nf3".to_vec()),
        Token::MoveAnnotation(b"?!".to_vec()),
        Token::NAG(b"12".to_vec()),
        Token::StartVariation,
        Token::MoveNumber(1, true),
        Token::Move(b"Nc3".to_vec()),
        Token::EndVariation,
        Token::Result(b"1-0".to_vec()),
        // Lexing stops at text no token form matches.
    ];
    assert_eq!(tokens, expected);
}

#[test]
fn test_lex_forms() {
    let tokens = lex_pgn(b"exd8=Q+ O-O-O# -- Z0 N2xf6 1/2-1/2");
    let expected = vec![
        Token::Move(b"exd8=Q+".to_vec()),
        Token::Move(b"O-O-O#".to_vec()),
        Token::NullMove(b"--".to_vec()),
        Token::NullMove(b"Z0".to_vec()),
        Token::Move(b"N2xf6".to_vec()),
        Token::Result(b"1/2-1/2".to_vec()),
    ];
    assert_eq!(tokens, expected);
}

#[test]
fn test_lex_bom_and_escape() {
    let tokens = lex_pgn(b"\xEF\xBB\xBF%ignored line\n*");
    let expected = vec![
        Token::EscapeComment(b"ignored line".to_vec()),
        Token::Result(b"*".to_vec()),
    ];
    assert_eq!(tokens, expected);
}

fn variation_tokens(v: &PgnVariation) -> Vec<PgnToken> {
    v.0.clone()
}

#[test]
fn test_ast() {
    let games = build_pgn_ast(lex_pgn(SAMPLE));
    assert_eq!(games.len(), 1);
    let game = &games[0];
    assert_eq!(
        game.global_tokens,
        vec![
            Token::TagSymbol(b"E".to_vec()),
            Token::TagString(b"E".to_vec()),
            Token::TagSymbol(b"S".to_vec()),
            Token::TagString(b"S".to_vec()),
            Token::Result(b"*".to_vec()),
        ]
    );
    // The pointers the prime scheme allocates for this shape.
    for (ptr, present) in [(0, true), (2, true), (3, true), (5, true), (11, true), (42, true), (7, false)] {
        assert_eq!(game.variations.get(&ptr).is_some(), present);
    }
    assert_eq!(game.variations.len(), 6);
    let main = game.variations.get(&0).unwrap();
    assert_eq!(
        variation_tokens(main),
        vec![
            PgnToken::Token(Token::MoveNumber(1, false)),
            PgnToken::Token(Token::Move(b"e4".to_vec())),
            PgnToken::VariationPointer(2),
            PgnToken::VariationPointer(3),
            PgnToken::Token(Token::MoveNumber(1, true)),
            PgnToken::Token(Token::Move(b"e5".to_vec())),
            PgnToken::Token(Token::MoveNumber(2, false)),
            PgnToken::Token(Token::Move(b"Nf3".to_vec())),
            PgnToken::VariationPointer(5),
            PgnToken::VariationPointer(11),
            PgnToken::Token(Token::MoveNumber(2, true)),
            PgnToken::Token(Token::Move(b"Nc6".to_vec())),
            PgnToken::Token(Token::MoveNumber(3, false)),
            PgnToken::Token(Token::Move(b"Bc4".to_vec())),
            PgnToken::Token(Token::Move(b"Bc5".to_vec())),
            PgnToken::Token(Token::MoveNumber(4, false)),
            PgnToken::Token(Token::Move(b"O-O".to_vec())),
        ]
    );
    let nested = game.variations.get(&42).unwrap();
    assert_eq!(
        variation_tokens(nested),
        vec![
            PgnToken::Token(Token::MoveNumber(2, true)),
            PgnToken::Token(Token::Move(b"d6".to_vec())),
        ]
    );
}

#[test]
fn tests_test_ast() {
    // Two identical games in one input build two identical trees, and the
    // pointer counter restarts for the second game.
    let mut doubled = SAMPLE.to_vec();
    doubled.extend_from_slice(SAMPLE);
    let games = build_pgn_ast(lex_pgn(&doubled));
    assert_eq!(games.len(), 2);
    for game in &games {
        assert_eq!(game.variations.len(), 6);
        assert!(game.variations.get(&42).is_some());
    }
}

#[test]
fn ast_test_ast() {
    // Null moves and escape comments are dropped; an unterminated game is
    // the discarded wrapper.
    let games = build_pgn_ast(lex_pgn(b"1. e4 -- e5 *\n1. d4 d5"));
    assert_eq!(games.len(), 1);
    let main = games[0].variations.get(&0).unwrap();
    assert_eq!(
        variation_tokens(main),
        vec![
            PgnToken::Token(Token::MoveNumber(1, false)),
            PgnToken::Token(Token::Move(b"e4".to_vec())),
            PgnToken::Token(Token::Move(b"e5".to_vec())),
        ]
    );
}

#[test]
fn test_variation_pointers_distinct() {
    // Deep nesting and many siblings: all allocated pointers stay pairwise
    // distinct and never collide with the main line.
    let games = build_pgn_ast(lex_pgn(
        b"1. e4 (1. d4 (1... d5 (2. c4 (2... e6) (2... c6)) (2. Nf3)) (1... Nf6)) (1. c4) (1. Nf3) e5 *",
    ));
    assert_eq!(games.len(), 1);
    let game = &games[0];
    let n = game.variations.len();
    assert_eq!(n, 10);
    let mut seen: Vec<u32> = Vec::new();
    for i in 0..n {
        let (ptr, _) = game.variations.get_indexed(i).unwrap();
        assert!(!seen.contains(ptr));
        seen.push(*ptr);
    }
    assert!(seen.contains(&0));
}
