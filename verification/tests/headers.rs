use libcmbr::pgn::headers::{is_game_terminator_line, parse_pgn_header};

fn check(line: &[u8], key: &[u8], value: &[u8]) {
    println!("Testing line: `{}`", String::from_utf8_lossy(line));
    let parsed = parse_pgn_header(line);
    assert_eq!(parsed, Some((key.to_vec(), value.to_vec())));
}

#[test]
fn headers_test_header_parsing() {
    let tests: [(&[u8], (&[u8], &[u8])); 12] = [
        (
            b"[Event \"Fischer - Spassky\"]",
            (b"Event", b"Fischer - Spassky"),
        ),
        (
            b"[Site \"Sveti Stefan / Belgrade YUG\"]",
            (b"Site", b"Sveti Stefan / Belgrade YUG"),
        ),
        (b"[Date \"1992.09.02\"]", (b"Date", b"1992.09.02")),
        (b"[EventDate \"1992.09.02\"]", (b"EventDate", b"1992.09.02")),
        (b"[Round \"1\"]", (b"Round", b"1")),
        (b"[Result \"1-0\"]", (b"Result", b"1-0")),
        (
            b"[White \"Robert James Fischer\"]",
            (b"White", b"Robert James Fischer"),
        ),
        (b"[Black \"Boris Spassky\"]", (b"Black", b"Boris Spassky")),
        (b"[ECO \"C95\"]", (b"ECO", b"C95")),
        (b"[WhiteElo \"?\"]", (b"WhiteElo", b"?")),
        (b"[BlackElo \"?\"]", (b"BlackElo", b"?")),
        (b"[PlyCount \"99\"]", (b"PlyCount", b"99")),
    ];

    for test in tests {
        check(test.0, test.1 .0, test.1 .1);
    }
}

#[test]
fn mod_test_header_parsing() {
    let tests: [(&[u8], (&[u8], &[u8])); 12] = [
        (
            b"[Event \"Fischer - Spassky\"]",
            (b"Event", b"Fischer - Spassky"),
        ),
        (
            b"[Site \"Sveti Stefan / Belgrade YUG\"]",
            (b"Site", b"Sveti Stefan / Belgrade YUG"),
        ),
        (b"[Date \"1992.09.02\"]", (b"Date", b"1992.09.02")),
        (b"[EventDate \"1992.09.02\"]", (b"EventDate", b"1992.09.02")),
        (b"[Round \"1\"]", (b"Round", b"1")),
        (b"[Result \"1-0\"]", (b"Result", b"1-0")),
        (
            b"[White \"Robert James Fischer\"]",
            (b"White", b"Robert James Fischer"),
        ),
        (b"[Black \"Boris Spassky\"]", (b"Black", b"Boris Spassky")),
        (b"[ECO \"C95\"]", (b"ECO", b"C95")),
        (b"[WhiteElo \"?\"]", (b"WhiteElo", b"?")),
        (b"[BlackElo \"?\"]", (b"BlackElo", b"?")),
        (b"[PlyCount \"99\"]", (b"PlyCount", b"99")),
    ];

    for test in tests {
        check(test.0, test.1 .0, test.1 .1);
    }
}

#[test]
fn test_header_rejects() {
    // A second bare name after the value.
    assert_eq!(parse_pgn_header(b"[Event Fischer]"), None);
    // A value before any name.
    assert_eq!(parse_pgn_header(b"\"Fischer\" Event]"), None);
    // An unterminated value.
    assert_eq!(parse_pgn_header(b"[Event \"Fischer]"), None);
    // A missing value yields an empty one.
    assert_eq!(
        parse_pgn_header(b"[Event ]"),
        Some((b"Event".to_vec(), Vec::new()))
    );
}

#[test]
fn test_game_terminator_lines() {
    assert!(is_game_terminator_line(b"41. Qe5 1-0"));
    assert!(is_game_terminator_line(b"1/2-1/2"));
    assert!(is_game_terminator_line(b"12. Kg2 *"));
    assert!(!is_game_terminator_line(b"1. e4 e5"));
    assert!(!is_game_terminator_line(b"*"));
}
