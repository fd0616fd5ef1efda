//! Lexing of PGN text into typed tokens: headers, moves, move numbers,
//! comments, annotation glyphs, variation brackets and game results. The
//! grammar is the classic PGN token grammar; move numbers carry whether the
//! three-period form marked a black continuation, which the variation walk
//! needs to place branch points.

use vstd::prelude::*;
use crate::utils::spec_first_non_digit;

verus! {

/// One lexical unit of a PGN file.
#[derive(Debug, Clone, PartialEq, Eq)]
pub enum Token {
    /// Move text such as `Nf3`, `exd8=Q+` or `O-O`.
    Move(Vec<u8>),
    /// A null move such as `--` or `Z0`; dropped by the tree builder.
    NullMove(Vec<u8>),
    /// A `%`-escaped line; dropped by the tree builder.
    EscapeComment(Vec<u8>),
    /// A numeric annotation glyph's numeral, without its `$`.
    NAG(Vec<u8>),
    /// A textual annotation glyph such as `?!`.
    MoveAnnotation(Vec<u8>),
    /// A move number; true when its periods marked a black continuation.
    MoveNumber(u32, bool),
    /// A game result: `*`, `1-0`, `0-1` or `1/2-1/2`.
    Result(Vec<u8>),
    /// Brace commentary, without its braces.
    Commentary(Vec<u8>),
    /// A header tag name, after the opening bracket.
    TagSymbol(Vec<u8>),
    /// A header tag value, without its quotes and with escapes kept.
    TagString(Vec<u8>),
    StartVariation,
    EndVariation,
}

/// The mathematical shape of a token: payloads as byte sequences.
pub enum TokenView {
    Move(Seq<u8>),
    NullMove(Seq<u8>),
    EscapeComment(Seq<u8>),
    NAG(Seq<u8>),
    MoveAnnotation(Seq<u8>),
    MoveNumber(u32, bool),
    Result(Seq<u8>),
    Commentary(Seq<u8>),
    TagSymbol(Seq<u8>),
    TagString(Seq<u8>),
    StartVariation,
    EndVariation,
}

impl View for Token {
    type V = TokenView;

    open spec fn view(&self) -> TokenView {
        match self {
            Token::Move(v) => TokenView::Move(v@),
            Token::NullMove(v) => TokenView::NullMove(v@),
            Token::EscapeComment(v) => TokenView::EscapeComment(v@),
            Token::NAG(v) => TokenView::NAG(v@),
            Token::MoveAnnotation(v) => TokenView::MoveAnnotation(v@),
            Token::MoveNumber(n, b) => TokenView::MoveNumber(*n, *b),
            Token::Result(v) => TokenView::Result(v@),
            Token::Commentary(v) => TokenView::Commentary(v@),
            Token::TagSymbol(v) => TokenView::TagSymbol(v@),
            Token::TagString(v) => TokenView::TagString(v@),
            Token::StartVariation => TokenView::StartVariation,
            Token::EndVariation => TokenView::EndVariation,
        }
    }
}

pub open spec fn is_ws(b: u8) -> bool {
    b == 0x20 || b == 0x0A || b == 0x0D || b == 0x09
}

pub open spec fn is_digit(b: u8) -> bool {
    0x30 <= b <= 0x39
}

pub open spec fn is_file_letter(b: u8) -> bool {
    0x61 <= b <= 0x68
}

pub open spec fn is_rank_digit(b: u8) -> bool {
    0x31 <= b <= 0x38
}

pub open spec fn is_piece_letter(b: u8) -> bool {
    b == 0x52 || b == 0x4E || b == 0x42 || b == 0x51 || b == 0x4B
}

pub open spec fn is_check_suffix(b: u8) -> bool {
    b == 0x2B || b == 0x23
}

pub open spec fn is_letter(b: u8) -> bool {
    (0x41 <= b <= 0x5A) || (0x61 <= b <= 0x7A)
}

pub open spec fn is_symbol_continuation(b: u8) -> bool {
    is_digit(b) || is_letter(b) || is_check_suffix(b) || b == 0x3D || b == 0x3A || b == 0x5F || b
        == 0x2D
}

/// First index at or past `pos` holding a byte that is not whitespace.
pub open spec fn spec_ws_end(s: Seq<u8>, pos: int) -> int
    decreases s.len() - pos,
{
    if pos < 0 || pos >= s.len() {
        if pos < 0 {
            0
        } else {
            s.len() as int
        }
    } else if is_ws(s[pos]) {
        spec_ws_end(s, pos + 1)
    } else {
        pos
    }
}

/// First index at or past `pos` holding a byte that is not a plain space.
pub open spec fn spec_space_end(s: Seq<u8>, pos: int) -> int
    decreases s.len() - pos,
{
    if pos < 0 || pos >= s.len() {
        if pos < 0 {
            0
        } else {
            s.len() as int
        }
    } else if s[pos] == 0x20 {
        spec_space_end(s, pos + 1)
    } else {
        pos
    }
}

/// First index at or past `pos` holding the given byte, or the length.
pub open spec fn spec_find_byte(s: Seq<u8>, pos: int, b: u8) -> int
    decreases s.len() - pos,
{
    if pos < 0 || pos >= s.len() {
        if pos < 0 {
            0
        } else {
            s.len() as int
        }
    } else if s[pos] == b {
        pos
    } else {
        spec_find_byte(s, pos + 1, b)
    }
}

/// First index at or past `pos` holding a carriage return or newline.
pub open spec fn spec_find_eol(s: Seq<u8>, pos: int) -> int
    decreases s.len() - pos,
{
    if pos < 0 || pos >= s.len() {
        if pos < 0 {
            0
        } else {
            s.len() as int
        }
    } else if s[pos] == 0x0A || s[pos] == 0x0D {
        pos
    } else {
        spec_find_eol(s, pos + 1)
    }
}

/// Number of periods after a move number: at most three are consumed.
pub open spec fn spec_period_count(s: Seq<u8>, pos: int) -> int {
    if 0 <= pos && pos + 2 < s.len() && s[pos] == 0x2E && s[pos + 1] == 0x2E && s[pos + 2]
        == 0x2E {
        3
    } else if 0 <= pos && pos + 1 < s.len() && s[pos] == 0x2E && s[pos + 1] == 0x2E {
        2
    } else if 0 <= pos && pos < s.len() && s[pos] == 0x2E {
        1
    } else {
        0
    }
}

/// A move number saturates at the widest value its field can carry.
pub open spec fn spec_move_number_value(digits: Seq<u8>) -> u32 {
    if crate::utils::spec_digits_value(digits) > u32::MAX {
        u32::MAX
    } else {
        crate::utils::spec_digits_value(digits) as u32
    }
}

/// Scan of a quoted header value: from `i` with `esc` telling whether the
/// previous byte was an escaping backslash and `count` bytes scanned so far,
/// the index of the closing quote. Unterminated, overlong (past 255 bytes)
/// or wrongly escaped strings scan to nothing.
pub open spec fn spec_string_scan(s: Seq<u8>, i: int, esc: bool, count: int) -> Option<int>
    decreases s.len() - i,
{
    if i < 0 || i >= s.len() {
        None
    } else if count > 255 {
        None
    } else if esc {
        if s[i] == 0x22 || s[i] == 0x5C {
            spec_string_scan(s, i + 1, false, count + 1)
        } else {
            None
        }
    } else if s[i] == 0x22 {
        Some(i)
    } else {
        spec_string_scan(s, i + 1, s[i] == 0x5C, count + 1)
    }
}

/// Length of the game-result token starting at `pos`, if any: `*`, `1-0`,
/// `0-1` or `1/2-1/2`.
pub open spec fn spec_result_len(s: Seq<u8>, pos: int) -> Option<int> {
    if 0 <= pos && pos < s.len() && s[pos] == 0x2A {
        Some(1)
    } else if 0 <= pos && pos + 2 < s.len() && s[pos] == 0x31 && s[pos + 1] == 0x2D && s[pos + 2]
        == 0x30 {
        Some(3)
    } else if 0 <= pos && pos + 2 < s.len() && s[pos] == 0x30 && s[pos + 1] == 0x2D && s[pos + 2]
        == 0x31 {
        Some(3)
    } else if 0 <= pos && pos + 6 < s.len() && s[pos] == 0x31 && s[pos + 1] == 0x2F && s[pos + 2]
        == 0x32 && s[pos + 3] == 0x2D && s[pos + 4] == 0x31 && s[pos + 5] == 0x2F && s[pos + 6]
        == 0x32 {
        Some(7)
    } else {
        None
    }
}

pub open spec fn at(s: Seq<u8>, i: int) -> u8 {
    if 0 <= i < s.len() {
        s[i]
    } else {
        0
    }
}

/// Length of the body of a piece move after its piece letter, before any
/// check suffix: longest shape first, as the grammar tries them.
pub open spec fn spec_piece_body_len(s: Seq<u8>, p: int) -> Option<int> {
    if is_file_letter(at(s, p)) && is_rank_digit(at(s, p + 1)) && at(s, p + 2) == 0x78
        && is_file_letter(at(s, p + 3)) && is_rank_digit(at(s, p + 4)) {
        Some(5)
    } else if is_rank_digit(at(s, p)) && at(s, p + 1) == 0x78 && is_file_letter(at(s, p + 2))
        && is_rank_digit(at(s, p + 3)) {
        Some(4)
    } else if is_file_letter(at(s, p)) && at(s, p + 1) == 0x78 && is_file_letter(at(s, p + 2))
        && is_rank_digit(at(s, p + 3)) {
        Some(4)
    } else if at(s, p) == 0x78 && is_file_letter(at(s, p + 1)) && is_rank_digit(at(s, p + 2)) {
        Some(3)
    } else if is_file_letter(at(s, p)) && is_rank_digit(at(s, p + 1)) && is_file_letter(
        at(s, p + 2),
    ) && is_rank_digit(at(s, p + 3)) {
        Some(4)
    } else if is_rank_digit(at(s, p)) && is_file_letter(at(s, p + 1)) && is_rank_digit(
        at(s, p + 2),
    ) {
        Some(3)
    } else if is_file_letter(at(s, p)) && is_file_letter(at(s, p + 1)) && is_rank_digit(
        at(s, p + 2),
    ) {
        Some(3)
    } else if is_file_letter(at(s, p)) && is_rank_digit(at(s, p + 1)) {
        Some(2)
    } else {
        None
    }
}

/// Length of the body of a pawn move after its file letter, before any
/// promotion or check suffix.
pub open spec fn spec_pawn_body_len(s: Seq<u8>, p: int) -> Option<int> {
    if at(s, p) == 0x78 && is_file_letter(at(s, p + 1)) && is_rank_digit(at(s, p + 2)) {
        Some(3)
    } else if is_rank_digit(at(s, p)) {
        Some(1)
    } else {
        None
    }
}

/// Length of a promotion suffix (`=` and a piece letter) at `p`.
pub open spec fn spec_promo_len(s: Seq<u8>, p: int) -> int {
    if at(s, p) == 0x3D && is_piece_letter(at(s, p + 1)) {
        2
    } else {
        0
    }
}

/// Length of a check or checkmate suffix at `p`.
pub open spec fn spec_check_len(s: Seq<u8>, p: int) -> int {
    if 0 <= p && p < s.len() && is_check_suffix(s[p]) {
        1
    } else {
        0
    }
}

/// Length of the body of a castle after its first `O`.
pub open spec fn spec_castle_body_len(s: Seq<u8>, p: int) -> Option<int> {
    if at(s, p) == 0x2D && at(s, p + 1) == 0x4F && at(s, p + 2) == 0x2D && at(s, p + 3) == 0x4F {
        Some(4)
    } else if at(s, p) == 0x2D && at(s, p + 1) == 0x4F {
        Some(2)
    } else {
        None
    }
}

/// Length of the body of a null move after its first byte.
pub open spec fn spec_null_body_len(s: Seq<u8>, p: int) -> Option<int> {
    if at(s, p) == 0x2D {
        Some(1)
    } else if at(s, p) == 0x30 {
        Some(1)
    } else {
        None
    }
}

/// The SAN move or null move starting at `pos`, with its end position.
pub open spec fn spec_lex_san(s: Seq<u8>, pos: int) -> Option<(TokenView, int)> {
    let c = at(s, pos);
    if is_piece_letter(c) {
        match spec_piece_body_len(s, pos + 1) {
            Some(l) => {
                let e = pos + 1 + l + spec_check_len(s, pos + 1 + l);
                Some((TokenView::Move(s.subrange(pos, e)), e))
            },
            None => None,
        }
    } else if is_file_letter(c) {
        match spec_pawn_body_len(s, pos + 1) {
            Some(l) => {
                let l2 = l + spec_promo_len(s, pos + 1 + l);
                let e = pos + 1 + l2 + spec_check_len(s, pos + 1 + l2);
                Some((TokenView::Move(s.subrange(pos, e)), e))
            },
            None => None,
        }
    } else if c == 0x4F {
        match spec_castle_body_len(s, pos + 1) {
            Some(l) => {
                let e = pos + 1 + l + spec_check_len(s, pos + 1 + l);
                Some((TokenView::Move(s.subrange(pos, e)), e))
            },
            None => None,
        }
    } else if c == 0x2D || c == 0x5A {
        match spec_null_body_len(s, pos + 1) {
            Some(l) => {
                let e = pos + 1 + l + spec_check_len(s, pos + 1 + l);
                Some((TokenView::NullMove(s.subrange(pos, e)), e))
            },
            None => None,
        }
    } else {
        None
    }
}

/// The token starting at `pos` (no leading whitespace), with its end
/// position. Nothing is produced where no token form matches; lexing then
/// stops.
pub open spec fn spec_next_token(s: Seq<u8>, pos: int) -> Option<(TokenView, int)> {
    let c = at(s, pos);
    if c == 0x25 {
        // An escape comment runs to the end of its line.
        let e = spec_find_eol(s, pos + 1);
        Some((TokenView::EscapeComment(s.subrange(pos + 1, e)), e))
    } else if spec_result_len(s, pos) is Some {
        let l = spec_result_len(s, pos)->Some_0;
        Some((TokenView::Result(s.subrange(pos, pos + l)), pos + l))
    } else if is_digit(c) {
        let d = spec_first_non_digit(s, pos);
        let sp = spec_space_end(s, d);
        let p = spec_period_count(s, sp);
        Some((TokenView::MoveNumber(spec_move_number_value(s.subrange(pos, d)), p == 3), sp + p))
    } else if c == 0x5B {
        let p2 = spec_ws_end(s, pos + 1);
        if p2 < s.len() && (is_digit(s[p2]) || is_letter(s[p2])) {
            let e = spec_symbol_end(s, p2 + 1);
            Some((TokenView::TagSymbol(s.subrange(p2, e)), e))
        } else {
            None
        }
    } else if c == 0x22 {
        match spec_string_scan(s, pos + 1, false, 1) {
            Some(q) => {
                let r = spec_ws_end(s, q + 1);
                if r < s.len() && s[r] == 0x5D {
                    Some((TokenView::TagString(s.subrange(pos + 1, q)), r + 1))
                } else {
                    None
                }
            },
            None => None,
        }
    } else if c == 0x28 {
        Some((TokenView::StartVariation, pos + 1))
    } else if c == 0x29 {
        Some((TokenView::EndVariation, pos + 1))
    } else if c == 0x7B {
        let e = spec_find_byte(s, pos + 1, 0x7D);
        if e - pos - 1 > 0x200000 {
            None
        } else if e >= s.len() {
            Some((TokenView::Commentary(s.subrange(pos + 1, s.len() as int)), s.len() as int))
        } else {
            Some((TokenView::Commentary(s.subrange(pos + 1, e)), e + 1))
        }
    } else if c == 0x24 {
        let d = spec_first_non_digit(s, pos + 1);
        if d > pos + 1 {
            Some((TokenView::NAG(s.subrange(pos + 1, d)), d))
        } else {
            None
        }
    } else if c == 0x21 || c == 0x3F {
        let e = spec_annotation_end(s, pos + 1, 3);
        Some((TokenView::MoveAnnotation(s.subrange(pos, e)), e))
    } else {
        spec_lex_san(s, pos)
    }
}

/// End of a tag symbol whose first byte was already accepted.
pub open spec fn spec_symbol_end(s: Seq<u8>, pos: int) -> int
    decreases s.len() - pos,
{
    if pos < 0 || pos >= s.len() {
        if pos < 0 {
            0
        } else {
            s.len() as int
        }
    } else if is_symbol_continuation(s[pos]) {
        spec_symbol_end(s, pos + 1)
    } else {
        pos
    }
}

/// End of an annotation glyph: up to `budget` more `!` or `?` bytes.
pub open spec fn spec_annotation_end(s: Seq<u8>, pos: int, budget: int) -> int
    decreases budget,
{
    if budget <= 0 || pos < 0 || pos >= s.len() || !(s[pos] == 0x21 || s[pos] == 0x3F) {
        if pos < 0 {
            0
        } else if pos > s.len() {
            s.len() as int
        } else {
            pos
        }
    } else {
        spec_annotation_end(s, pos + 1, budget - 1)
    }
}

/// Every token of the input from `pos` on, leading whitespace skipped
/// before each, stopping at the end of the input or at text no token form
/// matches.
pub open spec fn spec_tokens(s: Seq<u8>, pos: int) -> Seq<TokenView>
    decreases s.len() - pos,
    when pos <= s.len()
{
    let p = spec_ws_end(s, pos);
    if p >= s.len() {
        Seq::empty()
    } else {
        match spec_next_token(s, p) {
            Some((t, e)) => {
                if e > pos && e <= s.len() {
                    seq![t] + spec_tokens(s, e)
                } else {
                    seq![t]
                }
            },
            None => Seq::empty(),
        }
    }
}

/// Where lexing starts: a UTF-8 byte-order mark is skipped.
pub open spec fn spec_lex_start(s: Seq<u8>) -> int {
    if s.len() >= 3 && s[0] == 0xEF && s[1] == 0xBB && s[2] == 0xBF {
        3
    } else {
        0
    }
}

fn at_off(s: &[u8], i: usize, off: usize) -> (r: u8)
    ensures
        r == at(s@, i as int + off as int),
{
    if off < s.len() && i < s.len() - off {
        s[i + off]
    } else {
        0
    }
}

fn skip_ws(s: &[u8], pos: usize) -> (r: usize)
    requires
        pos <= s@.len(),
    ensures
        r == spec_ws_end(s@, pos as int),
        pos <= r <= s@.len(),
{
    let mut i = pos;
    while i < s.len() && (s[i] == 0x20 || s[i] == 0x0A || s[i] == 0x0D || s[i] == 0x09)
        invariant
            pos <= i <= s@.len(),
            spec_ws_end(s@, pos as int) == spec_ws_end(s@, i as int),
        decreases s@.len() - i,
    {
        i = i + 1;
    }
    i
}

fn space_end(s: &[u8], pos: usize) -> (r: usize)
    requires
        pos <= s@.len(),
    ensures
        r == spec_space_end(s@, pos as int),
        pos <= r <= s@.len(),
{
    let mut i = pos;
    while i < s.len() && s[i] == 0x20
        invariant
            pos <= i <= s@.len(),
            spec_space_end(s@, pos as int) == spec_space_end(s@, i as int),
        decreases s@.len() - i,
    {
        i = i + 1;
    }
    i
}

fn find_eol(s: &[u8], pos: usize) -> (r: usize)
    requires
        pos <= s@.len(),
    ensures
        r == spec_find_eol(s@, pos as int),
        pos <= r <= s@.len(),
{
    let mut i = pos;
    while i < s.len() && s[i] != 0x0A && s[i] != 0x0D
        invariant
            pos <= i <= s@.len(),
            spec_find_eol(s@, pos as int) == spec_find_eol(s@, i as int),
        decreases s@.len() - i,
    {
        i = i + 1;
    }
    i
}

pub(crate) fn find_byte(s: &[u8], pos: usize, b: u8) -> (r: usize)
    requires
        pos <= s@.len(),
    ensures
        r == spec_find_byte(s@, pos as int, b),
        pos <= r <= s@.len(),
{
    let mut i = pos;
    while i < s.len() && s[i] != b
        invariant
            pos <= i <= s@.len(),
            spec_find_byte(s@, pos as int, b) == spec_find_byte(s@, i as int, b),
        decreases s@.len() - i,
    {
        i = i + 1;
    }
    i
}

fn symbol_end(s: &[u8], pos: usize) -> (r: usize)
    requires
        pos <= s@.len(),
    ensures
        r == spec_symbol_end(s@, pos as int),
        pos <= r <= s@.len(),
{
    let mut i = pos;
    while i < s.len() && (
        (0x30 <= s[i] && s[i] <= 0x39)
        || (0x41 <= s[i] && s[i] <= 0x5A)
        || (0x61 <= s[i] && s[i] <= 0x7A)
        || s[i] == 0x2B || s[i] == 0x23 || s[i] == 0x3D || s[i] == 0x3A || s[i] == 0x5F
        || s[i] == 0x2D
    )
        invariant
            pos <= i <= s@.len(),
            spec_symbol_end(s@, pos as int) == spec_symbol_end(s@, i as int),
        decreases s@.len() - i,
    {
        i = i + 1;
    }
    i
}

fn digit_end(s: &[u8], pos: usize) -> (r: usize)
    requires
        pos <= s@.len(),
    ensures
        r == spec_first_non_digit(s@, pos as int),
        pos <= r <= s@.len(),
{
    let mut i = pos;
    while i < s.len() && 0x30 <= s[i] && s[i] <= 0x39
        invariant
            pos <= i <= s@.len(),
            spec_first_non_digit(s@, pos as int) == spec_first_non_digit(s@, i as int),
        decreases s@.len() - i,
    {
        i = i + 1;
    }
    i
}

fn annotation_end(s: &[u8], pos: usize) -> (r: usize)
    requires
        pos <= s@.len(),
    ensures
        r == spec_annotation_end(s@, pos as int, 3),
        pos <= r <= s@.len(),
{
    let mut i = pos;
    let mut budget: usize = 3;
    while budget > 0 && i < s.len() && (s[i] == 0x21 || s[i] == 0x3F)
        invariant
            pos <= i <= s@.len(),
            budget <= 3,
            spec_annotation_end(s@, pos as int, 3) == spec_annotation_end(
                s@,
                i as int,
                budget as int,
            ),
        decreases budget,
    {
        i = i + 1;
        budget = budget - 1;
    }
    i
}

fn string_scan(s: &[u8], start: usize) -> (r: Option<usize>)
    requires
        start <= s@.len(),
    ensures
        match r {
            Some(q) => spec_string_scan(s@, start as int, false, 1) == Some(q as int) && start
                <= q < s@.len(),
            None => spec_string_scan(s@, start as int, false, 1) is None,
        },
{
    let mut i = start;
    let mut esc = false;
    let mut count: u32 = 1;
    while i < s.len()
        invariant
            start <= i <= s@.len(),
            1 <= count <= 257,
            spec_string_scan(s@, start as int, false, 1) == spec_string_scan(
                s@,
                i as int,
                esc,
                count as int,
            ),
        decreases s@.len() - i,
    {
        if count > 255 {
            return None;
        }
        if esc {
            if s[i] == 0x22 || s[i] == 0x5C {
                esc = false;
                i = i + 1;
                count = count + 1;
            } else {
                return None;
            }
        } else if s[i] == 0x22 {
            return Some(i);
        } else {
            esc = s[i] == 0x5C;
            i = i + 1;
            count = count + 1;
        }
    }
    None
}

fn result_len(s: &[u8], pos: usize) -> (r: Option<usize>)
    requires
        pos <= s@.len(),
    ensures
        match r {
            Some(l) => spec_result_len(s@, pos as int) == Some(l as int) && pos + l <= s@.len(),
            None => spec_result_len(s@, pos as int) is None,
        },
{
    let c0 = at_off(s, pos, 0);
    if c0 == 0x2A {
        Some(1)
    } else if c0 == 0x31 && at_off(s, pos, 1) == 0x2D && at_off(s, pos, 2) == 0x30 {
        Some(3)
    } else if c0 == 0x30 && at_off(s, pos, 1) == 0x2D && at_off(s, pos, 2) == 0x31 {
        Some(3)
    } else if c0 == 0x31 && at_off(s, pos, 1) == 0x2F && at_off(s, pos, 2) == 0x32 && at_off(
        s,
        pos,
        3,
    ) == 0x2D && at_off(s, pos, 4) == 0x31 && at_off(s, pos, 5) == 0x2F && at_off(s, pos, 6)
        == 0x32 {
        Some(7)
    } else {
        None
    }
}

fn move_number_value(s: &[u8], pos: usize, end: usize) -> (r: u32)
    requires
        pos <= end <= s@.len(),
        forall|k: int| pos <= k < end ==> 0x30 <= #[trigger] s@[k] <= 0x39,
    ensures
        r == spec_move_number_value(s@.subrange(pos as int, end as int)),
{
    let mut acc: u64 = 0;
    let mut j = pos;
    while j < end
        invariant
            pos <= j <= end <= s@.len(),
            forall|k: int| pos <= k < end ==> 0x30 <= #[trigger] s@[k] <= 0x39,
            acc == if crate::utils::spec_digits_value(s@.subrange(pos as int, j as int))
                > 0x1_0000_0000u64 {
                0x1_0000_0000u64 as int
            } else {
                crate::utils::spec_digits_value(s@.subrange(pos as int, j as int))
            },
            acc <= 0x1_0000_0000u64,
        decreases end - j,
    {
        let ghost prefix = s@.subrange(pos as int, j as int);
        let ghost next_prefix = s@.subrange(pos as int, j + 1);
        proof {
            assert(next_prefix.drop_last() =~= prefix);
            assert(next_prefix.last() == s@[j as int]);
            let v = crate::utils::spec_digits_value(prefix);
            assert(v * 10 + (s@[j as int] - 0x30) >= v) by (nonlinear_arith)
                requires
                    v >= 0,
                    0x30 <= s@[j as int] <= 0x39,
            ;
            crate::utils::lemma_digits_value_nonneg(prefix);
        }
        let d = (s[j] - 0x30) as u64;
        if acc >= 0x1_0000_0000u64 {
            acc = 0x1_0000_0000u64;
        } else {
            acc = acc * 10 + d;
            if acc > 0x1_0000_0000u64 {
                acc = 0x1_0000_0000u64;
            }
        }
        j = j + 1;
    }
    if acc > u32::MAX as u64 {
        u32::MAX
    } else {
        acc as u32
    }
}

fn payload(s: &[u8], a: usize, b: usize) -> (r: Vec<u8>)
    requires
        a <= b <= s@.len(),
    ensures
        r@ == s@.subrange(a as int, b as int),
{
    let sub = vstd::slice::slice_subrange(s, a, b);
    vstd::slice::slice_to_vec(sub)
}

/// The next token at `pos`, which must not sit on whitespace that a token
/// form would claim; the caller skips whitespace first.
fn next_token(s: &[u8], pos: usize) -> (r: Option<(Token, usize)>)
    requires
        pos < s@.len(),
    ensures
        match r {
            Some((t, e)) => spec_next_token(s@, pos as int) == Some((t@, e as int)) && pos < e
                <= s@.len(),
            None => spec_next_token(s@, pos as int) is None,
        },
{
    let c = s[pos];
    if c == 0x25 {
        let e = find_eol(s, pos + 1);
        return Some((Token::EscapeComment(payload(s, pos + 1, e)), e));
    }
    match result_len(s, pos) {
        Some(l) => {
            return Some((Token::Result(payload(s, pos, pos + l)), pos + l));
        },
        None => {},
    }
    if 0x30 <= c && c <= 0x39 {
        let d = digit_end(s, pos + 1);
        proof {
            assert(spec_first_non_digit(s@, pos as int) == spec_first_non_digit(s@, pos + 1));
            crate::utils::lemma_first_non_digit_props(s@, pos + 1);
        }
        let sp = space_end(s, d);
        let mut p: usize = 0;
        if sp < s.len() && s[sp] == 0x2E {
            if sp + 1 < s.len() && s[sp + 1] == 0x2E {
                if sp + 2 < s.len() && s[sp + 2] == 0x2E {
                    p = 3;
                } else {
                    p = 2;
                }
            } else {
                p = 1;
            }
        }
        let value = move_number_value(s, pos, d);
        return Some((Token::MoveNumber(value, p == 3), sp + p));
    }
    if c == 0x5B {
        let p2 = skip_ws(s, pos + 1);
        if p2 < s.len() && ((0x30 <= s[p2] && s[p2] <= 0x39) || (0x41 <= s[p2] && s[p2] <= 0x5A)
            || (0x61 <= s[p2] && s[p2] <= 0x7A)) {
            let e = symbol_end(s, p2 + 1);
            return Some((Token::TagSymbol(payload(s, p2, e)), e));
        } else {
            return None;
        }
    }
    if c == 0x22 {
        match string_scan(s, pos + 1) {
            Some(q) => {
                let r = skip_ws(s, q + 1);
                if r < s.len() && s[r] == 0x5D {
                    return Some((Token::TagString(payload(s, pos + 1, q)), r + 1));
                } else {
                    return None;
                }
            },
            None => {
                return None;
            },
        }
    }
    if c == 0x28 {
        return Some((Token::StartVariation, pos + 1));
    }
    if c == 0x29 {
        return Some((Token::EndVariation, pos + 1));
    }
    if c == 0x7B {
        let e = find_byte(s, pos + 1, 0x7D);
        if e - pos - 1 > 0x200000 {
            return None;
        }
        if e >= s.len() {
            return Some((Token::Commentary(payload(s, pos + 1, s.len())), s.len()));
        }
        return Some((Token::Commentary(payload(s, pos + 1, e)), e + 1));
    }
    if c == 0x24 {
        let d = digit_end(s, pos + 1);
        if d > pos + 1 {
            return Some((Token::NAG(payload(s, pos + 1, d)), d));
        } else {
            return None;
        }
    }
    if c == 0x21 || c == 0x3F {
        let e = annotation_end(s, pos + 1);
        return Some((Token::MoveAnnotation(payload(s, pos, e)), e));
    }
    lex_san(s, pos)
}

fn lex_san(s: &[u8], pos: usize) -> (r: Option<(Token, usize)>)
    requires
        pos < s@.len(),
        spec_result_len(s@, pos as int) is None,
        !is_digit(at(s@, pos as int)),
        !(at(s@, pos as int) == 0x25 || at(s@, pos as int) == 0x5B || at(s@, pos as int) == 0x22
            || at(s@, pos as int) == 0x28 || at(s@, pos as int) == 0x29 || at(s@, pos as int)
            == 0x7B || at(s@, pos as int) == 0x24 || at(s@, pos as int) == 0x21 || at(
            s@,
            pos as int,
        ) == 0x3F),
    ensures
        match r {
            Some((t, e)) => spec_next_token(s@, pos as int) == Some((t@, e as int)) && pos < e
                <= s@.len(),
            None => spec_next_token(s@, pos as int) is None,
        },
{
    let c = s[pos];
    if c == 0x52 || c == 0x4E || c == 0x42 || c == 0x51 || c == 0x4B {
        match piece_body_len(s, pos + 1) {
            Some(l) => {
                let e0 = add_clamped(pos + 1, l, s.len());
                let e = e0 + check_len(s, e0);
                Some((Token::Move(payload(s, pos, e)), e))
            },
            None => None,
        }
    } else if 0x61 <= c && c <= 0x68 {
        match pawn_body_len(s, pos + 1) {
            Some(l) => {
                let q = add_clamped(pos + 1, l, s.len());
                let l2 = promo_len(s, q);
                let e0 = q + l2;
                let e = e0 + check_len(s, e0);
                Some((Token::Move(payload(s, pos, e)), e))
            },
            None => None,
        }
    } else if c == 0x4F {
        match castle_body_len(s, pos + 1) {
            Some(l) => {
                let e0 = add_clamped(pos + 1, l, s.len());
                let e = e0 + check_len(s, e0);
                Some((Token::Move(payload(s, pos, e)), e))
            },
            None => None,
        }
    } else if c == 0x2D || c == 0x5A {
        match null_body_len(s, pos + 1) {
            Some(l) => {
                let e0 = add_clamped(pos + 1, l, s.len());
                let e = e0 + check_len(s, e0);
                Some((Token::NullMove(payload(s, pos, e)), e))
            },
            None => None,
        }
    } else {
        None
    }
}

fn add_clamped(a: usize, b: usize, len: usize) -> (r: usize)
    requires
        a + b <= len,
    ensures
        r == a + b,
{
    a + b
}

fn check_len(s: &[u8], p: usize) -> (r: usize)
    ensures
        r == spec_check_len(s@, p as int),
        p + r <= s@.len() || r == 0,
{
    if p < s.len() && (s[p] == 0x2B || s[p] == 0x23) {
        1
    } else {
        0
    }
}

fn piece_body_len(s: &[u8], p: usize) -> (r: Option<usize>)
    requires
        p <= s@.len(),
    ensures
        match r {
            Some(l) => spec_piece_body_len(s@, p as int) == Some(l as int) && p + l <= s@.len(),
            None => spec_piece_body_len(s@, p as int) is None,
        },
{
    let a0 = at_off(s, p, 0);
    let a1 = at_off(s, p, 1);
    let a2 = at_off(s, p, 2);
    let a3 = at_off(s, p, 3);
    let a4 = at_off(s, p, 4);
    let file0 = 0x61 <= a0 && a0 <= 0x68;
    let rank0 = 0x31 <= a0 && a0 <= 0x38;
    let file1 = 0x61 <= a1 && a1 <= 0x68;
    let rank1 = 0x31 <= a1 && a1 <= 0x38;
    let file2 = 0x61 <= a2 && a2 <= 0x68;
    let rank2 = 0x31 <= a2 && a2 <= 0x38;
    let file3 = 0x61 <= a3 && a3 <= 0x68;
    let rank3 = 0x31 <= a3 && a3 <= 0x38;
    let rank4 = 0x31 <= a4 && a4 <= 0x38;
    if file0 && rank1 && a2 == 0x78 && file3 && rank4 {
        Some(5)
    } else if rank0 && a1 == 0x78 && file2 && rank3 {
        Some(4)
    } else if file0 && a1 == 0x78 && file2 && rank3 {
        Some(4)
    } else if a0 == 0x78 && file1 && rank2 {
        Some(3)
    } else if file0 && rank1 && file2 && rank3 {
        Some(4)
    } else if rank0 && file1 && rank2 {
        Some(3)
    } else if file0 && file1 && rank2 {
        Some(3)
    } else if file0 && rank1 {
        Some(2)
    } else {
        None
    }
}

fn pawn_body_len(s: &[u8], p: usize) -> (r: Option<usize>)
    requires
        p <= s@.len(),
    ensures
        match r {
            Some(l) => spec_pawn_body_len(s@, p as int) == Some(l as int) && p + l <= s@.len(),
            None => spec_pawn_body_len(s@, p as int) is None,
        },
{
    let a0 = at_off(s, p, 0);
    let a1 = at_off(s, p, 1);
    let a2 = at_off(s, p, 2);
    if a0 == 0x78 && (0x61 <= a1 && a1 <= 0x68) && (0x31 <= a2 && a2 <= 0x38) {
        Some(3)
    } else if 0x31 <= a0 && a0 <= 0x38 {
        Some(1)
    } else {
        None
    }
}

fn promo_len(s: &[u8], p: usize) -> (r: usize)
    requires
        p <= s@.len(),
    ensures
        r == spec_promo_len(s@, p as int),
        p + r <= s@.len(),
{
    let a0 = at_off(s, p, 0);
    let a1 = at_off(s, p, 1);
    if a0 == 0x3D && (a1 == 0x52 || a1 == 0x4E || a1 == 0x42 || a1 == 0x51 || a1 == 0x4B) {
        2
    } else {
        0
    }
}

fn castle_body_len(s: &[u8], p: usize) -> (r: Option<usize>)
    requires
        p <= s@.len(),
    ensures
        match r {
            Some(l) => spec_castle_body_len(s@, p as int) == Some(l as int) && p + l <= s@.len(),
            None => spec_castle_body_len(s@, p as int) is None,
        },
{
    let a0 = at_off(s, p, 0);
    let a1 = at_off(s, p, 1);
    let a2 = at_off(s, p, 2);
    let a3 = at_off(s, p, 3);
    if a0 == 0x2D && a1 == 0x4F && a2 == 0x2D && a3 == 0x4F {
        Some(4)
    } else if a0 == 0x2D && a1 == 0x4F {
        Some(2)
    } else {
        None
    }
}

fn null_body_len(s: &[u8], p: usize) -> (r: Option<usize>)
    requires
        p <= s@.len(),
    ensures
        match r {
            Some(l) => spec_null_body_len(s@, p as int) == Some(l as int) && p + l <= s@.len(),
            None => spec_null_body_len(s@, p as int) is None,
        },
{
    let a0 = at_off(s, p, 0);
    if a0 == 0x2D || a0 == 0x30 {
        Some(1)
    } else {
        None
    }
}

/// Lex a whole PGN input, skipping a UTF-8 byte-order mark, until the end
/// of the input or text no token form matches.
pub fn lex_pgn(bytes: &[u8]) -> (r: Vec<Token>)
    ensures
        r@.map_values(|t: Token| t@) == spec_tokens(bytes@, spec_lex_start(bytes@)),
{
    let mut pos: usize = 0;
    if bytes.len() >= 3 && bytes[0] == 0xEF && bytes[1] == 0xBB && bytes[2] == 0xBF {
        pos = 3;
    }
    let mut out: Vec<Token> = Vec::new();
    proof {
        assert(out@.map_values(|t: Token| t@) =~= Seq::<TokenView>::empty());
    }
    loop
        invariant
            pos <= bytes@.len(),
            spec_tokens(bytes@, spec_lex_start(bytes@)) == out@.map_values(|t: Token| t@)
                + spec_tokens(bytes@, pos as int),
        decreases bytes@.len() - pos,
    {
        let p = skip_ws(bytes, pos);
        if p >= bytes.len() {
            proof {
                assert(spec_tokens(bytes@, pos as int) =~= Seq::<TokenView>::empty());
                assert(out@.map_values(|t: Token| t@) + Seq::<TokenView>::empty()
                    =~= out@.map_values(|t: Token| t@));
            }
            return out;
        }
        match next_token(bytes, p) {
            Some((t, e)) => {
                let ghost prev = out@.map_values(|x: Token| x@);
                out.push(t);
                proof {
                    assert(out@.map_values(|x: Token| x@) =~= prev.push(t@));
                    assert(spec_tokens(bytes@, pos as int) == seq![t@] + spec_tokens(
                        bytes@,
                        e as int,
                    ));
                    assert(prev.push(t@) + spec_tokens(bytes@, e as int) =~= prev + (seq![t@]
                        + spec_tokens(bytes@, e as int)));
                }
                pos = e;
            },
            None => {
                proof {
                    assert(spec_tokens(bytes@, pos as int) =~= Seq::<TokenView>::empty());
                    assert(out@.map_values(|t: Token| t@) + Seq::<TokenView>::empty()
                        =~= out@.map_values(|t: Token| t@));
                }
                return out;
            },
        }
    }
}

} // verus!
