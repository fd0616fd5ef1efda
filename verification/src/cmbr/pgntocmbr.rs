//! The file builder: walks parsed games, drives the move convertor one ply
//! at a time, keeps the two-level position-hash tables, and assembles the
//! persisted aggregate. A game that cannot be converted is left out of the
//! file with a warning carrying its index; finished games stay in.

use vstd::prelude::*;
use crate::cmbr::structs::{CmbrFile, CmbrGame, CmbrVariation};
use crate::convertor::SanToCmbrMvConvertor;
use crate::encoder::{encode_marker_cmbr, encode_nag_cmbr, spec_encode_marker, spec_encode_nag};
use crate::error::{LibCmbrError, LibCmbrErrorType};
use crate::oracle;
use crate::pgn::ast::{PgnGame, PgnToken, PgnTokenView, PgnVariation as PgnVar};
use crate::pgn::lex::{Token, TokenView};
use crate::posmap::U32Map;
use crate::utils::{spec_all_digits, spec_digits_value};
use crate::varmap;

verus! {

/// Why a game was left out of the output.
#[derive(Debug, Clone, PartialEq, Eq)]
pub enum WarningKind {
    /// A variation with no tokens at all.
    EmptyVariation,
    /// No recorded position matches the branch point a variation resumes
    /// from, or a branch's ancestry is unknown.
    UnresolvedBranch,
    /// Move text the convertor rejected, carried for the diagnostic.
    IllegalSan(Vec<u8>),
    /// A payload that does not fit its bit field, a malformed annotation
    /// numeral, or a glyph outside the table.
    Unencodable,
    /// A stored position that does not parse back into a board, or a move
    /// the oracle resolved but then refused to apply.
    BadPosition,
}

/// One warning: the index of the abandoned game and the reason.
#[derive(Debug, Clone, PartialEq, Eq)]
pub struct BuildWarning {
    pub game_index: u32,
    pub kind: WarningKind,
}

/// Whether some warning names the given game.
pub open spec fn spec_warned(ws: Seq<BuildWarning>, g: u32) -> bool {
    exists|j: int| 0 <= j < ws.len() && ws[j].game_index == g
}

/// Whether a parsed game holds a variation with no tokens.
pub open spec fn spec_has_empty_variation(g: &PgnGame) -> bool {
    exists|j: int|
        0 <= j < varmap::pgn_variation_entries(&g.variations).len() && varmap::pgn_variation_entries(
            &g.variations,
        )[j].1@.len() == 0
}

/// The result code a result token's text denotes; anything unrecognised is
/// undefined.
pub open spec fn spec_result_char(s: Seq<u8>) -> char {
    if s == seq![0x31u8, 0x2Du8, 0x30u8] {
        'w'
    } else if s == seq![0x30u8, 0x2Du8, 0x31u8] {
        'b'
    } else if s == seq![0x31u8, 0x2Fu8, 0x32u8, 0x2Du8, 0x31u8, 0x2Fu8, 0x32u8] {
        'd'
    } else {
        'u'
    }
}

/// Translate a result token's text into the stored result code.
pub fn result_to_char(s: &[u8]) -> (r: char)
    ensures
        r == spec_result_char(s@),
{
    if s.len() == 3 && s[0] == 0x31 && s[1] == 0x2D && s[2] == 0x30 {
        proof {
            assert(s@ =~= seq![0x31u8, 0x2Du8, 0x30u8]);
        }
        'w'
    } else if s.len() == 3 && s[0] == 0x30 && s[1] == 0x2D && s[2] == 0x31 {
        proof {
            assert(s@ =~= seq![0x30u8, 0x2Du8, 0x31u8]);
        }
        'b'
    } else if s.len() == 7 && s[0] == 0x31 && s[1] == 0x2F && s[2] == 0x32 && s[3] == 0x2D && s[4]
        == 0x31 && s[5] == 0x2F && s[6] == 0x32 {
        proof {
            assert(s@ =~= seq![0x31u8, 0x2Fu8, 0x32u8, 0x2Du8, 0x31u8, 0x2Fu8, 0x32u8]);
        }
        'd'
    } else {
        'u'
    }
}

/// The annotation-glyph table: `!` 1, `?` 2, `!!` 3, `??` 4, `!?` 5, `?!` 6.
pub open spec fn spec_annotation_nag(s: Seq<u8>) -> Option<u8> {
    if s == seq![0x21u8] {
        Some(1u8)
    } else if s == seq![0x3Fu8] {
        Some(2u8)
    } else if s == seq![0x21u8, 0x21u8] {
        Some(3u8)
    } else if s == seq![0x3Fu8, 0x3Fu8] {
        Some(4u8)
    } else if s == seq![0x21u8, 0x3Fu8] {
        Some(5u8)
    } else if s == seq![0x3Fu8, 0x21u8] {
        Some(6u8)
    } else {
        None
    }
}

/// Translate a textual annotation glyph through the fixed table.
pub fn annotation_to_nag(s: &[u8]) -> (r: Option<u8>)
    ensures
        r == spec_annotation_nag(s@),
{
    let r = if s.len() == 1 {
        match s[0] {
            0x21 => Some(1u8),
            0x3F => Some(2u8),
            _ => None,
        }
    } else if s.len() == 2 {
        match (s[0], s[1]) {
            (0x21, 0x21) => Some(3u8),
            (0x3F, 0x3F) => Some(4u8),
            (0x21, 0x3F) => Some(5u8),
            (0x3F, 0x21) => Some(6u8),
            _ => None,
        }
    } else {
        None
    };
    proof {
        if s@.len() == 1 {
            if s@[0] == 0x21 {
                assert(s@ =~= seq![0x21u8]);
            } else if s@[0] == 0x3F {
                assert(s@ =~= seq![0x3Fu8]);
            }
        } else if s@.len() == 2 {
            if s@[0] == 0x21 && s@[1] == 0x21 {
                assert(s@ =~= seq![0x21u8, 0x21u8]);
            } else if s@[0] == 0x3F && s@[1] == 0x3F {
                assert(s@ =~= seq![0x3Fu8, 0x3Fu8]);
            } else if s@[0] == 0x21 && s@[1] == 0x3F {
                assert(s@ =~= seq![0x21u8, 0x3Fu8]);
            } else if s@[0] == 0x3F && s@[1] == 0x21 {
                assert(s@ =~= seq![0x3Fu8, 0x21u8]);
            }
        }
    }
    r
}

/// A NAG numeral that fits its sixteen-bit field.
pub open spec fn spec_nag_numeral(s: Seq<u8>) -> Option<u16> {
    if s.len() > 0 && spec_all_digits(s) && spec_digits_value(s) <= 0xFFFF {
        Some(spec_digits_value(s) as u16)
    } else {
        None
    }
}

/// Parse a NAG numeral; digits only, and the value must fit the field.
pub fn parse_nag_numeral(s: &[u8]) -> (r: Option<u16>)
    ensures
        r == spec_nag_numeral(s@),
{
    if s.len() == 0 {
        return None;
    }
    let mut acc: u32 = 0;
    let mut j: usize = 0;
    while j < s.len()
        invariant
            0 <= j <= s@.len(),
            forall|k: int| 0 <= k < j ==> 0x30 <= #[trigger] s@[k] <= 0x39,
            acc == if spec_digits_value(s@.subrange(0, j as int)) > 0x10000 {
                0x10001int
            } else {
                spec_digits_value(s@.subrange(0, j as int))
            },
            acc <= 0x10001,
        decreases s@.len() - j,
    {
        if s[j] < 0x30 || s[j] > 0x39 {
            return None;
        }
        let ghost prefix = s@.subrange(0, j as int);
        let ghost next_prefix = s@.subrange(0, j + 1);
        proof {
            assert(next_prefix.drop_last() =~= prefix);
            assert(next_prefix.last() == s@[j as int]);
            let v = spec_digits_value(prefix);
            assert(v * 10 + (s@[j as int] - 0x30) >= v) by (nonlinear_arith)
                requires
                    v >= 0,
                    0x30 <= s@[j as int] <= 0x39,
            ;
            crate::utils::lemma_digits_value_nonneg(prefix);
        }
        let d = (s[j] - 0x30) as u32;
        if acc > 0x10000 {
            acc = 0x10001;
        } else {
            acc = acc * 10 + d;
            if acc > 0x10000 {
                acc = 0x10001;
            }
        }
        j = j + 1;
    }
    proof {
        assert(s@.subrange(0, s@.len() as int) =~= s@);
    }
    if acc <= 0xFFFF {
        Some(acc as u16)
    } else {
        None
    }
}

/// The half-move index before a numbered move: zero-based plies, so white's
/// n-th move sits after 2n-2 plies and black's after 2n-1. A number of zero
/// stays at zero, and the index saturates at its field's width.
pub open spec fn spec_move_to_halfmove(n: int, black: bool) -> int {
    if n == 0 {
        0
    } else {
        let h = if black {
            2 * n - 1
        } else {
            2 * n - 2
        };
        if h > 0xFFFF {
            0xFFFF
        } else {
            h
        }
    }
}

pub fn move_to_halfmove(n: u32, black: bool) -> (r: u16)
    ensures
        r == spec_move_to_halfmove(n as int, black),
{
    if n == 0 {
        return 0;
    }
    let wide: u64 = if black {
        2 * (n as u64) - 1
    } else {
        2 * (n as u64) - 2
    };
    if wide > 0xFFFF {
        0xFFFF
    } else {
        wide as u16
    }
}

/// The stored FEN: the piece placement, the side to move, the castling
/// letters of whichever rights remain, and the en-passant square when one
/// exists. No half-move or full-move counters are kept.
pub open spec fn spec_assemble_fen(
    pieces: Seq<u8>,
    black_turn: bool,
    wk: bool,
    wq: bool,
    bk: bool,
    bq: bool,
    ep: Option<Seq<u8>>,
) -> Seq<u8> {
    pieces + seq![0x20u8, if black_turn { 0x62u8 } else { 0x77u8 }, 0x20u8]
        + (if wk { seq![0x4Bu8] } else { Seq::empty() })
        + (if wq { seq![0x51u8] } else { Seq::empty() })
        + (if bk { seq![0x6Bu8] } else { Seq::empty() })
        + (if bq { seq![0x71u8] } else { Seq::empty() })
        + (match ep {
            Some(e) => seq![0x20u8] + e,
            None => Seq::empty(),
        })
}

/// Assemble the stored FEN from its parts.
#[verifier::rlimit(100)]
pub fn assemble_fen(
    pieces: Vec<u8>,
    black_turn: bool,
    wk: bool,
    wq: bool,
    bk: bool,
    bq: bool,
    ep: Option<Vec<u8>>,
) -> (r: Vec<u8>)
    ensures
        r@ == spec_assemble_fen(
            pieces@,
            black_turn,
            wk,
            wq,
            bk,
            bq,
            match ep {
                Some(e) => Some(e@),
                None => None,
            },
        ),
{
    let ghost pieces_view = pieces@;
    let ghost head = pieces@ + seq![
        0x20u8,
        if black_turn {
            0x62u8
        } else {
            0x77u8
        },
        0x20u8,
    ];
    let ghost castles = (if wk {
        seq![0x4Bu8]
    } else {
        Seq::<u8>::empty()
    }) + (if wq {
        seq![0x51u8]
    } else {
        Seq::<u8>::empty()
    }) + (if bk {
        seq![0x6Bu8]
    } else {
        Seq::<u8>::empty()
    }) + (if bq {
        seq![0x71u8]
    } else {
        Seq::<u8>::empty()
    });
    let mut out = pieces;
    out.push(0x20);
    out.push(if black_turn {
        0x62
    } else {
        0x77
    });
    out.push(0x20);
    proof {
        assert(out@ =~= head);
    }
    if wk {
        out.push(0x4B);
    }
    if wq {
        out.push(0x51);
    }
    if bk {
        out.push(0x6B);
    }
    if bq {
        out.push(0x71);
    }
    proof {
        assert(out@ =~= head + castles);
    }
    match &ep {
        Some(e) => {
            out.push(0x20);
            let mut i: usize = 0;
            while i < e.len()
                invariant
                    0 <= i <= e@.len(),
                    out@ =~= head + castles + seq![0x20u8] + e@.take(i as int),
                decreases e@.len() - i,
            {
                out.push(e[i]);
                proof {
                    assert(e@.take(i + 1) =~= e@.take(i as int).push(e@[i as int]));
                }
                i = i + 1;
            }
            proof {
                assert(e@.take(e@.len() as int) =~= e@);
                assert(out@ =~= head + castles + (seq![0x20u8] + e@));
            }
        },
        None => {
            proof {
                assert(out@ =~= head + castles + Seq::<u8>::empty());
            }
        },
    }
    proof {
        assert(out@ =~= spec_assemble_fen(
            pieces_view,
            black_turn,
            wk,
            wq,
            bk,
            bq,
            match ep {
                Some(e) => Some(e@),
                None => None,
            },
        ));
    }
    out
}

/// Render the live board as the stored FEN form, assembled from the rules
/// oracle's answers about the position.
pub fn get_fen_from_board(board: &shakmaty::Chess) -> (r: Vec<u8>)
    ensures
        exists|pieces: Seq<u8>, bt: bool, wk: bool, wq: bool, bk: bool, bq: bool, ep: Option<
            Seq<u8>,
        >| r@ == spec_assemble_fen(pieces, bt, wk, wq, bk, bq, ep),
{
    let pieces = oracle::board_fen_bytes(board);
    let black_turn = oracle::board_turn_is_black(board);
    let wk = oracle::board_has_castling(board, true, true);
    let wq = oracle::board_has_castling(board, true, false);
    let bk = oracle::board_has_castling(board, false, true);
    let bq = oracle::board_has_castling(board, false, false);
    let ep = oracle::board_ep_square_bytes(board);
    assemble_fen(pieces, black_turn, wk, wq, bk, bq, ep)
}


/// Header pairs taken to their byte-sequence views.
pub open spec fn header_views(s: Seq<(Vec<u8>, Vec<u8>)>) -> Seq<(Seq<u8>, Seq<u8>)> {
    s.map_values(|p: (Vec<u8>, Vec<u8>)| (p.0@, p.1@))
}

/// Comment pairs taken to their byte-sequence views.
pub open spec fn comment_views(s: Seq<(u16, Vec<u8>)>) -> Seq<(u16, Seq<u8>)> {
    s.map_values(|p: (u16, Vec<u8>)| (p.0, p.1@))
}

/// Packed entries taken to their integer views.
pub open spec fn move_views(s: Seq<crate::u24::u24>) -> Seq<u32> {
    s.map_values(|m: crate::u24::u24| m@)
}

/// The stored result code after walking the header tokens from `i` with
/// `cur` so far: the last result token wins.
pub open spec fn spec_result_scan(gs: Seq<TokenView>, i: int, cur: char) -> char
    decreases gs.len() - i,
{
    if i < 0 || i >= gs.len() {
        cur
    } else {
        match gs[i] {
            TokenView::Result(s) => spec_result_scan(gs, i + 1, spec_result_char(s)),
            _ => spec_result_scan(gs, i + 1, cur),
        }
    }
}

/// The header pairs gathered from the header tokens from `i` on: each tag
/// value pairs with the most recent tag name, `key` so far.
pub open spec fn spec_headers_scan(gs: Seq<TokenView>, i: int, key: Seq<u8>) -> Seq<
    (Seq<u8>, Seq<u8>),
>
    decreases gs.len() - i,
{
    if i < 0 || i >= gs.len() {
        Seq::empty()
    } else {
        match gs[i] {
            TokenView::TagSymbol(k) => spec_headers_scan(gs, i + 1, k),
            TokenView::TagString(v) => seq![(key, v)] + spec_headers_scan(gs, i + 1, key),
            _ => spec_headers_scan(gs, i + 1, key),
        }
    }
}

/// Association update: the first pair holding the key is replaced, and a
/// new key is appended.
pub open spec fn spec_set_assoc(s: Seq<(u16, Seq<u8>)>, k: u16, v: Seq<u8>) -> Seq<
    (u16, Seq<u8>),
>
    decreases s.len(),
{
    if s.len() == 0 {
        seq![(k, v)]
    } else if s[0].0 == k {
        seq![(k, v)] + s.skip(1)
    } else {
        seq![s[0]] + spec_set_assoc(s.skip(1), k, v)
    }
}

/// The half-move a variation starts at: taken from the first move-number
/// token it contains, zero when it has none.
pub open spec fn spec_start_at(ts: Seq<PgnTokenView>, i: int) -> int
    decreases ts.len() - i,
{
    if i < 0 || i >= ts.len() {
        0
    } else {
        match ts[i] {
            PgnTokenView::Token(TokenView::MoveNumber(n, black)) => spec_move_to_halfmove(
                n as int,
                black,
            ),
            _ => spec_start_at(ts, i + 1),
        }
    }
}

/// The state while rebuilding one variation at the mathematical level: the
/// packed entries and comments so far, the running half-move, the oracle
/// codes not yet consumed (one per move token, bound by the caller), and
/// whether every entry fitted its field.
pub struct VarBuild {
    pub moves: Seq<u32>,
    pub comments: Seq<(u16, Seq<u8>)>,
    pub half: int,
    pub rest_codes: Seq<u32>,
    pub ok: bool,
}

pub open spec fn spec_var_init(codes: Seq<u32>, start: int) -> VarBuild {
    VarBuild {
        moves: Seq::empty(),
        comments: Seq::empty(),
        half: start,
        rest_codes: codes,
        ok: true,
    }
}

/// One variation token's effect on the rebuilt content.
pub open spec fn spec_var_step(st: VarBuild, t: PgnTokenView) -> VarBuild {
    if !st.ok {
        st
    } else {
        match t {
            PgnTokenView::VariationPointer(p) => if p > 0xFFFF {
                VarBuild { ok: false, ..st }
            } else {
                VarBuild { moves: st.moves.push(spec_encode_marker(p as int) as u32), ..st }
            },
            PgnTokenView::Token(TokenView::Move(_)) => if st.rest_codes.len() == 0 {
                VarBuild { ok: false, ..st }
            } else {
                VarBuild {
                    moves: st.moves.push(st.rest_codes[0]),
                    half: if st.half < 0xFFFF {
                        st.half + 1
                    } else {
                        st.half
                    },
                    rest_codes: st.rest_codes.skip(1),
                    ..st
                }
            },
            PgnTokenView::Token(TokenView::NAG(nb)) => match spec_nag_numeral(nb) {
                Some(n) => VarBuild { moves: st.moves.push(spec_encode_nag(n as int) as u32), ..st },
                None => VarBuild { ok: false, ..st },
            },
            PgnTokenView::Token(TokenView::MoveAnnotation(a)) => match spec_annotation_nag(a) {
                Some(n) => VarBuild {
                    moves: st.moves.push(spec_encode_marker(n as int) as u32),
                    ..st
                },
                None => VarBuild { ok: false, ..st },
            },
            PgnTokenView::Token(TokenView::MoveNumber(n, black)) => VarBuild {
                half: spec_move_to_halfmove(n as int, black),
                ..st
            },
            PgnTokenView::Token(TokenView::Commentary(cb)) => VarBuild {
                comments: spec_set_assoc(st.comments, st.half as u16, cb),
                ..st
            },
            _ => st,
        }
    }
}

/// The rebuilt content after the first `i` tokens.
pub open spec fn spec_var_run(ts: Seq<PgnTokenView>, codes: Seq<u32>, start: int, i: int) -> VarBuild
    decreases i,
{
    if i <= 0 {
        spec_var_init(codes, start)
    } else {
        spec_var_step(spec_var_run(ts, codes, start, i - 1), ts[i - 1])
    }
}

/// Appending one unconsumed code to the code list changes nothing about a
/// successful rebuild prefix except that the code waits at the end.
proof fn lemma_var_run_extend_codes(
    ts: Seq<PgnTokenView>,
    codes: Seq<u32>,
    c: u32,
    start: int,
    i: int,
)
    requires
        0 <= i,
        spec_var_run(ts, codes, start, i).ok,
    ensures
        spec_var_run(ts, codes.push(c), start, i) == (VarBuild {
            rest_codes: spec_var_run(ts, codes, start, i).rest_codes.push(c),
            ..spec_var_run(ts, codes, start, i)
        }),
    decreases i,
{
    if i > 0 {
        let prev = spec_var_run(ts, codes, start, i - 1);
        if !prev.ok {
            assert(spec_var_run(ts, codes, start, i) == prev);
            assert(false);
        }
        lemma_var_run_extend_codes(ts, codes, c, start, i - 1);
        match ts[i - 1] {
            PgnTokenView::Token(TokenView::Move(_)) => {
                assert(prev.rest_codes.len() > 0);
                assert(prev.rest_codes.push(c)[0] == prev.rest_codes[0]);
                assert(prev.rest_codes.push(c).skip(1) =~= prev.rest_codes.skip(1).push(c));
            },
            _ => {},
        }
    }
}

/// The outcome claim for one kept variation against one list of per-move
/// codes: the rebuild succeeds, consumes every code, and produces exactly
/// the stored entries and comments.
pub open spec fn spec_variation_outcome(
    ts: Seq<PgnTokenView>,
    codes: Seq<u32>,
    cv: CmbrVariation,
) -> bool {
    let st = spec_var_run(ts, codes, spec_start_at(ts, 0), ts.len() as int);
    &&& st.ok
    &&& st.rest_codes.len() == 0
    &&& st.moves == move_views(cv.moves@)
    &&& st.comments == comment_views(cv.comments@)
}

/// A kept variation matches its token list: it starts at the half-move of
/// the first move-number token, and its entries and comments are the
/// rebuild over the tokens for some list of per-move codes (the codes
/// themselves come from the rules oracle).
pub open spec fn spec_variation_matches(ts: Seq<PgnTokenView>, cv: CmbrVariation) -> bool {
    &&& cv.starts_at as int == spec_start_at(ts, 0)
    &&& exists|codes: Seq<u32>| spec_variation_outcome(ts, codes, cv)
}

/// A variation-body token no field can carry: an oversized pointer marker,
/// a malformed or oversized annotation numeral, or a glyph outside the
/// table.
pub open spec fn spec_token_unencodable(t: PgnTokenView) -> bool {
    match t {
        PgnTokenView::VariationPointer(p) => p > 0xFFFF,
        PgnTokenView::Token(TokenView::NAG(nb)) => spec_nag_numeral(nb) is None,
        PgnTokenView::Token(TokenView::MoveAnnotation(a)) => spec_annotation_nag(a) is None,
        _ => false,
    }
}

/// Whether something in the game cannot be encoded: an unencodable token in
/// some variation, or a variation pointer too wide for the branch key.
pub open spec fn spec_has_unencodable(g: &PgnGame) -> bool {
    let entries = varmap::pgn_variation_entries(&g.variations);
    ||| exists|j: int| 0 <= j < entries.len() && (#[trigger] entries[j]).0 > 0xFFFF
    ||| exists|j: int, k: int|
        0 <= j < entries.len() && 0 <= k < entries[j].1@.len() && spec_token_unencodable(
            #[trigger] entries[j].1@[k],
        )
}

/// Whether some variation of the game holds a move token with this text.
pub open spec fn spec_has_move_text(g: &PgnGame, m: Seq<u8>) -> bool {
    let entries = varmap::pgn_variation_entries(&g.variations);
    exists|j: int, k: int|
        0 <= j < entries.len() && 0 <= k < entries[j].1@.len() && #[trigger] entries[j].1@[k]
            == PgnTokenView::Token(TokenView::Move(m))
}

/// What a kept game owes to the parsed game it came from: the result code
/// of its last result token, the header pairs in order, the initial
/// position recorded under the zero key, and — when the variation pointers
/// are pairwise distinct, which the tree builder guarantees — one matching
/// converted variation per parsed variation, addressed by its pointer.
pub open spec fn spec_game_matches(input: &PgnGame, g: CmbrGame, initial_hash: u32) -> bool {
    let globals = input.global_tokens@.map_values(|t: Token| t@);
    let input_vars = varmap::pgn_variation_entries(&input.variations);
    let out_vars = varmap::cmbr_variation_entries(&g.variations);
    &&& g.result == spec_result_scan(globals, 0, 'u')
    &&& header_views(g.headers@) == spec_headers_scan(globals, 0, Seq::empty())
    &&& g.encountered_positions@.contains_key(0)
    &&& g.encountered_positions@[0] == initial_hash
    &&& (crate::posmap::distinct_keys(input_vars) ==> out_vars.len() == input_vars.len()
        && (forall|i: int|
        0 <= i < input_vars.len() ==> match varmap::spec_entries_get(
            out_vars,
            (#[trigger] input_vars[i]).0,
        ) {
            Some(cv) => spec_variation_matches(input_vars[i].1@, cv),
            None => false,
        }))
}

/// The half-move a variation starts at, read from its first move-number
/// token; zero when it has none.
pub fn variation_start_at(v: &PgnVar) -> (r: u16)
    ensures
        r as int == spec_start_at(v@, 0),
{
    let mut i: usize = 0;
    while i < v.0.len()
        invariant
            0 <= i <= v.0@.len(),
            spec_start_at(v@, 0) == spec_start_at(v@, i as int),
        decreases v.0@.len() - i,
    {
        proof {
            assert(v@[i as int] == v.0@[i as int]@);
        }
        match &v.0[i] {
            PgnToken::Token(Token::MoveNumber(n, black)) => {
                return move_to_halfmove(*n, *black);
            },
            _ => {},
        }
        i = i + 1;
    }
    0
}

/// One table growing under another: every hash already recorded keeps its
/// first FEN.
pub open spec fn spec_positions_extended(before: Map<u32, Vec<u8>>, after: Map<u32, Vec<u8>>) -> bool {
    forall|k: u32|
        #[trigger] before.contains_key(k) ==> after.contains_key(k) && after[k] == before[k]
}

/// An owned copy of a byte vector's contents.
fn clone_bytes(v: &Vec<u8>) -> (r: Vec<u8>)
    ensures
        r@ == v@,
{
    vstd::slice::slice_to_vec(v.as_slice())
}

/// Attach a comment at a half-move: the first comment at the same
/// half-move is replaced, otherwise the pair is appended.
fn comments_set(c: &mut Vec<(u16, Vec<u8>)>, k: u16, v: Vec<u8>)
    ensures
        comment_views(final(c)@) == spec_set_assoc(comment_views(old(c)@), k, v@),
{
    let ghost target = spec_set_assoc(comment_views(old(c)@), k, v@);
    let mut i: usize = 0;
    proof {
        assert(comment_views(c@).take(0) =~= Seq::<(u16, Seq<u8>)>::empty());
        assert(comment_views(c@).skip(0) =~= comment_views(c@));
        assert(Seq::<(u16, Seq<u8>)>::empty() + spec_set_assoc(comment_views(c@), k, v@)
            =~= spec_set_assoc(comment_views(c@), k, v@));
    }
    while i < c.len()
        invariant
            0 <= i <= c@.len(),
            c@ == old(c)@,
            target == spec_set_assoc(comment_views(old(c)@), k, v@),
            target == comment_views(c@).take(i as int) + spec_set_assoc(
                comment_views(c@).skip(i as int),
                k,
                v@,
            ),
        decreases c@.len() - i,
    {
        let ghost views = comment_views(c@);
        proof {
            assert(views.skip(i as int)[0] == views[i as int]);
            assert(views[i as int] == (c@[i as int].0, c@[i as int].1@));
        }
        if c[i].0 == k {
            let elem = crate::utils::vec_index_mut(c, i);
            *elem = (k, v);
            proof {
                assert(views.skip(i as int).skip(1) =~= views.skip(i + 1));
                assert(spec_set_assoc(views.skip(i as int), k, v@) == seq![(k, v@)] + views.skip(
                    i + 1,
                ));
                assert(comment_views(c@) =~= views.take(i as int) + (seq![(k, v@)] + views.skip(
                    i + 1,
                )));
            }
            return ;
        }
        proof {
            assert(views.skip(i as int).skip(1) =~= views.skip(i + 1));
            assert(spec_set_assoc(views.skip(i as int), k, v@) == seq![views[i as int]]
                + spec_set_assoc(views.skip(i + 1), k, v@));
            assert(views.take(i as int) + (seq![views[i as int]] + spec_set_assoc(
                views.skip(i + 1),
                k,
                v@,
            )) =~= views.take(i + 1) + spec_set_assoc(views.skip(i + 1), k, v@));
        }
        i = i + 1;
    }
    proof {
        assert(comment_views(c@).skip(c@.len() as int) =~= Seq::<(u16, Seq<u8>)>::empty());
        assert(comment_views(c@).take(c@.len() as int) =~= comment_views(c@));
    }
    c.push((k, v));
    proof {
        assert(comment_views(c@) =~= comment_views(old(c)@) + seq![(k, v@)]);
        assert(target =~= comment_views(old(c)@) + seq![(k, v@)]);
    }
}

/// A warning list grown by one entry names a game exactly when the list
/// already did or the new entry does.
proof fn lemma_warned_push(ws: Seq<BuildWarning>, w: BuildWarning, g: u32)
    ensures
        spec_warned(ws.push(w), g) <==> (spec_warned(ws, g) || w.game_index == g),
{
    if spec_warned(ws, g) {
        let j = choose|j: int| 0 <= j < ws.len() && ws[j].game_index == g;
        assert(ws.push(w)[j] == ws[j]);
    }
    if w.game_index == g {
        assert(ws.push(w)[ws.len() as int] == w);
    }
    if spec_warned(ws.push(w), g) {
        let j = choose|j: int| 0 <= j < ws.push(w).len() && ws.push(w)[j].game_index == g;
        if j < ws.len() {
            assert(ws[j] == ws.push(w)[j]);
        }
    }
}

/// Convert one parsed game, extending the file-wide position table. The
/// error names why the game was abandoned and is tied to its cause where
/// the library itself decides it; a kept game matches its parsed form. The
/// table only grows, and what a hash was first recorded with stays.
#[verifier::rlimit(100)]
pub fn convert_game(
    game: &PgnGame,
    convertor: &mut SanToCmbrMvConvertor,
    file_positions: &mut U32Map<Vec<u8>>,
    initial_hash: u32,
) -> (r: Result<CmbrGame, WarningKind>)
    requires
        old(file_positions).wf(),
    ensures
        final(file_positions).wf(),
        spec_positions_extended(old(file_positions)@, final(file_positions)@),
        spec_has_empty_variation(game) ==> r is Err,
        r matches Ok(g) ==> spec_game_matches(game, g, initial_hash),
        r matches Err(k) ==> match k {
            WarningKind::EmptyVariation => spec_has_empty_variation(game),
            WarningKind::Unencodable => spec_has_unencodable(game),
            WarningKind::IllegalSan(m) => spec_has_move_text(game, m@),
            WarningKind::UnresolvedBranch => true,
            WarningKind::BadPosition => true,
        },
{
    let ghost input_entries = varmap::pgn_variation_entries(&game.variations);
    let ghost distinct_input = crate::posmap::distinct_keys(input_entries);
    let ghost globals = game.global_tokens@.map_values(|t: Token| t@);
    let mut headers: Vec<(Vec<u8>, Vec<u8>)> = Vec::new();
    let mut result_code: char = 'u';
    let mut current_key: Vec<u8> = Vec::new();
    let mut hi: usize = 0;
    proof {
        assert(header_views(headers@) =~= Seq::<(Seq<u8>, Seq<u8>)>::empty());
        assert(current_key@ =~= Seq::<u8>::empty());
        assert(header_views(headers@) + spec_headers_scan(globals, 0, current_key@)
            =~= spec_headers_scan(globals, 0, Seq::empty()));
    }
    while hi < game.global_tokens.len()
        invariant
            0 <= hi <= game.global_tokens@.len(),
            globals == game.global_tokens@.map_values(|t: Token| t@),
            spec_result_scan(globals, 0, 'u') == spec_result_scan(globals, hi as int, result_code),
            spec_headers_scan(globals, 0, Seq::empty()) == header_views(headers@)
                + spec_headers_scan(globals, hi as int, current_key@),
        decreases game.global_tokens@.len() - hi,
    {
        proof {
            assert(globals[hi as int] == game.global_tokens@[hi as int]@);
        }
        match &game.global_tokens[hi] {
            Token::Result(rbytes) => {
                result_code = result_to_char(rbytes.as_slice());
            },
            Token::TagSymbol(kbytes) => {
                current_key = clone_bytes(kbytes);
            },
            Token::TagString(vbytes) => {
                let ghost before = header_views(headers@);
                headers.push((clone_bytes(&current_key), clone_bytes(vbytes)));
                proof {
                    assert(header_views(headers@) =~= before.push((current_key@, vbytes@)));
                    assert(before + (seq![(current_key@, vbytes@)] + spec_headers_scan(
                        globals,
                        hi + 1,
                        current_key@,
                    )) =~= before.push((current_key@, vbytes@)) + spec_headers_scan(
                        globals,
                        hi + 1,
                        current_key@,
                    ));
                }
            },
            _ => {},
        }
        hi = hi + 1;
    }
    proof {
        assert(header_views(headers@) + spec_headers_scan(
            globals,
            globals.len() as int,
            current_key@,
        ) =~= header_views(headers@));
    }
    let mut variation_parents: U32Map<u32> = U32Map::new();
    variation_parents.insert(0, 0);
    let mut cmbr_vars = varmap::cmbr_vars_new();
    let mut game_positions: U32Map<u32> = U32Map::new();
    game_positions.insert(0, initial_hash);
    let total = varmap::pgn_vars_len(&game.variations);
    let mut idx: usize = 0;
    while idx < total
        invariant
            0 <= idx <= total,
            total == varmap::pgn_variation_entries(&game.variations).len(),
            file_positions.wf(),
            variation_parents.wf(),
            game_positions.wf(),
            spec_positions_extended(old(file_positions)@, file_positions@),
            forall|j: int|
                0 <= j < idx ==> (#[trigger] varmap::pgn_variation_entries(&game.variations)[j]).1@.len()
                    != 0,
            input_entries == varmap::pgn_variation_entries(&game.variations),
            distinct_input == crate::posmap::distinct_keys(input_entries),
            game_positions@.contains_key(0),
            game_positions@[0] == initial_hash,
            forall|k: u32|
                #[trigger] variation_parents@.contains_key(k) ==> variation_parents@[k] == 0
                    || exists|j: int|
                    0 <= j < input_entries.len() && (#[trigger] input_entries[j]).0
                        == variation_parents@[k],
            varmap::spec_entries_sorted(varmap::cmbr_variation_entries(&cmbr_vars)),
            distinct_input ==> varmap::cmbr_variation_entries(&cmbr_vars).len() == idx,
            distinct_input ==> forall|k2: u32|
                varmap::spec_entries_get(varmap::cmbr_variation_entries(&cmbr_vars), k2) is Some
                    ==> exists|j: int| 0 <= j < idx && (#[trigger] input_entries[j]).0 == k2,
            distinct_input ==> forall|j: int|
                0 <= j < idx ==> match varmap::spec_entries_get(
                    varmap::cmbr_variation_entries(&cmbr_vars),
                    (#[trigger] input_entries[j]).0,
                ) {
                    Some(cv) => spec_variation_matches(input_entries[j].1@, cv),
                    None => false,
                },
        decreases total - idx,
    {
        let entry = varmap::pgn_vars_get_indexed(&game.variations, idx);
        match entry {
            None => {
                return Err(WarningKind::UnresolvedBranch);
            },
            Some((id, variation)) => {
                if variation.0.len() == 0 {
                    proof {
                        assert(input_entries[idx as int].1@.len() == 0);
                    }
                    return Err(WarningKind::EmptyVariation);
                }
                let start_at: u16 = variation_start_at(variation);
                let parent: u32 = match variation_parents.get(id) {
                    Some(p) => *p,
                    None => {
                        return Err(WarningKind::UnresolvedBranch);
                    },
                };
                if parent > 0xFFFF {
                    proof {
                        let j = choose|j: int|
                            0 <= j < input_entries.len() && (#[trigger] input_entries[j]).0
                                == parent;
                        assert(input_entries[j].0 > 0xFFFF);
                    }
                    return Err(WarningKind::Unencodable);
                }
                let positions_pointer: u32 = parent * 0x10000 + (start_at as u32);
                let hash: u32 = match game_positions.get(positions_pointer) {
                    Some(h) => *h,
                    None => {
                        return Err(WarningKind::UnresolvedBranch);
                    },
                };
                let fen: Vec<u8> = match file_positions.get(hash) {
                    Some(f) => clone_bytes(f),
                    None => {
                        return Err(WarningKind::UnresolvedBranch);
                    },
                };
                let mut board = match oracle::board_from_fen(fen.as_slice()) {
                    Some(b) => b,
                    None => {
                        return Err(WarningKind::BadPosition);
                    },
                };
                let mut cv = CmbrVariation::new(start_at);
                let mut current_half: u16 = start_at;
                let ghost ts = variation@;
                let ghost mut codes: Seq<u32> = Seq::empty();
                let mut ti: usize = 0;
                proof {
                    assert(ts == input_entries[idx as int].1@);
                    assert(move_views(cv.moves@) =~= Seq::<u32>::empty());
                    assert(comment_views(cv.comments@) =~= Seq::<(u16, Seq<u8>)>::empty());
                }
                while ti < variation.0.len()
                    invariant
                        0 <= ti <= variation.0@.len(),
                        ts == variation@,
                        ts.len() == variation.0@.len(),
                        file_positions.wf(),
                        variation_parents.wf(),
                        game_positions.wf(),
                        spec_positions_extended(old(file_positions)@, file_positions@),
                        input_entries == varmap::pgn_variation_entries(&game.variations),
                        game_positions@.contains_key(0),
                        game_positions@[0] == initial_hash,
                        forall|k: u32|
                            #[trigger] variation_parents@.contains_key(k)
                                ==> variation_parents@[k] == 0 || exists|j: int|
                                0 <= j < input_entries.len() && (#[trigger] input_entries[j]).0
                                    == variation_parents@[k],
                        0 <= idx < input_entries.len(),
                        id == input_entries[idx as int].0,
                        ts == input_entries[idx as int].1@,
                        cv.starts_at == start_at,
                        start_at as int == spec_start_at(ts, 0),
                        ({
                            let st = spec_var_run(ts, codes, start_at as int, ti as int);
                            &&& st.ok
                            &&& st.rest_codes.len() == 0
                            &&& st.moves == move_views(cv.moves@)
                            &&& st.comments == comment_views(cv.comments@)
                            &&& st.half == current_half as int
                        }),
                    decreases variation.0@.len() - ti,
                {
                    let ghost st_pre = spec_var_run(ts, codes, start_at as int, ti as int);
                    proof {
                        assert(ts[ti as int] == variation.0@[ti as int]@);
                        assert(spec_var_run(ts, codes, start_at as int, ti + 1) == spec_var_step(
                            st_pre,
                            ts[ti as int],
                        ));
                    }
                    match &variation.0[ti] {
                        PgnToken::VariationPointer(p) => {
                            if *p > 0xFFFF {
                                proof {
                                    assert(0 <= idx < input_entries.len() && 0 <= ti
                                        < input_entries[idx as int].1@.len()
                                        && spec_token_unencodable(
                                        input_entries[idx as int].1@[ti as int],
                                    ));
                                }
                                return Err(WarningKind::Unencodable);
                            }
                            let ghost before = move_views(cv.moves@);
                            cv.moves.push(encode_marker_cmbr(*p as u16));
                            variation_parents.insert(*p, id);
                            proof {
                                assert(move_views(cv.moves@) =~= before.push(
                                    spec_encode_marker(*p as int) as u32,
                                ));
                            }
                        },
                        PgnToken::Token(Token::NAG(nb)) => {
                            match parse_nag_numeral(nb.as_slice()) {
                                Some(n) => {
                                    let ghost before = move_views(cv.moves@);
                                    cv.moves.push(encode_nag_cmbr(n));
                                    proof {
                                        assert(move_views(cv.moves@) =~= before.push(
                                            spec_encode_nag(n as int) as u32,
                                        ));
                                    }
                                },
                                None => {
                                    proof {
                                        assert(0 <= idx < input_entries.len() && 0 <= ti
                                            < input_entries[idx as int].1@.len()
                                            && spec_token_unencodable(
                                            input_entries[idx as int].1@[ti as int],
                                        ));
                                    }
                                    return Err(WarningKind::Unencodable);
                                },
                            }
                        },
                        PgnToken::Token(Token::Move(m)) => {
                            match convertor.san_to_cmbr(&mut board, m.as_slice()) {
                                Ok(code) => {
                                    let ghost before = move_views(cv.moves@);
                                    proof {
                                        lemma_var_run_extend_codes(
                                            ts,
                                            codes,
                                            code@,
                                            start_at as int,
                                            ti as int,
                                        );
                                        codes = codes.push(code@);
                                        assert(spec_var_run(
                                            ts,
                                            codes,
                                            start_at as int,
                                            ti as int,
                                        ).rest_codes =~= seq![code@]);
                                    }
                                    cv.moves.push(code);
                                    proof {
                                        assert(move_views(cv.moves@) =~= before.push(code@));
                                        assert(seq![code@].skip(1) =~= Seq::<u32>::empty());
                                    }
                                    let hash2 = oracle::board_zobrist32(&board);
                                    let fen2 = get_fen_from_board(&board);
                                    let ghost pre_pos = file_positions@;
                                    file_positions.try_insert(hash2, fen2);
                                    proof {
                                        assert forall|k0: u32| #[trigger] old(
                                            file_positions,
                                        )@.contains_key(k0) implies file_positions@.contains_key(
                                            k0,
                                        ) && file_positions@[k0] == old(file_positions)@[k0] by {
                                            assert(pre_pos.contains_key(k0) && pre_pos[k0] == old(
                                                file_positions,
                                            )@[k0]);
                                        }
                                    }
                                    if current_half < 0xFFFF {
                                        current_half = current_half + 1;
                                    }
                                    if id <= 0xFFFF {
                                        proof {
                                            if id >= 1 {
                                                assert(id * 0x10000 >= 0x10000);
                                            }
                                        }
                                        game_positions.insert(
                                            id * 0x10000 + current_half as u32,
                                            hash2,
                                        );
                                    }
                                },
                                Err(e) => {
                                    proof {
                                        assert(0 <= idx < input_entries.len() && 0 <= ti
                                            < input_entries[idx as int].1@.len()
                                            && input_entries[idx as int].1@[ti as int]
                                            == PgnTokenView::Token(TokenView::Move(m@)));
                                    }
                                    if matches!(
                                        e.kind(),
                                        crate::error::LibCmbrErrorType::ShouldBeUnreachable
                                    ) {
                                        return Err(WarningKind::BadPosition);
                                    }
                                    return Err(WarningKind::IllegalSan(clone_bytes(m)));
                                },
                            }
                        },
                        PgnToken::Token(Token::MoveAnnotation(a)) => {
                            match annotation_to_nag(a.as_slice()) {
                                Some(n) => {
                                    let ghost before = move_views(cv.moves@);
                                    cv.moves.push(encode_marker_cmbr(n as u16));
                                    proof {
                                        assert(move_views(cv.moves@) =~= before.push(
                                            spec_encode_marker(n as int) as u32,
                                        ));
                                    }
                                },
                                None => {
                                    proof {
                                        assert(0 <= idx < input_entries.len() && 0 <= ti
                                            < input_entries[idx as int].1@.len()
                                            && spec_token_unencodable(
                                            input_entries[idx as int].1@[ti as int],
                                        ));
                                    }
                                    return Err(WarningKind::Unencodable);
                                },
                            }
                        },
                        PgnToken::Token(Token::MoveNumber(n, black)) => {
                            current_half = move_to_halfmove(*n, *black);
                        },
                        PgnToken::Token(Token::Commentary(cb)) => {
                            comments_set(&mut cv.comments, current_half, clone_bytes(cb));
                        },
                        _ => {},
                    }
                    ti = ti + 1;
                }
                proof {
                    assert(spec_variation_outcome(ts, codes, cv));
                    assert(spec_variation_matches(ts, cv));
                }
                let ghost cv_snapshot = cv;
                let ghost pre_cmbr = varmap::cmbr_variation_entries(&cmbr_vars);
                proof {
                    if distinct_input {
                        if varmap::spec_entries_get(pre_cmbr, id) is Some {
                            let j = choose|j: int|
                                0 <= j < idx && (#[trigger] input_entries[j]).0 == id;
                            assert(input_entries[j].0 == input_entries[idx as int].0);
                            assert(false);
                        }
                    }
                    varmap::lemma_entries_insert_len(pre_cmbr, id, cv);
                    varmap::lemma_entries_insert_sorted(pre_cmbr, id, cv);
                }
                varmap::cmbr_vars_insert(&mut cmbr_vars, id, cv);
                proof {
                    if distinct_input {
                        assert forall|k2: u32|
                            varmap::spec_entries_get(
                                varmap::cmbr_variation_entries(&cmbr_vars),
                                k2,
                            ) is Some implies exists|j: int|
                            0 <= j <= idx && (#[trigger] input_entries[j]).0 == k2 by {
                            varmap::lemma_entries_insert_keys(pre_cmbr, id, cv_snapshot, k2);
                            if k2 == id {
                                assert(input_entries[idx as int].0 == k2);
                            } else {
                                let j = choose|j: int|
                                    0 <= j < idx && (#[trigger] input_entries[j]).0 == k2;
                                assert(input_entries[j].0 == k2);
                            }
                        }
                        assert forall|j: int| 0 <= j <= idx implies match varmap::spec_entries_get(
                            varmap::cmbr_variation_entries(&cmbr_vars),
                            (#[trigger] input_entries[j]).0,
                        ) {
                            Some(cvx) => spec_variation_matches(input_entries[j].1@, cvx),
                            None => false,
                        } by {
                            varmap::lemma_entries_insert_get(
                                pre_cmbr,
                                id,
                                cv_snapshot,
                                input_entries[j].0,
                            );
                            if j < idx {
                                assert(input_entries[j].0 != id);
                            } else {
                                assert(input_entries[j].0 == id);
                            }
                        }
                    }
                }
            },
        }
        idx = idx + 1;
    }
    let g = CmbrGame {
        headers,
        result: result_code,
        variations: cmbr_vars,
        encountered_positions: game_positions,
    };
    proof {
        assert(spec_game_matches(game, g, initial_hash));
    }
    Ok(g)
}

impl CmbrFile {
    /// Convert every parsed game into the packed aggregate. Requesting
    /// compressed output fails the whole run: the mode does not exist and
    /// is rejected rather than silently ignored. Otherwise each game either
    /// joins the file under its index or is named by exactly one warning;
    /// a game holding an empty variation never joins the file.
    pub fn from_ast(
        ast: &Vec<PgnGame>,
        convertor: &mut SanToCmbrMvConvertor,
        is_compressed: bool,
    ) -> (r: Result<(CmbrFile, Vec<BuildWarning>), LibCmbrError>)
        requires
            ast@.len() <= u32::MAX,
        ensures
            match r {
                Ok(p) => !is_compressed && !p.0.is_compressed && p.0.spec_magic() == "CMBR!"@
                    && p.0.games.wf() && p.0.encountered_positions.wf() && (forall|g: u32|
                    p.0.games@.contains_key(g) ==> g < ast@.len()) && (forall|j: int|
                    0 <= j < p.1@.len() ==> (#[trigger] p.1@[j]).game_index < ast@.len()) && (
                forall|i: int|
                    0 <= i < ast@.len() ==> (#[trigger] p.0.games@.contains_key(i as u32)
                        <==> !spec_warned(p.1@, i as u32))) && (forall|i: int|
                    0 <= i < ast@.len() && spec_has_empty_variation(&ast@[i])
                        ==> !(#[trigger] p.0.games@.contains_key(i as u32))) && (exists|h: u32|
                    #[trigger] p.0.encountered_positions@.contains_key(h) && forall|i: int|
                        0 <= i < ast@.len() && #[trigger] p.0.games@.contains_key(i as u32)
                            ==> spec_game_matches(&ast@[i], p.0.games@[i as u32], h)),
                Err(e) => is_compressed && e.spec_kind()
                    == LibCmbrErrorType::CompressedOutputNotSupported,
            },
    {
        if is_compressed {
            return Err(LibCmbrError::new(LibCmbrErrorType::CompressedOutputNotSupported));
        }
        let mut file = CmbrFile::new(false);
        let board = oracle::board_default();
        let initial_hash = oracle::board_zobrist32(&board);
        let initial_fen = get_fen_from_board(&board);
        file.encountered_positions.try_insert(initial_hash, initial_fen);
        let mut warnings: Vec<BuildWarning> = Vec::new();
        let mut game_i: usize = 0;
        while game_i < ast.len()
            invariant
                0 <= game_i <= ast@.len(),
                ast@.len() <= u32::MAX,
                file.games.wf(),
                file.encountered_positions.wf(),
                !file.is_compressed,
                file.spec_magic() == "CMBR!"@,
                forall|g: u32| #[trigger] file.games@.contains_key(g) ==> g < game_i,
                forall|j: int|
                    0 <= j < warnings@.len() ==> (#[trigger] warnings@[j]).game_index < game_i,
                forall|k: int|
                    0 <= k < game_i ==> (#[trigger] file.games@.contains_key(k as u32)
                        <==> !spec_warned(warnings@, k as u32)),
                forall|k: int|
                    0 <= k < game_i && spec_has_empty_variation(&ast@[k]) ==> !(
                    #[trigger] file.games@.contains_key(k as u32)),
                file.encountered_positions@.contains_key(initial_hash),
                forall|k: int|
                    0 <= k < game_i && #[trigger] file.games@.contains_key(k as u32)
                        ==> spec_game_matches(&ast@[k], file.games@[k as u32], initial_hash),
            decreases ast@.len() - game_i,
        {
            let ghost pre_warnings = warnings@;
            let ghost pre_games = file.games@;
            match convert_game(
                &ast[game_i],
                convertor,
                &mut file.encountered_positions,
                initial_hash,
            ) {
                Ok(cg) => {
                    file.games.insert(game_i as u32, cg);
                },
                Err(kind) => {
                    let ghost w = BuildWarning { game_index: game_i as u32, kind: kind };
                    warnings.push(BuildWarning { game_index: game_i as u32, kind });
                    proof {
                        assert(warnings@ =~= pre_warnings.push(w));
                        lemma_warned_push(pre_warnings, w, game_i as u32);
                        assert(spec_warned(warnings@, game_i as u32));
                        assert forall|k: int| 0 <= k <= game_i implies (#[trigger] spec_warned(
                            warnings@,
                            k as u32,
                        ) <==> (spec_warned(pre_warnings, k as u32) || k == game_i)) by {
                            lemma_warned_push(pre_warnings, w, k as u32);
                        }
                    }
                },
            }
            proof {
                assert(!spec_warned(pre_warnings, game_i as u32));
            }
            game_i = game_i + 1;
        }
        proof {
            assert(file.encountered_positions@.contains_key(initial_hash) && forall|i: int|
                0 <= i < ast@.len() && #[trigger] file.games@.contains_key(i as u32)
                    ==> spec_game_matches(&ast@[i], file.games@[i as u32], initial_hash));
        }
        Ok((file, warnings))
    }
}

} // verus!
