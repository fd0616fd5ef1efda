//! The variation-tree builder: an explicit-stack walk over the token stream
//! that produces, per game, the list of header and result tokens and a map
//! from variation pointer to the tokens of that variation. The main line is
//! pointer zero; a newly opened branch gets the product of its parent's
//! pointer plus one and the n-th prime number, where n counts the variation
//! starts seen in the current game.

use vstd::prelude::*;
use crate::pgn::lex::{Token, TokenView};
use crate::utils::{is_prime, prime_count};

verus! {

pub type VariationPointerT = u32;

/// A token of a variation body: a lexical token or a pointer marker left in
/// the parent variation where a branch opens.
#[derive(Debug, Clone, PartialEq, Eq)]
pub enum PgnToken {
    Token(Token),
    VariationPointer(VariationPointerT),
    Empty,
}

/// The mathematical shape of a variation-body token.
pub enum PgnTokenView {
    Token(TokenView),
    VariationPointer(VariationPointerT),
    Empty,
}

impl View for PgnToken {
    type V = PgnTokenView;

    open spec fn view(&self) -> PgnTokenView {
        match self {
            PgnToken::Token(t) => PgnTokenView::Token(t@),
            PgnToken::VariationPointer(p) => PgnTokenView::VariationPointer(*p),
            PgnToken::Empty => PgnTokenView::Empty,
        }
    }
}

/// One variation: a linear series of tokens.
#[derive(Debug, Clone, PartialEq, Eq)]
pub struct PgnVariation(pub Vec<PgnToken>);

impl View for PgnVariation {
    type V = Seq<PgnTokenView>;

    open spec fn view(&self) -> Seq<PgnTokenView> {
        self.0@.map_values(|t: PgnToken| t@)
    }
}

/// One game as parsed: its header and result tokens, and its variations
/// addressed by pointer.
#[derive(Debug)]
pub struct PgnGame {
    pub global_tokens: Vec<Token>,
    pub variations: litemap::LiteMap<VariationPointerT, PgnVariation>,
}

/// The mathematical shape of a parsed game.
pub struct GameView {
    pub globals: Seq<TokenView>,
    pub variations: Seq<(u32, Seq<PgnTokenView>)>,
}

/// Entry list of a game's variation map, values taken to their views.
pub open spec fn entries_views(s: Seq<(u32, PgnVariation)>) -> Seq<(u32, Seq<PgnTokenView>)> {
    s.map_values(|e: (u32, PgnVariation)| (e.0, e.1@))
}

pub open spec fn game_view(g: PgnGame) -> GameView {
    GameView {
        globals: g.global_tokens@.map_values(|t: Token| t@),
        variations: entries_views(crate::varmap::pgn_variation_entries(&g.variations)),
    }
}

/// The n-th prime as a value: one for zero, the unique prime holding n
/// primes at or below it when one fits in 32 bits, and zero otherwise.
pub open spec fn spec_nth_prime32(n: int) -> int {
    if n == 0 {
        1
    } else if exists|p: int| 0 <= p <= u32::MAX && is_prime(p) && prime_count(p) == n {
        choose|p: int| 0 <= p <= u32::MAX && is_prime(p) && prime_count(p) == n
    } else {
        0
    }
}

/// Two primes carrying the same count are the same prime.
pub proof fn lemma_prime_count_unique(p: int, q: int)
    requires
        is_prime(p),
        is_prime(q),
        prime_count(p) == prime_count(q),
    ensures
        p == q,
{
    if p < q {
        crate::utils::lemma_prime_count_monotone(p, q - 1);
        assert(prime_count(q) == prime_count(q - 1) + 1);
    } else if q < p {
        crate::utils::lemma_prime_count_monotone(q, p - 1);
        assert(prime_count(p) == prime_count(p - 1) + 1);
    }
}

/// The pointer given to the n-th branch opened under a parent pointer; the
/// product saturates at the widest pointer value.
pub open spec fn spec_alloc_pointer(counter: int, parent: int) -> int {
    let q = spec_nth_prime32(counter) * (parent + 1);
    if q > u32::MAX {
        u32::MAX as int
    } else {
        q
    }
}

/// The walking state: finished games, the current game's header tokens, its
/// closed variations, the stack of open variations (main line at the
/// bottom), and the count of variation starts seen, which numbers the next
/// branch's prime.
pub struct AstState {
    pub games: Seq<GameView>,
    pub globals: Seq<TokenView>,
    pub closed: Seq<(u32, Seq<PgnTokenView>)>,
    pub frames: Seq<(u32, Seq<PgnTokenView>)>,
    pub counter: int,
}

pub open spec fn spec_ast_init() -> AstState {
    AstState {
        games: Seq::empty(),
        globals: Seq::empty(),
        closed: Seq::empty(),
        frames: seq![(0u32, Seq::<PgnTokenView>::empty())],
        counter: 1,
    }
}

/// All open frames folded into the closed set, innermost first.
pub open spec fn spec_close_frames(
    closed: Seq<(u32, Seq<PgnTokenView>)>,
    frames: Seq<(u32, Seq<PgnTokenView>)>,
) -> Seq<(u32, Seq<PgnTokenView>)>
    decreases frames.len(),
{
    if frames.len() == 0 {
        closed
    } else {
        spec_close_frames(
            crate::varmap::spec_entries_insert(closed, frames.last().0, frames.last().1),
            frames.drop_last(),
        )
    }
}

/// A token appended to the innermost open variation.
pub open spec fn spec_push_current(st: AstState, t: PgnTokenView) -> AstState {
    AstState {
        frames: st.frames.update(
            st.frames.len() - 1,
            (st.frames.last().0, st.frames.last().1.push(t)),
        ),
        ..st
    }
}

/// One token's effect on the walking state.
pub open spec fn spec_ast_step(st: AstState, t: TokenView) -> AstState {
    match t {
        TokenView::Move(_) => spec_push_current(st, PgnTokenView::Token(t)),
        TokenView::Commentary(_) => spec_push_current(st, PgnTokenView::Token(t)),
        TokenView::NAG(_) => spec_push_current(st, PgnTokenView::Token(t)),
        TokenView::MoveAnnotation(_) => spec_push_current(st, PgnTokenView::Token(t)),
        TokenView::MoveNumber(_, _) => spec_push_current(st, PgnTokenView::Token(t)),
        TokenView::TagSymbol(_) => AstState { globals: st.globals.push(t), ..st },
        TokenView::TagString(_) => AstState { globals: st.globals.push(t), ..st },
        TokenView::NullMove(_) => st,
        TokenView::EscapeComment(_) => st,
        TokenView::Result(_) => {
            let game = GameView {
                globals: st.globals.push(t),
                variations: spec_close_frames(st.closed, st.frames),
            };
            AstState {
                games: st.games.push(game),
                globals: Seq::empty(),
                closed: Seq::empty(),
                frames: seq![(0u32, Seq::<PgnTokenView>::empty())],
                counter: 1,
            }
        },
        TokenView::StartVariation => {
            let parent = st.frames.last().0;
            let new_ptr = spec_alloc_pointer(st.counter, parent as int) as u32;
            let marked = spec_push_current(st, PgnTokenView::VariationPointer(new_ptr));
            AstState {
                frames: marked.frames.push((new_ptr, Seq::<PgnTokenView>::empty())),
                counter: if st.counter >= u32::MAX {
                    u32::MAX as int
                } else {
                    st.counter + 1
                },
                ..marked
            }
        },
        TokenView::EndVariation => {
            if st.frames.len() > 1 {
                AstState {
                    closed: crate::varmap::spec_entries_insert(
                        st.closed,
                        st.frames.last().0,
                        st.frames.last().1,
                    ),
                    frames: st.frames.drop_last(),
                    ..st
                }
            } else {
                st
            }
        },
    }
}

/// The walking state after the first `i` tokens.
pub open spec fn spec_ast_run(tokens: Seq<TokenView>, i: int) -> AstState
    decreases i,
{
    if i <= 0 {
        spec_ast_init()
    } else {
        spec_ast_step(spec_ast_run(tokens, i - 1), tokens[i - 1])
    }
}

/// The games a token stream builds: every game a result token closed; the
/// wrapper still open at the end of the walk is discarded.
pub open spec fn spec_build(tokens: Seq<TokenView>) -> Seq<GameView> {
    spec_ast_run(tokens, tokens.len() as int).games
}

proof fn lemma_entries_views_insert(s: Seq<(u32, PgnVariation)>, k: u32, v: PgnVariation)
    ensures
        entries_views(crate::varmap::spec_entries_insert(s, k, v))
            == crate::varmap::spec_entries_insert(entries_views(s), k, v@),
    decreases s.len(),
{
    if s.len() == 0 {
        assert(entries_views(crate::varmap::spec_entries_insert(s, k, v))
            =~= crate::varmap::spec_entries_insert(entries_views(s), k, v@));
    } else if s[0].0 == k {
        assert(entries_views(seq![(k, v)] + s.skip(1)) =~= seq![(k, v@)] + entries_views(s).skip(
            1,
        ));
        assert(crate::varmap::spec_entries_insert(entries_views(s), k, v@) == seq![(k, v@)]
            + entries_views(s).skip(1));
    } else if k < s[0].0 {
        assert(entries_views(seq![(k, v)] + s) =~= seq![(k, v@)] + entries_views(s));
    } else {
        lemma_entries_views_insert(s.skip(1), k, v);
        assert(entries_views(s.skip(1)) =~= entries_views(s).skip(1));
        assert(entries_views(seq![s[0]] + crate::varmap::spec_entries_insert(s.skip(1), k, v))
            =~= seq![(s[0].0, s[0].1@)] + entries_views(
            crate::varmap::spec_entries_insert(s.skip(1), k, v),
        ));
        assert(crate::varmap::spec_entries_insert(entries_views(s), k, v@) =~= seq![
            (s[0].0, s[0].1@),
        ] + crate::varmap::spec_entries_insert(entries_views(s).skip(1), k, v@));
    }
}

/// The view of the open-frame stack.
pub open spec fn frames_views(s: Seq<(u32, Vec<PgnToken>)>) -> Seq<(u32, Seq<PgnTokenView>)> {
    s.map_values(|f: (u32, Vec<PgnToken>)| (f.0, f.1@.map_values(|t: PgnToken| t@)))
}

/// Build the per-game variation trees from the token stream. The walk is an
/// explicit-stack depth-first traversal; each game closed by a result token
/// becomes one entry of the output, and the wrapper left open at the end of
/// the input is discarded.
pub fn build_pgn_ast(tokens: Vec<Token>) -> (r: Vec<PgnGame>)
    ensures
        r@.map_values(|g: PgnGame| game_view(g)) == spec_build(
            tokens@.map_values(|t: Token| t@),
        ),
{
    let ghost orig = tokens@;
    let ghost toks = tokens@.map_values(|t: Token| t@);
    let mut rest = tokens;
    let mut games: Vec<PgnGame> = Vec::new();
    let mut globals: Vec<Token> = Vec::new();
    let mut closed = crate::varmap::pgn_vars_new();
    let mut frames: Vec<(u32, Vec<PgnToken>)> = Vec::new();
    frames.push((0u32, Vec::new()));
    let mut counter: u32 = 1;
    let ghost mut i: int = 0;
    proof {
        assert(rest@ =~= orig.skip(0));
        assert(games@.map_values(|g: PgnGame| game_view(g)) =~= spec_ast_init().games);
        assert(globals@.map_values(|t: Token| t@) =~= spec_ast_init().globals);
        assert(entries_views(crate::varmap::pgn_variation_entries(&closed)) =~= spec_ast_init()
            .closed);
        assert(frames@[0].1@.map_values(|t: PgnToken| t@) =~= Seq::<PgnTokenView>::empty());
        assert(frames_views(frames@) =~= spec_ast_init().frames);
    }
    while rest.len() > 0
        invariant
            0 <= i <= toks.len(),
            toks.len() == orig.len(),
            toks == orig.map_values(|t: Token| t@),
            rest@ == orig.skip(i),
            games@.map_values(|g: PgnGame| game_view(g)) == spec_ast_run(toks, i).games,
            globals@.map_values(|t: Token| t@) == spec_ast_run(toks, i).globals,
            entries_views(crate::varmap::pgn_variation_entries(&closed)) == spec_ast_run(
                toks,
                i,
            ).closed,
            frames_views(frames@) == spec_ast_run(toks, i).frames,
            frames@.len() >= 1,
            counter as int == spec_ast_run(toks, i).counter,
            1 <= counter,
        decreases rest@.len(),
    {
        let ghost st = spec_ast_run(toks, i);
        let t = rest.remove(0);
        proof {
            assert(orig.skip(i)[0] == orig[i]);
            assert(t == orig[i]);
            assert(t@ == toks[i]);
            assert(rest@ =~= orig.skip(i + 1));
            assert(spec_ast_run(toks, i + 1) == spec_ast_step(st, toks[i]));
        }
        let ghost st2 = spec_ast_run(toks, i + 1);
        match t {
            Token::Move(_) | Token::Commentary(_) | Token::NAG(_) | Token::MoveAnnotation(_)
                | Token::MoveNumber(_, _) => {
                let last = frames.len() - 1;
                let top = crate::utils::vec_index_mut(&mut frames, last);
                top.1.push(PgnToken::Token(t));
                proof {
                    assert(st2 == spec_push_current(st, PgnTokenView::Token(toks[i])));
                    assert(frames@[last as int].1@.map_values(|x: PgnToken| x@)
                        =~= st.frames.last().1.push(PgnTokenView::Token(toks[i])));
                    assert(frames_views(frames@) =~= st2.frames);
                }
            },
            Token::TagSymbol(_) | Token::TagString(_) => {
                globals.push(t);
                proof {
                    assert(globals@.map_values(|x: Token| x@) =~= st.globals.push(toks[i]));
                }
            },
            Token::NullMove(_) | Token::EscapeComment(_) => {
            },
            Token::Result(_) => {
                globals.push(t);
                proof {
                    assert(globals@.map_values(|x: Token| x@) =~= st.globals.push(toks[i]));
                }
                let ghost target = spec_close_frames(st.closed, st.frames);
                while frames.len() > 0
                    invariant
                        spec_close_frames(
                            entries_views(crate::varmap::pgn_variation_entries(&closed)),
                            frames_views(frames@),
                        ) == target,
                    decreases frames@.len(),
                {
                    let ghost pre_frames = frames@;
                    let ghost pre_views = frames_views(pre_frames);
                    let ghost pre_entries = entries_views(
                        crate::varmap::pgn_variation_entries(&closed),
                    );
                    let popped = frames.pop();
                    match popped {
                        Some(top) => {
                            proof {
                                assert(pre_views.len() > 0);
                                assert(pre_views.last() == (top.0, top.1@.map_values(
                                    |x: PgnToken| x@,
                                )));
                                assert(pre_views.drop_last() =~= frames_views(frames@));
                                assert(spec_close_frames(pre_entries, pre_views)
                                    == spec_close_frames(
                                    crate::varmap::spec_entries_insert(
                                        pre_entries,
                                        pre_views.last().0,
                                        pre_views.last().1,
                                    ),
                                    pre_views.drop_last(),
                                ));
                            }
                            let k = top.0;
                            let var = PgnVariation(top.1);
                            let ghost entries_before = crate::varmap::pgn_variation_entries(
                                &closed,
                            );
                            crate::varmap::pgn_vars_insert(&mut closed, k, var);
                            proof {
                                lemma_entries_views_insert(entries_before, k, var);
                                assert(entries_views(crate::varmap::pgn_variation_entries(
                                    &closed,
                                )) == crate::varmap::spec_entries_insert(
                                    pre_entries,
                                    pre_views.last().0,
                                    pre_views.last().1,
                                ));
                            }
                        },
                        None => {
                        },
                    }
                }
                proof {
                    assert(frames_views(frames@) =~= Seq::<(u32, Seq<PgnTokenView>)>::empty());
                    assert(entries_views(crate::varmap::pgn_variation_entries(&closed))
                        == target);
                }
                let mut taken_globals: Vec<Token> = Vec::new();
                core::mem::swap(&mut globals, &mut taken_globals);
                let mut taken_closed = crate::varmap::pgn_vars_new();
                core::mem::swap(&mut closed, &mut taken_closed);
                let game = PgnGame { global_tokens: taken_globals, variations: taken_closed };
                proof {
                    assert(game_view(game) == st2.games.last());
                }
                games.push(game);
                frames.push((0u32, Vec::new()));
                counter = 1;
                proof {
                    assert(games@.map_values(|g: PgnGame| game_view(g)) =~= st2.games);
                    assert(globals@.map_values(|x: Token| x@) =~= st2.globals);
                    assert(entries_views(crate::varmap::pgn_variation_entries(&closed))
                        =~= st2.closed);
                    assert(frames@.last().1@.map_values(|x: PgnToken| x@) =~= Seq::<
                        PgnTokenView,
                    >::empty());
                    assert(frames_views(frames@) =~= st2.frames);
                }
            },
            Token::StartVariation => {
                let last = frames.len() - 1;
                let parent = frames[last].0;
                proof {
                    assert(st.frames.last().0 == parent);
                }
                let prime = crate::utils::nth_prime_number(counter);
                proof {
                    if prime != 0 {
                        assert(0 <= prime as int <= u32::MAX && is_prime(prime as int)
                            && prime_count(prime as int) == counter);
                        let p = choose|p: int|
                            0 <= p <= u32::MAX && is_prime(p) && prime_count(p) == counter as int;
                        lemma_prime_count_unique(p, prime as int);
                        assert(spec_nth_prime32(counter as int) == prime as int);
                    } else {
                        if exists|p: int|
                            0 <= p <= u32::MAX && is_prime(p) && prime_count(p)
                                == counter as int {
                            let p = choose|p: int|
                                0 <= p <= u32::MAX && is_prime(p) && prime_count(p)
                                    == counter as int;
                            crate::utils::lemma_prime_count_monotone(p, u32::MAX as int);
                        }
                        assert(spec_nth_prime32(counter as int) == 0);
                    }
                }
                proof {
                    assert((prime as u64) * ((parent as u64) + 1) <= 0xFFFF_FFFFu64
                        * 0x1_0000_0000u64) by (nonlinear_arith)
                        requires
                            prime <= 0xFFFF_FFFFu32,
                            parent <= 0xFFFF_FFFFu32,
                    ;
                }
                let prod: u64 = (prime as u64) * ((parent as u64) + 1);
                proof {
                    assert(prod == spec_nth_prime32(counter as int) * (parent as int + 1));
                }
                let new_ptr: u32 = if prod > 0xFFFF_FFFFu64 {
                    u32::MAX
                } else {
                    prod as u32
                };
                proof {
                    assert(new_ptr as int == spec_alloc_pointer(counter as int, parent as int));
                }
                let top = crate::utils::vec_index_mut(&mut frames, last);
                top.1.push(PgnToken::VariationPointer(new_ptr));
                proof {
                    let marked = spec_push_current(st, PgnTokenView::VariationPointer(new_ptr));
                    assert(frames@[last as int].1@.map_values(|x: PgnToken| x@)
                        =~= st.frames.last().1.push(PgnTokenView::VariationPointer(new_ptr)));
                    assert(frames_views(frames@) =~= marked.frames);
                }
                frames.push((new_ptr, Vec::new()));
                if counter < u32::MAX {
                    counter = counter + 1;
                }
                proof {
                    assert(frames@.last().1@.map_values(|x: PgnToken| x@) =~= Seq::<
                        PgnTokenView,
                    >::empty());
                    assert(frames_views(frames@) =~= st2.frames);
                }
            },
            Token::EndVariation => {
                if frames.len() > 1 {
                    let popped = frames.pop();
                    match popped {
                        Some(top) => {
                            let ghost fv = frames_views(frames@.push(top));
                            proof {
                                assert(fv == st.frames);
                                assert(fv.last() == (top.0, top.1@.map_values(
                                    |x: PgnToken| x@,
                                )));
                                assert(fv.drop_last() =~= frames_views(frames@));
                            }
                            let k = top.0;
                            let var = PgnVariation(top.1);
                            let ghost entries_before = crate::varmap::pgn_variation_entries(
                                &closed,
                            );
                            crate::varmap::pgn_vars_insert(&mut closed, k, var);
                            proof {
                                lemma_entries_views_insert(entries_before, k, var);
                            }
                        },
                        None => {
                        },
                    }
                }
            },
        }
        proof {
            i = i + 1;
        }
    }
    proof {
        assert(rest@.len() == 0);
        assert(orig.skip(i).len() == orig.len() - i);
        assert(i == toks.len());
    }
    games
}

/// Folding open frames into a sorted closed set keeps it sorted.
proof fn lemma_close_frames_sorted(
    closed: Seq<(u32, Seq<PgnTokenView>)>,
    frames: Seq<(u32, Seq<PgnTokenView>)>,
)
    requires
        crate::varmap::spec_entries_sorted(closed),
    ensures
        crate::varmap::spec_entries_sorted(spec_close_frames(closed, frames)),
    decreases frames.len(),
{
    if frames.len() > 0 {
        crate::varmap::lemma_entries_insert_sorted(closed, frames.last().0, frames.last().1);
        lemma_close_frames_sorted(
            crate::varmap::spec_entries_insert(closed, frames.last().0, frames.last().1),
            frames.drop_last(),
        );
    }
}

/// Through the whole walk, the closed set stays sorted and every finished
/// game's variation map is sorted by pointer.
proof fn lemma_run_sorted(tokens: Seq<TokenView>, i: int)
    requires
        0 <= i <= tokens.len(),
    ensures
        crate::varmap::spec_entries_sorted(spec_ast_run(tokens, i).closed),
        forall|g: int|
            0 <= g < spec_ast_run(tokens, i).games.len() ==> crate::varmap::spec_entries_sorted(
                (#[trigger] spec_ast_run(tokens, i).games[g]).variations,
            ),
    decreases i,
{
    if i > 0 {
        lemma_run_sorted(tokens, i - 1);
        let st = spec_ast_run(tokens, i - 1);
        let st2 = spec_ast_run(tokens, i);
        match tokens[i - 1] {
            TokenView::Result(_) => {
                lemma_close_frames_sorted(st.closed, st.frames);
                assert(forall|g: int|
                    0 <= g < st.games.len() ==> st2.games[g] == st.games[g]);
            },
            TokenView::EndVariation => {
                if st.frames.len() > 1 {
                    crate::varmap::lemma_entries_insert_sorted(
                        st.closed,
                        st.frames.last().0,
                        st.frames.last().1,
                    );
                }
            },
            _ => {},
        }
    }
}

/// Variation-pointer uniqueness as the built output shows it: within any
/// game a token stream builds, the variation map is keyed in strictly
/// ascending pointer order, so any two of its entries carry distinct
/// pointers, whatever nesting produced them.
pub proof fn lemma_variation_pointers_distinct(tokens: Seq<TokenView>, g: int, i: int, j: int)
    requires
        0 <= g < spec_build(tokens).len(),
        0 <= i < j < spec_build(tokens)[g].variations.len(),
    ensures
        spec_build(tokens)[g].variations[i].0 != spec_build(tokens)[g].variations[j].0,
{
    lemma_run_sorted(tokens, tokens.len() as int);
}

/// Pointer allocation never hands out the main line's pointer, and two
/// branches opened under the same parent with distinct counters get
/// distinct pointers, as long as a 32-bit prime backs each counter and the
/// products do not saturate. Counters past the last 32-bit prime, or
/// products past the pointer width, fall outside this statement.
pub proof fn lemma_alloc_pointer_distinct(c1: int, c2: int, parent: int)
    requires
        1 <= c1 < c2,
        0 <= parent <= u32::MAX,
        spec_nth_prime32(c1) != 0,
        spec_nth_prime32(c2) != 0,
        spec_nth_prime32(c1) * (parent + 1) <= u32::MAX,
        spec_nth_prime32(c2) * (parent + 1) <= u32::MAX,
    ensures
        spec_alloc_pointer(c1, parent) != spec_alloc_pointer(c2, parent),
        spec_alloc_pointer(c1, parent) != 0,
        spec_alloc_pointer(c2, parent) != 0,
{
    let p1 = spec_nth_prime32(c1);
    let p2 = spec_nth_prime32(c2);
    assert(is_prime(p1) && prime_count(p1) == c1);
    assert(is_prime(p2) && prime_count(p2) == c2);
    if p1 == p2 {
        assert(false);
    }
    assert(p1 * (parent + 1) != p2 * (parent + 1)) by (nonlinear_arith)
        requires
            p1 != p2,
            parent + 1 >= 1,
    ;
    assert(p1 * (parent + 1) >= 2) by (nonlinear_arith)
        requires
            p1 >= 2,
            parent + 1 >= 1,
    ;
    assert(p2 * (parent + 1) >= 2) by (nonlinear_arith)
        requires
            p2 >= 2,
            parent + 1 >= 1,
    ;
}

/// Folding the frames in ends with the bottom frame's entry, so its pointer
/// is always findable afterwards.
proof fn lemma_close_frames_has_bottom(
    closed: Seq<(u32, Seq<PgnTokenView>)>,
    frames: Seq<(u32, Seq<PgnTokenView>)>,
)
    requires
        frames.len() >= 1,
    ensures
        crate::varmap::spec_entries_get(spec_close_frames(closed, frames), frames[0].0) is Some,
    decreases frames.len(),
{
    if frames.len() == 1 {
        crate::varmap::lemma_entries_insert_finds(closed, frames.last().0, frames.last().1);
    } else {
        assert(frames.drop_last()[0] == frames[0]);
        lemma_close_frames_has_bottom(
            crate::varmap::spec_entries_insert(closed, frames.last().0, frames.last().1),
            frames.drop_last(),
        );
    }
}

/// Through the whole walk, the bottom frame is the main line and every
/// finished game's variation map holds pointer zero.
proof fn lemma_run_main_line(tokens: Seq<TokenView>, i: int)
    requires
        0 <= i <= tokens.len(),
    ensures
        spec_ast_run(tokens, i).frames.len() >= 1,
        spec_ast_run(tokens, i).frames[0].0 == 0,
        forall|g: int|
            0 <= g < spec_ast_run(tokens, i).games.len() ==> crate::varmap::spec_entries_get(
                (#[trigger] spec_ast_run(tokens, i).games[g]).variations,
                0u32,
            ) is Some,
    decreases i,
{
    if i > 0 {
        lemma_run_main_line(tokens, i - 1);
        let st = spec_ast_run(tokens, i - 1);
        let st2 = spec_ast_run(tokens, i);
        match tokens[i - 1] {
            TokenView::Result(_) => {
                lemma_close_frames_has_bottom(st.closed, st.frames);
                assert(forall|g: int|
                    0 <= g < st.games.len() ==> st2.games[g] == st.games[g]);
            },
            _ => {},
        }
    }
}

/// The main line is always present: pointer zero addresses a variation in
/// every game a token stream builds.
pub proof fn lemma_main_line_present(tokens: Seq<TokenView>, g: int)
    requires
        0 <= g < spec_build(tokens).len(),
    ensures
        crate::varmap::spec_entries_get(spec_build(tokens)[g].variations, 0u32) is Some,
{
    lemma_run_main_line(tokens, tokens.len() as int);
}

} // verus!
