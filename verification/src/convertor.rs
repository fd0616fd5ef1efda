use vstd::prelude::*;
use crate::encoder::{
    encode_resolved, spec_encode_resolved, spec_resolved_wf, PieceRole, ResolvedMove, SanSuffix,
};
use crate::error::{LibCmbrError, LibCmbrErrorType};
use crate::oracle;
use crate::u24::u24;

verus! {

/// First match for a key in a list of cache entries.
pub open spec fn spec_cache_lookup(s: Seq<(Vec<u8>, u24)>, k: Seq<u8>) -> Option<u24>
    decreases s.len(),
{
    if s.len() == 0 {
        None
    } else if s[0].0@ == k {
        Some(s[0].1)
    } else {
        spec_cache_lookup(s.skip(1), k)
    }
}

/// A key just appended to a cache it was absent from is found, with its
/// value.
proof fn lemma_cache_insert_found(s: Seq<(Vec<u8>, u24)>, kv: (Vec<u8>, u24))
    requires
        spec_cache_lookup(s, kv.0@) is None,
    ensures
        spec_cache_lookup(s.push(kv), kv.0@) == Some(kv.1),
    decreases s.len(),
{
    if s.len() == 0 {
        assert(s.push(kv)[0] == kv);
        assert(s.push(kv).len() == 1);
    } else {
        assert(s.push(kv)[0] == s[0]);
        lemma_cache_insert_found(s.skip(1), kv);
        assert(s.push(kv).skip(1) =~= s.skip(1).push(kv));
    }
}

/// Memoization: after one encoding of a move text that the cache did not
/// hold has put its code into the cache, a second encoding of the same text
/// finds that very code, and `encode_cached`'s contract then forces it to
/// return the same packed code and to leave the cache unchanged — whatever
/// move the rules oracle resolves the text to on the second call.
pub proof fn lemma_memoization(s: Seq<(Vec<u8>, u24)>, kv: (Vec<u8>, u24))
    requires
        spec_cache_lookup(s, kv.0@) is None,
    ensures
        spec_cache_lookup(s.push(kv), kv.0@) == Some(kv.1),
{
    lemma_cache_insert_found(s, kv);
}

/// The cache after a miss: one entry holding the given key and code was
/// appended, and everything before it is unchanged.
pub open spec fn spec_cache_extended(
    before: Seq<(Vec<u8>, u24)>,
    after: Seq<(Vec<u8>, u24)>,
    k: Seq<u8>,
    r: u24,
) -> bool {
    &&& after.len() == before.len() + 1
    &&& after.take(before.len() as int) == before
    &&& after.last().0@ == k
    &&& after.last().1 == r
}

/// Byte-for-byte equality of two slices.
fn bytes_eq(a: &[u8], b: &[u8]) -> (r: bool)
    ensures
        r == (a@ == b@),
{
    if a.len() != b.len() {
        return false;
    }
    let mut i: usize = 0;
    while i < a.len()
        invariant
            0 <= i <= a@.len(),
            a@.len() == b@.len(),
            forall|k: int| 0 <= k < i ==> a@[k] == b@[k],
        decreases a@.len() - i,
    {
        if a[i] != b[i] {
            return false;
        }
        i = i + 1;
    }
    proof {
        assert(a@ =~= b@);
    }
    true
}

/// Wraps the move encoder with a cache keyed by the exact move text, and
/// advances an externally supplied board one ply per successful call.
pub struct SanToCmbrMvConvertor {
    table: Vec<(Vec<u8>, u24)>,
}

impl SanToCmbrMvConvertor {
    /// The cache entries, oldest first.
    pub closed spec fn cache(self) -> Seq<(Vec<u8>, u24)> {
        self.table@
    }

    /// A fresh convertor with an empty cache. The memory limit only sizes
    /// the allocation; it does not bound the cache.
    pub fn new(memory_limit_in_bytes: u64) -> (r: Self)
        ensures
            r.cache() == Seq::<(Vec<u8>, u24)>::empty(),
    {
        let _ = memory_limit_in_bytes;
        let r = Self { table: Vec::new() };
        proof {
            assert(r.cache() =~= Seq::<(Vec<u8>, u24)>::empty());
        }
        r
    }

    fn lookup(&self, key: &[u8]) -> (r: Option<u24>)
        ensures
            r == spec_cache_lookup(self.cache(), key@),
    {
        let mut i: usize = 0;
        proof {
            assert(self.table@.skip(0) =~= self.table@);
        }
        while i < self.table.len()
            invariant
                0 <= i <= self.table@.len(),
                spec_cache_lookup(self.table@, key@) == spec_cache_lookup(
                    self.table@.skip(i as int),
                    key@,
                ),
            decreases self.table@.len() - i,
        {
            let entry_matches = bytes_eq(self.table[i].0.as_slice(), key);
            proof {
                assert(self.table@.skip(i as int)[0] == self.table@[i as int]);
                assert(self.table@.skip(i as int).skip(1) =~= self.table@.skip(i + 1));
            }
            if entry_matches {
                return Some(self.table[i].1);
            }
            i = i + 1;
        }
        None
    }

    /// Look the move text up, and on a miss derive the bit layout and
    /// remember it. A hit skips re-deriving the layout, never the board.
    pub fn encode_cached(
        &mut self,
        key: &[u8],
        mv: &ResolvedMove,
        suffix: Option<SanSuffix>,
        black: bool,
    ) -> (r: u24)
        requires
            spec_resolved_wf(*mv),
        ensures
            match spec_cache_lookup(old(self).cache(), key@) {
                Some(v) => r == v && final(self).cache() == old(self).cache(),
                None => r@ == spec_encode_resolved(*mv, suffix, black) && spec_cache_extended(
                    old(self).cache(),
                    final(self).cache(),
                    key@,
                    r,
                ),
            },
    {
        match self.lookup(key) {
            Some(v) => v,
            None => {
                let code = encode_resolved(mv, suffix, black);
                let owned = vstd::slice::slice_to_vec(key);
                self.table.push((owned, code));
                proof {
                    assert(self.table@.take(old(self).table@.len() as int) =~= old(self).table@);
                }
                code
            },
        }
    }

    /// Parse and resolve one SAN move against the board, encode it (through
    /// the cache) and advance the board one ply. On failure the board and
    /// the cache are left unchanged: unparseable or illegal text is an
    /// illegal-move error, a piece drop is unsupported, and piece or
    /// promotion codes outside their documented ranges are reported rather
    /// than trusted.
    pub fn san_to_cmbr(&mut self, board: &mut shakmaty::Chess, san_bytes: &[u8]) -> (r: Result<
        u24,
        LibCmbrError,
    >)
        ensures
            r is Err ==> *final(board) == *old(board) && final(self).cache() == old(self).cache(),
            r matches Err(e) ==> e.spec_kind() == LibCmbrErrorType::IllegalMove || e.spec_kind()
                == LibCmbrErrorType::CrazyHouseNotSupported || e.spec_kind()
                == LibCmbrErrorType::ShouldBeUnreachable,
            !oracle::san_text_parses(san_bytes@) ==> (r matches Err(e) && e.spec_kind()
                == LibCmbrErrorType::IllegalMove),
            r matches Ok(c) ==> match spec_cache_lookup(old(self).cache(), san_bytes@) {
                Some(v) => c == v && final(self).cache() == old(self).cache(),
                None => spec_cache_extended(old(self).cache(), final(self).cache(), san_bytes@, c),
            },
    {
        let sp = match oracle::san_parse(san_bytes) {
            Ok(sp) => sp,
            Err(_) => {
                return Err(LibCmbrError::new(LibCmbrErrorType::IllegalMove));
            },
        };
        let m = match oracle::san_to_move(&sp, board) {
            Ok(m) => m,
            Err(_) => {
                return Err(LibCmbrError::new(LibCmbrErrorType::IllegalMove));
            },
        };
        if oracle::move_is_put(&m) {
            return Err(LibCmbrError::new(LibCmbrErrorType::CrazyHouseNotSupported));
        }
        let resolved = if oracle::move_is_castle(&m) {
            ResolvedMove::Castle { queenside: oracle::move_castle_is_queenside(&m) }
        } else {
            let from = match oracle::move_from_square(&m) {
                Some(f) => f,
                None => {
                    return Err(LibCmbrError::new(LibCmbrErrorType::ShouldBeUnreachable));
                },
            };
            let to = oracle::move_to_square(&m);
            if oracle::move_is_en_passant(&m) {
                ResolvedMove::EnPassant { from, to }
            } else {
                let role = match role_from_code(oracle::move_role_code(&m)) {
                    Some(role) => role,
                    None => {
                        return Err(LibCmbrError::new(LibCmbrErrorType::ShouldBeUnreachable));
                    },
                };
                let promotion = match promotion_from_code(oracle::move_promotion_code(&m)) {
                    Ok(p) => p,
                    Err(_) => {
                        return Err(LibCmbrError::new(LibCmbrErrorType::ShouldBeUnreachable));
                    },
                };
                ResolvedMove::Normal {
                    role,
                    from,
                    to,
                    capture: oracle::move_is_capture(&m),
                    promotion,
                }
            }
        };
        let black = oracle::board_turn_is_black(board);
        let suffix = oracle::san_suffix(&sp);
        if !oracle::board_play(board, &m) {
            return Err(LibCmbrError::new(LibCmbrErrorType::ShouldBeUnreachable));
        }
        let code = self.encode_cached(san_bytes, &resolved, suffix, black);
        Ok(code)
    }
}

/// The piece role behind an oracle role code, pawn 1 through king 6.
pub fn role_from_code(code: u8) -> (r: Option<PieceRole>)
    ensures
        r == match code {
            1u8 => Some(PieceRole::Pawn),
            2u8 => Some(PieceRole::Knight),
            3u8 => Some(PieceRole::Bishop),
            4u8 => Some(PieceRole::Rook),
            5u8 => Some(PieceRole::Queen),
            6u8 => Some(PieceRole::King),
            _ => None::<PieceRole>,
        },
{
    match code {
        1 => Some(PieceRole::Pawn),
        2 => Some(PieceRole::Knight),
        3 => Some(PieceRole::Bishop),
        4 => Some(PieceRole::Rook),
        5 => Some(PieceRole::Queen),
        6 => Some(PieceRole::King),
        _ => None,
    }
}

/// The promotion target behind an oracle promotion code: zero means none,
/// and only the four targets the bit layout can carry are accepted.
pub fn promotion_from_code(code: u8) -> (r: Result<Option<PieceRole>, ()>)
    ensures
        r == match code {
            0u8 => Ok::<Option<PieceRole>, ()>(None),
            2u8 => Ok::<Option<PieceRole>, ()>(Some(PieceRole::Knight)),
            3u8 => Ok::<Option<PieceRole>, ()>(Some(PieceRole::Bishop)),
            4u8 => Ok::<Option<PieceRole>, ()>(Some(PieceRole::Rook)),
            5u8 => Ok::<Option<PieceRole>, ()>(Some(PieceRole::Queen)),
            _ => Err::<Option<PieceRole>, ()>(()),
        },
        r matches Ok(p) ==> crate::encoder::spec_valid_promotion(p),
{
    match code {
        0 => Ok(None),
        2 => Ok(Some(PieceRole::Knight)),
        3 => Ok(Some(PieceRole::Bishop)),
        4 => Ok(Some(PieceRole::Rook)),
        5 => Ok(Some(PieceRole::Queen)),
        _ => Err(()),
    }
}

} // verus!
