use vstd::prelude::*;
use crate::posmap::U32Map;
use crate::u24::u24;

verus! {

/// One packed move or pseudo-move entry.
pub type CmbrMv = u24;

/// A board position rendered as FEN text bytes.
pub type CmbrFen = Vec<u8>;

/// The whole converted file: its magic marker, the compression flag (always
/// off: compressed output is rejected), the games by index, and the
/// file-wide deduplication table from position hash to FEN text.
pub struct CmbrFile {
    pub magic_bytes: &'static str,
    pub is_compressed: bool,
    pub games: U32Map<CmbrGame>,
    pub encountered_positions: U32Map<CmbrFen>,
}

/// One converted game: ordered header pairs, a result code (`w`, `b`, `d`
/// or `u`), the variations by pointer, and the per-game table from a
/// pointer-and-half-move key to a position hash, which resolves where a
/// branch resumes.
pub struct CmbrGame {
    pub headers: Vec<(Vec<u8>, Vec<u8>)>,
    pub result: char,
    pub variations: litemap::LiteMap<u32, CmbrVariation>,
    pub encountered_positions: U32Map<u32>,
}

/// One converted variation: its starting half-move, its packed entries, and
/// its comments by half-move.
pub struct CmbrVariation {
    pub starts_at: u16,
    pub moves: Vec<CmbrMv>,
    pub comments: Vec<(u16, Vec<u8>)>,
}

impl CmbrFile {
    /// The magic marker at the head of the container.
    pub open spec fn spec_magic(self) -> Seq<char> {
        self.magic_bytes@
    }

    /// An empty file. Compressed output does not exist and is refused at
    /// the builder's entry; this constructor never sees it.
    pub fn new(is_compressed: bool) -> (r: Self)
        requires
            !is_compressed,
        ensures
            r.spec_magic() == "CMBR!"@,
            !r.is_compressed,
            r.games@ == Map::<u32, CmbrGame>::empty(),
            r.games.wf(),
            r.games.spec_entries() == Seq::<(u32, CmbrGame)>::empty(),
            r.encountered_positions@ == Map::<u32, CmbrFen>::empty(),
            r.encountered_positions.wf(),
    {
        CmbrFile {
            magic_bytes: "CMBR!",
            is_compressed,
            games: U32Map::new(),
            encountered_positions: U32Map::new(),
        }
    }

    /// The magic marker, readable.
    pub fn magic(&self) -> (r: &'static str)
        ensures
            r@ == self.spec_magic(),
    {
        self.magic_bytes
    }
}

impl CmbrGame {
    /// A game with no headers, an undefined result and no variations.
    pub fn new() -> (r: Self)
        ensures
            r.headers@ == Seq::<(Vec<u8>, Vec<u8>)>::empty(),
            r.result == 'u',
            crate::varmap::cmbr_variation_entries(&r.variations) == Seq::<
                (u32, CmbrVariation),
            >::empty(),
            r.encountered_positions@ == Map::<u32, u32>::empty(),
            r.encountered_positions.wf(),
    {
        let r = CmbrGame {
            headers: Vec::new(),
            result: 'u',
            variations: crate::varmap::cmbr_vars_new(),
            encountered_positions: U32Map::new(),
        };
        proof {
            assert(r.headers@ =~= Seq::<(Vec<u8>, Vec<u8>)>::empty());
        }
        r
    }
}

impl CmbrVariation {
    /// An empty variation starting at the given half-move.
    pub fn new(starts_at: u16) -> (r: Self)
        ensures
            r.starts_at == starts_at,
            r.moves@ == Seq::<CmbrMv>::empty(),
            r.comments@ == Seq::<(u16, Vec<u8>)>::empty(),
    {
        let r = CmbrVariation { starts_at, moves: Vec::new(), comments: Vec::new() };
        proof {
            assert(r.moves@ =~= Seq::<CmbrMv>::empty());
            assert(r.comments@ =~= Seq::<(u16, Vec<u8>)>::empty());
        }
        r
    }
}

} // verus!
