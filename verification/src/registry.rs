//! Block registry and per-chunk palette for compressed voxel storage.

use vstd::prelude::*;

verus! {

use crate::{AIR_BLOCK, BlockId, BlockKind};

/// Block definition with properties. Immutable once registered.
#[derive(Debug, Clone, PartialEq)]
pub struct BlockDef {
    pub id: BlockId,
    pub name: String,
    pub kind: BlockKind,
    pub texture_id: u16,
}

impl BlockDef {
    pub fn new(id: BlockId, name: &str, kind: BlockKind, texture_id: u16) -> (r: Self)
        ensures
            r.id == id,
            r.name@ == name@,
            r.kind == kind,
            r.texture_id == texture_id,
    {
        Self { id, name: name.to_owned(), kind, texture_id }
    }

    pub fn air() -> (r: Self)
        ensures
            r.id == AIR_BLOCK,
            r.name@ == "air"@,
            r.kind == BlockKind::Air,
            r.texture_id == 0,
    {
        Self::new(AIR_BLOCK, "air", BlockKind::Air, 0)
    }

    pub fn stone() -> (r: Self)
        ensures
            r.id == 1,
            r.name@ == "stone"@,
            r.kind == BlockKind::Solid,
            r.texture_id == 1,
    {
        Self::new(1, "stone", BlockKind::Solid, 1)
    }

    pub fn dirt() -> (r: Self)
        ensures
            r.id == 2,
            r.name@ == "dirt"@,
            r.kind == BlockKind::Solid,
            r.texture_id == 2,
    {
        Self::new(2, "dirt", BlockKind::Solid, 2)
    }

    pub fn grass() -> (r: Self)
        ensures
            r.id == 3,
            r.name@ == "grass"@,
            r.kind == BlockKind::Solid,
            r.texture_id == 3,
    {
        Self::new(3, "grass", BlockKind::Solid, 3)
    }

    pub fn wood() -> (r: Self)
        ensures
            r.id == 4,
            r.name@ == "wood"@,
            r.kind == BlockKind::Solid,
            r.texture_id == 4,
    {
        Self::new(4, "wood", BlockKind::Solid, 4)
    }
}

/// No two definitions share an id.
pub open spec fn unique_ids(s: Seq<BlockDef>) -> bool {
    forall|i: int, j: int| 0 <= i < j < s.len() ==> s[i].id != s[j].id
}

/// No two definitions share a name.
pub open spec fn unique_names(s: Seq<BlockDef>) -> bool {
    forall|i: int, j: int| 0 <= i < j < s.len() ==> s[i].name@ != s[j].name@
}

/// Some definition carries the given id.
pub open spec fn has_block_id(s: Seq<BlockDef>, id: BlockId) -> bool {
    exists|i: int| 0 <= i < s.len() && s[i].id == id
}

/// The index of the definition carrying the given id (unique when ids are).
pub open spec fn block_id_index(s: Seq<BlockDef>, id: BlockId) -> int {
    choose|i: int| 0 <= i < s.len() && s[i].id == id
}

/// Some definition carries the given name.
pub open spec fn has_block_name(s: Seq<BlockDef>, name: Seq<char>) -> bool {
    exists|i: int| 0 <= i < s.len() && s[i].name@ == name
}

/// The index of the definition carrying the given name.
pub open spec fn block_name_index(s: Seq<BlockDef>, name: Seq<char>) -> int {
    choose|i: int| 0 <= i < s.len() && s[i].name@ == name
}

/// The definition registered under an id, if any.
pub open spec fn spec_get_def(s: Seq<BlockDef>, id: BlockId) -> Option<BlockDef> {
    if has_block_id(s, id) {
        Some(s[block_id_index(s, id)])
    } else {
        None
    }
}

/// The kind an id resolves to: id 0 is reserved for air and always resolves
/// to the Air kind regardless of registry contents; an unknown id defaults
/// to Air.
pub open spec fn spec_get_kind(s: Seq<BlockDef>, id: BlockId) -> BlockKind {
    if id == AIR_BLOCK {
        BlockKind::Air
    } else {
        match spec_get_def(s, id) {
            Some(d) => d.kind,
            None => BlockKind::Air,
        }
    }
}

/// The definitions that clash with neither the given id nor the given name,
/// in their original order.
pub open spec fn kept_defs(s: Seq<BlockDef>, id: BlockId, name: Seq<char>) -> Seq<BlockDef>
    decreases s.len(),
{
    if s.len() == 0 {
        Seq::empty()
    } else if s[0].id != id && s[0].name@ != name {
        seq![s[0]] + kept_defs(s.drop_first(), id, name)
    } else {
        kept_defs(s.drop_first(), id, name)
    }
}

/// Every kept definition is one of the originals and clashes with neither
/// the id nor the name; uniqueness of ids and names survives the filtering.
pub proof fn lemma_kept_defs(s: Seq<BlockDef>, id: BlockId, name: Seq<char>)
    ensures
        forall|k: int|
            0 <= k < kept_defs(s, id, name).len() ==> {
                let d = #[trigger] kept_defs(s, id, name)[k];
                &&& d.id != id
                &&& d.name@ != name
                &&& exists|j: int| 0 <= j < s.len() && s[j] == d
            },
        unique_ids(s) ==> unique_ids(kept_defs(s, id, name)),
        unique_names(s) ==> unique_names(kept_defs(s, id, name)),
        kept_defs(s, id, name).len() <= s.len(),
    decreases s.len(),
{
    if s.len() > 0 {
        let rest = s.drop_first();
        lemma_kept_defs(rest, id, name);
        assert(forall|j: int| 0 <= j < rest.len() ==> rest[j] == s[j + 1]);
        let kept = kept_defs(s, id, name);
        if s[0].id != id && s[0].name@ != name {
            assert(kept == seq![s[0]] + kept_defs(rest, id, name));
            if unique_ids(s) {
                assert forall|i: int, j: int| 0 <= i < j < kept.len() implies kept[i].id
                    != kept[j].id by {
                    if i == 0 {
                        let d = kept[j];
                        let w = choose|w: int| 0 <= w < rest.len() && rest[w] == d;
                        assert(s[w + 1] == d);
                    }
                }
            }
            if unique_names(s) {
                assert forall|i: int, j: int| 0 <= i < j < kept.len() implies kept[i].name@
                    != kept[j].name@ by {
                    if i == 0 {
                        let d = kept[j];
                        let w = choose|w: int| 0 <= w < rest.len() && rest[w] == d;
                        assert(s[w + 1] == d);
                    }
                }
            }
        }
    }
}

/// Catalog mapping block ids to definitions, with name lookup.
#[derive(Debug, Clone)]
pub struct BlockRegistry {
    entries: Vec<BlockDef>,
}

impl View for BlockRegistry {
    type V = Seq<BlockDef>;

    closed spec fn view(&self) -> Seq<BlockDef> {
        self.entries@
    }
}

impl BlockRegistry {
    /// Ids and names are unique among the registered definitions.
    pub open spec fn wf(self) -> bool {
        &&& unique_ids(self@)
        &&& unique_names(self@)
    }

    /// A fresh registry holding the built-in set: air, stone, dirt, grass,
    /// wood, under ids 0 through 4.
    pub fn new() -> (r: Self)
        ensures
            r.wf(),
            r@.len() == 5,
            r@[0].id == 0 && r@[0].name@ == "air"@ && r@[0].kind == BlockKind::Air,
            r@[1].id == 1 && r@[1].name@ == "stone"@ && r@[1].kind == BlockKind::Solid,
            r@[2].id == 2 && r@[2].name@ == "dirt"@ && r@[2].kind == BlockKind::Solid,
            r@[3].id == 3 && r@[3].name@ == "grass"@ && r@[3].kind == BlockKind::Solid,
            r@[4].id == 4 && r@[4].name@ == "wood"@ && r@[4].kind == BlockKind::Solid,
    {
        let mut entries: Vec<BlockDef> = Vec::new();
        entries.push(BlockDef::air());
        entries.push(BlockDef::stone());
        entries.push(BlockDef::dirt());
        entries.push(BlockDef::grass());
        entries.push(BlockDef::wood());
        proof {
            reveal_strlit("air");
            reveal_strlit("stone");
            reveal_strlit("dirt");
            reveal_strlit("grass");
            reveal_strlit("wood");
            assert("air"@.len() == 3 && "stone"@.len() == 5 && "dirt"@.len() == 4 && "grass"@.len()
                == 5 && "wood"@.len() == 4);
            assert("stone"@[0] != "grass"@[0]);
            assert("dirt"@[0] != "wood"@[0]);
        }
        Self { entries }
    }

    /// Insert a definition, overwriting any prior definition with the same
    /// id and evicting any prior definition with the same name, so that ids
    /// and names stay unique.
    pub fn register(&mut self, block: BlockDef)
        requires
            old(self).wf(),
        ensures
            final(self).wf(),
            final(self)@ == kept_defs(old(self)@, block.id, block.name@).push(block),
            spec_get_def(final(self)@, block.id) == Some(block),
            has_block_name(final(self)@, block.name@),
            final(self)@[block_name_index(final(self)@, block.name@)] == block,
    {
        let ghost orig = self.entries@;
        let mut taken: Vec<BlockDef> = Vec::new();
        core::mem::swap(&mut self.entries, &mut taken);
        let mut kept: Vec<BlockDef> = Vec::new();
        while taken.len() > 0
            invariant
                kept@ + kept_defs(taken@, block.id, block.name@) == kept_defs(
                    orig,
                    block.id,
                    block.name@,
                ),
            decreases taken.len(),
        {
            let ghost before = taken@;
            let d = taken.remove(0);
            proof {
                assert(taken@ =~= before.drop_first());
            }
            if d.id != block.id {
                if !(d.name == block.name) {
                    kept.push(d);
                }
            }
        }
        proof {
            assert(kept@ + kept_defs(taken@, block.id, block.name@) =~= kept@);
            lemma_kept_defs(orig, block.id, block.name@);
        }
        kept.push(block);
        self.entries = kept;
        proof {
            let s = self.entries@;
            let filtered = kept_defs(orig, block.id, block.name@);
            assert forall|i: int, j: int| 0 <= i < j < s.len() implies s[i].id != s[j].id by {
                if j == s.len() - 1 {
                    assert(s[i] == filtered[i]);
                }
            }
            assert forall|i: int, j: int| 0 <= i < j < s.len() implies s[i].name@
                != s[j].name@ by {
                if j == s.len() - 1 {
                    assert(s[i] == filtered[i]);
                }
            }
            let last = s.len() - 1;
            assert(s[last] == block);
            assert(has_block_id(s, block.id));
            let wi = block_id_index(s, block.id);
            assert(0 <= wi < s.len() && s[wi].id == block.id);
            assert(wi == last);
            assert(has_block_name(s, block.name@));
            let wn = block_name_index(s, block.name@);
            assert(0 <= wn < s.len() && s[wn].name@ == block.name@);
            assert(wn == last);
        }
    }

    /// Look up a definition by id.
    pub fn get(&self, id: BlockId) -> (r: Option<&BlockDef>)
        requires
            self.wf(),
        ensures
            match r {
                Some(d) => has_block_id(self@, id) && Some(*d) == spec_get_def(self@, id),
                None => !has_block_id(self@, id),
            },
    {
        let n = self.entries.len();
        let mut i: usize = 0;
        while i < n
            invariant
                n == self@.len(),
                0 <= i <= n,
                self.wf(),
                forall|j: int| 0 <= j < i ==> self@[j].id != id,
            decreases n - i,
        {
            if self.entries[i].id == id {
                proof {
                    let w = block_id_index(self@, id);
                    assert(0 <= w < self@.len() && self@[w].id == id);
                    assert(w == i as int);
                }
                return Some(&self.entries[i]);
            }
            i += 1;
        }
        None
    }

    /// Look up a definition by name.
    pub fn get_by_name(&self, name: &str) -> (r: Option<&BlockDef>)
        requires
            self.wf(),
        ensures
            match r {
                Some(d) => {
                    &&& has_block_name(self@, name@)
                    &&& *d == self@[block_name_index(self@, name@)]
                },
                None => !has_block_name(self@, name@),
            },
    {
        let owned: String = name.to_owned();
        let n = self.entries.len();
        let mut i: usize = 0;
        while i < n
            invariant
                n == self@.len(),
                0 <= i <= n,
                self.wf(),
                owned@ == name@,
                forall|j: int| 0 <= j < i ==> self@[j].name@ != name@,
            decreases n - i,
        {
            if self.entries[i].name == owned {
                proof {
                    let w = block_name_index(self@, name@);
                    assert(0 <= w < self@.len() && self@[w].name@ == name@);
                    assert(w == i as int);
                }
                return Some(&self.entries[i]);
            }
            i += 1;
        }
        None
    }

    /// The kind an id resolves to; unknown ids default to Air, so the
    /// lookup is total and never fails, and the reserved air id 0 resolves
    /// to Air regardless of registry contents.
    pub fn get_kind(&self, id: BlockId) -> (r: BlockKind)
        requires
            self.wf(),
        ensures
            r == spec_get_kind(self@, id),
            id == AIR_BLOCK ==> r == BlockKind::Air,
    {
        if id == AIR_BLOCK {
            return BlockKind::Air;
        }
        match self.get(id) {
            Some(d) => d.kind,
            None => BlockKind::Air,
        }
    }

    /// Whether the id resolves to a solid block; never for the reserved air
    /// id 0.
    pub fn is_solid(&self, id: BlockId) -> (r: bool)
        requires
            self.wf(),
        ensures
            r == (spec_get_kind(self@, id) == BlockKind::Solid),
            id == AIR_BLOCK ==> r == false,
    {
        self.get_kind(id).is_solid()
    }

    /// Whether the id resolves to air; the air id itself always does.
    pub fn is_air(&self, id: BlockId) -> (r: bool)
        requires
            self.wf(),
        ensures
            r == (id == AIR_BLOCK || spec_get_kind(self@, id) == BlockKind::Air),
    {
        id == AIR_BLOCK || self.get_kind(id).is_air()
    }

    /// No id resolves as both air and solid: the solidity queries exclude
    /// each other, the reserved air id 0 included.
    pub proof fn lemma_kind_queries_exclusive(s: Seq<BlockDef>, id: BlockId)
        ensures
            !((id == AIR_BLOCK || spec_get_kind(s, id) == BlockKind::Air) && spec_get_kind(s, id)
                == BlockKind::Solid),
    {
    }

    /// All registered definitions.
    pub fn iter(&self) -> (r: &Vec<BlockDef>)
        ensures
            r@ == self@,
    {
        &self.entries
    }
}

/// The one unrecoverable palette condition: a single chunk asked for more
/// distinct block types than one-byte voxel storage can index.
#[derive(Debug, Clone, Copy, PartialEq, Eq, Structural)]
pub enum PaletteError {
    Exhausted,
}

/// The most distinct block ids one palette can hold, so that every voxel
/// fits in one byte.
pub const PALETTE_CAPACITY: usize = 255;

/// The block id stored under a palette index; an out-of-range index
/// defaults to air.
pub open spec fn pal_resolve(s: Seq<BlockId>, palette_id: u8) -> BlockId {
    if palette_id < s.len() {
        s[palette_id as int]
    } else {
        AIR_BLOCK
    }
}

/// The index under which a block id is stored (unique when entries are).
pub open spec fn pal_index_of(s: Seq<BlockId>, block_id: BlockId) -> int {
    choose|i: int| 0 <= i < s.len() && s[i] == block_id
}

/// What adding a block id does to a palette: an id already present leaves
/// the palette unchanged and returns its existing index; a new id is
/// appended while room remains; past capacity the palette is exhausted.
pub open spec fn spec_add_block(s: Seq<BlockId>, block_id: BlockId) -> (Seq<BlockId>, Result<
    u8,
    PaletteError,
>) {
    if s.contains(block_id) {
        (s, Ok(pal_index_of(s, block_id) as u8))
    } else if s.len() < PALETTE_CAPACITY {
        (s.push(block_id), Ok(s.len() as u8))
    } else {
        (s, Err(PaletteError::Exhausted))
    }
}

/// Per-chunk dictionary compressing the sparse block-id space into a dense
/// one-byte index domain; index 0 is always air.
#[derive(Debug, Clone)]
pub struct Palette {
    entries: Vec<BlockId>,
}

impl View for Palette {
    type V = Seq<BlockId>;

    closed spec fn view(&self) -> Seq<BlockId> {
        self.entries@
    }
}

impl Palette {
    /// Index 0 is air, no id occupies two indices, and the entry count
    /// never exceeds what a one-byte voxel can index.
    pub open spec fn wf(self) -> bool {
        &&& self@.len() >= 1
        &&& self@[0] == AIR_BLOCK
        &&& self@.no_duplicates()
        &&& self@.len() <= PALETTE_CAPACITY
    }

    /// A fresh palette holding air alone, at index 0.
    pub fn new() -> (r: Self)
        ensures
            r.wf(),
            r@ == seq![AIR_BLOCK],
    {
        let mut entries: Vec<BlockId> = Vec::new();
        entries.push(AIR_BLOCK);
        proof {
            assert(entries@ =~= seq![AIR_BLOCK]);
        }
        Self { entries }
    }

    /// Add a block id, returning its palette index. Adding an id already
    /// present returns its existing index and changes nothing; the palette
    /// is exhausted once it already holds the maximum number of distinct
    /// ids and one more is asked for.
    pub fn add_block(&mut self, block_id: BlockId) -> (r: Result<u8, PaletteError>)
        requires
            old(self).wf(),
        ensures
            final(self).wf(),
            (final(self)@, r) == spec_add_block(old(self)@, block_id),
    {
        let n = self.entries.len();
        let mut i: usize = 0;
        while i < n
            invariant
                n == self@.len(),
                0 <= i <= n,
                self.wf(),
                forall|j: int| 0 <= j < i ==> self@[j] != block_id,
            decreases n - i,
        {
            if self.entries[i] == block_id {
                proof {
                    assert(self@.contains(block_id));
                    let w = pal_index_of(self@, block_id);
                    assert(0 <= w < self@.len() && self@[w] == block_id);
                    assert(w == i as int);
                }
                return Ok(i as u8);
            }
            i += 1;
        }
        assert(!self@.contains(block_id));
        if n == PALETTE_CAPACITY {
            return Err(PaletteError::Exhausted);
        }
        self.entries.push(block_id);
        Ok(n as u8)
    }

    /// Get the block id stored under a palette index; an out-of-range index
    /// defaults to air, so corrupt data degrades rather than fails.
    pub fn get_block(&self, palette_id: u8) -> (r: BlockId)
        ensures
            r == pal_resolve(self@, palette_id),
    {
        if (palette_id as usize) < self.entries.len() {
            self.entries[palette_id as usize]
        } else {
            AIR_BLOCK
        }
    }

    /// Get the palette index of a block id, if the id is present.
    pub fn get_palette_id(&self, block_id: BlockId) -> (r: Option<u8>)
        requires
            self.wf(),
        ensures
            match r {
                Some(pid) => {
                    &&& self@.contains(block_id)
                    &&& pid == pal_index_of(self@, block_id) as u8
                },
                None => !self@.contains(block_id),
            },
    {
        let n = self.entries.len();
        let mut i: usize = 0;
        while i < n
            invariant
                n == self@.len(),
                0 <= i <= n,
                self.wf(),
                forall|j: int| 0 <= j < i ==> self@[j] != block_id,
            decreases n - i,
        {
            if self.entries[i] == block_id {
                proof {
                    assert(self@.contains(block_id));
                    let w = pal_index_of(self@, block_id);
                    assert(0 <= w < self@.len() && self@[w] == block_id);
                    assert(w == i as int);
                }
                return Some(i as u8);
            }
            i += 1;
        }
        None
    }

    /// Number of distinct block ids in the palette.
    pub fn len(&self) -> (r: usize)
        ensures
            r == self@.len(),
    {
        self.entries.len()
    }

    /// Whether the palette holds no entries at all (never the case for a
    /// well-formed palette, whose index 0 is air).
    pub fn is_empty(&self) -> (r: bool)
        ensures
            r == (self@.len() == 0),
    {
        self.entries.is_empty()
    }

    /// The (palette index, block id) pairs in insertion order.
    pub fn iter(&self) -> (r: Vec<(u8, BlockId)>)
        requires
            self.wf(),
        ensures
            r@.len() == self@.len(),
            forall|i: int| 0 <= i < r@.len() ==> r@[i] == (i as u8, self@[i]),
    {
        let n = self.entries.len();
        let mut pairs: Vec<(u8, BlockId)> = Vec::new();
        let mut i: usize = 0;
        while i < n
            invariant
                n == self@.len(),
                n <= PALETTE_CAPACITY,
                0 <= i <= n,
                pairs@.len() == i,
                forall|j: int| 0 <= j < i ==> pairs@[j] == (j as u8, self@[j]),
            decreases n - i,
        {
            pairs.push((i as u8, self.entries[i]));
            i += 1;
        }
        pairs
    }
}

/// A duplicate-free palette whose entries all come from the four built-in
/// terrain blocks holds at most four entries, far below capacity.
pub proof fn lemma_terrain_palette_small(s: Seq<BlockId>)
    requires
        s.no_duplicates(),
        forall|i: int| 0 <= i < s.len() ==> 0 <= #[trigger] s[i] <= 3,
    ensures
        s.len() <= 4,
{
    let dom = set![0u16, 1u16, 2u16, 3u16];
    s.unique_seq_to_set();
    assert(s.to_set().subset_of(dom));
    vstd::set_lib::lemma_len_subset(s.to_set(), dom);
    assert(dom.len() <= 4) by {
        assert(dom =~= Set::empty().insert(0u16).insert(1u16).insert(2u16).insert(3u16));
    }
}

/// Palette idempotence: adding the same block id twice yields the same
/// index both times, and the palette does not grow on the repeat insertion.
pub proof fn lemma_palette_add_idempotent(s: Seq<BlockId>, block_id: BlockId)
    requires
        s.no_duplicates(),
    ensures
        ({
            let (s1, r1) = spec_add_block(s, block_id);
            let (s2, r2) = spec_add_block(s1, block_id);
            &&& s2 == s1
            &&& r2 == r1
            &&& s2.len() == s1.len()
        }),
{
    let (s1, r1) = spec_add_block(s, block_id);
    if !s.contains(block_id) && s.len() < PALETTE_CAPACITY {
        assert(s1 == s.push(block_id));
        assert(s1[s.len() as int] == block_id);
        assert(s1.contains(block_id));
        let w = pal_index_of(s1, block_id);
        assert(0 <= w < s1.len() && s1[w] == block_id);
        assert forall|j: int| 0 <= j < s.len() implies s1[j] != block_id by {
            assert(s1[j] == s[j]);
            if s1[j] == block_id {
                assert(s.contains(block_id));
            }
        }
        assert(w == s.len() as int);
    }
}

} // verus!
