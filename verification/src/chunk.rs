//! Chunk data structures and the chunk collection.

use vstd::prelude::*;

verus! {

use crate::{AIR_BLOCK, BlockId};
use crate::math::{
    CHUNK_VOLUME, IVec3, local_in_bounds, local_to_index, spec_local_to_index,
    spec_world_to_chunk, spec_world_to_local, world_to_chunk, world_to_local,
};
use crate::registry::{PALETTE_CAPACITY, Palette, PaletteError, pal_resolve, spec_add_block};

/// The persisted substance of a chunk: its palette entries and its voxel
/// bytes. Two chunks with equal data are byte-identical on disk.
pub ghost struct ChunkData {
    pub palette: Seq<BlockId>,
    pub voxels: Seq<u8>,
}

/// The data of a freshly created chunk: an air-only palette and every voxel
/// at palette index 0.
pub open spec fn empty_chunk_data() -> ChunkData {
    ChunkData { palette: seq![AIR_BLOCK], voxels: Seq::new(CHUNK_VOLUME as nat, |i: int| 0u8) }
}

/// Well-formed chunk data: a well-formed palette and one voxel byte per
/// chunk position, each a valid palette index.
pub open spec fn data_wf(d: ChunkData) -> bool {
    &&& d.palette.len() >= 1
    &&& d.palette[0] == AIR_BLOCK
    &&& d.palette.no_duplicates()
    &&& d.palette.len() <= PALETTE_CAPACITY
    &&& d.voxels.len() == CHUNK_VOLUME
    &&& forall|i: int| 0 <= i < d.voxels.len() ==> d.voxels[i] < d.palette.len()
}

/// The block id a chunk's data shows at a local coordinate; out-of-bounds
/// coordinates read as air.
pub open spec fn data_block_at(d: ChunkData, local_pos: IVec3) -> BlockId {
    if local_in_bounds(local_pos) {
        pal_resolve(d.palette, d.voxels[spec_local_to_index(local_pos)])
    } else {
        AIR_BLOCK
    }
}

/// Whether writing a block id at a local coordinate actually stores it: the
/// coordinate is in bounds and the palette can take the id.
pub open spec fn data_set_writes(d: ChunkData, local_pos: IVec3, block_id: BlockId) -> bool {
    local_in_bounds(local_pos) && spec_add_block(d.palette, block_id).1 is Ok
}

/// What writing a block id at a local coordinate does to a chunk's data:
/// out of bounds is a silent no-op, a palette-exhausted write changes
/// nothing, and otherwise the voxel takes the id's palette index.
pub open spec fn data_set_block(d: ChunkData, local_pos: IVec3, block_id: BlockId) -> ChunkData {
    if !local_in_bounds(local_pos) {
        d
    } else {
        let (p1, r) = spec_add_block(d.palette, block_id);
        match r {
            Ok(pid) => ChunkData {
                palette: p1,
                voxels: d.voxels.update(spec_local_to_index(local_pos), pid),
            },
            Err(_) => d,
        }
    }
}

/// The outcome writing a block id at a local coordinate reports: only a
/// palette-exhausted in-bounds write fails.
pub open spec fn data_set_result(d: ChunkData, local_pos: IVec3, block_id: BlockId) -> Result<
    (),
    PaletteError,
> {
    if !local_in_bounds(local_pos) {
        Ok(())
    } else {
        match spec_add_block(d.palette, block_id).1 {
            Ok(_) => Ok(()),
            Err(e) => Err(e),
        }
    }
}

/// How many voxels of the data resolve to a non-air block, over the voxel
/// prefix of the given length.
pub open spec fn solid_count(d: ChunkData, n: int) -> int
    decreases n,
{
    if n <= 0 {
        0
    } else {
        solid_count(d, n - 1) + if pal_resolve(d.palette, d.voxels[n - 1]) != AIR_BLOCK {
            1int
        } else {
            0int
        }
    }
}

/// A palette holding air alone makes every voxel resolve to air, so the
/// solid count of such data is zero.
pub proof fn lemma_solid_count_air(d: ChunkData, n: int)
    requires
        d.palette.len() == 1,
        d.palette[0] == AIR_BLOCK,
    ensures
        solid_count(d, n) == 0,
    decreases n,
{
    if n > 0 {
        lemma_solid_count_air(d, n - 1);
    }
}

/// The non-air voxels of the data from index `k` on, in ascending index
/// order, each with its local coordinate and block id.
pub open spec fn nonair_blocks_from(d: ChunkData, k: int) -> Seq<(IVec3, BlockId)>
    decreases CHUNK_VOLUME - k,
{
    if k < 0 || k >= CHUNK_VOLUME {
        Seq::empty()
    } else {
        let id = pal_resolve(d.palette, d.voxels[k]);
        let rest = nonair_blocks_from(d, k + 1);
        if id != AIR_BLOCK {
            seq![(crate::math::spec_index_to_local(k), id)] + rest
        } else {
            rest
        }
    }
}

/// A chunk of voxel data with palette compression.
#[derive(Debug, Clone)]
pub struct Chunk {
    /// Chunk position in chunk coordinates.
    pub position: IVec3,
    /// Palette for block id compression.
    pub palette: Palette,
    /// Voxel data as palette indices, one byte per voxel.
    pub voxels: Vec<u8>,
    /// Whether this chunk has been modified since it was last saved.
    pub dirty: bool,
}

impl Chunk {
    /// The chunk's persisted substance.
    pub open spec fn data(self) -> ChunkData {
        ChunkData { palette: self.palette@, voxels: self.voxels@ }
    }

    /// A chunk is well formed when its data is.
    pub open spec fn wf(self) -> bool {
        data_wf(self.data())
    }

    /// Create a new chunk filled entirely with air, not yet dirty.
    pub fn new(position: IVec3) -> (r: Self)
        ensures
            r.wf(),
            r.position == position,
            r.dirty == false,
            r.data() == empty_chunk_data(),
            forall|l: IVec3| data_block_at(r.data(), l) == AIR_BLOCK,
    {
        let palette = Palette::new();
        let voxels = vec![0u8; CHUNK_VOLUME];
        let c = Self { position, palette, voxels, dirty: false };
        proof {
            assert(c.voxels@ =~= empty_chunk_data().voxels);
            assert(c.data() == empty_chunk_data());
        }
        c
    }

    /// Get the block id at local coordinates; out of bounds reads as air.
    pub fn get_block(&self, local_pos: IVec3) -> (r: BlockId)
        requires
            self.wf(),
        ensures
            r == data_block_at(self.data(), local_pos),
    {
        if let Some(index) = local_to_index(local_pos) {
            let palette_id = self.voxels[index];
            self.palette.get_block(palette_id)
        } else {
            AIR_BLOCK
        }
    }

    /// Set the block id at local coordinates: out of bounds is a silent
    /// no-op, and an in-bounds write of a new id fails only when the
    /// palette is exhausted, leaving the chunk unchanged. A successful
    /// in-bounds write marks the chunk dirty.
    pub fn set_block(&mut self, local_pos: IVec3, block_id: BlockId) -> (r: Result<
        (),
        PaletteError,
    >)
        requires
            old(self).wf(),
        ensures
            final(self).wf(),
            final(self).position == old(self).position,
            final(self).data() == data_set_block(old(self).data(), local_pos, block_id),
            r == data_set_result(old(self).data(), local_pos, block_id),
            final(self).dirty == (old(self).dirty || data_set_writes(
                old(self).data(),
                local_pos,
                block_id,
            )),
    {
        if let Some(index) = local_to_index(local_pos) {
            match self.palette.add_block(block_id) {
                Ok(palette_id) => {
                    self.voxels[index] = palette_id;
                    self.dirty = true;
                    Ok(())
                },
                Err(e) => Err(e),
            }
        } else {
            Ok(())
        }
    }

    /// Overwrite every voxel with a single block type behind a reset
    /// palette, and mark the chunk dirty.
    pub fn fill(&mut self, block_id: BlockId)
        ensures
            final(self).wf(),
            final(self).position == old(self).position,
            final(self).dirty == true,
            final(self).data().palette == if block_id == AIR_BLOCK {
                seq![AIR_BLOCK]
            } else {
                seq![AIR_BLOCK, block_id]
            },
            forall|l: IVec3|
                local_in_bounds(l) ==> data_block_at(final(self).data(), l) == block_id,
    {
        let mut palette = Palette::new();
        // A fresh palette always has room for one more id.
        let palette_id = match palette.add_block(block_id) {
            Ok(pid) => pid,
            Err(_) => {
                proof {
                    assert(false);
                }
                0
            },
        };
        proof {
            if block_id != AIR_BLOCK {
                assert(!seq![AIR_BLOCK].contains(block_id)) by {
                    if seq![AIR_BLOCK].contains(block_id) {
                        let w = choose|i: int|
                            0 <= i < seq![AIR_BLOCK].len() && seq![AIR_BLOCK][i] == block_id;
                        assert(w == 0);
                    }
                }
                assert(palette@ =~= seq![AIR_BLOCK, block_id]);
            } else {
                assert(seq![AIR_BLOCK][0] == block_id);
                assert(seq![AIR_BLOCK].contains(block_id));
            }
        }
        self.palette = palette;
        self.voxels = vec![palette_id; CHUNK_VOLUME];
        self.dirty = true;
        proof {
            assert(forall|i: int|
                0 <= i < self.voxels@.len() ==> #[trigger] self.voxels@[i] == palette_id);
        }
    }

    /// Whether the chunk is semantically empty: its palette holds exactly
    /// one entry and that entry is air. Constant time; no voxel scan.
    pub fn is_empty(&self) -> (r: bool)
        requires
            self.wf(),
        ensures
            r == (self.data().palette =~= seq![AIR_BLOCK]),
    {
        let r = self.palette.len() == 1;
        proof {
            if self.palette@.len() == 1 {
                assert(self.palette@ =~= seq![AIR_BLOCK]);
            }
        }
        r
    }

    /// Count the voxels holding a non-air block, short-circuiting to zero
    /// for a semantically empty chunk.
    pub fn count_solid_blocks(&self) -> (r: usize)
        requires
            self.wf(),
        ensures
            r == solid_count(self.data(), CHUNK_VOLUME as int),
    {
        if self.is_empty() {
            proof {
                lemma_solid_count_air(self.data(), CHUNK_VOLUME as int);
            }
            return 0;
        }
        let mut count: usize = 0;
        let mut i: usize = 0;
        while i < CHUNK_VOLUME
            invariant
                self.wf(),
                0 <= i <= CHUNK_VOLUME,
                count <= i,
                count == solid_count(self.data(), i as int),
            decreases CHUNK_VOLUME - i,
        {
            let palette_id = self.voxels[i];
            if self.palette.get_block(palette_id) != AIR_BLOCK {
                count += 1;
            }
            i += 1;
        }
        count
    }

    /// All non-air voxels with their local coordinates and block ids, in
    /// ascending voxel-index order.
    pub fn iter_blocks(&self) -> (r: Vec<(IVec3, BlockId)>)
        requires
            self.wf(),
        ensures
            r@ == nonair_blocks_from(self.data(), 0),
    {
        let mut blocks: Vec<(IVec3, BlockId)> = Vec::new();
        let mut i: usize = 0;
        while i < CHUNK_VOLUME
            invariant
                self.wf(),
                0 <= i <= CHUNK_VOLUME,
                blocks@ + nonair_blocks_from(self.data(), i as int) == nonair_blocks_from(
                    self.data(),
                    0,
                ),
            decreases CHUNK_VOLUME - i,
        {
            let ghost pre = blocks@;
            let palette_id = self.voxels[i];
            let id = self.palette.get_block(palette_id);
            if id != AIR_BLOCK {
                match crate::math::index_to_local(i) {
                    Some(pos) => {
                        blocks.push((pos, id));
                    },
                    None => (),
                }
                proof {
                    assert(blocks@ =~= pre.push(
                        (crate::math::spec_index_to_local(i as int), id),
                    ));
                    assert(pre.push((crate::math::spec_index_to_local(i as int), id))
                        + nonair_blocks_from(self.data(), i + 1) =~= pre + nonair_blocks_from(
                        self.data(),
                        i as int,
                    ));
                }
            }
            i += 1;
        }
        blocks
    }

    /// Mark the chunk as saved.
    pub fn mark_clean(&mut self)
        ensures
            final(self).dirty == false,
            final(self).position == old(self).position,
            final(self).data() == old(self).data(),
    {
        self.dirty = false;
    }

    /// Whether the chunk has unsaved changes.
    pub fn is_dirty(&self) -> (r: bool)
        ensures
            r == self.dirty,
    {
        self.dirty
    }
}

/// Some chunk in the sequence sits at the given chunk coordinate.
pub open spec fn has_chunk_at(s: Seq<Chunk>, chunk_pos: IVec3) -> bool {
    exists|i: int| 0 <= i < s.len() && s[i].position == chunk_pos
}

/// The index of the chunk at the given coordinate (unique when positions
/// are).
pub open spec fn chunk_at_index(s: Seq<Chunk>, chunk_pos: IVec3) -> int {
    choose|i: int| 0 <= i < s.len() && s[i].position == chunk_pos
}

/// The block id the collection shows at a world position: the owning
/// chunk's block when that chunk is loaded, air otherwise.
pub open spec fn spec_manager_block_at(s: Seq<Chunk>, world_pos: IVec3) -> BlockId {
    let cp = spec_world_to_chunk(world_pos);
    let lp = spec_world_to_local(world_pos);
    if has_chunk_at(s, cp) {
        data_block_at(s[chunk_at_index(s, cp)].data(), lp)
    } else {
        AIR_BLOCK
    }
}

/// A chunk coordinate lies within the given planar radius of a center:
/// squared distance on x and z only, since chunks span full height.
pub open spec fn within_planar_radius(chunk_pos: IVec3, center: IVec3, max_distance: i32) -> bool {
    (chunk_pos.x - center.x) * (chunk_pos.x - center.x) + (chunk_pos.z - center.z) * (chunk_pos.z
        - center.z) <= max_distance * max_distance
}

/// The chunks that lie within the planar radius, in their original order.
pub open spec fn retained_chunks(s: Seq<Chunk>, center: IVec3, max_distance: i32) -> Seq<Chunk>
    decreases s.len(),
{
    if s.len() == 0 {
        Seq::empty()
    } else if within_planar_radius(s[0].position, center, max_distance) {
        seq![s[0]] + retained_chunks(s.drop_first(), center, max_distance)
    } else {
        retained_chunks(s.drop_first(), center, max_distance)
    }
}

/// Distance-based retention keeps exactly the chunks within the radius:
/// every retained chunk is an original within it, every original within it
/// is retained, and position uniqueness and chunk well-formedness survive.
pub proof fn lemma_retained_chunks(s: Seq<Chunk>, center: IVec3, max_distance: i32)
    ensures
        forall|k: int|
            0 <= k < retained_chunks(s, center, max_distance).len() ==> {
                let c = #[trigger] retained_chunks(s, center, max_distance)[k];
                &&& within_planar_radius(c.position, center, max_distance)
                &&& exists|j: int| 0 <= j < s.len() && s[j] == c
            },
        forall|j: int|
            0 <= j < s.len() && within_planar_radius(#[trigger] s[j].position, center, max_distance)
                ==> retained_chunks(s, center, max_distance).contains(s[j]),
        (forall|i: int, j: int| 0 <= i < j < s.len() ==> s[i].position != s[j].position) ==> forall|
            i: int,
            j: int,
        |
            0 <= i < j < retained_chunks(s, center, max_distance).len() ==> retained_chunks(
                s,
                center,
                max_distance,
            )[i].position != retained_chunks(s, center, max_distance)[j].position,
        (forall|i: int| 0 <= i < s.len() ==> (#[trigger] s[i]).wf()) ==> forall|i: int|
            0 <= i < retained_chunks(s, center, max_distance).len() ==> (#[trigger] retained_chunks(
                s,
                center,
                max_distance,
            )[i]).wf(),
        retained_chunks(s, center, max_distance).len() <= s.len(),
    decreases s.len(),
{
    if s.len() > 0 {
        let rest = s.drop_first();
        lemma_retained_chunks(rest, center, max_distance);
        assert(forall|j: int| 0 <= j < rest.len() ==> rest[j] == s[j + 1]);
        let kept = retained_chunks(s, center, max_distance);
        let kept_rest = retained_chunks(rest, center, max_distance);
        if within_planar_radius(s[0].position, center, max_distance) {
            assert(kept == seq![s[0]] + kept_rest);
            assert(kept.contains(s[0])) by {
                assert(kept[0] == s[0]);
            }
            assert forall|j: int|
                0 <= j < s.len() && within_planar_radius(
                    #[trigger] s[j].position,
                    center,
                    max_distance,
                ) implies kept.contains(s[j]) by {
                if j > 0 {
                    assert(kept_rest.contains(rest[j - 1]));
                    let w = choose|w: int| 0 <= w < kept_rest.len() && kept_rest[w] == rest[j - 1];
                    assert(kept[w + 1] == s[j]);
                }
            }
            if forall|i: int, j: int| 0 <= i < j < s.len() ==> s[i].position != s[j].position {
                assert forall|i: int, j: int| 0 <= i < j < kept.len() implies kept[i].position
                    != kept[j].position by {
                    if i == 0 {
                        let c = kept[j];
                        let w = choose|w: int| 0 <= w < rest.len() && rest[w] == c;
                        assert(s[w + 1] == c);
                    }
                }
            }
        } else {
            assert forall|j: int|
                0 <= j < s.len() && within_planar_radius(
                    #[trigger] s[j].position,
                    center,
                    max_distance,
                ) implies kept.contains(s[j]) by {
                if j > 0 {
                    assert(kept_rest.contains(rest[j - 1]));
                }
            }
        }
    }
}

/// After distance-based eviction a coordinate is loaded exactly when it was
/// loaded before and lies within the planar radius, and it still maps to
/// the same chunk.
pub proof fn lemma_unload_keeps_within(s: Seq<Chunk>, center: IVec3, max_distance: i32, p: IVec3)
    requires
        forall|i: int, j: int| 0 <= i < j < s.len() ==> s[i].position != s[j].position,
    ensures
        has_chunk_at(retained_chunks(s, center, max_distance), p) <==> (has_chunk_at(s, p)
            && within_planar_radius(p, center, max_distance)),
        has_chunk_at(retained_chunks(s, center, max_distance), p) ==> retained_chunks(
            s,
            center,
            max_distance,
        )[chunk_at_index(retained_chunks(s, center, max_distance), p)] == s[chunk_at_index(s, p)],
{
    lemma_retained_chunks(s, center, max_distance);
    let kept = retained_chunks(s, center, max_distance);
    if has_chunk_at(kept, p) {
        let i = chunk_at_index(kept, p);
        assert(0 <= i < kept.len() && kept[i].position == p);
        let j = choose|j: int| 0 <= j < s.len() && s[j] == kept[i];
        assert(s[j].position == p);
        let w = chunk_at_index(s, p);
        assert(0 <= w < s.len() && s[w].position == p);
        assert(w == j);
    }
    if has_chunk_at(s, p) && within_planar_radius(p, center, max_distance) {
        let w = chunk_at_index(s, p);
        assert(0 <= w < s.len() && s[w].position == p);
        assert(kept.contains(s[w]));
        let i = choose|i: int| 0 <= i < kept.len() && kept[i] == s[w];
        assert(kept[i].position == p);
    }
}

/// Keyed collection of chunks: at most one chunk per coordinate, the sole
/// entry point for world-coordinate block access.
#[derive(Debug)]
pub struct ChunkManager {
    chunks: Vec<Chunk>,
}

impl View for ChunkManager {
    type V = Seq<Chunk>;

    closed spec fn view(&self) -> Seq<Chunk> {
        self.chunks@
    }
}

impl ChunkManager {
    /// At most one chunk per coordinate, every chunk well formed.
    pub open spec fn wf(self) -> bool {
        &&& forall|i: int, j: int| 0 <= i < j < self@.len() ==> self@[i].position != self@[j].position
        &&& forall|i: int| 0 <= i < self@.len() ==> (#[trigger] self@[i]).wf()
    }

    /// An empty collection: no chunks loaded.
    pub fn new() -> (r: Self)
        ensures
            r.wf(),
            r@ == Seq::<Chunk>::empty(),
    {
        Self { chunks: Vec::new() }
    }

    /// Find the slot of the chunk at a coordinate, if one is loaded.
    fn find_chunk(&self, chunk_pos: IVec3) -> (r: Option<usize>)
        requires
            self.wf(),
        ensures
            match r {
                Some(i) => {
                    &&& has_chunk_at(self@, chunk_pos)
                    &&& i == chunk_at_index(self@, chunk_pos)
                    &&& 0 <= i < self@.len()
                    &&& self@[i as int].position == chunk_pos
                },
                None => !has_chunk_at(self@, chunk_pos),
            },
    {
        let n = self.chunks.len();
        let mut i: usize = 0;
        while i < n
            invariant
                n == self@.len(),
                0 <= i <= n,
                self.wf(),
                forall|j: int| 0 <= j < i ==> self@[j].position != chunk_pos,
            decreases n - i,
        {
            if self.chunks[i].position == chunk_pos {
                proof {
                    let w = chunk_at_index(self@, chunk_pos);
                    assert(0 <= w < self@.len() && self@[w].position == chunk_pos);
                    assert(w == i as int);
                }
                return Some(i);
            }
            i += 1;
        }
        None
    }

    /// Get the chunk at the given chunk coordinates, creating an empty one
    /// there first if none is loaded.
    pub fn get_or_create_chunk(&mut self, chunk_pos: IVec3) -> (r: &mut Chunk)
        requires
            old(self).wf(),
        ensures
            has_chunk_at(old(self)@, chunk_pos) ==> {
                let i = chunk_at_index(old(self)@, chunk_pos);
                &&& *r == old(self)@[i]
                &&& final(self)@ == old(self)@.update(i, *final(r))
            },
            !has_chunk_at(old(self)@, chunk_pos) ==> {
                &&& r.position == chunk_pos
                &&& r.dirty == false
                &&& r.data() == empty_chunk_data()
                &&& final(self)@ == old(self)@.push(*final(r))
            },
            r.wf(),
            r.position == chunk_pos,
            (final(r).wf() && final(r).position == chunk_pos) ==> final(self).wf(),
    {
        let found = self.find_chunk(chunk_pos);
        match found {
            Some(i) => &mut self.chunks[i],
            None => {
                let c = Chunk::new(chunk_pos);
                self.chunks.push(c);
                let n = self.chunks.len() - 1;
                &mut self.chunks[n]
            },
        }
    }

    /// Get the chunk at the given chunk coordinates, if one is loaded.
    pub fn get_chunk(&self, chunk_pos: IVec3) -> (r: Option<&Chunk>)
        requires
            self.wf(),
        ensures
            match r {
                Some(c) => {
                    &&& has_chunk_at(self@, chunk_pos)
                    &&& *c == self@[chunk_at_index(self@, chunk_pos)]
                },
                None => !has_chunk_at(self@, chunk_pos),
            },
    {
        match self.find_chunk(chunk_pos) {
            Some(i) => Some(&self.chunks[i]),
            None => None,
        }
    }

    /// Get a mutable chunk at the given chunk coordinates, if one is
    /// loaded.
    pub fn get_chunk_mut(&mut self, chunk_pos: IVec3) -> (r: Option<&mut Chunk>)
        requires
            old(self).wf(),
        ensures
            match r {
                Some(c) => {
                    let i = chunk_at_index(old(self)@, chunk_pos);
                    &&& has_chunk_at(old(self)@, chunk_pos)
                    &&& *c == old(self)@[i]
                    &&& final(self)@ == old(self)@.update(i, *final(c))
                    &&& (final(c).wf() && final(c).position == chunk_pos) ==> final(self).wf()
                },
                None => !has_chunk_at(old(self)@, chunk_pos) && final(self)@ == old(self)@,
            },
    {
        match self.find_chunk(chunk_pos) {
            Some(i) => Some(&mut self.chunks[i]),
            None => None,
        }
    }

    /// Insert a chunk, keyed by its own position, overwriting any chunk
    /// already loaded at that coordinate.
    pub fn insert_chunk(&mut self, chunk: Chunk)
        requires
            old(self).wf(),
            chunk.wf(),
        ensures
            final(self).wf(),
            has_chunk_at(old(self)@, chunk.position) ==> final(self)@ == old(self)@.update(
                chunk_at_index(old(self)@, chunk.position),
                chunk,
            ),
            !has_chunk_at(old(self)@, chunk.position) ==> final(self)@ == old(self)@.push(chunk),
    {
        match self.find_chunk(chunk.position) {
            Some(i) => {
                let slot = &mut self.chunks[i];
                *slot = chunk;
            },
            None => {
                self.chunks.push(chunk);
            },
        }
    }

    /// Remove and return the chunk at a coordinate, if one is loaded.
    pub fn remove_chunk(&mut self, chunk_pos: IVec3) -> (r: Option<Chunk>)
        requires
            old(self).wf(),
        ensures
            final(self).wf(),
            match r {
                Some(c) => {
                    &&& has_chunk_at(old(self)@, chunk_pos)
                    &&& c == old(self)@[chunk_at_index(old(self)@, chunk_pos)]
                    &&& final(self)@ == old(self)@.remove(chunk_at_index(old(self)@, chunk_pos))
                },
                None => {
                    &&& !has_chunk_at(old(self)@, chunk_pos)
                    &&& final(self)@ == old(self)@
                },
            },
    {
        match self.find_chunk(chunk_pos) {
            Some(i) => {
                let c = self.chunks.remove(i);
                proof {
                    let s = old(self)@;
                    let t = self@;
                    assert(forall|j: int| 0 <= j < i ==> t[j] == s[j]);
                    assert(forall|j: int| i <= j < t.len() ==> t[j] == s[j + 1]);
                }
                Some(c)
            },
            None => None,
        }
    }

    /// Get the block at world coordinates; an unloaded chunk reads as air
    /// and is never created by a read.
    pub fn get_block(&self, world_pos: IVec3) -> (r: BlockId)
        requires
            self.wf(),
        ensures
            r == spec_manager_block_at(self@, world_pos),
    {
        let chunk_pos = world_to_chunk(world_pos);
        let local_pos = world_to_local(world_pos);
        match self.get_chunk(chunk_pos) {
            Some(chunk) => chunk.get_block(local_pos),
            None => AIR_BLOCK,
        }
    }

    /// Set the block at world coordinates, creating the owning chunk lazily
    /// on first write; fails only when that chunk's palette is exhausted.
    pub fn set_block(&mut self, world_pos: IVec3, block_id: BlockId) -> (r: Result<
        (),
        PaletteError,
    >)
        requires
            old(self).wf(),
        ensures
            final(self).wf(),
            ({
                let cp = spec_world_to_chunk(world_pos);
                let lp = spec_world_to_local(world_pos);
                if has_chunk_at(old(self)@, cp) {
                    let i = chunk_at_index(old(self)@, cp);
                    let c = old(self)@[i];
                    &&& final(self)@.len() == old(self)@.len()
                    &&& forall|j: int| 0 <= j < old(self)@.len() && j != i ==> final(self)@[j]
                        == old(self)@[j]
                    &&& final(self)@[i].position == cp
                    &&& final(self)@[i].data() == data_set_block(c.data(), lp, block_id)
                    &&& final(self)@[i].dirty == (c.dirty || data_set_writes(
                        c.data(),
                        lp,
                        block_id,
                    ))
                    &&& r == data_set_result(c.data(), lp, block_id)
                } else {
                    &&& final(self)@.len() == old(self)@.len() + 1
                    &&& forall|j: int| 0 <= j < old(self)@.len() ==> final(self)@[j] == old(
                        self,
                    )@[j]
                    &&& final(self)@.last().position == cp
                    &&& final(self)@.last().data() == data_set_block(
                        empty_chunk_data(),
                        lp,
                        block_id,
                    )
                    &&& final(self)@.last().dirty == data_set_writes(
                        empty_chunk_data(),
                        lp,
                        block_id,
                    )
                    &&& r == data_set_result(empty_chunk_data(), lp, block_id)
                }
            }),
    {
        let chunk_pos = world_to_chunk(world_pos);
        let local_pos = world_to_local(world_pos);
        let chunk = self.get_or_create_chunk(chunk_pos);
        chunk.set_block(local_pos, block_id)
    }

    /// The coordinates of all loaded chunks, in load order.
    pub fn loaded_chunks(&self) -> (r: Vec<IVec3>)
        ensures
            r@.len() == self@.len(),
            forall|i: int| 0 <= i < r@.len() ==> r@[i] == self@[i].position,
    {
        let n = self.chunks.len();
        let mut positions: Vec<IVec3> = Vec::new();
        let mut i: usize = 0;
        while i < n
            invariant
                n == self@.len(),
                0 <= i <= n,
                positions@.len() == i,
                forall|j: int| 0 <= j < i ==> positions@[j] == self@[j].position,
            decreases n - i,
        {
            positions.push(self.chunks[i].position);
            i += 1;
        }
        positions
    }

    /// The coordinates of the loaded chunks that need saving, in load
    /// order; a persistence collaborator fetches each chunk itself through
    /// `get_chunk` and clears its flag through `get_chunk_mut`.
    pub fn dirty_chunks(&self) -> (r: Vec<IVec3>)
        ensures
            r@ == dirty_positions(self@),
    {
        let n = self.chunks.len();
        let mut positions: Vec<IVec3> = Vec::new();
        let mut i: usize = 0;
        while i < n
            invariant
                n == self@.len(),
                0 <= i <= n,
                positions@ == dirty_positions(self@.take(i as int)),
            decreases n - i,
        {
            let ghost pre = self@.take(i as int);
            if self.chunks[i].is_dirty() {
                positions.push(self.chunks[i].position);
            }
            proof {
                assert(self@.take(i + 1).drop_last() =~= pre);
                assert(self@.take(i + 1).last() == self@[i as int]);
            }
            i += 1;
        }
        proof {
            assert(self@.take(n as int) =~= self@);
        }
        positions
    }

    /// How many chunks are loaded.
    pub fn chunk_count(&self) -> (r: usize)
        ensures
            r == self@.len(),
    {
        self.chunks.len()
    }

    /// Destructively evict every chunk whose squared planar (x, z) distance
    /// from the center exceeds the squared radius; no save-back happens
    /// here, so callers must flush dirty chunks first.
    pub fn unload_distant_chunks(&mut self, center: IVec3, max_distance: i32)
        requires
            old(self).wf(),
        ensures
            final(self).wf(),
            final(self)@ == retained_chunks(old(self)@, center, max_distance),
    {
        let ghost orig = self.chunks@;
        let mut taken: Vec<Chunk> = Vec::new();
        core::mem::swap(&mut self.chunks, &mut taken);
        let mut kept: Vec<Chunk> = Vec::new();
        while taken.len() > 0
            invariant
                orig == old(self)@,
                old(self).wf(),
                kept@ + retained_chunks(taken@, center, max_distance) == retained_chunks(
                    orig,
                    center,
                    max_distance,
                ),
            decreases taken.len(),
        {
            let ghost before = taken@;
            let c = taken.remove(0);
            proof {
                assert(taken@ =~= before.drop_first());
            }
            let dx = (c.position.x as i128) - (center.x as i128);
            let dz = (c.position.z as i128) - (center.z as i128);
            proof {
                assert(dx * dx >= 0 && dx * dx < 0x40000000000000000i128) by (nonlinear_arith)
                    requires -0x100000000i128 <= dx <= 0x100000000i128;
                assert(dz * dz >= 0 && dz * dz < 0x40000000000000000i128) by (nonlinear_arith)
                    requires -0x100000000i128 <= dz <= 0x100000000i128;
            }
            let dist_sq = dx * dx + dz * dz;
            let md = max_distance as i128;
            proof {
                assert(md * md >= 0 && md * md < 0x40000000000000000i128) by (nonlinear_arith)
                    requires -0x100000000i128 <= md <= 0x100000000i128;
            }
            let max_sq = md * md;
            if dist_sq <= max_sq {
                kept.push(c);
            }
        }
        proof {
            assert(kept@ + retained_chunks(taken@, center, max_distance) =~= kept@);
            lemma_retained_chunks(orig, center, max_distance);
        }
        self.chunks = kept;
    }
}

/// The positions of the dirty chunks, in their original order.
pub open spec fn dirty_positions(s: Seq<Chunk>) -> Seq<IVec3>
    decreases s.len(),
{
    if s.len() == 0 {
        Seq::empty()
    } else {
        dirty_positions(s.drop_last()) + if s.last().dirty {
            seq![s.last().position]
        } else {
            Seq::empty()
        }
    }
}

/// Chunk write/read: an in-bounds write that the palette can take is read
/// back as the written id and disturbs no other position; an out-of-bounds
/// write changes nothing, and an out-of-bounds read yields air.
pub proof fn lemma_chunk_write_read(d: ChunkData, local_pos: IVec3, block_id: BlockId)
    requires
        data_wf(d),
    ensures
        local_in_bounds(local_pos) && spec_add_block(d.palette, block_id).1 is Ok
            ==> data_block_at(data_set_block(d, local_pos, block_id), local_pos) == block_id,
        forall|q: IVec3|
            local_in_bounds(q) && q != local_pos ==> data_block_at(
                #[trigger] data_set_block(d, local_pos, block_id),
                q,
            ) == data_block_at(d, q),
        !local_in_bounds(local_pos) ==> data_set_block(d, local_pos, block_id) == d
            && data_block_at(d, local_pos) == AIR_BLOCK,
{
    if local_in_bounds(local_pos) {
        let (p1, r) = spec_add_block(d.palette, block_id);
        let idx = spec_local_to_index(local_pos);
        crate::math::lemma_local_index_round_trip(local_pos);
        match r {
            Ok(pid) => {
                if d.palette.contains(block_id) {
                    let w = crate::registry::pal_index_of(d.palette, block_id);
                    assert(0 <= w < d.palette.len() && d.palette[w] == block_id);
                }
                let d1 = data_set_block(d, local_pos, block_id);
                assert(pal_resolve(d1.palette, pid) == block_id);
                assert forall|q: IVec3| local_in_bounds(q) && q != local_pos implies data_block_at(
                    d1,
                    q,
                ) == data_block_at(d, q) by {
                    crate::math::lemma_local_index_round_trip(q);
                    let qi = spec_local_to_index(q);
                    if qi == idx {
                        assert(crate::math::spec_index_to_local(qi)
                            == crate::math::spec_index_to_local(idx));
                        assert(q == local_pos);
                    }
                    assert(d1.voxels[qi] == d.voxels[qi]);
                    assert(d.voxels[qi] < d.palette.len());
                    if d.palette.contains(block_id) {
                        assert(d1.palette == d.palette);
                    } else {
                        assert(d1.palette == d.palette.push(block_id));
                        assert(pal_resolve(d1.palette, d.voxels[qi]) == pal_resolve(
                            d.palette,
                            d.voxels[qi],
                        ));
                    }
                }
            },
            Err(_) => {},
        }
    }
}

} // verus!
