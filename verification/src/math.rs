//! Integer vector math and conversions between world, chunk, and local
//! coordinate spaces.

use vstd::prelude::*;

verus! {

use vstd::arithmetic::div_mod::{
    lemma_fundamental_div_mod, lemma_fundamental_div_mod_converse,
};

/// One component raised to a lower bound, then capped at an upper bound.
pub open spec fn spec_clamp(v: int, lo: int, hi: int) -> int {
    let raised = if v >= lo {
        v
    } else {
        lo
    };
    if raised <= hi {
        raised
    } else {
        hi
    }
}

/// 3D integer vector for chunk and block coordinates.
#[derive(Debug, Clone, Copy, PartialEq, Eq, Hash, Structural)]
pub struct IVec3 {
    pub x: i32,
    pub y: i32,
    pub z: i32,
}

impl IVec3 {
    pub fn new(x: i32, y: i32, z: i32) -> (r: Self)
        ensures
            r == (IVec3 { x, y, z }),
    {
        Self { x, y, z }
    }

    pub fn dot(self, other: Self) -> (r: i32)
        requires
            i32::MIN <= self.x * other.x <= i32::MAX,
            i32::MIN <= self.y * other.y <= i32::MAX,
            i32::MIN <= self.z * other.z <= i32::MAX,
            i32::MIN <= self.x * other.x + self.y * other.y <= i32::MAX,
            i32::MIN <= self.x * other.x + self.y * other.y + self.z * other.z <= i32::MAX,
        ensures
            r == self.x * other.x + self.y * other.y + self.z * other.z,
    {
        self.x * other.x + self.y * other.y + self.z * other.z
    }

    pub fn length_squared(self) -> (r: i32)
        requires
            i32::MIN <= self.x * self.x <= i32::MAX,
            i32::MIN <= self.y * self.y <= i32::MAX,
            i32::MIN <= self.z * self.z <= i32::MAX,
            i32::MIN <= self.x * self.x + self.y * self.y <= i32::MAX,
            i32::MIN <= self.x * self.x + self.y * self.y + self.z * self.z <= i32::MAX,
        ensures
            r == self.x * self.x + self.y * self.y + self.z * self.z,
    {
        self.dot(self)
    }

    pub fn abs(self) -> (r: Self)
        requires
            self.x != i32::MIN,
            self.y != i32::MIN,
            self.z != i32::MIN,
        ensures
            r.x == if self.x < 0 { -self.x as int } else { self.x as int },
            r.y == if self.y < 0 { -self.y as int } else { self.y as int },
            r.z == if self.z < 0 { -self.z as int } else { self.z as int },
    {
        Self {
            x: if self.x < 0 { -self.x } else { self.x },
            y: if self.y < 0 { -self.y } else { self.y },
            z: if self.z < 0 { -self.z } else { self.z },
        }
    }

    pub fn min(self, other: Self) -> (r: Self)
        ensures
            r.x == if self.x <= other.x { self.x } else { other.x },
            r.y == if self.y <= other.y { self.y } else { other.y },
            r.z == if self.z <= other.z { self.z } else { other.z },
    {
        Self {
            x: if self.x <= other.x { self.x } else { other.x },
            y: if self.y <= other.y { self.y } else { other.y },
            z: if self.z <= other.z { self.z } else { other.z },
        }
    }

    pub fn max(self, other: Self) -> (r: Self)
        ensures
            r.x == if self.x >= other.x { self.x } else { other.x },
            r.y == if self.y >= other.y { self.y } else { other.y },
            r.z == if self.z >= other.z { self.z } else { other.z },
    {
        Self {
            x: if self.x >= other.x { self.x } else { other.x },
            y: if self.y >= other.y { self.y } else { other.y },
            z: if self.z >= other.z { self.z } else { other.z },
        }
    }

    /// Component-wise vector addition.
    pub fn add(self, rhs: Self) -> (r: Self)
        requires
            i32::MIN <= self.x + rhs.x <= i32::MAX,
            i32::MIN <= self.y + rhs.y <= i32::MAX,
            i32::MIN <= self.z + rhs.z <= i32::MAX,
        ensures
            r == (IVec3 {
                x: (self.x + rhs.x) as i32,
                y: (self.y + rhs.y) as i32,
                z: (self.z + rhs.z) as i32,
            }),
    {
        Self { x: self.x + rhs.x, y: self.y + rhs.y, z: self.z + rhs.z }
    }

    /// Component-wise vector subtraction.
    pub fn sub(self, rhs: Self) -> (r: Self)
        requires
            i32::MIN <= self.x - rhs.x <= i32::MAX,
            i32::MIN <= self.y - rhs.y <= i32::MAX,
            i32::MIN <= self.z - rhs.z <= i32::MAX,
        ensures
            r == (IVec3 {
                x: (self.x - rhs.x) as i32,
                y: (self.y - rhs.y) as i32,
                z: (self.z - rhs.z) as i32,
            }),
    {
        Self { x: self.x - rhs.x, y: self.y - rhs.y, z: self.z - rhs.z }
    }

    /// Scaling by an integer factor.
    pub fn mul(self, rhs: i32) -> (r: Self)
        requires
            i32::MIN <= self.x * rhs <= i32::MAX,
            i32::MIN <= self.y * rhs <= i32::MAX,
            i32::MIN <= self.z * rhs <= i32::MAX,
        ensures
            r == (IVec3 {
                x: (self.x * rhs) as i32,
                y: (self.y * rhs) as i32,
                z: (self.z * rhs) as i32,
            }),
    {
        Self { x: self.x * rhs, y: self.y * rhs, z: self.z * rhs }
    }

    /// Component-wise truncating division by an integer factor.
    pub fn div(self, rhs: i32) -> (r: Self)
        requires
            rhs != 0,
            self.x.checked_div(rhs) is Some,
            self.y.checked_div(rhs) is Some,
            self.z.checked_div(rhs) is Some,
        ensures
            Some(r.x) == self.x.checked_div(rhs),
            Some(r.y) == self.y.checked_div(rhs),
            Some(r.z) == self.z.checked_div(rhs),
    {
        Self {
            x: self.x.checked_div(rhs).unwrap(),
            y: self.y.checked_div(rhs).unwrap(),
            z: self.z.checked_div(rhs).unwrap(),
        }
    }

    /// Component-wise clamp of `self` into the box `[min, max]`: raise each
    /// component to the lower bound first, then cap it at the upper bound.
    pub fn clamp(self, min: Self, max: Self) -> (r: Self)
        ensures
            r.x == spec_clamp(self.x as int, min.x as int, max.x as int),
            r.y == spec_clamp(self.y as int, min.y as int, max.y as int),
            r.z == spec_clamp(self.z as int, min.z as int, max.z as int),
    {
        self.max(min).min(max)
    }
}

/// Horizontal extent of a chunk in blocks.
pub const CHUNK_SIZE: i32 = 16;
/// Vertical extent of a chunk in blocks: chunks span the full height.
pub const CHUNK_HEIGHT: i32 = 256;
/// Number of voxels in one chunk.
pub const CHUNK_VOLUME: usize = 65536;

/// Chunk coordinate owning a world position: Euclidean (floor) division of
/// x and z by the chunk width; y is always 0 since chunks span full height.
pub open spec fn spec_world_to_chunk(world_pos: IVec3) -> IVec3 {
    IVec3 {
        x: (world_pos.x as int / CHUNK_SIZE as int) as i32,
        y: 0,
        z: (world_pos.z as int / CHUNK_SIZE as int) as i32,
    }
}

/// Local coordinate of a world position within its chunk: Euclidean
/// remainder of x and z by the chunk width; y passes through unchanged.
pub open spec fn spec_world_to_local(world_pos: IVec3) -> IVec3 {
    IVec3 {
        x: (world_pos.x as int % CHUNK_SIZE as int) as i32,
        y: world_pos.y,
        z: (world_pos.z as int % CHUNK_SIZE as int) as i32,
    }
}

/// Convert world coordinates to chunk coordinates.
pub fn world_to_chunk(world_pos: IVec3) -> (r: IVec3)
    ensures
        r == spec_world_to_chunk(world_pos),
{
    let x = world_pos.x.checked_div_euclid(CHUNK_SIZE).unwrap();
    let z = world_pos.z.checked_div_euclid(CHUNK_SIZE).unwrap();
    IVec3 { x, y: 0, z }
}

/// Convert world coordinates to local block coordinates within a chunk.
pub fn world_to_local(world_pos: IVec3) -> (r: IVec3)
    ensures
        r == spec_world_to_local(world_pos),
{
    let x = world_pos.x.checked_rem_euclid(CHUNK_SIZE).unwrap();
    let z = world_pos.z.checked_rem_euclid(CHUNK_SIZE).unwrap();
    IVec3 { x, y: world_pos.y, z }
}

/// World position of a local coordinate within a chunk.
pub open spec fn spec_chunk_local_to_world(chunk_pos: IVec3, local_pos: IVec3) -> IVec3 {
    IVec3 {
        x: (chunk_pos.x * CHUNK_SIZE + local_pos.x) as i32,
        y: local_pos.y,
        z: (chunk_pos.z * CHUNK_SIZE + local_pos.z) as i32,
    }
}

/// Convert chunk coordinates and local coordinates to world coordinates.
pub fn chunk_local_to_world(chunk_pos: IVec3, local_pos: IVec3) -> (r: IVec3)
    requires
        i32::MIN <= chunk_pos.x * CHUNK_SIZE + local_pos.x <= i32::MAX,
        i32::MIN <= chunk_pos.z * CHUNK_SIZE + local_pos.z <= i32::MAX,
    ensures
        r == spec_chunk_local_to_world(chunk_pos, local_pos),
{
    let x = (chunk_pos.x as i64 * CHUNK_SIZE as i64 + local_pos.x as i64) as i32;
    let z = (chunk_pos.z as i64 * CHUNK_SIZE as i64 + local_pos.z as i64) as i32;
    IVec3 { x, y: local_pos.y, z }
}

/// A local coordinate lies within one chunk's footprint.
pub open spec fn local_in_bounds(local_pos: IVec3) -> bool {
    &&& 0 <= local_pos.x < CHUNK_SIZE
    &&& 0 <= local_pos.y < CHUNK_HEIGHT
    &&& 0 <= local_pos.z < CHUNK_SIZE
}

/// Linearization of an in-bounds local coordinate.
pub open spec fn spec_local_to_index(local_pos: IVec3) -> int {
    local_pos.y * CHUNK_SIZE * CHUNK_SIZE + local_pos.z * CHUNK_SIZE + local_pos.x
}

/// Convert 3D local coordinates to a 1D array index; `None` when any
/// component is outside its axis limit.
pub fn local_to_index(local_pos: IVec3) -> (r: Option<usize>)
    ensures
        local_in_bounds(local_pos) ==> r == Some(spec_local_to_index(local_pos) as usize),
        !local_in_bounds(local_pos) ==> r is None,
        r is Some ==> 0 <= r.unwrap() < CHUNK_VOLUME,
{
    if local_pos.x < 0 || local_pos.x >= CHUNK_SIZE
        || local_pos.y < 0 || local_pos.y >= CHUNK_HEIGHT
        || local_pos.z < 0 || local_pos.z >= CHUNK_SIZE
    {
        return None;
    }
    let index = (local_pos.y * CHUNK_SIZE * CHUNK_SIZE + local_pos.z * CHUNK_SIZE + local_pos.x)
        as usize;
    Some(index)
}

/// De-linearization of a valid voxel index.
pub open spec fn spec_index_to_local(index: int) -> IVec3 {
    IVec3 {
        x: ((index % (CHUNK_SIZE * CHUNK_SIZE) as int) % CHUNK_SIZE as int) as i32,
        y: (index / (CHUNK_SIZE * CHUNK_SIZE) as int) as i32,
        z: ((index % (CHUNK_SIZE * CHUNK_SIZE) as int) / CHUNK_SIZE as int) as i32,
    }
}

/// Convert a 1D array index to 3D local coordinates; `None` when the index
/// is at or beyond the chunk volume.
pub fn index_to_local(index: usize) -> (r: Option<IVec3>)
    ensures
        index < CHUNK_VOLUME ==> r == Some(spec_index_to_local(index as int)),
        index >= CHUNK_VOLUME ==> r is None,
        r is Some ==> local_in_bounds(r.unwrap()),
{
    if index >= CHUNK_VOLUME {
        return None;
    }
    let i = index as i32;
    let y = i / (CHUNK_SIZE * CHUNK_SIZE);
    let remainder = i % (CHUNK_SIZE * CHUNK_SIZE);
    let z = remainder / CHUNK_SIZE;
    let x = remainder % CHUNK_SIZE;
    Some(IVec3 { x, y, z })
}

/// Round trip through the chunk grid: splitting a world position into its
/// chunk coordinate and local coordinate and recombining them gives back
/// the original position, for every world position.
pub proof fn lemma_world_round_trip(w: IVec3)
    ensures
        spec_chunk_local_to_world(spec_world_to_chunk(w), spec_world_to_local(w)) == w,
{
    lemma_fundamental_div_mod(w.x as int, CHUNK_SIZE as int);
    lemma_fundamental_div_mod(w.z as int, CHUNK_SIZE as int);
}

/// Index round trip, one way: linearizing an in-bounds local coordinate and
/// de-linearizing the result gives back the same coordinate.
pub proof fn lemma_local_index_round_trip(l: IVec3)
    requires
        local_in_bounds(l),
    ensures
        0 <= spec_local_to_index(l) < CHUNK_VOLUME,
        spec_index_to_local(spec_local_to_index(l)) == l,
{
    let idx = spec_local_to_index(l);
    let row = l.z * CHUNK_SIZE as int + l.x;
    assert(0 <= row < CHUNK_SIZE * CHUNK_SIZE);
    lemma_fundamental_div_mod_converse(
        idx,
        (CHUNK_SIZE * CHUNK_SIZE) as int,
        l.y as int,
        row,
    );
    lemma_fundamental_div_mod_converse(row, CHUNK_SIZE as int, l.z as int, l.x as int);
}

/// Index round trip, the other way: de-linearizing a valid index and
/// linearizing the result gives back the same index.
pub proof fn lemma_index_local_round_trip(i: int)
    requires
        0 <= i < CHUNK_VOLUME,
    ensures
        local_in_bounds(spec_index_to_local(i)),
        spec_local_to_index(spec_index_to_local(i)) == i,
{
    lemma_fundamental_div_mod(i, (CHUNK_SIZE * CHUNK_SIZE) as int);
    lemma_fundamental_div_mod(i % (CHUNK_SIZE * CHUNK_SIZE) as int, CHUNK_SIZE as int);
}

} // verus!
