//! Deterministic terrain generation from layered integer lattice noise.
//!
//! The noise fields are smoothed value noise over a fixed-point integer
//! domain: lattice corners take pseudo-random values in `[0, 2000]` derived
//! from the seed alone, and samples between corners interpolate linearly.
//! The midpoint 1000 plays the role of zero, so a sample is "negative"
//! below 1000 and "positive" above it. Everything is a pure function of the
//! seed and the coordinates, which makes generation reproducible bit for
//! bit.

use vstd::prelude::*;

verus! {

use vstd::arithmetic::div_mod::{
    lemma_fundamental_div_mod, lemma_fundamental_div_mod_converse,
    lemma_fundamental_div_mod_converse_mod, lemma_div_pos_is_pos, lemma_div_is_ordered,
    lemma_div_multiples_vanish, lemma_mod_bound,
};
use crate::{AIR_BLOCK, BlockId, BlockKind, DIRT_BLOCK, GRASS_BLOCK, STONE_BLOCK};
use crate::math::{CHUNK_SIZE, CHUNK_VOLUME, IVec3};
use crate::chunk::{
    Chunk, ChunkData, ChunkManager, chunk_at_index, data_block_at, data_set_block, data_wf,
    empty_chunk_data, has_chunk_at,
};
use crate::registry::{BlockRegistry, block_name_index, has_block_name};

/// The largest lattice cell period the generator accepts, in blocks.
pub const MAX_NOISE_CELL: u32 = 1000000;

/// Lattice noise values range over `[0, NOISE_SPAN]`, with `NOISE_MID` as
/// the midpoint that stands for zero.
pub const NOISE_SPAN: u64 = 2000;

/// The midpoint of the noise range.
pub const NOISE_MID: u64 = 1000;

/// Terrain generator configuration. All quantities are integers: the scale
/// and threshold are fixed-point with 1000 noise units standing for 1.0,
/// and the cell periods are the reciprocals of the classic noise
/// frequencies, in blocks per lattice cell.
#[derive(Debug, Clone, Copy, PartialEq, Eq, Structural)]
pub struct TerrainConfig {
    /// Seed of the height field; the cave field uses `seed + 1`.
    pub seed: u32,
    /// Base terrain elevation.
    pub sea_level: i32,
    /// Heights are clamped into `[0, max_height]`.
    pub max_height: i32,
    /// Amplitude of the height field, in blocks.
    pub height_scale: u32,
    /// Lattice cell period of the height field, in blocks.
    pub height_cell: u32,
    /// Lattice cell period of the cave field, in blocks; the vertical
    /// period is doubled so cave cavities are elongated horizontally.
    pub cave_cell: u32,
    /// Half-width of the noise band around the midpoint that reads as a
    /// cave, in noise units.
    pub cave_threshold: u32,
}

impl TerrainConfig {
    /// The bounds arithmetic needs: positive cell periods small enough to
    /// interpolate without overflow, a non-negative height range, and a
    /// threshold within the noise span.
    pub open spec fn wf(self) -> bool {
        &&& self.max_height >= 0
        &&& self.height_scale <= MAX_NOISE_CELL
        &&& 1 <= self.height_cell <= MAX_NOISE_CELL
        &&& 1 <= self.cave_cell <= MAX_NOISE_CELL / 2
        &&& self.cave_threshold <= NOISE_SPAN
    }
}

impl Default for TerrainConfig {
    /// The stock overworld parameters.
    fn default() -> (r: Self)
        ensures
            r.wf(),
            r == (TerrainConfig {
                seed: 12345,
                sea_level: 64,
                max_height: 128,
                height_scale: 32,
                height_cell: 100,
                cave_cell: 20,
                cave_threshold: 300,
            }),
    {
        Self {
            seed: 12345,
            sea_level: 64,
            max_height: 128,
            height_scale: 32,
            height_cell: 100,
            cave_cell: 20,
            cave_threshold: 300,
        }
    }
}

/// A 64-bit finalizing mix: xor-shifts and odd-constant multiplications,
/// so nearby inputs scatter across the whole range.
pub open spec fn spec_mix64(v: u64) -> u64 {
    let a = v ^ (v >> 33);
    let b = vstd::wrapping::u64_specs::wrapping_mul(a, 0x9E3779B97F4A7C15);
    let c = b ^ (b >> 33);
    let d = vstd::wrapping::u64_specs::wrapping_mul(c, 0xBF58476D1CE4E5B9);
    d ^ (d >> 33)
}

fn mix64(v: u64) -> (r: u64)
    ensures
        r == spec_mix64(v),
{
    let a = v ^ (v >> 33);
    let b = a.wrapping_mul(0x9E3779B97F4A7C15);
    let c = b ^ (b >> 33);
    let d = c.wrapping_mul(0xBF58476D1CE4E5B9);
    d ^ (d >> 33)
}

/// The pseudo-random value in `[0, NOISE_SPAN]` that the seeded lattice
/// takes at a lattice corner.
pub open spec fn spec_lattice(seed: u32, cx: int, cy: int, cz: int) -> int
    recommends
        -0x100000000 <= cx <= 0x100000000,
        -0x100000000 <= cy <= 0x100000000,
        -0x100000000 <= cz <= 0x100000000,
{
    let h0 = spec_mix64(seed as u64);
    let h1 = spec_mix64(h0 ^ ((cx + 0x100000000) as u64));
    let h2 = spec_mix64(h1 ^ ((cy + 0x100000000) as u64));
    let h3 = spec_mix64(h2 ^ ((cz + 0x100000000) as u64));
    (h3 as int) % (NOISE_SPAN as int + 1)
}

fn lattice(seed: u32, cx: i64, cy: i64, cz: i64) -> (r: u64)
    requires
        -0x100000000 <= cx <= 0x100000000,
        -0x100000000 <= cy <= 0x100000000,
        -0x100000000 <= cz <= 0x100000000,
    ensures
        r == spec_lattice(seed, cx as int, cy as int, cz as int),
        0 <= r <= NOISE_SPAN,
{
    let h0 = mix64(seed as u64);
    let h1 = mix64(h0 ^ ((cx + 0x100000000) as u64));
    let h2 = mix64(h1 ^ ((cy + 0x100000000) as u64));
    let h3 = mix64(h2 ^ ((cz + 0x100000000) as u64));
    h3 % (NOISE_SPAN + 1)
}

/// Linear interpolation between two noise values across one lattice cell:
/// at offset `f` of `cell`, weigh `a` by `cell - f` and `b` by `f`.
pub open spec fn spec_lerp(a: int, b: int, f: int, cell: int) -> int
    recommends
        cell >= 1,
{
    (a * (cell - f) + b * f) / cell
}

/// Interpolation between values of the noise range stays in the range.
pub proof fn lemma_lerp_bounds(a: int, b: int, f: int, cell: int)
    requires
        0 <= a <= NOISE_SPAN,
        0 <= b <= NOISE_SPAN,
        0 <= f < cell,
        1 <= cell <= MAX_NOISE_CELL,
    ensures
        0 <= spec_lerp(a, b, f, cell) <= NOISE_SPAN,
{
    let num = a * (cell - f) + b * f;
    assert(0 <= a * (cell - f) + b * f <= 2000 * cell) by (nonlinear_arith)
        requires
            0 <= a <= 2000,
            0 <= b <= 2000,
            0 <= f < cell,
            1 <= cell,
    ;
    lemma_div_pos_is_pos(num, cell);
    lemma_div_is_ordered(num, NOISE_SPAN as int * cell, cell);
    lemma_div_multiples_vanish(NOISE_SPAN as int, cell);
}

/// Executable interpolation, matching `spec_lerp` over the noise range.
fn lerp(a: u64, b: u64, f: u64, cell: u64) -> (r: u64)
    requires
        a <= NOISE_SPAN,
        b <= NOISE_SPAN,
        f < cell,
        1 <= cell <= MAX_NOISE_CELL,
    ensures
        r == spec_lerp(a as int, b as int, f as int, cell as int),
        0 <= r <= NOISE_SPAN,
{
    proof {
        assert(a * (cell - f) <= NOISE_SPAN * cell && b * f <= NOISE_SPAN * cell)
            by (nonlinear_arith)
            requires
                a <= NOISE_SPAN,
                b <= NOISE_SPAN,
                f < cell,
                1 <= cell,
        ;
        assert(NOISE_SPAN * cell <= 2000 * 1000000) by (nonlinear_arith)
            requires
                1 <= cell <= MAX_NOISE_CELL,
        ;
        lemma_lerp_bounds(a as int, b as int, f as int, cell as int);
    }
    (a * (cell - f) + b * f) / cell
}

/// Euclidean division of a coordinate by a positive cell period keeps the
/// quotient within slightly widened coordinate bounds.
proof fn lemma_cell_div_bounds(x: int, d: int)
    requires
        1 <= d,
        -0x80000000 <= x <= 0x80000000,
    ensures
        -0x80000000 <= x / d <= 0x80000000,
        0 <= x % d < d,
{
    lemma_fundamental_div_mod(x, d);
    lemma_mod_bound(x, d);
    let q = x / d;
    let r = x % d;
    assert(-0x80000000 <= q <= 0x80000000) by (nonlinear_arith)
        requires
            1 <= d,
            -0x80000000 <= x <= 0x80000000,
            x == d * q + r,
            0 <= r < d,
    ;
}

/// Smoothed two-dimensional value noise in `[0, NOISE_SPAN]`: bilinear
/// interpolation of the seeded lattice across the cell containing (x, z).
pub open spec fn spec_noise2(seed: u32, x: int, z: int, cell: int) -> int
    recommends
        1 <= cell <= MAX_NOISE_CELL,
        -0x80000000 <= x <= 0x80000000,
        -0x80000000 <= z <= 0x80000000,
{
    let cx = x / cell;
    let fx = x % cell;
    let cz = z / cell;
    let fz = z % cell;
    let v00 = spec_lattice(seed, cx, 0, cz);
    let v10 = spec_lattice(seed, cx + 1, 0, cz);
    let v01 = spec_lattice(seed, cx, 0, cz + 1);
    let v11 = spec_lattice(seed, cx + 1, 0, cz + 1);
    spec_lerp(spec_lerp(v00, v10, fx, cell), spec_lerp(v01, v11, fx, cell), fz, cell)
}

fn noise2(seed: u32, x: i32, z: i32, cell: u32) -> (r: u64)
    requires
        1 <= cell <= MAX_NOISE_CELL,
    ensures
        r == spec_noise2(seed, x as int, z as int, cell as int),
        0 <= r <= NOISE_SPAN,
{
    let c = cell as i64;
    proof {
        lemma_cell_div_bounds(x as int, c as int);
        lemma_cell_div_bounds(z as int, c as int);
    }
    let cx = (x as i64).checked_div_euclid(c).unwrap();
    let fx = (x as i64).checked_rem_euclid(c).unwrap();
    let cz = (z as i64).checked_div_euclid(c).unwrap();
    let fz = (z as i64).checked_rem_euclid(c).unwrap();
    let v00 = lattice(seed, cx, 0, cz);
    let v10 = lattice(seed, cx + 1, 0, cz);
    let v01 = lattice(seed, cx, 0, cz + 1);
    let v11 = lattice(seed, cx + 1, 0, cz + 1);
    proof {
        lemma_lerp_bounds(v00 as int, v10 as int, fx as int, c as int);
        lemma_lerp_bounds(v01 as int, v11 as int, fx as int, c as int);
    }
    let a = lerp(v00, v10, fx as u64, cell as u64);
    let b = lerp(v01, v11, fx as u64, cell as u64);
    lerp(a, b, fz as u64, cell as u64)
}

/// Smoothed three-dimensional value noise in `[0, NOISE_SPAN]`: trilinear
/// interpolation of the seeded lattice, with the vertical cell period
/// doubled so that cavities stretch horizontally.
pub open spec fn spec_noise3(seed: u32, x: int, y: int, z: int, cell: int) -> int
    recommends
        1 <= cell <= MAX_NOISE_CELL / 2,
        -0x80000000 <= x <= 0x80000000,
        -0x80000000 <= y <= 0x80000000,
        -0x80000000 <= z <= 0x80000000,
{
    let ycell = 2 * cell;
    let cx = x / cell;
    let fx = x % cell;
    let cy = y / ycell;
    let fy = y % ycell;
    let cz = z / cell;
    let fz = z % cell;
    let a00 = spec_lerp(
        spec_lattice(seed, cx, cy, cz),
        spec_lattice(seed, cx + 1, cy, cz),
        fx,
        cell,
    );
    let a10 = spec_lerp(
        spec_lattice(seed, cx, cy + 1, cz),
        spec_lattice(seed, cx + 1, cy + 1, cz),
        fx,
        cell,
    );
    let a01 = spec_lerp(
        spec_lattice(seed, cx, cy, cz + 1),
        spec_lattice(seed, cx + 1, cy, cz + 1),
        fx,
        cell,
    );
    let a11 = spec_lerp(
        spec_lattice(seed, cx, cy + 1, cz + 1),
        spec_lattice(seed, cx + 1, cy + 1, cz + 1),
        fx,
        cell,
    );
    spec_lerp(spec_lerp(a00, a10, fy, ycell), spec_lerp(a01, a11, fy, ycell), fz, cell)
}

fn noise3(seed: u32, x: i32, y: i32, z: i32, cell: u32) -> (r: u64)
    requires
        1 <= cell <= MAX_NOISE_CELL / 2,
    ensures
        r == spec_noise3(seed, x as int, y as int, z as int, cell as int),
        0 <= r <= NOISE_SPAN,
{
    let c = cell as i64;
    let yc = 2 * c;
    proof {
        lemma_cell_div_bounds(x as int, c as int);
        lemma_cell_div_bounds(y as int, yc as int);
        lemma_cell_div_bounds(z as int, c as int);
    }
    let cx = (x as i64).checked_div_euclid(c).unwrap();
    let fx = (x as i64).checked_rem_euclid(c).unwrap();
    let cy = (y as i64).checked_div_euclid(yc).unwrap();
    let fy = (y as i64).checked_rem_euclid(yc).unwrap();
    let cz = (z as i64).checked_div_euclid(c).unwrap();
    let fz = (z as i64).checked_rem_euclid(c).unwrap();
    let v000 = lattice(seed, cx, cy, cz);
    let v100 = lattice(seed, cx + 1, cy, cz);
    let v010 = lattice(seed, cx, cy + 1, cz);
    let v110 = lattice(seed, cx + 1, cy + 1, cz);
    let v001 = lattice(seed, cx, cy, cz + 1);
    let v101 = lattice(seed, cx + 1, cy, cz + 1);
    let v011 = lattice(seed, cx, cy + 1, cz + 1);
    let v111 = lattice(seed, cx + 1, cy + 1, cz + 1);
    proof {
        lemma_lerp_bounds(v000 as int, v100 as int, fx as int, c as int);
        lemma_lerp_bounds(v010 as int, v110 as int, fx as int, c as int);
        lemma_lerp_bounds(v001 as int, v101 as int, fx as int, c as int);
        lemma_lerp_bounds(v011 as int, v111 as int, fx as int, c as int);
    }
    let a00 = lerp(v000, v100, fx as u64, cell as u64);
    let a10 = lerp(v010, v110, fx as u64, cell as u64);
    let a01 = lerp(v001, v101, fx as u64, cell as u64);
    let a11 = lerp(v011, v111, fx as u64, cell as u64);
    proof {
        lemma_lerp_bounds(a00 as int, a10 as int, fy as int, yc as int);
        lemma_lerp_bounds(a01 as int, a11 as int, fy as int, yc as int);
    }
    let b0 = lerp(a00, a10, fy as u64, yc as u64);
    let b1 = lerp(a01, a11, fy as u64, yc as u64);
    lerp(b0, b1, fz as u64, cell as u64)
}

/// The terrain height at a column: the sea level offset by the height
/// field, scaled to `height_scale` blocks of amplitude, clamped into
/// `[0, max_height]`.
pub open spec fn spec_height(config: TerrainConfig, x: int, z: int) -> int
    recommends
        config.wf(),
{
    let raw = spec_noise2(config.seed, x, z, config.height_cell as int);
    let offset = raw * config.height_scale / (NOISE_MID as int);
    let h = config.sea_level + offset - config.height_scale;
    if h < 0 {
        0
    } else if h > config.max_height {
        config.max_height as int
    } else {
        h
    }
}

/// The height of every column lies in `[0, max_height]`.
pub proof fn lemma_height_bounds(config: TerrainConfig, x: int, z: int)
    requires
        config.wf(),
    ensures
        0 <= spec_height(config, x, z) <= config.max_height,
{
}

/// Whether a position is carved out as a cave: never within 5 blocks of
/// bedrock or of the configured maximum height, and otherwise exactly when
/// the cave field strays less than the threshold from the noise midpoint.
pub open spec fn spec_is_cave(config: TerrainConfig, x: int, y: int, z: int) -> bool
    recommends
        config.wf(),
{
    if y <= 5 || y >= config.max_height - 5 {
        false
    } else {
        let v = spec_noise3(
            vstd::wrapping::u32_specs::wrapping_add(config.seed, 1),
            x,
            y,
            z,
            config.cave_cell as int,
        );
        NOISE_MID - config.cave_threshold < v < NOISE_MID + config.cave_threshold
    }
}

/// The block the terrain shows at a world position, first match wins:
/// above the surface or inside a cave, air; at or below ground zero,
/// stone bedrock; on the surface, grass; in the three blocks beneath it,
/// dirt; deeper, stone.
pub open spec fn spec_block_at(config: TerrainConfig, x: int, y: int, z: int) -> BlockId
    recommends
        config.wf(),
{
    let h = spec_height(config, x, z);
    if y > h {
        AIR_BLOCK
    } else if spec_is_cave(config, x, y, z) {
        AIR_BLOCK
    } else if y <= 0 {
        STONE_BLOCK
    } else if y == h {
        GRASS_BLOCK
    } else if y >= h - 3 {
        DIRT_BLOCK
    } else {
        STONE_BLOCK
    }
}

/// Chunk coordinates the generator accepts: their world-space footprint
/// must stay within 32-bit block coordinates.
pub open spec fn chunk_pos_in_range(chunk_pos: IVec3) -> bool {
    &&& -0x8000000 <= chunk_pos.x < 0x8000000
    &&& -0x8000000 <= chunk_pos.z < 0x8000000
}

/// The local coordinate written by generation step `k`: the column order is
/// x then z, and each column is filled bottom up.
pub open spec fn gen_step_local(k: int) -> IVec3 {
    IVec3 {
        x: (k / 4096) as i32,
        y: (k % 256) as i32,
        z: ((k % 4096) / 256) as i32,
    }
}

/// The chunk data after the first `k` generation steps at a chunk
/// coordinate: each step writes the terrain block of one voxel into a
/// chunk that started empty.
pub open spec fn spec_generated_data_upto(config: TerrainConfig, chunk_pos: IVec3, k: int) -> ChunkData
    decreases k,
{
    if k <= 0 {
        empty_chunk_data()
    } else {
        let d = spec_generated_data_upto(config, chunk_pos, k - 1);
        let l = gen_step_local(k - 1);
        data_set_block(
            d,
            l,
            spec_block_at(
                config,
                chunk_pos.x * CHUNK_SIZE + l.x,
                l.y as int,
                chunk_pos.z * CHUNK_SIZE + l.z,
            ),
        )
    }
}

/// The full chunk data the generator produces at a chunk coordinate: a
/// function of the configuration and the coordinate alone.
pub open spec fn spec_generated_data(config: TerrainConfig, chunk_pos: IVec3) -> ChunkData {
    spec_generated_data_upto(config, chunk_pos, CHUNK_VOLUME as int)
}

/// The generation step that writes a local coordinate.
pub open spec fn gen_step_of_local(l: IVec3) -> int {
    l.x * 4096 + l.z * 256 + l.y
}

/// Each generation step writes one in-bounds local coordinate, and the step
/// can be recovered from the coordinate: the write order visits every voxel
/// exactly once.
pub proof fn lemma_gen_step_local(j: int)
    requires
        0 <= j < CHUNK_VOLUME,
    ensures
        crate::math::local_in_bounds(gen_step_local(j)),
        gen_step_of_local(gen_step_local(j)) == j,
{
    lemma_fundamental_div_mod(j, 4096);
    lemma_mod_bound(j, 4096);
    lemma_fundamental_div_mod(j % 4096, 256);
    lemma_mod_bound(j % 4096, 256);
    lemma_fundamental_div_mod(j, 256);
    lemma_mod_bound(j, 256);
    lemma_div_is_ordered(j, CHUNK_VOLUME - 1, 4096);
    lemma_div_pos_is_pos(j, 4096);
    lemma_div_pos_is_pos(j % 4096, 256);
    lemma_div_is_ordered(j % 4096, 4095, 256);
    // j % 256 and (j % 4096) % 256 agree because 256 divides 4096.
    let q = j / 4096;
    let r = j % 4096;
    assert(j == 4096 * q + r);
    assert(j % 256 == r % 256) by {
        lemma_fundamental_div_mod_converse_mod(j, 256, 16 * q + r / 256, r % 256);
    }
}

/// The chunk data of every generation stage is well formed and its palette
/// holds only the four terrain blocks, so each write of a terrain block
/// succeeds.
pub proof fn lemma_generated_data_wf(config: TerrainConfig, chunk_pos: IVec3, k: int)
    requires
        config.wf(),
        k <= CHUNK_VOLUME,
    ensures
        data_wf(spec_generated_data_upto(config, chunk_pos, k)),
        forall|i: int|
            0 <= i < spec_generated_data_upto(config, chunk_pos, k).palette.len() ==> 0
                <= #[trigger] spec_generated_data_upto(config, chunk_pos, k).palette[i] <= 3,
        spec_generated_data_upto(config, chunk_pos, k).palette.len() <= 4,
    decreases k,
{
    if k <= 0 {
        assert(data_wf(empty_chunk_data())) by {
            assert(empty_chunk_data().palette == seq![AIR_BLOCK]);
            assert(forall|i: int|
                0 <= i < CHUNK_VOLUME ==> empty_chunk_data().voxels[i] == 0u8);
        }
    } else {
        lemma_generated_data_wf(config, chunk_pos, k - 1);
        let d = spec_generated_data_upto(config, chunk_pos, k - 1);
        let l = gen_step_local(k - 1);
        let id = spec_block_at(
            config,
            chunk_pos.x * CHUNK_SIZE + l.x,
            l.y as int,
            chunk_pos.z * CHUNK_SIZE + l.z,
        );
        assert(0 <= id <= 3);
        crate::registry::lemma_terrain_palette_small(d.palette);
        if crate::math::local_in_bounds(l) {
            let (p1, res) = crate::registry::spec_add_block(d.palette, id);
            if !d.palette.contains(id) {
                assert(p1 == d.palette.push(id));
                assert(p1.no_duplicates());
            }
            crate::math::lemma_local_index_round_trip(l);
        }
    }
    crate::registry::lemma_terrain_palette_small(
        spec_generated_data_upto(config, chunk_pos, k).palette,
    );
}

/// After `k` generation steps, every voxel written by an earlier step holds
/// exactly the terrain block of its world position.
proof fn lemma_generated_blocks_upto(config: TerrainConfig, chunk_pos: IVec3, k: int, j: int)
    requires
        config.wf(),
        0 <= j < k <= CHUNK_VOLUME,
    ensures
        data_block_at(spec_generated_data_upto(config, chunk_pos, k), gen_step_local(j))
            == spec_block_at(
            config,
            chunk_pos.x * CHUNK_SIZE + gen_step_local(j).x,
            gen_step_local(j).y as int,
            chunk_pos.z * CHUNK_SIZE + gen_step_local(j).z,
        ),
    decreases k,
{
    let d = spec_generated_data_upto(config, chunk_pos, k - 1);
    let l = gen_step_local(k - 1);
    let id = spec_block_at(
        config,
        chunk_pos.x * CHUNK_SIZE + l.x,
        l.y as int,
        chunk_pos.z * CHUNK_SIZE + l.z,
    );
    lemma_generated_data_wf(config, chunk_pos, k - 1);
    lemma_gen_step_local(k - 1);
    crate::registry::lemma_terrain_palette_small(d.palette);
    assert(0 <= id <= 3);
    crate::chunk::lemma_chunk_write_read(d, l, id);
    if j == k - 1 {
        assert(crate::registry::spec_add_block(d.palette, id).1 is Ok);
    } else {
        lemma_generated_blocks_upto(config, chunk_pos, k - 1, j);
        lemma_gen_step_local(j);
        assert(gen_step_local(j) != l) by {
            if gen_step_local(j) == l {
                assert(gen_step_of_local(gen_step_local(j)) == gen_step_of_local(l));
            }
        }
    }
}

/// Every voxel of a generated chunk holds exactly the terrain block of its
/// world position: bulk generation and per-position evaluation agree.
pub proof fn lemma_generated_chunk_blocks(config: TerrainConfig, chunk_pos: IVec3, l: IVec3)
    requires
        config.wf(),
        crate::math::local_in_bounds(l),
    ensures
        data_block_at(spec_generated_data(config, chunk_pos), l) == spec_block_at(
            config,
            chunk_pos.x * CHUNK_SIZE + l.x,
            l.y as int,
            chunk_pos.z * CHUNK_SIZE + l.z,
        ),
{
    let j = gen_step_of_local(l);
    assert(0 <= j < CHUNK_VOLUME) by (nonlinear_arith)
        requires
            j == l.x * 4096 + l.z * 256 + l.y,
            0 <= l.x < 16,
            0 <= l.y < 256,
            0 <= l.z < 16,
    ;
    lemma_gen_step_local(j);
    assert(gen_step_local(j) == l) by {
        lemma_fundamental_div_mod_converse(j, 4096, l.x as int, l.z * 256 + l.y);
        lemma_fundamental_div_mod_converse(l.z * 256 + l.y, 256, l.z as int, l.y as int);
        lemma_fundamental_div_mod_converse(j, 256, l.x * 16 + l.z, l.y as int);
    }
    lemma_generated_blocks_upto(config, chunk_pos, CHUNK_VOLUME as int, j);
}

/// Determinism: two generators built from identical configurations produce
/// byte-identical chunk data at every chunk coordinate.
pub proof fn lemma_generation_deterministic(
    config1: TerrainConfig,
    config2: TerrainConfig,
    chunk_pos: IVec3,
)
    requires
        config1 == config2,
    ensures
        spec_generated_data(config1, chunk_pos) == spec_generated_data(config2, chunk_pos),
{
}

/// Fixed points of every terrain column: above the surface height there is
/// always air; at and below ground level zero there is always stone
/// bedrock; an uncarved surface block above bedrock is always grass.
pub proof fn lemma_block_levels(config: TerrainConfig, x: int, y: int, z: int)
    requires
        config.wf(),
    ensures
        y > spec_height(config, x, z) ==> spec_block_at(config, x, y, z) == AIR_BLOCK,
        y <= 0 ==> spec_block_at(config, x, y, z) == STONE_BLOCK,
        y == spec_height(config, x, z) && y > 0 && !spec_is_cave(config, x, y, z)
            ==> spec_block_at(config, x, y, z) == GRASS_BLOCK,
{
    lemma_height_bounds(config, x, z);
}

/// Procedural terrain generator: an immutable configuration, the two noise
/// fields it seeds (height with the seed itself, caves with the seed plus
/// one), and a registry of the built-in blocks.
pub struct TerrainGenerator {
    config: TerrainConfig,
    registry: BlockRegistry,
}

impl TerrainGenerator {
    /// The configuration the generator was built from.
    pub closed spec fn spec_config(self) -> TerrainConfig {
        self.config
    }

    /// The generator's block registry.
    pub closed spec fn spec_registry(self) -> BlockRegistry {
        self.registry
    }

    /// A valid configuration and a well-formed registry.
    pub open spec fn wf(self) -> bool {
        &&& self.spec_config().wf()
        &&& self.spec_registry().wf()
    }

    /// Build a generator from a configuration, with the built-in block set:
    /// air, stone, dirt, grass, wood under ids 0 through 4.
    pub fn new(config: TerrainConfig) -> (r: Self)
        requires
            config.wf(),
        ensures
            r.wf(),
            r.spec_config() == config,
            r.spec_registry()@.len() == 5,
            r.spec_registry()@[0].id == 0 && r.spec_registry()@[0].name@ == "air"@
                && r.spec_registry()@[0].kind == BlockKind::Air,
            r.spec_registry()@[1].id == 1 && r.spec_registry()@[1].name@ == "stone"@
                && r.spec_registry()@[1].kind == BlockKind::Solid,
            r.spec_registry()@[2].id == 2 && r.spec_registry()@[2].name@ == "dirt"@
                && r.spec_registry()@[2].kind == BlockKind::Solid,
            r.spec_registry()@[3].id == 3 && r.spec_registry()@[3].name@ == "grass"@
                && r.spec_registry()@[3].kind == BlockKind::Solid,
            r.spec_registry()@[4].id == 4 && r.spec_registry()@[4].name@ == "wood"@
                && r.spec_registry()@[4].kind == BlockKind::Solid,
            has_block_name(r.spec_registry()@, "air"@),
            has_block_name(r.spec_registry()@, "stone"@),
            has_block_name(r.spec_registry()@, "dirt"@),
            has_block_name(r.spec_registry()@, "grass"@),
            has_block_name(r.spec_registry()@, "wood"@),
    {
        let registry = BlockRegistry::new();
        proof {
            let s = registry@;
            assert(has_block_name(s, "air"@)) by {
                assert(s[0].name@ == "air"@);
            }
            assert(has_block_name(s, "stone"@)) by {
                assert(s[1].name@ == "stone"@);
            }
            assert(has_block_name(s, "dirt"@)) by {
                assert(s[2].name@ == "dirt"@);
            }
            assert(has_block_name(s, "grass"@)) by {
                assert(s[3].name@ == "grass"@);
            }
            assert(has_block_name(s, "wood"@)) by {
                assert(s[4].name@ == "wood"@);
            }
        }
        Self { config, registry }
    }

    /// Generate the terrain height at the given x and z coordinates, always
    /// within `[0, max_height]`.
    pub fn get_height(&self, x: i32, z: i32) -> (r: i32)
        requires
            self.wf(),
        ensures
            r == spec_height(self.spec_config(), x as int, z as int),
            0 <= r <= self.spec_config().max_height,
    {
        let raw = noise2(self.config.seed, x, z, self.config.height_cell);
        let scale = self.config.height_scale as u64;
        proof {
            assert(raw * scale <= 2000 * 1000000) by (nonlinear_arith)
                requires
                    0 <= raw <= 2000,
                    0 <= scale <= 1000000,
            ;
        }
        let offset = (raw * scale) / NOISE_MID;
        let h = self.config.sea_level as i64 + offset as i64 - self.config.height_scale as i64;
        if h < 0 {
            0
        } else if h > self.config.max_height as i64 {
            self.config.max_height
        } else {
            h as i32
        }
    }

    /// Whether the given position is carved out as a cave.
    pub fn is_cave(&self, x: i32, y: i32, z: i32) -> (r: bool)
        requires
            self.wf(),
        ensures
            r == spec_is_cave(self.spec_config(), x as int, y as int, z as int),
    {
        if y <= 5 || y >= self.config.max_height - 5 {
            return false;
        }
        let v = noise3(self.config.seed.wrapping_add(1), x, y, z, self.config.cave_cell);
        let t = self.config.cave_threshold as u64;
        v + t > NOISE_MID && v < NOISE_MID + t
    }

    /// The terrain block at a world position.
    pub fn get_block_at(&self, world_pos: IVec3) -> (r: BlockId)
        requires
            self.wf(),
        ensures
            r == spec_block_at(
                self.spec_config(),
                world_pos.x as int,
                world_pos.y as int,
                world_pos.z as int,
            ),
    {
        let height = self.get_height(world_pos.x, world_pos.z);
        if world_pos.y > height {
            return AIR_BLOCK;
        }
        if self.is_cave(world_pos.x, world_pos.y, world_pos.z) {
            return AIR_BLOCK;
        }
        if world_pos.y <= 0 {
            return STONE_BLOCK;
        }
        if world_pos.y == height {
            return GRASS_BLOCK;
        }
        if world_pos.y >= height - 3 {
            return DIRT_BLOCK;
        }
        STONE_BLOCK
    }

    /// Generate one chunk: evaluate the terrain block of every voxel in the
    /// chunk's footprint, column by column, into a fresh chunk, and mark it
    /// clean, since freshly generated data needs no save. The result is a
    /// function of the configuration and the coordinate alone.
    pub fn generate_chunk(&self, chunk_pos: IVec3) -> (r: Chunk)
        requires
            self.wf(),
            chunk_pos_in_range(chunk_pos),
        ensures
            r.wf(),
            r.position == chunk_pos,
            r.dirty == false,
            r.data() == spec_generated_data(self.spec_config(), chunk_pos),
            r.data().palette.len() <= 4,
    {
        let mut chunk = Chunk::new(chunk_pos);
        let mut k: usize = 0;
        while k < CHUNK_VOLUME
            invariant
                self.wf(),
                chunk_pos_in_range(chunk_pos),
                0 <= k <= CHUNK_VOLUME,
                chunk.wf(),
                chunk.position == chunk_pos,
                chunk.data() == spec_generated_data_upto(self.spec_config(), chunk_pos, k as int),
                forall|i: int|
                    0 <= i < chunk.data().palette.len() ==> 0 <= #[trigger] chunk.data().palette[i]
                        <= 3,
            decreases CHUNK_VOLUME - k,
        {
            let x = (k / 4096) as i32;
            let z = ((k % 4096) / 256) as i32;
            let y = (k % 256) as i32;
            let world_x = ((chunk_pos.x as i64) * (CHUNK_SIZE as i64) + (x as i64)) as i32;
            let world_z = ((chunk_pos.z as i64) * (CHUNK_SIZE as i64) + (z as i64)) as i32;
            let block_id = self.get_block_at(IVec3 { x: world_x, y, z: world_z });
            let local = IVec3 { x, y, z };
            proof {
                assert(local == gen_step_local(k as int));
                crate::registry::lemma_terrain_palette_small(chunk.data().palette);
            }
            // The four terrain blocks can never exhaust the palette.
            let written = chunk.set_block(local, block_id);
            proof {
                assert(written is Ok);
            }
            k += 1;
        }
        proof {
            crate::registry::lemma_terrain_palette_small(chunk.data().palette);
        }
        chunk.mark_clean();
        chunk
    }

    /// Generate every chunk in the square `[center - radius, center + radius]`
    /// on x and z that the manager does not already hold; chunks already
    /// loaded, such as player-edited ones, are never overwritten.
    pub fn generate_chunks_around(
        &self,
        center: IVec3,
        radius: i32,
        chunk_manager: &mut ChunkManager,
    )
        requires
            self.wf(),
            old(chunk_manager).wf(),
            0 <= radius,
            -0x8000000 <= center.x - radius,
            center.x + radius < 0x8000000,
            -0x8000000 <= center.z - radius,
            center.z + radius < 0x8000000,
        ensures
            final(chunk_manager).wf(),
            // every square coordinate is loaded afterwards
            forall|p: IVec3|
                #[trigger] in_generation_square(p, center, radius as int) ==> has_chunk_at(
                    final(chunk_manager)@,
                    p,
                ),
            // chunks that were already loaded stay exactly as they were
            final(chunk_manager)@.len() >= old(chunk_manager)@.len(),
            forall|j: int|
                0 <= j < old(chunk_manager)@.len() ==> final(chunk_manager)@[j] == old(
                    chunk_manager,
                )@[j],
            // everything newly loaded is fresh generator output for a
            // square coordinate that was not loaded before
            forall|j: int|
                old(chunk_manager)@.len() <= j < final(chunk_manager)@.len() ==> {
                    let c = #[trigger] final(chunk_manager)@[j];
                    &&& in_generation_square(c.position, center, radius as int)
                    &&& !has_chunk_at(old(chunk_manager)@, c.position)
                    &&& c.data() == spec_generated_data(self.spec_config(), c.position)
                    &&& c.dirty == false
                },
    {
        let ghost orig = chunk_manager@;
        let x_end = center.x + radius;
        let z_end = center.z + radius;
        let mut x = center.x - radius;
        while x <= x_end
            invariant
                self.wf(),
                chunk_manager.wf(),
                x_end == center.x + radius,
                z_end == center.z + radius,
                0 <= radius,
                -0x8000000 <= center.x - radius,
                center.x + radius < 0x8000000,
                -0x8000000 <= center.z - radius,
                center.z + radius < 0x8000000,
                center.x - radius <= x <= x_end + 1,
                chunk_manager@.len() >= orig.len(),
                forall|j: int| 0 <= j < orig.len() ==> chunk_manager@[j] == orig[j],
                forall|j: int|
                    orig.len() <= j < chunk_manager@.len() ==> {
                        let c = #[trigger] chunk_manager@[j];
                        &&& in_generation_square(c.position, center, radius as int)
                        &&& !has_chunk_at(orig, c.position)
                        &&& c.data() == spec_generated_data(self.spec_config(), c.position)
                        &&& c.dirty == false
                    },
                forall|p: IVec3|
                    #[trigger] in_generation_square(p, center, radius as int) && p.x < x
                        ==> has_chunk_at(chunk_manager@, p),
            decreases x_end + 1 - x,
        {
            let mut z = center.z - radius;
            while z <= z_end
                invariant
                    self.wf(),
                    chunk_manager.wf(),
                    x_end == center.x + radius,
                    z_end == center.z + radius,
                    0 <= radius,
                    -0x8000000 <= center.x - radius,
                    center.x + radius < 0x8000000,
                    -0x8000000 <= center.z - radius,
                    center.z + radius < 0x8000000,
                    center.x - radius <= x <= x_end,
                    center.z - radius <= z <= z_end + 1,
                    chunk_manager@.len() >= orig.len(),
                    forall|j: int| 0 <= j < orig.len() ==> chunk_manager@[j] == orig[j],
                    forall|j: int|
                        orig.len() <= j < chunk_manager@.len() ==> {
                            let c = #[trigger] chunk_manager@[j];
                            &&& in_generation_square(c.position, center, radius as int)
                            &&& !has_chunk_at(orig, c.position)
                            &&& c.data() == spec_generated_data(self.spec_config(), c.position)
                            &&& c.dirty == false
                        },
                    forall|p: IVec3|
                        #[trigger] in_generation_square(p, center, radius as int) && (p.x < x || (
                        p.x == x && p.z < z)) ==> has_chunk_at(chunk_manager@, p),
                decreases z_end + 1 - z,
            {
                let chunk_pos = IVec3 { x, y: 0, z };
                let ghost pre = chunk_manager@;
                match chunk_manager.get_chunk(chunk_pos) {
                    Some(_) => {
                        proof {
                            assert(has_chunk_at(chunk_manager@, chunk_pos));
                        }
                    },
                    None => {
                        let chunk = self.generate_chunk(chunk_pos);
                        chunk_manager.insert_chunk(chunk);
                        proof {
                            assert(chunk_manager@ == pre.push(chunk));
                            assert(chunk_manager@[pre.len() as int] == chunk);
                            assert forall|p: IVec3|
                                has_chunk_at(pre, p) implies has_chunk_at(
                                chunk_manager@,
                                p,
                            ) by {
                                let w = chunk_at_index(pre, p);
                                assert(chunk_manager@[w] == pre[w]);
                            }
                            assert(has_chunk_at(chunk_manager@, chunk_pos)) by {
                                assert(chunk_manager@[pre.len() as int].position == chunk_pos);
                            }
                        }
                    },
                }
                proof {
                    assert forall|p: IVec3|
                        #[trigger] in_generation_square(p, center, radius as int) && (p.x < x || (
                        p.x == x && p.z < z + 1)) implies has_chunk_at(chunk_manager@, p) by {
                        if p.x == x && p.z == z {
                            assert(p == chunk_pos);
                        } else {
                            assert(has_chunk_at(pre, p));
                            let w = chunk_at_index(pre, p);
                            assert(chunk_manager@[w] == pre[w]);
                        }
                    }
                }
                z += 1;
            }
            x += 1;
        }
    }

    /// The terrain configuration.
    pub fn config(&self) -> (r: &TerrainConfig)
        ensures
            *r == self.spec_config(),
    {
        &self.config
    }

    /// The block registry.
    pub fn registry(&self) -> (r: &BlockRegistry)
        ensures
            *r == self.spec_registry(),
    {
        &self.registry
    }
}

/// A chunk coordinate lies in the generation square around a center.
pub open spec fn in_generation_square(p: IVec3, center: IVec3, radius: int) -> bool {
    &&& p.y == 0
    &&& center.x - radius <= p.x <= center.x + radius
    &&& center.z - radius <= p.z <= center.z + radius
}

/// Biome classification: a pure mapping to a surface block and a height
/// scale, kept as an extension point and not consulted by the main
/// generation path.
#[derive(Debug, Clone, Copy, PartialEq, Eq, Structural)]
pub enum Biome {
    Plains,
    Hills,
    Mountains,
    Desert,
}

impl Biome {
    /// The surface block of the biome, looked up by name in the registry.
    pub fn get_surface_block(&self, registry: &BlockRegistry) -> (r: BlockId)
        requires
            registry.wf(),
            has_block_name(registry@, "grass"@),
            has_block_name(registry@, "stone"@),
            has_block_name(registry@, "dirt"@),
        ensures
            r == registry@[block_name_index(
                registry@,
                match self {
                    Biome::Plains | Biome::Hills => "grass"@,
                    Biome::Mountains => "stone"@,
                    Biome::Desert => "dirt"@,
                },
            )].id,
    {
        match self {
            Biome::Plains | Biome::Hills => registry.get_by_name("grass").unwrap().id,
            Biome::Mountains => registry.get_by_name("stone").unwrap().id,
            Biome::Desert => registry.get_by_name("dirt").unwrap().id,
        }
    }

    /// The height-scale multiplier of the biome, in blocks of amplitude.
    pub fn get_height_scale(&self) -> (r: u32)
        ensures
            r == match self {
                Biome::Plains => 16u32,
                Biome::Hills => 32u32,
                Biome::Mountains => 64u32,
                Biome::Desert => 8u32,
            },
    {
        match self {
            Biome::Plains => 16,
            Biome::Hills => 32,
            Biome::Mountains => 64,
            Biome::Desert => 8,
        }
    }
}

} // verus!
