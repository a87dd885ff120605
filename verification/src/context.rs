//! What situates a chunk evaluation: the world seed, the chunk, and the seeds
//! derived from them.
use crate::voxel::IVec3;
use vstd::prelude::*;

verus! {

/// The world seed and the chunk under evaluation.
#[derive(Clone, Copy, PartialEq, Eq, Structural, Debug)]
pub struct EvalContext {
    /// World-wide seed.
    pub world_seed: u64,
    /// Chunk coordinate, in chunks.
    pub chunk: IVec3,
}

/// A bijective scramble of 64 bits.
pub open spec fn mixed(z: u64) -> u64 {
    let a = z.wrapping_add(0x9E3779B97F4A7C15);
    let b = (a ^ (a >> 30)).wrapping_mul(0xBF58476D1CE4E5B9);
    let c = (b ^ (b >> 27)).wrapping_mul(0x94D049BB133111EB);
    c ^ (c >> 31)
}

/// Scramble 64 bits.
pub fn mix64(z: u64) -> (r: u64)
    ensures
        r == mixed(z),
{
    let a: u64 = z.wrapping_add(0x9E3779B97F4A7C15);
    let b: u64 = (a ^ (a >> 30)).wrapping_mul(0xBF58476D1CE4E5B9);
    let c: u64 = (b ^ (b >> 27)).wrapping_mul(0x94D049BB133111EB);
    c ^ (c >> 31)
}

/// The seed of a coherent noise field.
pub open spec fn noise_seed_of(world_seed: u64, node_seed: u32) -> i32 {
    let a = world_seed ^ (node_seed as u64).wrapping_mul(0x9E3779B97F4A7C15);
    let b = (a ^ (a >> 30)).wrapping_mul(0xBF58476D1CE4E5B9);
    let c = (b ^ (b >> 27)).wrapping_mul(0x94D049BB133111EB);
    (c ^ (c >> 31)) as i32
}

/// The seed of a world-absolute grid cell.
pub open spec fn cell_seed_of(world_seed: u64, node_seed: u32, cell_x: i64, cell_z: i64) -> u64 {
    let a = mixed(world_seed ^ (node_seed as u64).wrapping_mul(0x9E3779B97F4A7C15));
    let b = mixed(a ^ (cell_x as u64).wrapping_mul(0xD1B54A32D192ED03));
    mixed(b ^ (cell_z as u64).wrapping_mul(0xABC98388FB8FAC03))
}

/// The seed of a process over one chunk, from the world position of its first
/// cell.
pub open spec fn chunk_seed_of(world_seed: u64, node_seed: u32, base: IVec3) -> u64 {
    let a = mixed(world_seed ^ (node_seed as u64).wrapping_mul(0x9E3779B97F4A7C15));
    let b = mixed(a ^ (base.x as i64 as u64).wrapping_mul(0xD1B54A32D192ED03));
    let c = mixed(b ^ (base.y as i64 as u64).wrapping_mul(0x9E3779B97F4A7C15));
    mixed(c ^ (base.z as i64 as u64).wrapping_mul(0xABC98388FB8FAC03))
}

/// Whether every cell of a chunk has world coordinates.
pub open spec fn placed_in_world(chunk: IVec3) -> bool {
    &&& -0x400_0000 <= chunk.x < 0x400_0000
    &&& -0x400_0000 <= chunk.y < 0x400_0000
    &&& -0x400_0000 <= chunk.z < 0x400_0000
}

impl EvalContext {
    /// New context.
    pub fn new(world_seed: u64, chunk: IVec3) -> (r: Self)
        ensures
            r == (EvalContext { world_seed, chunk }),
    {
        EvalContext { world_seed, chunk }
    }

    /// World coordinates of a chunk-local cell.
    pub open spec fn world_cell_of(self, x: int, y: int, z: int) -> (int, int, int) {
        (32 * self.chunk.x + x, 32 * self.chunk.y + y, 32 * self.chunk.z + z)
    }

    /// World coordinates of a cell, in whole voxels. The cell may lie beyond the
    /// chunk, as long as its coordinates fit.
    pub fn world_pos(&self, x: usize, y: usize, z: usize) -> (r: IVec3)
        requires
            placed_in_world(self.chunk),
            32 * self.chunk.x + x <= i32::MAX,
            32 * self.chunk.y + y <= i32::MAX,
            32 * self.chunk.z + z <= i32::MAX,
        ensures
            (r.x as int, r.y as int, r.z as int) == self.world_cell_of(
                x as int,
                y as int,
                z as int,
            ),
    {
        IVec3 {
            x: (32 * self.chunk.x as i64 + x as i64) as i32,
            y: (32 * self.chunk.y as i64 + y as i64) as i32,
            z: (32 * self.chunk.z as i64 + z as i64) as i32,
        }
    }

    /// Seed for a coherent noise field. The chunk takes no part, so the field is
    /// continuous across chunk borders.
    pub fn noise_seed(&self, node_local_seed: u32) -> (r: i32)
        ensures
            r == noise_seed_of(self.world_seed, node_local_seed),
    {
        let a: u64 = self.world_seed ^ (node_local_seed as u64).wrapping_mul(0x9E3779B97F4A7C15);
        let b: u64 = (a ^ (a >> 30)).wrapping_mul(0xBF58476D1CE4E5B9);
        let c: u64 = (b ^ (b >> 27)).wrapping_mul(0x94D049BB133111EB);
        #[verifier::truncate]
        ((c ^ (c >> 31)) as i32)
    }

    /// Seed for a process over this chunk, from the world position of its first
    /// cell, so vertically stacked chunks differ.
    pub fn chunk_world_seed(&self, node_local_seed: u32) -> (r: u64)
        requires
            placed_in_world(self.chunk),
        ensures
            r == chunk_seed_of(
                self.world_seed,
                node_local_seed,
                IVec3 {
                    x: (32 * self.chunk.x) as i32,
                    y: (32 * self.chunk.y) as i32,
                    z: (32 * self.chunk.z) as i32,
                },
            ),
    {
        let base = IVec3 { x: 32 * self.chunk.x, y: 32 * self.chunk.y, z: 32 * self.chunk.z };
        let a: u64 = mix64(
            self.world_seed ^ (node_local_seed as u64).wrapping_mul(0x9E3779B97F4A7C15),
        );
        let b: u64 = mix64(a ^ (base.x as i64 as u64).wrapping_mul(0xD1B54A32D192ED03));
        let c: u64 = mix64(b ^ (base.y as i64 as u64).wrapping_mul(0x9E3779B97F4A7C15));
        mix64(c ^ (base.z as i64 as u64).wrapping_mul(0xABC98388FB8FAC03))
    }

    /// Seed for a world-absolute grid cell, the same in whichever chunk asks.
    pub fn world_cell_seed(&self, node_local_seed: u32, cell_x: i64, cell_z: i64) -> (r: u64)
        ensures
            r == cell_seed_of(self.world_seed, node_local_seed, cell_x, cell_z),
    {
        let a: u64 = mix64(
            self.world_seed ^ (node_local_seed as u64).wrapping_mul(0x9E3779B97F4A7C15),
        );
        let b: u64 = mix64(a ^ (cell_x as u64).wrapping_mul(0xD1B54A32D192ED03));
        mix64(b ^ (cell_z as u64).wrapping_mul(0xABC98388FB8FAC03))
    }
}

/// Adjacent cells of adjacent chunks are adjacent in the world: the cell past the
/// east edge of one chunk is the first cell of the next.
pub proof fn chunks_tile_the_world(a: EvalContext, b: EvalContext, x: int, y: int, z: int)
    requires
        b.chunk.x == a.chunk.x + 1,
        b.chunk.y == a.chunk.y,
        b.chunk.z == a.chunk.z,
    ensures
        a.world_cell_of(x + 32, y, z) == b.world_cell_of(x, y, z),
{
}

/// Multiplying by a number that has an inverse loses nothing.
pub(crate) proof fn lemma_odd_factor(x: u64, y: u64, c: u64, inverse: u64)
    requires
        x.wrapping_mul(c) == y.wrapping_mul(c),
        (c * inverse) % 0x1_0000_0000_0000_0000 == 1,
    ensures
        x == y,
{
    let m = 0x1_0000_0000_0000_0000int;
    lemma_undo_factor(x as int, c as int, inverse as int, m);
    lemma_undo_factor(y as int, c as int, inverse as int, m);
}

proof fn lemma_undo_factor(x: int, c: int, inverse: int, m: int)
    requires
        0 <= x < m,
        (c * inverse) % m == 1,
    ensures
        (((x * c) % m) * inverse) % m == x,
{
    vstd::arithmetic::div_mod::lemma_mul_mod_noop_left(x * c, inverse, m);
    vstd::arithmetic::mul::lemma_mul_is_associative(x, c, inverse);
    vstd::arithmetic::div_mod::lemma_mul_mod_noop_right(x, c * inverse, m);
    vstd::arithmetic::div_mod::lemma_small_mod(x as nat, m as nat);
}

/// The scramble loses nothing: different inputs have different outputs.
pub proof fn mixing_is_injective(a: u64, b: u64)
    ensures
        mixed(a) == mixed(b) <==> a == b,
{
    if mixed(a) == mixed(b) {
        let a1 = a.wrapping_add(0x9E3779B97F4A7C15);
        let b1 = b.wrapping_add(0x9E3779B97F4A7C15);
        let a2 = (a1 ^ (a1 >> 30)).wrapping_mul(0xBF58476D1CE4E5B9);
        let b2 = (b1 ^ (b1 >> 30)).wrapping_mul(0xBF58476D1CE4E5B9);
        let a3 = (a2 ^ (a2 >> 27)).wrapping_mul(0x94D049BB133111EB);
        let b3 = (b2 ^ (b2 >> 27)).wrapping_mul(0x94D049BB133111EB);
        assert(a3 ^ (a3 >> 31) == b3 ^ (b3 >> 31) ==> a3 == b3) by (bit_vector);
        lemma_odd_factor(a2 ^ (a2 >> 27), b2 ^ (b2 >> 27), 0x94D049BB133111EB, 0x319642b2d24d8ec3);
        assert(a2 ^ (a2 >> 27) == b2 ^ (b2 >> 27) ==> a2 == b2) by (bit_vector);
        lemma_odd_factor(a1 ^ (a1 >> 30), b1 ^ (b1 >> 30), 0xBF58476D1CE4E5B9, 0x96de1b173f119089);
        assert(a1 ^ (a1 >> 30) == b1 ^ (b1 >> 30) ==> a1 == b1) by (bit_vector);
    }
}

} // verus!
