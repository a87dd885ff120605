//! The chunk window and the dense cell buffer over it.
use vstd::prelude::*;

verus! {

/// Edge length of a chunk, in cells.
pub const CHUNK_DIM: usize = 32;

/// Columns of a chunk.
pub const CHUNK_AREA: usize = 1024;

/// Cells of a chunk.
pub const CHUNK_VOLUME: usize = 32768;

/// Position of a cell in the flat storage of a chunk.
pub open spec fn cell_index(x: int, y: int, z: int) -> int {
    x + 32 * y + 1024 * z
}

/// Whether a coordinate lies in the chunk window.
pub open spec fn in_window(x: int, y: int, z: int) -> bool {
    0 <= x < 32 && 0 <= y < 32 && 0 <= z < 32
}

/// Position of a column in the flat storage of a plane.
pub open spec fn column_index(x: int, z: int) -> int {
    x + 32 * z
}

/// Distinct cells have distinct positions, all inside the storage.
pub proof fn cell_index_is_injective(x: int, y: int, z: int, a: int, b: int, c: int)
    requires
        in_window(x, y, z),
        in_window(a, b, c),
    ensures
        0 <= cell_index(x, y, z) < 32768,
        cell_index(x, y, z) == cell_index(a, b, c) <==> x == a && y == b && z == c,
{
}

/// Every position in the storage is the position of one cell.
pub proof fn cell_index_is_onto(i: int)
    requires
        0 <= i < 32768,
    ensures
        in_window(i % 32, (i / 32) % 32, i / 1024),
        cell_index(i % 32, (i / 32) % 32, i / 1024) == i,
{
}

/// A dense cube of cells, stored `x` fastest, then `y`, then `z`.
#[derive(Debug)]
pub struct ChunkBuffer<T: Copy> {
    cells: Vec<T>,
}

impl<T: Copy> ChunkBuffer<T> {
    /// Cells of a buffer.
    pub const VOLUME: usize = 32768;

    /// The cells in storage order.
    pub closed spec fn view(&self) -> Seq<T> {
        self.cells@
    }

    #[verifier::type_invariant]
    spec fn full(self) -> bool {
        self.cells@.len() == 32768
    }

    /// The cell at a coordinate.
    pub open spec fn at(&self, x: int, y: int, z: int) -> T {
        self@[cell_index(x, y, z)]
    }

    /// A buffer holding one value everywhere.
    pub fn uniform(value: T) -> (r: Self)
        ensures
            r@.len() == 32768,
            forall|i: int| 0 <= i < 32768 ==> r@[i] == value,
    {
        let mut cells: Vec<T> = Vec::new();
        let mut k: usize = 0;
        while k < 32768
            invariant
                k <= 32768,
                cells@.len() == k,
                forall|i: int| 0 <= i < k ==> cells@[i] == value,
            decreases 32768 - k,
        {
            cells.push(value);
            k = k + 1;
        }
        ChunkBuffer { cells }
    }

    /// A buffer with these cells, in storage order.
    pub fn from_cells(cells: Vec<T>) -> (r: Self)
        requires
            cells@.len() == 32768,
        ensures
            r@ == cells@,
    {
        ChunkBuffer { cells }
    }

    /// The cell at a storage position.
    pub fn get_index(&self, i: usize) -> (r: T)
        requires
            i < 32768,
        ensures
            r == self@[i as int],
            self@.len() == 32768,
    {
        proof {
            use_type_invariant(self);
        }
        self.cells[i]
    }

    /// The cell at a coordinate.
    pub fn get(&self, x: usize, y: usize, z: usize) -> (r: T)
        requires
            x < 32,
            y < 32,
            z < 32,
        ensures
            r == self.at(x as int, y as int, z as int),
            self@.len() == 32768,
    {
        self.get_index(x + 32 * y + 1024 * z)
    }

    /// Write the cell at a coordinate; every other cell stays.
    pub fn set(&mut self, x: usize, y: usize, z: usize, value: T)
        requires
            x < 32,
            y < 32,
            z < 32,
        ensures
            final(self)@ == old(self)@.update(cell_index(x as int, y as int, z as int), value),
            final(self)@.len() == 32768,
    {
        proof {
            use_type_invariant(&*self);
        }
        let i: usize = x + 32 * y + 1024 * z;
        self.cells[i] = value;
    }
}

impl<T: Copy> Clone for ChunkBuffer<T> {
    fn clone(&self) -> (r: Self)
        ensures
            r@ == self@,
            r@.len() == 32768,
    {
        proof {
            use_type_invariant(self);
        }
        let mut cells: Vec<T> = Vec::new();
        let mut k: usize = 0;
        while k < 32768
            invariant
                k <= 32768,
                self.cells@.len() == 32768,
                cells@ == self.cells@.take(k as int),
            decreases 32768 - k,
        {
            cells.push(self.cells[k]);
            k = k + 1;
        }
        ChunkBuffer { cells }
    }
}

} // verus!
