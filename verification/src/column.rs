//! Per-column planes: one value per `(x, z)` column of a chunk.
use crate::chunk::column_index;
use crate::scalar::Single;
use vstd::prelude::*;

verus! {

/// A continuous value per column, such as a climate channel.
#[derive(Debug)]
pub struct ColumnField {
    data: Vec<Single>,
}

impl ColumnField {
    /// Edge length.
    pub const DIM: usize = 32;

    /// Columns of the plane.
    pub const AREA: usize = 1024;

    /// The values in storage order.
    pub closed spec fn view(&self) -> Seq<Single> {
        self.data@
    }

    #[verifier::type_invariant]
    spec fn full(self) -> bool {
        self.data@.len() == 1024
    }

    /// The value of a column.
    pub open spec fn at(&self, x: int, z: int) -> Single {
        self@[column_index(x, z)]
    }

    /// All-zero plane.
    pub fn zeroed() -> (r: Self)
        ensures
            r@ == Seq::new(1024, |i: int| Single { bits: 0 }),
    {
        ColumnField::filled(Single { bits: 0 })
    }

    /// Plane holding a single value.
    pub fn filled(value: Single) -> (r: Self)
        ensures
            r@ == Seq::new(1024, |i: int| value),
    {
        let mut data: Vec<Single> = Vec::new();
        let mut k: usize = 0;
        while k < 1024
            invariant
                k <= 1024,
                data@ == Seq::new(k as nat, |i: int| value),
            decreases 1024 - k,
        {
            data.push(value);
            k = k + 1;
        }
        ColumnField { data }
    }

    /// Plane with these values, in storage order.
    pub fn from_data(data: Vec<Single>) -> (r: Self)
        requires
            data@.len() == 1024,
        ensures
            r@ == data@,
    {
        ColumnField { data }
    }

    /// Read at column coordinates.
    pub fn get(&self, x: usize, z: usize) -> (r: Single)
        requires
            x < 32,
            z < 32,
        ensures
            r == self.at(x as int, z as int),
            self@.len() == 1024,
    {
        proof {
            use_type_invariant(self);
        }
        self.data[x + 32 * z]
    }

    /// Write at column coordinates; every other column stays.
    pub fn set(&mut self, x: usize, z: usize, value: Single)
        requires
            x < 32,
            z < 32,
        ensures
            final(self)@ == old(self)@.update(column_index(x as int, z as int), value),
            final(self)@.len() == 1024,
    {
        proof {
            use_type_invariant(&*self);
        }
        let i: usize = x + 32 * z;
        self.data[i] = value;
    }

    /// The values in storage order, `x` fastest.
    pub fn data(&self) -> (r: &[Single])
        ensures
            r@ == self@,
            r@.len() == 1024,
    {
        proof {
            use_type_invariant(self);
        }
        self.data.as_slice()
    }

    /// Flat position of a column.
    pub fn index(x: usize, z: usize) -> (r: usize)
        requires
            x < 32,
            z < 32,
        ensures
            r == column_index(x as int, z as int),
    {
        x + 32 * z
    }

    /// New plane from an elementwise unary operation.
    pub fn map<F: Fn(Single) -> Single>(&self, f: F) -> (r: Self)
        requires
            forall|i: int| 0 <= i < 1024 ==> call_requires(f, (#[trigger] self@[i],)),
        ensures
            r@.len() == 1024,
            forall|i: int| 0 <= i < 1024 ==> call_ensures(f, (self@[i],), #[trigger] r@[i]),
    {
        proof {
            use_type_invariant(self);
        }
        let mut data: Vec<Single> = Vec::new();
        let mut k: usize = 0;
        while k < 1024
            invariant
                k <= 1024,
                self.data@.len() == 1024,
                forall|i: int| 0 <= i < 1024 ==> call_requires(f, (#[trigger] self@[i],)),
                data@.len() == k,
                forall|i: int| 0 <= i < k ==> call_ensures(f, (self@[i],), #[trigger] data@[i]),
            decreases 1024 - k,
        {
            assert(self.data@[k as int] == self@[k as int]);
            let v = f(self.data[k]);
            data.push(v);
            k = k + 1;
        }
        ColumnField { data }
    }

    /// New plane from an elementwise binary operation over two planes.
    pub fn zip_with<F: Fn(Single, Single) -> Single>(&self, other: &Self, f: F) -> (r: Self)
        requires
            forall|i: int|
                0 <= i < 1024 ==> call_requires(f, (#[trigger] self@[i], other@[i])),
        ensures
            r@.len() == 1024,
            forall|i: int|
                0 <= i < 1024 ==> call_ensures(f, (self@[i], other@[i]), #[trigger] r@[i]),
    {
        proof {
            use_type_invariant(self);
            use_type_invariant(other);
        }
        let mut data: Vec<Single> = Vec::new();
        let mut k: usize = 0;
        while k < 1024
            invariant
                k <= 1024,
                self.data@.len() == 1024,
                other.data@.len() == 1024,
                forall|i: int|
                    0 <= i < 1024 ==> call_requires(f, (#[trigger] self@[i], other@[i])),
                data@.len() == k,
                forall|i: int|
                    0 <= i < k ==> call_ensures(f, (self@[i], other@[i]), #[trigger] data@[i]),
            decreases 1024 - k,
        {
            assert(self.data@[k as int] == self@[k as int]);
            let v = f(self.data[k], other.data[k]);
            data.push(v);
            k = k + 1;
        }
        ColumnField { data }
    }
}

impl Clone for ColumnField {
    fn clone(&self) -> (r: Self)
        ensures
            r@ == self@,
    {
        proof {
            use_type_invariant(self);
        }
        let data = self.data.clone();
        assert(data@ =~= self.data@);
        ColumnField { data }
    }
}

/// A discrete id per column: a zone or a biome.
#[derive(Debug)]
pub struct IdColumn {
    data: Vec<u16>,
}

impl IdColumn {
    /// Edge length.
    pub const DIM: usize = 32;

    /// Columns of the plane.
    pub const AREA: usize = 1024;

    /// The values in storage order.
    pub closed spec fn view(&self) -> Seq<u16> {
        self.data@
    }

    #[verifier::type_invariant]
    spec fn full(self) -> bool {
        self.data@.len() == 1024
    }

    /// The value of a column.
    pub open spec fn at(&self, x: int, z: int) -> u16 {
        self@[column_index(x, z)]
    }

    /// All-zero plane.
    pub fn zeroed() -> (r: Self)
        ensures
            r@ == Seq::new(1024, |i: int| 0u16),
    {
        IdColumn::filled(0u16)
    }

    /// Plane holding a single value.
    pub fn filled(value: u16) -> (r: Self)
        ensures
            r@ == Seq::new(1024, |i: int| value),
    {
        let mut data: Vec<u16> = Vec::new();
        let mut k: usize = 0;
        while k < 1024
            invariant
                k <= 1024,
                data@ == Seq::new(k as nat, |i: int| value),
            decreases 1024 - k,
        {
            data.push(value);
            k = k + 1;
        }
        IdColumn { data }
    }

    /// Plane with these values, in storage order.
    pub fn from_data(data: Vec<u16>) -> (r: Self)
        requires
            data@.len() == 1024,
        ensures
            r@ == data@,
    {
        IdColumn { data }
    }

    /// Read at column coordinates.
    pub fn get(&self, x: usize, z: usize) -> (r: u16)
        requires
            x < 32,
            z < 32,
        ensures
            r == self.at(x as int, z as int),
            self@.len() == 1024,
    {
        proof {
            use_type_invariant(self);
        }
        self.data[x + 32 * z]
    }

    /// Write at column coordinates; every other column stays.
    pub fn set(&mut self, x: usize, z: usize, value: u16)
        requires
            x < 32,
            z < 32,
        ensures
            final(self)@ == old(self)@.update(column_index(x as int, z as int), value),
            final(self)@.len() == 1024,
    {
        proof {
            use_type_invariant(&*self);
        }
        let i: usize = x + 32 * z;
        self.data[i] = value;
    }

    /// The values in storage order, `x` fastest.
    pub fn data(&self) -> (r: &[u16])
        ensures
            r@ == self@,
            r@.len() == 1024,
    {
        proof {
            use_type_invariant(self);
        }
        self.data.as_slice()
    }
}

impl Clone for IdColumn {
    fn clone(&self) -> (r: Self)
        ensures
            r@ == self@,
    {
        proof {
            use_type_invariant(self);
        }
        let data = self.data.clone();
        assert(data@ =~= self.data@);
        IdColumn { data }
    }
}

/// Reading a column gives back what was last written to it, and a write leaves
/// every other column alone.
pub proof fn column_write_then_read(plane: Seq<u16>, x: int, z: int, a: int, c: int, id: u16)
    requires
        plane.len() == 1024,
        0 <= x < 32,
        0 <= z < 32,
        0 <= a < 32,
        0 <= c < 32,
    ensures
        plane.update(column_index(x, z), id)[column_index(a, c)] == (if a == x && c == z {
            id
        } else {
            plane[column_index(a, c)]
        }),
{
}

} // verus!
