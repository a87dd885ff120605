//! Dense scalar and vector fields over a chunk.
use crate::chunk::cell_index;
use crate::scalar::Single;
use vstd::prelude::*;

verus! {

/// A scalar per cell of a chunk, stored `x` fastest, then `y`, then `z`.
#[derive(Debug)]
pub struct ScalarField {
    data: Vec<Single>,
}

impl ScalarField {
    /// Edge length.
    pub const DIM: usize = 32;

    /// Cells of the field.
    pub const VOLUME: usize = 32768;

    /// The values in storage order.
    pub closed spec fn view(&self) -> Seq<Single> {
        self.data@
    }

    #[verifier::type_invariant]
    spec fn full(self) -> bool {
        self.data@.len() == 32768
    }

    /// The value of a cell.
    pub open spec fn at(&self, x: int, y: int, z: int) -> Single {
        self@[cell_index(x, y, z)]
    }

    /// All-zero field.
    pub fn zeroed() -> (r: Self)
        ensures
            r@ == Seq::new(32768, |i: int| Single { bits: 0 }),
    {
        ScalarField::filled(Single { bits: 0 })
    }

    /// Field holding a single value.
    pub fn filled(value: Single) -> (r: Self)
        ensures
            r@ == Seq::new(32768, |i: int| value),
    {
        let mut data: Vec<Single> = Vec::new();
        let mut k: usize = 0;
        while k < 32768
            invariant
                k <= 32768,
                data@ == Seq::new(k as nat, |i: int| value),
            decreases 32768 - k,
        {
            data.push(value);
            k = k + 1;
        }
        ScalarField { data }
    }

    /// Field with these values, in storage order.
    pub fn from_data(data: Vec<Single>) -> (r: Self)
        requires
            data@.len() == 32768,
        ensures
            r@ == data@,
    {
        ScalarField { data }
    }

    /// Read at cell coordinates.
    pub fn get(&self, x: usize, y: usize, z: usize) -> (r: Single)
        requires
            x < 32,
            y < 32,
            z < 32,
        ensures
            r == self.at(x as int, y as int, z as int),
            self@.len() == 32768,
    {
        proof {
            use_type_invariant(self);
        }
        self.data[x + 32 * y + 1024 * z]
    }

    /// Write at cell coordinates; every other cell stays.
    pub fn set(&mut self, x: usize, y: usize, z: usize, value: Single)
        requires
            x < 32,
            y < 32,
            z < 32,
        ensures
            final(self)@ == old(self)@.update(cell_index(x as int, y as int, z as int), value),
            final(self)@.len() == 32768,
    {
        proof {
            use_type_invariant(&*self);
        }
        let i: usize = x + 32 * y + 1024 * z;
        self.data[i] = value;
    }

    /// The values in storage order.
    pub fn data(&self) -> (r: &[Single])
        ensures
            r@ == self@,
            r@.len() == 32768,
    {
        proof {
            use_type_invariant(self);
        }
        self.data.as_slice()
    }

    /// Flat position of a cell.
    pub fn index(x: usize, y: usize, z: usize) -> (r: usize)
        requires
            x < 32,
            y < 32,
            z < 32,
        ensures
            r == cell_index(x as int, y as int, z as int),
    {
        x + 32 * y + 1024 * z
    }

    /// New field from an elementwise unary operation.
    pub fn map<F: Fn(Single) -> Single>(&self, f: F) -> (r: Self)
        requires
            forall|i: int| 0 <= i < 32768 ==> call_requires(f, (#[trigger] self@[i],)),
        ensures
            r@.len() == 32768,
            forall|i: int| 0 <= i < 32768 ==> call_ensures(f, (self@[i],), #[trigger] r@[i]),
    {
        proof {
            use_type_invariant(self);
        }
        let mut data: Vec<Single> = Vec::new();
        let mut k: usize = 0;
        while k < 32768
            invariant
                k <= 32768,
                self.data@.len() == 32768,
                forall|i: int| 0 <= i < 32768 ==> call_requires(f, (#[trigger] self@[i],)),
                data@.len() == k,
                forall|i: int| 0 <= i < k ==> call_ensures(f, (self@[i],), #[trigger] data@[i]),
            decreases 32768 - k,
        {
            assert(self.data@[k as int] == self@[k as int]);
            let v = f(self.data[k]);
            data.push(v);
            k = k + 1;
        }
        ScalarField { data }
    }

    /// New field from an elementwise binary operation over two fields.
    pub fn zip_with<F: Fn(Single, Single) -> Single>(&self, other: &Self, f: F) -> (r: Self)
        requires
            forall|i: int|
                0 <= i < 32768 ==> call_requires(f, (#[trigger] self@[i], other@[i])),
        ensures
            r@.len() == 32768,
            forall|i: int|
                0 <= i < 32768 ==> call_ensures(f, (self@[i], other@[i]), #[trigger] r@[i]),
    {
        proof {
            use_type_invariant(self);
            use_type_invariant(other);
        }
        let mut data: Vec<Single> = Vec::new();
        let mut k: usize = 0;
        while k < 32768
            invariant
                k <= 32768,
                self.data@.len() == 32768,
                other.data@.len() == 32768,
                forall|i: int|
                    0 <= i < 32768 ==> call_requires(f, (#[trigger] self@[i], other@[i])),
                data@.len() == k,
                forall|i: int|
                    0 <= i < k ==> call_ensures(f, (self@[i], other@[i]), #[trigger] data@[i]),
            decreases 32768 - k,
        {
            assert(self.data@[k as int] == self@[k as int]);
            let v = f(self.data[k], other.data[k]);
            data.push(v);
            k = k + 1;
        }
        ScalarField { data }
    }
}

impl Clone for ScalarField {
    fn clone(&self) -> (r: Self)
        ensures
            r@ == self@,
    {
        proof {
            use_type_invariant(self);
        }
        let data = self.data.clone();
        assert(data@ =~= self.data@);
        ScalarField { data }
    }
}

/// A position or direction in continuous space.
#[derive(Clone, Copy, PartialEq, Eq, Structural, Hash, Debug)]
pub struct Vec3 {
    /// East.
    pub x: Single,
    /// Up.
    pub y: Single,
    /// South.
    pub z: Single,
}

/// A vector per cell of a chunk, in the storage order of [`ScalarField`].
#[derive(Debug)]
pub struct Vec3Field {
    data: Vec<Vec3>,
}

impl Vec3Field {
    /// Cells of the field.
    pub const VOLUME: usize = 32768;

    /// The vectors in storage order.
    pub closed spec fn view(&self) -> Seq<Vec3> {
        self.data@
    }

    #[verifier::type_invariant]
    spec fn full(self) -> bool {
        self.data@.len() == 32768
    }

    /// Field with these vectors, in storage order.
    pub fn from_data(data: Vec<Vec3>) -> (r: Self)
        requires
            data@.len() == 32768,
        ensures
            r@ == data@,
    {
        Vec3Field { data }
    }

    /// Build from a per-coordinate function.
    pub fn from_fn<F: Fn(usize, usize, usize) -> Vec3>(f: F) -> (r: Self)
        requires
            forall|x: usize, y: usize, z: usize|
                x < 32 && y < 32 && z < 32 ==> call_requires(f, (x, y, z)),
        ensures
            r@.len() == 32768,
            forall|i: int|
                0 <= i < 32768 ==> call_ensures(
                    f,
                    ((i % 32) as usize, ((i / 32) % 32) as usize, (i / 1024) as usize),
                    #[trigger] r@[i],
                ),
    {
        let mut data: Vec<Vec3> = Vec::new();
        let mut k: usize = 0;
        while k < 32768
            invariant
                k <= 32768,
                forall|x: usize, y: usize, z: usize|
                    x < 32 && y < 32 && z < 32 ==> call_requires(f, (x, y, z)),
                data@.len() == k,
                forall|i: int|
                    0 <= i < k ==> call_ensures(
                        f,
                        ((i % 32) as usize, ((i / 32) % 32) as usize, (i / 1024) as usize),
                        #[trigger] data@[i],
                    ),
            decreases 32768 - k,
        {
            let x: usize = k % 32;
            let y: usize = (k / 32) % 32;
            let z: usize = k / 1024;
            let v = f(x, y, z);
            data.push(v);
            k = k + 1;
        }
        Vec3Field { data }
    }

    /// Read at cell coordinates.
    pub fn get(&self, x: usize, y: usize, z: usize) -> (r: Vec3)
        requires
            x < 32,
            y < 32,
            z < 32,
        ensures
            r == self@[cell_index(x as int, y as int, z as int)],
    {
        proof {
            use_type_invariant(self);
        }
        self.data[x + 32 * y + 1024 * z]
    }

    /// The vectors in storage order.
    pub fn data(&self) -> (r: &[Vec3])
        ensures
            r@ == self@,
            r@.len() == 32768,
    {
        proof {
            use_type_invariant(self);
        }
        self.data.as_slice()
    }
}

impl Clone for Vec3Field {
    fn clone(&self) -> (r: Self)
        ensures
            r@ == self@,
    {
        proof {
            use_type_invariant(self);
        }
        let data = self.data.clone();
        assert(data@ =~= self.data@);
        Vec3Field { data }
    }
}

} // verus!
