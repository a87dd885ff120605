//! The parameter form of a node: the fields it shows, within what limits, and
//! what an edit to one of them does.
use crate::node::NodeKind;
use crate::params::{
    Axis, BiomeContextMaskParams, BiomeParamParams, ClampParams, ConstantMaterialParams,
    ConstantParams, DomainWarpParams, FindFlatParams, FractalType, JitteredGridParams,
    LayerParams, NoiseParams, PaintDensityParams, PlaceStructureParams, PlaceTreeParams,
    PoissonDiskParams, PoissonDistributionParams, RemapParams, RiverParams, ScatterPlaceParams,
    SpeciesPickerParams, SurfaceFilterParams, ThresholdParams, WorldAxisParams,
    WorldParamParams, YBandParams,
};
use crate::scalar::Single;
use crate::voxel::MaterialId;
use vstd::prelude::*;

verus! {

/// The value of a form field.
#[derive(Clone, Copy, PartialEq, Eq, Structural, Debug)]
pub enum FieldValue {
    /// A real number.
    Real(Single),
    /// A whole number.
    Whole(i64),
    /// A checkbox.
    Flag(bool),
    /// A world axis.
    Axis(Axis),
    /// A way to combine octaves.
    Fractal(FractalType),
}

/// What values a form field accepts.
#[derive(Clone, Copy, PartialEq, Eq, Structural, Debug)]
pub enum Limits {
    /// Any value of the field's sort.
    Free,
    /// Real numbers between two bounds.
    Reals(Single, Single),
    /// Whole numbers between two bounds.
    Wholes(i64, i64),
}

/// A field of a parameter form.
#[derive(Clone, Copy, Debug)]
pub struct Field {
    /// The label beside it.
    pub label: &'static str,
    /// Its current value.
    pub value: FieldValue,
    /// What it accepts.
    pub limits: Limits,
}

/// A field for any real number.
pub open spec fn any_real(label: &'static str, value: Single) -> Field {
    Field { label, value: FieldValue::Real(value), limits: Limits::Free }
}

/// A field for a real number between two bounds, given by their bits.
pub open spec fn real_within(label: &'static str, value: Single, lo: u32, hi: u32) -> Field {
    Field {
        label,
        value: FieldValue::Real(value),
        limits: Limits::Reals(Single { bits: lo }, Single { bits: hi }),
    }
}

/// A field for a whole number between two bounds.
pub open spec fn whole(label: &'static str, value: i64, lo: i64, hi: i64) -> Field {
    Field { label, value: FieldValue::Whole(value), limits: Limits::Wholes(lo, hi) }
}

/// A field for a choice.
pub open spec fn choice(label: &'static str, value: FieldValue) -> Field {
    Field { label, value, limits: Limits::Free }
}

fn make_any_real(label: &'static str, value: Single) -> (r: Field)
    ensures
        r == any_real(label, value),
{
    Field { label, value: FieldValue::Real(value), limits: Limits::Free }
}

fn make_real_within(label: &'static str, value: Single, lo: u32, hi: u32) -> (r: Field)
    ensures
        r == real_within(label, value, lo, hi),
{
    Field {
        label,
        value: FieldValue::Real(value),
        limits: Limits::Reals(Single { bits: lo }, Single { bits: hi }),
    }
}

fn make_whole(label: &'static str, value: i64, lo: i64, hi: i64) -> (r: Field)
    ensures
        r == whole(label, value, lo, hi),
{
    Field { label, value: FieldValue::Whole(value), limits: Limits::Wholes(lo, hi) }
}

fn make_choice(label: &'static str, value: FieldValue) -> (r: Field)
    ensures
        r == choice(label, value),
{
    Field { label, value, limits: Limits::Free }
}

impl FieldValue {
    /// Whether two values are of the same sort.
    pub open spec fn same_sort(self, other: FieldValue) -> bool {
        match (self, other) {
            (FieldValue::Real(_), FieldValue::Real(_)) => true,
            (FieldValue::Whole(_), FieldValue::Whole(_)) => true,
            (FieldValue::Flag(_), FieldValue::Flag(_)) => true,
            (FieldValue::Axis(_), FieldValue::Axis(_)) => true,
            (FieldValue::Fractal(_), FieldValue::Fractal(_)) => true,
            _ => false,
        }
    }

    /// The value held to limits: one beyond a bound becomes the bound.
    pub open spec fn held(self, limits: Limits) -> FieldValue {
        match (self, limits) {
            (FieldValue::Real(v), Limits::Reals(lo, hi)) => if !lo.is_nan() && !v.is_nan()
                && !v.at_least(lo) {
                FieldValue::Real(lo)
            } else if !hi.is_nan() && !v.is_nan() && !hi.at_least(v) {
                FieldValue::Real(hi)
            } else {
                self
            },
            (FieldValue::Whole(v), Limits::Wholes(lo, hi)) => if v < lo {
                FieldValue::Whole(lo)
            } else if v > hi {
                FieldValue::Whole(hi)
            } else {
                self
            },
            _ => self,
        }
    }

    /// Whether two values are of the same sort.
    pub fn is_same_sort(self, other: FieldValue) -> (r: bool)
        ensures
            r == self.same_sort(other),
    {
        match (self, other) {
            (FieldValue::Real(_), FieldValue::Real(_)) => true,
            (FieldValue::Whole(_), FieldValue::Whole(_)) => true,
            (FieldValue::Flag(_), FieldValue::Flag(_)) => true,
            (FieldValue::Axis(_), FieldValue::Axis(_)) => true,
            (FieldValue::Fractal(_), FieldValue::Fractal(_)) => true,
            _ => false,
        }
    }

    /// The value held to limits: one beyond a bound becomes the bound.
    pub fn hold(self, limits: Limits) -> (r: FieldValue)
        ensures
            r == self.held(limits),
    {
        match (self, limits) {
            (FieldValue::Real(v), Limits::Reals(lo, hi)) => {
                if lo.ge(lo) && v.ge(v) && !v.ge(lo) {
                    FieldValue::Real(lo)
                } else if hi.ge(hi) && v.ge(v) && !hi.ge(v) {
                    FieldValue::Real(hi)
                } else {
                    self
                }
            },
            (FieldValue::Whole(v), Limits::Wholes(lo, hi)) => {
                if v < lo {
                    FieldValue::Whole(lo)
                } else if v > hi {
                    FieldValue::Whole(hi)
                } else {
                    self
                }
            },
            _ => self,
        }
    }
}

/// Whether a field accepts a value as it stands.
pub open spec fn accepts(field: Field, value: FieldValue) -> bool {
    field.value.same_sort(value) && value.held(field.limits) == value
}

/// A form after a value is put in one of its fields.
pub open spec fn with_value(form: Seq<Field>, at: int, value: FieldValue) -> Seq<Field> {
    form.update(at, Field { value, ..form[at] })
}

impl ConstantParams {
    /// The fields of the parameter form, in order.
    pub open spec fn fields(self) -> Seq<Field> {
        seq![
            any_real("value", self.value),
        ]
    }

    fn form(&self) -> (r: Vec<Field>)
        ensures
            r@ == self.fields(),
    {
        let mut out: Vec<Field> = Vec::new();
        out.push(make_any_real("value", self.value));
        assert(out@ =~= self.fields());
        out
    }

    fn store(&mut self, at: usize, value: FieldValue)
        requires
            at < old(self).fields().len(),
            accepts(old(self).fields()[at as int], value),
        ensures
            final(self).fields() == with_value(old(self).fields(), at as int, value),
    {
        let ghost before = self.fields();
        match (at, value) {
            (0, FieldValue::Real(v)) => {
                self.value = v;
            },
            _ => {},
        }
        assert(self.fields() =~= with_value(before, at as int, value));
    }
}

impl ThresholdParams {
    /// The fields of the parameter form, in order.
    pub open spec fn fields(self) -> Seq<Field> {
        seq![
            any_real("threshold", self.threshold),
        ]
    }

    fn form(&self) -> (r: Vec<Field>)
        ensures
            r@ == self.fields(),
    {
        let mut out: Vec<Field> = Vec::new();
        out.push(make_any_real("threshold", self.threshold));
        assert(out@ =~= self.fields());
        out
    }

    fn store(&mut self, at: usize, value: FieldValue)
        requires
            at < old(self).fields().len(),
            accepts(old(self).fields()[at as int], value),
        ensures
            final(self).fields() == with_value(old(self).fields(), at as int, value),
    {
        let ghost before = self.fields();
        match (at, value) {
            (0, FieldValue::Real(v)) => {
                self.threshold = v;
            },
            _ => {},
        }
        assert(self.fields() =~= with_value(before, at as int, value));
    }
}

impl ClampParams {
    /// The fields of the parameter form, in order.
    pub open spec fn fields(self) -> Seq<Field> {
        seq![
            any_real("min", self.min),
            any_real("max", self.max),
        ]
    }

    fn form(&self) -> (r: Vec<Field>)
        ensures
            r@ == self.fields(),
    {
        let mut out: Vec<Field> = Vec::new();
        out.push(make_any_real("min", self.min));
        out.push(make_any_real("max", self.max));
        assert(out@ =~= self.fields());
        out
    }

    fn store(&mut self, at: usize, value: FieldValue)
        requires
            at < old(self).fields().len(),
            accepts(old(self).fields()[at as int], value),
        ensures
            final(self).fields() == with_value(old(self).fields(), at as int, value),
    {
        let ghost before = self.fields();
        match (at, value) {
            (0, FieldValue::Real(v)) => {
                self.min = v;
            },
            (1, FieldValue::Real(v)) => {
                self.max = v;
            },
            _ => {},
        }
        assert(self.fields() =~= with_value(before, at as int, value));
    }
}

impl RemapParams {
    /// The fields of the parameter form, in order.
    pub open spec fn fields(self) -> Seq<Field> {
        seq![
            any_real("src lo", self.src_lo),
            any_real("src hi", self.src_hi),
            any_real("dst lo", self.dst_lo),
            any_real("dst hi", self.dst_hi),
        ]
    }

    fn form(&self) -> (r: Vec<Field>)
        ensures
            r@ == self.fields(),
    {
        let mut out: Vec<Field> = Vec::new();
        out.push(make_any_real("src lo", self.src_lo));
        out.push(make_any_real("src hi", self.src_hi));
        out.push(make_any_real("dst lo", self.dst_lo));
        out.push(make_any_real("dst hi", self.dst_hi));
        assert(out@ =~= self.fields());
        out
    }

    fn store(&mut self, at: usize, value: FieldValue)
        requires
            at < old(self).fields().len(),
            accepts(old(self).fields()[at as int], value),
        ensures
            final(self).fields() == with_value(old(self).fields(), at as int, value),
    {
        let ghost before = self.fields();
        match (at, value) {
            (0, FieldValue::Real(v)) => {
                self.src_lo = v;
            },
            (1, FieldValue::Real(v)) => {
                self.src_hi = v;
            },
            (2, FieldValue::Real(v)) => {
                self.dst_lo = v;
            },
            (3, FieldValue::Real(v)) => {
                self.dst_hi = v;
            },
            _ => {},
        }
        assert(self.fields() =~= with_value(before, at as int, value));
    }
}

impl NoiseParams {
    /// The fields of the parameter form, in order.
    pub open spec fn fields(self) -> Seq<Field> {
        seq![
            whole("seed", self.seed as i64, 0, 4294967295),
            any_real("frequency", self.frequency),
            whole("octaves", self.octaves as i64, 1, 10),
            any_real("lacunarity", self.lacunarity),
            any_real("gain", self.gain),
            choice("fractal", FieldValue::Fractal(self.fractal_type)),
        ]
    }

    fn form(&self) -> (r: Vec<Field>)
        ensures
            r@ == self.fields(),
    {
        let mut out: Vec<Field> = Vec::new();
        out.push(make_whole("seed", self.seed as i64, 0, 4294967295));
        out.push(make_any_real("frequency", self.frequency));
        out.push(make_whole("octaves", self.octaves as i64, 1, 10));
        out.push(make_any_real("lacunarity", self.lacunarity));
        out.push(make_any_real("gain", self.gain));
        out.push(make_choice("fractal", FieldValue::Fractal(self.fractal_type)));
        assert(out@ =~= self.fields());
        out
    }

    fn store(&mut self, at: usize, value: FieldValue)
        requires
            at < old(self).fields().len(),
            accepts(old(self).fields()[at as int], value),
        ensures
            final(self).fields() == with_value(old(self).fields(), at as int, value),
    {
        let ghost before = self.fields();
        match (at, value) {
            (0, FieldValue::Whole(v)) => {
                self.seed = v as u32;
            },
            (1, FieldValue::Real(v)) => {
                self.frequency = v;
            },
            (2, FieldValue::Whole(v)) => {
                self.octaves = v as u32;
            },
            (3, FieldValue::Real(v)) => {
                self.lacunarity = v;
            },
            (4, FieldValue::Real(v)) => {
                self.gain = v;
            },
            (5, FieldValue::Fractal(v)) => {
                self.fractal_type = v;
            },
            _ => {},
        }
        assert(self.fields() =~= with_value(before, at as int, value));
    }
}

impl WorldAxisParams {
    /// The fields of the parameter form, in order.
    pub open spec fn fields(self) -> Seq<Field> {
        seq![
            choice("axis", FieldValue::Axis(self.axis)),
        ]
    }

    fn form(&self) -> (r: Vec<Field>)
        ensures
            r@ == self.fields(),
    {
        let mut out: Vec<Field> = Vec::new();
        out.push(make_choice("axis", FieldValue::Axis(self.axis)));
        assert(out@ =~= self.fields());
        out
    }

    fn store(&mut self, at: usize, value: FieldValue)
        requires
            at < old(self).fields().len(),
            accepts(old(self).fields()[at as int], value),
        ensures
            final(self).fields() == with_value(old(self).fields(), at as int, value),
    {
        let ghost before = self.fields();
        match (at, value) {
            (0, FieldValue::Axis(v)) => {
                self.axis = v;
            },
            _ => {},
        }
        assert(self.fields() =~= with_value(before, at as int, value));
    }
}

impl DomainWarpParams {
    /// The fields of the parameter form, in order.
    pub open spec fn fields(self) -> Seq<Field> {
        seq![
            whole("seed", self.seed as i64, 0, 4294967295),
            any_real("frequency", self.frequency),
            any_real("amplitude", self.amplitude),
        ]
    }

    fn form(&self) -> (r: Vec<Field>)
        ensures
            r@ == self.fields(),
    {
        let mut out: Vec<Field> = Vec::new();
        out.push(make_whole("seed", self.seed as i64, 0, 4294967295));
        out.push(make_any_real("frequency", self.frequency));
        out.push(make_any_real("amplitude", self.amplitude));
        assert(out@ =~= self.fields());
        out
    }

    fn store(&mut self, at: usize, value: FieldValue)
        requires
            at < old(self).fields().len(),
            accepts(old(self).fields()[at as int], value),
        ensures
            final(self).fields() == with_value(old(self).fields(), at as int, value),
    {
        let ghost before = self.fields();
        match (at, value) {
            (0, FieldValue::Whole(v)) => {
                self.seed = v as u32;
            },
            (1, FieldValue::Real(v)) => {
                self.frequency = v;
            },
            (2, FieldValue::Real(v)) => {
                self.amplitude = v;
            },
            _ => {},
        }
        assert(self.fields() =~= with_value(before, at as int, value));
    }
}

impl ConstantMaterialParams {
    /// The fields of the parameter form, in order.
    pub open spec fn fields(self) -> Seq<Field> {
        seq![
            whole("material", self.material.0 as i64, 0, 65535),
        ]
    }

    fn form(&self) -> (r: Vec<Field>)
        ensures
            r@ == self.fields(),
    {
        let mut out: Vec<Field> = Vec::new();
        out.push(make_whole("material", self.material.0 as i64, 0, 65535));
        assert(out@ =~= self.fields());
        out
    }

    fn store(&mut self, at: usize, value: FieldValue)
        requires
            at < old(self).fields().len(),
            accepts(old(self).fields()[at as int], value),
        ensures
            final(self).fields() == with_value(old(self).fields(), at as int, value),
    {
        let ghost before = self.fields();
        match (at, value) {
            (0, FieldValue::Whole(v)) => {
                self.material = MaterialId(v as u16);
            },
            _ => {},
        }
        assert(self.fields() =~= with_value(before, at as int, value));
    }
}

impl LayerParams {
    /// The fields of the parameter form, in order.
    pub open spec fn fields(self) -> Seq<Field> {
        seq![
            whole("fill", self.fill.0 as i64, 0, 65535),
        ]
    }

    fn form(&self) -> (r: Vec<Field>)
        ensures
            r@ == self.fields(),
    {
        let mut out: Vec<Field> = Vec::new();
        out.push(make_whole("fill", self.fill.0 as i64, 0, 65535));
        assert(out@ =~= self.fields());
        out
    }

    fn store(&mut self, at: usize, value: FieldValue)
        requires
            at < old(self).fields().len(),
            accepts(old(self).fields()[at as int], value),
        ensures
            final(self).fields() == with_value(old(self).fields(), at as int, value),
            final(self).bands == old(self).bands,
    {
        let ghost before = self.fields();
        match (at, value) {
            (0, FieldValue::Whole(v)) => {
                self.fill = MaterialId(v as u16);
            },
            _ => {},
        }
        assert(self.fields() =~= with_value(before, at as int, value));
    }
}

impl JitteredGridParams {
    /// The fields of the parameter form, in order.
    pub open spec fn fields(self) -> Seq<Field> {
        seq![
            whole("seed", self.seed as i64, 0, 4294967295),
            real_within("cell size", self.cell_size, 0x3f00_0000, 0x4280_0000),
            real_within("jitter", self.jitter, 0x0000_0000, 0x3f80_0000),
            real_within("density", self.density, 0x0000_0000, 0x3f80_0000),
        ]
    }

    fn form(&self) -> (r: Vec<Field>)
        ensures
            r@ == self.fields(),
    {
        let mut out: Vec<Field> = Vec::new();
        out.push(make_whole("seed", self.seed as i64, 0, 4294967295));
        out.push(make_real_within("cell size", self.cell_size, 0x3f00_0000, 0x4280_0000));
        out.push(make_real_within("jitter", self.jitter, 0x0000_0000, 0x3f80_0000));
        out.push(make_real_within("density", self.density, 0x0000_0000, 0x3f80_0000));
        assert(out@ =~= self.fields());
        out
    }

    fn store(&mut self, at: usize, value: FieldValue)
        requires
            at < old(self).fields().len(),
            accepts(old(self).fields()[at as int], value),
        ensures
            final(self).fields() == with_value(old(self).fields(), at as int, value),
    {
        let ghost before = self.fields();
        match (at, value) {
            (0, FieldValue::Whole(v)) => {
                self.seed = v as u32;
            },
            (1, FieldValue::Real(v)) => {
                self.cell_size = v;
            },
            (2, FieldValue::Real(v)) => {
                self.jitter = v;
            },
            (3, FieldValue::Real(v)) => {
                self.density = v;
            },
            _ => {},
        }
        assert(self.fields() =~= with_value(before, at as int, value));
    }
}

impl PoissonDiskParams {
    /// The fields of the parameter form, in order.
    pub open spec fn fields(self) -> Seq<Field> {
        seq![
            whole("seed", self.seed as i64, 0, 4294967295),
            real_within("radius", self.radius, 0x3f00_0000, 0x4280_0000),
            whole("k", self.k as i64, 1, 64),
        ]
    }

    fn form(&self) -> (r: Vec<Field>)
        ensures
            r@ == self.fields(),
    {
        let mut out: Vec<Field> = Vec::new();
        out.push(make_whole("seed", self.seed as i64, 0, 4294967295));
        out.push(make_real_within("radius", self.radius, 0x3f00_0000, 0x4280_0000));
        out.push(make_whole("k", self.k as i64, 1, 64));
        assert(out@ =~= self.fields());
        out
    }

    fn store(&mut self, at: usize, value: FieldValue)
        requires
            at < old(self).fields().len(),
            accepts(old(self).fields()[at as int], value),
        ensures
            final(self).fields() == with_value(old(self).fields(), at as int, value),
    {
        let ghost before = self.fields();
        match (at, value) {
            (0, FieldValue::Whole(v)) => {
                self.seed = v as u32;
            },
            (1, FieldValue::Real(v)) => {
                self.radius = v;
            },
            (2, FieldValue::Whole(v)) => {
                self.k = v as u32;
            },
            _ => {},
        }
        assert(self.fields() =~= with_value(before, at as int, value));
    }
}

impl FindFlatParams {
    /// The fields of the parameter form, in order.
    pub open spec fn fields(self) -> Seq<Field> {
        seq![
            whole("max step", self.max_step as i64, 0, 16),
        ]
    }

    fn form(&self) -> (r: Vec<Field>)
        ensures
            r@ == self.fields(),
    {
        let mut out: Vec<Field> = Vec::new();
        out.push(make_whole("max step", self.max_step as i64, 0, 16));
        assert(out@ =~= self.fields());
        out
    }

    fn store(&mut self, at: usize, value: FieldValue)
        requires
            at < old(self).fields().len(),
            accepts(old(self).fields()[at as int], value),
        ensures
            final(self).fields() == with_value(old(self).fields(), at as int, value),
            final(self).on_materials == old(self).on_materials,
    {
        let ghost before = self.fields();
        match (at, value) {
            (0, FieldValue::Whole(v)) => {
                self.max_step = v as i32;
            },
            _ => {},
        }
        assert(self.fields() =~= with_value(before, at as int, value));
    }
}

impl PlaceTreeParams {
    /// The fields of the parameter form, in order.
    pub open spec fn fields(self) -> Seq<Field> {
        seq![
            whole("cell size", self.cell_size as i64, 4, 512),
            real_within("density", self.density, 0x0000_0000, 0x3f80_0000),
            whole("seed", self.seed as i64, 0, 4294967295),
            real_within("age", self.age, 0x0000_0000, 0x3f80_0000),
        ]
    }

    fn form(&self) -> (r: Vec<Field>)
        ensures
            r@ == self.fields(),
    {
        let mut out: Vec<Field> = Vec::new();
        out.push(make_whole("cell size", self.cell_size as i64, 4, 512));
        out.push(make_real_within("density", self.density, 0x0000_0000, 0x3f80_0000));
        out.push(make_whole("seed", self.seed as i64, 0, 4294967295));
        out.push(make_real_within("age", self.age, 0x0000_0000, 0x3f80_0000));
        assert(out@ =~= self.fields());
        out
    }

    fn store(&mut self, at: usize, value: FieldValue)
        requires
            at < old(self).fields().len(),
            accepts(old(self).fields()[at as int], value),
        ensures
            final(self).fields() == with_value(old(self).fields(), at as int, value),
            final(self).species == old(self).species,
            final(self).wood == old(self).wood,
            final(self).biomes == old(self).biomes,
            final(self).resolved == old(self).resolved,
    {
        let ghost before = self.fields();
        match (at, value) {
            (0, FieldValue::Whole(v)) => {
                self.cell_size = v as i32;
            },
            (1, FieldValue::Real(v)) => {
                self.density = v;
            },
            (2, FieldValue::Whole(v)) => {
                self.seed = v as u32;
            },
            (3, FieldValue::Real(v)) => {
                self.age = v;
            },
            _ => {},
        }
        assert(self.fields() =~= with_value(before, at as int, value));
    }
}

impl PlaceStructureParams {
    /// The fields of the parameter form, in order.
    pub open spec fn fields(self) -> Seq<Field> {
        seq![
            whole("cell size", self.cell_size as i64, 4, 512),
            real_within("density", self.density, 0x0000_0000, 0x3f80_0000),
            whole("seed", self.seed as i64, 0, 4294967295),
            choice("random yaw", FieldValue::Flag(self.random_yaw)),
            whole("surface offset", self.surface_offset as i64, (-8) as i64, 8),
        ]
    }

    fn form(&self) -> (r: Vec<Field>)
        ensures
            r@ == self.fields(),
    {
        let mut out: Vec<Field> = Vec::new();
        out.push(make_whole("cell size", self.cell_size as i64, 4, 512));
        out.push(make_real_within("density", self.density, 0x0000_0000, 0x3f80_0000));
        out.push(make_whole("seed", self.seed as i64, 0, 4294967295));
        out.push(make_choice("random yaw", FieldValue::Flag(self.random_yaw)));
        out.push(make_whole("surface offset", self.surface_offset as i64, (-8) as i64, 8));
        assert(out@ =~= self.fields());
        out
    }

    fn store(&mut self, at: usize, value: FieldValue)
        requires
            at < old(self).fields().len(),
            accepts(old(self).fields()[at as int], value),
        ensures
            final(self).fields() == with_value(old(self).fields(), at as int, value),
            final(self).blueprint == old(self).blueprint,
            final(self).biomes == old(self).biomes,
            final(self).canopy == old(self).canopy,
            final(self).resolved == old(self).resolved,
    {
        let ghost before = self.fields();
        match (at, value) {
            (0, FieldValue::Whole(v)) => {
                self.cell_size = v as i32;
            },
            (1, FieldValue::Real(v)) => {
                self.density = v;
            },
            (2, FieldValue::Whole(v)) => {
                self.seed = v as u32;
            },
            (3, FieldValue::Flag(v)) => {
                self.random_yaw = v;
            },
            (4, FieldValue::Whole(v)) => {
                self.surface_offset = v as i32;
            },
            _ => {},
        }
        assert(self.fields() =~= with_value(before, at as int, value));
    }
}

impl RiverParams {
    /// The fields of the parameter form, in order.
    pub open spec fn fields(self) -> Seq<Field> {
        seq![
            real_within("cell size", self.cell_size, 0x4180_0000, 0x4480_0000),
            whole("seed", self.seed as i64, 0, 4294967295),
            real_within("potential freq", self.potential_frequency, 0x38d1_b717, 0x3d4c_cccd),
            any_real("bed low", self.bed_low),
            any_real("high", self.bed_high),
            real_within("width min", self.min_width, 0x3f00_0000, 0x4280_0000),
            real_within("max", self.max_width, 0x3f00_0000, 0x4280_0000),
            real_within("depth", self.depth, 0x0000_0000, 0x4200_0000),
        ]
    }

    fn form(&self) -> (r: Vec<Field>)
        ensures
            r@ == self.fields(),
    {
        let mut out: Vec<Field> = Vec::new();
        out.push(make_real_within("cell size", self.cell_size, 0x4180_0000, 0x4480_0000));
        out.push(make_whole("seed", self.seed as i64, 0, 4294967295));
        out.push(make_real_within("potential freq", self.potential_frequency, 0x38d1_b717, 0x3d4c_cccd));
        out.push(make_any_real("bed low", self.bed_low));
        out.push(make_any_real("high", self.bed_high));
        out.push(make_real_within("width min", self.min_width, 0x3f00_0000, 0x4280_0000));
        out.push(make_real_within("max", self.max_width, 0x3f00_0000, 0x4280_0000));
        out.push(make_real_within("depth", self.depth, 0x0000_0000, 0x4200_0000));
        assert(out@ =~= self.fields());
        out
    }

    fn store(&mut self, at: usize, value: FieldValue)
        requires
            at < old(self).fields().len(),
            accepts(old(self).fields()[at as int], value),
        ensures
            final(self).fields() == with_value(old(self).fields(), at as int, value),
    {
        let ghost before = self.fields();
        match (at, value) {
            (0, FieldValue::Real(v)) => {
                self.cell_size = v;
            },
            (1, FieldValue::Whole(v)) => {
                self.seed = v as u32;
            },
            (2, FieldValue::Real(v)) => {
                self.potential_frequency = v;
            },
            (3, FieldValue::Real(v)) => {
                self.bed_low = v;
            },
            (4, FieldValue::Real(v)) => {
                self.bed_high = v;
            },
            (5, FieldValue::Real(v)) => {
                self.min_width = v;
            },
            (6, FieldValue::Real(v)) => {
                self.max_width = v;
            },
            (7, FieldValue::Real(v)) => {
                self.depth = v;
            },
            _ => {},
        }
        assert(self.fields() =~= with_value(before, at as int, value));
    }
}

impl YBandParams {
    /// The fields of the parameter form, in order.
    pub open spec fn fields(self) -> Seq<Field> {
        seq![
            any_real("min y", self.min),
            any_real("max y", self.max),
        ]
    }

    fn form(&self) -> (r: Vec<Field>)
        ensures
            r@ == self.fields(),
    {
        let mut out: Vec<Field> = Vec::new();
        out.push(make_any_real("min y", self.min));
        out.push(make_any_real("max y", self.max));
        assert(out@ =~= self.fields());
        out
    }

    fn store(&mut self, at: usize, value: FieldValue)
        requires
            at < old(self).fields().len(),
            accepts(old(self).fields()[at as int], value),
        ensures
            final(self).fields() == with_value(old(self).fields(), at as int, value),
    {
        let ghost before = self.fields();
        match (at, value) {
            (0, FieldValue::Real(v)) => {
                self.min = v;
            },
            (1, FieldValue::Real(v)) => {
                self.max = v;
            },
            _ => {},
        }
        assert(self.fields() =~= with_value(before, at as int, value));
    }
}

impl PoissonDistributionParams {
    /// The fields of the parameter form, in order.
    pub open spec fn fields(self) -> Seq<Field> {
        seq![
            whole("seed", self.seed as i64, 0, 4294967295),
            real_within("radius", self.radius, 0x3f00_0000, 0x4280_0000),
            real_within("jitter", self.jitter, 0x0000_0000, 0x3f80_0000),
        ]
    }

    fn form(&self) -> (r: Vec<Field>)
        ensures
            r@ == self.fields(),
    {
        let mut out: Vec<Field> = Vec::new();
        out.push(make_whole("seed", self.seed as i64, 0, 4294967295));
        out.push(make_real_within("radius", self.radius, 0x3f00_0000, 0x4280_0000));
        out.push(make_real_within("jitter", self.jitter, 0x0000_0000, 0x3f80_0000));
        assert(out@ =~= self.fields());
        out
    }

    fn store(&mut self, at: usize, value: FieldValue)
        requires
            at < old(self).fields().len(),
            accepts(old(self).fields()[at as int], value),
        ensures
            final(self).fields() == with_value(old(self).fields(), at as int, value),
    {
        let ghost before = self.fields();
        match (at, value) {
            (0, FieldValue::Whole(v)) => {
                self.seed = v as u32;
            },
            (1, FieldValue::Real(v)) => {
                self.radius = v;
            },
            (2, FieldValue::Real(v)) => {
                self.jitter = v;
            },
            _ => {},
        }
        assert(self.fields() =~= with_value(before, at as int, value));
    }
}

impl SurfaceFilterParams {
    /// The fields of the parameter form, in order.
    pub open spec fn fields(self) -> Seq<Field> {
        seq![
            real_within("max slope", self.max_slope, 0x0000_0000, 0x4120_0000),
            any_real("min height", self.min_height),
            any_real("max height", self.max_height),
        ]
    }

    fn form(&self) -> (r: Vec<Field>)
        ensures
            r@ == self.fields(),
    {
        let mut out: Vec<Field> = Vec::new();
        out.push(make_real_within("max slope", self.max_slope, 0x0000_0000, 0x4120_0000));
        out.push(make_any_real("min height", self.min_height));
        out.push(make_any_real("max height", self.max_height));
        assert(out@ =~= self.fields());
        out
    }

    fn store(&mut self, at: usize, value: FieldValue)
        requires
            at < old(self).fields().len(),
            accepts(old(self).fields()[at as int], value),
        ensures
            final(self).fields() == with_value(old(self).fields(), at as int, value),
            final(self).materials == old(self).materials,
    {
        let ghost before = self.fields();
        match (at, value) {
            (0, FieldValue::Real(v)) => {
                self.max_slope = v;
            },
            (1, FieldValue::Real(v)) => {
                self.min_height = v;
            },
            (2, FieldValue::Real(v)) => {
                self.max_height = v;
            },
            _ => {},
        }
        assert(self.fields() =~= with_value(before, at as int, value));
    }
}

impl BiomeContextMaskParams {
    /// The fields of the parameter form, in order.
    pub open spec fn fields(self) -> Seq<Field> {
        seq![
            whole("biome", self.biome as i64, 0, 65535),
        ]
    }

    fn form(&self) -> (r: Vec<Field>)
        ensures
            r@ == self.fields(),
    {
        let mut out: Vec<Field> = Vec::new();
        out.push(make_whole("biome", self.biome as i64, 0, 65535));
        assert(out@ =~= self.fields());
        out
    }

    fn store(&mut self, at: usize, value: FieldValue)
        requires
            at < old(self).fields().len(),
            accepts(old(self).fields()[at as int], value),
        ensures
            final(self).fields() == with_value(old(self).fields(), at as int, value),
    {
        let ghost before = self.fields();
        match (at, value) {
            (0, FieldValue::Whole(v)) => {
                self.biome = v as u16;
            },
            _ => {},
        }
        assert(self.fields() =~= with_value(before, at as int, value));
    }
}

impl SpeciesPickerParams {
    /// The fields of the parameter form, in order.
    pub open spec fn fields(self) -> Seq<Field> {
        seq![
            whole("seed", self.seed as i64, 0, 4294967295),
        ]
    }

    fn form(&self) -> (r: Vec<Field>)
        ensures
            r@ == self.fields(),
    {
        let mut out: Vec<Field> = Vec::new();
        out.push(make_whole("seed", self.seed as i64, 0, 4294967295));
        assert(out@ =~= self.fields());
        out
    }

    fn store(&mut self, at: usize, value: FieldValue)
        requires
            at < old(self).fields().len(),
            accepts(old(self).fields()[at as int], value),
        ensures
            final(self).fields() == with_value(old(self).fields(), at as int, value),
            final(self).weights == old(self).weights,
    {
        let ghost before = self.fields();
        match (at, value) {
            (0, FieldValue::Whole(v)) => {
                self.seed = v as u32;
            },
            _ => {},
        }
        assert(self.fields() =~= with_value(before, at as int, value));
    }
}

impl PaintDensityParams {
    /// The fields of the parameter form, in order.
    pub open spec fn fields(self) -> Seq<Field> {
        seq![
            whole("layer id", self.layer_id as i64, 0, 65535),
            whole("species", self.species as i64, 0, 255),
            whole("density", self.density as i64, 0, 255),
            whole("tint", self.tint as i64, 0, 255),
        ]
    }

    fn form(&self) -> (r: Vec<Field>)
        ensures
            r@ == self.fields(),
    {
        let mut out: Vec<Field> = Vec::new();
        out.push(make_whole("layer id", self.layer_id as i64, 0, 65535));
        out.push(make_whole("species", self.species as i64, 0, 255));
        out.push(make_whole("density", self.density as i64, 0, 255));
        out.push(make_whole("tint", self.tint as i64, 0, 255));
        assert(out@ =~= self.fields());
        out
    }

    fn store(&mut self, at: usize, value: FieldValue)
        requires
            at < old(self).fields().len(),
            accepts(old(self).fields()[at as int], value),
        ensures
            final(self).fields() == with_value(old(self).fields(), at as int, value),
    {
        let ghost before = self.fields();
        match (at, value) {
            (0, FieldValue::Whole(v)) => {
                self.layer_id = v as u16;
            },
            (1, FieldValue::Whole(v)) => {
                self.species = v as u8;
            },
            (2, FieldValue::Whole(v)) => {
                self.density = v as u8;
            },
            (3, FieldValue::Whole(v)) => {
                self.tint = v as u8;
            },
            _ => {},
        }
        assert(self.fields() =~= with_value(before, at as int, value));
    }
}

impl ScatterPlaceParams {
    /// The fields of the parameter form, in order.
    pub open spec fn fields(self) -> Seq<Field> {
        seq![
            whole("seed", self.seed as i64, 0, 4294967295),
            whole("type id", self.type_id as i64, 0, 65535),
            whole("prefab id", self.prefab_id as i64, 0, 4294967295),
        ]
    }

    fn form(&self) -> (r: Vec<Field>)
        ensures
            r@ == self.fields(),
    {
        let mut out: Vec<Field> = Vec::new();
        out.push(make_whole("seed", self.seed as i64, 0, 4294967295));
        out.push(make_whole("type id", self.type_id as i64, 0, 65535));
        out.push(make_whole("prefab id", self.prefab_id as i64, 0, 4294967295));
        assert(out@ =~= self.fields());
        out
    }

    fn store(&mut self, at: usize, value: FieldValue)
        requires
            at < old(self).fields().len(),
            accepts(old(self).fields()[at as int], value),
        ensures
            final(self).fields() == with_value(old(self).fields(), at as int, value),
    {
        let ghost before = self.fields();
        match (at, value) {
            (0, FieldValue::Whole(v)) => {
                self.seed = v as u32;
            },
            (1, FieldValue::Whole(v)) => {
                self.type_id = v as u16;
            },
            (2, FieldValue::Whole(v)) => {
                self.prefab_id = v as u32;
            },
            _ => {},
        }
        assert(self.fields() =~= with_value(before, at as int, value));
    }
}

impl BiomeParamParams {
    /// The fields of the parameter form, in order.
    pub open spec fn fields(self) -> Seq<Field> {
        seq![
            any_real("default", self.default),
        ]
    }

    fn form(&self) -> (r: Vec<Field>)
        ensures
            r@ == self.fields(),
    {
        let mut out: Vec<Field> = Vec::new();
        out.push(make_any_real("default", self.default));
        assert(out@ =~= self.fields());
        out
    }

    fn store(&mut self, at: usize, value: FieldValue)
        requires
            at < old(self).fields().len(),
            accepts(old(self).fields()[at as int], value),
        ensures
            final(self).fields() == with_value(old(self).fields(), at as int, value),
            final(self).name == old(self).name,
    {
        let ghost before = self.fields();
        match (at, value) {
            (0, FieldValue::Real(v)) => {
                self.default = v;
            },
            _ => {},
        }
        assert(self.fields() =~= with_value(before, at as int, value));
    }
}

impl WorldParamParams {
    /// The fields of the parameter form, in order.
    pub open spec fn fields(self) -> Seq<Field> {
        seq![
            any_real("default", self.default),
        ]
    }

    fn form(&self) -> (r: Vec<Field>)
        ensures
            r@ == self.fields(),
    {
        let mut out: Vec<Field> = Vec::new();
        out.push(make_any_real("default", self.default));
        assert(out@ =~= self.fields());
        out
    }

    fn store(&mut self, at: usize, value: FieldValue)
        requires
            at < old(self).fields().len(),
            accepts(old(self).fields()[at as int], value),
        ensures
            final(self).fields() == with_value(old(self).fields(), at as int, value),
            final(self).name == old(self).name,
    {
        let ghost before = self.fields();
        match (at, value) {
            (0, FieldValue::Real(v)) => {
                self.default = v;
            },
            _ => {},
        }
        assert(self.fields() =~= with_value(before, at as int, value));
    }
}

impl NodeKind {
    /// The fields of the node's parameter form, in order.
    pub open spec fn fields(self) -> Seq<Field> {
        match self {
            NodeKind::Perlin2D(p) => p.fields(),
            NodeKind::Perlin3D(p) => p.fields(),
            NodeKind::Simplex2D(p) => p.fields(),
            NodeKind::Simplex3D(p) => p.fields(),
            NodeKind::Constant(p) => p.fields(),
            NodeKind::WorldAxis(p) => p.fields(),
            NodeKind::YBand(p) => p.fields(),
            NodeKind::Clamp(p) => p.fields(),
            NodeKind::Remap(p) => p.fields(),
            NodeKind::Threshold(p) => p.fields(),
            NodeKind::DomainWarp(p) => p.fields(),
            NodeKind::ConstantMaterial(p) => p.fields(),
            NodeKind::Layer(p) => p.fields(),
            NodeKind::JitteredGrid(p) => p.fields(),
            NodeKind::PoissonDisk(p) => p.fields(),
            NodeKind::FindFlat(p) => p.fields(),
            NodeKind::PlaceTree(p) => p.fields(),
            NodeKind::River(p) => p.fields(),
            NodeKind::PlaceStructure(p) => p.fields(),
            NodeKind::SurfaceNoise(p) => p.fields(),
            NodeKind::PoissonDistribution(p) => p.fields(),
            NodeKind::SurfaceFilter(p) => p.fields(),
            NodeKind::BiomeContextMask(p) => p.fields(),
            NodeKind::SpeciesPicker(p) => p.fields(),
            NodeKind::PaintDensity(p) => p.fields(),
            NodeKind::ScatterPlace(p) => p.fields(),
            NodeKind::BiomeParam(p) => p.fields(),
            NodeKind::WorldParam(p) => p.fields(),
            _ => Seq::empty(),
        }
    }

    /// Whether two nodes are of one kind and agree on what is not a field of
    /// the form.
    pub open spec fn agrees_beside_fields(self, other: NodeKind) -> bool {
        match (self, other) {
            (NodeKind::Perlin2D(_), NodeKind::Perlin2D(_)) => true,
            (NodeKind::Perlin3D(_), NodeKind::Perlin3D(_)) => true,
            (NodeKind::Simplex2D(_), NodeKind::Simplex2D(_)) => true,
            (NodeKind::Simplex3D(_), NodeKind::Simplex3D(_)) => true,
            (NodeKind::Constant(_), NodeKind::Constant(_)) => true,
            (NodeKind::WorldAxis(_), NodeKind::WorldAxis(_)) => true,
            (NodeKind::YBand(_), NodeKind::YBand(_)) => true,
            (NodeKind::Clamp(_), NodeKind::Clamp(_)) => true,
            (NodeKind::Remap(_), NodeKind::Remap(_)) => true,
            (NodeKind::Threshold(_), NodeKind::Threshold(_)) => true,
            (NodeKind::DomainWarp(_), NodeKind::DomainWarp(_)) => true,
            (NodeKind::ConstantMaterial(_), NodeKind::ConstantMaterial(_)) => true,
            (NodeKind::Layer(a), NodeKind::Layer(b)) => a.bands == b.bands,
            (NodeKind::JitteredGrid(_), NodeKind::JitteredGrid(_)) => true,
            (NodeKind::PoissonDisk(_), NodeKind::PoissonDisk(_)) => true,
            (NodeKind::FindFlat(a), NodeKind::FindFlat(b)) => a.on_materials == b.on_materials,
            (NodeKind::PlaceTree(a), NodeKind::PlaceTree(b)) => a.species == b.species && a.wood == b.wood && a.biomes == b.biomes && a.resolved == b.resolved,
            (NodeKind::River(_), NodeKind::River(_)) => true,
            (NodeKind::PlaceStructure(a), NodeKind::PlaceStructure(b)) => a.blueprint == b.blueprint && a.biomes == b.biomes && a.canopy == b.canopy && a.resolved == b.resolved,
            (NodeKind::SurfaceNoise(_), NodeKind::SurfaceNoise(_)) => true,
            (NodeKind::PoissonDistribution(_), NodeKind::PoissonDistribution(_)) => true,
            (NodeKind::SurfaceFilter(a), NodeKind::SurfaceFilter(b)) => a.materials == b.materials,
            (NodeKind::BiomeContextMask(_), NodeKind::BiomeContextMask(_)) => true,
            (NodeKind::SpeciesPicker(a), NodeKind::SpeciesPicker(b)) => a.weights == b.weights,
            (NodeKind::PaintDensity(_), NodeKind::PaintDensity(_)) => true,
            (NodeKind::ScatterPlace(_), NodeKind::ScatterPlace(_)) => true,
            (NodeKind::BiomeParam(a), NodeKind::BiomeParam(b)) => a.name == b.name,
            (NodeKind::WorldParam(a), NodeKind::WorldParam(b)) => a.name == b.name,
            _ => self == other,
        }
    }

    /// The fields of the node's parameter form, in order.
    pub fn params_form(&self) -> (r: Vec<Field>)
        ensures
            r@ == self.fields(),
    {
        match self {
            NodeKind::Perlin2D(p) => p.form(),
            NodeKind::Perlin3D(p) => p.form(),
            NodeKind::Simplex2D(p) => p.form(),
            NodeKind::Simplex3D(p) => p.form(),
            NodeKind::Constant(p) => p.form(),
            NodeKind::WorldAxis(p) => p.form(),
            NodeKind::YBand(p) => p.form(),
            NodeKind::Clamp(p) => p.form(),
            NodeKind::Remap(p) => p.form(),
            NodeKind::Threshold(p) => p.form(),
            NodeKind::DomainWarp(p) => p.form(),
            NodeKind::ConstantMaterial(p) => p.form(),
            NodeKind::Layer(p) => p.form(),
            NodeKind::JitteredGrid(p) => p.form(),
            NodeKind::PoissonDisk(p) => p.form(),
            NodeKind::FindFlat(p) => p.form(),
            NodeKind::PlaceTree(p) => p.form(),
            NodeKind::River(p) => p.form(),
            NodeKind::PlaceStructure(p) => p.form(),
            NodeKind::SurfaceNoise(p) => p.form(),
            NodeKind::PoissonDistribution(p) => p.form(),
            NodeKind::SurfaceFilter(p) => p.form(),
            NodeKind::BiomeContextMask(p) => p.form(),
            NodeKind::SpeciesPicker(p) => p.form(),
            NodeKind::PaintDensity(p) => p.form(),
            NodeKind::ScatterPlace(p) => p.form(),
            NodeKind::BiomeParam(p) => p.form(),
            NodeKind::WorldParam(p) => p.form(),
            _ => {
                let none: Vec<Field> = Vec::new();
                assert(none@ =~= self.fields());
                none
            },
        }
    }

    fn store(&mut self, at: usize, value: FieldValue)
        requires
            at < old(self).fields().len(),
            accepts(old(self).fields()[at as int], value),
        ensures
            final(self).fields() == with_value(old(self).fields(), at as int, value),
            old(self).agrees_beside_fields(*final(self)),
    {
        match self {
            NodeKind::Perlin2D(p) => p.store(at, value),
            NodeKind::Perlin3D(p) => p.store(at, value),
            NodeKind::Simplex2D(p) => p.store(at, value),
            NodeKind::Simplex3D(p) => p.store(at, value),
            NodeKind::Constant(p) => p.store(at, value),
            NodeKind::WorldAxis(p) => p.store(at, value),
            NodeKind::YBand(p) => p.store(at, value),
            NodeKind::Clamp(p) => p.store(at, value),
            NodeKind::Remap(p) => p.store(at, value),
            NodeKind::Threshold(p) => p.store(at, value),
            NodeKind::DomainWarp(p) => p.store(at, value),
            NodeKind::ConstantMaterial(p) => p.store(at, value),
            NodeKind::Layer(p) => p.store(at, value),
            NodeKind::JitteredGrid(p) => p.store(at, value),
            NodeKind::PoissonDisk(p) => p.store(at, value),
            NodeKind::FindFlat(p) => p.store(at, value),
            NodeKind::PlaceTree(p) => p.store(at, value),
            NodeKind::River(p) => p.store(at, value),
            NodeKind::PlaceStructure(p) => p.store(at, value),
            NodeKind::SurfaceNoise(p) => p.store(at, value),
            NodeKind::PoissonDistribution(p) => p.store(at, value),
            NodeKind::SurfaceFilter(p) => p.store(at, value),
            NodeKind::BiomeContextMask(p) => p.store(at, value),
            NodeKind::SpeciesPicker(p) => p.store(at, value),
            NodeKind::PaintDensity(p) => p.store(at, value),
            NodeKind::ScatterPlace(p) => p.store(at, value),
            NodeKind::BiomeParam(p) => p.store(at, value),
            NodeKind::WorldParam(p) => p.store(at, value),
            _ => {},
        }
    }

    /// Put a value in a field of the parameter form, held to the field's limits.
    /// Returns whether the field changed; a field that does not exist and a
    /// value of another sort change nothing.
    pub fn set_field(&mut self, at: usize, value: FieldValue) -> (r: bool)
        ensures
            r == (at < old(self).fields().len() && old(self).fields()[at as int].value.same_sort(
                value,
            ) && value.held(old(self).fields()[at as int].limits) != old(self).fields()[at as int].value),
            r ==> final(self).fields() == with_value(
                old(self).fields(),
                at as int,
                value.held(old(self).fields()[at as int].limits),
            ),
            r ==> old(self).agrees_beside_fields(*final(self)),
            !r ==> *final(self) == *old(self),
    {
        let form = self.params_form();
        if at >= form.len() {
            return false;
        }
        let field = form[at];
        if !field.value.is_same_sort(value) {
            return false;
        }
        let held = value.hold(field.limits);
        if held == field.value {
            return false;
        }
        proof {
            lemma_limits_are_proper(*self, at as int);
        }
        self.store(at, held);
        true
    }
}

/// Whether limits leave room: the lower bound is not above the upper.
pub open spec fn proper(limits: Limits) -> bool {
    match limits {
        Limits::Free => true,
        Limits::Reals(lo, hi) => !lo.is_nan() && !hi.is_nan() && hi.at_least(lo),
        Limits::Wholes(lo, hi) => lo <= hi,
    }
}

proof fn lemma_limits_are_proper(kind: NodeKind, at: int)
    requires
        0 <= at < kind.fields().len(),
    ensures
        proper(kind.fields()[at].limits),
{
}

/// A value held to limits that leave room is within them: holding it again
/// changes nothing.
pub proof fn holding_is_final(value: FieldValue, limits: Limits)
    requires
        proper(limits),
    ensures
        value.held(limits).held(limits) == value.held(limits),
        value.same_sort(value.held(limits)),
{
}

/// What a form holds after an edit, the field accepts as it stands.
pub proof fn edits_stay_within_limits(kind: NodeKind, at: int, value: FieldValue)
    requires
        0 <= at < kind.fields().len(),
        kind.fields()[at].value.same_sort(value),
    ensures
        accepts(kind.fields()[at], value.held(kind.fields()[at].limits)),
{
    lemma_limits_are_proper(kind, at);
    holding_is_final(value, kind.fields()[at].limits);
}

} // verus!
