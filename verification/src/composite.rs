//! Composing the biomes of a chunk into one terrain.
//!
//! Every column belongs to one biome. Near a border its density is blended with
//! the neighbor's; its material always comes from its own biome, laid out below
//! the blended surface.
use crate::border::BorderScan;
use crate::chunk::{cell_index, cell_index_is_onto, column_index, ChunkBuffer};
use crate::column::{ColumnField, IdColumn};
use crate::field::ScalarField;
use crate::fills::top_positive;
use crate::library_kernel::{layered, surface_layering};
use crate::scalar::Single;
use crate::voxel::{MaterialId, Voxel};
use vstd::prelude::*;

verus! {

/// How a biome assigns material to its density.
#[derive(Debug)]
pub enum BiomeMaterialRule {
    /// Bands of a material and a thickness, top down, and the material below.
    Layer {
        /// The bands.
        bands: Vec<(MaterialId, u32)>,
        /// The material below the last.
        fill: MaterialId,
    },
    /// One material.
    Uniform(MaterialId),
    /// The biome's computed material field, moved along with the surface.
    Field,
}

/// How a biome assigns material, as values.
pub enum RuleView {
    /// Bands of a material and a thickness, top down, and the material below.
    Layer {
        /// The bands.
        bands: Seq<(MaterialId, u32)>,
        /// The material below the last.
        fill: MaterialId,
    },
    /// One material.
    Uniform(MaterialId),
    /// The biome's computed material field, moved along with the surface.
    Field,
}

impl BiomeMaterialRule {
    /// The rule, as values.
    pub open spec fn view(&self) -> RuleView {
        match self {
            BiomeMaterialRule::Layer { bands, fill } => RuleView::Layer {
                bands: bands@,
                fill: *fill,
            },
            BiomeMaterialRule::Uniform(m) => RuleView::Uniform(*m),
            BiomeMaterialRule::Field => RuleView::Field,
        }
    }
}

/// How deep bands reach together.
pub open spec fn total_depth(bands: Seq<(MaterialId, u32)>) -> int
    decreases bands.len(),
{
    if bands.len() == 0 {
        0
    } else {
        bands[0].1 + total_depth(bands.drop_first())
    }
}

/// How far above a chunk a rule cares about: as far as its bands reach.
pub open spec fn depth_of_interest(rule: RuleView) -> int {
    match rule {
        RuleView::Layer { bands, .. } => total_depth(bands),
        _ => 0,
    }
}

/// How many densities in a row, from the first on, are not at most zero.
pub open spec fn solid_run(samples: Seq<Single>) -> int
    decreases samples.len(),
{
    if samples.len() == 0 || (Single { bits: 0 }).at_least(samples[0]) {
        0
    } else {
        1 + solid_run(samples.drop_first())
    }
}

/// How far ground that is solid at the top of a chunk goes on above it, as far as
/// the rule cares.
pub open spec fn continuation(rule: RuleView, samples: Seq<Single>) -> int {
    if solid_run(samples) <= depth_of_interest(rule) {
        solid_run(samples)
    } else {
        depth_of_interest(rule)
    }
}

/// A biome's density, material and rule, as values.
pub struct LayerView {
    /// The biome.
    pub id: u16,
    /// Its density.
    pub density: Seq<Single>,
    /// Its material field.
    pub material: Seq<MaterialId>,
    /// Its rule.
    pub rule: RuleView,
}

/// A biome's density, material and rule.
#[derive(Clone, Copy)]
pub struct TerrainLayer<'a> {
    /// The biome.
    pub id: u16,
    /// Its density.
    pub density: &'a ScalarField,
    /// Its material field.
    pub material: &'a ChunkBuffer<MaterialId>,
    /// Its rule.
    pub rule: &'a BiomeMaterialRule,
}

impl<'a> TerrainLayer<'a> {
    /// The layer, as values.
    pub open spec fn view(&self) -> LayerView {
        LayerView {
            id: self.id,
            density: self.density@,
            material: self.material@,
            rule: self.rule@,
        }
    }
}

/// The layers, as values.
pub open spec fn layer_views(layers: Seq<TerrainLayer<'_>>) -> Seq<LayerView> {
    Seq::new(layers.len(), |i: int| layers[i]@)
}

/// Position of the first layer of a biome, from `from` on; the length if none.
pub open spec fn layer_of(layers: Seq<LayerView>, id: u16, from: int) -> int
    decreases layers.len() - from,
{
    if from < 0 || from >= layers.len() || layers[from].id == id {
        from
    } else {
        layer_of(layers, id, from + 1)
    }
}

/// The biome of a column, where there may be only one everywhere.
pub open spec fn column_biome(biomes: Option<Seq<u16>>, x: int, z: int) -> u16 {
    match biomes {
        Some(b) => b[column_index(x, z)],
        None => 0,
    }
}

/// An integer held to the heights of a chunk.
pub open spec fn held_to_chunk(y: int) -> int {
    if y < 0 {
        0
    } else if y > 31 {
        31
    } else {
        y
    }
}

/// The material of a solid cell, given its column's blended surface `cs` and how
/// far the ground goes on above the chunk.
pub open spec fn composed_material(
    layer: LayerView,
    x: int,
    y: int,
    z: int,
    cs: int,
    above: int,
) -> MaterialId {
    match layer.rule {
        RuleView::Layer { bands, fill } => layered(cs - y + above, bands, fill),
        RuleView::Uniform(m) => m,
        RuleView::Field => {
            let shift = match top_positive(layer.density, x, z, 31) {
                Some(own) => own - cs,
                None => 0,
            };
            layer.material[cell_index(x, held_to_chunk(y + shift), z)]
        },
    }
}

/// A cell of the composed terrain: air without a layer for the column's biome or
/// without blended density, else a cube of its own biome's material.
pub open spec fn composed_cell(
    layers: Seq<LayerView>,
    biomes: Option<Seq<u16>>,
    blended: Seq<Single>,
    above: Seq<Vec<Single>>,
    x: int,
    y: int,
    z: int,
) -> Voxel {
    let at = layer_of(layers, column_biome(biomes, x, z), 0);
    if at >= layers.len() || !blended[cell_index(x, y, z)].positive() {
        Voxel::nothing()
    } else {
        match top_positive(blended, x, z, 31) {
            None => Voxel::nothing(),
            Some(cs) => {
                let more = if cs == 31 {
                    continuation(layers[at].rule, above[column_index(x, z)]@)
                } else {
                    0
                };
                Voxel::cube_of(composed_material(layers[at], x, y, z, cs, more))
            },
        }
    }
}

/// The composed terrain.
pub open spec fn composed(
    layers: Seq<LayerView>,
    biomes: Option<Seq<u16>>,
    blended: Seq<Single>,
    above: Seq<Vec<Single>>,
) -> Seq<Voxel> {
    Seq::new(
        32768,
        |i: int|
            composed_cell(layers, biomes, blended, above, i % 32, (i / 32) % 32, i / 1024),
    )
}

fn biome_of(biomes: Option<&IdColumn>, x: usize, z: usize) -> (r: u16)
    requires
        x < 32,
        z < 32,
    ensures
        r == column_biome(ids_of(biomes), x as int, z as int),
{
    match biomes {
        Some(b) => b.get(x, z),
        None => 0,
    }
}

/// The biomes of columns, as values.
pub open spec fn ids_of(biomes: Option<&IdColumn>) -> Option<Seq<u16>> {
    match biomes {
        Some(b) => Some(b@),
        None => None,
    }
}

fn find_layer(layers: &Vec<TerrainLayer<'_>>, id: u16) -> (r: usize)
    ensures
        r == layer_of(layer_views(layers@), id, 0),
        r <= layers@.len(),
{
    let mut k: usize = 0;
    while k < layers.len() && layers[k].id != id
        invariant
            k <= layers@.len(),
            layer_of(layer_views(layers@), id, 0) == layer_of(layer_views(layers@), id, k as int),
        decreases layers@.len() - k,
    {
        assert(layer_views(layers@)[k as int] == layers@[k as int]@);
        k = k + 1;
    }
    if k < layers.len() {
        assert(layer_views(layers@)[k as int] == layers@[k as int]@);
    }
    k
}

fn run_of_solid(samples: &Vec<Single>) -> (r: usize)
    ensures
        r == solid_run(samples@),
        r <= samples@.len(),
{
    let mut k: usize = 0;
    assert(samples@.skip(0) =~= samples@);
    while k < samples.len() && !Single::zero().ge(samples[k])
        invariant
            k <= samples@.len(),
            solid_run(samples@) == k + solid_run(samples@.skip(k as int)),
        decreases samples@.len() - k,
    {
        assert(samples@.skip(k as int)[0] == samples@[k as int]);
        assert(samples@.skip(k as int).drop_first() =~= samples@.skip(k + 1));
        k = k + 1;
    }
    if k < samples.len() {
        assert(samples@.skip(k as int)[0] == samples@[k as int]);
    }
    k
}

fn capped_by_bands(bands: &Vec<(MaterialId, u32)>, n: usize) -> (r: usize)
    ensures
        r <= n,
        r == if n <= total_depth(bands@) {
            n as int
        } else {
            total_depth(bands@)
        },
{
    let mut left: usize = n;
    let mut k: usize = 0;
    assert(bands@.skip(0) =~= bands@);
    while k < bands.len()
        invariant
            k <= bands@.len(),
            left <= n,
            total_depth(bands@) == (n - left) + total_depth(bands@.skip(k as int)),
        decreases bands@.len() - k,
    {
        let thickness: u32 = bands[k].1;
        proof {
            assert(bands@.skip(k as int)[0] == bands@[k as int]);
            assert(bands@.skip(k as int).drop_first() =~= bands@.skip(k + 1));
            lemma_depth_not_negative(bands@.skip(k + 1));
        }
        if thickness as usize >= left {
            return n;
        }
        left = left - thickness as usize;
        k = k + 1;
    }
    n - left
}

proof fn lemma_depth_not_negative(bands: Seq<(MaterialId, u32)>)
    ensures
        total_depth(bands) >= 0,
    decreases bands.len(),
{
    if bands.len() > 0 {
        lemma_depth_not_negative(bands.drop_first());
    }
}

proof fn lemma_run_not_negative(samples: Seq<Single>)
    ensures
        0 <= solid_run(samples) <= samples.len(),
    decreases samples.len(),
{
    if samples.len() > 0 {
        lemma_run_not_negative(samples.drop_first());
    }
}

/// How far ground that is solid at the top of a chunk goes on above it, as far as
/// the rule cares. `samples` are the blended densities above, from the bottom up,
/// as far as they could be had.
pub fn continue_above(rule: &BiomeMaterialRule, samples: &Vec<Single>) -> (r: usize)
    ensures
        r == continuation(rule@, samples@),
        r <= samples@.len(),
{
    let run: usize = run_of_solid(samples);
    match rule {
        BiomeMaterialRule::Layer { bands, .. } => capped_by_bands(bands, run),
        _ => 0,
    }
}

/// Whether the density of one more cell above a chunk can still matter: the ground
/// is solid as far as it was looked at, and the bands reach higher.
pub open spec fn undecided(rule: RuleView, samples: Seq<Single>) -> bool {
    match rule {
        RuleView::Layer { bands, .. } => solid_run(samples) == samples.len() && samples.len()
            < total_depth(bands),
        _ => false,
    }
}

/// Whether to look one cell higher above a chunk, after the cells looked at so far.
pub fn look_higher(rule: &BiomeMaterialRule, samples: &Vec<Single>) -> (r: bool)
    requires
        samples@.len() < usize::MAX,
    ensures
        r == undecided(rule@, samples@),
{
    let n: usize = samples.len();
    match rule {
        BiomeMaterialRule::Layer { bands, .. } => run_of_solid(samples) == n && capped_by_bands(
            bands,
            n + 1,
        ) == n + 1,
        _ => false,
    }
}

proof fn lemma_run_goes_on(samples: Seq<Single>, more: Seq<Single>)
    ensures
        solid_run(samples + more) == if solid_run(samples) < samples.len() {
            solid_run(samples)
        } else {
            samples.len() + solid_run(more)
        },
    decreases samples.len(),
{
    if samples.len() == 0 {
        assert(samples + more =~= more);
    } else {
        assert((samples + more).drop_first() =~= samples.drop_first() + more);
        assert((samples + more)[0] == samples[0]);
        lemma_run_goes_on(samples.drop_first(), more);
        lemma_run_not_negative(samples.drop_first());
    }
}

/// Once nothing is undecided, looking higher changes nothing.
pub proof fn looking_higher_changes_nothing(
    rule: RuleView,
    samples: Seq<Single>,
    more: Seq<Single>,
)
    requires
        !undecided(rule, samples),
    ensures
        continuation(rule, samples + more) == continuation(rule, samples),
{
    lemma_run_goes_on(samples, more);
    lemma_run_not_negative(samples);
    lemma_run_not_negative(more);
}

fn surface_of(field: &ScalarField, x: usize, z: usize) -> (r: Option<usize>)
    requires
        x < 32,
        z < 32,
    ensures
        match r {
            Some(y) => top_positive(field@, x as int, z as int, 31) == Some(y as int) && y < 32,
            None => top_positive(field@, x as int, z as int, 31) is None,
        },
{
    let mut left: usize = 32;
    while left > 0
        invariant
            left <= 32,
            x < 32,
            z < 32,
            top_positive(field@, x as int, z as int, 31) == top_positive(
                field@,
                x as int,
                z as int,
                left - 1,
            ),
        decreases left,
    {
        if field.get(x, left - 1, z).is_positive() {
            return Some(left - 1);
        }
        left = left - 1;
    }
    None
}

fn material_of(
    layer: &TerrainLayer<'_>,
    x: usize,
    y: usize,
    z: usize,
    cs: usize,
    above: usize,
) -> (r: MaterialId)
    requires
        x < 32,
        y <= cs,
        cs < 32,
        z < 32,
        above <= 0xffff_ffe0,
    ensures
        r == composed_material(
            layer@,
            x as int,
            y as int,
            z as int,
            cs as int,
            above as int,
        ),
{
    match layer.rule {
        BiomeMaterialRule::Layer { bands, fill } => surface_layering(
            (cs - y + above) as u32,
            bands.as_slice(),
            *fill,
        ),
        BiomeMaterialRule::Uniform(m) => *m,
        BiomeMaterialRule::Field => {
            let shift: i32 = match surface_of(layer.density, x, z) {
                Some(own) => own as i32 - cs as i32,
                None => 0,
            };
            let moved: i32 = y as i32 + shift;
            let src: usize = if moved < 0 {
                0
            } else if moved > 31 {
                31
            } else {
                moved as usize
            };
            layer.material.get(x, src, z)
        },
    }
}

proof fn lemma_surface_tops(density: Seq<Single>, x: int, z: int, from: int, y: int)
    requires
        0 <= y <= from,
        density[cell_index(x, y, z)].positive(),
    ensures
        top_positive(density, x, z, from) is Some,
        y <= top_positive(density, x, z, from).unwrap() <= from,
    decreases from,
{
    if !density[cell_index(x, from, z)].positive() {
        lemma_surface_tops(density, x, z, from - 1, y);
    }
}

/// Compose the terrain of a chunk. `layers` hold the biomes of the chunk;
/// `blended` is each column's density after blending; `above` holds for each
/// column the blended densities over the chunk, from the bottom up, as far as the
/// bands of the column's biome reach, and is read where the top cell is solid.
pub fn composite_terrain(
    layers: &Vec<TerrainLayer<'_>>,
    biomes: Option<&IdColumn>,
    blended: &ScalarField,
    above: &Vec<Vec<Single>>,
) -> (r: ChunkBuffer<Voxel>)
    requires
        above@.len() == 1024,
        forall|i: int| 0 <= i < 1024 ==> (#[trigger] above@[i])@.len() <= 0xffff_ffe0,
    ensures
        r@ == composed(layer_views(layers@), ids_of(biomes), blended@, above@),
{
    let ghost whole = composed(layer_views(layers@), ids_of(biomes), blended@, above@);
    let mut cells: Vec<Voxel> = Vec::new();
    let mut k: usize = 0;
    while k < 32768
        invariant
            k <= 32768,
            above@.len() == 1024,
            forall|i: int| 0 <= i < 1024 ==> (#[trigger] above@[i])@.len() <= 0xffff_ffe0,
            whole == composed(layer_views(layers@), ids_of(biomes), blended@, above@),
            cells@ == whole.take(k as int),
        decreases 32768 - k,
    {
        let x: usize = k % 32;
        let y: usize = (k / 32) % 32;
        let z: usize = k / 1024;
        proof {
            cell_index_is_onto(k as int);
        }
        let v = compose_one(layers, biomes, blended, above, x, y, z);
        cells.push(v);
        assert(cells@ =~= whole.take(k + 1));
        k = k + 1;
    }
    assert(cells@ =~= whole);
    ChunkBuffer::from_cells(cells)
}

fn compose_one(
    layers: &Vec<TerrainLayer<'_>>,
    biomes: Option<&IdColumn>,
    blended: &ScalarField,
    above: &Vec<Vec<Single>>,
    x: usize,
    y: usize,
    z: usize,
) -> (r: Voxel)
    requires
        x < 32,
        y < 32,
        z < 32,
        above@.len() == 1024,
        forall|i: int| 0 <= i < 1024 ==> (#[trigger] above@[i])@.len() <= 0xffff_ffe0,
    ensures
        r == composed_cell(
            layer_views(layers@),
            ids_of(biomes),
            blended@,
            above@,
            x as int,
            y as int,
            z as int,
        ),
{
    let own: u16 = biome_of(biomes, x, z);
    let at: usize = find_layer(layers, own);
    if at >= layers.len() || !blended.get(x, y, z).is_positive() {
        return Voxel::empty();
    }
    let layer = &layers[at];
    assert(layer_views(layers@)[at as int] == layer@);
    proof {
        lemma_surface_tops(blended@, x as int, z as int, 31, y as int);
    }
    match surface_of(blended, x, z) {
        None => Voxel::empty(),
        Some(cs) => {
            let more: usize = if cs == 31 {
                assert(above@[column_index(x as int, z as int)]@.len() <= 0xffff_ffe0);
                continue_above(layer.rule, &above[x + 32 * z])
            } else {
                0
            };
            Voxel::cube(material_of(layer, x, y, z, cs, more))
        },
    }
}

/// How the density of a column is blended.
#[derive(Clone, Copy, PartialEq, Eq, Structural, Debug)]
pub enum ColumnBlend {
    /// Its biome has no layer: air.
    Air,
    /// It is the density of its own biome's layer.
    Own {
        /// Position of the layer.
        layer: usize,
    },
    /// It fades toward the nearest other biome.
    Fade {
        /// Position of its own biome's layer.
        layer: usize,
        /// Position of the other biome's layer.
        neighbor: usize,
        /// Squared distance to the other biome.
        distance_squared: u32,
    },
}

/// How the density of a column is blended, given the nearest other biomes.
pub open spec fn column_blend(
    layers: Seq<LayerView>,
    biomes: Option<Seq<u16>>,
    border: Option<BorderScan>,
    x: int,
    z: int,
) -> ColumnBlend {
    let own = column_biome(biomes, x, z);
    let at = layer_of(layers, own, 0);
    if at >= layers.len() {
        ColumnBlend::Air
    } else {
        match border {
            None => ColumnBlend::Own { layer: at as usize },
            Some(b) => {
                let other = b.neighbor@[column_index(x, z)];
                let neighbor = layer_of(layers, other, 0);
                if other == own || neighbor >= layers.len() {
                    ColumnBlend::Own { layer: at as usize }
                } else {
                    ColumnBlend::Fade {
                        layer: at as usize,
                        neighbor: neighbor as usize,
                        distance_squared: b.distance_squared@[column_index(x, z)],
                    }
                }
            },
        }
    }
}

/// How the density of a column is blended.
pub fn blend_of(
    layers: &Vec<TerrainLayer<'_>>,
    biomes: Option<&IdColumn>,
    border: Option<&BorderScan>,
    x: usize,
    z: usize,
) -> (r: ColumnBlend)
    requires
        x < 32,
        z < 32,
        border matches Some(b) ==> b.distance_squared@.len() == 1024,
    ensures
        r == column_blend(
            layer_views(layers@),
            ids_of(biomes),
            match border {
                Some(b) => Some(*b),
                None => None,
            },
            x as int,
            z as int,
        ),
{
    let own: u16 = biome_of(biomes, x, z);
    let at: usize = find_layer(layers, own);
    if at >= layers.len() {
        return ColumnBlend::Air;
    }
    match border {
        None => ColumnBlend::Own { layer: at },
        Some(b) => {
            let other: u16 = b.neighbor.get(x, z);
            let neighbor: usize = find_layer(layers, other);
            if other == own || neighbor >= layers.len() {
                ColumnBlend::Own { layer: at }
            } else {
                ColumnBlend::Fade {
                    layer: at,
                    neighbor,
                    distance_squared: b.distance_squared[x + 32 * z],
                }
            }
        },
    }
}

/// The values of a sequence, each once, where it first occurs.
pub open spec fn distinct(s: Seq<u16>) -> Seq<u16>
    decreases s.len(),
{
    if s.len() == 0 {
        s
    } else if distinct(s.drop_last()).contains(s.last()) {
        distinct(s.drop_last())
    } else {
        distinct(s.drop_last()).push(s.last())
    }
}

/// The biomes of the columns of a chunk.
pub open spec fn biomes_present(biomes: Option<Seq<u16>>) -> Seq<u16> {
    match biomes {
        Some(b) => distinct(b),
        None => seq![0u16],
    }
}

/// The biomes that composing a chunk needs: those of its columns, then those that
/// its columns fade toward.
pub open spec fn biomes_needed(biomes: Option<Seq<u16>>, border: Option<Seq<u16>>) -> Seq<u16> {
    let columns = match biomes {
        Some(b) => b,
        None => seq![0u16],
    };
    match border {
        Some(n) => distinct(columns + n),
        None => distinct(columns),
    }
}

fn add_distinct(out: &mut Vec<u16>, ids: &[u16], Ghost(before): Ghost<Seq<u16>>)
    requires
        old(out)@ == distinct(before),
    ensures
        final(out)@ == distinct(before + ids@),
{
    let mut k: usize = 0;
    assert(before + ids@.take(0) =~= before);
    while k < ids.len()
        invariant
            k <= ids@.len(),
            out@ == distinct(before + ids@.take(k as int)),
        decreases ids@.len() - k,
    {
        let id: u16 = ids[k];
        proof {
            let longer = before + ids@.take(k + 1);
            assert(longer.drop_last() =~= before + ids@.take(k as int));
            assert(longer.last() == id);
        }
        let mut seen: bool = false;
        let mut j: usize = 0;
        while j < out.len()
            invariant
                j <= out@.len(),
                seen == exists|i: int| 0 <= i < j && out@[i] == id,
            decreases out@.len() - j,
        {
            if out[j] == id {
                assert(out@[j as int] == id);
                seen = true;
            }
            j = j + 1;
        }
        if !seen {
            out.push(id);
        }
        k = k + 1;
    }
    assert(ids@.take(k as int) =~= ids@);
}

/// The biomes of the columns of a chunk, in the order they first occur.
pub fn present_biomes(biomes: Option<&IdColumn>) -> (r: Vec<u16>)
    ensures
        r@ == biomes_present(ids_of(biomes)),
{
    let mut out: Vec<u16> = Vec::new();
    match biomes {
        None => {
            out.push(0);
            assert(out@ =~= seq![0u16]);
        },
        Some(b) => {
            assert(out@ =~= distinct(Seq::empty()));
            add_distinct(&mut out, b.data(), Ghost(Seq::empty()));
            assert(Seq::<u16>::empty() + b@ =~= b@);
        },
    }
    out
}

/// The biomes that composing a chunk needs.
pub fn needed_biomes(biomes: Option<&IdColumn>, border: Option<&BorderScan>) -> (r: Vec<u16>)
    ensures
        r@ == biomes_needed(
            ids_of(biomes),
            match border {
                Some(b) => Some(b.neighbor@),
                None => None,
            },
        ),
{
    let mut out = present_biomes(biomes);
    let ghost columns = match biomes {
        Some(b) => b@,
        None => seq![0u16],
    };
    proof {
        if biomes is None {
            assert(columns.drop_last() =~= Seq::empty());
            assert(distinct(Seq::empty()) =~= Seq::empty());
            assert(distinct(columns) =~= seq![0u16]);
        }
        assert(out@ == distinct(columns));
    }
    if let Some(b) = border {
        add_distinct(&mut out, b.neighbor.data(), Ghost(columns));
    }
    out
}

/// What marks a column without a pond: the least single-precision number.
pub const NO_POND_BITS: u32 = 0xff7f_ffff;

/// A biome's pond mask and level.
#[derive(Clone, Copy)]
pub struct FluidLayer<'a> {
    /// The biome.
    pub id: u16,
    /// Where the biome has ponds: positive in the lowest plane.
    pub mask: &'a ScalarField,
    /// World height of their surface.
    pub level: Single,
}

/// The pond level of a column: that of the last layer of the column's biome whose
/// mask is positive there.
pub open spec fn pond_level(
    layers: Seq<FluidLayer<'_>>,
    biomes: Option<Seq<u16>>,
    x: int,
    z: int,
) -> Single
    decreases layers.len(),
{
    if layers.len() == 0 {
        Single { bits: NO_POND_BITS }
    } else {
        let last = layers.last();
        if column_biome(biomes, x, z) == last.id && last.mask@[cell_index(x, 0, z)].positive() {
            last.level
        } else {
            pond_level(layers.drop_last(), biomes, x, z)
        }
    }
}

fn level_at(layers: &Vec<FluidLayer<'_>>, biomes: Option<&IdColumn>, x: usize, z: usize) -> (r:
    Single)
    requires
        x < 32,
        z < 32,
    ensures
        r == pond_level(layers@, ids_of(biomes), x as int, z as int),
{
    let own: u16 = biome_of(biomes, x, z);
    let mut left: usize = layers.len();
    assert(layers@.take(left as int) =~= layers@);
    while left > 0
        invariant
            left <= layers@.len(),
            x < 32,
            z < 32,
            own == column_biome(ids_of(biomes), x as int, z as int),
            pond_level(layers@, ids_of(biomes), x as int, z as int) == pond_level(
                layers@.take(left as int),
                ids_of(biomes),
                x as int,
                z as int,
            ),
        decreases left,
    {
        let layer = &layers[left - 1];
        assert(layers@.take(left as int).last() == layer);
        assert(layers@.take(left as int).drop_last() =~= layers@.take(left - 1));
        if own == layer.id && layer.mask.get(x, 0, z).is_positive() {
            return layer.level;
        }
        left = left - 1;
    }
    Single { bits: NO_POND_BITS }
}

/// The pond levels of a chunk, by column.
pub fn composite_fluid(layers: &Vec<FluidLayer<'_>>, biomes: Option<&IdColumn>) -> (r: ColumnField)
    ensures
        r@.len() == 1024,
        forall|i: int|
            0 <= i < 1024 ==> (#[trigger] r@[i]) == pond_level(
                layers@,
                ids_of(biomes),
                i % 32,
                i / 32,
            ),
{
    let mut data: Vec<Single> = Vec::new();
    let mut k: usize = 0;
    while k < 1024
        invariant
            k <= 1024,
            data@.len() == k,
            forall|i: int|
                0 <= i < k ==> (#[trigger] data@[i]) == pond_level(
                    layers@,
                    ids_of(biomes),
                    i % 32,
                    i / 32,
                ),
        decreases 1024 - k,
    {
        data.push(level_at(layers, biomes, k % 32, k / 32));
        k = k + 1;
    }
    ColumnField::from_data(data)
}

/// A composed cell is solid just where its biome has a layer and the blended
/// density is positive.
pub proof fn terrain_is_solid_where_blended(
    layers: Seq<LayerView>,
    biomes: Option<Seq<u16>>,
    blended: Seq<Single>,
    above: Seq<Vec<Single>>,
    x: int,
    y: int,
    z: int,
)
    requires
        0 <= x < 32,
        0 <= y < 32,
        0 <= z < 32,
    ensures
        composed_cell(layers, biomes, blended, above, x, y, z).solid() == (layer_of(
            layers,
            column_biome(biomes, x, z),
            0,
        ) < layers.len() && blended[cell_index(x, y, z)].positive()),
{
    if blended[cell_index(x, y, z)].positive() {
        lemma_surface_tops(blended, x, z, 31, y);
    }
}

proof fn lemma_below_the_bands(depth: int, bands: Seq<(MaterialId, u32)>, fill: MaterialId)
    requires
        depth >= total_depth(bands),
    ensures
        layered(depth, bands, fill) == fill,
    decreases bands.len(),
{
    if bands.len() > 0 {
        lemma_depth_not_negative(bands.drop_first());
        lemma_below_the_bands(depth - bands[0].1, bands.drop_first(), fill);
    }
}

/// Looking no further above a chunk than the bands reach changes no material: the
/// bands lie at the same depth below the true surface on both sides of the seam
/// between stacked chunks.
pub proof fn seams_keep_band_depth(
    bands: Seq<(MaterialId, u32)>,
    fill: MaterialId,
    samples: Seq<Single>,
    depth: int,
)
    requires
        depth >= 0,
    ensures
        layered(depth + continuation(RuleView::Layer { bands, fill }, samples), bands, fill)
            == layered(depth + solid_run(samples), bands, fill),
{
    lemma_run_not_negative(samples);
    lemma_depth_not_negative(bands);
    if solid_run(samples) > total_depth(bands) {
        lemma_below_the_bands(depth + total_depth(bands), bands, fill);
        lemma_below_the_bands(depth + solid_run(samples), bands, fill);
    }
}

/// A composed material depends on the column's own biome alone, never on the one
/// it fades toward.
pub proof fn materials_stay_with_the_biome(
    layers: Seq<LayerView>,
    more: Seq<LayerView>,
    biomes: Option<Seq<u16>>,
    blended: Seq<Single>,
    above: Seq<Vec<Single>>,
    x: int,
    y: int,
    z: int,
)
    requires
        layer_of(layers, column_biome(biomes, x, z), 0) < layers.len(),
    ensures
        composed_cell(layers + more, biomes, blended, above, x, y, z) == composed_cell(
            layers,
            biomes,
            blended,
            above,
            x,
            y,
            z,
        ),
{
    lemma_layer_prefix(layers, more, column_biome(biomes, x, z), 0);
}

proof fn lemma_layer_prefix(layers: Seq<LayerView>, more: Seq<LayerView>, id: u16, from: int)
    requires
        0 <= from,
        layer_of(layers, id, from) < layers.len(),
    ensures
        layer_of(layers + more, id, from) == layer_of(layers, id, from),
        from <= layer_of(layers, id, from),
    decreases layers.len() - from,
{
    if from < layers.len() {
        assert((layers + more)[from] == layers[from]);
        if layers[from].id != id {
            lemma_layer_prefix(layers, more, id, from + 1);
        }
    }
}

} // verus!
