//! What the biomes of a world contribute to one chunk.
use crate::cache::{EvalCache, OutputView};
use crate::chunk::cell_index;
use crate::column::IdColumn;
use crate::composite::{
    biomes_present, ids_of, present_biomes, FluidLayer, LayerView, TerrainLayer,
};
use crate::foliage::{
    bucket_views, paint_views, with_buckets, with_layers, BucketView, ChunkFoliage, PaintView,
};
use crate::graph::Graph;
use crate::scalar::Single;
use crate::slots::NodeId;
use crate::world::{biome_position, feeding_node, find_biome, input_source, BiomeGraph, WorldEvaluator};
use vstd::prelude::*;

verus! {

/// The density and material that a biome was evaluated to, with its rule; none if
/// it has no graph, no density terminal, or that terminal holds something else.
pub open spec fn evaluated_layer(
    biomes: Seq<BiomeGraph>,
    id: u16,
    cache: Map<u64, OutputView>,
) -> Option<LayerView> {
    let at = biome_position(biomes, id, 0);
    if at >= biomes.len() {
        None
    } else {
        match biomes[at].density_node {
            None => None,
            Some(n) => if !cache.contains_key(n.code()) {
                None
            } else {
                match cache[n.code()] {
                    OutputView::BiomeLayer { density, material } => Some(
                        LayerView { id, density, material, rule: biomes[at].material_rule@ },
                    ),
                    _ => None,
                }
            },
        }
    }
}

/// The pond mask and level that a biome was evaluated to, if it has ponds: the
/// mask is what its fluid terminal holds, the level what feeds the terminal's
/// first pin.
pub open spec fn evaluated_fluid(
    biomes: Seq<BiomeGraph>,
    id: u16,
    cache: Map<u64, OutputView>,
) -> Option<(Seq<Single>, Single)> {
    let at = biome_position(biomes, id, 0);
    if at >= biomes.len() {
        None
    } else {
        match biomes[at].fluid_node {
            None => None,
            Some(n) => match feeding_node(biomes[at].graph.edges@, n, 0) {
                None => None,
                Some(src) => if !cache.contains_key(n.code()) || !cache.contains_key(src.code()) {
                    None
                } else {
                    match (cache[n.code()], cache[src.code()]) {
                        (OutputView::Scalar(mask), OutputView::Scalar(level)) => Some(
                            (mask, level[0]),
                        ),
                        _ => None,
                    }
                },
            },
        }
    }
}

/// Whether a biome of an id has ponds.
pub open spec fn has_ponds(biomes: Seq<BiomeGraph>, id: u16) -> bool {
    exists|i: int|
        0 <= i < biomes.len() && (#[trigger] biomes[i]).id == id && biomes[i].fluid_node is Some
}

/// Whether any biome present in a chunk has ponds.
pub open spec fn any_ponds(biomes: Seq<BiomeGraph>, present: Seq<u16>) -> bool {
    exists|k: int| 0 <= k < present.len() && has_ponds(biomes, #[trigger] present[k])
}

/// The biomes of a list that have a foliage graph, in order, each with its place
/// among the biomes.
pub open spec fn planted(biomes: Seq<BiomeGraph>, present: Seq<u16>) -> Seq<(u16, int)>
    decreases present.len(),
{
    if present.len() == 0 {
        Seq::empty()
    } else {
        let rest = planted(biomes, present.drop_last());
        let at = biome_position(biomes, present.last(), 0);
        if at < biomes.len() && biomes[at].detail is Some {
            rest.push((present.last(), at))
        } else {
            rest
        }
    }
}

/// Paint of several biomes merged in order.
pub open spec fn all_paint(parts: Seq<ChunkFoliage>) -> Seq<PaintView>
    decreases parts.len(),
{
    if parts.len() == 0 {
        Seq::empty()
    } else {
        with_layers(all_paint(parts.drop_last()), paint_views(parts.last().paint@))
    }
}

/// Instances of several biomes merged in order.
pub open spec fn all_scatter(parts: Seq<ChunkFoliage>) -> Seq<BucketView>
    decreases parts.len(),
{
    if parts.len() == 0 {
        Seq::empty()
    } else {
        with_buckets(all_scatter(parts.drop_last()), bucket_views(parts.last().scatter@))
    }
}

/// Merge the foliage of the biomes of a chunk.
pub fn unite_foliage(parts: Vec<ChunkFoliage>) -> (r: ChunkFoliage)
    requires
        forall|i: int| 0 <= i < parts@.len() ==> (#[trigger] parts@[i]).full(),
    ensures
        r.full(),
        paint_views(r.paint@) == all_paint(parts@),
        bucket_views(r.scatter@) == all_scatter(parts@),
{
    let mut left = parts;
    let ghost all = left@;
    let total: usize = left.len();
    let mut out = ChunkFoliage::default();
    assert(paint_views(out.paint@) =~= Seq::<PaintView>::empty());
    assert(bucket_views(out.scatter@) =~= Seq::<BucketView>::empty());
    let mut k: usize = 0;
    while k < total
        invariant
            k <= total,
            total == all.len(),
            left@ == all.skip(k as int),
            forall|i: int| 0 <= i < all.len() ==> (#[trigger] all[i]).full(),
            out.full(),
            paint_views(out.paint@) == all_paint(all.take(k as int)),
            bucket_views(out.scatter@) == all_scatter(all.take(k as int)),
        decreases total - k,
    {
        let part = left.remove(0);
        proof {
            assert(part == all[k as int]);
            assert(all.take(k + 1).drop_last() =~= all.take(k as int));
            assert(left@ =~= all.skip(k + 1));
        }
        out.merge(part);
        k = k + 1;
    }
    assert(all.take(k as int) =~= all);
    out
}

impl WorldEvaluator {
    /// The density and material that a biome was evaluated to, with its rule.
    pub fn biome_layer<'a>(&'a self, id: u16, cache: &'a EvalCache) -> (r: Option<
        TerrainLayer<'a>,
    >)
        ensures
            match r {
                Some(layer) => evaluated_layer(self.biomes@, id, cache@) == Some(layer@),
                None => evaluated_layer(self.biomes@, id, cache@) is None,
            },
    {
        let at: usize = find_biome(&self.biomes, id);
        if at >= self.biomes.len() {
            return None;
        }
        let biome = &self.biomes[at];
        match biome.density_node {
            None => None,
            Some(n) => match cache.get(n) {
                None => None,
                Some(out) => match out.as_biome_layer() {
                    None => None,
                    Some((density, material)) => Some(
                        TerrainLayer { id, density, material, rule: &biome.material_rule },
                    ),
                },
            },
        }
    }

    /// The node at the root of a biome's density, from which single densities are
    /// computed beyond the chunk.
    pub fn density_source(&self, id: u16) -> (r: Option<NodeId>)
        ensures
            r == ({
                let at = biome_position(self.biomes@, id, 0);
                if at >= self.biomes@.len() {
                    None
                } else {
                    match self.biomes@[at].density_node {
                        Some(n) => feeding_node(self.biomes@[at].graph.edges@, n, 0),
                        None => None,
                    }
                }
            }),
    {
        let at: usize = find_biome(&self.biomes, id);
        if at >= self.biomes.len() {
            return None;
        }
        match self.biomes[at].density_node {
            Some(n) => input_source(&self.biomes[at].graph, n, 0),
            None => None,
        }
    }

    /// Whether any biome present in a chunk has ponds.
    pub fn authors_fluid(&self, present: &Vec<u16>) -> (r: bool)
        ensures
            r == any_ponds(self.biomes@, present@),
    {
        let mut k: usize = 0;
        while k < present.len()
            invariant
                k <= present@.len(),
                forall|j: int| 0 <= j < k ==> !has_ponds(self.biomes@, #[trigger] present@[j]),
            decreases present@.len() - k,
        {
            let id: u16 = present[k];
            let mut i: usize = 0;
            while i < self.biomes.len()
                invariant
                    i <= self.biomes@.len(),
                    k < present@.len(),
                    id == present@[k as int],
                    forall|j: int|
                        0 <= j < i ==> !((#[trigger] self.biomes@[j]).id == id
                            && self.biomes@[j].fluid_node is Some),
                decreases self.biomes@.len() - i,
            {
                if self.biomes[i].id == id && self.biomes[i].fluid_node.is_some() {
                    assert(self.biomes@[i as int].id == id);
                    assert(has_ponds(self.biomes@, present@[k as int]));
                    return true;
                }
                i = i + 1;
            }
            k = k + 1;
        }
        false
    }

    /// The pond mask and level that a biome was evaluated to, if it has ponds.
    pub fn fluid_layer<'a>(&'a self, id: u16, cache: &'a EvalCache) -> (r: Option<FluidLayer<'a>>)
        ensures
            match r {
                Some(f) => f.id == id && evaluated_fluid(self.biomes@, id, cache@) == Some(
                    (f.mask@, f.level),
                ),
                None => evaluated_fluid(self.biomes@, id, cache@) is None,
            },
    {
        let at: usize = find_biome(&self.biomes, id);
        if at >= self.biomes.len() {
            return None;
        }
        let biome = &self.biomes[at];
        match biome.fluid_node {
            None => None,
            Some(n) => match input_source(&biome.graph, n, 0) {
                None => None,
                Some(src) => match (cache.get(n), cache.get(src)) {
                    (Some(a), Some(b)) => match (a.as_scalar(), b.as_scalar()) {
                        (Some(mask), Some(level)) => {
                            assert(cell_index(0, 0, 0) == 0);
                            Some(FluidLayer { id, mask, level: level.get(0, 0, 0) })
                        },
                        _ => None,
                    },
                    _ => None,
                },
            },
        }
    }

    /// The biomes of a chunk that have a foliage graph, with their graphs.
    pub fn foliage_graphs(&self, biomes: Option<&IdColumn>) -> (r: Vec<(u16, &Graph)>)
        ensures
            r@.len() == planted(self.biomes@, biomes_present(ids_of(biomes))).len(),
            forall|i: int|
                0 <= i < r@.len() ==> {
                    let (id, at) = planted(self.biomes@, biomes_present(ids_of(biomes)))[i];
                    (#[trigger] r@[i]).0 == id && self.biomes@[at].detail == Some(*r@[i].1)
                },
    {
        let present = present_biomes(biomes);
        let mut out: Vec<(u16, &Graph)> = Vec::new();
        let mut k: usize = 0;
        while k < present.len()
            invariant
                k <= present@.len(),
                out@.len() == planted(self.biomes@, present@.take(k as int)).len(),
                forall|i: int|
                    0 <= i < out@.len() ==> {
                        let (id, at) = planted(self.biomes@, present@.take(k as int))[i];
                        (#[trigger] out@[i]).0 == id && self.biomes@[at].detail == Some(*out@[i].1)
                    },
            decreases present@.len() - k,
        {
            let id: u16 = present[k];
            assert(present@.take(k + 1).drop_last() =~= present@.take(k as int));
            let at: usize = find_biome(&self.biomes, id);
            if at < self.biomes.len() {
                if let Some(g) = &self.biomes[at].detail {
                    out.push((id, g));
                }
            }
            k = k + 1;
        }
        assert(present@.take(k as int) =~= present@);
        out
    }
}

} // verus!
