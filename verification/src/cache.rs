//! Whole-chunk outputs and their cache.
use crate::chunk::ChunkBuffer;
use crate::field::{ScalarField, Vec3, Vec3Field};
use crate::scalar::Single;
use crate::scatter::ScatterPoint;
use crate::shared::share;
use crate::slots::NodeId;
use crate::voxel::{MaterialId, Voxel};
use std::collections::HashMap;
use std::sync::Arc;
use vstd::prelude::*;

verus! {

broadcast use vstd::std_specs::hash::group_hash_axioms;

/// A computed node output.
#[derive(Debug)]
pub enum CachedOutput {
    /// A scalar or density field.
    Scalar(Arc<ScalarField>),
    /// A vector field.
    Vec3(Arc<Vec3Field>),
    /// A material field.
    Material(Arc<ChunkBuffer<MaterialId>>),
    /// A terrain field.
    Terrain(Arc<ChunkBuffer<Voxel>>),
    /// Scatter points.
    Positions(Arc<Vec<ScatterPoint>>),
    /// A biome's density and material together.
    BiomeLayer {
        /// Density.
        density: Arc<ScalarField>,
        /// Material.
        material: Arc<ChunkBuffer<MaterialId>>,
    },
}

/// A node output as the values it holds.
pub enum OutputView {
    /// A scalar or density field.
    Scalar(Seq<Single>),
    /// A vector field.
    Vec3(Seq<Vec3>),
    /// A material field.
    Material(Seq<MaterialId>),
    /// A terrain field.
    Terrain(Seq<Voxel>),
    /// Scatter points.
    Positions(Seq<ScatterPoint>),
    /// A biome's density and material together.
    BiomeLayer {
        /// Density.
        density: Seq<Single>,
        /// Material.
        material: Seq<MaterialId>,
    },
}

impl OutputView {
    /// What the output is called in diagnostics.
    pub open spec fn kind_label(self) -> &'static str {
        match self {
            OutputView::Scalar(_) => "scalar",
            OutputView::Vec3(_) => "vec3",
            OutputView::Material(_) => "material",
            OutputView::Terrain(_) => "terrain",
            OutputView::Positions(_) => "positions",
            OutputView::BiomeLayer { .. } => "biome_layer",
        }
    }
}

impl CachedOutput {
    /// The values of the output.
    pub open spec fn view(&self) -> OutputView {
        match self {
            CachedOutput::Scalar(f) => OutputView::Scalar(f@),
            CachedOutput::Vec3(f) => OutputView::Vec3(f@),
            CachedOutput::Material(f) => OutputView::Material(f@),
            CachedOutput::Terrain(f) => OutputView::Terrain(f@),
            CachedOutput::Positions(p) => OutputView::Positions(p@),
            CachedOutput::BiomeLayer { density, material } => OutputView::BiomeLayer {
                density: density@,
                material: material@,
            },
        }
    }

    /// The scalar field, if it is one.
    pub fn as_scalar(&self) -> (r: Option<&ScalarField>)
        ensures
            match r {
                Some(f) => self@ == OutputView::Scalar(f@),
                None => !(self@ is Scalar),
            },
    {
        match self {
            CachedOutput::Scalar(f) => Some(f),
            _ => None,
        }
    }

    /// The vector field, if it is one.
    pub fn as_vec3(&self) -> (r: Option<&Vec3Field>)
        ensures
            match r {
                Some(f) => self@ == OutputView::Vec3(f@),
                None => !(self@ is Vec3),
            },
    {
        match self {
            CachedOutput::Vec3(f) => Some(f),
            _ => None,
        }
    }

    /// The material field, if it is one.
    pub fn as_material(&self) -> (r: Option<&ChunkBuffer<MaterialId>>)
        ensures
            match r {
                Some(f) => self@ == OutputView::Material(f@),
                None => !(self@ is Material),
            },
    {
        match self {
            CachedOutput::Material(f) => Some(f),
            _ => None,
        }
    }

    /// The terrain field, if it is one.
    pub fn as_terrain(&self) -> (r: Option<&ChunkBuffer<Voxel>>)
        ensures
            match r {
                Some(f) => self@ == OutputView::Terrain(f@),
                None => !(self@ is Terrain),
            },
    {
        match self {
            CachedOutput::Terrain(f) => Some(f),
            _ => None,
        }
    }

    /// The density and material of a biome layer, if it is one.
    pub fn as_biome_layer(&self) -> (r: Option<(&Arc<ScalarField>, &Arc<ChunkBuffer<MaterialId>>)>)
        ensures
            match r {
                Some((d, m)) => self@ == (OutputView::BiomeLayer { density: d@, material: m@ }),
                None => !(self@ is BiomeLayer),
            },
    {
        match self {
            CachedOutput::BiomeLayer { density, material } => Some((density, material)),
            _ => None,
        }
    }

    /// What the output is called in diagnostics.
    pub fn kind_name(&self) -> (r: &'static str)
        ensures
            r == self@.kind_label(),
    {
        match self {
            CachedOutput::Scalar(_) => "scalar",
            CachedOutput::Vec3(_) => "vec3",
            CachedOutput::Material(_) => "material",
            CachedOutput::Terrain(_) => "terrain",
            CachedOutput::Positions(_) => "positions",
            CachedOutput::BiomeLayer { .. } => "biome_layer",
        }
    }
}

impl Clone for CachedOutput {
    fn clone(&self) -> (r: Self)
        ensures
            r@ == self@,
    {
        match self {
            CachedOutput::Scalar(f) => CachedOutput::Scalar(share(f)),
            CachedOutput::Vec3(f) => CachedOutput::Vec3(share(f)),
            CachedOutput::Material(f) => CachedOutput::Material(share(f)),
            CachedOutput::Terrain(f) => CachedOutput::Terrain(share(f)),
            CachedOutput::Positions(p) => CachedOutput::Positions(share(p)),
            CachedOutput::BiomeLayer { density, material } => CachedOutput::BiomeLayer {
                density: share(density),
                material: share(material),
            },
        }
    }
}

/// Outputs by node, for one chunk.
#[derive(Debug)]
pub struct EvalCache {
    outputs: HashMap<u64, CachedOutput>,
}

impl EvalCache {
    /// The outputs by the integer of the node's identity.
    pub closed spec fn view(&self) -> Map<u64, OutputView> {
        self.outputs@.map_values(|c: CachedOutput| c@)
    }

    /// Empty cache.
    pub fn new() -> (r: Self)
        ensures
            r@ == Map::<u64, OutputView>::empty(),
    {
        let r = EvalCache { outputs: HashMap::new() };
        assert(r@ =~= Map::<u64, OutputView>::empty());
        r
    }

    /// The output cached for a node, if any.
    pub fn get(&self, id: NodeId) -> (r: Option<&CachedOutput>)
        ensures
            match r {
                Some(c) => self@.contains_key(id.code()) && c@ == self@[id.code()],
                None => !self@.contains_key(id.code()),
            },
    {
        self.outputs.get(&id.to_code())
    }

    /// Whether a node's output is cached.
    pub fn contains(&self, id: NodeId) -> (r: bool)
        ensures
            r == self@.contains_key(id.code()),
    {
        self.outputs.contains_key(&id.to_code())
    }

    /// Store a node's output.
    pub fn insert(&mut self, id: NodeId, out: CachedOutput)
        ensures
            final(self)@ == old(self)@.insert(id.code(), out@),
    {
        let ghost before = self@;
        let _ = self.outputs.insert(id.to_code(), out);
        assert(self@ =~= before.insert(id.code(), out@));
    }
}

impl Default for EvalCache {
    fn default() -> (r: Self)
        ensures
            r@ == Map::<u64, OutputView>::empty(),
    {
        EvalCache::new()
    }
}

} // verus!
