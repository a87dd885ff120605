//! Identifiers of graphs that nodes refer to.
use vstd::prelude::*;

verus! {

/// Stable identifier of a library graph.
#[derive(Clone, Copy, PartialEq, Eq, Structural, PartialOrd, Ord, Hash, Debug)]
pub struct LibraryGraphId(pub u32);

/// Which graph of the hierarchy a reference points at. `World` and `Zone` are
/// singletons; a biome graph is named by its biome id.
#[derive(Clone, Copy, PartialEq, Eq, Structural, PartialOrd, Ord, Hash, Debug)]
pub enum GraphRefTarget {
    /// The world graph.
    World,
    /// The zone graph.
    Zone,
    /// A biome graph, by biome id.
    Biome(u16),
}

impl Default for GraphRefTarget {
    fn default() -> (r: Self)
        ensures
            r == GraphRefTarget::World,
    {
        GraphRefTarget::World
    }
}

impl Default for LibraryGraphId {
    fn default() -> (r: Self)
        ensures
            r == LibraryGraphId(0),
    {
        LibraryGraphId(0)
    }
}

/// The role a graph plays in the hierarchy. It does not change a graph's
/// structure, only the rules the graph is validated against.
#[derive(Clone, Copy, PartialEq, Eq, Structural, Hash, Debug)]
pub enum GraphKind {
    /// Climate and zone assignment for the world.
    World,
    /// Biome assignment within one zone.
    Zone,
    /// Density, materials and per-biome parameters.
    Biome,
    /// Foliage placement.
    Detail,
    /// A reusable sub-graph referenced by other graphs.
    Library,
}

impl Default for GraphKind {
    fn default() -> (r: Self)
        ensures
            r == GraphKind::Biome,
    {
        GraphKind::Biome
    }
}

impl GraphKind {
    /// Whether graphs of this kind are evaluated per column.
    pub open spec fn per_column(self) -> bool {
        self == GraphKind::World || self == GraphKind::Zone
    }

    /// Whether graphs of this kind are evaluated per column.
    pub fn is_per_column(self) -> (r: bool)
        ensures
            r == self.per_column(),
    {
        self == GraphKind::World || self == GraphKind::Zone
    }
}

} // verus!
