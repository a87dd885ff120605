//! Per-column outputs and their cache.
use crate::column::{ColumnField, IdColumn};
use crate::scalar::Single;
use crate::shared::share;
use crate::slots::NodeId;
use std::collections::HashMap;
use std::sync::Arc;
use vstd::prelude::*;

verus! {

broadcast use vstd::std_specs::hash::group_hash_axioms;

/// A computed per-column output.
#[derive(Debug)]
pub enum ColumnOutput {
    /// A continuous value per column.
    Surface(Arc<ColumnField>),
    /// A discrete id per column.
    Id(Arc<IdColumn>),
}

/// A per-column output as the values it holds.
pub enum ColumnView {
    /// A continuous value per column.
    Surface(Seq<Single>),
    /// A discrete id per column.
    Id(Seq<u16>),
}

impl ColumnView {
    /// What the output is called in diagnostics.
    pub open spec fn kind_label(self) -> &'static str {
        match self {
            ColumnView::Surface(_) => "surface",
            ColumnView::Id(_) => "id",
        }
    }
}

impl ColumnOutput {
    /// The values of the output.
    pub open spec fn view(&self) -> ColumnView {
        match self {
            ColumnOutput::Surface(f) => ColumnView::Surface(f@),
            ColumnOutput::Id(c) => ColumnView::Id(c@),
        }
    }

    /// The surface field, if it is one.
    pub fn as_surface(&self) -> (r: Option<&Arc<ColumnField>>)
        ensures
            match r {
                Some(f) => self@ == ColumnView::Surface(f@),
                None => self@ is Id,
            },
    {
        match self {
            ColumnOutput::Surface(f) => Some(f),
            ColumnOutput::Id(_) => None,
        }
    }

    /// The id column, if it is one.
    pub fn as_id(&self) -> (r: Option<&Arc<IdColumn>>)
        ensures
            match r {
                Some(c) => self@ == ColumnView::Id(c@),
                None => self@ is Surface,
            },
    {
        match self {
            ColumnOutput::Surface(_) => None,
            ColumnOutput::Id(c) => Some(c),
        }
    }

    /// What the output is called in diagnostics.
    pub fn kind_name(&self) -> (r: &'static str)
        ensures
            r == self@.kind_label(),
    {
        match self {
            ColumnOutput::Surface(_) => "surface",
            ColumnOutput::Id(_) => "id",
        }
    }
}

impl Clone for ColumnOutput {
    fn clone(&self) -> (r: Self)
        ensures
            r@ == self@,
    {
        match self {
            ColumnOutput::Surface(f) => ColumnOutput::Surface(share(f)),
            ColumnOutput::Id(c) => ColumnOutput::Id(share(c)),
        }
    }
}

/// Per-column outputs by node, for one chunk.
#[derive(Debug)]
pub struct ColumnCache {
    columns: HashMap<u64, ColumnOutput>,
}

impl ColumnCache {
    /// The outputs by the integer of the node's identity.
    pub closed spec fn view(&self) -> Map<u64, ColumnView> {
        self.columns@.map_values(|c: ColumnOutput| c@)
    }

    /// Empty cache.
    pub fn new() -> (r: Self)
        ensures
            r@ == Map::<u64, ColumnView>::empty(),
    {
        let r = ColumnCache { columns: HashMap::new() };
        assert(r@ =~= Map::<u64, ColumnView>::empty());
        r
    }

    /// The output cached for a node, if any.
    pub fn get(&self, id: NodeId) -> (r: Option<&ColumnOutput>)
        ensures
            match r {
                Some(c) => self@.contains_key(id.code()) && c@ == self@[id.code()],
                None => !self@.contains_key(id.code()),
            },
    {
        self.columns.get(&id.to_code())
    }

    /// Whether a node's output is cached.
    pub fn contains(&self, id: NodeId) -> (r: bool)
        ensures
            r == self@.contains_key(id.code()),
    {
        self.columns.contains_key(&id.to_code())
    }

    /// Store a node's output.
    pub fn insert(&mut self, id: NodeId, out: ColumnOutput)
        ensures
            final(self)@ == old(self)@.insert(id.code(), out@),
    {
        let ghost before = self@;
        let _ = self.columns.insert(id.to_code(), out);
        assert(self@ =~= before.insert(id.code(), out@));
    }

    /// How many outputs are cached.
    pub fn len(&self) -> (r: usize)
        ensures
            r == self@.len(),
    {
        assert(self@.dom() =~= self.columns@.dom());
        self.columns.len()
    }

    /// Whether nothing is cached.
    pub fn is_empty(&self) -> (r: bool)
        ensures
            r == self@.is_empty(),
    {
        assert(self@.dom() =~= self.columns@.dom());
        self.columns.is_empty()
    }
}

impl Default for ColumnCache {
    fn default() -> (r: Self)
        ensures
            r@ == Map::<u64, ColumnView>::empty(),
    {
        ColumnCache::new()
    }
}

} // verus!
