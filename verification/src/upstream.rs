//! The graphs that references read: each with its evaluated columns and the
//! nodes that expose its outputs.
use crate::column_cache::ColumnCache;
use crate::column_eval::{exposing_node, output_node, UpstreamView};
use crate::context::EvalContext;
use crate::crossgraph::rank_identifies;
use crate::graph::Graph;
use crate::ids::GraphRefTarget;
use crate::index::{indexable, indexed_source, EdgeIndex};
use crate::node::{Node, NodeKind};
use crate::slots::{is_key_order, key_order_is_unique, NodeId};
use crate::text::same_text;
use vstd::prelude::*;

verus! {

/// One graph that references read.
pub struct UpstreamGraph<'g> {
    /// Which graph it is.
    pub(crate) target: GraphRefTarget,
    /// The graph.
    pub(crate) graph: &'g Graph,
    /// Its edges by input pin.
    pub(crate) edges: EdgeIndex,
    /// What it was evaluated for.
    pub(crate) ctx: EvalContext,
    /// Its evaluated columns.
    pub(crate) cache: &'g ColumnCache,
    /// Its exposed outputs, in node order.
    pub(crate) outputs: Vec<(String, NodeId)>,
}

/// The graphs that references read, by target.
pub struct UpstreamGraphs<'g> {
    entries: Vec<UpstreamGraph<'g>>,
}

/// The names that listed nodes expose, with the nodes, in the order listed.
pub open spec fn exposures(nodes: Map<NodeId, Node>, keys: Seq<NodeId>) -> Seq<
    (Seq<char>, NodeId),
>
    decreases keys.len(),
{
    if keys.len() == 0 {
        Seq::empty()
    } else {
        let rest = exposures(nodes, keys.drop_last());
        match nodes[keys.last()].kind {
            NodeKind::GraphOutput(p) => rest.push((p.name@, keys.last())),
            _ => rest,
        }
    }
}

/// The last node of a list under a name.
pub open spec fn last_under(entries: Seq<(Seq<char>, NodeId)>, name: Seq<char>) -> Option<NodeId>
    decreases entries.len(),
{
    if entries.len() == 0 {
        None
    } else if entries.last().0 == name {
        Some(entries.last().1)
    } else {
        last_under(entries.drop_last(), name)
    }
}

proof fn lemma_exposing(nodes: Map<NodeId, Node>, keys: Seq<NodeId>, name: Seq<char>)
    ensures
        exposing_node(nodes, keys, name) == last_under(exposures(nodes, keys), name),
    decreases keys.len(),
{
    if keys.len() > 0 {
        lemma_exposing(nodes, keys.drop_last(), name);
        let all = exposures(nodes, keys);
        let rest = exposures(nodes, keys.drop_last());
        if nodes[keys.last()].kind is GraphOutput {
            assert(all.drop_last() =~= rest);
        }
    }
}

proof fn lemma_exposed_is_listed(nodes: Map<NodeId, Node>, keys: Seq<NodeId>, name: Seq<char>)
    ensures
        exposing_node(nodes, keys, name) is Some ==> keys.contains(
            exposing_node(nodes, keys, name)->0,
        ),
    decreases keys.len(),
{
    if keys.len() > 0 {
        let short = keys.drop_last();
        lemma_exposed_is_listed(nodes, short, name);
        if exposing_node(nodes, short, name) is Some {
            let id = exposing_node(nodes, short, name)->0;
            let k = choose|k: int| 0 <= k < short.len() && short[k] == id;
            assert(keys[k] == id);
        }
        assert(keys.contains(keys.last()));
    }
}

/// The entries with their names as characters.
pub open spec fn spelled_entries(outputs: Seq<(String, NodeId)>) -> Seq<(Seq<char>, NodeId)> {
    outputs.map_values(|e: (String, NodeId)| (e.0@, e.1))
}

impl<'g> UpstreamGraph<'g> {
    pub(crate) closed spec fn wf(self) -> bool {
        &&& forall|n: NodeId, p: u16| #[trigger]
            self.edges.lookup(n, p) == indexed_source(self.graph.edges@, n, p)
        &&& forall|keys: Seq<NodeId>| #[trigger]
            is_key_order(self.graph.nodes@, keys) ==> spelled_entries(self.outputs@) == exposures(
                self.graph.nodes@,
                keys,
            )
        &&& exists|keys: Seq<NodeId>| is_key_order(self.graph.nodes@, keys)
    }

    pub(crate) closed spec fn view(&self) -> UpstreamView {
        UpstreamView {
            nodes: self.graph.nodes@,
            edges: self.graph.edges@,
            world_seed: self.ctx.world_seed,
            cache: self.cache@,
        }
    }

    /// The graph, its edges by input pin, and the world seed.
    pub(crate) fn parts(&self) -> (r: (&'g Graph, &EdgeIndex, EvalContext))
        requires
            self.wf(),
        ensures
            r.0.nodes@ == self@.nodes,
            r.0.edges@ == self@.edges,
            r.2.world_seed == self@.world_seed,
            forall|n: NodeId, p: u16| #[trigger]
                r.1.lookup(n, p) == indexed_source(self@.edges, n, p),
    {
        (self.graph, &self.edges, self.ctx)
    }

    /// The evaluated columns.
    pub(crate) fn columns(&self) -> (r: &'g ColumnCache)
        ensures
            r@ == self@.cache,
    {
        self.cache
    }

    /// The node that exposes a name.
    pub(crate) fn output(&self, name: &str) -> (r: Option<NodeId>)
        requires
            self.wf(),
        ensures
            r == output_node(self@.nodes, name@),
            r is Some ==> self@.nodes.contains_key(r->0),
    {
        let ghost all = spelled_entries(self.outputs@);
        proof {
            let keys = choose|keys: Seq<NodeId>| is_key_order(self.graph.nodes@, keys);
            assert(is_key_order(self.graph.nodes@, keys));
            lemma_exposing(self.graph.nodes@, keys, name@);
            lemma_exposed_is_listed(self.graph.nodes@, keys, name@);
            if output_node(self@.nodes, name@) is Some {
                assert(keys.contains(output_node(self@.nodes, name@)->0));
            }
            assert(all.take(all.len() as int) =~= all);
        }
        let mut k: usize = self.outputs.len();
        while k > 0
            invariant
                k <= self.outputs@.len(),
                all == spelled_entries(self.outputs@),
                last_under(all, name@) == last_under(all.take(k as int), name@),
                last_under(all, name@) == output_node(self@.nodes, name@),
                output_node(self@.nodes, name@) is Some ==> self@.nodes.contains_key(
                    output_node(self@.nodes, name@)->0,
                ),
            decreases k,
        {
            k = k - 1;
            assert(all.take(k + 1).drop_last() =~= all.take(k as int));
            assert(all.take(k + 1).last() == (self.outputs@[k as int].0@, self.outputs@[k as int].1));
            if same_text(self.outputs[k].0.as_str(), name) {
                return Some(self.outputs[k].1);
            }
        }
        None
    }
}

/// The graphs a list of entries gives; of two for one target, the later.
pub closed spec fn upstream_views(entries: Seq<UpstreamGraph>) -> Map<u32, UpstreamView>
    decreases entries.len(),
{
    if entries.len() == 0 {
        Map::empty()
    } else {
        upstream_views(entries.drop_last()).insert(
            entries.last().target.rank(),
            entries.last()@,
        )
    }
}

impl<'g> UpstreamGraphs<'g> {
    /// The graphs by the place of their target.
    pub closed spec fn view(&self) -> Map<u32, UpstreamView> {
        upstream_views(self.entries@)
    }

    /// Whether every graph is indexed.
    pub closed spec fn wf(self) -> bool {
        forall|i: int| 0 <= i < self.entries@.len() ==> (#[trigger] self.entries@[i]).wf()
    }

    /// No graphs.
    pub fn new() -> (r: Self)
        ensures
            r.wf(),
            r@ == Map::<u32, UpstreamView>::empty(),
    {
        UpstreamGraphs { entries: Vec::new() }
    }

    /// Register a graph as what references to a target read. Its outputs are found
    /// by the names that its `GraphOutput` nodes expose.
    pub fn insert(
        &mut self,
        target: GraphRefTarget,
        graph: &'g Graph,
        ctx: EvalContext,
        cache: &'g ColumnCache,
    )
        requires
            old(self).wf(),
            indexable(graph.edges@),
        ensures
            final(self).wf(),
            final(self)@ == old(self)@.insert(
                target.rank(),
                UpstreamView {
                    nodes: graph.nodes@,
                    edges: graph.edges@,
                    world_seed: ctx.world_seed,
                    cache: cache@,
                },
            ),
    {
        let keys = graph.nodes.keys();
        let mut outputs: Vec<(String, NodeId)> = Vec::new();
        let mut k: usize = 0;
        assert(spelled_entries(outputs@) =~= Seq::<(Seq<char>, NodeId)>::empty());
        while k < keys.len()
            invariant
                k <= keys@.len(),
                is_key_order(graph.nodes@, keys@),
                spelled_entries(outputs@) == exposures(graph.nodes@, keys@.take(k as int)),
            decreases keys@.len() - k,
        {
            let ghost before = outputs@;
            assert(keys@.take(k + 1).drop_last() =~= keys@.take(k as int));
            assert(graph.nodes@.contains_key(keys@[k as int]));
            if let Some(n) = graph.nodes.get(keys[k]) {
                if let NodeKind::GraphOutput(p) = &n.kind {
                    outputs.push((p.name.clone(), keys[k]));
                    assert(spelled_entries(outputs@) =~= spelled_entries(before).push(
                        (p.name@, keys@[k as int]),
                    ));
                }
            }
            k = k + 1;
        }
        let entry = UpstreamGraph {
            target,
            graph,
            edges: EdgeIndex::build(graph),
            ctx,
            cache,
            outputs,
        };
        proof {
            assert(keys@.take(k as int) =~= keys@);
            assert forall|other: Seq<NodeId>| #[trigger]
                is_key_order(graph.nodes@, other) implies spelled_entries(entry.outputs@)
                == exposures(graph.nodes@, other) by {
                key_order_is_unique(graph.nodes@, keys@, other);
            }
            assert(entry.wf());
        }
        let ghost before = self.entries@;
        self.entries.push(entry);
        proof {
            assert(self.entries@.drop_last() =~= before);
        }
    }

    /// The graph that references to a target read, if there is one.
    pub(crate) fn find(&self, target: GraphRefTarget) -> (r: Option<&UpstreamGraph<'g>>)
        requires
            self.wf(),
        ensures
            match r {
                Some(g) => g.wf() && self@.contains_key(target.rank()) && g@
                    == self@[target.rank()],
                None => !self@.contains_key(target.rank()),
            },
    {
        let mut k: usize = self.entries.len();
        proof {
            assert(self.entries@.take(k as int) =~= self.entries@);
        }
        while k > 0
            invariant
                k <= self.entries@.len(),
                self.wf(),
                self@.contains_key(target.rank()) == upstream_views(
                    self.entries@.take(k as int),
                ).contains_key(target.rank()),
                self@.contains_key(target.rank()) ==> self@[target.rank()] == upstream_views(
                    self.entries@.take(k as int),
                )[target.rank()],
            decreases k,
        {
            k = k - 1;
            proof {
                assert(self.entries@.take(k + 1).drop_last() =~= self.entries@.take(k as int));
                assert(self.entries@.take(k + 1).last() == self.entries@[k as int]);
                rank_identifies(self.entries@[k as int].target, target);
            }
            if self.entries[k].target == target {
                return Some(&self.entries[k]);
            }
        }
        None
    }
}

} // verus!
