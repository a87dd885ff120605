//! Giving the references of a world's graphs their pins.
use crate::boundary::{port_pins, BoundaryView, GraphBoundary, ResolvedView};
use crate::graph::Graph;
use crate::ids::GraphRefTarget;
use crate::library::LibraryGraphRegistry;
use crate::node::{Node, NodeKind};
use crate::resolve::{exposed_names, exposes, graph_resolved, library_resolved};
use crate::slots::{is_key_order, NodeId};
use crate::world::{BiomeGraph, WorldEvaluator, ZoneGraph};
use vstd::prelude::*;

verus! {

/// What resolving references across a world makes of a node: a library reference
/// takes the pins of its library; a reference to the world graph takes the outputs
/// that graph exposes; a reference to anything else takes none.
pub open spec fn node_resolved(
    libraries: Map<u32, Graph>,
    world: BoundaryView,
    before: Node,
    after: Node,
) -> bool {
    match before.kind {
        NodeKind::GraphRef(p) => {
            &&& after.position == before.position
            &&& after.kind is GraphRef
            &&& after.kind->GraphRef_0.target == p.target
            &&& match after.kind->GraphRef_0.resolved {
                Some(pins) => p.target is World && pins@ == (ResolvedView {
                    inputs: Seq::empty(),
                    outputs: port_pins(world.outputs),
                }),
                None => !(p.target is World),
            }
        },
        _ => library_resolved(libraries, before, after),
    }
}

/// What resolving references across a world makes of a graph: its nodes take their
/// pins, and nothing else about them or the edges changes.
pub open spec fn cross_resolved(
    libraries: Map<u32, Graph>,
    world: BoundaryView,
    before: Graph,
    after: Graph,
) -> bool {
    &&& after.nodes@.dom() == before.nodes@.dom()
    &&& forall|id: NodeId| #[trigger]
        before.nodes@.contains_key(id) ==> node_resolved(
            libraries,
            world,
            before.nodes@[id],
            after.nodes@[id],
        )
    &&& after.edges == before.edges
    &&& after.kind == before.kind
}

/// What resolving library references makes of a graph.
pub open spec fn libraries_resolved(libraries: Map<u32, Graph>, before: Graph, after: Graph) -> bool {
    &&& after.nodes@.dom() == before.nodes@.dom()
    &&& forall|id: NodeId| #[trigger]
        before.nodes@.contains_key(id) ==> library_resolved(
            libraries,
            before.nodes@[id],
            after.nodes@[id],
        )
    &&& after.edges == before.edges
    &&& after.kind == before.kind
}

fn resolve_world_refs(graph: &mut Graph, world: &GraphBoundary)
    ensures
        final(graph).nodes@.dom() == old(graph).nodes@.dom(),
        forall|id: NodeId| #[trigger]
            old(graph).nodes@.contains_key(id) ==> {
                let before = old(graph).nodes@[id];
                let after = final(graph).nodes@[id];
                if before.kind is GraphRef {
                    node_resolved(Map::empty(), world@, before, after)
                } else {
                    after == before
                }
            },
        final(graph).edges == old(graph).edges,
        final(graph).kind == old(graph).kind,
        final(graph).boundary == old(graph).boundary,
{
    let lookup = |t: GraphRefTarget| -> (r: Option<GraphBoundary>)
        ensures
            match r {
                Some(b) => t is World && b@ == world@,
                None => !(t is World),
            },
        {
            match t {
                GraphRefTarget::World => Some(world.clone()),
                _ => None,
            }
        };
    graph.resolve_graph_refs(lookup);
    proof {
        assert forall|id: NodeId| #[trigger] old(graph).nodes@.contains_key(id) implies ({
            let before = old(graph).nodes@[id];
            let after = graph.nodes@[id];
            if before.kind is GraphRef {
                node_resolved(Map::empty(), world@, before, after)
            } else {
                after == before
            }
        }) by {
            assert(graph_resolved(lookup, old(graph).nodes@[id], graph.nodes@[id]));
        }
    }
}

fn resolve_graph(graph: &mut Graph, libraries: &LibraryGraphRegistry, world: &GraphBoundary)
    ensures
        cross_resolved(libraries@, world@, *old(graph), *final(graph)),
        final(graph).boundary == old(graph).boundary,
{
    graph.resolve_library_refs(libraries);
    let ghost middle = *graph;
    resolve_world_refs(graph, world);
    proof {
        assert forall|id: NodeId| #[trigger] old(graph).nodes@.contains_key(id) implies node_resolved(
            libraries@,
            world@,
            old(graph).nodes@[id],
            graph.nodes@[id],
        ) by {
            assert(library_resolved(libraries@, old(graph).nodes@[id], middle.nodes@[id]));
            assert(middle.nodes@.contains_key(id));
        }
    }
}

proof fn lemma_exposed_alike(a: Map<NodeId, Node>, b: Map<NodeId, Node>, keys: Seq<NodeId>)
    requires
        forall|i: int|
            0 <= i < keys.len() ==> (a[#[trigger] keys[i]].kind is GraphOutput <==> b[keys[i]].kind
                is GraphOutput) && (a[keys[i]].kind is GraphOutput ==> a[keys[i]] == b[keys[i]]),
    ensures
        exposed_names(a, keys) == exposed_names(b, keys),
    decreases keys.len(),
{
    if keys.len() > 0 {
        let short = keys.drop_last();
        assert forall|i: int| 0 <= i < short.len() implies (a[#[trigger] short[i]].kind is GraphOutput
            <==> b[short[i]].kind is GraphOutput) && (a[short[i]].kind is GraphOutput ==> a[short[i]]
            == b[short[i]]) by {
            assert(short[i] == keys[i]);
        }
        lemma_exposed_alike(a, b, short);
        assert(keys.last() == keys[keys.len() - 1]);
    }
}

/// Resolving references keeps what a graph exposes.
proof fn lemma_resolving_keeps_exposure(
    libraries: Map<u32, Graph>,
    world: BoundaryView,
    before: Graph,
    after: Graph,
)
    requires
        cross_resolved(libraries, world, before, after),
    ensures
        exposes(before.nodes@, after.boundary@.outputs) <==> exposes(
            after.nodes@,
            after.boundary@.outputs,
        ),
{
    assert forall|keys: Seq<NodeId>| is_key_order(before.nodes@, keys) <==> is_key_order(
        after.nodes@,
        keys,
    ) by {
        assert(forall|id: NodeId| before.nodes@.contains_key(id) <==> after.nodes@.contains_key(
            id,
        )) by {
            assert(forall|id: NodeId|
                before.nodes@.dom().contains(id) <==> after.nodes@.dom().contains(id));
        }
    }
    assert forall|keys: Seq<NodeId>| #[trigger] is_key_order(before.nodes@, keys) implies exposed_names(
        before.nodes@,
        keys,
    ) == exposed_names(after.nodes@, keys) by {
        assert forall|i: int| 0 <= i < keys.len() implies (before.nodes@[#[trigger] keys[i]].kind
            is GraphOutput <==> after.nodes@[keys[i]].kind is GraphOutput) && (
        before.nodes@[keys[i]].kind is GraphOutput ==> before.nodes@[keys[i]]
            == after.nodes@[keys[i]]) by {
            assert(before.nodes@.contains_key(keys[i]));
            assert(node_resolved(
                libraries,
                world,
                before.nodes@[keys[i]],
                after.nodes@[keys[i]],
            ));
        }
        lemma_exposed_alike(before.nodes@, after.nodes@, keys);
    }
}

/// What resolving a world makes of a zone.
pub open spec fn zone_resolved(
    libraries: Map<u32, Graph>,
    world: BoundaryView,
    before: ZoneGraph,
    after: ZoneGraph,
) -> bool {
    &&& after.id == before.id
    &&& after.output == before.output
    &&& cross_resolved(libraries, world, before.graph, after.graph)
    &&& exposes(after.graph.nodes@, after.graph.boundary@.outputs)
    &&& after.graph.boundary@.inputs == before.graph.boundary@.inputs
}

/// What resolving a world makes of a biome.
pub open spec fn biome_resolved(
    libraries: Map<u32, Graph>,
    world: BoundaryView,
    before: BiomeGraph,
    after: BiomeGraph,
) -> bool {
    &&& cross_resolved(libraries, world, before.graph, after.graph)
    &&& after.graph.boundary == before.graph.boundary
    &&& match (before.detail, after.detail) {
        (Some(b), Some(a)) => cross_resolved(libraries, world, b, a) && a.boundary == b.boundary,
        (None, None) => true,
        _ => false,
    }
    &&& after == (BiomeGraph { graph: after.graph, detail: after.detail, ..before })
}

fn resolve_zones(
    zones: Vec<ZoneGraph>,
    libraries: &LibraryGraphRegistry,
    world: &GraphBoundary,
) -> (r: Vec<ZoneGraph>)
    ensures
        r@.len() == zones@.len(),
        forall|i: int|
            0 <= i < r@.len() ==> zone_resolved(
                libraries@,
                world@,
                zones@[i],
                #[trigger] r@[i],
            ),
{
    let mut left = zones;
    let ghost all = left@;
    let total: usize = left.len();
    let mut out: Vec<ZoneGraph> = Vec::new();
    let mut k: usize = 0;
    while k < total
        invariant
            k <= total,
            total == all.len(),
            left@ == all.skip(k as int),
            out@.len() == k,
            forall|i: int|
                0 <= i < k ==> zone_resolved(libraries@, world@, all[i], #[trigger] out@[i]),
        decreases total - k,
    {
        let zone = left.remove(0);
        let mut graph = zone.graph;
        graph.derive_output_boundary();
        let ghost derived = graph;
        resolve_graph(&mut graph, libraries, world);
        proof {
            assert(left@ =~= all.skip(k + 1));
            lemma_resolving_keeps_exposure(libraries@, world@, derived, graph);
            assert forall|id: NodeId| #[trigger]
                all[k as int].graph.nodes@.contains_key(id) implies node_resolved(
                libraries@,
                world@,
                all[k as int].graph.nodes@[id],
                graph.nodes@[id],
            ) by {
                assert(derived.nodes@.contains_key(id));
            }
        }
        out.push(ZoneGraph { id: zone.id, graph, output: zone.output });
        k = k + 1;
    }
    out
}

fn resolve_biomes(
    biomes: Vec<BiomeGraph>,
    libraries: &LibraryGraphRegistry,
    world: &GraphBoundary,
) -> (r: Vec<BiomeGraph>)
    ensures
        r@.len() == biomes@.len(),
        forall|i: int|
            0 <= i < r@.len() ==> biome_resolved(
                libraries@,
                world@,
                biomes@[i],
                #[trigger] r@[i],
            ),
{
    let mut left = biomes;
    let ghost all = left@;
    let total: usize = left.len();
    let mut out: Vec<BiomeGraph> = Vec::new();
    let mut k: usize = 0;
    while k < total
        invariant
            k <= total,
            total == all.len(),
            left@ == all.skip(k as int),
            out@.len() == k,
            forall|i: int|
                0 <= i < k ==> biome_resolved(libraries@, world@, all[i], #[trigger] out@[i]),
        decreases total - k,
    {
        let biome = left.remove(0);
        let mut graph = biome.graph;
        resolve_graph(&mut graph, libraries, world);
        let detail = match biome.detail {
            Some(d) => {
                let mut detail = d;
                resolve_graph(&mut detail, libraries, world);
                Some(detail)
            },
            None => None,
        };
        assert(left@ =~= all.skip(k + 1));
        out.push(
            BiomeGraph {
                id: biome.id,
                graph,
                density_node: biome.density_node,
                material_rule: biome.material_rule,
                fluid_node: biome.fluid_node,
                detail,
                params: biome.params,
            },
        );
        k = k + 1;
    }
    out
}

impl WorldEvaluator {
    /// Give every reference its pins: derive what the world and zone graphs expose,
    /// then resolve library references everywhere, and references to the world
    /// graph in zones, biomes and their foliage. Any other reference to a graph
    /// takes no pins: with several zones there is no single one to read.
    pub fn with_cross_graph_resolved(self) -> (r: Self)
        ensures
            exposes(self.world.nodes@, r.world.boundary@.outputs),
            r.world.boundary@.inputs == self.world.boundary@.inputs,
            libraries_resolved(self.libraries@, self.world, r.world),
            r.zones@.len() == self.zones@.len(),
            forall|i: int|
                0 <= i < r.zones@.len() ==> zone_resolved(
                    self.libraries@,
                    r.world.boundary@,
                    self.zones@[i],
                    #[trigger] r.zones@[i],
                ),
            r.biomes@.len() == self.biomes@.len(),
            forall|i: int|
                0 <= i < r.biomes@.len() ==> biome_resolved(
                    self.libraries@,
                    r.world.boundary@,
                    self.biomes@[i],
                    #[trigger] r.biomes@[i],
                ),
            r == (WorldEvaluator { world: r.world, zones: r.zones, biomes: r.biomes, ..self }),
    {
        let mut world = self.world;
        world.derive_output_boundary();
        world.resolve_library_refs(&self.libraries);
        let boundary = world.boundary.clone();
        let zones = resolve_zones(self.zones, &self.libraries, &boundary);
        let biomes = resolve_biomes(self.biomes, &self.libraries, &boundary);
        WorldEvaluator {
            world,
            zones,
            biomes,
            libraries: self.libraries,
            kernels: self.kernels,
            lowest_chunk: self.lowest_chunk,
            highest_chunk: self.highest_chunk,
        }
    }
}

} // verus!
