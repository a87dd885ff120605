//! What the biomes of a world are given and give: their terminals, rules and parts.
use crate::cache::OutputView;
use crate::column_cache::{ColumnCache, ColumnView};
use crate::composite::RuleView;
use crate::edge::{Edge, PinRef};
use crate::foliage::{bucket_views, paint_views, with_buckets, with_layers, ChunkFoliage};
use crate::graph::Graph;
use crate::index::scanned_source;
use crate::node::{Node, NodeKind};
use crate::scalar::Single;
use crate::scalar_params::BiomeParams;
use crate::slots::{is_key_order, NodeId};
use crate::world::{
    biome_position, feeding_node, first_terminal, implied_rule, terminal_is, with_detail,
    with_details, with_param_set, with_param_sets, zone_position, BiomeGraph, Terminal, ZoneGraph,
};
use crate::world_chunk::{all_paint, all_scatter, evaluated_fluid, evaluated_layer, planted};
use crate::world_ids::biome_by_zone;
use vstd::prelude::*;

verus! {

/// Whether a node ends a graph in a way.
pub open spec fn ends_in(node: Node, t: Terminal) -> bool {
    match node.kind {
        NodeKind::WorldOutput(_) => t == Terminal::WorldOutput,
        NodeKind::ZoneOutput(_) => t == Terminal::ZoneOutput,
        NodeKind::DensityOutput(_) => t == Terminal::DensityOutput,
        NodeKind::FluidOutput(_) => t == Terminal::FluidOutput,
        _ => false,
    }
}

proof fn lemma_first_terminal(nodes: Map<NodeId, Node>, keys: Seq<NodeId>, t: Terminal, i: int)
    requires
        0 <= i < keys.len(),
        ends_in(nodes[keys[i]], t),
        forall|j: int| 0 <= j < i ==> !ends_in(nodes[#[trigger] keys[j]], t),
    ensures
        first_terminal(nodes, keys, t) == Some(keys[i]),
    decreases keys.len(),
{
    if i > 0 {
        assert(!ends_in(nodes[keys[0]], t));
        let rest = keys.drop_first();
        assert(rest[i - 1] == keys[i]);
        assert forall|j: int| 0 <= j < i - 1 implies !ends_in(nodes[#[trigger] rest[j]], t) by {
            assert(rest[j] == keys[j + 1]);
        }
        lemma_first_terminal(nodes, rest, t, i - 1);
    }
}

proof fn lemma_no_terminal(nodes: Map<NodeId, Node>, keys: Seq<NodeId>, t: Terminal)
    requires
        forall|j: int| 0 <= j < keys.len() ==> !ends_in(nodes[#[trigger] keys[j]], t),
    ensures
        first_terminal(nodes, keys, t) is None,
    decreases keys.len(),
{
    if keys.len() > 0 {
        assert(!ends_in(nodes[keys[0]], t));
        let rest = keys.drop_first();
        assert forall|j: int| 0 <= j < rest.len() implies !ends_in(nodes[#[trigger] rest[j]], t) by {
            assert(rest[j] == keys[j + 1]);
        }
        lemma_no_terminal(nodes, rest, t);
    }
}

/// A graph's terminal is its first node, by slot, that ends it in that way; it has none just
/// where no node does.
pub proof fn terminals_come_first(
    nodes: Map<NodeId, Node>,
    keys: Seq<NodeId>,
    t: Terminal,
    found: Option<NodeId>,
    id: NodeId,
)
    requires
        is_key_order(nodes, keys),
        terminal_is(nodes, t, found),
        nodes.contains_key(id),
        ends_in(nodes[id], t),
    ensures
        found matches Some(f) && nodes.contains_key(f) && ends_in(nodes[f], t) && f.slot()
            <= id.slot(),
{
    assert(keys.contains(id));
    let at = choose|at: int| 0 <= at < keys.len() && keys[at] == id;
    let i = lemma_first_of(nodes, keys, t, at);
    lemma_first_terminal(nodes, keys, t, i);
    assert(nodes.contains_key(keys[i]));
    if i < at {
        assert(keys[i].slot() < keys[at].slot());
    }
}

proof fn lemma_first_of(nodes: Map<NodeId, Node>, keys: Seq<NodeId>, t: Terminal, at: int) -> (i: int)
    requires
        0 <= at < keys.len(),
        ends_in(nodes[keys[at]], t),
    ensures
        0 <= i <= at,
        ends_in(nodes[keys[i]], t),
        forall|j: int| 0 <= j < i ==> !ends_in(nodes[#[trigger] keys[j]], t),
    decreases at,
{
    if exists|j: int| 0 <= j < at && ends_in(nodes[#[trigger] keys[j]], t) {
        let j = choose|j: int| 0 <= j < at && ends_in(nodes[#[trigger] keys[j]], t);
        lemma_first_of(nodes, keys, t, j)
    } else {
        at
    }
}

/// A graph without a node that ends it in a way has no such terminal.
pub proof fn terminals_are_not_made_up(
    nodes: Map<NodeId, Node>,
    keys: Seq<NodeId>,
    t: Terminal,
    found: Option<NodeId>,
)
    requires
        is_key_order(nodes, keys),
        terminal_is(nodes, t, found),
        forall|id: NodeId| #[trigger] nodes.contains_key(id) ==> !ends_in(nodes[id], t),
    ensures
        found is None,
{
    assert forall|j: int| 0 <= j < keys.len() implies !ends_in(nodes[#[trigger] keys[j]], t) by {
        assert(nodes.contains_key(keys[j]));
    }
    lemma_no_terminal(nodes, keys, t);
}

/// Whether the first edge into an input pin comes from a node.
pub open spec fn first_feeds(edges: Seq<Edge>, node: NodeId, pin: u16, source: NodeId) -> bool {
    exists|i: int|
        0 <= i < edges.len() && (#[trigger] edges[i]).to == (PinRef { node, pin })
            && edges[i].from.node == source && forall|j: int|
            0 <= j < i ==> (#[trigger] edges[j]).to != (PinRef { node, pin })
}

/// Whether no edge leads into an input pin.
pub open spec fn feeds_nothing(edges: Seq<Edge>, node: NodeId, pin: u16) -> bool {
    forall|i: int| 0 <= i < edges.len() ==> (#[trigger] edges[i]).to != (PinRef { node, pin })
}

proof fn lemma_feeding(edges: Seq<Edge>, node: NodeId, pin: u16, i: int)
    requires
        0 <= i <= edges.len(),
        i < edges.len() ==> edges[i].to == (PinRef { node, pin }),
        forall|j: int| 0 <= j < i ==> (#[trigger] edges[j]).to != (PinRef { node, pin }),
    ensures
        i < edges.len() ==> scanned_source(edges, node, pin) == Some(edges[i].from),
        i == edges.len() ==> scanned_source(edges, node, pin) is None,
    decreases edges.len(),
{
    if i > 0 {
        assert(edges[0].to != (PinRef { node, pin }));
        let rest = edges.drop_first();
        assert forall|j: int| 0 <= j < i - 1 implies (#[trigger] rest[j]).to != (PinRef {
            node,
            pin,
        }) by {
            assert(rest[j] == edges[j + 1]);
        }
        lemma_feeding(rest, node, pin, i - 1);
    }
}

/// Scanning a pin's edges finds the node at the other end of the first of them, and nothing
/// just where there is none.
pub proof fn scans_find_the_first_source(edges: Seq<Edge>, node: NodeId, pin: u16, source: NodeId)
    ensures
        first_feeds(edges, node, pin, source) ==> feeding_node(edges, node, pin) == Some(source),
        feeds_nothing(edges, node, pin) ==> feeding_node(edges, node, pin) is None,
{
    if first_feeds(edges, node, pin, source) {
        let i = choose|i: int|
            0 <= i < edges.len() && (#[trigger] edges[i]).to == (PinRef { node, pin })
                && edges[i].from.node == source && forall|j: int|
                0 <= j < i ==> (#[trigger] edges[j]).to != (PinRef { node, pin });
        lemma_feeding(edges, node, pin, i);
    }
    if feeds_nothing(edges, node, pin) {
        lemma_feeding(edges, node, pin, edges.len() as int);
    }
}

/// A biome's material goes by what feeds its density terminal's second pin: the bands of a
/// layer node, one material of a constant, and otherwise, or where nothing feeds it, the
/// computed field.
pub proof fn rules_follow_the_material_pin(
    nodes: Map<NodeId, Node>,
    edges: Seq<Edge>,
    terminal: NodeId,
    source: NodeId,
)
    ensures
        feeds_nothing(edges, terminal, 1) ==> implied_rule(nodes, edges, terminal)
            == RuleView::Field,
        first_feeds(edges, terminal, 1, source) && nodes.contains_key(source) ==> {
            let rule = implied_rule(nodes, edges, terminal);
            match nodes[source].kind {
                NodeKind::Layer(p) => rule is Layer && rule->bands == p.bands@ && rule->fill
                    == p.fill,
                NodeKind::ConstantMaterial(p) => rule is Uniform && rule->Uniform_0 == p.material,
                _ => rule is Field,
            }
        },
        first_feeds(edges, terminal, 1, source) && !nodes.contains_key(source) ==> implied_rule(
            nodes,
            edges,
            terminal,
        ) is Field,
{
    scans_find_the_first_source(edges, terminal, 1, source);
}

/// Whether the biome of an id, the first of several, has a place in a list.
pub open spec fn is_first_biome(biomes: Seq<BiomeGraph>, id: u16, at: int) -> bool {
    &&& 0 <= at < biomes.len()
    &&& biomes[at].id == id
    &&& forall|j: int| 0 <= j < at ==> (#[trigger] biomes[j]).id != id
}

/// Whether no biome of a list has an id.
pub open spec fn has_no_biome(biomes: Seq<BiomeGraph>, id: u16) -> bool {
    forall|j: int| 0 <= j < biomes.len() ==> (#[trigger] biomes[j]).id != id
}

proof fn lemma_position(biomes: Seq<BiomeGraph>, id: u16, from: int, at: int)
    requires
        0 <= from <= at <= biomes.len(),
        at < biomes.len() ==> biomes[at].id == id,
        forall|j: int| from <= j < at ==> (#[trigger] biomes[j]).id != id,
    ensures
        biome_position(biomes, id, from) == at,
    decreases at - from,
{
    if from < at {
        assert(biomes[from].id != id);
        lemma_position(biomes, id, from + 1, at);
    }
}

proof fn lemma_position_bound(biomes: Seq<BiomeGraph>, id: u16, from: int)
    requires
        0 <= from,
    ensures
        biome_position(biomes, id, from) >= from,
    decreases biomes.len() - from,
{
    if from < biomes.len() && biomes[from].id != id {
        lemma_position_bound(biomes, id, from + 1);
    }
}

proof fn lemma_first_biome(biomes: Seq<BiomeGraph>, id: u16, at: int)
    ensures
        is_first_biome(biomes, id, at) ==> biome_position(biomes, id, 0) == at,
        has_no_biome(biomes, id) ==> biome_position(biomes, id, 0) == biomes.len(),
{
    if is_first_biome(biomes, id, at) {
        lemma_position(biomes, id, 0, at);
    }
    if has_no_biome(biomes, id) {
        lemma_position(biomes, id, 0, biomes.len() as int);
    }
}

/// Attached foliage goes to the first biome of its id and to nothing else of it; the rest of
/// the biomes stay as they are, all of them where none has the id. Of several, the last for
/// a biome stays.
pub proof fn foliage_goes_to_its_biome(
    biomes: Seq<BiomeGraph>,
    details: Seq<(u16, Graph)>,
    id: u16,
    detail: Graph,
    at: int,
    i: int,
)
    ensures
        with_details(biomes, Seq::empty()) == biomes,
        with_details(biomes, details.push((id, detail))) == with_detail(
            with_details(biomes, details),
            id,
            detail,
        ),
        with_detail(biomes, id, detail).len() == biomes.len(),
        has_no_biome(biomes, id) ==> with_detail(biomes, id, detail) == biomes,
        is_first_biome(biomes, id, at) && 0 <= i < biomes.len() && i != at ==> with_detail(
            biomes,
            id,
            detail,
        )[i] == biomes[i],
        is_first_biome(biomes, id, at) ==> {
            let b = with_detail(biomes, id, detail)[at];
            &&& b.detail == Some(detail)
            &&& b.id == id
            &&& b.graph == biomes[at].graph
            &&& b.density_node == biomes[at].density_node
            &&& b.material_rule == biomes[at].material_rule
            &&& b.fluid_node == biomes[at].fluid_node
            &&& b.params == biomes[at].params
        },
{
    lemma_first_biome(biomes, id, at);
    lemma_position_bound(biomes, id, 0);
    assert(details.push((id, detail)).drop_last() =~= details);
}

/// Attached parameters go to the first biome of their id and to nothing else of it; the rest
/// of the biomes stay as they are, all of them where none has the id. Of several, the last
/// for a biome stays.
pub proof fn parameters_go_to_their_biome(
    biomes: Seq<BiomeGraph>,
    sets: Seq<(u16, BiomeParams)>,
    id: u16,
    params: BiomeParams,
    at: int,
    i: int,
)
    ensures
        with_param_sets(biomes, Seq::empty()) == biomes,
        with_param_sets(biomes, sets.push((id, params))) == with_param_set(
            with_param_sets(biomes, sets),
            id,
            params,
        ),
        with_param_set(biomes, id, params).len() == biomes.len(),
        has_no_biome(biomes, id) ==> with_param_set(biomes, id, params) == biomes,
        is_first_biome(biomes, id, at) && 0 <= i < biomes.len() && i != at ==> with_param_set(
            biomes,
            id,
            params,
        )[i] == biomes[i],
        is_first_biome(biomes, id, at) ==> {
            let b = with_param_set(biomes, id, params)[at];
            &&& b.params == params
            &&& b.id == id
            &&& b.graph == biomes[at].graph
            &&& b.density_node == biomes[at].density_node
            &&& b.material_rule == biomes[at].material_rule
            &&& b.fluid_node == biomes[at].fluid_node
            &&& b.detail == biomes[at].detail
        },
{
    lemma_first_biome(biomes, id, at);
    lemma_position_bound(biomes, id, 0);
    assert(sets.push((id, params)).drop_last() =~= sets);
}

/// A biome's layer is what its density terminal was evaluated to, with its id and rule; a
/// biome without one, or without a value there, has no layer.
pub proof fn layers_are_what_the_terminal_holds(
    biomes: Seq<BiomeGraph>,
    id: u16,
    cache: Map<u64, OutputView>,
    at: int,
    n: NodeId,
    density: Seq<Single>,
)
    ensures
        has_no_biome(biomes, id) ==> evaluated_layer(biomes, id, cache) is None,
        is_first_biome(biomes, id, at) && biomes[at].density_node is None ==> evaluated_layer(
            biomes,
            id,
            cache,
        ) is None,
        is_first_biome(biomes, id, at) && biomes[at].density_node == Some(n) ==> {
            let layer = evaluated_layer(biomes, id, cache);
            &&& layer is Some <==> cache.contains_key(n.code()) && cache[n.code()] is BiomeLayer
            &&& layer is Some ==> layer->0.id == id && layer->0.density
                == cache[n.code()]->density && layer->0.material == cache[n.code()]->material
                && layer->0.rule == biomes[at].material_rule@
        },
{
    lemma_first_biome(biomes, id, at);
}

/// A biome's ponds are masked by what its fluid terminal was evaluated to, and stand at the
/// first value of what feeds the terminal's first pin; a biome without the one or the other
/// has no ponds.
pub proof fn ponds_stand_at_the_level_that_feeds_them(
    biomes: Seq<BiomeGraph>,
    id: u16,
    cache: Map<u64, OutputView>,
    at: int,
    n: NodeId,
    source: NodeId,
)
    ensures
        has_no_biome(biomes, id) ==> evaluated_fluid(biomes, id, cache) is None,
        is_first_biome(biomes, id, at) && biomes[at].fluid_node is None ==> evaluated_fluid(
            biomes,
            id,
            cache,
        ) is None,
        is_first_biome(biomes, id, at) && biomes[at].fluid_node == Some(n) && feeds_nothing(
            biomes[at].graph.edges@,
            n,
            0,
        ) ==> evaluated_fluid(biomes, id, cache) is None,
        is_first_biome(biomes, id, at) && biomes[at].fluid_node == Some(n) && first_feeds(
            biomes[at].graph.edges@,
            n,
            0,
            source,
        ) ==> {
            let fluid = evaluated_fluid(biomes, id, cache);
            &&& fluid is Some <==> cache.contains_key(n.code()) && cache[n.code()] is Scalar
                && cache.contains_key(source.code()) && cache[source.code()] is Scalar
            &&& fluid is Some ==> (fluid->0).0 == cache[n.code()]->Scalar_0 && (fluid->0).1
                == cache[source.code()]->Scalar_0[0]
        },
{
    lemma_first_biome(biomes, id, at);
    if is_first_biome(biomes, id, at) {
        scans_find_the_first_source(biomes[at].graph.edges@, n, 0, source);
    }
}

/// Of the biomes present, in order, those with a foliage graph are planted, each by its
/// first entry.
pub proof fn biomes_with_foliage_are_planted(
    biomes: Seq<BiomeGraph>,
    present: Seq<u16>,
    id: u16,
    at: int,
)
    ensures
        planted(biomes, Seq::empty()).len() == 0,
        has_no_biome(biomes, id) ==> planted(biomes, present.push(id)) == planted(biomes, present),
        is_first_biome(biomes, id, at) && biomes[at].detail is Some ==> planted(
            biomes,
            present.push(id),
        ) == planted(biomes, present).push((id, at)),
        is_first_biome(biomes, id, at) && biomes[at].detail is None ==> planted(
            biomes,
            present.push(id),
        ) == planted(biomes, present),
{
    lemma_first_biome(biomes, id, at);
    assert(present.push(id).drop_last() =~= present);
}

/// The foliage of several biomes is merged one after the other.
pub proof fn foliage_is_merged_in_order(parts: Seq<ChunkFoliage>, part: ChunkFoliage)
    ensures
        all_paint(Seq::empty()).len() == 0,
        all_scatter(Seq::empty()).len() == 0,
        all_paint(parts.push(part)) == with_layers(all_paint(parts), paint_views(part.paint@)),
        all_scatter(parts.push(part)) == with_buckets(
            all_scatter(parts),
            bucket_views(part.scatter@),
        ),
{
    assert(parts.push(part).drop_last() =~= parts);
}

/// Whether the zone of an id, the first of several, has a place in a list.
pub open spec fn is_first_zone(zones: Seq<ZoneGraph>, id: u16, at: int) -> bool {
    &&& 0 <= at < zones.len()
    &&& zones[at].id == id
    &&& forall|j: int| 0 <= j < at ==> (#[trigger] zones[j]).id != id
}

proof fn lemma_zone_position(zones: Seq<ZoneGraph>, id: u16, from: int, at: int)
    requires
        0 <= from <= at <= zones.len(),
        at < zones.len() ==> zones[at].id == id,
        forall|j: int| from <= j < at ==> (#[trigger] zones[j]).id != id,
    ensures
        zone_position(zones, id, from) == at,
    decreases at - from,
{
    if from < at {
        assert(zones[from].id != id);
        lemma_zone_position(zones, id, from + 1, at);
    }
}

/// A column has the biome that its zone's graph holds for the column: the zone being the
/// column's own, 0 where none were resolved, and its graph the first of that id. It has
/// biome 0 where no graph is for the zone, the graph has no terminal, or holds no ids there.
pub proof fn zones_assign_the_biomes_of_their_columns(
    zones: Seq<ZoneGraph>,
    caches: Seq<ColumnCache>,
    zone_ids: Option<Seq<u16>>,
    x: int,
    z: int,
    zone: u16,
    at: int,
)
    requires
        zone_ids is Some ==> zone_ids->0[x + 32 * z] == zone,
        zone_ids is None ==> zone == 0,
    ensures
        (forall|j: int| 0 <= j < zones.len() ==> (#[trigger] zones[j]).id != zone) ==> biome_by_zone(
            zones,
            caches,
            zone_ids,
            x,
            z,
        ) == 0,
        is_first_zone(zones, zone, at) ==> match zones[at].output {
            None => biome_by_zone(zones, caches, zone_ids, x, z) == 0,
            Some(n) => if caches[at]@.contains_key(n.code()) {
                match caches[at]@[n.code()] {
                    ColumnView::Id(ids) => biome_by_zone(zones, caches, zone_ids, x, z) == ids[x
                        + 32 * z],
                    ColumnView::Surface(_) => biome_by_zone(zones, caches, zone_ids, x, z) == 0,
                }
            } else {
                biome_by_zone(zones, caches, zone_ids, x, z) == 0
            },
        },
{
    if is_first_zone(zones, zone, at) {
        lemma_zone_position(zones, zone, 0, at);
    }
    if forall|j: int| 0 <= j < zones.len() ==> (#[trigger] zones[j]).id != zone {
        lemma_zone_position(zones, zone, 0, zones.len() as int);
    }
}

} // verus!
