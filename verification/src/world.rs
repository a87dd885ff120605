//! The graphs of one world: what assigns zones and biomes to columns, and what
//! each biome generates.
use crate::bands::{assignable, assignable_ids};
use crate::composite::{BiomeMaterialRule, RuleView};
use crate::edge::Edge;
use crate::graph::Graph;
use crate::ids::GraphKind;
use crate::index::scanned_source;
use crate::library::LibraryGraphRegistry;
use crate::library_kernel::LibraryKernel;
use crate::node::{Node, NodeKind};
use crate::scalar::Single;
use crate::scalar_params::BiomeParams;
use crate::slots::{is_key_order, key_order_is_unique, NodeId};
use crate::params::copy_vec;
use std::collections::HashMap;
use vstd::prelude::*;

verus! {

/// The terminals that a graph may have.
#[derive(Clone, Copy, PartialEq, Eq, Structural, Debug)]
pub enum Terminal {
    /// Assigns zones to columns.
    WorldOutput,
    /// Assigns biomes to columns.
    ZoneOutput,
    /// Gives a biome's density and material.
    DensityOutput,
    /// Gives a biome's ponds.
    FluidOutput,
}

/// Whether a node is a terminal of a kind.
pub open spec fn is_terminal(kind: NodeKind, t: Terminal) -> bool {
    match t {
        Terminal::WorldOutput => kind is WorldOutput,
        Terminal::ZoneOutput => kind is ZoneOutput,
        Terminal::DensityOutput => kind is DensityOutput,
        Terminal::FluidOutput => kind is FluidOutput,
    }
}

/// The first of listed nodes that is a terminal of a kind.
pub open spec fn first_terminal(nodes: Map<NodeId, Node>, keys: Seq<NodeId>, t: Terminal) -> Option<
    NodeId,
>
    decreases keys.len(),
{
    if keys.len() == 0 {
        None
    } else if is_terminal(nodes[keys[0]].kind, t) {
        Some(keys[0])
    } else {
        first_terminal(nodes, keys.drop_first(), t)
    }
}

/// Whether a node is the terminal of a kind that a graph has first, if it has one.
pub open spec fn terminal_is(nodes: Map<NodeId, Node>, t: Terminal, id: Option<NodeId>) -> bool {
    forall|keys: Seq<NodeId>| #[trigger]
        is_key_order(nodes, keys) ==> id == first_terminal(nodes, keys, t)
}

fn matches_terminal(kind: &NodeKind, t: Terminal) -> (r: bool)
    ensures
        r == is_terminal(*kind, t),
{
    match (t, kind) {
        (Terminal::WorldOutput, NodeKind::WorldOutput(_)) => true,
        (Terminal::ZoneOutput, NodeKind::ZoneOutput(_)) => true,
        (Terminal::DensityOutput, NodeKind::DensityOutput(_)) => true,
        (Terminal::FluidOutput, NodeKind::FluidOutput(_)) => true,
        _ => false,
    }
}

/// The terminal of a kind that a graph has first, if it has one.
pub fn find_terminal(graph: &Graph, t: Terminal) -> (r: Option<NodeId>)
    ensures
        terminal_is(graph.nodes@, t, r),
        r matches Some(id) ==> graph.nodes@.contains_key(id) && is_terminal(
            graph.nodes@[id].kind,
            t,
        ),
{
    let keys = graph.nodes.keys();
    let mut k: usize = 0;
    assert(keys@.skip(0) =~= keys@);
    while k < keys.len()
        invariant
            k <= keys@.len(),
            is_key_order(graph.nodes@, keys@),
            first_terminal(graph.nodes@, keys@, t) == first_terminal(
                graph.nodes@,
                keys@.skip(k as int),
                t,
            ),
        decreases keys@.len() - k,
    {
        assert(keys@.skip(k as int)[0] == keys@[k as int]);
        assert(keys@.skip(k as int).drop_first() =~= keys@.skip(k + 1));
        assert(graph.nodes@.contains_key(keys@[k as int]));
        if let Some(n) = graph.nodes.get(keys[k]) {
            if matches_terminal(&n.kind, t) {
                proof {
                    lemma_terminal_order(graph.nodes@, keys@, t);
                }
                return Some(keys[k]);
            }
        }
        k = k + 1;
    }
    proof {
        lemma_terminal_order(graph.nodes@, keys@, t);
    }
    None
}

proof fn lemma_terminal_order(nodes: Map<NodeId, Node>, keys: Seq<NodeId>, t: Terminal)
    requires
        is_key_order(nodes, keys),
    ensures
        terminal_is(nodes, t, first_terminal(nodes, keys, t)),
{
    assert forall|other: Seq<NodeId>| #[trigger] is_key_order(nodes, other) implies first_terminal(
        nodes,
        keys,
        t,
    ) == first_terminal(nodes, other, t) by {
        key_order_is_unique(nodes, keys, other);
    }
}

/// The node that feeds an input pin first, if any does.
pub open spec fn feeding_node(edges: Seq<Edge>, node: NodeId, pin: u16) -> Option<NodeId> {
    match scanned_source(edges, node, pin) {
        Some(from) => Some(from.node),
        None => None,
    }
}

/// The node that feeds an input pin first, if any does.
pub fn input_source(graph: &Graph, node: NodeId, pin: u16) -> (r: Option<NodeId>)
    ensures
        r == feeding_node(graph.edges@, node, pin),
{
    let ghost edges = graph.edges@;
    let mut k: usize = 0;
    assert(edges.skip(0) =~= edges);
    while k < graph.edges.len()
        invariant
            k <= edges.len(),
            edges == graph.edges@,
            scanned_source(edges, node, pin) == scanned_source(edges.skip(k as int), node, pin),
        decreases edges.len() - k,
    {
        let e = graph.edges[k];
        assert(edges.skip(k as int)[0] == e);
        assert(edges.skip(k as int).drop_first() =~= edges.skip(k + 1));
        if e.to.node == node && e.to.pin == pin {
            return Some(e.from.node);
        }
        k = k + 1;
    }
    None
}

/// The rule that a biome's terminal implies: the bands or the one material that
/// feed its material pin, else the computed field.
pub open spec fn implied_rule(nodes: Map<NodeId, Node>, edges: Seq<Edge>, id: NodeId) -> RuleView {
    match feeding_node(edges, id, 1) {
        None => RuleView::Field,
        Some(from) => if !nodes.contains_key(from) {
            RuleView::Field
        } else {
            match nodes[from].kind {
                NodeKind::Layer(p) => RuleView::Layer { bands: p.bands@, fill: p.fill },
                NodeKind::ConstantMaterial(p) => RuleView::Uniform(p.material),
                _ => RuleView::Field,
            }
        },
    }
}

/// The rule that a biome's terminal implies.
pub fn extract_material_rule(graph: &Graph, density_node: NodeId) -> (r: BiomeMaterialRule)
    ensures
        r@ == implied_rule(graph.nodes@, graph.edges@, density_node),
{
    match input_source(graph, density_node, 1) {
        None => BiomeMaterialRule::Field,
        Some(from) => match graph.nodes.get(from) {
            None => BiomeMaterialRule::Field,
            Some(node) => match &node.kind {
                NodeKind::Layer(p) => BiomeMaterialRule::Layer {
                    bands: copy_vec(&p.bands),
                    fill: p.fill,
                },
                NodeKind::ConstantMaterial(p) => BiomeMaterialRule::Uniform(p.material),
                _ => BiomeMaterialRule::Field,
            },
        },
    }
}

/// One biome: its graph, what was found in it, and what belongs to it.
#[derive(Debug)]
pub struct BiomeGraph {
    /// The biome.
    pub id: u16,
    /// Its terrain graph.
    pub graph: Graph,
    /// The graph's density terminal. Without one the biome is air.
    pub density_node: Option<NodeId>,
    /// How the biome assigns material.
    pub material_rule: BiomeMaterialRule,
    /// The graph's fluid terminal, if the biome has ponds.
    pub fluid_node: Option<NodeId>,
    /// The graph of its foliage, if it has any.
    pub detail: Option<Graph>,
    /// Its scalar parameters.
    pub params: BiomeParams,
}

impl BiomeGraph {
    /// Whether what was found in the graph is there.
    pub open spec fn located(&self) -> bool {
        &&& terminal_is(self.graph.nodes@, Terminal::DensityOutput, self.density_node)
        &&& terminal_is(self.graph.nodes@, Terminal::FluidOutput, self.fluid_node)
        &&& match self.density_node {
            Some(n) => self.material_rule@ == implied_rule(
                self.graph.nodes@,
                self.graph.edges@,
                n,
            ),
            None => self.material_rule@ == RuleView::Field,
        }
    }

    /// A biome with no foliage and no parameters.
    pub fn new(id: u16, graph: Graph) -> (r: Self)
        ensures
            r.id == id,
            r.graph == graph,
            r.located(),
            r.detail is None,
            r.params@ == Map::<Seq<char>, Single>::empty(),
    {
        let density_node = find_terminal(&graph, Terminal::DensityOutput);
        let material_rule = match density_node {
            Some(n) => extract_material_rule(&graph, n),
            None => BiomeMaterialRule::Field,
        };
        let fluid_node = find_terminal(&graph, Terminal::FluidOutput);
        BiomeGraph {
            id,
            graph,
            density_node,
            material_rule,
            fluid_node,
            detail: None,
            params: BiomeParams::new(),
        }
    }
}

/// One zone: its graph, and the terminal that assigns biomes.
#[derive(Debug)]
pub struct ZoneGraph {
    /// The zone.
    pub id: u16,
    /// Its graph.
    pub graph: Graph,
    /// The graph's terminal. Without one the zone assigns biome 0.
    pub output: Option<NodeId>,
}

/// The graphs of one world.
#[derive(Debug)]
pub struct WorldEvaluator {
    /// Assigns zones to columns.
    pub world: Graph,
    /// Assign biomes to the columns of their zones.
    pub zones: Vec<ZoneGraph>,
    /// Generate the biomes.
    pub biomes: Vec<BiomeGraph>,
    /// The libraries that graphs reference.
    pub libraries: LibraryGraphRegistry,
    /// What each library computes.
    pub kernels: HashMap<u32, LibraryKernel>,
    /// First chunk of the world's vertical extent.
    pub lowest_chunk: i32,
    /// One past the last chunk of the world's vertical extent.
    pub highest_chunk: i32,
}

/// Position of the first biome with an id, from `from` on; the length if none.
pub open spec fn biome_position(biomes: Seq<BiomeGraph>, id: u16, from: int) -> int
    decreases biomes.len() - from,
{
    if from < 0 || from >= biomes.len() || biomes[from].id == id {
        from
    } else {
        biome_position(biomes, id, from + 1)
    }
}

/// Position of the first zone with an id, from `from` on; the length if none.
pub open spec fn zone_position(zones: Seq<ZoneGraph>, id: u16, from: int) -> int
    decreases zones.len() - from,
{
    if from < 0 || from >= zones.len() || zones[from].id == id {
        from
    } else {
        zone_position(zones, id, from + 1)
    }
}

/// Position of the first biome with an id; the length if none.
pub(crate) fn find_biome(biomes: &Vec<BiomeGraph>, id: u16) -> (r: usize)
    ensures
        r == biome_position(biomes@, id, 0),
        r <= biomes@.len(),
        r < biomes@.len() ==> biomes@[r as int].id == id,
{
    let mut k: usize = 0;
    while k < biomes.len() && biomes[k].id != id
        invariant
            k <= biomes@.len(),
            biome_position(biomes@, id, 0) == biome_position(biomes@, id, k as int),
        decreases biomes@.len() - k,
    {
        k = k + 1;
    }
    k
}

/// Position of the first zone with an id; the length if none.
pub(crate) fn find_zone(zones: &Vec<ZoneGraph>, id: u16) -> (r: usize)
    ensures
        r == zone_position(zones@, id, 0),
        r <= zones@.len(),
        r < zones@.len() ==> zones@[r as int].id == id,
{
    let mut k: usize = 0;
    while k < zones.len() && zones[k].id != id
        invariant
            k <= zones@.len(),
            zone_position(zones@, id, 0) == zone_position(zones@, id, k as int),
        decreases zones@.len() - k,
    {
        k = k + 1;
    }
    k
}

/// Biomes with a foliage graph attached to the first of an id, if there is one.
pub open spec fn with_detail(biomes: Seq<BiomeGraph>, id: u16, detail: Graph) -> Seq<BiomeGraph> {
    let at = biome_position(biomes, id, 0);
    if at < biomes.len() {
        biomes.update(at, BiomeGraph { detail: Some(detail), ..biomes[at] })
    } else {
        biomes
    }
}

/// Biomes with foliage graphs attached, in order.
pub open spec fn with_details(biomes: Seq<BiomeGraph>, details: Seq<(u16, Graph)>) -> Seq<BiomeGraph>
    decreases details.len(),
{
    if details.len() == 0 {
        biomes
    } else {
        let (id, detail) = details.last();
        with_detail(with_details(biomes, details.drop_last()), id, detail)
    }
}

/// Biomes with parameters attached to the first of an id, if there is one.
pub open spec fn with_param_set(biomes: Seq<BiomeGraph>, id: u16, params: BiomeParams) -> Seq<
    BiomeGraph,
> {
    let at = biome_position(biomes, id, 0);
    if at < biomes.len() {
        biomes.update(at, BiomeGraph { params, ..biomes[at] })
    } else {
        biomes
    }
}

/// Biomes with parameters attached, in order.
pub open spec fn with_param_sets(biomes: Seq<BiomeGraph>, params: Seq<(u16, BiomeParams)>) -> Seq<
    BiomeGraph,
>
    decreases params.len(),
{
    if params.len() == 0 {
        biomes
    } else {
        let (id, p) = params.last();
        with_param_set(with_param_sets(biomes, params.drop_last()), id, p)
    }
}

/// Whether a world graph can assign a zone: one of its terminal's, or 0 without a
/// terminal.
pub open spec fn zone_assignable(nodes: Map<NodeId, Node>, z: u16) -> bool {
    forall|n: Option<NodeId>| #[trigger]
        terminal_is(nodes, Terminal::WorldOutput, n) ==> match n {
            None => z == 0,
            Some(id) => assignable(
                nodes[id].kind->WorldOutput_0.zone_bands@.len() as int,
                nodes[id].kind->WorldOutput_0.zone_ids@,
                z,
            ),
        }
}

proof fn lemma_push_contains(s: Seq<u16>, id: u16, z: u16)
    ensures
        s.push(id).contains(z) <==> s.contains(z) || z == id,
{
    let t = s.push(id);
    if s.contains(z) {
        let i = choose|i: int| 0 <= i < s.len() && s[i] == z;
        assert(t[i] == z);
    }
    if z == id {
        assert(t[s.len() as int] == z);
    }
    if t.contains(z) && z != id {
        let i = choose|i: int| 0 <= i < t.len() && t[i] == z;
        assert(s[i] == z);
    }
}

impl WorldEvaluator {
    /// A world of one biome, with no zones and no libraries.
    pub fn new(biome: Graph) -> (r: Self)
        ensures
            r.world.kind == GraphKind::World,
            r.world.nodes@ == Map::<NodeId, Node>::empty(),
            r.world.edges@ == Seq::<Edge>::empty(),
            r.world.boundary@.inputs.len() == 0,
            r.world.boundary@.outputs.len() == 0,
            r.zones@.len() == 0,
            r.biomes@.len() == 1,
            r.biomes@[0].id == 0,
            r.biomes@[0].graph == biome,
            r.biomes@[0].located(),
            r.biomes@[0].detail is None,
            r.biomes@[0].params@ == Map::<Seq<char>, Single>::empty(),
            r.libraries@ == Map::<u32, Graph>::empty(),
            r.kernels@ == Map::<u32, LibraryKernel>::empty(),
            r.lowest_chunk == 0,
            r.highest_chunk == 4,
    {
        let mut biomes: Vec<BiomeGraph> = Vec::new();
        biomes.push(BiomeGraph::new(0, biome));
        WorldEvaluator {
            world: Graph::of_kind(GraphKind::World),
            zones: Vec::new(),
            biomes,
            libraries: LibraryGraphRegistry::new(),
            kernels: HashMap::new(),
            lowest_chunk: 0,
            highest_chunk: 4,
        }
    }

    /// Replace the graph that assigns zones.
    pub fn with_world(self, world: Graph) -> (r: Self)
        ensures
            r == (WorldEvaluator { world, ..self }),
    {
        WorldEvaluator { world, ..self }
    }

    /// Install a single zone, number 0.
    pub fn with_zone(self, zone: Graph) -> (r: Self)
        ensures
            r.zones@.len() == 1,
            r.zones@[0].id == 0,
            r.zones@[0].graph == zone,
            terminal_is(zone.nodes@, Terminal::ZoneOutput, r.zones@[0].output),
            r == (WorldEvaluator { zones: r.zones, ..self }),
    {
        let output = find_terminal(&zone, Terminal::ZoneOutput);
        let mut zones: Vec<ZoneGraph> = Vec::new();
        zones.push(ZoneGraph { id: 0, graph: zone, output });
        WorldEvaluator { zones, ..self }
    }

    /// Replace the zones, finding the terminal of each.
    pub fn with_zones(self, zones: Vec<(u16, Graph)>) -> (r: Self)
        ensures
            r.zones@.len() == zones@.len(),
            forall|i: int|
                0 <= i < zones@.len() ==> {
                    &&& (#[trigger] r.zones@[i]).id == zones@[i].0
                    &&& r.zones@[i].graph == zones@[i].1
                    &&& terminal_is(zones@[i].1.nodes@, Terminal::ZoneOutput, r.zones@[i].output)
                },
            r == (WorldEvaluator { zones: r.zones, ..self }),
    {
        let mut left = zones;
        let ghost all = left@;
        let total: usize = left.len();
        let mut out: Vec<ZoneGraph> = Vec::new();
        let mut k: usize = 0;
        while k < total
            invariant
                k <= total,
                total == all.len(),
                left@ == all.skip(k as int),
                out@.len() == k,
                forall|i: int|
                    0 <= i < k ==> {
                        &&& (#[trigger] out@[i]).id == all[i].0
                        &&& out@[i].graph == all[i].1
                        &&& terminal_is(all[i].1.nodes@, Terminal::ZoneOutput, out@[i].output)
                    },
            decreases total - k,
        {
            let (id, graph) = left.remove(0);
            let output = find_terminal(&graph, Terminal::ZoneOutput);
            out.push(ZoneGraph { id, graph, output });
            assert(left@ =~= all.skip(k + 1));
            k = k + 1;
        }
        WorldEvaluator { zones: out, ..self }
    }

    /// Replace the biomes, finding the terminals of each.
    pub fn with_biomes(self, biomes: Vec<(u16, Graph)>) -> (r: Self)
        ensures
            r.biomes@.len() == biomes@.len(),
            forall|i: int|
                0 <= i < biomes@.len() ==> {
                    &&& (#[trigger] r.biomes@[i]).id == biomes@[i].0
                    &&& r.biomes@[i].graph == biomes@[i].1
                    &&& r.biomes@[i].located()
                    &&& r.biomes@[i].detail is None
                    &&& r.biomes@[i].params@ == Map::<Seq<char>, Single>::empty()
                },
            r == (WorldEvaluator { biomes: r.biomes, ..self }),
    {
        let mut left = biomes;
        let ghost all = left@;
        let total: usize = left.len();
        let mut out: Vec<BiomeGraph> = Vec::new();
        let mut k: usize = 0;
        while k < total
            invariant
                k <= total,
                total == all.len(),
                left@ == all.skip(k as int),
                out@.len() == k,
                forall|i: int|
                    0 <= i < k ==> {
                        &&& (#[trigger] out@[i]).id == all[i].0
                        &&& out@[i].graph == all[i].1
                        &&& out@[i].located()
                        &&& out@[i].detail is None
                        &&& out@[i].params@ == Map::<Seq<char>, Single>::empty()
                    },
            decreases total - k,
        {
            let (id, graph) = left.remove(0);
            out.push(BiomeGraph::new(id, graph));
            assert(left@ =~= all.skip(k + 1));
            k = k + 1;
        }
        WorldEvaluator { biomes: out, ..self }
    }

    /// Attach a foliage graph to each biome by id. An id that no biome has is
    /// passed over.
    pub fn with_biome_details(self, details: Vec<(u16, Graph)>) -> (r: Self)
        ensures
            r.biomes@ == with_details(self.biomes@, details@),
            r == (WorldEvaluator { biomes: r.biomes, ..self }),
    {
        let mut biomes = self.biomes;
        let ghost before = biomes@;
        let mut left = details;
        let ghost all = left@;
        let total: usize = left.len();
        let mut k: usize = 0;
        while k < total
            invariant
                k <= total,
                total == all.len(),
                left@ == all.skip(k as int),
                biomes@ == with_details(before, all.take(k as int)),
            decreases total - k,
        {
            let (id, detail) = left.remove(0);
            proof {
                assert(all.take(k + 1).drop_last() =~= all.take(k as int));
                assert(all.take(k + 1).last() == (id, detail));
                assert(left@ =~= all.skip(k + 1));
            }
            let at: usize = find_biome(&biomes, id);
            let ghost so_far = biomes@;
            if at < biomes.len() {
                biomes[at].detail = Some(detail);
                assert(biomes@ =~= with_detail(so_far, id, detail));
            }
            k = k + 1;
        }
        assert(all.take(k as int) =~= all);
        WorldEvaluator {
            world: self.world,
            zones: self.zones,
            biomes,
            libraries: self.libraries,
            kernels: self.kernels,
            lowest_chunk: self.lowest_chunk,
            highest_chunk: self.highest_chunk,
        }
    }

    /// Attach scalar parameters to each biome by id. An id that no biome has is
    /// passed over.
    pub fn with_biome_params(self, params: Vec<(u16, BiomeParams)>) -> (r: Self)
        ensures
            r.biomes@ == with_param_sets(self.biomes@, params@),
            r == (WorldEvaluator { biomes: r.biomes, ..self }),
    {
        let mut biomes = self.biomes;
        let ghost before = biomes@;
        let mut left = params;
        let ghost all = left@;
        let total: usize = left.len();
        let mut k: usize = 0;
        while k < total
            invariant
                k <= total,
                total == all.len(),
                left@ == all.skip(k as int),
                biomes@ == with_param_sets(before, all.take(k as int)),
            decreases total - k,
        {
            let (id, p) = left.remove(0);
            proof {
                assert(all.take(k + 1).drop_last() =~= all.take(k as int));
                assert(all.take(k + 1).last() == (id, p));
                assert(left@ =~= all.skip(k + 1));
            }
            let at: usize = find_biome(&biomes, id);
            let ghost so_far = biomes@;
            if at < biomes.len() {
                biomes[at].params = p;
                assert(biomes@ =~= with_param_set(so_far, id, p));
            }
            k = k + 1;
        }
        assert(all.take(k as int) =~= all);
        WorldEvaluator {
            world: self.world,
            zones: self.zones,
            biomes,
            libraries: self.libraries,
            kernels: self.kernels,
            lowest_chunk: self.lowest_chunk,
            highest_chunk: self.highest_chunk,
        }
    }

    /// Replace the libraries.
    pub fn with_libraries(self, libraries: LibraryGraphRegistry) -> (r: Self)
        ensures
            r == (WorldEvaluator { libraries, ..self }),
    {
        WorldEvaluator { libraries, ..self }
    }

    /// Replace what the libraries compute.
    pub fn with_library_kernels(self, kernels: HashMap<u32, LibraryKernel>) -> (r: Self)
        ensures
            r == (WorldEvaluator { kernels, ..self }),
    {
        WorldEvaluator { kernels, ..self }
    }

    /// Set the vertical extent of the world, in chunks.
    pub fn with_chunk_y_range(self, lowest: i32, highest: i32) -> (r: Self)
        ensures
            r == (WorldEvaluator { lowest_chunk: lowest, highest_chunk: highest, ..self }),
    {
        WorldEvaluator { lowest_chunk: lowest, highest_chunk: highest, ..self }
    }

    /// The first biome's graph.
    pub fn biome_graph(&self) -> (r: &Graph)
        requires
            self.biomes@.len() > 0,
        ensures
            *r == self.biomes@[0].graph,
    {
        &self.biomes[0].graph
    }

    /// The graph that assigns zones.
    pub fn world_graph(&self) -> (r: &Graph)
        ensures
            *r == self.world,
    {
        &self.world
    }

    /// Every zone's graph, in order.
    pub fn zone_graphs(&self) -> (r: Vec<&Graph>)
        ensures
            r@.len() == self.zones@.len(),
            forall|i: int| 0 <= i < r@.len() ==> *(#[trigger] r@[i]) == self.zones@[i].graph,
    {
        let mut out: Vec<&Graph> = Vec::new();
        let mut k: usize = 0;
        while k < self.zones.len()
            invariant
                k <= self.zones@.len(),
                out@.len() == k,
                forall|i: int| 0 <= i < k ==> *(#[trigger] out@[i]) == self.zones@[i].graph,
            decreases self.zones@.len() - k,
        {
            out.push(&self.zones[k].graph);
            k = k + 1;
        }
        out
    }

    /// The libraries.
    pub fn libraries(&self) -> (r: &LibraryGraphRegistry)
        ensures
            *r == self.libraries,
    {
        &self.libraries
    }

    /// The terminal of the graph that assigns zones, if it has one.
    pub fn world_output_node(&self) -> (r: Option<NodeId>)
        ensures
            terminal_is(self.world.nodes@, Terminal::WorldOutput, r),
            r matches Some(id) ==> self.world.nodes@.contains_key(id)
                && self.world.nodes@[id].kind is WorldOutput,
    {
        find_terminal(&self.world, Terminal::WorldOutput)
    }

    /// The zones that the world graph can assign, in ascending order.
    pub fn assignable_zone_ids(&self) -> (r: Vec<u16>)
        ensures
            forall|i: int, j: int| 0 <= i < j < r@.len() ==> r@[i] < r@[j],
            forall|z: u16| #[trigger]
                r@.contains(z) <==> zone_assignable(self.world.nodes@, z),
    {
        let keys = self.world.nodes.keys();
        let found = self.world_output_node();
        proof {
            assert(is_key_order(self.world.nodes@, keys@));
            assert(found == first_terminal(self.world.nodes@, keys@, Terminal::WorldOutput));
            assert forall|n: Option<NodeId>| #[trigger]
                terminal_is(self.world.nodes@, Terminal::WorldOutput, n) implies n == found by {
                assert(n == first_terminal(self.world.nodes@, keys@, Terminal::WorldOutput));
            }
        }
        match found {
            None => {
                let mut only: Vec<u16> = Vec::new();
                only.push(0);
                assert(only@[0] == 0);
                only
            },
            Some(id) => match self.world.nodes.get(id) {
                Some(node) => match &node.kind {
                    NodeKind::WorldOutput(p) => assignable_ids(
                        p.zone_bands.len(),
                        p.zone_ids.as_slice(),
                    ),
                    _ => Vec::new(),
                },
                None => Vec::new(),
            },
        }
    }

    /// The zones that the world graph can assign but no zone graph implements,
    /// where there are zones at all, in ascending order. Columns in them fall back to
    /// biome 0.
    pub fn unimplemented_zones(&self) -> (r: Vec<u16>)
        ensures
            forall|i: int, j: int| 0 <= i < j < r@.len() ==> r@[i] < r@[j],
            forall|z: u16| #[trigger]
                r@.contains(z) <==> self.zones@.len() > 0 && zone_assignable(self.world.nodes@, z)
                    && zone_position(self.zones@, z, 0) >= self.zones@.len(),
    {
        let mut out: Vec<u16> = Vec::new();
        if self.zones.len() == 0 {
            return out;
        }
        let ids = self.assignable_zone_ids();
        let mut k: usize = 0;
        while k < ids.len()
            invariant
                k <= ids@.len(),
                self.zones@.len() > 0,
                forall|i: int, j: int| 0 <= i < j < ids@.len() ==> ids@[i] < ids@[j],
                forall|i: int, j: int| 0 <= i < j < out@.len() ==> out@[i] < out@[j],
                forall|i: int, j: int|
                    0 <= i < out@.len() && k <= j < ids@.len() ==> out@[i] < ids@[j],
                forall|z: u16| #[trigger]
                    out@.contains(z) <==> ids@.take(k as int).contains(z) && zone_position(
                        self.zones@,
                        z,
                        0,
                    ) >= self.zones@.len(),
            decreases ids@.len() - k,
        {
            let id: u16 = ids[k];
            let ghost before = out@;
            if find_zone(&self.zones, id) >= self.zones.len() {
                out.push(id);
            }
            proof {
                let now = ids@.take(k + 1);
                assert(now =~= ids@.take(k as int).push(id));
                assert forall|z: u16| #[trigger] out@.contains(z) <==> now.contains(z)
                    && zone_position(self.zones@, z, 0) >= self.zones@.len() by {
                    lemma_push_contains(ids@.take(k as int), id, z);
                    lemma_push_contains(before, id, z);
                    assert(before.contains(z) <==> ids@.take(k as int).contains(z)
                        && zone_position(self.zones@, z, 0) >= self.zones@.len());
                }
            }
            k = k + 1;
        }
        assert(ids@.take(k as int) =~= ids@);
        out
    }

    /// A biome's scalar parameter, if the biome is there and declares it.
    pub fn biome_param(&self, biome_id: u16, name: &str) -> (r: Option<Single>)
        ensures
            ({
                let at = biome_position(self.biomes@, biome_id, 0);
                r == if at < self.biomes@.len() && self.biomes@[at].params@.contains_key(name@) {
                    Some(self.biomes@[at].params@[name@])
                } else {
                    None
                }
            }),
    {
        let at: usize = find_biome(&self.biomes, biome_id);
        if at < self.biomes.len() {
            self.biomes[at].params.get(name)
        } else {
            None
        }
    }
}

} // verus!
