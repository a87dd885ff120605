//! A small example graph: rolling hills with pockets, layered materials, and a
//! scatter of flat grassy spots.
//!
//! No kind of node refines slopes, and trees are declared in zone graphs by a kind
//! without pins, so neither has a place in the chain that ends in the terrain.
use crate::edge::{Edge, PinRef};
use crate::graph::{connect_outcome, feeds_input, Graph};
use crate::ids::GraphKind;
use crate::node::{Node, NodeKind};
use crate::params::{
    AddParams, BuildTerrainParams, ConstantParams, CurveMapperParams, DomainWarpParams,
    FindFlatParams, FractalType, JitteredGridParams, LayerParams, MultiplyParams, NoiseParams,
    OutputParams, TerrainOutputParams, WorldPosParams,
};
use crate::scalar::Single;
use crate::slots::NodeId;
use crate::soundness::{connecting_keeps_edges_sound, no_edges_are_sound, sound_edges};
use crate::voxel::MaterialId;
use vstd::prelude::*;

verus! {

/// How many nodes the example has.
pub const EXAMPLE_NODES: usize = 14;

/// The nodes of the example, in order.
pub open spec fn example_node(i: int, kind: NodeKind) -> bool {
    match kind {
        NodeKind::WorldPos(_) => i == 0,
        NodeKind::DomainWarp(p) => i == 1 && p == (DomainWarpParams {
            seed: 11,
            frequency: Single { bits: 0x3ba3_d70a },
            amplitude: Single { bits: 0x40c0_0000 },
        }),
        NodeKind::Perlin3D(p) => i == 2 && p == (NoiseParams {
            seed: 1,
            frequency: Single { bits: 0x3d38_51ec },
            octaves: 4,
            lacunarity: Single { bits: 0x4000_0000 },
            gain: Single { bits: 0x3f00_0000 },
            fractal_type: FractalType::FBm,
        }),
        NodeKind::Perlin2D(p) => i == 3 && p == (NoiseParams {
            seed: 2,
            frequency: Single { bits: 0x3c03_126f },
            octaves: 5,
            lacunarity: Single { bits: 0x4000_0000 },
            gain: Single { bits: 0x3f00_0000 },
            fractal_type: FractalType::FBm,
        }),
        NodeKind::CurveMapper(p) => i == 4 && p.stops@ =~= seq![
            (Single { bits: 0xbf80_0000 }, Single { bits: 0xbf4c_cccd }),
            (Single { bits: 0xbe4c_cccd }, Single { bits: 0xbe99_999a }),
            (Single { bits: 0x3e4c_cccd }, Single { bits: 0x3e99_999a }),
            (Single { bits: 0x3f80_0000 }, Single { bits: 0x3f4c_cccd }),
        ],
        NodeKind::Constant(p) => i == 5 && p.value == (Single { bits: 0x3f00_0000 }),
        NodeKind::Multiply(_) => i == 6,
        NodeKind::Add(_) => i == 7,
        NodeKind::Output(p) => i == 8 && p.is_default(),
        NodeKind::Layer(p) => i == 9 && p.bands@ =~= seq![
            (MaterialId(6), 1u32),
            (MaterialId(3), 3u32),
            (MaterialId(1), 8u32),
        ] && p.fill == MaterialId(2),
        NodeKind::BuildTerrain(_) => i == 10,
        NodeKind::JitteredGrid(p) => i == 11 && p == (JitteredGridParams {
            seed: 7,
            cell_size: Single { bits: 0x40c0_0000 },
            jitter: Single { bits: 0x3f19_999a },
            density: Single { bits: 0x3f00_0000 },
        }),
        NodeKind::FindFlat(p) => i == 12 && p.max_step == 1 && p.on_materials@ =~= seq![MaterialId(6)],
        NodeKind::TerrainOutput(_) => i == 13,
        _ => false,
    }
}

/// A connection of the example, by the places of its nodes.
#[derive(Clone, Copy, PartialEq, Eq, Structural, Debug)]
pub struct Link {
    /// Place of the node it leaves.
    pub from: usize,
    /// Place of the node it enters.
    pub to: usize,
    /// Input pin it enters by. Every connection leaves by the first output.
    pub pin: u16,
}

/// The connections of the example, in order.
pub open spec fn example_links() -> Seq<Link> {
    seq![
        Link { from: 0, to: 1, pin: 0 },
        Link { from: 1, to: 2, pin: 0 },
        Link { from: 1, to: 3, pin: 0 },
        Link { from: 3, to: 4, pin: 0 },
        Link { from: 2, to: 6, pin: 0 },
        Link { from: 5, to: 6, pin: 1 },
        Link { from: 4, to: 7, pin: 0 },
        Link { from: 6, to: 7, pin: 1 },
        Link { from: 7, to: 8, pin: 0 },
        Link { from: 7, to: 9, pin: 0 },
        Link { from: 7, to: 10, pin: 0 },
        Link { from: 9, to: 10, pin: 1 },
        Link { from: 10, to: 12, pin: 0 },
        Link { from: 11, to: 12, pin: 1 },
        Link { from: 10, to: 13, pin: 0 },
    ]
}

/// The edge a connection becomes.
pub open spec fn link_edge(ids: Seq<NodeId>, link: Link) -> Edge {
    Edge {
        from: PinRef { node: ids[link.from as int], pin: 0 },
        to: PinRef { node: ids[link.to as int], pin: link.pin },
    }
}

/// Whether a graph is the example, its nodes under the listed identities, all at the
/// origin.
pub open spec fn is_example(graph: Graph, ids: Seq<NodeId>) -> bool {
    &&& graph.kind == GraphKind::Biome
    &&& ids.len() == EXAMPLE_NODES
    &&& ids.no_duplicates()
    &&& graph.nodes@.dom() == ids.to_set()
    &&& forall|i: int|
        0 <= i < EXAMPLE_NODES ==> example_node(i, (#[trigger] graph.nodes@[ids[i]]).kind)
            && graph.nodes@[ids[i]] == Node::at_origin(graph.nodes@[ids[i]].kind)
    &&& graph.edges@ == example_links().map_values(|l: Link| link_edge(ids, l))
}

fn enter(out: &mut Vec<NodeKind>, kind: NodeKind)
    requires
        forall|i: int| 0 <= i < old(out)@.len() ==> example_node(i, #[trigger] old(out)@[i]),
        example_node(old(out)@.len() as int, kind),
    ensures
        final(out)@ == old(out)@.push(kind),
        forall|i: int| 0 <= i < final(out)@.len() ==> example_node(i, #[trigger] final(out)@[i]),
{
    out.push(kind);
}

fn noise(seed: u32, frequency: u32, octaves: u32) -> (r: NoiseParams)
    ensures
        r == (NoiseParams {
            seed,
            frequency: Single { bits: frequency },
            octaves,
            lacunarity: Single { bits: 0x4000_0000 },
            gain: Single { bits: 0x3f00_0000 },
            fractal_type: FractalType::FBm,
        }),
{
    NoiseParams {
        seed,
        frequency: Single { bits: frequency },
        octaves,
        lacunarity: Single { bits: 0x4000_0000 },
        gain: Single { bits: 0x3f00_0000 },
        fractal_type: FractalType::FBm,
    }
}

fn example_kinds() -> (r: Vec<NodeKind>)
    ensures
        r@.len() == EXAMPLE_NODES,
        forall|i: int| 0 <= i < EXAMPLE_NODES ==> example_node(i, #[trigger] r@[i]),
{
    let mut out: Vec<NodeKind> = Vec::new();
    enter(&mut out, NodeKind::WorldPos(WorldPosParams {  }));
    enter(
        &mut out,
        NodeKind::DomainWarp(
            DomainWarpParams {
                seed: 11,
                frequency: Single { bits: 0x3ba3_d70a },
                amplitude: Single { bits: 0x40c0_0000 },
            },
        ),
    );
    enter(&mut out, NodeKind::Perlin3D(noise(1, 0x3d38_51ec, 4)));
    enter(&mut out, NodeKind::Perlin2D(noise(2, 0x3c03_126f, 5)));
    let mut stops: Vec<(Single, Single)> = Vec::new();
    stops.push((Single { bits: 0xbf80_0000 }, Single { bits: 0xbf4c_cccd }));
    stops.push((Single { bits: 0xbe4c_cccd }, Single { bits: 0xbe99_999a }));
    stops.push((Single { bits: 0x3e4c_cccd }, Single { bits: 0x3e99_999a }));
    stops.push((Single { bits: 0x3f80_0000 }, Single { bits: 0x3f4c_cccd }));
    enter(&mut out, NodeKind::CurveMapper(CurveMapperParams { stops }));
    enter(&mut out, NodeKind::Constant(ConstantParams { value: Single { bits: 0x3f00_0000 } }));
    enter(&mut out, NodeKind::Multiply(MultiplyParams {  }));
    enter(&mut out, NodeKind::Add(AddParams {  }));
    enter(&mut out, NodeKind::Output(OutputParams::default()));
    let mut bands: Vec<(MaterialId, u32)> = Vec::new();
    bands.push((MaterialId(6), 1));
    bands.push((MaterialId(3), 3));
    bands.push((MaterialId(1), 8));
    enter(&mut out, NodeKind::Layer(LayerParams { bands, fill: MaterialId(2) }));
    enter(&mut out, NodeKind::BuildTerrain(BuildTerrainParams {  }));
    enter(
        &mut out,
        NodeKind::JitteredGrid(
            JitteredGridParams {
                seed: 7,
                cell_size: Single { bits: 0x40c0_0000 },
                jitter: Single { bits: 0x3f19_999a },
                density: Single { bits: 0x3f00_0000 },
            },
        ),
    );
    let mut on_materials: Vec<MaterialId> = Vec::new();
    on_materials.push(MaterialId(6));
    enter(&mut out, NodeKind::FindFlat(FindFlatParams { max_step: 1, on_materials }));
    enter(&mut out, NodeKind::TerrainOutput(TerrainOutputParams {  }));
    out
}

fn links() -> (r: Vec<Link>)
    ensures
        r@ == example_links(),
{
    let mut out: Vec<Link> = Vec::new();
    out.push(Link { from: 0, to: 1, pin: 0 });
    out.push(Link { from: 1, to: 2, pin: 0 });
    out.push(Link { from: 1, to: 3, pin: 0 });
    out.push(Link { from: 3, to: 4, pin: 0 });
    out.push(Link { from: 2, to: 6, pin: 0 });
    out.push(Link { from: 5, to: 6, pin: 1 });
    out.push(Link { from: 4, to: 7, pin: 0 });
    out.push(Link { from: 6, to: 7, pin: 1 });
    out.push(Link { from: 7, to: 8, pin: 0 });
    out.push(Link { from: 7, to: 9, pin: 0 });
    out.push(Link { from: 7, to: 10, pin: 0 });
    out.push(Link { from: 9, to: 10, pin: 1 });
    out.push(Link { from: 10, to: 12, pin: 0 });
    out.push(Link { from: 11, to: 12, pin: 1 });
    out.push(Link { from: 10, to: 13, pin: 0 });
    assert(out@ =~= example_links());
    out
}

/// Every connection leads from an earlier node to a later one, and no input is
/// connected twice.
pub proof fn example_links_lead_onward(i: int, j: int)
    requires
        0 <= i < example_links().len(),
        0 <= j < example_links().len(),
        i != j,
    ensures
        example_links()[i].from < example_links()[i].to < EXAMPLE_NODES,
        (example_links()[i].to, example_links()[i].pin) != (
            example_links()[j].to,
            example_links()[j].pin,
        ),
{
}

proof fn lemma_link_fits(nodes: Map<NodeId, Node>, ids: Seq<NodeId>, edges: Seq<Edge>, k: int)
    requires
        0 <= k < example_links().len(),
        ids.len() == EXAMPLE_NODES,
        ids.no_duplicates(),
        nodes.dom() == ids.to_set(),
        forall|i: int| 0 <= i < EXAMPLE_NODES ==> example_node(i, (#[trigger] nodes[ids[i]]).kind),
        edges == example_links().take(k).map_values(|l: Link| link_edge(ids, l)),
    ensures
        ({
            let e = link_edge(ids, example_links()[k]);
            connect_outcome(GraphKind::Biome, nodes, edges, e.from, e.to) is Ok
        }),
{
    let l = example_links()[k];
    let e = link_edge(ids, l);
    assert(l.from < EXAMPLE_NODES && l.to < EXAMPLE_NODES);
    assert(ids.contains(ids[l.from as int]) && ids.contains(ids[l.to as int]));
    assert(nodes.contains_key(e.from.node) && nodes.contains_key(e.to.node));
    let a = nodes[ids[l.from as int]].kind;
    let b = nodes[ids[l.to as int]].kind;
    assert(example_node(l.from as int, a));
    assert(example_node(l.to as int, b));
    assert(!feeds_input(edges, e.to)) by {
        assert forall|i: int| 0 <= i < edges.len() implies (#[trigger] edges[i]).to != e.to by {
            assert(edges[i] == link_edge(ids, example_links()[i]));
            example_links_lead_onward(i, k);
        }
    }
    lemma_pins_fit(k, a, b);
}

proof fn lemma_pins_fit(k: int, a: NodeKind, b: NodeKind)
    requires
        0 <= k < example_links().len(),
        example_node(example_links()[k].from as int, a),
        example_node(example_links()[k].to as int, b),
    ensures
        a.outputs_in(GraphKind::Biome).len() > 0,
        b.inputs_in(GraphKind::Biome).len() > example_links()[k].pin,
        crate::pin::PinType::compatible(
            a.outputs_in(GraphKind::Biome)[0].ty,
            b.inputs_in(GraphKind::Biome)[example_links()[k].pin as int].ty,
        ),
{
}

/// Whether a graph is the example, whatever identities its nodes got.
pub open spec fn is_some_example(graph: Graph) -> bool {
    exists|ids: Seq<NodeId>| #[trigger] is_example(graph, ids)
}

/// Build the example graph.
pub fn build_example_graph() -> (r: Graph)
    ensures
        is_some_example(r),
        r.boundary@.inputs.len() == 0,
        r.boundary@.outputs.len() == 0,
{
    let mut graph = Graph::new();
    let mut kinds = example_kinds();
    let ghost all = kinds@;
    let mut ids: Vec<NodeId> = Vec::new();
    assert(graph.nodes@.dom() =~= ids@.to_set());
    while kinds.len() > 0
        invariant
            all.len() == EXAMPLE_NODES,
            forall|i: int| 0 <= i < EXAMPLE_NODES ==> example_node(i, #[trigger] all[i]),
            ids@.len() <= EXAMPLE_NODES,
            kinds@ == all.skip(ids@.len() as int),
            ids@.no_duplicates(),
            graph.nodes@.dom() == ids@.to_set(),
            forall|j: int|
                0 <= j < ids@.len() ==> #[trigger] graph.nodes@[ids@[j]] == Node::at_origin(
                    all[j],
                ),
            graph.edges@ == Seq::<Edge>::empty(),
            graph.kind == GraphKind::Biome,
            graph.boundary@.inputs.len() == 0,
            graph.boundary@.outputs.len() == 0,
        decreases kinds@.len(),
    {
        proof {
            ids@.unique_seq_to_set();
            assert(all.skip(ids@.len() as int).remove(0) =~= all.skip(ids@.len() as int + 1));
        }
        let ghost before = ids@;
        let kind = kinds.remove(0);
        let id = graph.add_node(kind);
        ids.push(id);
        proof {
            assert(!before.contains(id)) by {
                assert(!before.to_set().contains(id));
            }
            assert(ids@.to_set() =~= before.to_set().insert(id)) by {
                assert forall|x: NodeId| ids@.contains(x) <==> before.contains(x) || x == id by {
                    if before.contains(x) {
                        let k = choose|k: int| 0 <= k < before.len() && before[k] == x;
                        assert(ids@[k] == x);
                    }
                    assert(ids@[before.len() as int] == id);
                    if ids@.contains(x) {
                        let k = choose|k: int| 0 <= k < ids@.len() && ids@[k] == x;
                        if k < before.len() {
                            assert(before[k] == x);
                        }
                    }
                }
            }
            assert forall|j: int| 0 <= j < ids@.len() implies #[trigger] graph.nodes@[ids@[j]]
                == Node::at_origin(all[j]) by {
                if j < before.len() {
                    assert(before[j] == ids@[j]);
                    assert(before.contains(before[j]));
                }
            }
        }
    }
    let table = links();
    let ghost nodes = graph.nodes@;
    proof {
        assert forall|i: int| 0 <= i < EXAMPLE_NODES implies example_node(
            i,
            (#[trigger] nodes[ids@[i]]).kind,
        ) && nodes[ids@[i]] == Node::at_origin(nodes[ids@[i]].kind) by {
            assert(example_node(i, all[i]));
        }
        assert(example_links().take(0).map_values(|l: Link| link_edge(ids@, l)) =~= Seq::<
            Edge,
        >::empty());
    }
    let mut k: usize = 0;
    while k < table.len()
        invariant
            k <= table@.len(),
            table@ == example_links(),
            ids@.len() == EXAMPLE_NODES,
            ids@.no_duplicates(),
            graph.nodes@ == nodes,
            nodes.dom() == ids@.to_set(),
            forall|i: int|
                0 <= i < EXAMPLE_NODES ==> example_node(i, (#[trigger] nodes[ids@[i]]).kind)
                    && nodes[ids@[i]] == Node::at_origin(nodes[ids@[i]].kind),
            graph.edges@ == example_links().take(k as int).map_values(
                |l: Link| link_edge(ids@, l),
            ),
            graph.kind == GraphKind::Biome,
            graph.boundary@.inputs.len() == 0,
            graph.boundary@.outputs.len() == 0,
        decreases table@.len() - k,
    {
        let l = table[k];
        proof {
            lemma_link_fits(nodes, ids@, graph.edges@, k as int);
            example_links_lead_onward(
                k as int,
                if k == 0 {
                    1
                } else {
                    0
                },
            );
            assert(example_links().take(k + 1).map_values(|l: Link| link_edge(ids@, l))
                =~= example_links().take(k as int).map_values(
                |l: Link| link_edge(ids@, l),
            ).push(link_edge(ids@, l)));
        }
        let _ = graph.connect(PinRef::new(ids[l.from], 0), PinRef::new(ids[l.to], l.pin));
        k = k + 1;
    }
    proof {
        assert(example_links().take(k as int) =~= example_links());
        assert(is_example(graph, ids@));
    }
    graph
}

proof fn lemma_example_prefix_is_sound(graph: Graph, ids: Seq<NodeId>, n: int)
    requires
        is_example(graph, ids),
        0 <= n <= example_links().len(),
    ensures
        sound_edges(
            graph.kind,
            graph.nodes@,
            example_links().take(n).map_values(|l: Link| link_edge(ids, l)),
        ),
    decreases n,
{
    let f = |l: Link| link_edge(ids, l);
    if n == 0 {
        assert(example_links().take(0).map_values(f) =~= Seq::<Edge>::empty());
        no_edges_are_sound(graph.kind, graph.nodes@);
    } else {
        lemma_example_prefix_is_sound(graph, ids, n - 1);
        let before = example_links().take(n - 1).map_values(f);
        let e = link_edge(ids, example_links()[n - 1]);
        lemma_link_fits(graph.nodes@, ids, before, n - 1);
        connecting_keeps_edges_sound(graph.kind, graph.nodes@, before, e.from, e.to);
        assert(example_links().take(n).map_values(f) =~= before.push(e));
    }
}

/// Every edge of the example is sound.
pub proof fn example_edges_are_sound(graph: Graph, ids: Seq<NodeId>)
    requires
        is_example(graph, ids),
    ensures
        sound_edges(graph.kind, graph.nodes@, graph.edges@),
{
    lemma_example_prefix_is_sound(graph, ids, example_links().len() as int);
    assert(example_links().take(example_links().len() as int) =~= example_links());
}

} // verus!
