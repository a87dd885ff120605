//! What drawing a graph and building it again keeps.
use crate::canvas::{
    built, drawn_wires, node_at, shows, wire_edge, wired, Canvas, CanvasNode, CanvasWire,
};
use crate::edge::{Edge, PinRef};
use crate::graph::{connect_outcome, feeds_input, Graph};
use crate::ids::GraphKind;
use crate::node::{Node, NodeKind};
use crate::slots::{key_order_is_distinct, NodeId};
use crate::soundness::{connecting_keeps_edges_sound, no_edges_are_sound, sound_edges};
use crate::validate::edge_problem;
use vstd::prelude::*;

verus! {

/// Kinds that are the same present the same pins.
pub proof fn same_kinds_present_the_same_pins(a: NodeKind, b: NodeKind, kind: GraphKind)
    requires
        a.same(b),
    ensures
        a.inputs_in(kind) == b.inputs_in(kind),
        a.outputs_in(kind) == b.outputs_in(kind),
{
}

proof fn lemma_node_at(nodes: Seq<CanvasNode>, i: int)
    requires
        0 <= i < nodes.len(),
        forall|j: int| 0 <= j < nodes.len() ==> (#[trigger] nodes[j]).id == j,
    ensures
        node_at(nodes, i as usize) == Some(i),
    decreases nodes.len(),
{
    assert(nodes[i].id == i);
    assert(nodes[nodes.len() - 1].id == nodes.len() - 1);
    if i < nodes.len() - 1 {
        let rest = nodes.drop_last();
        assert forall|j: int| 0 <= j < rest.len() implies (#[trigger] rest[j]).id == j by {
            assert(nodes[j] == rest[j]);
        }
        lemma_node_at(rest, i);
    }
}

/// The edge an edge becomes when its nodes are renamed from one list of
/// identities to another.
pub open spec fn renamed(keys: Seq<NodeId>, ids: Seq<NodeId>, e: Edge) -> Edge {
    Edge {
        from: PinRef { node: ids[keys.index_of(e.from.node)], pin: e.from.pin },
        to: PinRef { node: ids[keys.index_of(e.to.node)], pin: e.to.pin },
    }
}

/// Whether two graphs are the same but for the identities of their nodes: node
/// `keys[i]` of the one is node `ids[i]` of the other.
pub open spec fn same_but_for_names(
    a: Graph,
    b: Graph,
    keys: Seq<NodeId>,
    ids: Seq<NodeId>,
) -> bool {
    &&& a.kind == b.kind
    &&& keys.len() == ids.len()
    &&& keys.no_duplicates() && ids.no_duplicates()
    &&& a.nodes@.dom() == keys.to_set() && b.nodes@.dom() == ids.to_set()
    &&& forall|i: int|
        0 <= i < keys.len() ==> (#[trigger] a.nodes@[keys[i]]).same(b.nodes@[ids[i]])
    &&& b.edges@ == a.edges@.map_values(|e: Edge| renamed(keys, ids, e))
}

proof fn lemma_index(keys: Seq<NodeId>, id: NodeId)
    requires
        keys.contains(id),
    ensures
        0 <= keys.index_of(id) < keys.len(),
        keys[keys.index_of(id)] == id,
{
}

proof fn lemma_wires_come_back(
    a: Graph,
    b: Graph,
    canvas: Canvas,
    keys: Seq<NodeId>,
    ids: Seq<NodeId>,
    n: int,
)
    requires
        shows(canvas, a, keys),
        built(b, canvas, ids),
        a.kind == b.kind,
        sound_edges(a.kind, a.nodes@, a.edges@),
        0 <= n <= a.edges@.len(),
    ensures
        wired(b.kind, b.nodes@, canvas.nodes@, ids, drawn_wires(keys, a.edges@.take(n)))
            == a.edges@.take(n).map_values(|e: Edge| renamed(keys, ids, e)),
    decreases n,
{
    let f = |e: Edge| renamed(keys, ids, e);
    if n == 0 {
        assert(a.edges@.take(0).map_values(f) =~= Seq::<Edge>::empty());
    } else {
        lemma_wires_come_back(a, b, canvas, keys, ids, n - 1);
        key_order_is_distinct(a.nodes@, keys);
        let all = a.edges@.take(n);
        let e = a.edges@[n - 1];
        assert(all.last() == e);
        assert(all.drop_last() =~= a.edges@.take(n - 1));
        assert(edge_problem(a.kind, a.nodes@, a.edges@[n - 1]) is None);
        assert(keys.contains(e.from.node) && keys.contains(e.to.node));
        lemma_index(keys, e.from.node);
        lemma_index(keys, e.to.node);
        let p = keys.index_of(e.from.node);
        let q = keys.index_of(e.to.node);
        assert(canvas.nodes@[p].id == p && canvas.nodes@[q].id == q);
        lemma_node_at(canvas.nodes@, p);
        lemma_node_at(canvas.nodes@, q);
        let rest = a.edges@.take(n - 1).map_values(f);
        let w = drawn_wires(keys, all).last();
        assert(drawn_wires(keys, all).drop_last() =~= drawn_wires(keys, all.drop_last()));
        assert(w.from_pin as u16 == e.from.pin && w.to_pin as u16 == e.to.pin);
        let x = wire_edge(ids, w, p, q);
        assert(x == renamed(keys, ids, e));
        assert(ids.contains(ids[p]) && ids.contains(ids[q]));
        assert(b.nodes@.dom().contains(ids[p]) && b.nodes@.dom().contains(ids[q]));
        lemma_same_through(a, b, canvas, keys, ids, p);
        lemma_same_through(a, b, canvas, keys, ids, q);
        same_kinds_present_the_same_pins(a.nodes@[keys[p]].kind, canvas.nodes@[p].kind, a.kind);
        same_kinds_present_the_same_pins(canvas.nodes@[p].kind, b.nodes@[ids[p]].kind, a.kind);
        same_kinds_present_the_same_pins(a.nodes@[keys[q]].kind, canvas.nodes@[q].kind, a.kind);
        same_kinds_present_the_same_pins(canvas.nodes@[q].kind, b.nodes@[ids[q]].kind, a.kind);
        assert(!feeds_input(rest, x.to)) by {
            assert forall|i: int| 0 <= i < rest.len() implies (#[trigger] rest[i]).to != x.to by {
                let o = a.edges@[i];
                assert(rest[i] == renamed(keys, ids, o));
                assert(edge_problem(a.kind, a.nodes@, a.edges@[i]) is None);
                assert(keys.contains(o.to.node));
                lemma_index(keys, o.to.node);
                assert(a.edges@[i].to != a.edges@[n - 1].to);
            }
        }
        assert(connect_outcome(b.kind, b.nodes@, rest, x.from, x.to) is Ok);
        assert(all.map_values(f) =~= rest.push(x));
    }
}

proof fn lemma_same_through(
    a: Graph,
    b: Graph,
    canvas: Canvas,
    keys: Seq<NodeId>,
    ids: Seq<NodeId>,
    i: int,
)
    requires
        shows(canvas, a, keys),
        built(b, canvas, ids),
        0 <= i < keys.len(),
    ensures
        a.nodes@[keys[i]].kind.same(canvas.nodes@[i].kind),
        canvas.nodes@[i].kind.same(b.nodes@[ids[i]].kind),
        a.nodes@[keys[i]].same(b.nodes@[ids[i]]),
{
    assert(canvas.nodes@[i].id == i);
    assert(ids[i] == ids[i]);
}

/// Drawing a graph with sound edges and building a graph of its kind from the
/// canvas gives the graph back, but for the identities of its nodes: every
/// node with its kind, parameters and position, and every edge in its place.
pub proof fn drawn_graphs_come_back(
    a: Graph,
    b: Graph,
    canvas: Canvas,
    keys: Seq<NodeId>,
    ids: Seq<NodeId>,
)
    requires
        shows(canvas, a, keys),
        built(b, canvas, ids),
        a.kind == b.kind,
        sound_edges(a.kind, a.nodes@, a.edges@),
    ensures
        same_but_for_names(a, b, keys, ids),
{
    key_order_is_distinct(a.nodes@, keys);
    assert forall|i: int| 0 <= i < keys.len() implies (#[trigger] a.nodes@[keys[i]]).same(
        b.nodes@[ids[i]],
    ) by {
        lemma_same_through(a, b, canvas, keys, ids, i);
    }
    lemma_wires_come_back(a, b, canvas, keys, ids, a.edges@.len() as int);
    assert(a.edges@.take(a.edges@.len() as int) =~= a.edges@);
}

proof fn lemma_wired_is_sound(
    kind: GraphKind,
    nodes: Map<NodeId, Node>,
    drawn: Seq<CanvasNode>,
    ids: Seq<NodeId>,
    wires: Seq<CanvasWire>,
)
    ensures
        sound_edges(kind, nodes, wired(kind, nodes, drawn, ids, wires)),
    decreases wires.len(),
{
    if wires.len() == 0 {
        no_edges_are_sound(kind, nodes);
    } else {
        lemma_wired_is_sound(kind, nodes, drawn, ids, wires.drop_last());
        let rest = wired(kind, nodes, drawn, ids, wires.drop_last());
        let w = wires.last();
        match (node_at(drawn, w.from_node), node_at(drawn, w.to_node)) {
            (Some(a), Some(b)) => {
                let e = wire_edge(ids, w, a, b);
                if connect_outcome(kind, nodes, rest, e.from, e.to) is Ok {
                    connecting_keeps_edges_sound(kind, nodes, rest, e.from, e.to);
                }
            },
            _ => {},
        }
    }
}

/// A graph built from any canvas has sound edges.
pub proof fn built_graphs_are_sound(graph: Graph, canvas: Canvas, ids: Seq<NodeId>)
    requires
        built(graph, canvas, ids),
    ensures
        sound_edges(graph.kind, graph.nodes@, graph.edges@),
{
    lemma_wired_is_sound(graph.kind, graph.nodes@, canvas.nodes@, ids, canvas.wires@);
}

} // verus!
