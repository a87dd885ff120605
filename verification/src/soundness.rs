//! What every change to a graph keeps: edges whose ends exist and agree, and at
//! most one edge into an input.
use crate::edge::{Edge, PinRef};
use crate::graph::{connect_outcome, feeds_input, without_input, without_node};
use crate::ids::GraphKind;
use crate::node::Node;
use crate::slots::NodeId;
use crate::validate::edge_problem;
use vstd::prelude::*;

verus! {

/// Whether every edge is well typed and no two feed the same input.
pub open spec fn sound_edges(
    kind: GraphKind,
    nodes: Map<NodeId, Node>,
    edges: Seq<Edge>,
) -> bool {
    &&& forall|i: int|
        0 <= i < edges.len() ==> edge_problem(kind, nodes, #[trigger] edges[i]) is None
    &&& forall|i: int, j: int|
        0 <= i < j < edges.len() ==> (#[trigger] edges[i]).to != (#[trigger] edges[j]).to
}

/// An empty graph has sound edges.
pub proof fn no_edges_are_sound(kind: GraphKind, nodes: Map<NodeId, Node>)
    ensures
        sound_edges(kind, nodes, Seq::<Edge>::empty()),
{
}

/// Adding a node keeps edges sound.
pub proof fn adding_a_node_keeps_edges_sound(
    kind: GraphKind,
    nodes: Map<NodeId, Node>,
    edges: Seq<Edge>,
    id: NodeId,
    node: Node,
)
    requires
        sound_edges(kind, nodes, edges),
        !nodes.contains_key(id),
    ensures
        sound_edges(kind, nodes.insert(id, node), edges),
{
    assert forall|i: int| 0 <= i < edges.len() implies edge_problem(
        kind,
        nodes.insert(id, node),
        #[trigger] edges[i],
    ) is None by {
        assert(edge_problem(kind, nodes, edges[i]) is None);
    }
}

/// A connection is accepted exactly when the edge has no problem and its input
/// is free, and then keeps edges sound.
pub proof fn connecting_keeps_edges_sound(
    kind: GraphKind,
    nodes: Map<NodeId, Node>,
    edges: Seq<Edge>,
    from: PinRef,
    to: PinRef,
)
    requires
        sound_edges(kind, nodes, edges),
    ensures
        connect_outcome(kind, nodes, edges, from, to) is Ok <==> edge_problem(
            kind,
            nodes,
            Edge { from, to },
        ) is None && !feeds_input(edges, to),
        connect_outcome(kind, nodes, edges, from, to) is Ok ==> sound_edges(
            kind,
            nodes,
            edges.push(Edge { from, to }),
        ),
{
}

/// What filtering keeps of a sequence of edges.
proof fn lemma_filter_keeps(edges: Seq<Edge>, keep: spec_fn(Edge) -> bool)
    ensures
        forall|i: int|
            0 <= i < edges.filter(keep).len() ==> keep(#[trigger] edges.filter(keep)[i])
                && edges.contains(edges.filter(keep)[i]),
        (forall|i: int, j: int|
            0 <= i < j < edges.len() ==> (#[trigger] edges[i]).to != (#[trigger] edges[j]).to)
            ==> (forall|i: int, j: int|
            0 <= i < j < edges.filter(keep).len() ==> (#[trigger] edges.filter(keep)[i]).to != (
            #[trigger] edges.filter(keep)[j]).to),
    decreases edges.len(),
{
    reveal(Seq::filter);
    if edges.len() > 0 {
        let rest = edges.drop_last();
        lemma_filter_keeps(rest, keep);
        let out = edges.filter(keep);
        let sub = rest.filter(keep);
        assert forall|i: int| 0 <= i < out.len() implies keep(#[trigger] out[i]) && edges.contains(
            out[i],
        ) by {
            if i < sub.len() {
                assert(out[i] == sub[i]);
                let k = choose|k: int| 0 <= k < rest.len() && rest[k] == sub[i];
                assert(rest.contains(sub[i]));
                assert(edges[k] == out[i]);
            } else {
                assert(out[i] == edges[edges.len() - 1]);
            }
        }
        if forall|i: int, j: int|
            0 <= i < j < edges.len() ==> (#[trigger] edges[i]).to != (#[trigger] edges[j]).to {
            assert forall|i: int, j: int| 0 <= i < j < rest.len() implies (#[trigger] rest[i]).to
                != (#[trigger] rest[j]).to by {
                assert(edges[i].to != edges[j].to);
            }
            assert forall|i: int, j: int| 0 <= i < j < out.len() implies (#[trigger] out[i]).to != (
            #[trigger] out[j]).to by {
                if j < sub.len() {
                    assert(sub[i].to != sub[j].to);
                } else {
                    assert(out[j] == edges.last());
                    assert(rest.contains(sub[i]));
                    let k = choose|k: int| 0 <= k < rest.len() && rest[k] == sub[i];
                    assert(edges[k] == out[i]);
                    assert(edges[k].to != edges[edges.len() - 1].to);
                }
            }
        }
    }
}

/// After disconnecting an input nothing feeds it, and edges stay sound.
pub proof fn disconnecting_frees_the_input(
    kind: GraphKind,
    nodes: Map<NodeId, Node>,
    edges: Seq<Edge>,
    to: PinRef,
)
    ensures
        !feeds_input(without_input(edges, to), to),
        sound_edges(kind, nodes, edges) ==> sound_edges(kind, nodes, without_input(edges, to)),
{
    lemma_filter_keeps(edges, |e: Edge| e.to != to);
}

/// Disconnecting an input that nothing feeds changes nothing, and disconnecting
/// right after an accepted connection undoes it.
pub proof fn disconnecting_undoes_connecting(
    kind: GraphKind,
    nodes: Map<NodeId, Node>,
    edges: Seq<Edge>,
    from: PinRef,
    to: PinRef,
)
    ensures
        !feeds_input(edges, to) ==> without_input(edges, to) == edges,
        connect_outcome(kind, nodes, edges, from, to) is Ok ==> without_input(
            edges.push(Edge { from, to }),
            to,
        ) == edges,
{
    if !feeds_input(edges, to) {
        lemma_unfed_stays(edges, to);
        reveal(Seq::filter);
        assert(edges.push(Edge { from, to }).drop_last() =~= edges);
    }
}

proof fn lemma_unfed_stays(edges: Seq<Edge>, to: PinRef)
    requires
        !feeds_input(edges, to),
    ensures
        without_input(edges, to) == edges,
    decreases edges.len(),
{
    reveal(Seq::filter);
    if edges.len() > 0 {
        let rest = edges.drop_last();
        assert forall|i: int| 0 <= i < rest.len() implies (#[trigger] rest[i]).to != to by {
            assert(edges[i].to != to);
        }
        lemma_unfed_stays(rest, to);
        assert(edges[edges.len() - 1].to != to);
        assert(without_input(edges, to) =~= edges);
    } else {
        assert(without_input(edges, to) =~= edges);
    }
}

/// After removing a node no edge touches it, and edges stay sound.
pub proof fn removing_a_node_removes_its_edges(
    kind: GraphKind,
    nodes: Map<NodeId, Node>,
    edges: Seq<Edge>,
    id: NodeId,
)
    ensures
        forall|i: int|
            0 <= i < without_node(edges, id).len() ==> (#[trigger] without_node(
                edges,
                id,
            )[i]).from.node != id && without_node(edges, id)[i].to.node != id,
        sound_edges(kind, nodes, edges) ==> sound_edges(
            kind,
            nodes.remove(id),
            without_node(edges, id),
        ),
{
    let kept = without_node(edges, id);
    lemma_filter_keeps(edges, |e: Edge| e.from.node != id && e.to.node != id);
    if sound_edges(kind, nodes, edges) {
        assert forall|i: int| 0 <= i < kept.len() implies edge_problem(
            kind,
            nodes.remove(id),
            #[trigger] kept[i],
        ) is None by {
            let k = choose|k: int| 0 <= k < edges.len() && edges[k] == kept[i];
            assert(edges.contains(kept[i]));
            assert(edge_problem(kind, nodes, edges[k]) is None);
        }
    }
}

} // verus!
