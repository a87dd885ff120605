//! What editing keeps and changes: wires, undo entries, parameters and region lists.
use crate::canvas::{drawn_wires, node_at, wired, CanvasNode, CanvasWire};
use crate::canvas_edit::{
    not_entering, not_leaving, not_touching, without_canvas_node, without_wire,
};
use crate::edge::{Edge, PinRef};
use crate::editor::{comma_list, stacked, EditorView, EntryView, Frame};
use crate::form::{FieldValue, Limits};
use crate::form_lists::{fitted, id_shown, listed_at, split};
use crate::graph::connect_outcome;
use crate::ids::GraphKind;
use crate::node::{Node, NodeKind};
use crate::scalar::Single;
use crate::slots::NodeId;
use vstd::prelude::*;

verus! {

/// Taking wires or a node off a canvas leaves the others in their order: those that do not
/// enter the input, leave the output, touch the node, or are not the wire.
pub proof fn taking_off_leaves_the_rest(
    wires: Seq<CanvasWire>,
    w: CanvasWire,
    nodes: Seq<CanvasNode>,
    c: CanvasNode,
    node: usize,
    pin: usize,
    wire: CanvasWire,
)
    ensures
        not_entering(Seq::empty(), node, pin).len() == 0,
        not_leaving(Seq::empty(), node, pin).len() == 0,
        not_touching(Seq::empty(), node).len() == 0,
        without_wire(Seq::empty(), wire).len() == 0,
        without_canvas_node(Seq::empty(), node).len() == 0,
        (w.to_node, w.to_pin) == (node, pin) ==> not_entering(wires.push(w), node, pin)
            == not_entering(wires, node, pin),
        (w.to_node, w.to_pin) != (node, pin) ==> not_entering(wires.push(w), node, pin)
            == not_entering(wires, node, pin).push(w),
        (w.from_node, w.from_pin) == (node, pin) ==> not_leaving(wires.push(w), node, pin)
            == not_leaving(wires, node, pin),
        (w.from_node, w.from_pin) != (node, pin) ==> not_leaving(wires.push(w), node, pin)
            == not_leaving(wires, node, pin).push(w),
        w.from_node == node || w.to_node == node ==> not_touching(wires.push(w), node)
            == not_touching(wires, node),
        w.from_node != node && w.to_node != node ==> not_touching(wires.push(w), node)
            == not_touching(wires, node).push(w),
        w == wire ==> without_wire(wires.push(w), wire) == without_wire(wires, wire),
        w != wire ==> without_wire(wires.push(w), wire) == without_wire(wires, wire).push(w),
        c.id == node ==> without_canvas_node(nodes.push(c), node) == without_canvas_node(
            nodes,
            node,
        ),
        c.id != node ==> without_canvas_node(nodes.push(c), node) == without_canvas_node(
            nodes,
            node,
        ).push(c),
{
    assert(wires.push(w).drop_last() =~= wires);
    assert(nodes.push(c).drop_last() =~= nodes);
}

/// An identity stands on the canvas where it was placed last, and nowhere just where it was
/// not placed.
pub proof fn nodes_stand_where_placed_last(nodes: Seq<CanvasNode>, id: usize, at: int)
    ensures
        0 <= at < nodes.len() && nodes[at].id == id && (forall|j: int|
            at < j < nodes.len() ==> (#[trigger] nodes[j]).id != id) ==> node_at(nodes, id) == Some(
            at,
        ),
        (forall|j: int| 0 <= j < nodes.len() ==> (#[trigger] nodes[j]).id != id) ==> node_at(
            nodes,
            id,
        ) is None,
    decreases nodes.len(),
{
    if nodes.len() > 0 {
        let less = nodes.drop_last();
        let n = nodes.len() - 1;
        nodes_stand_where_placed_last(less, id, at);
        assert forall|j: int| 0 <= j < less.len() implies less[j] == #[trigger] nodes[j] by {}
        if nodes[n].id == id {
            if 0 <= at < n && (forall|j: int|
                at < j < nodes.len() ==> (#[trigger] nodes[j]).id != id) {
                assert(nodes[n].id != id);
            }
        } else if 0 <= at < nodes.len() && nodes[at].id == id {
            assert(at < n);
            assert(less[at] == nodes[at]);
            if forall|j: int| at < j < nodes.len() ==> (#[trigger] nodes[j]).id != id {
                assert forall|j: int| at < j < less.len() implies (#[trigger] less[j]).id != id by {
                    assert(less[j] == nodes[j]);
                }
            }
        }
    }
}

/// An undo stack keeps the newest entries: a new one comes last, and where a hundred are
/// kept already, the oldest goes.
pub proof fn the_newest_entries_are_kept(stack: Seq<EntryView>, entry: EntryView, i: int)
    requires
        stack.len() <= 100,
    ensures
        stacked(stack, entry).len() <= 100,
        stacked(stack, entry).last() == entry,
        stack.len() < 100 ==> stacked(stack, entry) == stack.push(entry),
        stack.len() == 100 ==> stacked(stack, entry).len() == 100,
        stack.len() == 100 && 1 <= i < 100 ==> stacked(stack, entry)[i - 1] == stack[i],
{
}

/// Actions of one frame become one entry whose label names them all, behind a parameter
/// change that was still in flight, which becomes an entry of its own; both return to the
/// graph from before. Nothing can be redone then.
pub proof fn actions_settle_what_is_in_flight(start: EditorView, frame: Frame)
    requires
        frame.actions@.len() > 0,
        start.undo.len() <= 98,
    ensures
        ({
            let after = start.settled(frame);
            &&& after.undo.last().label == comma_list(frame.actions@)
            &&& after.undo.last().snapshot == frame.before
            &&& after.redo.len() == 0
            &&& after.baseline is None || start.baseline is None
            &&& start.baseline is None ==> after.undo.drop_last() == start.undo
            &&& start.baseline matches Some(b) ==> {
                &&& after.undo.len() == start.undo.len() + 2
                &&& after.undo.drop_last().drop_last() == start.undo
                &&& after.undo.drop_last().last().snapshot == b
                &&& start.edit_label matches Some(l) ==> after.undo.drop_last().last().label == l
            }
            &&& after.dirty && after.modified
            &&& after.canvas == start.canvas && after.kind == start.kind && after.toast
                == start.toast
        }),
{
    let after = start.settled(frame);
    if start.baseline is Some {
        assert(after.undo.drop_last() =~= start.committed().undo);
        assert(after.undo.drop_last().drop_last() =~= start.undo);
    } else {
        assert(after.undo.drop_last() =~= start.undo);
    }
}

/// A parameter change stays in flight while the pointer is down, and becomes an entry with
/// the first frame without interaction; a frame that brings nothing changes nothing.
pub proof fn changes_settle_when_interaction_ends(start: EditorView, frame: Frame)
    requires
        frame.actions@.len() == 0,
        frame.clicked is None,
        start.undo.len() < 100,
    ensures
        ({
            let after = start.settled(frame);
            &&& !frame.edited && frame.interacting ==> after == start
            &&& !frame.edited && start.baseline is None ==> after == start
            &&& !frame.edited && !frame.interacting ==> (start.baseline matches Some(b) ==> {
                &&& after.undo.drop_last() == start.undo
                &&& after.undo.last().snapshot == b
                &&& after.redo.len() == 0
                &&& after.baseline is None
                &&& after.edit_label is None
            })
            &&& frame.edited ==> after.undo == start.undo && after.redo == start.redo
                && after.modified && after.dirty
            &&& frame.edited && start.baseline is None ==> after.baseline == Some(frame.before)
            &&& frame.edited && start.baseline is Some ==> after.baseline == start.baseline
                && after.edit_label == start.edit_label
        }),
{
    let after = start.settled(frame);
    if !frame.edited && !frame.interacting && start.baseline is Some {
        assert(after.undo.drop_last() =~= start.undo);
    }
}

/// A click on another node's header selects it; no click, or one on the selected node, leaves
/// the selection as it is. Either way nothing else but the counter changes.
pub proof fn clicks_select(start: EditorView, node: Option<usize>)
    ensures
        node is Some ==> start.clicked(node).selected == node,
        node is None ==> start.clicked(node) == start,
        node == start.selected ==> start.clicked(node) == start,
        start.clicked(node).undo == start.undo,
        start.clicked(node).redo == start.redo,
        start.clicked(node).modified == start.modified,
        start.clicked(node).dirty == start.dirty,
        node is Some && node != start.selected && start.revision < u64::MAX ==> start.clicked(
            node,
        ).revision == start.revision + 1,
        start.revision < u64::MAX ==> start.touched().revision == start.revision + 1,
{
}

/// Labels of several actions are joined by commas, in their order.
pub proof fn labels_are_joined_in_order(labels: Seq<String>, one: String)
    ensures
        comma_list(Seq::empty()).len() == 0,
        comma_list(seq![one]) == one@,
        labels.len() > 0 ==> comma_list(labels.push(one)) == comma_list(labels) + ", "@ + one@,
{
    assert(labels.push(one).drop_last() =~= labels);
}

/// A value is held to its limits: it stays where it lies within them, and is the nearer limit
/// otherwise. A value that is not a number, or has no limits, stays.
pub proof fn values_are_held_to_their_limits(
    v: i64,
    lo: i64,
    hi: i64,
    x: Single,
    low: Single,
    high: Single,
)
    ensures
        lo <= v <= hi ==> FieldValue::Whole(v).held(Limits::Wholes(lo, hi)) == FieldValue::Whole(v),
        v < lo <= hi ==> FieldValue::Whole(v).held(Limits::Wholes(lo, hi)) == FieldValue::Whole(lo),
        lo <= hi < v ==> FieldValue::Whole(v).held(Limits::Wholes(lo, hi)) == FieldValue::Whole(hi),
        x.at_least(low) && high.at_least(x) ==> FieldValue::Real(x).held(Limits::Reals(low, high))
            == FieldValue::Real(x),
        high.at_least(low) && low.at_least(x) && !x.at_least(low) ==> FieldValue::Real(x).held(
            Limits::Reals(low, high),
        ) == FieldValue::Real(low),
        high.at_least(low) && x.at_least(high) && !high.at_least(x) ==> FieldValue::Real(x).held(
            Limits::Reals(low, high),
        ) == FieldValue::Real(high),
        x.is_nan() ==> FieldValue::Real(x).held(Limits::Reals(low, high)) == FieldValue::Real(x),
        FieldValue::Real(x).held(Limits::Free) == FieldValue::Real(x),
        FieldValue::Whole(v).held(Limits::Free) == FieldValue::Whole(v),
{
}

/// Region lists are fitted to their thresholds by keeping what is there and filling up, and a
/// new threshold splits the last region in two of the same id.
pub proof fn regions_keep_their_ids(
    ids: Seq<u16>,
    regions: int,
    fill: spec_fn(int) -> u16,
    fallback: u16,
    k: int,
)
    requires
        0 <= k < regions,
    ensures
        fitted(ids, regions, fill).len() == regions,
        k < ids.len() ==> fitted(ids, regions, fill)[k] == ids[k],
        k >= ids.len() ==> fitted(ids, regions, fill)[k] == fill(k),
        split(ids, fallback).len() == ids.len() + 1,
        k < ids.len() ==> split(ids, fallback)[k] == ids[k],
        ids.len() > 0 ==> split(ids, fallback)[ids.len() as int] == ids[ids.len() - 1],
        ids.len() == 0 ==> split(ids, fallback)[0] == fallback,
{
}

/// A picker shows an identity by the first name its catalog lists for it.
pub proof fn pickers_show_the_first_name(
    catalog: Seq<(u16, String)>,
    id: u16,
    noun: Seq<char>,
    at: int,
)
    requires
        0 <= at < catalog.len(),
        catalog[at].0 == id,
        forall|j: int| 0 <= j < at ==> (#[trigger] catalog[j]).0 != id,
    ensures
        id_shown(catalog, id, noun) == catalog[at].1@,
{
    lemma_listed_at(catalog, id, at);
}

proof fn lemma_listed_at(catalog: Seq<(u16, String)>, id: u16, at: int)
    requires
        0 <= at <= catalog.len(),
        at < catalog.len() ==> catalog[at].0 == id,
        forall|j: int| 0 <= j < at ==> (#[trigger] catalog[j]).0 != id,
    ensures
        at < catalog.len() ==> listed_at(catalog, id) == Some(at),
        at == catalog.len() ==> listed_at(catalog, id) is None,
    decreases catalog.len(),
{
    if catalog.len() > 0 {
        let less = catalog.drop_last();
        let n = catalog.len() - 1;
        assert forall|j: int| 0 <= j < less.len() implies less[j] == #[trigger] catalog[j] by {}
        if at <= n {
            assert forall|j: int| 0 <= j < at implies (#[trigger] less[j]).0 != id by {
                assert(less[j] == catalog[j]);
            }
            lemma_listed_at(less, id, at);
        } else {
            assert(catalog[n].0 != id);
            assert forall|j: int| 0 <= j < n implies (#[trigger] less[j]).0 != id by {
                assert(less[j] == catalog[j]);
            }
            lemma_listed_at(less, id, n);
        }
    }
}

/// The catalog files a kind of node under its own category.
pub proof fn the_catalog_files_by_category(kind: NodeKind)
    requires
        kind.catalog_place() is Some,
    ensures
        kind.catalog_category() == kind.row().category,
{
}

/// An edge is drawn as a wire from the place of the node it leaves to the place of the node
/// it enters, by the same pins; one that lacks a node is not drawn.
pub proof fn wires_lead_the_way_of_their_edges(
    keys: Seq<NodeId>,
    edges: Seq<Edge>,
    e: Edge,
    a: int,
    b: int,
)
    requires
        keys.no_duplicates(),
        keys.len() <= 0xffff_ffff,
    ensures
        drawn_wires(keys, Seq::empty()).len() == 0,
        0 <= a < keys.len() && 0 <= b < keys.len() && e.from.node == keys[a] && e.to.node == keys[b]
            ==> drawn_wires(keys, edges.push(e)) == drawn_wires(keys, edges).push(
            CanvasWire {
                from_node: a as usize,
                from_pin: e.from.pin as usize,
                to_node: b as usize,
                to_pin: e.to.pin as usize,
            },
        ),
        !keys.contains(e.from.node) || !keys.contains(e.to.node) ==> drawn_wires(
            keys,
            edges.push(e),
        ) == drawn_wires(keys, edges),
{
    assert(edges.push(e).drop_last() =~= edges);
    if 0 <= a < keys.len() && 0 <= b < keys.len() && e.from.node == keys[a] && e.to.node == keys[b] {
        assert(keys.index_of(keys[a]) == a);
        assert(keys.index_of(keys[b]) == b);
    }
}

/// A wire becomes an edge from the node it leaves to the node it enters, by the same pins,
/// where the graph accepts it; a wire that the graph refuses, or that lacks a node, becomes
/// none.
pub proof fn edges_lead_the_way_of_their_wires(
    kind: GraphKind,
    nodes: Map<NodeId, Node>,
    drawn: Seq<CanvasNode>,
    ids: Seq<NodeId>,
    wires: Seq<CanvasWire>,
    w: CanvasWire,
    a: int,
    b: int,
)
    requires
        w.from_pin < 0x1_0000,
        w.to_pin < 0x1_0000,
    ensures
        wired(kind, nodes, drawn, ids, Seq::empty()).len() == 0,
        node_at(drawn, w.from_node) is None || node_at(drawn, w.to_node) is None ==> wired(
            kind,
            nodes,
            drawn,
            ids,
            wires.push(w),
        ) == wired(kind, nodes, drawn, ids, wires),
        node_at(drawn, w.from_node) == Some(a) && node_at(drawn, w.to_node) == Some(b) ==> {
            let before = wired(kind, nodes, drawn, ids, wires);
            let from = PinRef { node: ids[a], pin: w.from_pin as u16 };
            let to = PinRef { node: ids[b], pin: w.to_pin as u16 };
            let after = wired(kind, nodes, drawn, ids, wires.push(w));
            if connect_outcome(kind, nodes, before, from, to) is Ok {
                after == before.push(Edge { from, to })
            } else {
                after == before
            }
        },
{
    assert(wires.push(w).drop_last() =~= wires);
}

} // verus!
