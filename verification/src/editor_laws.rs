//! What undo and redo keep and restore.
use crate::canvas::{built, pictures, shows};
use crate::canvas_laws::{built_graphs_are_sound, drawn_graphs_come_back, same_but_for_names};
use crate::editor::{EditorView, Frame};
use crate::graph::Graph;
use crate::slots::NodeId;
use crate::soundness::sound_edges;
use vstd::prelude::*;

verus! {

/// Whether two graphs are the same but for the identities of their nodes.
pub open spec fn alike(a: Graph, b: Graph) -> bool {
    exists|keys: Seq<NodeId>, ids: Seq<NodeId>| #[trigger] same_but_for_names(a, b, keys, ids)
}

/// Saving a graph that was opened and not edited gives it back, but for the
/// identities of its nodes, when its edges are sound.
pub proof fn saving_keeps_an_opened_graph(opened: Graph, state: EditorView, saved: Graph)
    requires
        pictures(state.canvas, opened),
        state.kind == opened.kind,
        state.boundary == opened.boundary@,
        sound_edges(opened.kind, opened.nodes@, opened.edges@),
        state.stands_for(saved),
    ensures
        saved.kind == opened.kind,
        saved.boundary@ == opened.boundary@,
        alike(opened, saved),
{
    let keys = choose|keys: Seq<NodeId>| #[trigger] shows(state.canvas, opened, keys);
    let ids = choose|ids: Seq<NodeId>| #[trigger] built(saved, state.canvas, ids);
    drawn_graphs_come_back(opened, saved, state.canvas, keys, ids);
    assert(same_but_for_names(opened, saved, keys, ids));
}

/// Undoing returns to the graph from before the action, but for the identities
/// of its nodes, when that graph has the editor's kind and sound edges.
pub proof fn undoing_restores_the_graph(before: EditorView, after: EditorView, graph: Graph)
    requires
        before.undone(after),
        before.undo.last().snapshot.kind == before.kind,
        sound_edges(
            before.kind,
            before.undo.last().snapshot.nodes@,
            before.undo.last().snapshot.edges@,
        ),
        after.stands_for(graph),
    ensures
        alike(before.undo.last().snapshot, graph),
{
    let snapshot = before.undo.last().snapshot;
    let keys = choose|keys: Seq<NodeId>| #[trigger] shows(after.canvas, snapshot, keys);
    let ids = choose|ids: Seq<NodeId>| #[trigger] built(graph, after.canvas, ids);
    drawn_graphs_come_back(snapshot, graph, after.canvas, keys, ids);
    assert(same_but_for_names(snapshot, graph, keys, ids));
}

/// Redoing an undone action returns to the graph from before the undo, but for
/// the identities of its nodes, and puts the entry back on the undo stack.
pub proof fn redoing_reverses_undoing(
    start: EditorView,
    undone: EditorView,
    redone: EditorView,
    graph: Graph,
)
    requires
        start.undone(undone),
        undone.redone(redone),
        redone.stands_for(graph),
    ensures
        start.stands_for(undone.redo.last().snapshot),
        alike(undone.redo.last().snapshot, graph),
        redone.redo == start.redo,
        redone.undo.drop_last() == start.undo.drop_last(),
        redone.undo.last().label == start.undo.last().label,
{
    let snapshot = undone.redo.last().snapshot;
    let first = choose|ids: Seq<NodeId>| #[trigger] built(snapshot, start.canvas, ids);
    built_graphs_are_sound(snapshot, start.canvas, first);
    let keys = choose|keys: Seq<NodeId>| #[trigger] shows(redone.canvas, snapshot, keys);
    let ids = choose|ids: Seq<NodeId>| #[trigger] built(graph, redone.canvas, ids);
    drawn_graphs_come_back(snapshot, graph, redone.canvas, keys, ids);
    assert(same_but_for_names(snapshot, graph, keys, ids));
}

/// A frame, an undo and a redo keep the kind and boundary beside the canvas.
pub proof fn edits_keep_the_identity(before: EditorView, after: EditorView, frame: Frame)
    requires
        before.undone(after) || before.redone(after) || after == before.settled(frame),
    ensures
        after.kind == before.kind,
        after.boundary == before.boundary,
{
}

/// A new action cannot be followed by a redo.
pub proof fn actions_end_redoing(before: EditorView, label: Seq<char>, graph: Graph)
    ensures
        before.pushed(label, graph).redo.len() == 0,
        before.pushed(label, graph).undo.len() > 0,
        before.pushed(label, graph).undo.last().label == label,
        before.pushed(label, graph).undo.last().snapshot == graph,
{
}

/// However many frames change a parameter in one interaction, the undo entry it
/// becomes returns to the graph from before the first of them.
pub proof fn interactions_become_one_entry(
    start: EditorView,
    first: Graph,
    later: Graph,
    node: Option<Seq<char>>,
    other: Option<Seq<char>>,
)
    requires
        start.baseline is None,
    ensures
        start.edited(first, node).edited(later, other).baseline == Some(first),
        start.edited(first, node).edited(later, other).committed().undo.last().snapshot == first,
        start.edited(first, node).undo == start.undo,
        start.edited(first, node).edited(later, other).undo == start.undo,
{
}

} // verus!
