//! What the canvas gestures do: placing, deleting, connecting and
//! disconnecting, each with the label its undo entry carries.
use crate::boundary::GraphBoundary;
use crate::canvas::{node_at, Canvas, CanvasNode, CanvasWire};
use crate::catalog::CatalogEntry;
use crate::ids::{GraphKind, GraphRefTarget, LibraryGraphId};
use crate::node::{NodeKind, Vec2};
use crate::params::{GraphRefParams, LibraryRefParams};
use crate::pin::PinType;
use vstd::prelude::*;

verus! {

/// One library the author may reference, with the boundary a reference to it
/// presents. The boundary travels with the choice, so that a node is bound at
/// the moment it is placed.
#[derive(Clone, Debug)]
pub struct LibraryChoice {
    /// Stable library identity, stored on the node.
    pub id: LibraryGraphId,
    /// Display name.
    pub name: String,
    /// The library's declared boundary.
    pub boundary: GraphBoundary,
}

/// One hierarchy graph the author may reference.
#[derive(Clone, Debug)]
pub struct GraphChoice {
    /// The target stored on the node.
    pub target: GraphRefTarget,
    /// Display name.
    pub name: String,
    /// The target's declared boundary, of which the outputs show.
    pub boundary: GraphBoundary,
}

/// The choices a node's parameters can be picked from.
#[derive(Clone, Debug)]
pub struct GraphCatalogs {
    /// Every zone in the world, in selector order.
    pub zones: Vec<(u16, String)>,
    /// Every biome in the world, in selector order.
    pub biomes: Vec<(u16, String)>,
    /// Every library that can be referenced.
    pub libraries: Vec<LibraryChoice>,
    /// Every hierarchy graph that can be referenced.
    pub graphs: Vec<GraphChoice>,
    /// Every blueprint by name, in selector order.
    pub blueprints: Vec<String>,
}

impl Default for GraphCatalogs {
    fn default() -> (r: Self)
        ensures
            r.zones@.len() == 0,
            r.biomes@.len() == 0,
            r.libraries@.len() == 0,
            r.graphs@.len() == 0,
            r.blueprints@.len() == 0,
    {
        GraphCatalogs {
            zones: Vec::new(),
            biomes: Vec::new(),
            libraries: Vec::new(),
            graphs: Vec::new(),
            blueprints: Vec::new(),
        }
    }
}

/// Two texts in a row.
pub(crate) fn joined(a: &str, b: &str) -> (r: String)
    ensures
        r@ == a@ + b@,
{
    let mut out = String::from_str(a);
    out.append(b);
    out
}

/// The wires of a canvas that do not enter an input pin.
pub open spec fn not_entering(wires: Seq<CanvasWire>, node: usize, pin: usize) -> Seq<CanvasWire>
    decreases wires.len(),
{
    if wires.len() == 0 {
        Seq::empty()
    } else {
        let rest = not_entering(wires.drop_last(), node, pin);
        if wires.last().to_node == node && wires.last().to_pin == pin {
            rest
        } else {
            rest.push(wires.last())
        }
    }
}

/// The wires of a canvas that do not leave an output pin.
pub open spec fn not_leaving(wires: Seq<CanvasWire>, node: usize, pin: usize) -> Seq<CanvasWire>
    decreases wires.len(),
{
    if wires.len() == 0 {
        Seq::empty()
    } else {
        let rest = not_leaving(wires.drop_last(), node, pin);
        if wires.last().from_node == node && wires.last().from_pin == pin {
            rest
        } else {
            rest.push(wires.last())
        }
    }
}

/// The wires of a canvas that do not touch a node.
pub open spec fn not_touching(wires: Seq<CanvasWire>, node: usize) -> Seq<CanvasWire>
    decreases wires.len(),
{
    if wires.len() == 0 {
        Seq::empty()
    } else {
        let rest = not_touching(wires.drop_last(), node);
        if wires.last().from_node == node || wires.last().to_node == node {
            rest
        } else {
            rest.push(wires.last())
        }
    }
}

/// The wires of a canvas other than one.
pub open spec fn without_wire(wires: Seq<CanvasWire>, wire: CanvasWire) -> Seq<CanvasWire>
    decreases wires.len(),
{
    if wires.len() == 0 {
        Seq::empty()
    } else {
        let rest = without_wire(wires.drop_last(), wire);
        if wires.last() == wire {
            rest
        } else {
            rest.push(wires.last())
        }
    }
}

/// The nodes of a canvas other than one.
pub open spec fn without_canvas_node(nodes: Seq<CanvasNode>, id: usize) -> Seq<CanvasNode>
    decreases nodes.len(),
{
    if nodes.len() == 0 {
        Seq::empty()
    } else {
        let rest = without_canvas_node(nodes.drop_last(), id);
        if nodes.last().id == id {
            rest
        } else {
            rest.push(nodes.last())
        }
    }
}

/// Whether no input pin of a canvas is entered by two wires.
pub open spec fn inputs_fed_once(wires: Seq<CanvasWire>) -> bool {
    forall|i: int, j: int|
        0 <= i < j < wires.len() ==> ((#[trigger] wires[i]).to_node, wires[i].to_pin) != (
            (#[trigger] wires[j]).to_node,
            wires[j].to_pin,
        )
}

impl Canvas {
    /// The kind of a node on the canvas.
    pub open spec fn kind_at(self, id: usize) -> NodeKind {
        self.nodes@[node_at(self.nodes@, id)->0].kind
    }

    /// The display name of a node on the canvas.
    pub open spec fn title(self, id: usize) -> Seq<char> {
        self.kind_at(id).row().display_name@
    }

    /// Whether both ends of a wire are pins of nodes on the canvas.
    pub open spec fn attachable(self, kind: GraphKind, w: CanvasWire) -> bool {
        &&& node_at(self.nodes@, w.from_node) is Some
        &&& node_at(self.nodes@, w.to_node) is Some
        &&& w.from_pin < self.kind_at(w.from_node).outputs_in(kind).len()
        &&& w.to_pin < self.kind_at(w.to_node).inputs_in(kind).len()
    }

    /// Whether the pins at the ends of a wire carry compatible types.
    pub open spec fn fits(self, kind: GraphKind, w: CanvasWire) -> bool {
        PinType::compatible(
            self.kind_at(w.from_node).outputs_in(kind)[w.from_pin as int].ty,
            self.kind_at(w.to_node).inputs_in(kind)[w.to_pin as int].ty,
        )
    }

    /// The label of the action that draws a wire.
    pub open spec fn connect_text(self, kind: GraphKind, w: CanvasWire) -> Seq<char> {
        "Connect "@ + self.title(w.from_node) + "."@ + self.kind_at(w.from_node).outputs_in(
            kind,
        )[w.from_pin as int].name + " → "@ + self.title(w.to_node) + "."@ + self.kind_at(
            w.to_node,
        ).inputs_in(kind)[w.to_pin as int].name
    }

    fn kind_of(&self, id: usize) -> (r: &NodeKind)
        requires
            node_at(self.nodes@, id) is Some,
        ensures
            *r == self.kind_at(id),
    {
        match self.find(id) {
            Some(k) => &self.nodes[k].kind,
            None => &self.nodes[0].kind,
        }
    }

    /// Place a node.
    pub fn insert(&mut self, id: usize, position: Vec2, kind: NodeKind)
        ensures
            final(self).nodes@ == old(self).nodes@.push(CanvasNode { id, kind, position }),
            final(self).wires == old(self).wires,
    {
        self.nodes.push(CanvasNode { id, kind, position });
    }

    /// Draw a wire in a graph of some kind, if the types of its ends fit. An
    /// input takes one wire, so a wire already there gives way. Returns the
    /// label of the action, or `None` when the types do not fit and nothing is
    /// drawn.
    pub fn connect(&mut self, kind: GraphKind, wire: CanvasWire) -> (r: Option<String>)
        requires
            old(self).attachable(kind, wire),
        ensures
            final(self).nodes == old(self).nodes,
            match r {
                Some(label) => {
                    &&& old(self).fits(kind, wire)
                    &&& label@ == old(self).connect_text(kind, wire)
                    &&& final(self).wires@ == not_entering(
                        old(self).wires@,
                        wire.to_node,
                        wire.to_pin,
                    ).push(wire)
                },
                None => !old(self).fits(kind, wire) && final(self).wires == old(self).wires,
            },
    {
        let label: String;
        {
            let from = self.kind_of(wire.from_node);
            let to = self.kind_of(wire.to_node);
            let outputs = from.effective_outputs_in(kind);
            let inputs = to.effective_inputs_in(kind);
            proof {
                assert(from.outputs_in(kind)[wire.from_pin as int] == outputs@[wire.from_pin as int]@);
                assert(to.inputs_in(kind)[wire.to_pin as int] == inputs@[wire.to_pin as int]@);
            }
            if !PinType::is_compatible(outputs[wire.from_pin].ty, inputs[wire.to_pin].ty) {
                return None;
            }
            let mut text = joined("Connect ", from.descriptor().display_name);
            text.append(".");
            text.append(outputs[wire.from_pin].name);
            text.append(" → ");
            text.append(to.descriptor().display_name);
            text.append(".");
            text.append(inputs[wire.to_pin].name);
            label = text;
        }
        self.clear_input(wire.to_node, wire.to_pin);
        self.wires.push(wire);
        Some(label)
    }

    fn clear_input(&mut self, node: usize, pin: usize)
        ensures
            final(self).nodes == old(self).nodes,
            final(self).wires@ == not_entering(old(self).wires@, node, pin),
    {
        let mut kept: Vec<CanvasWire> = Vec::new();
        let mut k: usize = 0;
        while k < self.wires.len()
            invariant
                k <= self.wires@.len(),
                kept@ == not_entering(self.wires@.take(k as int), node, pin),
            decreases self.wires@.len() - k,
        {
            assert(self.wires@.take(k + 1).drop_last() =~= self.wires@.take(k as int));
            let w = self.wires[k];
            if !(w.to_node == node && w.to_pin == pin) {
                kept.push(w);
            }
            k = k + 1;
        }
        assert(self.wires@.take(k as int) =~= self.wires@);
        self.wires = kept;
    }

    /// Take a wire off. Returns the label of the action.
    pub fn disconnect(&mut self, wire: CanvasWire) -> (r: String)
        requires
            node_at(old(self).nodes@, wire.from_node) is Some,
            node_at(old(self).nodes@, wire.to_node) is Some,
        ensures
            r@ == "Disconnect"@ + " "@ + old(self).title(wire.from_node) + " -> "@ + old(
                self,
            ).title(wire.to_node),
            final(self).nodes == old(self).nodes,
            final(self).wires@ == without_wire(old(self).wires@, wire),
    {
        let label = {
            let from = self.kind_of(wire.from_node);
            let to = self.kind_of(wire.to_node);
            wire_label("Disconnect", from, to)
        };
        let mut kept: Vec<CanvasWire> = Vec::new();
        let mut k: usize = 0;
        while k < self.wires.len()
            invariant
                k <= self.wires@.len(),
                kept@ == without_wire(self.wires@.take(k as int), wire),
            decreases self.wires@.len() - k,
        {
            assert(self.wires@.take(k + 1).drop_last() =~= self.wires@.take(k as int));
            let w = self.wires[k];
            if w != wire {
                kept.push(w);
            }
            k = k + 1;
        }
        assert(self.wires@.take(k as int) =~= self.wires@);
        self.wires = kept;
        label
    }

    /// Take off every wire leaving an output pin. Returns the label of the
    /// action, or `None` when there was no wire.
    pub fn drop_outputs(&mut self, node: usize, pin: usize) -> (r: Option<String>)
        requires
            node_at(old(self).nodes@, node) is Some,
        ensures
            final(self).nodes == old(self).nodes,
            final(self).wires@ == not_leaving(old(self).wires@, node, pin),
            match r {
                Some(label) => {
                    &&& not_leaving(old(self).wires@, node, pin).len() < old(self).wires@.len()
                    &&& label@ == "Disconnect "@ + old(self).title(node) + " outputs"@
                },
                None => not_leaving(old(self).wires@, node, pin) == old(self).wires@,
            },
    {
        let label = {
            let mut text = joined("Disconnect ", self.kind_of(node).descriptor().display_name);
            text.append(" outputs");
            text
        };
        let mut kept: Vec<CanvasWire> = Vec::new();
        let mut k: usize = 0;
        while k < self.wires.len()
            invariant
                k <= self.wires@.len(),
                kept@ == not_leaving(self.wires@.take(k as int), node, pin),
                kept@.len() <= k,
                kept@.len() == k ==> kept@ == self.wires@.take(k as int),
            decreases self.wires@.len() - k,
        {
            assert(self.wires@.take(k + 1).drop_last() =~= self.wires@.take(k as int));
            let w = self.wires[k];
            if !(w.from_node == node && w.from_pin == pin) {
                kept.push(w);
            }
            k = k + 1;
        }
        assert(self.wires@.take(k as int) =~= self.wires@);
        let dropped = kept.len() < self.wires.len();
        self.wires = kept;
        if dropped {
            Some(label)
        } else {
            None
        }
    }

    /// Take off every wire entering an input pin. Returns the label of the
    /// action, or `None` when there was no wire.
    pub fn drop_inputs(&mut self, node: usize, pin: usize) -> (r: Option<String>)
        requires
            node_at(old(self).nodes@, node) is Some,
        ensures
            final(self).nodes == old(self).nodes,
            final(self).wires@ == not_entering(old(self).wires@, node, pin),
            match r {
                Some(label) => {
                    &&& not_entering(old(self).wires@, node, pin).len() < old(self).wires@.len()
                    &&& label@ == "Disconnect "@ + old(self).title(node) + " input"@
                },
                None => not_entering(old(self).wires@, node, pin) == old(self).wires@,
            },
    {
        let label = {
            let mut text = joined("Disconnect ", self.kind_of(node).descriptor().display_name);
            text.append(" input");
            text
        };
        let before: usize = self.wires.len();
        let ghost all = self.wires@;
        self.clear_input(node, pin);
        proof {
            lemma_entering_shrinks(all, node, pin);
        }
        if self.wires.len() < before {
            Some(label)
        } else {
            None
        }
    }

    /// Take a node off the canvas, with every wire touching it. Returns the
    /// label of the action.
    pub fn delete(&mut self, id: usize) -> (r: String)
        requires
            node_at(old(self).nodes@, id) is Some,
        ensures
            r@ == "Delete "@ + old(self).title(id),
            final(self).nodes@ == without_canvas_node(old(self).nodes@, id),
            final(self).wires@ == not_touching(old(self).wires@, id),
    {
        let label = joined("Delete ", self.kind_of(id).descriptor().display_name);
        let mut kept: Vec<CanvasWire> = Vec::new();
        let mut k: usize = 0;
        while k < self.wires.len()
            invariant
                k <= self.wires@.len(),
                kept@ == not_touching(self.wires@.take(k as int), id),
            decreases self.wires@.len() - k,
        {
            assert(self.wires@.take(k + 1).drop_last() =~= self.wires@.take(k as int));
            let w = self.wires[k];
            if !(w.from_node == id || w.to_node == id) {
                kept.push(w);
            }
            k = k + 1;
        }
        assert(self.wires@.take(k as int) =~= self.wires@);
        self.wires = kept;
        let mut left: Vec<CanvasNode> = Vec::new();
        let mut rest: Vec<CanvasNode> = Vec::new();
        std::mem::swap(&mut rest, &mut self.nodes);
        let ghost all = rest@;
        let ghost mut done: int = 0;
        while rest.len() > 0
            invariant
                0 <= done <= all.len(),
                rest@ == all.skip(done),
                left@ == without_canvas_node(all.take(done), id),
            decreases rest@.len(),
        {
            proof {
                assert(all.take(done + 1).drop_last() =~= all.take(done));
                assert(all.take(done + 1).last() == all.skip(done)[0]);
                assert(all.skip(done).remove(0) =~= all.skip(done + 1));
            }
            let node = rest.remove(0);
            if node.id != id {
                left.push(node);
            }
            proof {
                done = done + 1;
            }
        }
        assert(all.take(done) =~= all);
        self.nodes = left;
        label
    }
}

proof fn lemma_entering_shrinks(wires: Seq<CanvasWire>, node: usize, pin: usize)
    ensures
        not_entering(wires, node, pin).len() <= wires.len(),
        not_entering(wires, node, pin).len() == wires.len() ==> not_entering(wires, node, pin)
            == wires,
    decreases wires.len(),
{
    if wires.len() > 0 {
        lemma_entering_shrinks(wires.drop_last(), node, pin);
        assert(wires.drop_last().push(wires.last()) =~= wires);
    } else {
        assert(not_entering(wires, node, pin) =~= wires);
    }
}

/// Short label of an action on a wire between two nodes.
fn wire_label(verb: &str, from: &NodeKind, to: &NodeKind) -> (r: String)
    ensures
        r@ == verb@ + " "@ + from.row().display_name@ + " -> "@ + to.row().display_name@,
{
    let mut text = joined(verb, " ");
    text.append(from.descriptor().display_name);
    text.append(" -> ");
    text.append(to.descriptor().display_name);
    text
}

/// The node and the action label of placing a catalog entry.
pub fn place_entry(entry: &CatalogEntry) -> (r: (NodeKind, String))
    ensures
        entry.kind.same(r.0),
        r.1@ == "Add "@ + entry.label@,
{
    (entry.kind.clone(), joined("Add ", entry.label))
}

/// The node and the action label of placing a library reference: the node is
/// bound to the library and presents its pins.
pub fn place_library(choice: &LibraryChoice) -> (r: (NodeKind, String))
    ensures
        match r.0 {
            NodeKind::LibraryRef(p) => p.library == choice.id && (match p.resolved {
                Some(b) => b@.inputs == crate::boundary::port_pins(choice.boundary@.inputs)
                    && b@.outputs == crate::boundary::port_pins(choice.boundary@.outputs),
                None => false,
            }),
            _ => false,
        },
        r.1@ == "Add "@ + choice.name@,
{
    let kind = NodeKind::LibraryRef(
        LibraryRefParams { library: choice.id, resolved: Some(choice.boundary.to_resolved()) },
    );
    (kind, joined("Add ", choice.name.as_str()))
}

/// The node and the action label of placing a reference to a hierarchy graph:
/// the node is bound to the graph and presents its outputs.
pub fn place_graph(choice: &GraphChoice) -> (r: (NodeKind, String))
    ensures
        match r.0 {
            NodeKind::GraphRef(p) => p.target == choice.target && (match p.resolved {
                Some(b) => b@.inputs.len() == 0 && b@.outputs == crate::boundary::port_pins(
                    choice.boundary@.outputs,
                ),
                None => false,
            }),
            _ => false,
        },
        r.1@ == "Add Graph Ref "@ + choice.name@,
{
    let kind = NodeKind::GraphRef(
        GraphRefParams {
            target: choice.target,
            resolved: Some(choice.boundary.to_resolved_outputs()),
        },
    );
    (kind, joined("Add Graph Ref ", choice.name.as_str()))
}

proof fn lemma_kept_wires(wires: Seq<CanvasWire>, node: usize, pin: usize)
    requires
        inputs_fed_once(wires),
    ensures
        inputs_fed_once(not_entering(wires, node, pin)),
        forall|i: int|
            0 <= i < not_entering(wires, node, pin).len() ==> {
                let w = #[trigger] not_entering(wires, node, pin)[i];
                wires.contains(w) && !(w.to_node == node && w.to_pin == pin)
            },
    decreases wires.len(),
{
    if wires.len() > 0 {
        let rest = wires.drop_last();
        assert forall|i: int, j: int| 0 <= i < j < rest.len() implies ((#[trigger] rest[i]).to_node,
            rest[i].to_pin,
        ) != ((#[trigger] rest[j]).to_node, rest[j].to_pin) by {
            assert(wires[i] == rest[i] && wires[j] == rest[j]);
        }
        lemma_kept_wires(rest, node, pin);
        let kept = not_entering(rest, node, pin);
        let after = not_entering(wires, node, pin);
        assert forall|i: int| 0 <= i < after.len() implies wires.contains(#[trigger] after[i]) && !(
        after[i].to_node == node && after[i].to_pin == pin) by {
            if i < kept.len() {
                assert(after[i] == kept[i]);
                let k = choose|k: int| 0 <= k < rest.len() && rest[k] == kept[i];
                assert(wires[k] == after[i]);
            } else {
                assert(wires[wires.len() - 1] == after[i]);
            }
        }
        assert forall|i: int, j: int| 0 <= i < j < after.len() implies ((
        #[trigger] after[i]).to_node, after[i].to_pin) != ((#[trigger] after[j]).to_node,
            after[j].to_pin,
        ) by {
            assert(after[i] == kept[i]);
            if j < kept.len() {
                assert(after[j] == kept[j]);
            } else {
                let k = choose|k: int| 0 <= k < rest.len() && rest[k] == kept[i];
                assert(wires[k] == after[i]);
                assert(wires[wires.len() - 1] == after[j]);
            }
        }
    }
}

/// Drawing a wire leaves every input with at most one wire, and the input drawn
/// to with exactly the new one.
pub proof fn connecting_keeps_inputs_fed_once(wires: Seq<CanvasWire>, wire: CanvasWire)
    requires
        inputs_fed_once(wires),
    ensures
        inputs_fed_once(not_entering(wires, wire.to_node, wire.to_pin).push(wire)),
        forall|i: int|
            0 <= i < not_entering(wires, wire.to_node, wire.to_pin).len() ==> {
                let w = #[trigger] not_entering(wires, wire.to_node, wire.to_pin)[i];
                (w.to_node, w.to_pin) != (wire.to_node, wire.to_pin)
            },
{
    lemma_kept_wires(wires, wire.to_node, wire.to_pin);
}

} // verus!
