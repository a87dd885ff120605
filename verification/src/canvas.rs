//! The editor's canvas, and its conversion to and from graphs.
//!
//! The canvas holds what the widget toolkit shows: nodes under small integer
//! identities of its own, with their positions, and wires between numbered pins.
use crate::edge::{Edge, PinRef};
use crate::graph::{connect_outcome, Graph};
use crate::ids::GraphKind;
use crate::node::{Node, NodeKind, Vec2};
use crate::slots::{is_key_order, key_order_is_distinct, NodeId};
use vstd::prelude::*;

verus! {

/// A node on the canvas.
#[derive(PartialEq, Debug)]
pub struct CanvasNode {
    /// The canvas's own identity for the node.
    pub id: usize,
    /// Kind and parameters.
    pub kind: NodeKind,
    /// Where it stands.
    pub position: Vec2,
}

/// A wire on the canvas.
#[derive(Clone, Copy, PartialEq, Eq, Structural, Debug)]
pub struct CanvasWire {
    /// Node the wire leaves.
    pub from_node: usize,
    /// Output pin it leaves by.
    pub from_pin: usize,
    /// Node the wire enters.
    pub to_node: usize,
    /// Input pin it enters by.
    pub to_pin: usize,
}

/// The nodes and wires of a canvas.
#[derive(PartialEq, Debug)]
pub struct Canvas {
    /// The nodes, in the order drawn.
    pub nodes: Vec<CanvasNode>,
    /// The wires.
    pub wires: Vec<CanvasWire>,
}

/// Where on the canvas a node identity stands: at its last occurrence.
pub open spec fn node_at(nodes: Seq<CanvasNode>, id: usize) -> Option<int>
    decreases nodes.len(),
{
    if nodes.len() == 0 {
        None
    } else if nodes.last().id == id {
        Some(nodes.len() - 1)
    } else {
        node_at(nodes.drop_last(), id)
    }
}

/// The edge a wire stands for, when its ends are the nodes `a` and `b`.
pub open spec fn wire_edge(ids: Seq<NodeId>, w: CanvasWire, a: int, b: int) -> Edge {
    Edge {
        from: PinRef { node: ids[a], pin: w.from_pin as u16 },
        to: PinRef { node: ids[b], pin: w.to_pin as u16 },
    }
}

/// The edges that wires come to when connected one after the other: a wire
/// without its nodes, and one the graph refuses, is left out.
pub open spec fn wired(
    kind: GraphKind,
    nodes: Map<NodeId, Node>,
    drawn: Seq<CanvasNode>,
    ids: Seq<NodeId>,
    wires: Seq<CanvasWire>,
) -> Seq<Edge>
    decreases wires.len(),
{
    if wires.len() == 0 {
        Seq::empty()
    } else {
        let rest = wired(kind, nodes, drawn, ids, wires.drop_last());
        let w = wires.last();
        match (node_at(drawn, w.from_node), node_at(drawn, w.to_node)) {
            (Some(a), Some(b)) => {
                let e = wire_edge(ids, w, a, b);
                if connect_outcome(kind, nodes, rest, e.from, e.to) is Ok {
                    rest.push(e)
                } else {
                    rest
                }
            },
            _ => rest,
        }
    }
}

/// Whether a graph was built from a canvas, node `i` of the canvas under
/// identity `ids[i]`.
pub open spec fn built(graph: Graph, canvas: Canvas, ids: Seq<NodeId>) -> bool {
    &&& ids.len() == canvas.nodes@.len()
    &&& ids.no_duplicates()
    &&& graph.nodes@.dom() == ids.to_set()
    &&& forall|i: int|
        0 <= i < ids.len() ==> {
            &&& canvas.nodes@[i].kind.same(graph.nodes@[#[trigger] ids[i]].kind)
            &&& canvas.nodes@[i].position == graph.nodes@[ids[i]].position
        }
    &&& graph.edges@ == wired(graph.kind, graph.nodes@, canvas.nodes@, ids, canvas.wires@)
}

/// The wires that edges are drawn as; an edge that lacks a node is left out.
pub open spec fn drawn_wires(keys: Seq<NodeId>, edges: Seq<Edge>) -> Seq<CanvasWire>
    decreases edges.len(),
{
    if edges.len() == 0 {
        Seq::empty()
    } else {
        let rest = drawn_wires(keys, edges.drop_last());
        let e = edges.last();
        if keys.contains(e.from.node) && keys.contains(e.to.node) {
            rest.push(
                CanvasWire {
                    from_node: keys.index_of(e.from.node) as usize,
                    from_pin: e.from.pin as usize,
                    to_node: keys.index_of(e.to.node) as usize,
                    to_pin: e.to.pin as usize,
                },
            )
        } else {
            rest
        }
    }
}

/// Whether a canvas shows a graph whose nodes are listed by `keys`: each node
/// under its place in the list, at its position, and each edge as a wire.
pub open spec fn shows(canvas: Canvas, graph: Graph, keys: Seq<NodeId>) -> bool {
    &&& is_key_order(graph.nodes@, keys)
    &&& canvas.nodes@.len() == keys.len()
    &&& forall|i: int|
        0 <= i < keys.len() ==> {
            &&& (#[trigger] canvas.nodes@[i]).id == i
            &&& graph.nodes@[keys[i]].kind.same(canvas.nodes@[i].kind)
            &&& graph.nodes@[keys[i]].position == canvas.nodes@[i].position
        }
    &&& canvas.wires@ == drawn_wires(keys, graph.edges@)
}

impl Canvas {
    /// An empty canvas.
    pub fn new() -> (r: Canvas)
        ensures
            r.nodes@ == Seq::<CanvasNode>::empty(),
            r.wires@ == Seq::<CanvasWire>::empty(),
    {
        Canvas { nodes: Vec::new(), wires: Vec::new() }
    }

    /// Where a node identity stands.
    pub fn find(&self, id: usize) -> (r: Option<usize>)
        ensures
            match (r, node_at(self.nodes@, id)) {
                (Some(k), Some(n)) => k == n && k < self.nodes@.len(),
                (None, None) => true,
                _ => false,
            },
    {
        let mut k: usize = self.nodes.len();
        assert(self.nodes@.take(k as int) =~= self.nodes@);
        while k > 0
            invariant
                k <= self.nodes@.len(),
                node_at(self.nodes@.take(k as int), id) == node_at(self.nodes@, id),
            decreases k,
        {
            assert(self.nodes@.take(k as int).drop_last() =~= self.nodes@.take(k - 1));
            if self.nodes[k - 1].id == id {
                return Some(k - 1);
            }
            k = k - 1;
        }
        None
    }
}

/// Build a graph of some kind from a canvas. Also returns the graph identity
/// of each node of the canvas, in canvas order. Wires that the graph refuses
/// are left out.
pub fn canvas_to_graph(kind: GraphKind, canvas: &Canvas) -> (r: (Graph, Vec<NodeId>))
    requires
        canvas.nodes@.len() < 0xffff_fffe,
    ensures
        r.0.kind == kind,
        r.0.boundary@.inputs == Seq::<crate::boundary::PortView>::empty(),
        r.0.boundary@.outputs == Seq::<crate::boundary::PortView>::empty(),
        built(r.0, *canvas, r.1@),
{
    let mut graph = Graph::of_kind(kind);
    let mut ids: Vec<NodeId> = Vec::new();
    let mut i: usize = 0;
    assert(graph.nodes@.dom() =~= ids@.to_set());
    while i < canvas.nodes.len()
        invariant
            i <= canvas.nodes@.len() < 0xffff_fffe,
            ids@.len() == i,
            ids@.no_duplicates(),
            graph.nodes@.dom() == ids@.to_set(),
            forall|j: int|
                0 <= j < i ==> {
                    &&& canvas.nodes@[j].kind.same(graph.nodes@[#[trigger] ids@[j]].kind)
                    &&& canvas.nodes@[j].position == graph.nodes@[ids@[j]].position
                },
            graph.edges@ == Seq::<Edge>::empty(),
            graph.kind == kind,
            graph.boundary@.inputs == Seq::<crate::boundary::PortView>::empty(),
            graph.boundary@.outputs == Seq::<crate::boundary::PortView>::empty(),
        decreases canvas.nodes@.len() - i,
    {
        proof {
            ids@.unique_seq_to_set();
        }
        let ghost before = ids@;
        let id = graph.add_node_at(canvas.nodes[i].kind.clone(), canvas.nodes[i].position);
        ids.push(id);
        proof {
            assert(!before.contains(id)) by {
                assert(!before.to_set().contains(id));
            }
            assert(ids@.to_set() =~= before.to_set().insert(id)) by {
                assert forall|x: NodeId| ids@.contains(x) <==> before.contains(x) || x == id by {
                    if before.contains(x) {
                        let k = choose|k: int| 0 <= k < before.len() && before[k] == x;
                        assert(ids@[k] == x);
                    }
                    assert(ids@[before.len() as int] == id);
                    if ids@.contains(x) {
                        let k = choose|k: int| 0 <= k < ids@.len() && ids@[k] == x;
                        if k < before.len() {
                            assert(before[k] == x);
                        }
                    }
                }
            }
            assert forall|j: int| 0 <= j < i + 1 implies {
                &&& canvas.nodes@[j].kind.same(graph.nodes@[#[trigger] ids@[j]].kind)
                &&& canvas.nodes@[j].position == graph.nodes@[ids@[j]].position
            } by {
                if j < i {
                    assert(before[j] == ids@[j]);
                    assert(before.contains(before[j]));
                    assert(ids@[j] != id);
                }
            }
        }
        i = i + 1;
    }
    let mut k: usize = 0;
    let ghost nodes = graph.nodes@;
    while k < canvas.wires.len()
        invariant
            k <= canvas.wires@.len(),
            ids@.len() == canvas.nodes@.len(),
            graph.nodes@ == nodes,
            graph.kind == kind,
            graph.boundary@.inputs == Seq::<crate::boundary::PortView>::empty(),
            graph.boundary@.outputs == Seq::<crate::boundary::PortView>::empty(),
            graph.edges@ == wired(
                kind,
                nodes,
                canvas.nodes@,
                ids@,
                canvas.wires@.take(k as int),
            ),
        decreases canvas.wires@.len() - k,
    {
        proof {
            assert(canvas.wires@.take(k + 1).drop_last() =~= canvas.wires@.take(k as int));
        }
        let w = canvas.wires[k];
        let a = canvas.find(w.from_node);
        let b = canvas.find(w.to_node);
        if let (Some(a), Some(b)) = (a, b) {
            let from = PinRef::new(ids[a], #[verifier::truncate] (w.from_pin as u16));
            let to = PinRef::new(ids[b], #[verifier::truncate] (w.to_pin as u16));
            let _ = graph.connect(from, to);
        }
        k = k + 1;
    }
    assert(canvas.wires@.take(k as int) =~= canvas.wires@);
    (graph, ids)
}

/// Build a fresh graph from a canvas, as a graph of the default kind. Also
/// returns the graph identity of each node of the canvas, in canvas order.
pub fn snarl_to_graph(canvas: &Canvas) -> (r: (Graph, Vec<NodeId>))
    requires
        canvas.nodes@.len() < 0xffff_fffe,
    ensures
        r.0.kind == GraphKind::Biome,
        r.0.boundary@.inputs == Seq::<crate::boundary::PortView>::empty(),
        r.0.boundary@.outputs == Seq::<crate::boundary::PortView>::empty(),
        built(r.0, *canvas, r.1@),
{
    canvas_to_graph(GraphKind::Biome, canvas)
}

/// Whether a canvas shows a graph, its nodes in their order of identity.
pub open spec fn pictures(canvas: Canvas, graph: Graph) -> bool {
    exists|keys: Seq<NodeId>| #[trigger] shows(canvas, graph, keys)
}

fn place_of(keys: &Vec<NodeId>, id: NodeId) -> (r: Option<usize>)
    requires
        keys@.no_duplicates(),
    ensures
        match r {
            Some(k) => keys@.contains(id) && k == keys@.index_of(id),
            None => !keys@.contains(id),
        },
{
    let mut k: usize = 0;
    while k < keys.len()
        invariant
            k <= keys@.len(),
            keys@.no_duplicates(),
            forall|i: int| 0 <= i < k ==> keys@[i] != id,
        decreases keys@.len() - k,
    {
        if keys[k] == id {
            proof {
                assert(keys@.contains(id));
                assert(keys@[keys@.index_of(id)] == id);
            }
            return Some(k);
        }
        k = k + 1;
    }
    None
}

/// Draw a graph on a fresh canvas, each node at its position.
pub fn graph_to_snarl(graph: &Graph) -> (r: Canvas)
    ensures
        pictures(r, *graph),
{
    let keys = graph.nodes.keys();
    proof {
        key_order_is_distinct(graph.nodes@, keys@);
    }
    let mut canvas = Canvas::new();
    let mut i: usize = 0;
    while i < keys.len()
        invariant
            i <= keys@.len(),
            is_key_order(graph.nodes@, keys@),
            canvas.nodes@.len() == i,
            canvas.wires@ == Seq::<CanvasWire>::empty(),
            forall|j: int|
                0 <= j < i ==> {
                    &&& (#[trigger] canvas.nodes@[j]).id == j
                    &&& graph.nodes@[keys@[j]].kind.same(canvas.nodes@[j].kind)
                    &&& graph.nodes@[keys@[j]].position == canvas.nodes@[j].position
                },
        decreases keys@.len() - i,
    {
        assert(graph.nodes@.contains_key(keys@[i as int]));
        if let Some(node) = graph.nodes.get(keys[i]) {
            canvas.nodes.push(
                CanvasNode { id: i, kind: node.kind.clone(), position: node.position },
            );
        }
        i = i + 1;
    }
    let ghost drawn = canvas.nodes@;
    let mut k: usize = 0;
    while k < graph.edges.len()
        invariant
            k <= graph.edges@.len(),
            keys@.no_duplicates(),
            canvas.nodes@ == drawn,
            canvas.wires@ == drawn_wires(keys@, graph.edges@.take(k as int)),
        decreases graph.edges@.len() - k,
    {
        proof {
            assert(graph.edges@.take(k + 1).drop_last() =~= graph.edges@.take(k as int));
        }
        let e = graph.edges[k];
        let a = place_of(&keys, e.from.node);
        let b = place_of(&keys, e.to.node);
        if let (Some(a), Some(b)) = (a, b) {
            canvas.wires.push(
                CanvasWire {
                    from_node: a,
                    from_pin: e.from.pin as usize,
                    to_node: b,
                    to_pin: e.to.pin as usize,
                },
            );
        }
        k = k + 1;
    }
    proof {
        assert(graph.edges@.take(k as int) =~= graph.edges@);
        assert(shows(canvas, *graph, keys@));
    }
    canvas
}

} // verus!
