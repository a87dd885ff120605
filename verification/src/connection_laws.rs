//! Which connections a graph accepts, what it reports, and what taking things out leaves.
use crate::boundary::PinView;
use crate::diagnostic::{Finding, Severity};
use crate::edge::{Edge, PinRef};
use crate::error::GraphError;
use crate::graph::{
    connect_outcome, graph_targets, library_targets, without_input, without_node,
};
use crate::ids::GraphKind;
use crate::node::{Node, NodeCategory, NodeKind};
use crate::operation::operator;
use crate::palette::fill_of;
use crate::pin::PinType;
use crate::slots::NodeId;
use crate::validate::{
    crowding_findings, cycle_findings, edge_findings, edge_problem, incoming, input_findings,
    pin_findings, pin_fed,
};
use vstd::prelude::*;

verus! {

/// Whether what an output gives can feed an input: both have the same type, or a number
/// feeds a density, or a curve a number.
pub open spec fn fits(output: PinType, input: PinType) -> bool {
    match input {
        PinType::Density => output is Density || output is Scalar,
        PinType::Scalar => output is Scalar || output is Curve,
        _ => output == input,
    }
}

/// A connection is accepted just where both nodes are there, both pins are among those the
/// nodes have in the graph, what the output gives fits the input, and nothing feeds the input
/// yet. Otherwise the first of these that does not hold is told.
pub proof fn connections_join_pins_that_fit(
    kind: GraphKind,
    nodes: Map<NodeId, Node>,
    edges: Seq<Edge>,
    from: PinRef,
    to: PinRef,
)
    ensures
        ({
            let r = connect_outcome(kind, nodes, edges, from, to);
            let outputs = nodes[from.node].kind.outputs_in(kind);
            let inputs = nodes[to.node].kind.inputs_in(kind);
            let starts = nodes.contains_key(from.node);
            let ends = nodes.contains_key(to.node);
            let gives = from.pin < outputs.len();
            let takes = to.pin < inputs.len();
            let suits = fits(outputs[from.pin as int].ty, inputs[to.pin as int].ty);
            let free = forall|i: int| 0 <= i < edges.len() ==> (#[trigger] edges[i]).to != to;
            &&& r is Ok <==> starts && ends && gives && takes && suits && free
            &&& !starts ==> r == Err::<(), GraphError>(GraphError::NodeNotFound(from.node))
            &&& starts && !ends ==> r == Err::<(), GraphError>(GraphError::NodeNotFound(to.node))
            &&& starts && ends && !gives ==> (r matches Err(e) && e
                matches GraphError::PinOutOfRange { node, pin, .. } && node == from.node && pin
                == from.pin)
            &&& starts && ends && gives && !takes ==> (r matches Err(e) && e
                matches GraphError::PinOutOfRange { node, pin, .. } && node == to.node && pin
                == to.pin)
            &&& starts && ends && gives && takes && !suits ==> r == Err::<(), GraphError>(
                GraphError::TypeMismatch {
                    from: outputs[from.pin as int].ty,
                    to: inputs[to.pin as int].ty,
                },
            )
            &&& starts && ends && gives && takes && suits && !free ==> r == Err::<(), GraphError>(
                GraphError::InputAlreadyConnected { node: to.node, pin: to.pin },
            )
        }),
{
}

/// Validation finds fault with an edge just where connecting its pins would be refused for
/// the nodes, the pins or their types.
pub proof fn edges_are_faulted_where_connections_are_refused(
    kind: GraphKind,
    nodes: Map<NodeId, Node>,
    e: Edge,
)
    ensures
        edge_problem(kind, nodes, e) is None <==> connect_outcome(
            kind,
            nodes,
            Seq::empty(),
            e.from,
            e.to,
        ) is Ok,
{
}

/// Whether a finding is an error about an edge.
pub open spec fn faults_edge(f: Finding, edge: int) -> bool {
    f.severity == Severity::Error && f.edge == Some(edge) && f.node is None
}

/// Whether a finding is an error about a node.
pub open spec fn faults_node(f: Finding, node: NodeId) -> bool {
    f.severity == Severity::Error && f.node == Some(node) && f.edge is None
}

/// Edges are reported in order, one finding for each that has a fault, at its own number.
pub proof fn faulty_edges_are_reported_in_order(
    kind: GraphKind,
    nodes: Map<NodeId, Node>,
    edges: Seq<Edge>,
    k: int,
)
    requires
        0 <= k < edges.len(),
    ensures
        edge_findings(kind, nodes, edges, 0).len() == 0,
        ({
            let before = edge_findings(kind, nodes, edges, k);
            let after = edge_findings(kind, nodes, edges, k + 1);
            if connect_outcome(kind, nodes, Seq::empty(), edges[k].from, edges[k].to) is Ok {
                after == before
            } else {
                after.drop_last() == before && after.len() > 0 && faults_edge(after.last(), k)
            }
        }),
{
    let before = edge_findings(kind, nodes, edges, k);
    let after = edge_findings(kind, nodes, edges, k + 1);
    if edge_problem(kind, nodes, edges[k]) is Some {
        assert(after.drop_last() =~= before);
    }
}

proof fn lemma_incoming_positive(edges: Seq<Edge>, to: PinRef, k: int)
    ensures
        k <= edges.len() ==> (incoming(edges, to, k) > 0 <==> exists|i: int|
            0 <= i < k && (#[trigger] edges[i]).to == to),
    decreases k,
{
    if k > 0 && k <= edges.len() {
        lemma_incoming_positive(edges, to, k - 1);
        if incoming(edges, to, k - 1) > 0 {
            let i = choose|i: int| 0 <= i < k - 1 && (#[trigger] edges[i]).to == to;
            assert(edges[i].to == to && i < k);
        }
        if edges[k - 1].to == to {
            assert(0 <= k - 1 < k);
        }
    }
}

proof fn lemma_incoming_grows(edges: Seq<Edge>, to: PinRef, j: int, k: int)
    requires
        0 <= j <= k <= edges.len(),
    ensures
        incoming(edges, to, j) <= incoming(edges, to, k),
        (exists|i: int| j <= i < k && (#[trigger] edges[i]).to == to) ==> incoming(edges, to, j)
            < incoming(edges, to, k),
        incoming(edges, to, j) < incoming(edges, to, k) ==> exists|i: int|
            j <= i < k && (#[trigger] edges[i]).to == to,
    decreases k - j,
{
    if j < k {
        lemma_incoming_grows(edges, to, j, k - 1);
        if edges[k - 1].to == to {
            assert(j <= k - 1 < k);
        }
        if exists|i: int| j <= i < k && (#[trigger] edges[i]).to == to {
            let i = choose|i: int| j <= i < k && (#[trigger] edges[i]).to == to;
            if i < k - 1 {
                assert(edges[i].to == to);
            }
        }
        if incoming(edges, to, j) < incoming(edges, to, k - 1) {
            let i = choose|i: int| j <= i < k - 1 && (#[trigger] edges[i]).to == to;
            assert(edges[i].to == to && i < k);
        }
    }
}

/// Whether another edge of a list, from a number on, leads to the same input.
pub open spec fn repeated_from(edges: Seq<Edge>, to: PinRef, from: int, end: int) -> bool {
    exists|i: int| from <= i < end && (#[trigger] edges[i]).to == to
}

/// An input that several edges lead to is reported once, at the node that has it, where the
/// first of them stands.
pub proof fn crowded_inputs_are_reported_once(edges: Seq<Edge>, k: int)
    requires
        0 <= k < edges.len(),
    ensures
        crowding_findings(edges, 0).len() == 0,
        ({
            let to = edges[k].to;
            let before = crowding_findings(edges, k);
            let after = crowding_findings(edges, k + 1);
            if !repeated_from(edges, to, 0, k) && repeated_from(
                edges,
                to,
                k + 1,
                edges.len() as int,
            ) {
                after.drop_last() == before && after.len() > 0 && faults_node(
                    after.last(),
                    to.node,
                )
            } else {
                after == before
            }
        }),
{
    let to = edges[k].to;
    let n = edges.len() as int;
    lemma_incoming_positive(edges, to, k);
    lemma_incoming_grows(edges, to, k + 1, n);
    assert(incoming(edges, to, k + 1) == incoming(edges, to, k) + 1);
    let after = crowding_findings(edges, k + 1);
    if incoming(edges, to, k) == 0 && incoming(edges, to, n) > 1 {
        assert(after.drop_last() =~= crowding_findings(edges, k));
    }
}

/// A required input that no edge leads to is reported at its node, in the order of the pins;
/// an input that is fed, or need not be, is not.
pub proof fn unfed_inputs_are_reported(
    kind: GraphKind,
    nodes: Map<NodeId, Node>,
    edges: Seq<Edge>,
    id: NodeId,
    k: int,
)
    requires
        0 <= k < nodes[id].kind.inputs_in(kind).len(),
        k < 0x1_0000,
    ensures
        ({
            let pins = nodes[id].kind.inputs_in(kind);
            let before = pin_findings(edges, id, pins, k);
            let after = pin_findings(edges, id, pins, k + 1);
            let fed = exists|i: int|
                0 <= i < edges.len() && (#[trigger] edges[i]).to == (PinRef {
                    node: id,
                    pin: k as u16,
                });
            if pins[k].required && !fed {
                after.drop_last() == before && after.len() > 0 && faults_node(after.last(), id)
            } else {
                after == before
            }
        }),
{
    let pins = nodes[id].kind.inputs_in(kind);
    let after = pin_findings(edges, id, pins, k + 1);
    if pins[k].required && !pin_fed(edges, id, k) {
        assert(after.drop_last() =~= pin_findings(edges, id, pins, k));
    }
    if pin_fed(edges, id, k) {
        let i = choose|i: int|
            0 <= i < edges.len() && (#[trigger] edges[i]).to.node == id && edges[i].to.pin == k;
        assert(edges[i].to == (PinRef { node: id, pin: k as u16 }));
    }
}

/// Nodes are reported in order, each with all of its inputs.
pub proof fn every_node_is_reported_on(
    kind: GraphKind,
    nodes: Map<NodeId, Node>,
    edges: Seq<Edge>,
    keys: Seq<NodeId>,
    id: NodeId,
)
    ensures
        input_findings(kind, nodes, edges, Seq::empty()).len() == 0,
        input_findings(kind, nodes, edges, keys.push(id)) == input_findings(
            kind,
            nodes,
            edges,
            keys,
        ) + pin_findings(
            edges,
            id,
            nodes[id].kind.inputs_in(kind),
            nodes[id].kind.inputs_in(kind).len() as int,
        ),
{
    assert(keys.push(id).drop_last() =~= keys);
}

/// A cycle is reported once, at the first node that it holds up.
pub proof fn cycles_are_reported_once(blocked: Seq<NodeId>)
    ensures
        blocked.len() == 0 ==> cycle_findings(blocked).len() == 0,
        blocked.len() > 0 ==> cycle_findings(blocked).len() == 1 && faults_node(
            cycle_findings(blocked)[0],
            blocked[0],
        ),
{
}

/// Disconnecting an input takes out the edges into it, and removing a node those that touch
/// it; the others stay in their order.
pub proof fn taking_out_leaves_the_rest(edges: Seq<Edge>, e: Edge, to: PinRef, id: NodeId)
    ensures
        without_input(Seq::empty(), to).len() == 0,
        without_node(Seq::empty(), id).len() == 0,
        e.to == to ==> without_input(edges.push(e), to) == without_input(edges, to),
        e.to != to ==> without_input(edges.push(e), to) == without_input(edges, to).push(e),
        e.from.node == id || e.to.node == id ==> without_node(edges.push(e), id) == without_node(
            edges,
            id,
        ),
        e.from.node != id && e.to.node != id ==> without_node(edges.push(e), id) == without_node(
            edges,
            id,
        ).push(e),
{
    reveal(Seq::filter);
    assert(edges.push(e).drop_last() =~= edges);
}

/// The libraries and the graphs that nodes refer to are listed in the nodes' order.
pub proof fn references_are_listed_in_order(
    nodes: Map<NodeId, Node>,
    keys: Seq<NodeId>,
    id: NodeId,
)
    ensures
        library_targets(nodes, Seq::empty()).len() == 0,
        graph_targets(nodes, Seq::empty()).len() == 0,
        library_targets(nodes, keys.push(id)) == match nodes[id].kind {
            NodeKind::LibraryRef(p) => library_targets(nodes, keys).push(p.library),
            _ => library_targets(nodes, keys),
        },
        graph_targets(nodes, keys.push(id)) == match nodes[id].kind {
            NodeKind::GraphRef(p) => graph_targets(nodes, keys).push(p.target),
            _ => graph_targets(nodes, keys),
        },
{
    assert(keys.push(id).drop_last() =~= keys);
}

/// A kind of node has the color of its category; a biome's parameter is filed under its
/// biome but has the color of what gives values.
pub proof fn kinds_have_the_color_of_their_category(kind: NodeKind)
    ensures
        !(kind is BiomeParam) ==> kind.row().color == fill_of(kind.row().category),
        kind is BiomeParam ==> kind.row().category == NodeCategory::Biome && kind.row().color
            == fill_of(NodeCategory::Source),
{
}

/// Whether pins are of listed types, in order, and must all be fed.
pub open spec fn needs(pins: Seq<PinView>, types: Seq<PinType>) -> bool {
    &&& pins.len() == types.len()
    &&& forall|i: int|
        0 <= i < pins.len() ==> (#[trigger] pins[i]).ty == types[i] && pins[i].required
}

/// Whether a kind of node gives just one thing, of a type.
pub open spec fn gives_one(kind: NodeKind, ty: PinType) -> bool {
    kind.row().outputs.pins().len() == 1 && kind.row().outputs.pins()[0].ty == ty
}

/// What kinds of node that are no operators take and give: sources take nothing they must be
/// fed, terminals give nothing, and the others turn the one into the other.
pub proof fn kinds_take_and_give(kind: NodeKind)
    ensures
        ({
            let inputs = kind.row().inputs.pins();
            let outputs = kind.row().outputs.pins();
            &&& kind is Perlin2D || kind is Perlin3D || kind is Simplex2D || kind is Simplex3D ==> {
                &&& inputs.len() == 1 && inputs[0].ty == PinType::Vec3 && !inputs[0].required
                &&& gives_one(kind, PinType::Density)
            }
            &&& kind is Constant || kind is WorldAxis || kind is WorldParam || kind is BiomeParam
                ==> inputs.len() == 0 && gives_one(kind, PinType::Scalar)
            &&& kind is WorldPos ==> inputs.len() == 0 && gives_one(kind, PinType::Vec3)
            &&& kind is DomainWarp ==> needs(inputs, seq![PinType::Vec3]) && gives_one(
                kind,
                PinType::Vec3,
            )
            &&& kind is YBand ==> inputs.len() == 0 && gives_one(kind, PinType::Density)
            &&& kind is SurfaceNoise ==> inputs.len() == 0 && gives_one(kind, PinType::SurfaceField)
            &&& kind is SurfaceToDensity ==> needs(inputs, seq![PinType::SurfaceField])
                && gives_one(kind, PinType::Density)
            &&& kind is ConstantMaterial ==> inputs.len() == 0 && gives_one(kind, PinType::Material)
            &&& kind is Layer ==> needs(inputs, seq![PinType::Density]) && gives_one(
                kind,
                PinType::Material,
            )
            &&& kind is Queue ==> needs(inputs, seq![PinType::Material, PinType::Material])
                && gives_one(kind, PinType::Material)
            &&& kind is BuildTerrain ==> needs(inputs, seq![PinType::Density, PinType::Material])
                && gives_one(kind, PinType::Terrain)
            &&& kind is DensityOutput ==> needs(inputs, seq![PinType::Density, PinType::Material])
                && outputs.len() == 0
            &&& kind is TerrainOutput ==> needs(inputs, seq![PinType::Terrain]) && outputs.len()
                == 0
            &&& kind is FluidOutput ==> needs(inputs, seq![PinType::Scalar, PinType::Density])
                && outputs.len() == 0
            &&& kind is Output ==> needs(inputs, seq![PinType::Density]) && outputs.len() == 0
            &&& kind is WorldOutput || kind is ZoneOutput || kind is GraphOutput ==> needs(
                inputs,
                seq![PinType::SurfaceField],
            ) && outputs.len() == 0
            &&& kind is JitteredGrid || kind is PoissonDisk || kind is PoissonDistribution
                ==> inputs.len() == 0 && gives_one(kind, PinType::Positions)
            &&& kind is FindFlat ==> needs(inputs, seq![PinType::Terrain, PinType::Positions])
                && gives_one(kind, PinType::Positions)
            &&& kind is PlaceBlueprint ==> needs(
                inputs,
                seq![PinType::Terrain, PinType::Positions],
            ) && gives_one(kind, PinType::Terrain)
            &&& kind is SurfaceFilter || kind is BiomeContextMask ==> needs(
                inputs,
                seq![PinType::Positions],
            ) && gives_one(kind, PinType::Positions)
            &&& kind is SpeciesPicker ==> needs(inputs, seq![PinType::Positions]) && gives_one(
                kind,
                PinType::Assignments,
            )
            &&& kind is ScatterPlace ==> needs(inputs, seq![PinType::Assignments]) && gives_one(
                kind,
                PinType::ScatterOutput,
            )
            &&& kind is PaintDensity ==> {
                &&& inputs.len() == 1 && inputs[0].ty == PinType::SurfaceField
                    && !inputs[0].required
                &&& gives_one(kind, PinType::PaintOutput)
            }
            &&& kind is PlaceStructure || kind is PlaceTree || kind is GraphRef || kind is LibraryRef
                ==> inputs.len() == 0 && outputs.len() == 0
        }),
{
}

/// An operator has as many inputs as it reads, each a density that must be fed, and gives
/// one density.
pub proof fn operators_have_a_pin_for_each_input(kind: NodeKind, i: int)
    requires
        operator(&kind) is Some,
    ensures
        kind.row().inputs.pins().len() == operator(&kind)->0.arity(),
        0 <= i < operator(&kind)->0.arity() ==> kind.row().inputs.pins()[i].ty == PinType::Density
            && kind.row().inputs.pins()[i].required,
        kind.row().outputs.pins().len() == 1,
        kind.row().outputs.pins()[0].ty == PinType::Density,
{
}

} // verus!
