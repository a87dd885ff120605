//! Which nodes belong in which graphs, and what pins they present there.
use crate::assets_resolve::{wanted_blueprint, with_blueprint};
use crate::boundary::{port_pins, BoundaryView, PinView, PortView};
use crate::cache::OutputView;
use crate::canvas_edit::{GraphChoice, LibraryChoice};
use crate::crossgraph::target_links;
use crate::eval_error::EvalError;
use crate::eval_model::{node_fill, sample_steps, EvalEnv, FillView, SampleStep};
use crate::form_lists::{library_at, name_shown, target_at};
use crate::graph::Graph;
use crate::ids::{GraphKind, GraphRefTarget, LibraryGraphId};
use crate::node::{Node, NodeCategory, NodeKind};
use crate::palette::{shape_of_pin, PinShape};
use crate::pin::PinType;
use crate::resolve::{exposed_names, library_resolved};
use crate::scalar::Single;
use crate::scalar_params::named_values;
use crate::slots::NodeId;
use crate::validate::kind_findings;
use crate::voxel::ResolvedBlueprint;
use crate::world_resolve::node_resolved;
use vstd::prelude::*;

verus! {

/// The type that a pin carries for whole columns in place of one for single cells.
pub open spec fn column_type(ty: PinType) -> PinType {
    if ty == PinType::Density || ty == PinType::Scalar {
        PinType::SurfaceField
    } else {
        ty
    }
}

/// What works on numbers alone means the same per column: in world and zone graphs its pins
/// carry whole columns. Everywhere else, and for every other kind, pins stay as they are.
pub proof fn numbers_work_per_column(node: NodeKind, kind: GraphKind, i: int)
    ensures
        node.inputs_in(kind).len() == node.presented_inputs().len(),
        node.outputs_in(kind).len() == node.presented_outputs().len(),
        ({
            let moves = (kind == GraphKind::World || kind == GraphKind::Zone) && (
            node.row().category == NodeCategory::Math || node.row().category
                == NodeCategory::Curves || node is Constant || node is WorldParam);
            &&& 0 <= i < node.presented_inputs().len() ==> node.inputs_in(kind)[i] == (PinView {
                name: node.presented_inputs()[i].name,
                required: node.presented_inputs()[i].required,
                ty: if moves {
                    column_type(node.presented_inputs()[i].ty)
                } else {
                    node.presented_inputs()[i].ty
                },
            })
            &&& 0 <= i < node.presented_outputs().len() ==> node.outputs_in(kind)[i] == (PinView {
                name: node.presented_outputs()[i].name,
                required: node.presented_outputs()[i].required,
                ty: if moves {
                    column_type(node.presented_outputs()[i].ty)
                } else {
                    node.presented_outputs()[i].ty
                },
            })
        }),
{
}

/// Beside what works on numbers alone, world and zone graphs hold column noise, terminals,
/// references and what is placed in the world.
pub proof fn column_graphs_hold_column_kinds(node: NodeKind)
    ensures
        node.column_kind() <==> node.row().category == NodeCategory::Math || node.row().category
            == NodeCategory::Curves || node is Constant || node is WorldParam || node
            is SurfaceNoise || node is WorldOutput || node is ZoneOutput || node is GraphOutput
            || node is GraphRef || node is PlaceStructure || node is PlaceTree,
{
}

/// Nodes of column and foliage graphs have no place in a biome's graph: neither whole chunks
/// nor single values of them are computed there.
pub proof fn foreign_nodes_are_refused(
    env: EvalEnv,
    cache: Map<u64, OutputView>,
    id: NodeId,
    n: nat,
)
    requires
        env.nodes.contains_key(id),
        env.nodes[id].kind is SurfaceNoise || env.nodes[id].kind is WorldOutput
            || env.nodes[id].kind is ZoneOutput || env.nodes[id].kind is GraphOutput
            || env.nodes[id].kind.row().category == NodeCategory::Foliage,
    ensures
        node_fill::<'static>(env, cache, id) == Err::<FillView<'static>, EvalError>(
            EvalError::WrongGraphDomain { node: id },
        ),
        sample_steps::<'static>(env, id, n) == Err::<Seq<SampleStep<'static>>, EvalError>(
            EvalError::WrongGraphDomain { node: id },
        ),
{
}

/// Single values are refused of what gives materials, terrain, points or places.
pub proof fn only_numbers_have_single_values(env: EvalEnv, id: NodeId, n: nat)
    requires
        env.nodes.contains_key(id),
        env.nodes[id].kind.row().category == NodeCategory::Material || env.nodes[id].kind
            is TerrainOutput || env.nodes[id].kind is DensityOutput || env.nodes[id].kind.row().category
            == NodeCategory::Positions || env.nodes[id].kind.row().category
            == NodeCategory::Scanners || env.nodes[id].kind.row().category == NodeCategory::Props
            || env.nodes[id].kind is WorldPos || env.nodes[id].kind is DomainWarp,
    ensures
        sample_steps::<'static>(env, id, n) matches Err(e) && e
            matches EvalError::WrongInputType { node, .. } && node == id,
{
}

/// The materials that a node refers to: a constant's one, a layer's from the top band to
/// what lies below, and those that a search for flat ground or a filter asks for.
pub proof fn materials_are_referred_to_in_order(kind: NodeKind, i: int)
    ensures
        kind matches NodeKind::ConstantMaterial(p) ==> kind.referenced_materials().len() == 1
            && kind.referenced_materials()[0] == p.material,
        kind matches NodeKind::Layer(p) ==> {
            &&& kind.referenced_materials().len() == p.bands@.len() + 1
            &&& kind.referenced_materials().last() == p.fill
            &&& 0 <= i < p.bands@.len() ==> kind.referenced_materials()[i] == p.bands@[i].0
        },
        kind matches NodeKind::FindFlat(p) ==> kind.referenced_materials() == p.on_materials@,
        kind matches NodeKind::SurfaceFilter(p) ==> kind.referenced_materials() == p.materials@,
        !(kind is ConstantMaterial || kind is Layer || kind is FindFlat || kind is SurfaceFilter)
            ==> kind.referenced_materials().len() == 0,
{
}

/// Named outputs expose their names in the nodes' order; nothing else does.
pub proof fn named_outputs_are_exposed(nodes: Map<NodeId, Node>, keys: Seq<NodeId>, id: NodeId)
    ensures
        exposed_names(nodes, Seq::empty()).len() == 0,
        nodes[id].kind matches NodeKind::GraphOutput(p) ==> exposed_names(nodes, keys.push(id))
            == exposed_names(nodes, keys).push(p.name@),
        !(nodes[id].kind is GraphOutput) ==> exposed_names(nodes, keys.push(id)) == exposed_names(
            nodes,
            keys,
        ),
{
    assert(keys.push(id).drop_last() =~= keys);
}

/// The pins of ports are those ports, by name and type, none of which must be fed.
pub proof fn ports_become_pins(ports: Seq<PortView>, i: int)
    requires
        0 <= i < ports.len(),
    ensures
        port_pins(ports).len() == ports.len(),
        port_pins(ports)[i].name == ports[i].name,
        port_pins(ports)[i].ty == ports[i].ty,
        !port_pins(ports)[i].required,
{
}

/// A reference to a known library presents the library's ports, inputs and outputs each; to
/// an unknown one it presents none. Nothing else of a graph changes.
pub proof fn references_present_the_ports_of_their_library(
    libraries: Map<u32, Graph>,
    before: Node,
    after: Node,
    i: int,
)
    requires
        library_resolved(libraries, before, after),
    ensures
        !(before.kind is LibraryRef) ==> after == before,
        after.position == before.position,
        before.kind matches NodeKind::LibraryRef(p) ==> if libraries.contains_key(p.library.0) {
            let ports = libraries[p.library.0].boundary@;
            let inputs = after.kind.presented_inputs();
            let outputs = after.kind.presented_outputs();
            &&& inputs.len() == ports.inputs.len()
            &&& outputs.len() == ports.outputs.len()
            &&& 0 <= i < inputs.len() ==> inputs[i].name == ports.inputs[i].name && inputs[i].ty
                == ports.inputs[i].ty
            &&& 0 <= i < outputs.len() ==> outputs[i].name == ports.outputs[i].name && outputs[i].ty
                == ports.outputs[i].ty
        } else {
            after.kind.presented_inputs().len() == 0 && after.kind.presented_outputs().len() == 0
        },
{
}

/// In a zone or biome graph, a reference to the world presents the world's outputs and no
/// inputs; a reference to anything else there presents none.
pub proof fn references_present_what_the_world_exposes(
    libraries: Map<u32, Graph>,
    world: BoundaryView,
    before: Node,
    after: Node,
    i: int,
)
    requires
        node_resolved(libraries, world, before, after),
        before.kind is GraphRef,
    ensures
        after.kind is GraphRef,
        after.kind->GraphRef_0.target == before.kind->GraphRef_0.target,
        after.position == before.position,
        after.kind.presented_inputs().len() == 0,
        before.kind->GraphRef_0.target == GraphRefTarget::World ==> {
            let outputs = after.kind.presented_outputs();
            &&& outputs.len() == world.outputs.len()
            &&& 0 <= i < outputs.len() ==> outputs[i].name == world.outputs[i].name
                && outputs[i].ty == world.outputs[i].ty
        },
        before.kind->GraphRef_0.target != GraphRefTarget::World
            ==> after.kind.presented_outputs().len() == 0,
{
}

/// The graphs that references link are each present graph's own; a later graph for a target
/// stands in for an earlier one.
pub proof fn later_graphs_stand_in(
    graphs: Seq<(GraphRefTarget, &Graph)>,
    target: GraphRefTarget,
    graph: &Graph,
    a: u32,
    b: u32,
)
    ensures
        ({
            let links = target_links(graphs.push((target, graph)));
            &&& links.contains_key(target.rank())
            &&& links[target.rank()].contains(b) <==> exists|id: NodeId|
                graph.nodes@.contains_key(id) && (#[trigger] graph.nodes@[id]).kind is GraphRef
                    && graph.nodes@[id].kind->GraphRef_0.target.rank() == b
            &&& a != target.rank() ==> (links.contains_key(a) <==> target_links(graphs).contains_key(
                a,
            ))
            &&& a != target.rank() && links.contains_key(a) ==> links[a] == target_links(graphs)[a]
        }),
{
    assert(graphs.push((target, graph)).drop_last() =~= graphs);
    let links = target_links(graphs.push((target, graph)));
    if exists|id: NodeId|
        graph.nodes@.contains_key(id) && (#[trigger] graph.nodes@[id]).kind is GraphRef
            && graph.nodes@[id].kind->GraphRef_0.target.rank() == b {
        let id = choose|id: NodeId|
            graph.nodes@.contains_key(id) && (#[trigger] graph.nodes@[id]).kind is GraphRef
                && graph.nodes@[id].kind->GraphRef_0.target.rank() == b;
        assert(crate::crossgraph::names_target(graph.nodes@[id], b));
    }
    if links[target.rank()].contains(b) {
        let id = choose|id: NodeId|
            graph.nodes@.contains_key(id) && crate::crossgraph::names_target(
                #[trigger] graph.nodes@[id],
                b,
            );
        assert(graph.nodes@[id].kind is GraphRef);
    }
}

/// A foliage graph with nodes of which none paints or scatters is reported; an empty one, one
/// with such a node, and every other kind of graph is not.
pub proof fn foliage_graphs_must_place_something(
    kind: GraphKind,
    nodes: Map<NodeId, Node>,
    id: NodeId,
)
    ensures
        kind != GraphKind::Detail ==> kind_findings(kind, nodes).len() == 0,
        nodes == Map::<NodeId, Node>::empty() ==> kind_findings(kind, nodes).len() == 0,
        nodes.contains_key(id) && (nodes[id].kind is PaintDensity || nodes[id].kind is ScatterPlace)
            ==> kind_findings(kind, nodes).len() == 0,
        kind == GraphKind::Detail && nodes.contains_key(id) && (forall|other: NodeId| #[trigger]
            nodes.contains_key(other) ==> !(nodes[other].kind is PaintDensity || nodes[other].kind
                is ScatterPlace)) ==> kind_findings(kind, nodes).len() == 1,
{
    if nodes.contains_key(id) && (nodes[id].kind is PaintDensity || nodes[id].kind is ScatterPlace) {
        assert(crate::validate::writes_foliage(nodes[id]));
    }
    if nodes.contains_key(id) {
        assert(nodes != Map::<NodeId, Node>::empty());
    }
}

/// Pins that fit each other have one shape: circles for numbers, squares for materials and
/// ids, triangles for places and stars for results.
pub proof fn pins_that_fit_share_a_shape(output: PinType, input: PinType)
    ensures
        PinType::compatible(output, input) ==> shape_of_pin(output) == shape_of_pin(input),
        shape_of_pin(PinType::Scalar) == PinShape::Circle,
        shape_of_pin(PinType::SurfaceField) == PinShape::Circle,
        output is Positions || output is Vec3 <==> shape_of_pin(output) == PinShape::Triangle,
        output is Terrain || output is PaintOutput || output is ScatterOutput <==> shape_of_pin(
            output,
        ) == PinShape::Star,
        output is Material || output is FluidProvider || output is Assignments || output is BiomeId
            || output is ZoneId || output is PlacementMask || output is SpeciesWeights
            <==> shape_of_pin(output) == PinShape::Square,
{
}

/// A picker shows a known name as it is, marks an unknown one, and says where there is none.
pub proof fn pickers_mark_unknown_names(catalog: Seq<String>, name: Seq<char>, i: int)
    ensures
        0 <= i < catalog.len() && catalog[i]@ == name ==> name_shown(catalog, name) == name,
        (forall|k: int| 0 <= k < catalog.len() ==> (#[trigger] catalog[k])@ != name) && name.len()
            > 0 ==> name_shown(catalog, name) == name + " (missing)"@,
        (forall|k: int| 0 <= k < catalog.len() ==> (#[trigger] catalog[k])@ != name) && name.len()
            == 0 ==> name_shown(catalog, name) == "(none)"@,
{
}

/// Libraries and graphs are picked by the first choice that has them.
pub proof fn choices_are_found_first(
    libraries: Seq<LibraryChoice>,
    library: LibraryGraphId,
    graphs: Seq<GraphChoice>,
    target: GraphRefTarget,
    at: int,
)
    ensures
        0 <= at < libraries.len() && libraries[at].id == library && (forall|j: int|
            0 <= j < at ==> (#[trigger] libraries[j]).id != library) ==> library_at(
            libraries,
            library,
        ) == Some(at),
        0 <= at < graphs.len() && graphs[at].target == target && (forall|j: int|
            0 <= j < at ==> (#[trigger] graphs[j]).target != target) ==> target_at(graphs, target)
            == Some(at),
{
    if 0 <= at < libraries.len() && libraries[at].id == library && (forall|j: int|
        0 <= j < at ==> (#[trigger] libraries[j]).id != library) {
        lemma_library_at(libraries, library, at);
    }
    if 0 <= at < graphs.len() && graphs[at].target == target && (forall|j: int|
        0 <= j < at ==> (#[trigger] graphs[j]).target != target) {
        lemma_target_at(graphs, target, at);
    }
}

proof fn lemma_library_at(choices: Seq<LibraryChoice>, id: LibraryGraphId, at: int)
    requires
        0 <= at <= choices.len(),
        at < choices.len() ==> choices[at].id == id,
        forall|j: int| 0 <= j < at ==> (#[trigger] choices[j]).id != id,
    ensures
        at < choices.len() ==> library_at(choices, id) == Some(at),
        at == choices.len() ==> library_at(choices, id) is None,
    decreases choices.len(),
{
    if choices.len() > 0 {
        let less = choices.drop_last();
        let n = choices.len() - 1;
        assert forall|j: int| 0 <= j < at && j < n implies (#[trigger] less[j]).id != id by {
            assert(less[j] == choices[j]);
        }
        if at <= n {
            lemma_library_at(less, id, at);
        } else {
            assert(choices[n].id != id);
            lemma_library_at(less, id, n);
        }
    }
}

proof fn lemma_target_at(choices: Seq<GraphChoice>, target: GraphRefTarget, at: int)
    requires
        0 <= at <= choices.len(),
        at < choices.len() ==> choices[at].target == target,
        forall|j: int| 0 <= j < at ==> (#[trigger] choices[j]).target != target,
    ensures
        at < choices.len() ==> target_at(choices, target) == Some(at),
        at == choices.len() ==> target_at(choices, target) is None,
    decreases choices.len(),
{
    if choices.len() > 0 {
        let less = choices.drop_last();
        let n = choices.len() - 1;
        assert forall|j: int| 0 <= j < at && j < n implies (#[trigger] less[j]).target != target by {
            assert(less[j] == choices[j]);
        }
        if at <= n {
            lemma_target_at(less, target, at);
        } else {
            assert(choices[n].target != target);
            lemma_target_at(less, target, n);
        }
    }
}

/// Graphs that can be referred to are ordered from the widest: the world, the zone, then the
/// biomes by their number.
pub proof fn targets_are_ordered_from_the_widest(a: u16, b: u16)
    ensures
        GraphRefTarget::World.rank() < GraphRefTarget::Zone.rank(),
        GraphRefTarget::Zone.rank() < GraphRefTarget::Biome(a).rank(),
        a < b ==> GraphRefTarget::Biome(a).rank() < GraphRefTarget::Biome(b).rank(),
{
}

/// Of several values for one name the last counts, and each name keeps its own.
pub proof fn the_last_value_of_a_name_counts(
    entries: Seq<(String, Single)>,
    one: (String, Single),
    name: Seq<char>,
)
    ensures
        named_values(Seq::empty()) == Map::<Seq<char>, Single>::empty(),
        named_values(entries.push(one)).contains_key(one.0@),
        named_values(entries.push(one))[one.0@] == one.1,
        name != one.0@ ==> (named_values(entries.push(one)).contains_key(name) <==> named_values(
            entries,
        ).contains_key(name)),
        name != one.0@ && named_values(entries).contains_key(name) ==> named_values(
            entries.push(one),
        )[name] == named_values(entries)[name],
{
    assert(entries.push(one).drop_last() =~= entries);
}

/// A placed blueprint or structure wants the blueprint it names until it has one; it then
/// has it, and keeps everything else.
pub proof fn blueprints_go_to_nodes_that_name_them(node: Node, blueprint: ResolvedBlueprint)
    ensures
        with_blueprint(node, blueprint).position == node.position,
        node.kind matches NodeKind::PlaceBlueprint(p) ==> {
            let after = with_blueprint(node, blueprint).kind;
            &&& wanted_blueprint(node) == if p.resolved is None {
                Some(p.blueprint@)
            } else {
                None
            }
            &&& after is PlaceBlueprint
            &&& after->PlaceBlueprint_0.resolved == Some(blueprint)
            &&& after->PlaceBlueprint_0.blueprint == p.blueprint
        },
        node.kind matches NodeKind::PlaceStructure(p) ==> {
            let after = with_blueprint(node, blueprint).kind;
            &&& wanted_blueprint(node) == if p.resolved is None {
                Some(p.blueprint@)
            } else {
                None
            }
            &&& after is PlaceStructure
            &&& after->PlaceStructure_0.resolved == Some(blueprint)
            &&& after->PlaceStructure_0.blueprint == p.blueprint
            &&& (
                after->PlaceStructure_0.cell_size,
                after->PlaceStructure_0.density,
                after->PlaceStructure_0.seed,
            ) == (p.cell_size, p.density, p.seed)
            &&& after->PlaceStructure_0.random_yaw == p.random_yaw
            &&& after->PlaceStructure_0.surface_offset == p.surface_offset
            &&& after->PlaceStructure_0.biomes == p.biomes
            &&& after->PlaceStructure_0.canopy == p.canopy
        },
        !(node.kind is PlaceBlueprint || node.kind is PlaceStructure) ==> wanted_blueprint(node)
            is None && with_blueprint(node, blueprint) == node,
{
}

} // verus!
