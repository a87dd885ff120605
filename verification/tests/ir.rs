//! Graphs, validation, indexing and the cycles between graphs.
use nodegraph::boundary::{BoundaryPort, GraphBoundary};
use nodegraph::crossgraph::detect_graph_ref_cycle;
use nodegraph::diagnostic::Severity;
use nodegraph::edge::{Edge, PinRef};
use nodegraph::error::GraphError;
use nodegraph::graph::Graph;
use nodegraph::ids::{GraphKind, GraphRefTarget, LibraryGraphId};
use nodegraph::index::EdgeIndex;
use nodegraph::library::LibraryGraphRegistry;
use nodegraph::node::{NodeCategory, NodeKind};
use nodegraph::params::{
    AddParams, ConstantMaterialParams, ConstantParams, GraphOutputParams, GraphRefParams,
    LerpParams, LibraryRefParams, NoiseParams, OutputParams, PaintDensityParams,
    PoissonDistributionParams, ThresholdParams,
};
use nodegraph::pin::PinType;
use nodegraph::scalar::Single;
use nodegraph::slots::NodeId;

fn single(v: f32) -> Single {
    Single::from_bits(v.to_bits())
}

fn build_three_node_graph() -> (Graph, NodeId, NodeId, NodeId) {
    let mut g = Graph::new();
    let perlin = g.add_node(NodeKind::Perlin2D(NoiseParams::default()));
    let thresh = g.add_node(NodeKind::Threshold(ThresholdParams { threshold: single(0.3) }));
    let out = g.add_node(NodeKind::Output(OutputParams::default()));
    g.connect(PinRef::new(perlin, 0), PinRef::new(thresh, 0)).unwrap();
    g.connect(PinRef::new(thresh, 0), PinRef::new(out, 0)).unwrap();
    (g, perlin, thresh, out)
}

#[test]
fn three_node_graph_validates_clean() {
    let (g, ..) = build_three_node_graph();
    let diags = g.validate();
    assert!(
        diags.iter().all(|d| d.severity != Severity::Error),
        "unexpected errors: {diags:?}"
    );
}

#[test]
fn connecting_from_node_without_output_errors() {
    let mut g = Graph::new();
    let out = g.add_node(NodeKind::Output(OutputParams::default())); // no outputs
    let thresh = g.add_node(NodeKind::Threshold(ThresholdParams::default()));
    let res = g.connect(PinRef::new(out, 0), PinRef::new(thresh, 0));
    assert!(matches!(res, Err(GraphError::PinOutOfRange { .. })));
}

#[test]
fn duplicate_input_connection_rejected() {
    let mut g = Graph::new();
    let p1 = g.add_node(NodeKind::Perlin2D(NoiseParams::default()));
    let p2 = g.add_node(NodeKind::Perlin2D(NoiseParams::default()));
    let t = g.add_node(NodeKind::Threshold(ThresholdParams::default()));
    g.connect(PinRef::new(p1, 0), PinRef::new(t, 0)).unwrap();
    let dup = g.connect(PinRef::new(p2, 0), PinRef::new(t, 0));
    assert!(matches!(dup, Err(GraphError::InputAlreadyConnected { .. })));
}

#[test]
fn missing_required_input_flagged() {
    let mut g = Graph::new();
    g.add_node(NodeKind::Threshold(ThresholdParams::default())); // required input unconnected
    let diags = g.validate();
    assert!(diags
        .iter()
        .any(|d| d.severity == Severity::Error && d.message.contains("required input")));
}

#[test]
fn cycle_detected() {
    let mut g = Graph::new();
    let a = g.add_node(NodeKind::Threshold(ThresholdParams::default()));
    let b = g.add_node(NodeKind::Threshold(ThresholdParams::default()));
    g.connect(PinRef::new(a, 0), PinRef::new(b, 0)).unwrap();
    g.connect(PinRef::new(b, 0), PinRef::new(a, 0)).unwrap();
    let diags = g.validate();
    assert!(diags.iter().any(|d| d.message.contains("cycle")));
}

#[test]
fn default_kind_is_biome() {
    assert_eq!(Graph::new().kind, GraphKind::Biome);
    assert_eq!(GraphKind::default(), GraphKind::Biome);
}

#[test]
fn of_kind_sets_kind() {
    assert_eq!(Graph::of_kind(GraphKind::World).kind, GraphKind::World);
    assert_eq!(Graph::of_kind(GraphKind::Library).kind, GraphKind::Library);
}

#[test]
fn empty_detail_graph_is_valid() {
    let g = Graph::of_kind(GraphKind::Detail);
    assert!(!g.has_errors());
}

#[test]
fn detail_graph_with_terminal_is_valid() {
    let mut g = Graph::of_kind(GraphKind::Detail);
    g.add_node(NodeKind::PaintDensity(PaintDensityParams::default()));
    assert!(!g.has_errors());
}

#[test]
fn detail_graph_without_terminal_is_invalid() {
    let mut g = Graph::of_kind(GraphKind::Detail);
    g.add_node(NodeKind::PoissonDistribution(PoissonDistributionParams::default()));
    assert!(g.has_errors());
}

#[test]
fn to_resolved_projects_ports_to_pins() {
    let b = GraphBoundary {
        inputs: vec![BoundaryPort::new("distance".to_string(), PinType::SurfaceField)],
        outputs: vec![BoundaryPort::new("weight".to_string(), PinType::SurfaceField)],
    };
    let r = b.to_resolved();
    assert_eq!(r.inputs.len(), 1);
    assert_eq!(r.inputs[0].name, "distance");
    assert_eq!(r.inputs[0].ty, PinType::SurfaceField);
    assert_eq!(r.outputs[0].name, "weight");
    let outputs = b.to_resolved_outputs();
    assert!(outputs.inputs.is_empty());
    assert_eq!(outputs.outputs.len(), 1);
}

/// A graph whose references point at each target in `targets`.
fn graph_referencing(kind: GraphKind, targets: &[GraphRefTarget]) -> Graph {
    let mut g = Graph::of_kind(kind);
    for &t in targets {
        g.add_node(NodeKind::GraphRef(GraphRefParams { target: t, ..Default::default() }));
    }
    g
}

#[test]
fn empty_hierarchy_is_acyclic() {
    assert_eq!(detect_graph_ref_cycle(&[]), None);
}

#[test]
fn zone_referencing_world_is_acyclic() {
    let world = graph_referencing(GraphKind::World, &[]);
    let zone = graph_referencing(GraphKind::Zone, &[GraphRefTarget::World]);
    let graphs = [(GraphRefTarget::World, &world), (GraphRefTarget::Zone, &zone)];
    assert_eq!(detect_graph_ref_cycle(&graphs), None);
}

#[test]
fn zone_biome_mutual_reference_is_a_cycle() {
    // Zone -> Biome(0) -> Zone.
    let zone = graph_referencing(GraphKind::Zone, &[GraphRefTarget::Biome(0)]);
    let biome = graph_referencing(GraphKind::Biome, &[GraphRefTarget::Zone]);
    let graphs = [(GraphRefTarget::Zone, &zone), (GraphRefTarget::Biome(0), &biome)];
    let cycle = detect_graph_ref_cycle(&graphs).expect("cycle");
    assert!(cycle.contains(&GraphRefTarget::Zone));
    assert!(cycle.contains(&GraphRefTarget::Biome(0)));
}

#[test]
fn crossgraph_self_reference_is_a_cycle() {
    let zone = graph_referencing(GraphKind::Zone, &[GraphRefTarget::Zone]);
    assert_eq!(
        detect_graph_ref_cycle(&[(GraphRefTarget::Zone, &zone)]),
        Some(vec![GraphRefTarget::Zone])
    );
}

#[test]
fn reference_to_absent_target_is_not_a_cycle() {
    let zone = graph_referencing(GraphKind::Zone, &[GraphRefTarget::Biome(5)]);
    assert_eq!(detect_graph_ref_cycle(&[(GraphRefTarget::Zone, &zone)]), None);
}

/// `a -> add.0`, `b -> add.1`, `add -> lerp.0`, `b -> lerp.2`, `lerp -> out.0`.
/// The middle pin of the lerp is left unconnected, so a gap inside a window is
/// covered.
fn indexed_graph() -> (Graph, NodeId, NodeId, NodeId, NodeId) {
    let mut g = Graph::new();
    let a = g.add_node(NodeKind::Constant(ConstantParams { value: single(1.0) }));
    let b = g.add_node(NodeKind::Constant(ConstantParams { value: single(2.0) }));
    let add = g.add_node(NodeKind::Add(AddParams::default()));
    g.connect(PinRef::new(a, 0), PinRef::new(add, 0)).unwrap();
    g.connect(PinRef::new(b, 0), PinRef::new(add, 1)).unwrap();
    let lerp = g.add_node(NodeKind::Lerp(LerpParams::default()));
    g.connect(PinRef::new(add, 0), PinRef::new(lerp, 0)).unwrap();
    g.connect(PinRef::new(b, 0), PinRef::new(lerp, 2)).unwrap();
    let out = g.add_node(NodeKind::Output(OutputParams::default()));
    g.connect(PinRef::new(lerp, 0), PinRef::new(out, 0)).unwrap();
    (g, a, b, add, lerp)
}

#[test]
fn resolves_each_input_pin_to_its_source() {
    let (g, a, b, add, _) = indexed_graph();
    let ix = EdgeIndex::build(&g);
    assert_eq!(ix.source(add, 0), Some(PinRef::new(a, 0)));
    assert_eq!(ix.source(add, 1), Some(PinRef::new(b, 0)));
}

#[test]
fn agrees_with_a_linear_scan_over_every_pin() {
    let (g, ..) = indexed_graph();
    let ix = EdgeIndex::build(&g);
    for id in g.nodes.keys() {
        let node = g.nodes.get(id).unwrap();
        for pin in 0..node.kind.effective_inputs().len() as u16 + 2 {
            let scanned = g
                .edges
                .iter()
                .find(|e| e.to.node == id && e.to.pin == pin)
                .map(|e| e.from);
            assert_eq!(ix.source(id, pin), scanned, "node {id:?} pin {pin}");
        }
    }
}

#[test]
fn a_gap_inside_a_window_reads_as_unconnected() {
    let (g, _, _, _, lerp) = indexed_graph();
    let ix = EdgeIndex::build(&g);
    assert!(ix.source(lerp, 0).is_some());
    assert_eq!(ix.source(lerp, 1), None);
    assert!(ix.source(lerp, 2).is_some());
}

#[test]
fn source_nodes_and_foreign_nodes_are_none() {
    let (g, a, ..) = indexed_graph();
    let ix = EdgeIndex::build(&g);
    assert_eq!(ix.source(a, 0), None);

    // An identity of a different graph must not alias into the windows.
    let mut other = Graph::new();
    let stranger = other.add_node(NodeKind::Output(OutputParams::default()));
    assert_eq!(ix.source(stranger, 0), None);
}

#[test]
fn an_empty_graph_indexes_to_nothing() {
    let ix = EdgeIndex::build(&Graph::new());
    let mut probe = Graph::new();
    let n = probe.add_node(NodeKind::Output(OutputParams::default()));
    assert_eq!(ix.source(n, 0), None);
}

/// A library graph whose only nodes are references to `targets`.
fn lib_referencing(targets: &[u32]) -> Graph {
    let mut g = Graph::new();
    for &t in targets {
        g.add_node(NodeKind::LibraryRef(LibraryRefParams {
            library: LibraryGraphId(t),
            ..Default::default()
        }));
    }
    g
}

#[test]
fn empty_registry_is_acyclic() {
    assert_eq!(LibraryGraphRegistry::new().detect_cycle(), None);
}

#[test]
fn acyclic_chain_has_no_cycle() {
    let mut reg = LibraryGraphRegistry::new();
    reg.insert(LibraryGraphId(0), lib_referencing(&[1]));
    reg.insert(LibraryGraphId(1), lib_referencing(&[2]));
    reg.insert(LibraryGraphId(2), lib_referencing(&[]));
    assert_eq!(reg.detect_cycle(), None);
    assert_eq!(reg.len(), 3);
    assert!(reg.contains(LibraryGraphId(2)));
    assert!(!reg.contains(LibraryGraphId(3)));
}

#[test]
fn library_self_reference_is_a_cycle() {
    let mut reg = LibraryGraphRegistry::new();
    reg.insert(LibraryGraphId(7), lib_referencing(&[7]));
    assert_eq!(reg.detect_cycle(), Some(vec![LibraryGraphId(7)]));
}

#[test]
fn two_node_cycle_is_detected() {
    let mut reg = LibraryGraphRegistry::new();
    reg.insert(LibraryGraphId(0), lib_referencing(&[1]));
    reg.insert(LibraryGraphId(1), lib_referencing(&[0]));
    // The walk starts at the smallest identity, so the cycle reports as [0, 1].
    assert_eq!(
        reg.detect_cycle(),
        Some(vec![LibraryGraphId(0), LibraryGraphId(1)])
    );
}

#[test]
fn reference_to_unregistered_id_is_not_a_cycle() {
    let mut reg = LibraryGraphRegistry::new();
    reg.insert(LibraryGraphId(0), lib_referencing(&[99]));
    assert_eq!(reg.detect_cycle(), None);
}

#[test]
fn refused_connections_say_why() {
    let (mut g, perlin, thresh, out) = build_three_node_graph();
    let edges = g.edges.len();
    let gone = g.add_node(NodeKind::Add(AddParams::default()));
    g.remove_node(gone);
    assert_eq!(
        g.connect(PinRef::new(gone, 0), PinRef::new(thresh, 0)),
        Err(GraphError::NodeNotFound(gone))
    );
    assert_eq!(
        g.connect(PinRef::new(perlin, 0), PinRef::new(gone, 0)),
        Err(GraphError::NodeNotFound(gone))
    );
    assert_eq!(
        g.connect(PinRef::new(perlin, 1), PinRef::new(thresh, 0)),
        Err(GraphError::PinOutOfRange { node: perlin, pin: 1, count: 1 })
    );
    assert_eq!(
        g.connect(PinRef::new(perlin, 0), PinRef::new(thresh, 3)),
        Err(GraphError::PinOutOfRange { node: thresh, pin: 3, count: 1 })
    );
    let material = g.add_node(NodeKind::ConstantMaterial(ConstantMaterialParams::default()));
    assert_eq!(
        g.connect(PinRef::new(material, 0), PinRef::new(thresh, 0)),
        Err(GraphError::TypeMismatch { from: PinType::Material, to: PinType::Density })
    );
    assert_eq!(
        g.connect(PinRef::new(perlin, 0), PinRef::new(out, 0)),
        Err(GraphError::InputAlreadyConnected { node: out, pin: 0 })
    );
    assert_eq!(g.edges.len(), edges);
}

#[test]
fn disconnecting_undoes_a_connection() {
    let (mut g, perlin, thresh, out) = build_three_node_graph();
    let before = g.edges.clone();
    assert!(g.disconnect(PinRef::new(out, 0)));
    assert_eq!(g.edges.len(), 1);
    assert!(!g.disconnect(PinRef::new(out, 0)));
    g.connect(PinRef::new(thresh, 0), PinRef::new(out, 0)).unwrap();
    assert_eq!(g.edges, before);
    g.remove_node(thresh);
    assert!(g.edges.is_empty());
    assert_eq!(g.nodes.len(), 2);
    assert!(g.nodes.contains_key(perlin));
}

#[test]
fn order_puts_sources_first_and_reports_a_cycle() {
    let (mut g, perlin, thresh, out) = build_three_node_graph();
    assert_eq!(g.topological_order(), Ok(vec![perlin, thresh, out]));
    let a = g.add_node(NodeKind::Add(AddParams::default()));
    g.connect(PinRef::new(a, 0), PinRef::new(a, 1)).unwrap();
    assert_eq!(g.topological_order(), Err(vec![a]));
}

#[test]
fn findings_name_the_node_and_the_edge() {
    let mut g = Graph::new();
    let t = g.add_node(NodeKind::Threshold(ThresholdParams::default()));
    let found = g.validate();
    assert_eq!(found.len(), 1);
    assert_eq!(found[0].node, Some(t));
    assert_eq!(found[0].edge, None);

    let gone = g.add_node(NodeKind::Constant(ConstantParams::default()));
    g.remove_node(gone);
    g.edges.push(Edge { from: PinRef::new(gone, 0), to: PinRef::new(t, 0) });
    let found = g.validate();
    assert!(found.iter().any(|d| d.edge == Some(0)
        && d.message == "edge references missing source node"));
}

#[test]
fn removed_identities_never_come_back() {
    let mut g = Graph::new();
    let first = g.add_node(NodeKind::Add(AddParams::default()));
    assert!(g.remove_node(first).is_some());
    let second = g.add_node(NodeKind::Add(AddParams::default()));
    assert_ne!(first, second);
    assert!(!g.nodes.contains_key(first));
    assert!(g.remove_node(first).is_none());
    assert_eq!(NodeId::from_code(second.to_code()), Some(second));
    assert_eq!(NodeId::from_code(0), None);
}

#[test]
fn column_graphs_read_field_pins_as_surface_fields() {
    let add = NodeKind::Add(AddParams::default());
    assert_eq!(add.effective_inputs_in(GraphKind::Biome)[0].ty, PinType::Density);
    assert_eq!(add.effective_inputs_in(GraphKind::World)[0].ty, PinType::SurfaceField);
    let mut world = Graph::of_kind(GraphKind::World);
    let noise = world.add_node(NodeKind::SurfaceNoise(NoiseParams::default()));
    let sum = world.add_node(NodeKind::Add(AddParams::default()));
    assert_eq!(world.connect(PinRef::new(noise, 0), PinRef::new(sum, 0)), Ok(()));
}

#[test]
fn references_present_what_their_target_declares() {
    let mut library = Graph::of_kind(GraphKind::Library);
    library.boundary.outputs.push(BoundaryPort::new("caves".to_string(), PinType::Density));
    let mut registry = LibraryGraphRegistry::new();
    registry.insert(LibraryGraphId(3), library);

    let mut g = Graph::new();
    let known = g.add_node(NodeKind::LibraryRef(LibraryRefParams {
        library: LibraryGraphId(3),
        ..Default::default()
    }));
    let unknown = g.add_node(NodeKind::LibraryRef(LibraryRefParams {
        library: LibraryGraphId(4),
        ..Default::default()
    }));
    assert!(g.nodes.get(known).unwrap().kind.effective_outputs().is_empty());
    g.resolve_library_refs(&registry);
    let outputs = g.nodes.get(known).unwrap().kind.effective_outputs();
    assert_eq!(outputs.len(), 1);
    assert_eq!(outputs[0].name, "caves");
    assert!(g.nodes.get(unknown).unwrap().kind.effective_outputs().is_empty());
    assert_eq!(g.library_refs(), vec![LibraryGraphId(3), LibraryGraphId(4)]);
}

#[test]
fn graph_outputs_become_the_boundary() {
    let mut g = Graph::of_kind(GraphKind::World);
    g.add_node(NodeKind::GraphOutput(GraphOutputParams { name: "climate".to_string() }));
    g.derive_output_boundary();
    assert_eq!(g.boundary.outputs.len(), 1);
    assert_eq!(g.boundary.outputs[0].name, "climate");
    assert_eq!(g.boundary.outputs[0].ty, PinType::SurfaceField);
}

#[test]
fn the_menu_lists_fourteen_categories() {
    let all = NodeCategory::all();
    assert_eq!(all.len(), 14);
    assert_eq!(all[0], NodeCategory::Source);
    assert_eq!(all[13], NodeCategory::Output);
}
