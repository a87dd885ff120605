//! The editor: canvas, undo, catalog, parameter form and palette.
use nodegraph::badges::DiagnosticIndex;
use nodegraph::boundary::{BoundaryPort, GraphBoundary};
use nodegraph::canvas::{graph_to_snarl, snarl_to_graph, Canvas, CanvasWire};
use nodegraph::canvas_edit::{
    place_entry, place_graph, place_library, GraphCatalogs, GraphChoice, LibraryChoice,
};
use nodegraph::catalog::{catalog, CATALOG_SIZE};
use nodegraph::diagnostic::{Diagnostic, Severity};
use nodegraph::edge::PinRef;
use nodegraph::editor::{EditorState, Frame, UNDO_DEPTH};
use nodegraph::example::build_example_graph;
use nodegraph::form::{FieldValue, Limits};
use nodegraph::form_lists::{fallback_zone, graph_text, id_text, library_text, name_text};
use nodegraph::graph::Graph;
use nodegraph::ids::{GraphKind, GraphRefTarget, LibraryGraphId};
use nodegraph::node::{NodeCategory, NodeKind, Rgb, Vec2};
use nodegraph::palette::{
    category_fill, header_text_color, pin_color, pin_shape, severity_color, PinShape,
};
use nodegraph::params::{
    AddParams, Axis, ConstantMaterialParams, ConstantParams, FindFlatParams, FractalType,
    GraphRefParams, LayerParams, LibraryRefParams, NoiseParams, PlaceStructureParams,
    RiverParams, SpeciesPickerParams, SurfaceFilterParams, WorldAxisParams, WorldOutputParams,
    ZoneOutputParams,
};
use nodegraph::pin::PinType;
use nodegraph::scalar::Single;
use nodegraph::voxel::MaterialId;

fn single(v: f32) -> Single {
    Single::from_bits(v.to_bits())
}

fn origin() -> Vec2 {
    Vec2 { x: single(0.0), y: single(0.0) }
}

#[test]
fn canvas_round_trip_preserves_kind_and_boundary() {
    let mut source = Graph::of_kind(GraphKind::World);
    source
        .boundary
        .outputs
        .push(BoundaryPort::new("climate".to_string(), PinType::SurfaceField));
    source.add_node(NodeKind::Constant(ConstantParams::default()));

    let saved = EditorState::from_graph(&source).build_graph();

    assert_eq!(saved.kind, GraphKind::World, "saving a World graph must not relabel it Biome");
    assert_eq!(saved.boundary, source.boundary);
}

#[test]
fn undo_preserves_kind() {
    let mut editor = EditorState::from_graph(&Graph::of_kind(GraphKind::Detail));
    let snapshot = editor.build_graph();
    editor.push_undo("test".to_string(), snapshot);
    editor.undo().expect("one undo entry");
    assert_eq!(editor.build_graph().kind, GraphKind::Detail);
}

#[test]
fn every_node_kind_is_insertable_from_the_canvas() {
    let names: Vec<&'static str> = catalog().iter().map(|entry| entry.kind.kind_name()).collect();

    let mut unique = names.clone();
    unique.sort_unstable();
    unique.dedup();
    assert_eq!(unique.len(), names.len(), "two catalog entries build the same NodeKind");

    assert_eq!(names.len(), 50);
    assert_eq!(names.len(), CATALOG_SIZE);

    for excluded in ["LibraryRef", "GraphRef"] {
        assert!(
            !names.contains(&excluded),
            "{excluded} must be placed bound, not from the static catalog",
        );
    }

    for required in ["DensityOutput", "FluidOutput", "GraphOutput", "BiomeParam"] {
        assert!(names.contains(&required), "{required} is not insertable from the canvas");
    }
}

#[test]
fn catalog_entries_are_placed_fresh() {
    let entries = catalog();
    assert_eq!(entries[0].label, "Perlin 2D");
    assert_eq!(entries[0].category, NodeCategory::Source);
    let (kind, label) = place_entry(&entries[0]);
    assert_eq!(kind, NodeKind::Perlin2D(NoiseParams::default()));
    assert_eq!(label, "Add Perlin 2D");
}

#[test]
fn references_are_placed_bound() {
    let library = LibraryChoice {
        id: LibraryGraphId(4),
        name: "caves".to_string(),
        boundary: GraphBoundary {
            inputs: vec![BoundaryPort::new("pos".to_string(), PinType::Vec3)],
            outputs: vec![BoundaryPort::new("density".to_string(), PinType::Density)],
        },
    };
    let (kind, label) = place_library(&library);
    assert_eq!(label, "Add caves");
    assert_eq!(kind.effective_inputs().len(), 1);
    assert_eq!(kind.effective_outputs()[0].name, "density");

    let graph = GraphChoice {
        target: GraphRefTarget::World,
        name: "world".to_string(),
        boundary: GraphBoundary {
            inputs: vec![BoundaryPort::new("ignored".to_string(), PinType::Vec3)],
            outputs: vec![BoundaryPort::new("climate".to_string(), PinType::SurfaceField)],
        },
    };
    let (kind, label) = place_graph(&graph);
    assert_eq!(label, "Add Graph Ref world");
    assert!(kind.effective_inputs().is_empty());
    assert_eq!(kind.effective_outputs()[0].name, "climate");
}

#[test]
fn a_graph_survives_the_canvas() {
    let source = build_example_graph();
    assert!(source.validate().is_empty(), "{:?}", source.validate());
    assert_eq!(source.nodes.len(), 14);
    assert_eq!(source.edges.len(), 15);
    for k in source.nodes.keys() {
        assert_eq!(source.nodes.get(k).unwrap().position, origin());
    }
    let canvas = graph_to_snarl(&source);
    let (back, ids) = snarl_to_graph(&canvas);
    let keys = source.nodes.keys();
    assert_eq!(keys.len(), ids.len());
    for (k, id) in keys.iter().zip(&ids) {
        assert_eq!(source.nodes.get(*k).unwrap(), back.nodes.get(*id).unwrap());
    }
    assert_eq!(back.edges.len(), source.edges.len());
    let rename = |n| ids[keys.iter().position(|k| *k == n).unwrap()];
    for (a, b) in source.edges.iter().zip(&back.edges) {
        assert_eq!(PinRef::new(rename(a.from.node), a.from.pin), b.from);
        assert_eq!(PinRef::new(rename(a.to.node), a.to.pin), b.to);
    }
}

#[test]
fn wires_a_graph_refuses_are_left_out() {
    let mut canvas = Canvas::new();
    canvas.insert(10, origin(), NodeKind::ConstantMaterial(ConstantMaterialParams::default()));
    canvas.insert(20, origin(), NodeKind::Add(AddParams::default()));
    canvas.insert(30, origin(), NodeKind::Constant(ConstantParams::default()));
    canvas.wires.push(CanvasWire { from_node: 10, from_pin: 0, to_node: 20, to_pin: 0 });
    canvas.wires.push(CanvasWire { from_node: 99, from_pin: 0, to_node: 20, to_pin: 0 });
    canvas.wires.push(CanvasWire { from_node: 30, from_pin: 0, to_node: 20, to_pin: 0 });
    canvas.wires.push(CanvasWire { from_node: 30, from_pin: 0, to_node: 20, to_pin: 0 });
    canvas.wires.push(CanvasWire { from_node: 30, from_pin: 0, to_node: 20, to_pin: 1 });
    let (graph, ids) = snarl_to_graph(&canvas);
    assert_eq!(graph.edges.len(), 2);
    assert_eq!(graph.edges[0].from.node, ids[2]);
    assert_eq!(canvas.find(20), Some(1));
    assert_eq!(canvas.find(21), None);
}

#[test]
fn an_input_takes_one_wire() {
    let mut canvas = Canvas::new();
    canvas.insert(0, origin(), NodeKind::Constant(ConstantParams::default()));
    canvas.insert(1, origin(), NodeKind::Constant(ConstantParams::default()));
    canvas.insert(2, origin(), NodeKind::Add(AddParams::default()));
    canvas.insert(3, origin(), NodeKind::ConstantMaterial(ConstantMaterialParams::default()));
    let first = CanvasWire { from_node: 0, from_pin: 0, to_node: 2, to_pin: 1 };
    let second = CanvasWire { from_node: 1, from_pin: 0, to_node: 2, to_pin: 1 };
    let misfit = CanvasWire { from_node: 3, from_pin: 0, to_node: 2, to_pin: 1 };
    assert_eq!(
        canvas.connect(GraphKind::Biome, first),
        Some("Connect Constant.value → Add.b".to_string())
    );
    assert!(canvas.connect(GraphKind::Biome, second).is_some());
    assert_eq!(canvas.wires, vec![second]);
    assert_eq!(canvas.connect(GraphKind::Biome, misfit), None);
    assert_eq!(canvas.wires, vec![second]);

    assert_eq!(canvas.disconnect(second), "Disconnect Constant -> Add");
    assert!(canvas.wires.is_empty());
    assert_eq!(canvas.drop_inputs(2, 1), None);
    canvas.connect(GraphKind::Biome, first);
    assert_eq!(canvas.drop_inputs(2, 1), Some("Disconnect Add input".to_string()));
    assert_eq!(canvas.drop_outputs(0, 0), None);
    canvas.connect(GraphKind::Biome, first);
    assert_eq!(canvas.drop_outputs(0, 0), Some("Disconnect Constant outputs".to_string()));
    canvas.connect(GraphKind::Biome, first);
    assert_eq!(canvas.delete(0), "Delete Constant");
    assert!(canvas.wires.is_empty());
    assert_eq!(canvas.nodes.len(), 3);
}

fn one_constant(value: f32) -> Graph {
    let mut g = Graph::new();
    g.add_node(NodeKind::Constant(ConstantParams { value: single(value) }));
    g
}

fn quiet(before: Graph) -> Frame {
    Frame {
        before,
        actions: Vec::new(),
        edited: false,
        edited_node: None,
        interacting: false,
        clicked: None,
    }
}

fn constant_on(editor: &EditorState) -> f32 {
    match &editor.canvas().nodes[0].kind {
        NodeKind::Constant(p) => f32::from_bits(p.value.to_bits()),
        other => panic!("not a constant: {other:?}"),
    }
}

#[test]
fn undo_and_redo_walk_back_and_forth() {
    let mut editor = EditorState::from_graph(&one_constant(1.0));
    assert_eq!(editor.undo(), None);
    assert_eq!(editor.redo(), None);
    let before = editor.build_graph();
    editor.set_canvas(graph_to_snarl(&one_constant(2.0)));
    editor.push_undo("change".to_string(), before);
    assert!(editor.is_modified());
    assert!(editor.consume_dirty());
    assert!(!editor.consume_dirty());
    assert_eq!(editor.peek_undo(), Some("change"));
    assert_eq!(editor.peek_redo(), None);
    let revision = editor.revision();

    assert_eq!(editor.undo(), Some("change".to_string()));
    assert_eq!(constant_on(&editor), 1.0);
    assert_eq!(editor.peek_redo(), Some("change"));
    assert_eq!(editor.redo(), Some("change".to_string()));
    assert_eq!(constant_on(&editor), 2.0);
    assert_eq!(editor.revision(), revision + 2);
    editor.mark_saved();
    assert!(!editor.is_modified());
}

#[test]
fn the_undo_stack_forgets_its_oldest() {
    let mut editor = EditorState::new();
    for i in 0..UNDO_DEPTH + 5 {
        editor.push_undo(format!("step {i}"), Graph::new());
    }
    let mut undone = 0;
    let mut last = String::new();
    while let Some(label) = editor.undo() {
        undone += 1;
        last = label;
    }
    assert_eq!(undone, UNDO_DEPTH);
    assert_eq!(last, "step 5");
    editor.push_undo("new".to_string(), Graph::new());
    assert_eq!(editor.redo(), None);
}

#[test]
fn a_drag_becomes_one_undo_entry() {
    let mut editor = EditorState::from_graph(&one_constant(1.0));
    for step in 1..4 {
        let before = editor.build_graph();
        editor.set_canvas(graph_to_snarl(&one_constant(1.0 + step as f32)));
        editor.settle_frame(Frame {
            edited: true,
            edited_node: Some("Constant".to_string()),
            interacting: true,
            ..quiet(before)
        });
        assert_eq!(editor.peek_undo(), None);
    }
    let pause = editor.build_graph();
    editor.settle_frame(Frame { interacting: true, ..quiet(pause) });
    assert_eq!(editor.peek_undo(), None);
    let release = editor.build_graph();
    editor.settle_frame(quiet(release));
    assert_eq!(editor.peek_undo(), Some("Edit Constant"));
    assert_eq!(editor.undo(), Some("Edit Constant".to_string()));
    assert_eq!(constant_on(&editor), 1.0);
}

#[test]
fn structural_actions_fold_into_one_entry() {
    let mut editor = EditorState::new();
    let before = editor.build_graph();
    editor.settle_frame(Frame { edited: true, interacting: true, ..quiet(before) });
    let before = editor.build_graph();
    editor.settle_frame(Frame {
        actions: vec!["Add Add".to_string(), "Delete Min".to_string()],
        clicked: Some(3),
        ..quiet(before)
    });
    assert_eq!(editor.peek_undo(), Some("Add Add, Delete Min"));
    assert_eq!(editor.selected(), Some(3));
    editor.undo();
    assert_eq!(editor.peek_undo(), Some("Edit parameter"));
}

#[test]
fn the_selection_follows_into_the_graph() {
    let mut editor = EditorState::from_graph(&one_constant(1.0));
    let before = editor.build_graph();
    let revision = editor.revision();
    editor.settle_frame(Frame { clicked: Some(0), ..quiet(before) });
    assert_eq!(editor.revision(), revision + 1);
    let (graph, selected) = editor.build_graph_with_selection();
    assert!(graph.nodes.contains_key(selected.unwrap()));
    editor.set_canvas(Canvas::new());
    assert_eq!(editor.build_graph_with_selection().1, None);
}

#[test]
fn messages_fade() {
    let mut editor = EditorState::default();
    assert_eq!(editor.tick_toast(), None);
    editor.toast("saved".to_string());
    let mut frames = 0;
    while editor.tick_toast() == Some("saved".to_string()) {
        frames += 1;
    }
    assert_eq!(frames, 181);
}

#[test]
fn badges_keep_the_strongest_finding() {
    let mut g = Graph::new();
    let a = g.add_node(NodeKind::Add(AddParams::default()));
    let b = g.add_node(NodeKind::Add(AddParams::default()));
    let c = g.add_node(NodeKind::Add(AddParams::default()));
    let found = vec![
        Diagnostic::info("i".to_string()).with_node(a),
        Diagnostic::warning("w".to_string()).with_node(a),
        Diagnostic::error("e".to_string()).with_node(b),
        Diagnostic::warning("w".to_string()).with_node(b),
        Diagnostic::error("nowhere".to_string()),
    ];
    let index = DiagnosticIndex::from_diagnostics(&found);
    assert_eq!(index.severity(a), Some(Severity::Warning));
    assert_eq!(index.severity(b), Some(Severity::Error));
    assert_eq!(index.severity(c), None);
}

#[test]
fn forms_hold_values_to_their_limits() {
    let mut noise = NodeKind::Perlin2D(NoiseParams::default());
    let form = noise.params_form();
    assert_eq!(form.len(), 6);
    assert_eq!(form[2].label, "octaves");
    assert_eq!(form[2].limits, Limits::Wholes(1, 10));
    assert!(noise.set_field(2, FieldValue::Whole(40)));
    assert_eq!(noise.params_form()[2].value, FieldValue::Whole(10));
    assert!(!noise.set_field(2, FieldValue::Whole(99)));
    assert!(!noise.set_field(2, FieldValue::Flag(true)));
    assert!(!noise.set_field(6, FieldValue::Whole(1)));
    assert!(noise.set_field(5, FieldValue::Fractal(FractalType::Ridged)));
    assert!(noise.set_field(1, FieldValue::Real(single(-7.5))));
    match noise {
        NodeKind::Perlin2D(p) => {
            assert_eq!(p.octaves, 10);
            assert_eq!(p.fractal_type, FractalType::Ridged);
            assert_eq!(p.frequency, single(-7.5));
        }
        other => panic!("{other:?}"),
    }

    let mut river = NodeKind::River(RiverParams::default());
    assert!(river.set_field(2, FieldValue::Real(single(9.0))));
    assert_eq!(river.params_form()[2].value, FieldValue::Real(single(0.05)));

    let mut axis = NodeKind::WorldAxis(WorldAxisParams::default());
    assert!(axis.set_field(0, FieldValue::Axis(Axis::Z)));

    let mut structure = NodeKind::PlaceStructure(PlaceStructureParams::default());
    assert!(structure.set_field(4, FieldValue::Whole(-100)));
    match structure {
        NodeKind::PlaceStructure(p) => assert_eq!(p.surface_offset, -8),
        other => panic!("{other:?}"),
    }
    assert!(NodeKind::Add(AddParams::default()).params_form().is_empty());
}

#[test]
fn regions_follow_their_thresholds() {
    let mut zone = ZoneOutputParams {
        biome_bands: vec![single(0.0), single(0.5)],
        biome_ids: vec![9],
    };
    zone.fit_regions();
    assert_eq!(zone.biome_ids, vec![9, 1, 2]);
    zone.fit_regions();
    assert_eq!(zone.biome_ids, vec![9, 1, 2]);
    zone.remove_threshold(0);
    assert_eq!(zone.biome_ids, vec![9, 2]);
    assert_eq!(zone.biome_bands, vec![single(0.5)]);
    zone.add_threshold(single(0.6));
    assert_eq!(zone.biome_ids, vec![9, 2, 2]);

    let zones = vec![(5u16, "north".to_string()), (6, "south".to_string())];
    let mut world = WorldOutputParams { zone_bands: vec![single(0.0)], zone_ids: vec![] };
    world.fit_regions(fallback_zone(&zones));
    assert_eq!(world.zone_ids, vec![5, 5]);
    world.zone_ids = vec![1, 2, 3, 4];
    world.fit_regions(fallback_zone(&zones));
    assert_eq!(world.zone_ids, vec![1, 2]);
    world.add_threshold(single(0.1), 5);
    assert_eq!(world.zone_ids, vec![1, 2, 2]);
    assert_eq!(fallback_zone(&Vec::new()), 0);
}

#[test]
fn pickers_show_what_is_missing() {
    let zones = vec![(5u16, "north".to_string())];
    assert_eq!(id_text(&zones, 5, "zone"), "north");
    assert_eq!(id_text(&zones, 12, "zone"), "zone 12 (missing)");
    let names = vec!["hut".to_string()];
    assert_eq!(name_text(&names, "hut"), "hut");
    assert_eq!(name_text(&names, ""), "(none)");
    assert_eq!(name_text(&names, "barn"), "barn (missing)");
    assert_eq!(library_text(&Vec::new(), LibraryGraphId(3)), "library 3 (missing)");
    assert_eq!(graph_text(&Vec::new(), GraphRefTarget::Biome(7)), "Biome(7) (missing)");
    assert_eq!(graph_text(&Vec::new(), GraphRefTarget::World), "World (missing)");
    assert!(GraphCatalogs::default().blueprints.is_empty());
}

#[test]
fn references_follow_the_choice() {
    let choice = LibraryChoice {
        id: LibraryGraphId(2),
        name: "lib".to_string(),
        boundary: GraphBoundary::default(),
    };
    let mut p = LibraryRefParams { library: LibraryGraphId(1), resolved: None };
    assert!(p.retarget(&choice));
    assert_eq!(p.library, LibraryGraphId(2));
    assert!(p.resolved.is_some());
    assert!(!p.retarget(&choice));
    let graph = GraphChoice {
        target: GraphRefTarget::Biome(1),
        name: "b".to_string(),
        boundary: GraphBoundary::default(),
    };
    let mut q = GraphRefParams::default();
    assert!(q.retarget(&graph));
    assert!(!q.retarget(&graph));
    assert_eq!(library_text(&vec![choice], LibraryGraphId(2)), "lib");
    assert_eq!(graph_text(&vec![graph], GraphRefTarget::Biome(1)), "b");
}

#[test]
fn lists_grow_with_their_defaults() {
    let mut flat = FindFlatParams::default();
    flat.add_material();
    assert_eq!(flat.on_materials, vec![MaterialId(6)]);
    let mut filter = SurfaceFilterParams::default();
    let had = filter.materials.len();
    filter.add_material();
    assert_eq!(filter.materials[had], MaterialId(6));
    let mut picker = SpeciesPickerParams::default();
    let had = picker.weights.len();
    picker.add_weight();
    assert_eq!(picker.weights[had], single(0.0));
    let mut layer = LayerParams::default();
    layer.add_band();
    assert_eq!(layer.bands[2], (MaterialId(1), 1));
    layer.set_band(2, MaterialId(4), 900);
    assert_eq!(layer.bands[2], (MaterialId(4), 64));
    layer.set_band(2, MaterialId(4), 0);
    assert_eq!(layer.bands[2], (MaterialId(4), 1));
}

#[test]
fn headers_are_legible() {
    assert_eq!(category_fill(NodeCategory::Source), Rgb { r: 0x4c, g: 0x9a, b: 0xff });
    assert_eq!(header_text_color(NodeCategory::Curves), Rgb { r: 20, g: 20, b: 20 });
    assert_eq!(header_text_color(NodeCategory::Output), Rgb { r: 235, g: 235, b: 235 });
    assert_eq!(pin_color(PinType::Vec3), Rgb { r: 255, g: 140, b: 200 });
    assert_eq!(pin_shape(PinType::Positions), PinShape::Triangle);
    assert_eq!(pin_shape(PinType::Terrain), PinShape::Star);
    assert_eq!(pin_shape(PinType::ZoneId), PinShape::Square);
    assert_eq!(severity_color(Severity::Error), Rgb { r: 220, g: 60, b: 60 });
}
