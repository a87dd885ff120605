//! Authored content: species files, blueprints, and watching for changes.
use nodegraph::assets::{HotReloadError, SpeciesFile, SPECIES_VERSION};
use nodegraph::assets_resolve::{resolve_blueprints, resolve_species};
use nodegraph::graph::Graph;
use nodegraph::node::NodeKind;
use nodegraph::params::{
    PlaceBlueprintParams, PlaceStructureParams, PlaceTreeParams, TreeSpecies,
};
use nodegraph::voxel::{DestructionPolicy, IVec3, MaterialId, ResolvedBlueprint};
use nodegraph::watch::{collect_changes, note_path, WatchEvent, WatchKind, WatchedPath};

fn file(version: u32, name: &str) -> SpeciesFile {
    SpeciesFile { version, name: name.to_string(), species: TreeSpecies::default() }
}

#[test]
fn a_species_file_naming_something_else_is_rejected() {
    let got = file(1, "birch").accept("oak", "trees/oak.species.json");
    assert_eq!(
        got.unwrap_err().message(),
        "blueprint: species file trees/oak.species.json declares the name \"birch\""
    );
}

#[test]
fn a_future_version_is_refused_rather_than_guessed_at() {
    let got = file(SPECIES_VERSION + 1, "oak").accept("oak", "oak.species.json");
    assert_eq!(
        got.unwrap_err().message(),
        "blueprint: species 'oak' is version 2 but this build understands up to 1"
    );
}

#[test]
fn a_species_name_that_is_a_path_is_refused() {
    assert!(file(SPECIES_VERSION, "../../evil").file_name().is_err());
    assert!(file(SPECIES_VERSION, "").file_name().is_err());
    assert_eq!(
        file(SPECIES_VERSION, "a/b").file_name().unwrap_err().message(),
        "blueprint: species name 'a/b' must be non-empty and use only letters, digits, '_' and \
         '-' - it becomes a filename"
    );
    assert_eq!(file(SPECIES_VERSION, "red_oak-2").file_name().unwrap(), "red_oak-2.species.json");
}

#[test]
fn a_matching_species_is_accepted() {
    assert_eq!(file(1, "oak").accept("oak", "x"), Ok(TreeSpecies::default()));
    assert_eq!(file(0, "oak").accept("oak", "x"), Ok(TreeSpecies::default()));
}

fn tree(species: &str, wood: &str) -> NodeKind {
    NodeKind::PlaceTree(PlaceTreeParams {
        species: species.to_string(),
        wood: wood.to_string(),
        ..PlaceTreeParams::default()
    })
}

fn wood(name: &str) -> Option<MaterialId> {
    if name == "wood" {
        Some(MaterialId(9))
    } else {
        None
    }
}

#[test]
fn tree_sources_are_filled_in_order_up_to_the_first_failure() {
    let mut g = Graph::new();
    let a = g.add_node(tree("oak", "wood"));
    let b = g.add_node(tree("elm", "wood"));
    let c = g.add_node(tree("oak", "wood"));
    let load = |name: &str| {
        if name == "oak" {
            Ok(TreeSpecies::default())
        } else {
            Err(HotReloadError::Blueprint(format!("no {name}")))
        }
    };
    let got = resolve_species(&mut g, load, wood);
    assert_eq!(got, Err(HotReloadError::Blueprint("no elm".to_string())));
    let filled = |g: &Graph, id| match &g.nodes.get(id).unwrap().kind {
        NodeKind::PlaceTree(p) => p.resolved.is_some(),
        _ => false,
    };
    assert!(filled(&g, a));
    assert!(!filled(&g, b));
    assert!(!filled(&g, c));
    assert_eq!(resolve_species(&mut g, |_: &str| Ok(TreeSpecies::default()), wood), Ok(()));
    assert!(filled(&g, b) && filled(&g, c));
}

#[test]
fn an_unknown_wood_is_reported() {
    let mut g = Graph::new();
    g.add_node(tree("oak", "glass"));
    let got = resolve_species(&mut g, |_: &str| Ok(TreeSpecies::default()), wood);
    assert_eq!(
        got.unwrap_err().message(),
        "blueprint: species 'oak' names an unknown wood material \"glass\""
    );
}

#[test]
fn blueprints_are_filled_in_where_they_are_named() {
    let mut g = Graph::new();
    let a = g.add_node(NodeKind::PlaceBlueprint(PlaceBlueprintParams::default()));
    let b = g.add_node(NodeKind::PlaceStructure(PlaceStructureParams::default()));
    let load = |name: &str| {
        Ok(ResolvedBlueprint {
            name: name.to_string(),
            anchor: IVec3::zero(),
            cells: Vec::new(),
            destruction: DestructionPolicy::Destroy,
            protected_volume: false,
        })
    };
    assert_eq!(resolve_blueprints(&mut g, load), Ok(()));
    match &g.nodes.get(a).unwrap().kind {
        NodeKind::PlaceBlueprint(p) => {
            assert_eq!(p.resolved.as_ref().unwrap().name, p.blueprint);
        }
        other => panic!("{other:?}"),
    }
    match &g.nodes.get(b).unwrap().kind {
        NodeKind::PlaceStructure(p) => assert!(p.resolved.is_some()),
        other => panic!("{other:?}"),
    }
    let fail = |_: &str| Err(HotReloadError::Blueprint("gone".to_string()));
    assert_eq!(resolve_blueprints(&mut g, fail), Ok(()), "filled nodes are not loaded again");
    g.add_node(NodeKind::PlaceBlueprint(PlaceBlueprintParams::default()));
    assert_eq!(
        resolve_blueprints(&mut g, fail),
        Err(HotReloadError::Blueprint("gone".to_string()))
    );
}

fn path(p: usize, extension: Option<&str>) -> WatchedPath {
    WatchedPath { path: p, extension: extension.map(|e| e.to_string()) }
}

#[test]
fn only_graph_files_that_changed_are_reported_once() {
    let events = vec![
        WatchEvent {
            kind: WatchKind::Created,
            paths: vec![path(0, Some("json")), path(1, Some("png"))],
        },
        WatchEvent { kind: WatchKind::Other, paths: vec![path(2, Some("json"))] },
        WatchEvent {
            kind: WatchKind::Modified,
            paths: vec![path(0, Some("json")), path(3, Some("json"))],
        },
        WatchEvent { kind: WatchKind::Modified, paths: vec![path(6, None)] },
    ];
    let mut changed = collect_changes(&events);
    assert_eq!(changed, vec![0, 3]);
    note_path(&mut changed, 3);
    note_path(&mut changed, 5);
    assert_eq!(changed, vec![0, 3, 5]);
    assert!(collect_changes(&Vec::new()).is_empty());
}
