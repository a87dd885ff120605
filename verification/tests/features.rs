//! Features: deriving, stamping and owning them.
use nodegraph::chunk::ChunkBuffer;
use nodegraph::context::EvalContext;
use nodegraph::feature::{
    derive_features, ColumnProbe, Feature, FeatureCanopy, FeaturePayload, FeatureSource, TreeSource,
};
use nodegraph::feature_stamp::{canopy_instances, owns_cell, stamp_features};
use nodegraph::params::TreeSpecies;
use nodegraph::prefab::{PrefabTemplate, PrefabVoxel};
use nodegraph::scalar::Single;
use nodegraph::voxel::{
    BlueprintCell, DestructionPolicy, IVec3, MaterialId, ResolvedBlueprint, Voxel, Yaw,
};

fn single(v: f32) -> Single {
    Single::from_bits(v.to_bits())
}

fn pillar(name: &str, material: u16, protected: bool) -> ResolvedBlueprint {
    let v = Voxel::cube(MaterialId(material));
    ResolvedBlueprint {
        name: name.to_string(),
        anchor: IVec3::zero(),
        cells: vec![
            BlueprintCell { at: IVec3::new(0, 0, 0), voxel: v },
            BlueprintCell { at: IVec3::new(0, 1, 0), voxel: v },
        ],
        destruction: DestructionPolicy::Destroy,
        protected_volume: protected,
    }
}

fn source(bp: ResolvedBlueprint) -> FeatureSource {
    FeatureSource {
        cell_size: 24,
        density: single(1.0),
        seed: 7,
        zones: Vec::new(),
        biomes: Vec::new(),
        random_yaw: true,
        surface_offset: 1,
        payload: FeaturePayload::Blueprint(bp),
        canopy: None,
    }
}

/// A surface that varies with world position, so that a wrong anchor shows up as
/// a wrong height.
fn flat_probe(x: i32, z: i32) -> Option<ColumnProbe> {
    Some(ColumnProbe {
        zone_id: 0,
        biome_id: 0,
        surface_y: 8 + (x.rem_euclid(3)) - (z.rem_euclid(2)),
    })
}

fn none_grown(features: &[Feature]) -> Vec<Vec<IVec3>> {
    features.iter().map(|_| Vec::new()).collect()
}

fn stamped(ctx: EvalContext, sources: &[FeatureSource], features: &[Feature]) -> ChunkBuffer<Voxel> {
    let base: ChunkBuffer<Voxel> = ChunkBuffer::uniform(Voxel::empty());
    stamp_features(&base, ctx, sources, features, &none_grown(features))
}

#[test]
fn neighboring_chunks_derive_the_shared_features_identically() {
    let sources = [source(pillar("p", 2, false))];
    let a = derive_features(EvalContext::new(1234, IVec3::new(0, 0, 0)), &sources, flat_probe);
    let b = derive_features(EvalContext::new(1234, IVec3::new(1, 0, 0)), &sources, flat_probe);

    let shared: Vec<_> = a.iter().filter(|f| b.contains(f)).collect();
    assert!(!shared.is_empty(), "the two windows must overlap in the band, or this proves nothing");
    for f in &a {
        let reachable = f.anchor.x as i64 >= 32 - sources[0].reach();
        if reachable {
            assert!(b.contains(f), "chunk (1,0,0) missed a feature it can see: {f:?}");
        }
    }
}

#[test]
fn shared_features_stand_in_one_order() {
    let mut second = source(pillar("q", 3, false));
    second.seed = 77;
    let sources = [source(pillar("p", 2, false)), second];
    let derive = |x: i32, z: i32| {
        derive_features(EvalContext::new(1234, IVec3::new(x, 0, z)), &sources, flat_probe)
    };
    let (a, b) = (derive(0, 0), derive(1, 0));
    let common: Vec<_> = a.iter().filter(|f| b.contains(f)).collect();
    let again: Vec<_> = b.iter().filter(|f| a.contains(f)).collect();
    assert!(common.len() > 1, "two shared features are needed");
    assert_eq!(common, again);
    for f in &a {
        assert_eq!(a.iter().filter(|g| *g == f).count(), 1, "{f:?} is derived once");
    }
}

#[test]
fn wide_cells_share_their_features_too() {
    // An edge that single precision rounds up.
    let mut wide = source(pillar("p", 2, false));
    wide.cell_size = 16_777_219;
    let sources = [wide];
    let derive = |x: i32, z: i32| {
        derive_features(EvalContext::new(9, IVec3::new(x, 0, z)), &sources, flat_probe)
    };
    let found = derive(0, 0);
    assert!(!found.is_empty(), "a cell covers the chunk");
    for f in &found {
        let home = (f.anchor.x.div_euclid(32), f.anchor.z.div_euclid(32));
        assert!(derive(home.0, home.1).contains(f), "{f:?} is missing where it stands");
    }
}

#[test]
fn a_prefab_is_what_it_was_made_of() {
    let rock = PrefabTemplate {
        anchor: [0, 0, 0],
        voxels: vec![PrefabVoxel { at: [1, 0, -1], voxel: Voxel::cube(MaterialId(2)) }],
    };
    let mut moved = rock.clone();
    assert_eq!(rock, moved);
    moved.voxels[0].at[1] = 4;
    assert_ne!(rock, moved);
}

#[test]
fn derivation_is_a_pure_function_of_the_seed() {
    let sources = [source(pillar("p", 2, false))];
    let ctx = EvalContext::new(99, IVec3::new(-3, 0, 5));
    let once = derive_features(ctx, &sources, flat_probe);
    let twice = derive_features(ctx, &sources, flat_probe);
    assert_eq!(once, twice);

    let other = derive_features(EvalContext::new(100, IVec3::new(-3, 0, 5)), &sources, flat_probe);
    assert_ne!(once, other, "a different world seed must produce a different layout");
}

#[test]
fn a_rejected_cell_does_not_shift_the_stream_for_later_cells() {
    let dense = [source(pillar("p", 2, false))];
    let mut sparse = source(pillar("p", 2, false));
    sparse.zones = vec![9]; // no column reports zone 9
    let sparse = [sparse];

    let ctx = EvalContext::new(5, IVec3::zero());
    assert!(!derive_features(ctx, &dense, flat_probe).is_empty());
    assert!(derive_features(ctx, &sparse, flat_probe).is_empty());
}

#[test]
fn a_biome_filter_keeps_a_source_out_of_the_wrong_biome() {
    let ctx = EvalContext::new(7, IVec3::new(0, 0, 0));
    let probe = |_: i32, _: i32| Some(ColumnProbe { zone_id: 0, biome_id: 2, surface_y: 40 });

    let unfiltered = [source(pillar("tree", 3, false))];
    assert!(
        !derive_features(ctx, &unfiltered, probe).is_empty(),
        "no filter should admit every column",
    );

    // Same source, restricted to biome 0, against columns that report 2.
    let mut restricted = source(pillar("tree", 3, false));
    restricted.biomes = vec![0];
    assert!(
        derive_features(ctx, &[restricted], probe).is_empty(),
        "biome 2 must not produce a biome-0 source",
    );
}

#[test]
fn features_apply_in_priority_order_and_the_last_one_wins() {
    let ctx = EvalContext::new(1, IVec3::zero());
    let sources = [source(pillar("low", 2, false)), source(pillar("high", 3, false))];
    // Same anchor, different priorities: the higher key applies later.
    let features = vec![
        Feature { anchor: IVec3::new(4, 4, 4), yaw: Yaw::Deg0, priority: 1, source: 0 },
        Feature { anchor: IVec3::new(4, 4, 4), yaw: Yaw::Deg0, priority: 2, source: 1 },
    ];
    let out = stamped(ctx, &sources, &features);
    assert_eq!(out.get(4, 4, 4).material, MaterialId(3), "higher priority wins");
}

#[test]
fn a_protected_volume_survives_a_higher_priority_feature() {
    let ctx = EvalContext::new(1, IVec3::zero());
    let sources = [source(pillar("vault", 2, true)), source(pillar("rubble", 3, false))];
    let features = vec![
        Feature { anchor: IVec3::new(6, 6, 6), yaw: Yaw::Deg0, priority: 1, source: 0 },
        Feature { anchor: IVec3::new(6, 6, 6), yaw: Yaw::Deg0, priority: 9, source: 1 },
    ];
    let out = stamped(ctx, &sources, &features);
    assert_eq!(out.get(6, 6, 6).material, MaterialId(2), "protected cells are not overwritten");
}

#[test]
fn cells_outside_the_window_are_clipped_not_wrapped() {
    let ctx = EvalContext::new(1, IVec3::zero());
    let sources = [source(pillar("p", 2, false))];
    // Anchor one voxel past the far border: both its cells fall outside.
    let features = vec![Feature {
        anchor: IVec3::new(32, 4, 4),
        yaw: Yaw::Deg0,
        priority: 1,
        source: 0,
    }];
    let out = stamped(ctx, &sources, &features);
    assert_eq!(out.get(0, 4, 4).material, MaterialId(0), "must not wrap to the near edge");
}

#[test]
fn a_canopy_belongs_to_the_chunk_holding_its_anchor() {
    let ctx = EvalContext::new(1, IVec3::zero());
    let mut src = source(pillar("trunk", 2, false));
    src.canopy = Some(FeatureCanopy { type_id: 4, prefab_id: 7, y_offset: 5 });
    let sources = [src];

    // Anchor inside this chunk; canopy 5 above it, still inside.
    let inside = vec![Feature {
        anchor: IVec3::new(10, 3, 12),
        yaw: Yaw::Deg0,
        priority: 1,
        source: 0,
    }];
    let got = canopy_instances(ctx, &sources, &inside);
    assert_eq!(got.len(), 1, "one bucket");
    assert_eq!(got[0].type_id, 4);
    assert_eq!(got[0].instances.len(), 1);
    assert_eq!(got[0].instances[0].anchor, [10, 8, 12], "canopy sits y_offset above");
    assert_eq!(got[0].instances[0].prefab_id, 7);

    // Same feature seen from a neighbor: the anchor is outside its window.
    let neighbor = EvalContext::new(1, IVec3::new(1, 0, 0));
    assert!(canopy_instances(neighbor, &sources, &inside).is_empty());

    // A feature with no canopy emits nothing at all.
    let plain = [source(pillar("rock", 2, false))];
    assert!(canopy_instances(ctx, &plain, &inside).is_empty());
}

fn tree_source(name: &str) -> FeatureSource {
    FeatureSource {
        cell_size: 16,
        density: single(1.0),
        seed: 3,
        zones: Vec::new(),
        biomes: Vec::new(),
        random_yaw: false,
        surface_offset: 0,
        payload: FeaturePayload::Tree(TreeSource {
            name: name.to_string(),
            species: TreeSpecies { trunk_radius: single(2.0), ..TreeSpecies::default() },
            wood: MaterialId(9),
            age: single(1.0),
        }),
        canopy: None,
    }
}

#[test]
fn grown_cells_become_wood_where_they_are_owned() {
    let ctx = EvalContext::new(11, IVec3::zero());
    let sources = [tree_source("oak")];
    let features = derive_features(ctx, &sources, flat_probe);
    assert!(!features.is_empty(), "vacuous: no tree was derived");
    assert_eq!(sources[0].payload.name(), "oak");
    // Each tree occupies the two cells above its anchor.
    let grown: Vec<Vec<IVec3>> = features
        .iter()
        .map(|f| {
            (1..3)
                .map(|dy| IVec3::new(f.anchor.x, f.anchor.y + dy, f.anchor.z))
                .collect()
        })
        .collect();
    let base: ChunkBuffer<Voxel> = ChunkBuffer::uniform(Voxel::empty());
    let out = stamp_features(&base, ctx, &sources, &features, &grown);
    let mut owned = 0;
    for cell in grown.iter().flatten() {
        if owns_cell(ctx, *cell) {
            owned += 1;
            let v = out.get(cell.x as usize, cell.y as usize, cell.z as usize);
            assert_eq!(v.material, MaterialId(9));
        }
    }
    assert!(owned > 0, "vacuous: no cell fell in the chunk");
    assert!(!owns_cell(ctx, IVec3::new(32, 0, 0)));
    assert!(owns_cell(ctx, IVec3::new(31, 31, 31)));
}

#[test]
fn a_tie_goes_to_the_later_position() {
    // Equal priorities: the features still apply in one order, whoever lists them.
    let sources = [source(pillar("p", 2, false))];
    let ctx = EvalContext::new(77, IVec3::new(2, 0, 2));
    let features = derive_features(ctx, &sources, flat_probe);
    for pair in features.windows(2) {
        assert!(pair[0].priority <= pair[1].priority, "features are not in key order");
    }
}
