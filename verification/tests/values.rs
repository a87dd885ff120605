//! Exact values: seeds, draws, numbers, lists, fills, foliage, borders and errors.
use nodegraph::bands::{assignable_ids, band_id, quantize_bands, quantize_one};
use nodegraph::border::scan_borders;
use nodegraph::chunk::{ChunkBuffer, CHUNK_DIM};
use nodegraph::column::{ColumnField, IdColumn};
use nodegraph::column_cache::ColumnCache;
use nodegraph::column_eval::ColumnEvaluator;
use nodegraph::compose::compose_terrain;
use nodegraph::composite::{
    blend_of, composite_fluid, composite_terrain, continue_above, look_higher, needed_biomes,
    present_biomes, BiomeMaterialRule, ColumnBlend, FluidLayer, TerrainLayer,
};
use nodegraph::context::{mix64, EvalContext};
use nodegraph::detail::{DetailGround, DetailPoint};
use nodegraph::edge::PinRef;
use nodegraph::eval::Evaluator;
use nodegraph::eval_error::EvalError;
use nodegraph::field::ScalarField;
use nodegraph::fills::{fill_fallback, fill_layers, fill_spread, fill_terrain};
use nodegraph::foliage::{
    stable_instance_id, ChunkFoliage, FoliageInstance, PaintLayer, PaintTexel, ScatterBucket,
};
use nodegraph::fraction::{share, single_of_fraction, single_of_int};
use nodegraph::graph::Graph;
use nodegraph::ids::{GraphKind, GraphRefTarget};
use nodegraph::inspect::{choose_chunk, column_height, locate_column, probe_column, survey_surface};
use nodegraph::node::NodeKind;
use nodegraph::operation::{noise_source_of, operation_of, NoiseFamily};
use nodegraph::params::{
    AddParams, ConstantMaterialParams, ConstantParams, DensityOutputParams, FindFlatParams,
    GraphRefParams, LayerParams, LerpParams, LibraryRefParams, NoiseParams, OutputParams,
    PaintDensityParams, PlaceBlueprintParams, PlaceStructureParams, PlaceTreeParams,
    SurfaceFilterParams, WorldOutputParams, WorldParamParams, WorldPosParams, ZoneOutputParams,
};
use nodegraph::scalar::Single;
use nodegraph::scalar_params::{ScalarParams, WorldParams};
use nodegraph::scatter::{draw_in_cell, point_seed, seed_points, SplitMix64};
use nodegraph::sort::sorted_distinct;
use nodegraph::text::is_text_before;
use nodegraph::voxel::{
    BlueprintCell, DestructionPolicy, IVec3, MaterialId, ResolvedBlueprint, ShapeId, Voxel,
};
use nodegraph::world::WorldEvaluator;

fn single(v: f32) -> Single {
    Single::from_bits(v.to_bits())
}

fn at(x: i32, y: i32, z: i32) -> IVec3 {
    IVec3::new(x, y, z)
}

#[test]
fn seeds_are_world_absolute() {
    assert_eq!(mix64(0), 0xe220_a839_7b1d_cdaf);
    assert_eq!(mix64(1), 0x910a_2dec_8902_5cc1);
    let here = EvalContext::new(42, at(1, -1, 2));
    let there = EvalContext::new(42, at(-7, 3, 0));
    assert_eq!(here.noise_seed(1337), 881_249_984);
    assert_eq!(there.noise_seed(1337), 881_249_984);
    assert_eq!(EvalContext::new(0, at(0, 0, 0)).noise_seed(0), 0);
    assert_eq!(here.world_cell_seed(7, -3, 5), 0x508c_dc50_f589_c94f);
    assert_eq!(there.world_cell_seed(7, -3, 5), 0x508c_dc50_f589_c94f);
    assert_eq!(here.chunk_world_seed(3), 0x35e5_b0a9_e9c5_037b);
    assert_ne!(here.chunk_world_seed(3), there.chunk_world_seed(3));
}

#[test]
fn adjacent_chunks_meet() {
    let here = EvalContext::new(0, at(2, -1, 5));
    assert_eq!(here.world_pos(0, 0, 0), at(64, -32, 160));
    assert_eq!(here.world_pos(31, 31, 31), at(95, -1, 191));
    let next = EvalContext::new(0, at(3, -1, 5));
    assert_eq!(next.world_pos(0, 4, 9), at(96, -28, 169));
    assert_eq!(here.world_pos(0, 40, 0), at(64, 8, 160));
}

#[test]
fn draws_follow_the_stream() {
    let mut a = SplitMix64::new(0);
    let mut b = SplitMix64::new(0);
    assert_eq!(a.next_u64(), 0xe220_a839_7b1d_cdaf);
    assert_eq!(b.next_fraction(), 0xe2_20a8);
    assert_eq!(a.next_u64(), mix64(0x9E37_79B9_7F4A_7C15));
    let pts = seed_points(5, &vec![(single(1.0), single(2.0)), (single(3.0), single(4.0))]);
    assert_eq!(pts.len(), 2);
    assert_eq!((pts[1].lx, pts[1].lz, pts[1].surface_y), (single(3.0), single(4.0), None));
    assert_eq!(pts[0].seed, point_seed(5, 0));
    assert_eq!(point_seed(5, 0), mix64(5));
    assert_ne!(pts[0].seed, pts[1].seed);
    let ctx = EvalContext::new(42, at(0, 0, 0));
    assert_eq!(draw_in_cell(&ctx, 7, single(0.0), -3, 5), None);
    let mut stream = SplitMix64::new(ctx.world_cell_seed(7, -3, 5));
    stream.next_fraction();
    let draw = draw_in_cell(&ctx, 7, single(1.0), -3, 5).unwrap();
    assert_eq!(draw.along, stream.next_fraction());
    assert_eq!(draw.across, stream.next_fraction());
    assert_eq!(draw.seed, stream.next_u64());
}

#[test]
fn numbers_compare_and_round_as_single_precision() {
    assert!(single(1.5).ge(single(1.5)));
    assert!(single(0.0).ge(single(-0.0)));
    assert!(!single(-1.0).ge(single(0.0)));
    assert!(!single(f32::NAN).ge(single(f32::NAN)));
    assert!(single(1e-30).is_positive());
    assert!(!single(-0.0).is_positive());
    assert!(!single(f32::NAN).is_positive());
    for v in [0.0f32, 0.4, 0.5, 1.5, -0.5, -1.5, -2.5, 7.0, 1e9, -1e9, 3e9, -3e9, f32::NAN] {
        assert_eq!(single(v).round(), v.round() as i32, "rounding {v}");
        assert_eq!(single(v).ceil(), v.ceil() as i32, "ceiling of {v}");
    }
}

#[test]
fn fractions_and_integers_are_held_exactly() {
    for k in [0u32, 1, 2, 3, 0x80_0000, 0x80_0001, 0xff_ffff] {
        assert_eq!(single_of_fraction(k), single(k as f32 / 16_777_216.0), "fraction {k}");
    }
    for n in [0i32, 1, -1, 255, -4096, 16_777_215, 16_777_217, i32::MAX, i32::MIN] {
        assert_eq!(single_of_int(n), single(n as f32), "integer {n}");
    }
    for (k, length) in [(0u32, 5i32), (0xff_ffff, 5), (0x80_0000, 48), (0x12_3456, 1_000_003)] {
        let expect = (k as f32 / 16_777_216.0 * length as f32) as i64;
        assert_eq!(share(k, length), expect, "share {k} of {length}");
    }
    for length in [16_777_215i32, 16_777_217, 16_777_219, 33_554_435, 1_000_000_007, i32::MAX] {
        let most = share(0xff_ffff, length);
        assert!(0 < most && most < length as i64, "a share of {length} is {most}");
    }
}

#[test]
fn lists_are_sorted_without_repetition() {
    assert_eq!(sorted_distinct(&vec![5, 1, 5, 3, 1]), vec![1, 3, 5]);
    assert_eq!(sorted_distinct(&vec![]), Vec::<u32>::new());
}

#[test]
fn dictionary_order_is_that_of_strings() {
    let words = ["", "a", "aa", "ab", "b", "barn", "zone"];
    for (i, a) in words.iter().enumerate() {
        for (j, b) in words.iter().enumerate() {
            assert_eq!(is_text_before(a, b), i < j, "{a:?} before {b:?}");
        }
    }
}

#[test]
fn bands_assign_what_they_can_assign() {
    let bands = [single(-0.5), single(0.5)];
    assert_eq!(quantize_one(single(-1.0), &bands), 0);
    assert_eq!(quantize_one(single(-0.5), &bands), 1);
    assert_eq!(quantize_one(single(0.5), &bands), 2);
    assert_eq!(quantize_one(single(f32::NAN), &bands), 0);
    assert_eq!(band_id(1, &[7, 9]), 9);
    assert_eq!(band_id(2, &[7, 9]), 2);
    assert_eq!(assignable_ids(2, &[7, 9]), vec![2, 7, 9]);
    assert_eq!(assignable_ids(0, &[]), vec![0]);
    let mut field = ColumnField::filled(single(-1.0));
    field.set(3, 4, single(0.6));
    let ids = quantize_bands(&field, &bands, &[7, 9]);
    assert_eq!(ids.get(0, 0), 7);
    assert_eq!(ids.get(3, 4), 2);
}

#[test]
fn fields_map_and_combine_cell_by_cell() {
    let negated = |v: Single| Single::from_bits(v.to_bits() ^ 0x8000_0000);
    let mut a = ScalarField::filled(single(2.0));
    a.set(1, 2, 3, single(5.0));
    let b = ScalarField::filled(single(3.0));
    assert_eq!(a.map(negated).get(1, 2, 3), single(-5.0));
    let larger = |x: Single, y: Single| if x.ge(y) { x } else { y };
    assert_eq!(a.zip_with(&b, larger).get(1, 2, 3), single(5.0));
    assert_eq!(a.zip_with(&b, larger).get(0, 0, 0), single(3.0));
    let mut c = ColumnField::filled(single(2.0));
    c.set(4, 5, single(9.0));
    assert_eq!(c.map(negated).get(4, 5), single(-9.0));
    assert_eq!(c.zip_with(&ColumnField::zeroed(), larger).get(4, 5), single(9.0));
}

#[test]
fn layers_lie_below_the_surface() {
    let mut density = ScalarField::filled(single(-1.0));
    for y in 0..10 {
        density.set(4, y, 6, single(1.0));
    }
    let bands = [(MaterialId(6), 1), (MaterialId(3), 3)];
    let m = fill_layers(&density, &bands, MaterialId(1));
    assert_eq!(m.get(4, 9, 6), MaterialId(6));
    assert_eq!(m.get(4, 8, 6), MaterialId(3));
    assert_eq!(m.get(4, 6, 6), MaterialId(3));
    assert_eq!(m.get(4, 5, 6), MaterialId(1));
    let terrain = fill_terrain(&density, &m);
    assert_eq!(terrain.get(4, 9, 6), Voxel::cube(MaterialId(6)));
    assert_eq!(terrain.get(4, 10, 6), Voxel::empty());
    assert_eq!(terrain.get(0, 0, 0), Voxel::empty());
}

#[test]
fn air_falls_back_to_the_second_material() {
    let mut first = ChunkBuffer::uniform(MaterialId(0));
    first.set(1, 1, 1, MaterialId(4));
    let second = ChunkBuffer::uniform(MaterialId(9));
    let out = fill_fallback(&first, &second);
    assert_eq!(out.get(1, 1, 1), MaterialId(4));
    assert_eq!(out.get(0, 1, 1), MaterialId(9));
}

#[test]
fn spread_columns_do_not_vary_with_height() {
    let mut columns = ColumnField::zeroed();
    columns.set(7, 8, single(2.5));
    let field = fill_spread(&columns);
    for y in 0..CHUNK_DIM {
        assert_eq!(field.get(7, y, 8), single(2.5));
        assert_eq!(field.get(8, y, 7), single(0.0));
    }
}

fn painted(layer_id: u16, cells: &[(usize, u8)]) -> PaintLayer {
    let bare = PaintTexel { species: 0, density: 0, tint: 0, flags: 0 };
    let mut texels = vec![bare; 1024];
    for (i, species) in cells {
        texels[*i] = PaintTexel { species: *species, density: 9, tint: 0, flags: 0 };
    }
    PaintLayer { layer_id, texels }
}

fn instance(prefab_id: u32, x: u8) -> FoliageInstance {
    FoliageInstance {
        anchor: [x, 3, 0],
        sub_offset: [0, 0, 0],
        rotation_y: 0,
        scale_variant: 0,
        prefab_id,
        stable_id: x as u64,
        flags: 0,
    }
}

#[test]
fn merging_foliage_overlays_paint_and_keeps_instances() {
    let a = || ChunkFoliage {
        paint: vec![painted(1, &[(0, 4)])],
        scatter: vec![ScatterBucket { type_id: 2, instances: vec![instance(7, 1)] }],
    };
    let b = || ChunkFoliage {
        paint: vec![painted(1, &[(5, 6)]), painted(3, &[(9, 1)])],
        scatter: vec![
            ScatterBucket { type_id: 2, instances: vec![instance(7, 2)] },
            ScatterBucket { type_id: 8, instances: vec![instance(1, 3)] },
        ],
    };
    let mut ab = a();
    ab.merge(b());
    assert_eq!(ab.paint.len(), 2);
    assert_eq!(ab.paint[0].texels[0].species, 4);
    assert_eq!(ab.paint[0].texels[5].species, 6);
    assert_eq!(ab.paint[0].texels[6].density, 0);
    assert_eq!(ab.scatter.len(), 2);
    assert_eq!(ab.scatter[0].instances, vec![instance(7, 1), instance(7, 2)]);
    assert_eq!(ab.scatter[1].instances, vec![instance(1, 3)]);
    let mut ba = b();
    ba.merge(a());
    assert_eq!(ab.paint[0].texels, ba.paint[0].texels, "disjoint paint overlays either way");
}

#[test]
fn instances_in_one_cell_have_their_own_identities() {
    assert_eq!(stable_instance_id(9, -4, 15, 200, 7, 0), 0xceca_3373_c1c2_829f);
    assert_eq!(stable_instance_id(9, -4, 15, 200, 7, 1), 0xa9db_85ac_f2a0_2ff9);
}

fn point(x: u8, z: u8) -> DetailPoint {
    DetailPoint { x, z, offset_x: 0, offset_z: 0, surface_y: None }
}

#[test]
fn foliage_stands_on_acceptable_ground_of_its_biome() {
    let mut terrain = ChunkBuffer::uniform(Voxel::empty());
    for z in 0..32 {
        for x in 0..32 {
            for y in 0..if x < 16 { 4 } else { 20 } {
                terrain.set(x, y, z, Voxel::cube(MaterialId(if z < 8 { 2 } else { 6 })));
            }
        }
    }
    let mut biomes = IdColumn::zeroed();
    biomes.set(3, 20, 5);
    let ground = DetailGround {
        ctx: EvalContext::new(1, at(0, 0, 0)),
        terrain: &terrain,
        biomes: Some(&biomes),
        target: 5,
    };
    assert_eq!(ground.surface_y(3, 20), Some(3));
    assert_eq!(ground.surface_y(20, 20), Some(19));
    let filter = SurfaceFilterParams {
        max_slope: single(1.0),
        min_height: single(0.0),
        max_height: single(64.0),
        materials: vec![MaterialId(6)],
    };
    let points = vec![point(3, 20), point(15, 20), point(3, 2), point(25, 25)];
    let kept = ground.surface_filter(&points, &filter);
    assert_eq!(kept.len(), 2, "the cliff and the wrong material are refused");
    assert_eq!((kept[0].x, kept[0].surface_y), (3, Some(3)));
    assert_eq!((kept[1].x, kept[1].surface_y), (25, Some(19)));
    let masked = ground.biome_mask(&points, 5);
    assert_eq!(masked, vec![point(3, 20)]);
    let paint = ground.paint(&PaintDensityParams {
        layer_id: 2,
        species: 1,
        density: 200,
        tint: 3,
    });
    assert_eq!(paint.layer_id, 2);
    assert_eq!(paint.texels.iter().filter(|t| t.density == 200).count(), 1);
    assert_eq!(paint.texels[3 + 20 * 32].tint, 3);
    let high = DetailGround { ctx: EvalContext::new(1, at(0, 9, 0)), ..ground };
    assert_eq!(ground.draw_species(&points, 4), high.draw_species(&points, 4));
}

#[test]
fn the_nearest_other_biome_is_found() {
    let radius = 3usize;
    let width = 32 + 2 * radius;
    let mut grid = vec![0u16; width * width];
    // One column of biome 7 at chunk column (10, 4).
    grid[(10 + radius) + (4 + radius) * width] = 7;
    let scan = scan_borders(&grid, radius as i32);
    assert_eq!(scan.distance_squared[10 + 4 * 32], 1);
    assert_eq!(scan.neighbor.get(10, 4), 0);
    assert_eq!(scan.distance_squared[12 + 5 * 32], 5);
    assert_eq!(scan.neighbor.get(12, 5), 7);
    assert_eq!(scan.distance_squared[13 + 4 * 32], 9);
    assert_eq!(scan.neighbor.get(13, 4), 0, "no nearer than the radius");
}

#[test]
fn biomes_compose_column_by_column() {
    let mut biomes = IdColumn::zeroed();
    biomes.set(1, 0, 4);
    biomes.set(2, 0, 9);
    assert_eq!(present_biomes(Some(&biomes)), vec![0, 4, 9]);
    assert_eq!(present_biomes(None), vec![0]);
    assert_eq!(needed_biomes(Some(&biomes), None), vec![0, 4, 9]);

    let solid = ScalarField::filled(single(1.0));
    let cells = ChunkBuffer::uniform(MaterialId(3));
    let cake = BiomeMaterialRule::Layer { bands: vec![(MaterialId(6), 2)], fill: MaterialId(1) };
    let field = BiomeMaterialRule::Field;
    let layers = vec![
        TerrainLayer { id: 0, density: &solid, material: &cells, rule: &cake },
        TerrainLayer { id: 4, density: &solid, material: &cells, rule: &field },
    ];
    assert!(matches!(blend_of(&layers, Some(&biomes), None, 2, 0), ColumnBlend::Air));
    assert!(matches!(
        blend_of(&layers, Some(&biomes), None, 1, 0),
        ColumnBlend::Own { layer: 1 }
    ));
    assert_eq!(continue_above(&cake, &vec![single(1.0), single(1.0), single(1.0)]), 2);
    assert_eq!(continue_above(&cake, &vec![single(1.0), single(-1.0), single(1.0)]), 1);
    assert_eq!(continue_above(&field, &vec![single(1.0)]), 0);
    assert!(look_higher(&cake, &vec![]));
    assert!(look_higher(&cake, &vec![single(1.0)]));
    assert!(!look_higher(&cake, &vec![single(-1.0)]), "the surface was found");
    assert!(!look_higher(&cake, &vec![single(1.0), single(1.0)]), "the bands reach no higher");
    assert!(!look_higher(&field, &vec![]));

    let mut above = vec![Vec::new(); 1024];
    above[0] = vec![single(1.0), single(-1.0)];
    let out = composite_terrain(&layers, Some(&biomes), &solid, &above);
    assert_eq!(out.get(0, 31, 0).material, MaterialId(6));
    assert_eq!(out.get(0, 30, 0).material, MaterialId(1), "one cell higher up, buried two deep");
    assert_eq!(out.get(3, 30, 0).material, MaterialId(6));
    assert_eq!(out.get(1, 31, 0).material, MaterialId(3));
    assert_eq!(out.get(2, 31, 0), Voxel::empty());
    assert_eq!(out.get(0, 31, 0).shape, ShapeId::Cube);

    let mask = ScalarField::filled(single(1.0));
    let ponds = composite_fluid(
        &vec![FluidLayer { id: 4, mask: &mask, level: single(12.0) }],
        Some(&biomes),
    );
    assert_eq!(ponds.get(1, 0), single(12.0));
    assert_ne!(ponds.get(0, 0), single(12.0));
}

#[test]
fn densities_fade_across_borders_and_go_on_above() {
    let mut biomes = IdColumn::zeroed();
    biomes.set(5, 5, 1);
    let width = 32 + 2 * 2;
    let mut grid = vec![0u16; width * width];
    grid[(5 + 2) + (5 + 2) * width] = 1;
    let border = scan_borders(&grid, 2);
    let solid = ScalarField::filled(single(1.0));
    let hollow = ScalarField::filled(single(-1.0));
    let cells = ChunkBuffer::uniform(MaterialId(0));
    let cake = BiomeMaterialRule::Layer { bands: vec![(MaterialId(6), 2)], fill: MaterialId(1) };
    let plain = BiomeMaterialRule::Uniform(MaterialId(9));
    let layers = vec![
        TerrainLayer { id: 0, density: &solid, material: &cells, rule: &cake },
        TerrainLayer { id: 1, density: &hollow, material: &cells, rule: &plain },
    ];
    // Next to a border the other biome wins; the ground ends one cell over the chunk.
    let blend = |own: Single, other: Single, d2: u32| if d2 <= 1 { other } else { own };
    let above = |layer: usize, _: usize, y: usize, _: usize| {
        if layer == 1 || y > 40 {
            None
        } else {
            Some(single(if y == 32 { 1.0 } else { -1.0 }))
        }
    };
    let out = compose_terrain(&layers, Some(&biomes), Some(&border), &blend, &above);
    assert_eq!(out.get(5, 0, 5), Voxel::cube(MaterialId(9)), "solid by its neighbor's density");
    assert_eq!(out.get(4, 0, 5), Voxel::empty(), "hollow by its neighbor's density");
    assert_eq!(out.get(0, 31, 0).material, MaterialId(6));
    assert_eq!(out.get(0, 30, 0).material, MaterialId(1), "two deep below the true surface");
    let closed = |_: usize, _: usize, _: usize, _: usize| None;
    let out = compose_terrain(&layers, Some(&biomes), Some(&border), &blend, &closed);
    assert_eq!(out.get(0, 30, 0).material, MaterialId(6), "the top of the chunk is the surface");
}

#[test]
fn columns_are_located_and_surveyed() {
    assert_eq!(locate_column(0), (0, 0));
    assert_eq!(locate_column(-1), (-1, 31));
    assert_eq!(locate_column(i32::MIN), (-0x400_0000, 0));
    assert_eq!(locate_column(95), (2, 31));
    let samples = vec![Some(single(1.0)), None, Some(single(0.5)), Some(single(-1.0))];
    assert_eq!(survey_surface(&samples), Some(2));
    assert_eq!(survey_surface(&vec![Some(single(0.0)), None]), None);
    assert_eq!(column_height(-1, 2), 96);
    assert_eq!(column_height(3, 3), 32);
    let probe = probe_column(1, 2, -1, &samples).unwrap();
    assert_eq!((probe.zone_id, probe.biome_id, probe.surface_y), (1, 2, -30));
    assert!(probe_column(1, 2, -1, &Vec::new()).is_none());
    let mut tall = vec![Some(single(-1.0)); 96];
    assert_eq!(choose_chunk(&tall, -1, 2), -1);
    tall[70] = Some(single(1.0));
    assert_eq!(choose_chunk(&tall, -1, 2), 1);
}

#[test]
fn operators_take_their_declared_inputs_as_listed() {
    let add = NodeKind::Add(AddParams::default());
    let lerp = NodeKind::Lerp(LerpParams::default());
    assert_eq!(operation_of(&add).unwrap().inputs(), 2);
    assert_eq!(operation_of(&lerp).unwrap().inputs(), 3);
    assert!(operation_of(&NodeKind::WorldPos(WorldPosParams::default())).is_none());
    let source = noise_source_of(&NodeKind::Simplex2D(NoiseParams::default())).unwrap();
    assert_eq!((source.family, source.flat), (NoiseFamily::Simplex, true));
    assert!(noise_source_of(&add).is_none());
}

#[test]
fn kinds_say_what_they_are_made_of() {
    let layer = NodeKind::Layer(LayerParams {
        bands: vec![(MaterialId(6), 1), (MaterialId(3), 3)],
        fill: MaterialId(1),
    });
    assert_eq!(layer.material_refs(), vec![MaterialId(6), MaterialId(3), MaterialId(1)]);
    let flat = NodeKind::FindFlat(FindFlatParams {
        on_materials: vec![MaterialId(2)],
        ..FindFlatParams::default()
    });
    assert_eq!(flat.material_refs(), vec![MaterialId(2)]);
    assert!(NodeKind::Add(AddParams::default()).material_refs().is_empty());
    assert!(NodeKind::SurfaceNoise(NoiseParams::default()).is_column_kind());
    assert!(NodeKind::PlaceTree(PlaceTreeParams::default()).is_column_kind());
    assert!(NodeKind::Constant(ConstantParams::default()).is_column_kind());
    assert!(!NodeKind::Perlin2D(NoiseParams::default()).is_column_kind());
}

fn join(g: &mut Graph, from: nodegraph::slots::NodeId, to: nodegraph::slots::NodeId, pin: u16) {
    g.connect(PinRef::new(from, 0), PinRef::new(to, pin)).unwrap();
}

#[test]
fn world_parameters_override_defaults() {
    let mut g = Graph::new();
    let node = g.add_node(NodeKind::WorldParam(WorldParamParams {
        name: "sea".to_string(),
        default: single(2.0),
    }));
    let params: WorldParams =
        ScalarParams::from_entries(vec![("sea".to_string(), single(40.0))]);
    assert_eq!(params.get("sea"), Some(single(40.0)));
    assert_eq!(params.get_or("land", single(1.0)), single(1.0));
    let ctx = EvalContext::new(0, at(0, 0, 0));
    let mut e = Evaluator::new(&g, ctx).with_world_params(&params);
    assert!(e.evaluate().unwrap().is_none());
    let field = e.cache().get(node).unwrap().as_scalar().unwrap();
    assert_eq!(field.get(9, 9, 9), single(40.0));
    assert_eq!(e.cache().get(node).unwrap().kind_name(), "scalar");
    assert!(e.cache().get(node).unwrap().as_material().is_none());
    assert!(e.cache().get(node).unwrap().as_terrain().is_none());
}

/// What evaluating a graph of one node comes to.
fn alone(kind: NodeKind) -> EvalError {
    let mut g = Graph::new();
    g.add_node(kind);
    let mut e = Evaluator::new(&g, EvalContext::new(0, at(0, 0, 0)));
    match e.evaluate() {
        Err(error) => error,
        Ok(_) => panic!("the graph must be refused"),
    }
}

#[test]
fn evaluation_says_what_is_wrong() {
    assert!(matches!(alone(NodeKind::Add(AddParams::default())), EvalError::InvalidGraph(2)));
    assert!(matches!(
        alone(NodeKind::PlaceTree(PlaceTreeParams::default())),
        EvalError::MissingInput { pin: 0, .. }
    ));
    assert!(matches!(
        alone(NodeKind::PlaceStructure(PlaceStructureParams::default())),
        EvalError::WrongInputType { expected: "terrain", got: "declaration", .. }
    ));
    assert!(matches!(
        alone(NodeKind::SurfaceNoise(NoiseParams::default())),
        EvalError::WrongGraphDomain { .. }
    ));
    let mut g = Graph::new();
    let c = g.add_node(NodeKind::Constant(ConstantParams::default()));
    let out = g.add_node(NodeKind::Output(OutputParams::default()));
    join(&mut g, c, out, 0);
    let e = Evaluator::new(&g, EvalContext::new(0, at(0, 0, 0)));
    assert!(matches!(e.fill_node(out), Err(EvalError::MissingOutput(n)) if n == c));
    let columns = ColumnEvaluator::new(&g, EvalContext::new(0, at(0, 0, 0)));
    assert!(matches!(columns.fill_node(c), Err(EvalError::WrongGraphDomain { node }) if node == c));
}

#[test]
fn references_that_resolve_to_nothing_are_refused() {
    assert!(matches!(
        alone(NodeKind::GraphRef(GraphRefParams {
            target: GraphRefTarget::World,
            ..GraphRefParams::default()
        })),
        EvalError::InvalidGraph(_) | EvalError::UnresolvedGraphRef { .. }
    ));
    assert!(matches!(
        alone(NodeKind::LibraryRef(LibraryRefParams::default())),
        EvalError::InvalidGraph(_) | EvalError::UnresolvedLibraryRef { .. }
    ));
    assert!(matches!(
        alone(NodeKind::PlaceBlueprint(PlaceBlueprintParams::default())),
        EvalError::InvalidGraph(_) | EvalError::UnresolvedBlueprint { .. }
    ));
}

fn pillar(name: &str) -> ResolvedBlueprint {
    ResolvedBlueprint {
        name: name.to_string(),
        anchor: at(0, 0, 0),
        cells: vec![BlueprintCell { at: at(0, 0, 0), voxel: Voxel::cube(MaterialId(2)) }],
        destruction: DestructionPolicy::Destroy,
        protected_volume: false,
    }
}

fn zone_declaring(structures: &[(&str, u32)]) -> Graph {
    let mut g = Graph::of_kind(GraphKind::Zone);
    for (name, seed) in structures {
        g.add_node(NodeKind::PlaceStructure(PlaceStructureParams {
            blueprint: name.to_string(),
            seed: *seed,
            resolved: Some(pillar(name)),
            ..PlaceStructureParams::default()
        }));
    }
    g
}

#[test]
fn sources_come_in_the_order_of_their_content() {
    let names = |world: WorldEvaluator| -> Vec<(Vec<u16>, u32, String)> {
        world
            .structure_sources()
            .unwrap()
            .iter()
            .map(|s| (s.zones.clone(), s.seed, s.payload.name().to_string()))
            .collect()
    };
    let biome = || Graph::new();
    let one = WorldEvaluator::new(biome()).with_zones(vec![
        (3, zone_declaring(&[("well", 2), ("arch", 1)])),
        (1, zone_declaring(&[("tower", 9)])),
    ]);
    let other = WorldEvaluator::new(biome()).with_zones(vec![
        (1, zone_declaring(&[("tower", 9)])),
        (3, zone_declaring(&[("arch", 1), ("well", 2)])),
    ]);
    let expect = vec![
        (vec![1], 9, "tower".to_string()),
        (vec![3], 1, "arch".to_string()),
        (vec![3], 2, "well".to_string()),
    ];
    assert_eq!(names(one), expect);
    assert_eq!(names(other), expect);
    let mut g = zone_declaring(&[]);
    let node = g.add_node(NodeKind::PlaceStructure(PlaceStructureParams::default()));
    let unresolved = WorldEvaluator::new(biome()).with_zone(g);
    assert!(matches!(
        unresolved.structure_sources(),
        Err(EvalError::UnresolvedBlueprint { node: n }) if n == node
    ));
}

#[test]
fn zones_without_a_graph_are_reported() {
    let mut world = Graph::of_kind(GraphKind::World);
    let noise = world.add_node(NodeKind::SurfaceNoise(NoiseParams::default()));
    let out = world.add_node(NodeKind::WorldOutput(WorldOutputParams {
        zone_bands: vec![single(0.0), single(0.5)],
        zone_ids: vec![4, 2],
    }));
    join(&mut world, noise, out, 0);
    let zone = || {
        let mut g = Graph::of_kind(GraphKind::Zone);
        let n = g.add_node(NodeKind::SurfaceNoise(NoiseParams::default()));
        let o = g.add_node(NodeKind::ZoneOutput(ZoneOutputParams::default()));
        join(&mut g, n, o, 0);
        g
    };
    let none = WorldEvaluator::new(Graph::new()).with_world(world.clone());
    assert_eq!(none.assignable_zone_ids(), vec![2, 4]);
    assert_eq!(none.unimplemented_zones(), Vec::<u16>::new());
    let some = WorldEvaluator::new(Graph::new()).with_world(world).with_zones(vec![(4, zone())]);
    assert_eq!(some.unimplemented_zones(), vec![2]);
}

#[test]
fn columns_fall_back_to_biome_zero_where_no_zone_answers() {
    let world = WorldEvaluator::new(Graph::new()).with_zones(vec![(5, Graph::new())]);
    let resolved = world.resolve_columns(&ColumnCache::new(), &vec![ColumnCache::new()]);
    assert!(resolved.zone_ids.is_none());
    let biomes = resolved.biome_ids.unwrap();
    assert!(biomes.data().iter().all(|&b| b == 0));
}

#[test]
fn a_biome_without_a_density_terminal_has_no_layer() {
    let mut g = Graph::new();
    let d = g.add_node(NodeKind::Constant(ConstantParams { value: single(1.0) }));
    let m = g.add_node(NodeKind::ConstantMaterial(ConstantMaterialParams {
        material: MaterialId(8),
    }));
    let bare = WorldEvaluator::new(g.clone());
    assert_eq!(bare.density_source(0), None);
    let out = g.add_node(NodeKind::DensityOutput(DensityOutputParams::default()));
    join(&mut g, d, out, 0);
    join(&mut g, m, out, 1);
    assert!(bare.world.boundary.inputs.is_empty() && bare.world.boundary.outputs.is_empty());
    let whole = WorldEvaluator::new(g);
    assert_eq!(whole.density_source(0), Some(d));
    assert!(matches!(
        whole.biomes[0].material_rule,
        BiomeMaterialRule::Uniform(MaterialId(8))
    ));
}
