//! Voxels: slopes, scanning, placing, columns and layering.
use nodegraph::chunk::{ChunkBuffer, CHUNK_DIM};
use nodegraph::column::ColumnField;
use nodegraph::column_cache::{ColumnCache, ColumnOutput};
use nodegraph::graph::Graph;
use nodegraph::heightmap::ascii_heightmap;
use nodegraph::library_kernel::{exposure_layering, surface_layering};
use nodegraph::node::NodeKind;
use nodegraph::params::{ConstantParams, FindFlatParams};
use nodegraph::place::place_blueprints;
use nodegraph::river::river_links;
use nodegraph::scalar::Single;
use nodegraph::scan::{find_flat, topmost_solid};
use nodegraph::scatter::ScatterPoint;
use nodegraph::slope_refine::refine_chunk;
use nodegraph::voxel::{
    BlueprintCell, DestructionPolicy, IVec3, MaterialId, ResolvedBlueprint, ShapeId, Voxel,
};
use std::sync::Arc;

const N: usize = CHUNK_DIM;

fn single(v: f32) -> Single {
    Single::from_bits(v.to_bits())
}

fn cube_at(buf: &mut ChunkBuffer<Voxel>, x: usize, y: usize, z: usize) {
    buf.set(x, y, z, Voxel::cube(MaterialId(1)));
}

#[test]
fn empty_passes_through() {
    let buf: ChunkBuffer<Voxel> = ChunkBuffer::uniform(Voxel::empty());
    let out = refine_chunk(&buf);
    for z in 0..N {
        for y in 0..N {
            for x in 0..N {
                assert_eq!(out.get(x, y, z), Voxel::empty());
            }
        }
    }
}

#[test]
fn interior_cube_stays_cube() {
    // A block of cubes; the center cube has six solid neighbors.
    let mut buf: ChunkBuffer<Voxel> = ChunkBuffer::uniform(Voxel::empty());
    for dz in 0..3 {
        for dy in 0..3 {
            for dx in 0..3 {
                cube_at(&mut buf, 5 + dx, 5 + dy, 5 + dz);
            }
        }
    }
    let out = refine_chunk(&buf);
    let v = out.get(6, 6, 6);
    assert_eq!(v.shape, ShapeId::Cube);
}

#[test]
fn isolated_floating_cube_stays_cube() {
    let mut buf: ChunkBuffer<Voxel> = ChunkBuffer::uniform(Voxel::empty());
    cube_at(&mut buf, 10, 10, 10);
    let out = refine_chunk(&buf);
    assert_eq!(out.get(10, 10, 10).shape, ShapeId::Cube);
}

#[test]
fn north_facing_slope() {
    let mut buf: ChunkBuffer<Voxel> = ChunkBuffer::uniform(Voxel::empty());
    cube_at(&mut buf, 10, 5, 5); // candidate
    cube_at(&mut buf, 10, 5, 4); // -Z
    cube_at(&mut buf, 11, 5, 5); // +X
    cube_at(&mut buf, 9, 5, 5); // -X
    cube_at(&mut buf, 10, 4, 5); // -Y
    cube_at(&mut buf, 10, 4, 6); // below the air side

    let out = refine_chunk(&buf);
    assert_eq!(
        out.get(10, 5, 5).shape,
        ShapeId::SlopeN,
        "candidate cell should classify as SlopeN",
    );
    assert_eq!(out.get(10, 5, 5).material, MaterialId(1));
}

#[test]
fn outer_corner_at_peak() {
    let mut buf: ChunkBuffer<Voxel> = ChunkBuffer::uniform(Voxel::empty());
    for z in 4..6 {
        for x in 10..12 {
            cube_at(&mut buf, x, 4, z);
        }
    }
    cube_at(&mut buf, 10, 5, 4);
    cube_at(&mut buf, 11, 5, 4);
    cube_at(&mut buf, 10, 5, 5);
    cube_at(&mut buf, 11, 5, 5);
    let out = refine_chunk(&buf);
    assert_eq!(out.get(11, 5, 5).shape, ShapeId::OuterCornerNW);
}

#[test]
fn inner_corner_in_concave_bend() {
    let mut buf: ChunkBuffer<Voxel> = ChunkBuffer::uniform(Voxel::empty());
    for z in 4..7 {
        for x in 9..12 {
            cube_at(&mut buf, x, 4, z);
        }
    }
    cube_at(&mut buf, 10, 5, 5);
    cube_at(&mut buf, 11, 5, 5); // +X
    cube_at(&mut buf, 9, 5, 5); // -X
    cube_at(&mut buf, 10, 5, 6); // +Z
    cube_at(&mut buf, 10, 5, 4); // -Z
    cube_at(&mut buf, 11, 6, 6);
    cube_at(&mut buf, 11, 6, 4);
    cube_at(&mut buf, 9, 6, 6);
    // (9, 6, 4) is air.
    let out = refine_chunk(&buf);
    assert_eq!(out.get(10, 5, 5).shape, ShapeId::InnerCornerNW);
}

fn flat_terrain(top: i32, mat: MaterialId) -> ChunkBuffer<Voxel> {
    let mut b: ChunkBuffer<Voxel> = ChunkBuffer::uniform(Voxel::empty());
    for z in 0..CHUNK_DIM {
        for x in 0..CHUNK_DIM {
            for y in 0..=(top as usize) {
                b.set(x, y, z, Voxel::cube(mat));
            }
        }
    }
    b
}

fn pt(lx: f32, lz: f32) -> ScatterPoint {
    ScatterPoint { lx: single(lx), lz: single(lz), surface_y: None, seed: 0 }
}

#[test]
fn flat_ground_passes_and_sets_surface() {
    let t = flat_terrain(10, MaterialId(6));
    let out = find_flat(&t, &[pt(16.0, 16.0)], &FindFlatParams::default());
    assert_eq!(out.len(), 1);
    assert_eq!(out[0].surface_y, Some(10));
    assert_eq!(topmost_solid(&t, 3, 4), Some(10));
}

#[test]
fn wrong_material_rejected() {
    let t = flat_terrain(10, MaterialId(2)); // granite
    let p = FindFlatParams { max_step: 1, on_materials: vec![MaterialId(6)] };
    assert!(find_flat(&t, &[pt(16.0, 16.0)], &p).is_empty());
}

#[test]
fn cliff_edge_rejected() {
    // Tall pillar surrounded by air: its neighbors are empty, so it is not flat.
    let mut t: ChunkBuffer<Voxel> = ChunkBuffer::uniform(Voxel::empty());
    for y in 0..12 {
        t.set(16, y, 16, Voxel::cube(MaterialId(6)));
    }
    assert!(find_flat(&t, &[pt(16.0, 16.0)], &FindFlatParams::default()).is_empty());
}

fn scanned(lx: f32, lz: f32, sy: i32) -> ScatterPoint {
    ScatterPoint { lx: single(lx), lz: single(lz), surface_y: Some(sy), seed: 99 }
}

#[test]
fn blueprint_stamps_and_clips_at_border() {
    let t = flat_terrain(8, MaterialId(6));
    // One-cell blueprint at the origin, anchored at origin.
    let bp = ResolvedBlueprint {
        name: "test".to_string(),
        anchor: IVec3::zero(),
        cells: vec![BlueprintCell { at: IVec3::zero(), voxel: Voxel::cube(MaterialId(2)) }],
        destruction: DestructionPolicy::Destroy,
        protected_volume: false,
    };
    // In-bounds point lands granite at (16, 9, 16).
    let out = place_blueprints(&t, &[scanned(16.0, 16.0, 8)], &bp);
    assert_eq!(out.get(16, 9, 16).material, MaterialId(2));
    // A point outside is fully clipped. The cell at (0, 9, 16) sits above the
    // floor, so it stays air.
    let out2 = place_blueprints(&t, &[scanned(-5.0, 16.0, 8)], &bp);
    assert_eq!(out2.get(0, 9, 16).material, MaterialId(0));
}

#[test]
fn column_field_roundtrips() {
    let mut f = ColumnField::zeroed();
    f.set(3, 5, single(1.5));
    assert_eq!(f.get(3, 5), single(1.5));
    assert_eq!(f.get(0, 0), single(0.0));
    assert_eq!(ColumnField::filled(single(2.0)).get(7, 7), single(2.0));
}

#[test]
fn column_cache_insert_and_get() {
    let mut g = Graph::new();
    let a = g.add_node(NodeKind::Constant(ConstantParams::default()));
    let b = g.add_node(NodeKind::Constant(ConstantParams::default()));

    let mut cache = ColumnCache::new();
    assert!(cache.is_empty());
    cache.insert(a, ColumnOutput::Surface(Arc::new(ColumnField::filled(single(1.0)))));
    assert!(cache.contains(a));
    assert!(!cache.contains(b));
    assert_eq!(cache.get(a).unwrap().as_surface().unwrap().get(0, 0), single(1.0));
    assert_eq!(cache.len(), 1);
}

#[test]
fn surface_layering_walks_the_cake() {
    const GRASS: MaterialId = MaterialId(6);
    const SOIL: MaterialId = MaterialId(3);
    const STONE: MaterialId = MaterialId(1);
    let bands = [(GRASS, 1), (SOIL, 3)];
    assert_eq!(surface_layering(0, &bands, STONE), GRASS); // surface cell
    assert_eq!(surface_layering(1, &bands, STONE), SOIL); // first soil
    assert_eq!(surface_layering(3, &bands, STONE), SOIL); // last soil
    assert_eq!(surface_layering(4, &bands, STONE), STONE); // fill below
}

#[test]
fn exposure_layering_swaps_above_threshold() {
    const ROCK: MaterialId = MaterialId(2);
    const SNOW: MaterialId = MaterialId(5);
    assert_eq!(exposure_layering(ROCK, SNOW, single(0.9), single(0.7)), SNOW); // exposed -> cap
    assert_eq!(exposure_layering(ROCK, SNOW, single(0.7), single(0.7)), SNOW); // at threshold
    assert_eq!(exposure_layering(ROCK, SNOW, single(0.5), single(0.7)), ROCK); // sheltered -> base
}

#[test]
fn heightmap_text_has_one_row_per_line() {
    let levels: Vec<u8> = (0..CHUNK_DIM * CHUNK_DIM).map(|i| (i % 12) as u8).collect();
    let text = ascii_heightmap(&levels);
    assert_eq!(text.len(), (CHUNK_DIM + 1) * CHUNK_DIM);
    assert!(text.starts_with(" .:-=+*#%@@@ ."));
    assert_eq!(text.lines().count(), CHUNK_DIM);
    assert!(text.lines().all(|l| l.len() == CHUNK_DIM));
}

#[test]
fn rivers_flow_to_the_lowest_neighbor() {
    // A slope falling eastwards: every node drains to the east, but the last column.
    let potentials: Vec<Single> =
        (0..9).map(|i| single(10.0 - (i % 3) as f32 - 0.01 * (i / 3) as f32)).collect();
    let links = river_links(&potentials, 3, 3);
    assert!(!links.is_empty());
    for &(from, to) in &links {
        let a = f32::from_bits(potentials[from].to_bits());
        let b = f32::from_bits(potentials[to].to_bits());
        assert!(b < a, "{from} -> {to} does not fall");
    }
    // Nothing is lower than the last node.
    assert!(links.iter().all(|&(from, _)| from != 8));
}
