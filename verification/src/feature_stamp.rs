//! Stamping features into a chunk, and the canopies they anchor.
use crate::chunk::{cell_index, in_window, ChunkBuffer};
use crate::context::{placed_in_world, EvalContext};
use crate::feature::{Feature, FeatureCanopy, FeaturePayload, FeatureSource};
use crate::foliage::{
    bucket_views, instance_id_of, merge_bucket, stable_instance_id, with_bucket, BucketView,
    FoliageInstance, ScatterBucket,
};
use crate::voxel::{turned, BlueprintCell, IVec3, Voxel, Yaw};
use vstd::prelude::*;

verus! {

/// A chunk being stamped: its cells, and which of them are protected.
#[verifier::ext_equal]
pub struct Canvas {
    /// The cells.
    pub cells: Seq<Voxel>,
    /// The cells that nothing later overwrites.
    pub shield: Seq<bool>,
}

/// A chunk in which nothing is protected.
pub open spec fn unprotected(cells: Seq<Voxel>) -> Canvas {
    Canvas { cells, shield: Seq::new(32768, |i: int| false) }
}

/// A chunk with one cell written, unless it is outside or protected.
pub open spec fn written(k: Canvas, x: int, y: int, z: int, v: Voxel, protect: bool) -> Canvas {
    if !in_window(x, y, z) || k.shield[cell_index(x, y, z)] {
        k
    } else {
        Canvas {
            cells: k.cells.update(cell_index(x, y, z), v),
            shield: if protect {
                k.shield.update(cell_index(x, y, z), true)
            } else {
                k.shield
            },
        }
    }
}

/// Where a template cell lands, relative to the first cell of a chunk.
pub open spec fn landing(chunk: IVec3, f: Feature, anchor: IVec3, at: IVec3) -> (int, int, int) {
    let (dx, dy, dz) = turned(f.yaw, at.x - anchor.x, at.y - anchor.y, at.z - anchor.z);
    (
        f.anchor.x + dx - 32 * chunk.x,
        f.anchor.y + dy - 32 * chunk.y,
        f.anchor.z + dz - 32 * chunk.z,
    )
}

/// A chunk with a turned template written, its anchor on the feature's.
pub open spec fn with_template(
    k: Canvas,
    chunk: IVec3,
    f: Feature,
    anchor: IVec3,
    template: Seq<BlueprintCell>,
    protect: bool,
) -> Canvas
    decreases template.len(),
{
    if template.len() == 0 {
        k
    } else {
        let rest = with_template(k, chunk, f, anchor, template.drop_last(), protect);
        let (x, y, z) = landing(chunk, f, anchor, template.last().at);
        written(rest, x, y, z, template.last().voxel, protect)
    }
}

/// A chunk with the world cells of a tree written as wood.
pub open spec fn with_wood(k: Canvas, chunk: IVec3, wood: Voxel, cells: Seq<IVec3>) -> Canvas
    decreases cells.len(),
{
    if cells.len() == 0 {
        k
    } else {
        let rest = with_wood(k, chunk, wood, cells.drop_last());
        let c = cells.last();
        written(
            rest,
            c.x - 32 * chunk.x,
            c.y - 32 * chunk.y,
            c.z - 32 * chunk.z,
            wood,
            false,
        )
    }
}

/// A chunk with one feature written. `wood` are the world cells of its tree.
pub open spec fn with_feature(
    k: Canvas,
    chunk: IVec3,
    sources: Seq<FeatureSource>,
    f: Feature,
    wood: Seq<IVec3>,
) -> Canvas {
    if f.source >= sources.len() {
        k
    } else {
        match sources[f.source as int].payload {
            FeaturePayload::Blueprint(bp) => with_template(
                k,
                chunk,
                f,
                bp.anchor,
                bp.cells@,
                bp.protected_volume,
            ),
            FeaturePayload::Tree(t) => with_wood(k, chunk, Voxel::cube_of(t.wood), wood),
        }
    }
}

/// A chunk with features written in order.
pub open spec fn with_features(
    k: Canvas,
    chunk: IVec3,
    sources: Seq<FeatureSource>,
    features: Seq<Feature>,
    trees: Seq<Vec<IVec3>>,
) -> Canvas
    decreases features.len(),
{
    if features.len() == 0 {
        k
    } else {
        with_feature(
            with_features(k, chunk, sources, features.drop_last(), trees),
            chunk,
            sources,
            features.last(),
            trees[features.len() - 1]@,
        )
    }
}

struct Stamper {
    cells: ChunkBuffer<Voxel>,
    shield: ChunkBuffer<bool>,
}

impl Stamper {
    spec fn canvas(&self) -> Canvas {
        Canvas { cells: self.cells@, shield: self.shield@ }
    }

    fn write(&mut self, x: i64, y: i64, z: i64, v: Voxel, protect: bool)
        ensures
            final(self).canvas() == written(
                old(self).canvas(),
                x as int,
                y as int,
                z as int,
                v,
                protect,
            ),
    {
        if x < 0 || y < 0 || z < 0 || x >= 32 || y >= 32 || z >= 32 {
            return;
        }
        let (lx, ly, lz) = (x as usize, y as usize, z as usize);
        if self.shield.get(lx, ly, lz) {
            return;
        }
        self.cells.set(lx, ly, lz, v);
        if protect {
            self.shield.set(lx, ly, lz, true);
        }
    }

    fn write_template(
        &mut self,
        chunk: IVec3,
        f: &Feature,
        anchor: IVec3,
        template: &Vec<BlueprintCell>,
        protect: bool,
    )
        ensures
            final(self).canvas() == with_template(
                old(self).canvas(),
                chunk,
                *f,
                anchor,
                template@,
                protect,
            ),
    {
        let ghost start = self.canvas();
        let mut c: usize = 0;
        while c < template.len()
            invariant
                c <= template@.len(),
                self.canvas() == with_template(
                    start,
                    chunk,
                    *f,
                    anchor,
                    template@.take(c as int),
                    protect,
                ),
            decreases template@.len() - c,
        {
            let cell = template[c];
            let dx: i64 = cell.at.x as i64 - anchor.x as i64;
            let dy: i64 = cell.at.y as i64 - anchor.y as i64;
            let dz: i64 = cell.at.z as i64 - anchor.z as i64;
            let (tx, tz): (i64, i64) = match f.yaw {
                Yaw::Deg0 => (dx, dz),
                Yaw::Deg90 => (-dz, dx),
                Yaw::Deg180 => (-dx, -dz),
                Yaw::Deg270 => (dz, -dx),
            };
            assert(template@.take(c + 1).drop_last() =~= template@.take(c as int));
            self.write(
                f.anchor.x as i64 + tx - 32 * chunk.x as i64,
                f.anchor.y as i64 + dy - 32 * chunk.y as i64,
                f.anchor.z as i64 + tz - 32 * chunk.z as i64,
                cell.voxel,
                protect,
            );
            c = c + 1;
        }
        assert(template@.take(c as int) =~= template@);
    }

    fn write_wood(&mut self, chunk: IVec3, wood: Voxel, cells: &Vec<IVec3>)
        ensures
            final(self).canvas() == with_wood(old(self).canvas(), chunk, wood, cells@),
    {
        let ghost start = self.canvas();
        let mut c: usize = 0;
        while c < cells.len()
            invariant
                c <= cells@.len(),
                self.canvas() == with_wood(start, chunk, wood, cells@.take(c as int)),
            decreases cells@.len() - c,
        {
            let at = cells[c];
            assert(cells@.take(c + 1).drop_last() =~= cells@.take(c as int));
            self.write(
                at.x as i64 - 32 * chunk.x as i64,
                at.y as i64 - 32 * chunk.y as i64,
                at.z as i64 - 32 * chunk.z as i64,
                wood,
                false,
            );
            c = c + 1;
        }
        assert(cells@.take(c as int) =~= cells@);
    }
}

/// Stamp features into a chunk's terrain, in order, so that a later one wins an
/// overlap, except where an earlier one declared a protected volume. `trees` holds
/// for each feature the world cells of its wood, and is read for trees only.
pub fn stamp_features(
    terrain: &ChunkBuffer<Voxel>,
    ctx: EvalContext,
    sources: &[FeatureSource],
    features: &[Feature],
    trees: &[Vec<IVec3>],
) -> (r: ChunkBuffer<Voxel>)
    requires
        trees@.len() == features@.len(),
    ensures
        r@ == with_features(
            unprotected(terrain@),
            ctx.chunk,
            sources@,
            features@,
            trees@,
        ).cells,
{
    let shield = ChunkBuffer::uniform(false);
    assert(shield@ =~= unprotected(terrain@).shield);
    let mut stamper = Stamper { cells: terrain.clone(), shield };
    let mut k: usize = 0;
    while k < features.len()
        invariant
            k <= features@.len(),
            trees@.len() == features@.len(),
            stamper.canvas() == with_features(
                unprotected(terrain@),
                ctx.chunk,
                sources@,
                features@.take(k as int),
                trees@,
            ),
        decreases features@.len() - k,
    {
        let f = features[k];
        assert(features@.take(k + 1).drop_last() =~= features@.take(k as int));
        if f.source < sources.len() {
            match &sources[f.source].payload {
                FeaturePayload::Blueprint(bp) => {
                    stamper.write_template(
                        ctx.chunk,
                        &f,
                        bp.anchor,
                        &bp.cells,
                        bp.protected_volume,
                    );
                },
                FeaturePayload::Tree(t) => {
                    stamper.write_wood(ctx.chunk, Voxel::cube(t.wood), &trees[k]);
                },
            }
        }
        k = k + 1;
    }
    assert(features@.take(k as int) =~= features@);
    stamper.cells
}

/// Whether a chunk holds a world cell.
pub open spec fn owns(chunk: IVec3, x: int, y: int, z: int) -> bool {
    in_window(x - 32 * chunk.x, y - 32 * chunk.y, z - 32 * chunk.z)
}

/// Whether a chunk holds a world cell. Wood that crosses a border is drawn whole
/// by the chunk that owns its thick end.
pub fn owns_cell(ctx: EvalContext, cell: IVec3) -> (r: bool)
    ensures
        r == owns(ctx.chunk, cell.x as int, cell.y as int, cell.z as int),
{
    let x: i64 = cell.x as i64 - 32 * ctx.chunk.x as i64;
    let y: i64 = cell.y as i64 - 32 * ctx.chunk.y as i64;
    let z: i64 = cell.z as i64 - 32 * ctx.chunk.z as i64;
    0 <= x && x < 32 && 0 <= y && y < 32 && 0 <= z && z < 32
}

/// The canopy that a feature anchors, if its source has one and the chunk holds
/// the cell it stands in.
pub open spec fn canopy_of(ctx: EvalContext, sources: Seq<FeatureSource>, f: Feature) -> Option<
    BucketView,
> {
    if f.source >= sources.len() {
        None
    } else {
        match sources[f.source as int].canopy {
            None => None,
            Some(c) => {
                let y = f.anchor.y + c.y_offset;
                if owns(ctx.chunk, f.anchor.x as int, y, f.anchor.z as int) {
                    Some(
                        BucketView {
                            type_id: c.type_id,
                            instances: seq![canopy_instance(ctx, c, f)],
                        },
                    )
                } else {
                    None
                }
            },
        }
    }
}

/// The instance of a canopy.
pub open spec fn canopy_instance(ctx: EvalContext, c: FeatureCanopy, f: Feature) -> FoliageInstance {
    let y = f.anchor.y + c.y_offset;
    FoliageInstance {
        anchor: [
            (f.anchor.x - 32 * ctx.chunk.x) as u8,
            (y - 32 * ctx.chunk.y) as u8,
            (f.anchor.z - 32 * ctx.chunk.z) as u8,
        ],
        sub_offset: [0i8, 0i8, 0i8],
        rotation_y: (64 * f.yaw.step_count()) as u8,
        scale_variant: 0,
        prefab_id: c.prefab_id,
        stable_id: instance_id_of(
            ctx.world_seed,
            f.anchor.x,
            y as i32,
            f.anchor.z,
            c.prefab_id,
            0,
        ),
        flags: 0,
    }
}

/// The canopies that features anchor in a chunk, one bucket for each type.
pub open spec fn canopies(
    ctx: EvalContext,
    sources: Seq<FeatureSource>,
    features: Seq<Feature>,
) -> Seq<BucketView>
    decreases features.len(),
{
    if features.len() == 0 {
        Seq::empty()
    } else {
        let rest = canopies(ctx, sources, features.drop_last());
        match canopy_of(ctx, sources, features.last()) {
            Some(b) => with_bucket(rest, b),
            None => rest,
        }
    }
}

/// The canopies that features anchor in a chunk, one bucket for each type.
pub fn canopy_instances(
    ctx: EvalContext,
    sources: &[FeatureSource],
    features: &[Feature],
) -> (r: Vec<ScatterBucket>)
    requires
        placed_in_world(ctx.chunk),
    ensures
        bucket_views(r@) == canopies(ctx, sources@, features@),
{
    let mut buckets: Vec<ScatterBucket> = Vec::new();
    assert(bucket_views(buckets@) =~= Seq::empty());
    let mut k: usize = 0;
    while k < features.len()
        invariant
            k <= features@.len(),
            placed_in_world(ctx.chunk),
            bucket_views(buckets@) == canopies(ctx, sources@, features@.take(k as int)),
        decreases features@.len() - k,
    {
        let f = features[k];
        assert(features@.take(k + 1).drop_last() =~= features@.take(k as int));
        if f.source < sources.len() {
            if let Some(c) = sources[f.source].canopy {
                let lx: i64 = f.anchor.x as i64 - 32 * ctx.chunk.x as i64;
                let y: i64 = f.anchor.y as i64 + c.y_offset as i64;
                let ly: i64 = y - 32 * ctx.chunk.y as i64;
                let lz: i64 = f.anchor.z as i64 - 32 * ctx.chunk.z as i64;
                if 0 <= lx && lx < 32 && 0 <= ly && ly < 32 && 0 <= lz && lz < 32 {
                    let stable_id: u64 = stable_instance_id(
                        ctx.world_seed,
                        f.anchor.x,
                        y as i32,
                        f.anchor.z,
                        c.prefab_id,
                        0,
                    );
                    let instance = FoliageInstance {
                        anchor: [lx as u8, ly as u8, lz as u8],
                        sub_offset: [0, 0, 0],
                        rotation_y: f.yaw.steps() * 64,
                        scale_variant: 0,
                        prefab_id: c.prefab_id,
                        stable_id,
                        flags: 0,
                    };
                    assert(instance == canopy_instance(ctx, c, f));
                    let mut instances: Vec<FoliageInstance> = Vec::new();
                    instances.push(instance);
                    assert(instances@ =~= seq![canopy_instance(ctx, c, f)]);
                    merge_bucket(&mut buckets, ScatterBucket { type_id: c.type_id, instances });
                }
            }
        }
        k = k + 1;
    }
    assert(features@.take(k as int) =~= features@);
    buckets
}

} // verus!
