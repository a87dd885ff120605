//! What foliage generation produces for one chunk.
use crate::context::{lemma_odd_factor, mix64, mixed, mixing_is_injective};
use vstd::multiset::Multiset;
use vstd::prelude::*;

verus! {

/// One column of a paint layer.
#[derive(Clone, Copy, PartialEq, Eq, Structural, Hash, Debug)]
pub struct PaintTexel {
    /// Species within the layer. Zero is none.
    pub species: u8,
    /// Density of the foliage.
    pub density: u8,
    /// Tint palette index.
    pub tint: u8,
    /// Flag bits.
    pub flags: u8,
}

impl PaintTexel {
    /// The unpainted column.
    pub open spec fn bare() -> PaintTexel {
        PaintTexel { species: 0, density: 0, tint: 0, flags: 0 }
    }

    /// Whether the column carries foliage.
    pub open spec fn painted(self) -> bool {
        self.species != 0 || self.density != 0
    }
}

impl Default for PaintTexel {
    fn default() -> (r: Self)
        ensures
            r == PaintTexel::bare(),
    {
        PaintTexel { species: 0, density: 0, tint: 0, flags: 0 }
    }
}

/// A map of texels over the columns of a chunk, `x` fastest, then `z`.
#[derive(Clone, PartialEq, Eq, Debug)]
pub struct PaintLayer {
    /// The detail layer painted.
    pub layer_id: u16,
    /// One texel for each column.
    pub texels: Vec<PaintTexel>,
}

/// What a paint layer holds.
#[verifier::ext_equal]
pub struct PaintView {
    /// The detail layer painted.
    pub layer_id: u16,
    /// One texel for each column.
    pub texels: Seq<PaintTexel>,
}

impl PaintLayer {
    /// What the layer holds.
    pub open spec fn view(&self) -> PaintView {
        PaintView { layer_id: self.layer_id, texels: self.texels@ }
    }

    /// Whether there is a texel for every column.
    pub open spec fn full(&self) -> bool {
        self.texels@.len() == 1024
    }
}

/// One placed instance.
#[derive(Clone, Copy, PartialEq, Eq, Debug)]
pub struct FoliageInstance {
    /// Chunk-local cell that owns the instance.
    pub anchor: [u8; 3],
    /// Offset within the cell, in steps of a signed byte per axis.
    pub sub_offset: [i8; 3],
    /// Turn about the vertical axis, in 256ths.
    pub rotation_y: u8,
    /// Scale or variant selector.
    pub scale_variant: u8,
    /// The prefab instanced.
    pub prefab_id: u32,
    /// Identity, the same whenever the chunk is generated again.
    pub stable_id: u64,
    /// Flag bits.
    pub flags: u8,
}

/// The instances of one scatter type.
#[derive(Clone, PartialEq, Eq, Debug)]
pub struct ScatterBucket {
    /// The scatter type.
    pub type_id: u16,
    /// Its instances.
    pub instances: Vec<FoliageInstance>,
}

/// What a scatter bucket holds.
#[verifier::ext_equal]
pub struct BucketView {
    /// The scatter type.
    pub type_id: u16,
    /// Its instances.
    pub instances: Seq<FoliageInstance>,
}

impl ScatterBucket {
    /// What the bucket holds.
    pub open spec fn view(&self) -> BucketView {
        BucketView { type_id: self.type_id, instances: self.instances@ }
    }
}

/// What paint layers hold, in order.
pub open spec fn paint_views(paint: Seq<PaintLayer>) -> Seq<PaintView> {
    Seq::new(paint.len(), |i: int| paint[i]@)
}

/// What scatter buckets hold, in order.
pub open spec fn bucket_views(scatter: Seq<ScatterBucket>) -> Seq<BucketView> {
    Seq::new(scatter.len(), |i: int| scatter[i]@)
}

/// The foliage of one chunk.
#[derive(Clone, PartialEq, Eq, Debug)]
pub struct ChunkFoliage {
    /// Paint layers.
    pub paint: Vec<PaintLayer>,
    /// Scatter buckets.
    pub scatter: Vec<ScatterBucket>,
}

/// Texels with the painted columns of another map written over them.
pub open spec fn overlaid(under: Seq<PaintTexel>, over: Seq<PaintTexel>) -> Seq<PaintTexel> {
    Seq::new(
        under.len(),
        |i: int|
            if over[i].painted() {
                over[i]
            } else {
                under[i]
            },
    )
}

/// Position of the first layer with an id, from `from` on; the length if none.
pub open spec fn layer_position(paint: Seq<PaintView>, layer_id: u16, from: int) -> int
    decreases paint.len() - from,
{
    if from < 0 || from >= paint.len() || paint[from].layer_id == layer_id {
        from
    } else {
        layer_position(paint, layer_id, from + 1)
    }
}

/// Layers with one more merged in: over the first layer of the same id, or at
/// the end.
pub open spec fn with_layer(paint: Seq<PaintView>, layer: PaintView) -> Seq<PaintView> {
    let at = layer_position(paint, layer.layer_id, 0);
    if at < paint.len() {
        paint.update(
            at,
            PaintView {
                layer_id: layer.layer_id,
                texels: overlaid(paint[at].texels, layer.texels),
            },
        )
    } else {
        paint.push(layer)
    }
}

/// Layers with others merged in, in order.
pub open spec fn with_layers(paint: Seq<PaintView>, more: Seq<PaintView>) -> Seq<PaintView>
    decreases more.len(),
{
    if more.len() == 0 {
        paint
    } else {
        with_layer(with_layers(paint, more.drop_last()), more.last())
    }
}

/// Position of the first bucket with a type, from `from` on; the length if none.
pub open spec fn bucket_position(scatter: Seq<BucketView>, type_id: u16, from: int) -> int
    decreases scatter.len() - from,
{
    if from < 0 || from >= scatter.len() || scatter[from].type_id == type_id {
        from
    } else {
        bucket_position(scatter, type_id, from + 1)
    }
}

/// Buckets with one more merged in: behind the first bucket of the same type, or
/// at the end.
pub open spec fn with_bucket(scatter: Seq<BucketView>, bucket: BucketView) -> Seq<BucketView> {
    let at = bucket_position(scatter, bucket.type_id, 0);
    if at < scatter.len() {
        scatter.update(
            at,
            BucketView {
                type_id: bucket.type_id,
                instances: scatter[at].instances + bucket.instances,
            },
        )
    } else {
        scatter.push(bucket)
    }
}

/// Buckets with others merged in, in order.
pub open spec fn with_buckets(scatter: Seq<BucketView>, more: Seq<BucketView>) -> Seq<BucketView>
    decreases more.len(),
{
    if more.len() == 0 {
        scatter
    } else {
        with_bucket(with_buckets(scatter, more.drop_last()), more.last())
    }
}

proof fn lemma_bucket_position(scatter: Seq<BucketView>, type_id: u16, from: int)
    requires
        0 <= from <= scatter.len(),
    ensures
        from <= bucket_position(scatter, type_id, from) <= scatter.len(),
        bucket_position(scatter, type_id, from) < scatter.len() ==> scatter[bucket_position(
            scatter,
            type_id,
            from,
        )].type_id == type_id,
    decreases scatter.len() - from,
{
    if from < scatter.len() && scatter[from].type_id != type_id {
        lemma_bucket_position(scatter, type_id, from + 1);
    }
}

fn overlay(under: &mut Vec<PaintTexel>, over: &Vec<PaintTexel>)
    requires
        old(under)@.len() == 1024,
        over@.len() == 1024,
    ensures
        final(under)@ == overlaid(old(under)@, over@),
{
    let ghost before = under@;
    let mut i: usize = 0;
    while i < 1024
        invariant
            i <= 1024,
            before.len() == 1024,
            over@.len() == 1024,
            under@ == overlaid(before, over@).take(i as int) + before.skip(i as int),
        decreases 1024 - i,
    {
        let texel = over[i];
        if texel.species != 0 || texel.density != 0 {
            under.set(i, texel);
        }
        assert(under@ =~= overlaid(before, over@).take(i + 1) + before.skip(i + 1));
        i = i + 1;
    }
    assert(under@ =~= overlaid(before, over@));
}

fn merge_layer(paint: &mut Vec<PaintLayer>, layer: PaintLayer)
    requires
        forall|i: int| 0 <= i < old(paint)@.len() ==> (#[trigger] old(paint)@[i]).full(),
        layer.full(),
    ensures
        forall|i: int| 0 <= i < final(paint)@.len() ==> (#[trigger] final(paint)@[i]).full(),
        paint_views(final(paint)@) == with_layer(paint_views(old(paint)@), layer@),
{
    let ghost before = paint@;
    let mut at: usize = 0;
    while at < paint.len() && paint[at].layer_id != layer.layer_id
        invariant
            at <= paint@.len(),
            paint@ == before,
            layer_position(paint_views(before), layer.layer_id, 0) == layer_position(
                paint_views(before),
                layer.layer_id,
                at as int,
            ),
        decreases paint@.len() - at,
    {
        assert(paint_views(before)[at as int] == before[at as int]@);
        at = at + 1;
    }
    if at < paint.len() {
        assert(paint_views(before)[at as int] == before[at as int]@);
        let mut texels: Vec<PaintTexel> = Vec::new();
        std::mem::swap(&mut texels, &mut paint[at].texels);
        overlay(&mut texels, &layer.texels);
        paint[at].texels = texels;
        assert(paint_views(paint@) =~= with_layer(paint_views(before), layer@));
    } else {
        paint.push(layer);
        assert(paint_views(paint@) =~= with_layer(paint_views(before), layer@));
    }
}

/// Append an instance to the first bucket of its type, or to a new one.
pub(crate) fn merge_bucket(scatter: &mut Vec<ScatterBucket>, bucket: ScatterBucket)
    ensures
        bucket_views(final(scatter)@) == with_bucket(bucket_views(old(scatter)@), bucket@),
{
    let ghost before = scatter@;
    let mut at: usize = 0;
    while at < scatter.len() && scatter[at].type_id != bucket.type_id
        invariant
            at <= scatter@.len(),
            scatter@ == before,
            bucket_position(bucket_views(before), bucket.type_id, 0) == bucket_position(
                bucket_views(before),
                bucket.type_id,
                at as int,
            ),
        decreases scatter@.len() - at,
    {
        assert(bucket_views(before)[at as int] == before[at as int]@);
        at = at + 1;
    }
    if at < scatter.len() {
        assert(bucket_views(before)[at as int] == before[at as int]@);
        let mut instances: Vec<FoliageInstance> = Vec::new();
        std::mem::swap(&mut instances, &mut scatter[at].instances);
        let mut more = bucket.instances;
        instances.append(&mut more);
        scatter[at].instances = instances;
        assert(bucket_views(scatter@) =~= with_bucket(bucket_views(before), bucket@));
    } else {
        scatter.push(bucket);
        assert(bucket_views(scatter@) =~= with_bucket(bucket_views(before), bucket@));
    }
}

impl ChunkFoliage {
    /// Whether every paint layer has a texel for every column.
    pub open spec fn full(&self) -> bool {
        forall|i: int| 0 <= i < self.paint@.len() ==> (#[trigger] self.paint@[i]).full()
    }

    /// Whether nothing was produced.
    pub fn is_empty(&self) -> (r: bool)
        ensures
            r == (self.paint@.len() == 0 && self.scatter@.len() == 0),
    {
        self.paint.len() == 0 && self.scatter.len() == 0
    }

    /// Merge other foliage of the same chunk into this: painted columns overlay
    /// the layer of the same id, instances join the bucket of the same type.
    pub fn merge(&mut self, other: ChunkFoliage)
        requires
            old(self).full(),
            other.full(),
        ensures
            final(self).full(),
            paint_views(final(self).paint@) == with_layers(
                paint_views(old(self).paint@),
                paint_views(other.paint@),
            ),
            bucket_views(final(self).scatter@) == with_buckets(
                bucket_views(old(self).scatter@),
                bucket_views(other.scatter@),
            ),
    {
        let mut other_paint = other.paint;
        let mut other_scatter = other.scatter;
        let ghost layers = other_paint@;
        let ghost buckets = other_scatter@;
        let ghost start = paint_views(self.paint@);
        let ghost heap = bucket_views(self.scatter@);
        let mut k: usize = 0;
        let total: usize = other_paint.len();
        while k < total
            invariant
                k <= total,
                total == layers.len(),
                other_paint@ == layers.skip(k as int),
                self.full(),
                forall|i: int| 0 <= i < layers.len() ==> (#[trigger] layers[i]).full(),
                bucket_views(self.scatter@) == heap,
                paint_views(self.paint@) == with_layers(start, paint_views(layers.take(k as int))),
            decreases total - k,
        {
            let layer = other_paint.remove(0);
            assert(layer == layers[k as int]);
            merge_layer(&mut self.paint, layer);
            proof {
                let shorter = paint_views(layers.take(k as int));
                let longer = paint_views(layers.take(k + 1));
                assert(longer.drop_last() =~= shorter);
                assert(longer.last() == layer@);
                assert(other_paint@ =~= layers.skip(k + 1));
            }
            k = k + 1;
        }
        assert(layers.take(k as int) =~= layers);
        let mut b: usize = 0;
        let count: usize = other_scatter.len();
        while b < count
            invariant
                b <= count,
                count == buckets.len(),
                other_scatter@ == buckets.skip(b as int),
                self.full(),
                paint_views(self.paint@) == with_layers(start, paint_views(layers)),
                bucket_views(self.scatter@) == with_buckets(
                    heap,
                    bucket_views(buckets.take(b as int)),
                ),
            decreases count - b,
        {
            let bucket = other_scatter.remove(0);
            assert(bucket == buckets[b as int]);
            merge_bucket(&mut self.scatter, bucket);
            proof {
                let shorter = bucket_views(buckets.take(b as int));
                let longer = bucket_views(buckets.take(b + 1));
                assert(longer.drop_last() =~= shorter);
                assert(longer.last() == bucket@);
                assert(other_scatter@ =~= buckets.skip(b + 1));
            }
            b = b + 1;
        }
        assert(buckets.take(b as int) =~= buckets);
    }
}

impl Default for ChunkFoliage {
    fn default() -> (r: Self)
        ensures
            r.paint@.len() == 0,
            r.scatter@.len() == 0,
    {
        ChunkFoliage { paint: Vec::new(), scatter: Vec::new() }
    }
}

/// Maps that paint no column in common overlay to the same map either way
/// around, where unpainted columns are bare.
pub proof fn disjoint_overlays_commute(a: Seq<PaintTexel>, b: Seq<PaintTexel>)
    requires
        a.len() == b.len(),
        forall|i: int| 0 <= i < a.len() ==> !(#[trigger] a[i]).painted() || !b[i].painted(),
        forall|i: int|
            0 <= i < a.len() ==> (!(#[trigger] a[i]).painted() ==> a[i] == PaintTexel::bare()),
        forall|i: int|
            0 <= i < b.len() ==> (!(#[trigger] b[i]).painted() ==> b[i] == PaintTexel::bare()),
    ensures
        overlaid(a, b) == overlaid(b, a),
{
    assert forall|i: int| 0 <= i < a.len() implies overlaid(a, b)[i] == overlaid(b, a)[i] by {
    }
    assert(overlaid(a, b) =~= overlaid(b, a));
}

/// All instances of a scatter type, over every bucket.
pub open spec fn instances_of(scatter: Seq<BucketView>, type_id: u16) -> Multiset<FoliageInstance>
    decreases scatter.len(),
{
    if scatter.len() == 0 {
        Multiset::empty()
    } else if scatter.last().type_id == type_id {
        instances_of(scatter.drop_last(), type_id).add(scatter.last().instances.to_multiset())
    } else {
        instances_of(scatter.drop_last(), type_id)
    }
}

proof fn lemma_extended_bucket(
    scatter: Seq<BucketView>,
    at: int,
    more: Seq<FoliageInstance>,
    type_id: u16,
)
    requires
        0 <= at < scatter.len(),
    ensures
        ({
            let wider = BucketView {
                type_id: scatter[at].type_id,
                instances: scatter[at].instances + more,
            };
            instances_of(scatter.update(at, wider), type_id) == if scatter[at].type_id == type_id {
                instances_of(scatter, type_id).add(more.to_multiset())
            } else {
                instances_of(scatter, type_id)
            }
        }),
    decreases scatter.len(),
{
    broadcast use vstd::multiset::group_multiset_axioms;
    broadcast use vstd::seq_lib::group_to_multiset_ensures;

    let wider = BucketView {
        type_id: scatter[at].type_id,
        instances: scatter[at].instances + more,
    };
    let next = scatter.update(at, wider);
    if at == scatter.len() - 1 {
        assert(next.drop_last() =~= scatter.drop_last());
        vstd::seq_lib::lemma_multiset_commutative(scatter[at].instances, more);
        assert(instances_of(next, type_id) =~= if scatter[at].type_id == type_id {
            instances_of(scatter, type_id).add(more.to_multiset())
        } else {
            instances_of(scatter, type_id)
        });
    } else {
        lemma_extended_bucket(scatter.drop_last(), at, more, type_id);
        assert(next.drop_last() =~= scatter.drop_last().update(at, wider));
        assert(instances_of(next, type_id) =~= if scatter[at].type_id == type_id {
            instances_of(scatter, type_id).add(more.to_multiset())
        } else {
            instances_of(scatter, type_id)
        });
    }
}

/// Merging keeps every instance of every type, and adds none.
pub proof fn merging_keeps_every_instance(
    scatter: Seq<BucketView>,
    more: Seq<BucketView>,
    type_id: u16,
)
    ensures
        instances_of(with_buckets(scatter, more), type_id) == instances_of(scatter, type_id).add(
            instances_of(more, type_id),
        ),
    decreases more.len(),
{
    broadcast use vstd::multiset::group_multiset_axioms;

    if more.len() == 0 {
        assert(instances_of(scatter, type_id).add(instances_of(more, type_id)) =~= instances_of(
            scatter,
            type_id,
        ));
    } else {
        merging_keeps_every_instance(scatter, more.drop_last(), type_id);
        let so_far = with_buckets(scatter, more.drop_last());
        let bucket = more.last();
        let at = bucket_position(so_far, bucket.type_id, 0);
        lemma_bucket_position(so_far, bucket.type_id, 0);
        if at < so_far.len() {
            lemma_extended_bucket(so_far, at, bucket.instances, type_id);
        } else {
            assert(so_far.push(bucket).drop_last() =~= so_far);
        }
        assert(instances_of(with_buckets(scatter, more), type_id) =~= instances_of(
            scatter,
            type_id,
        ).add(instances_of(more, type_id)));
    }
}

/// The identity of an instance: a hash of the world, its world cell, its prefab
/// and its number among the instances of that cell.
pub open spec fn instance_id_of(
    world_seed: u64,
    wx: i32,
    wy: i32,
    wz: i32,
    prefab_id: u32,
    seq: u32,
) -> u64 {
    let a = mixed(world_seed ^ ((wx as i64) as u64).wrapping_mul(0xD1B54A32D192ED03));
    let b = mixed(a ^ ((wy as i64) as u64).wrapping_mul(0x9E3779B97F4A7C15));
    let c = mixed(b ^ ((wz as i64) as u64).wrapping_mul(0xABC98388FB8FAC03));
    let d = mixed(c ^ (prefab_id as u64).wrapping_mul(0xFF51AFD7ED558CCD));
    mixed(d ^ (seq as u64).wrapping_mul(0xC4CEB9FE1A85EC53))
}

/// The identity of an instance. It depends on what is generated and nothing
/// else, so it need not be stored.
pub fn stable_instance_id(
    world_seed: u64,
    wx: i32,
    wy: i32,
    wz: i32,
    prefab_id: u32,
    seq: u32,
) -> (r: u64)
    ensures
        r == instance_id_of(world_seed, wx, wy, wz, prefab_id, seq),
{
    let mut h: u64 = mix64(world_seed ^ ((wx as i64) as u64).wrapping_mul(0xD1B54A32D192ED03));
    h = mix64(h ^ ((wy as i64) as u64).wrapping_mul(0x9E3779B97F4A7C15));
    h = mix64(h ^ ((wz as i64) as u64).wrapping_mul(0xABC98388FB8FAC03));
    h = mix64(h ^ (prefab_id as u64).wrapping_mul(0xFF51AFD7ED558CCD));
    mix64(h ^ (seq as u64).wrapping_mul(0xC4CEB9FE1A85EC53))
}

/// Instances of one prefab that share a cell have different identities.
pub proof fn shared_cells_keep_identities_apart(
    world_seed: u64,
    wx: i32,
    wy: i32,
    wz: i32,
    prefab_id: u32,
    i: u32,
    j: u32,
)
    ensures
        instance_id_of(world_seed, wx, wy, wz, prefab_id, i) == instance_id_of(
            world_seed,
            wx,
            wy,
            wz,
            prefab_id,
            j,
        ) <==> i == j,
{
    let a = mixed(world_seed ^ ((wx as i64) as u64).wrapping_mul(0xD1B54A32D192ED03));
    let b = mixed(a ^ ((wy as i64) as u64).wrapping_mul(0x9E3779B97F4A7C15));
    let c = mixed(b ^ ((wz as i64) as u64).wrapping_mul(0xABC98388FB8FAC03));
    let d = mixed(c ^ (prefab_id as u64).wrapping_mul(0xFF51AFD7ED558CCD));
    let p = (i as u64).wrapping_mul(0xC4CEB9FE1A85EC53);
    let q = (j as u64).wrapping_mul(0xC4CEB9FE1A85EC53);
    mixing_is_injective(d ^ p, d ^ q);
    assert(d ^ p == d ^ q ==> p == q) by (bit_vector);
    if p == q {
        lemma_odd_factor(i as u64, j as u64, 0xC4CEB9FE1A85EC53, 0x9cb4b2f8129337db);
    }
}

} // verus!
