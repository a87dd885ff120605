//! What each kind of node of a biome graph gives, told by its inputs cell by cell.
use crate::cache::OutputView;
use crate::edge::{Edge, PinRef};
use crate::eval_error::EvalError;
use crate::eval_laws::{fill_value, Arithmetic};
use crate::eval_model::{
    input_output, node_fill, position_override, scalar_inputs, EvalEnv, FillView,
};
use crate::field::Vec3;
use crate::index::{indexed_source, last_source};
use crate::library_kernel::LibraryKernel;
use crate::node::NodeKind;
use crate::operation::{noise_source, operator, NoiseFamily, ScalarOp};
use crate::scalar::Single;
use crate::slots::NodeId;
use crate::terrain_laws::{
    layer_nodes_lay_bands_below_the_surface, lies_at, materials_fall_back_and_build, surfaces_at,
    surfaces_nowhere,
};
use crate::voxel::{MaterialId, Rotation, ShapeId, Voxel};
use vstd::prelude::*;

verus! {

/// Whether an input pin is wired to a node and to no other, in a graph without edges
/// into nodes that have given up their place.
pub open spec fn fed_by(edges: Seq<Edge>, node: NodeId, pin: u16, source: NodeId) -> bool {
    &&& exists|i: int|
        0 <= i < edges.len() && (#[trigger] edges[i]).to == (PinRef { node, pin })
    &&& forall|i: int|
        0 <= i < edges.len() && (#[trigger] edges[i]).to == (PinRef { node, pin })
            ==> edges[i].from.node == source
    &&& forall|i: int|
        0 <= i < edges.len() && (#[trigger] edges[i]).to.node.slot() == node.slot()
            ==> edges[i].to.node == node
}

/// Whether an input pin reads an output: that cached for the node it is wired to.
pub open spec fn reads(
    env: EvalEnv,
    cache: Map<u64, OutputView>,
    node: NodeId,
    pin: u16,
    out: OutputView,
) -> bool {
    exists|source: NodeId| #[trigger]
        fed_by(env.edges, node, pin, source) && cache.contains_key(source.code())
            && cache[source.code()] == out
}

/// Whether nothing is wired to an input pin.
pub open spec fn unfed(edges: Seq<Edge>, node: NodeId, pin: u16) -> bool {
    forall|i: int| 0 <= i < edges.len() ==> (#[trigger] edges[i]).to != (PinRef { node, pin })
}

pub(crate) proof fn lemma_fed(edges: Seq<Edge>, node: NodeId, pin: u16, source: NodeId, k: int)
    requires
        0 <= k <= edges.len(),
        fed_by(edges, node, pin, source),
        exists|i: int| 0 <= i < k && (#[trigger] edges[i]).to == (PinRef { node, pin }),
    ensures
        last_source(edges, node, pin, k) is Some,
        last_source(edges, node, pin, k)->0.node == source,
    decreases k,
{
    let e = edges[k - 1];
    if e.to.node == node && e.to.pin == pin {
        assert(e.to == (PinRef { node, pin }));
    } else {
        let i = choose|i: int| 0 <= i < k && (#[trigger] edges[i]).to == (PinRef { node, pin });
        assert(i != k - 1);
        assert(edges[i].to == (PinRef { node, pin }) && i < k - 1);
        lemma_fed(edges, node, pin, source, k - 1);
    }
}

pub(crate) proof fn lemma_unfed(edges: Seq<Edge>, node: NodeId, pin: u16, k: int)
    requires
        k <= edges.len(),
        unfed(edges, node, pin),
    ensures
        last_source(edges, node, pin, k) is None,
    decreases k,
{
    if k > 0 {
        assert(edges[k - 1].to != (PinRef { node, pin }));
        lemma_unfed(edges, node, pin, k - 1);
    }
}

proof fn lemma_reads(
    env: EvalEnv,
    cache: Map<u64, OutputView>,
    node: NodeId,
    pin: u16,
    out: OutputView,
)
    requires
        reads(env, cache, node, pin, out),
    ensures
        input_output(env, cache, node, pin) == Ok::<OutputView, EvalError>(out),
        indexed_source(env.edges, node, pin) is Some,
{
    let source = choose|source: NodeId| #[trigger]
        fed_by(env.edges, node, pin, source) && cache.contains_key(source.code())
            && cache[source.code()] == out;
    lemma_fed(env.edges, node, pin, source, env.edges.len() as int);
}

/// Which operation each kind of operator node asks for.
#[verifier::spinoff_prover]
#[verifier::rlimit(60)]
pub proof fn operators_ask_for_what_they_are_named(kind: NodeKind)
    ensures
        kind is Add ==> operator(&kind) == Some(ScalarOp::Add),
        kind is Multiply ==> operator(&kind) == Some(ScalarOp::Multiply),
        kind is Subtract ==> operator(&kind) == Some(ScalarOp::Subtract),
        kind is Min || kind is Intersect ==> operator(&kind) == Some(ScalarOp::Min),
        kind is Max || kind is Union ==> operator(&kind) == Some(ScalarOp::Max),
        kind is DensitySubtract ==> operator(&kind) == Some(ScalarOp::Carve),
        kind is Mask ==> operator(&kind) == Some(ScalarOp::Gate),
        kind is Mix ==> operator(&kind) == Some(ScalarOp::Mix),
        kind is Lerp ==> operator(&kind) == Some(ScalarOp::Lerp),
        kind is Abs ==> operator(&kind) == Some(ScalarOp::Abs),
        kind matches NodeKind::Clamp(p) ==> operator(&kind) == Some(ScalarOp::Clamp(p)),
        kind matches NodeKind::Remap(p) ==> operator(&kind) == Some(ScalarOp::Remap(p)),
        kind matches NodeKind::Threshold(p) ==> operator(&kind) == Some(ScalarOp::Threshold(p)),
        kind matches NodeKind::CurveMapper(p) ==> operator(&kind) == Some(ScalarOp::Curve(&p)),
        kind matches NodeKind::River(p) ==> operator(&kind) == Some(ScalarOp::River(p)),
{
}

proof fn lemma_two_inputs(
    env: EvalEnv,
    cache: Map<u64, OutputView>,
    id: NodeId,
    a: Seq<Single>,
    b: Seq<Single>,
)
    requires
        reads(env, cache, id, 0, OutputView::Scalar(a)),
        reads(env, cache, id, 1, OutputView::Scalar(b)),
    ensures
        scalar_inputs(env, cache, id, 2) == Ok::<Seq<Seq<Single>>, EvalError>(seq![a, b]),
        scalar_inputs(env, cache, id, 1) == Ok::<Seq<Seq<Single>>, EvalError>(seq![a]),
{
    lemma_reads(env, cache, id, 0, OutputView::Scalar(a));
    lemma_reads(env, cache, id, 1, OutputView::Scalar(b));
    reveal_with_fuel(scalar_inputs, 3);
    assert(Seq::<Seq<Single>>::empty().push(a) =~= seq![a]);
    assert(seq![a].push(b) =~= seq![a, b]);
}

/// An operator on two fields is applied cell by cell, its first pin's value first.
#[verifier::spinoff_prover]
#[verifier::rlimit(60)]
pub proof fn two_fields_combine_cell_by_cell(
    env: EvalEnv,
    cache: Map<u64, OutputView>,
    m: Arithmetic,
    id: NodeId,
    a: Seq<Single>,
    b: Seq<Single>,
    i: int,
)
    requires
        env.nodes.contains_key(id),
        reads(env, cache, id, 0, OutputView::Scalar(a)),
        reads(env, cache, id, 1, OutputView::Scalar(b)),
        0 <= i < 32768,
    ensures
        ({
            let kind = env.nodes[id].kind;
            let at = seq![a[i], b[i]];
            let out = fill_value(m, node_fill::<'static>(env, cache, id)->Ok_0);
            &&& kind is Add || kind is Multiply || kind is Subtract || kind is Min || kind is Max
                || kind is Union || kind is Intersect || kind is DensitySubtract || kind is Mask
                ==> node_fill::<'static>(env, cache, id) is Ok && out is Scalar && out->Scalar_0.len()
                == 32768
            &&& kind is Add ==> out->Scalar_0[i] == (m.apply)(ScalarOp::Add, at, i)
            &&& kind is Multiply ==> out->Scalar_0[i] == (m.apply)(ScalarOp::Multiply, at, i)
            &&& kind is Subtract ==> out->Scalar_0[i] == (m.apply)(ScalarOp::Subtract, at, i)
            &&& kind is Min || kind is Intersect ==> out->Scalar_0[i] == (m.apply)(
                ScalarOp::Min,
                at,
                i,
            )
            &&& kind is Max || kind is Union ==> out->Scalar_0[i] == (m.apply)(
                ScalarOp::Max,
                at,
                i,
            )
            &&& kind is DensitySubtract ==> out->Scalar_0[i] == (m.apply)(ScalarOp::Carve, at, i)
            &&& kind is Mask ==> out->Scalar_0[i] == (m.apply)(ScalarOp::Gate, at, i)
        }),
{
    lemma_two_inputs(env, cache, id, a, b);
    assert(crate::eval_laws::cell_values(seq![a, b], i) =~= seq![a[i], b[i]]);
}

/// An operator on three fields is applied cell by cell, in the order of its pins.
#[verifier::spinoff_prover]
#[verifier::rlimit(60)]
pub proof fn three_fields_combine_cell_by_cell(
    env: EvalEnv,
    cache: Map<u64, OutputView>,
    m: Arithmetic,
    id: NodeId,
    a: Seq<Single>,
    b: Seq<Single>,
    t: Seq<Single>,
    i: int,
)
    requires
        env.nodes.contains_key(id),
        reads(env, cache, id, 0, OutputView::Scalar(a)),
        reads(env, cache, id, 1, OutputView::Scalar(b)),
        reads(env, cache, id, 2, OutputView::Scalar(t)),
        0 <= i < 32768,
    ensures
        ({
            let kind = env.nodes[id].kind;
            let at = seq![a[i], b[i], t[i]];
            let out = fill_value(m, node_fill::<'static>(env, cache, id)->Ok_0);
            &&& kind is Lerp || kind is Mix ==> node_fill::<'static>(env, cache, id) is Ok && out
                is Scalar && out->Scalar_0.len() == 32768
            &&& kind is Lerp ==> out->Scalar_0[i] == (m.apply)(ScalarOp::Lerp, at, i)
            &&& kind is Mix ==> out->Scalar_0[i] == (m.apply)(ScalarOp::Mix, at, i)
        }),
{
    lemma_two_inputs(env, cache, id, a, b);
    lemma_reads(env, cache, id, 2, OutputView::Scalar(t));
    reveal_with_fuel(scalar_inputs, 2);
    assert(seq![a, b].push(t) =~= seq![a, b, t]);
    assert(crate::eval_laws::cell_values(seq![a, b, t], i) =~= seq![a[i], b[i], t[i]]);
}

/// An operator on one field is applied cell by cell, with the node's own parameters.
#[verifier::spinoff_prover]
#[verifier::rlimit(60)]
pub proof fn one_field_is_mapped_cell_by_cell(
    env: EvalEnv,
    cache: Map<u64, OutputView>,
    m: Arithmetic,
    id: NodeId,
    a: Seq<Single>,
    i: int,
)
    requires
        env.nodes.contains_key(id),
        reads(env, cache, id, 0, OutputView::Scalar(a)),
        0 <= i < 32768,
    ensures
        ({
            let kind = env.nodes[id].kind;
            let at = seq![a[i]];
            let out = fill_value(m, node_fill::<'static>(env, cache, id)->Ok_0);
            &&& kind is Abs || kind is Clamp || kind is Remap || kind is Threshold || kind
                is CurveMapper || kind is River ==> node_fill::<'static>(env, cache, id) is Ok && out
                is Scalar && out->Scalar_0.len() == 32768
            &&& kind is Abs ==> out->Scalar_0[i] == (m.apply)(ScalarOp::Abs, at, i)
            &&& kind matches NodeKind::Clamp(p) ==> out->Scalar_0[i] == (m.apply)(
                ScalarOp::Clamp(p),
                at,
                i,
            )
            &&& kind matches NodeKind::Remap(p) ==> out->Scalar_0[i] == (m.apply)(
                ScalarOp::Remap(p),
                at,
                i,
            )
            &&& kind matches NodeKind::Threshold(p) ==> out->Scalar_0[i] == (m.apply)(
                ScalarOp::Threshold(p),
                at,
                i,
            )
            &&& kind matches NodeKind::CurveMapper(p) ==> out->Scalar_0[i] == (m.apply)(
                ScalarOp::Curve(&p),
                at,
                i,
            )
            &&& kind matches NodeKind::River(p) ==> out->Scalar_0[i] == (m.apply)(
                ScalarOp::River(p),
                at,
                i,
            )
        }),
{
    lemma_reads(env, cache, id, 0, OutputView::Scalar(a));
    reveal_with_fuel(scalar_inputs, 2);
    assert(Seq::<Seq<Single>>::empty().push(a) =~= seq![a]);
    assert(crate::eval_laws::cell_values(seq![a], i) =~= seq![a[i]]);
}

/// The number with the sign changed.
pub open spec fn negated(v: Single) -> Single {
    if v.bits >= 0x8000_0000 {
        Single { bits: (v.bits - 0x8000_0000) as u32 }
    } else {
        Single { bits: (v.bits + 0x8000_0000) as u32 }
    }
}

/// Whether arithmetic picks the larger and the smaller of two numbers, and carves by the
/// larger of the first and the second with its sign changed.
pub open spec fn orders_numbers(m: Arithmetic) -> bool {
    forall|v: Seq<Single>, i: int|
        #![trigger (m.apply)(ScalarOp::Max, v, i)]
        #![trigger (m.apply)(ScalarOp::Min, v, i)]
        #![trigger (m.apply)(ScalarOp::Carve, v, i)]
        v.len() == 2 && !v[0].is_nan() && !v[1].is_nan() ==> {
            &&& (m.apply)(ScalarOp::Max, v, i) == (if v[1].at_least(v[0]) {
                v[1]
            } else {
                v[0]
            })
            &&& (m.apply)(ScalarOp::Min, v, i) == (if v[1].at_least(v[0]) {
                v[0]
            } else {
                v[1]
            })
            &&& (m.apply)(ScalarOp::Carve, v, i) == (if negated(v[1]).at_least(v[0]) {
                negated(v[1])
            } else {
                v[0]
            })
        }
}

/// A union is solid exactly where either of its fields is, an intersection where both
/// are, and a difference where the first is or the second is negative.
#[verifier::spinoff_prover]
#[verifier::rlimit(60)]
pub proof fn fields_unite_and_intersect(
    env: EvalEnv,
    cache: Map<u64, OutputView>,
    m: Arithmetic,
    id: NodeId,
    a: Seq<Single>,
    b: Seq<Single>,
    i: int,
)
    requires
        env.nodes.contains_key(id),
        reads(env, cache, id, 0, OutputView::Scalar(a)),
        reads(env, cache, id, 1, OutputView::Scalar(b)),
        orders_numbers(m),
        0 <= i < 32768,
        !a[i].is_nan(),
        !b[i].is_nan(),
    ensures
        ({
            let kind = env.nodes[id].kind;
            let out = fill_value(m, node_fill::<'static>(env, cache, id)->Ok_0)->Scalar_0;
            &&& kind is Union || kind is Max ==> (out[i].positive() <==> a[i].positive()
                || b[i].positive()) && out[i].at_least(a[i]) && out[i].at_least(b[i])
            &&& kind is Intersect || kind is Min ==> (out[i].positive() <==> a[i].positive()
                && b[i].positive()) && a[i].at_least(out[i]) && b[i].at_least(out[i])
            &&& kind is DensitySubtract ==> (out[i].positive() <==> a[i].positive()
                || negated(b[i]).positive())
        }),
{
    two_fields_combine_cell_by_cell(env, cache, m, id, a, b, i);
    let at = seq![a[i], b[i]];
    let x = (m.apply)(ScalarOp::Max, at, i);
    let y = (m.apply)(ScalarOp::Min, at, i);
    let z = (m.apply)(ScalarOp::Carve, at, i);
    let n = negated(b[i]);
    assert(!n.is_nan());
}

/// Sources fill every cell alike: a constant with its value, a named scalar with the
/// value under its name or else its default, a material with itself.
#[verifier::spinoff_prover]
#[verifier::rlimit(60)]
pub proof fn sources_fill_every_cell(
    env: EvalEnv,
    cache: Map<u64, OutputView>,
    m: Arithmetic,
    id: NodeId,
    i: int,
)
    requires
        env.nodes.contains_key(id),
        0 <= i < 32768,
    ensures
        ({
            let kind = env.nodes[id].kind;
            let out = fill_value(m, node_fill::<'static>(env, cache, id)->Ok_0);
            &&& kind is Constant || kind is BiomeParam || kind is WorldParam ==> node_fill::<
                'static,
            >(env, cache, id) is Ok && out is Scalar && out->Scalar_0.len() == 32768
            &&& kind matches NodeKind::Constant(p) ==> out->Scalar_0[i] == p.value
            &&& kind matches NodeKind::BiomeParam(p) ==> out->Scalar_0[i] == (
            if env.biome_params is Some && env.biome_params->0.contains_key(p.name@) {
                env.biome_params->0[p.name@]
            } else {
                p.default
            })
            &&& kind matches NodeKind::WorldParam(p) ==> out->Scalar_0[i] == (
            if env.world_params is Some && env.world_params->0.contains_key(p.name@) {
                env.world_params->0[p.name@]
            } else {
                p.default
            })
            &&& kind matches NodeKind::ConstantMaterial(p) ==> node_fill::<'static>(env, cache, id)
                is Ok && out is Material && out->Material_0.len() == 32768 && out->Material_0[i]
                == p.material
            &&& kind is WorldPos ==> node_fill::<'static>(env, cache, id) is Ok && out is Vec3
                && out->Vec3_0[i] == (m.position)(i)
            &&& kind matches NodeKind::WorldAxis(p) ==> node_fill::<'static>(env, cache, id) is Ok
                && out is Scalar && out->Scalar_0[i] == (m.axis)(p.axis, i)
            &&& kind matches NodeKind::YBand(p) ==> node_fill::<'static>(env, cache, id) is Ok && out
                is Scalar && out->Scalar_0[i] == (m.band)(p, i)
            &&& kind matches NodeKind::JitteredGrid(p) ==> node_fill::<'static>(env, cache, id)
                is Ok && out == OutputView::Positions((m.jittered)(p))
            &&& kind matches NodeKind::PoissonDisk(p) ==> node_fill::<'static>(env, cache, id) is Ok
                && out == OutputView::Positions((m.poisson)(p))
        }),
{
}

/// A noise node is sampled at each cell's own position, or at the position wired to it,
/// with its own parameters; its family is its kind's, and a flat kind ignores height.
#[verifier::spinoff_prover]
#[verifier::rlimit(60)]
pub proof fn noise_is_sampled_where_it_is_asked_for(
    env: EvalEnv,
    cache: Map<u64, OutputView>,
    m: Arithmetic,
    id: NodeId,
    places: Seq<Vec3>,
    i: int,
)
    requires
        env.nodes.contains_key(id),
        noise_source(env.nodes[id].kind) is Some,
        0 <= i < 32768,
    ensures
        ({
            let kind = env.nodes[id].kind;
            let source = noise_source(kind)->0;
            let seed = crate::context::noise_seed_of(env.world_seed, source.params.seed);
            let out = fill_value(m, node_fill::<'static>(env, cache, id)->Ok_0);
            &&& unfed(env.edges, id, 0) ==> node_fill::<'static>(env, cache, id) is Ok && out is Scalar
                && out->Scalar_0[i] == (m.noise)(source, seed, (m.position)(i))
            &&& reads(env, cache, id, 0, OutputView::Vec3(places)) ==> node_fill::<'static>(
                env,
                cache,
                id,
            ) is Ok && out is Scalar && out->Scalar_0[i] == (m.noise)(source, seed, places[i])
            &&& match kind {
                NodeKind::Perlin2D(p) => source.params == p && source.family == NoiseFamily::Perlin
                    && source.flat,
                NodeKind::Perlin3D(p) => source.params == p && source.family == NoiseFamily::Perlin
                    && !source.flat,
                NodeKind::Simplex2D(p) => source.params == p && source.family
                    == NoiseFamily::Simplex && source.flat,
                NodeKind::Simplex3D(p) => source.params == p && source.family
                    == NoiseFamily::Simplex && !source.flat,
                _ => false,
            }
        }),
{
    if unfed(env.edges, id, 0) {
        lemma_unfed(env.edges, id, 0, env.edges.len() as int);
    }
    if reads(env, cache, id, 0, OutputView::Vec3(places)) {
        lemma_reads(env, cache, id, 0, OutputView::Vec3(places));
        assert(position_override(env, cache, id) == Ok::<Option<Seq<Vec3>>, EvalError>(
            Some(places),
        ));
    }
}

/// What a node only passes on: the first pin of an output or of the door from the column
/// domain, the mask of a pond, the terrain of a terrain terminal, and the density and
/// material of a biome terminal together.
#[verifier::spinoff_prover]
#[verifier::rlimit(60)]
pub proof fn terminals_pass_their_inputs_on(
    env: EvalEnv,
    cache: Map<u64, OutputView>,
    m: Arithmetic,
    id: NodeId,
    a: OutputView,
    b: OutputView,
)
    requires
        env.nodes.contains_key(id),
        reads(env, cache, id, 0, a),
    ensures
        ({
            let kind = env.nodes[id].kind;
            let r = node_fill::<'static>(env, cache, id);
            &&& (kind is Output || kind is SurfaceToDensity) && a is Scalar ==> r == Ok::<
                FillView<'static>,
                EvalError,
            >(FillView::Ready(a))
            &&& kind is TerrainOutput && a is Terrain ==> r == Ok::<FillView<'static>, EvalError>(
                FillView::Ready(a),
            )
            &&& kind is FluidOutput && reads(env, cache, id, 1, b) && b is Scalar ==> r == Ok::<
                FillView<'static>,
                EvalError,
            >(FillView::Ready(b))
            &&& kind is DensityOutput && reads(env, cache, id, 1, b) && a is Scalar && b is Material
                ==> r == Ok::<FillView<'static>, EvalError>(
                FillView::Ready(
                    OutputView::BiomeLayer { density: a->Scalar_0, material: b->Material_0 },
                ),
            )
        }),
{
    lemma_reads(env, cache, id, 0, a);
    if reads(env, cache, id, 1, b) {
        lemma_reads(env, cache, id, 1, b);
    }
}

/// Materials come by depth below the surface of the density wired to a layer node, and
/// fall back from the first to the second wired to a queue; terrain is built of cubes of
/// its material where its density is positive.
#[verifier::spinoff_prover]
#[verifier::rlimit(60)]
pub proof fn materials_and_terrain_follow_their_inputs(
    env: EvalEnv,
    cache: Map<u64, OutputView>,
    m: Arithmetic,
    id: NodeId,
    density: Seq<Single>,
    first: Seq<MaterialId>,
    second: Seq<MaterialId>,
    x: int,
    y: int,
    z: int,
    top: int,
)
    requires
        env.nodes.contains_key(id),
        0 <= x < 32,
        0 <= y < 32,
        0 <= z < 32,
    ensures
        ({
            let kind = env.nodes[id].kind;
            let i = x + 32 * y + 1024 * z;
            let r = node_fill::<'static>(env, cache, id);
            let out = fill_value(m, r->Ok_0);
            &&& kind matches NodeKind::Layer(p) ==> reads(
                env,
                cache,
                id,
                0,
                OutputView::Scalar(density),
            ) ==> {
                &&& r is Ok && out is Material
                &&& surfaces_at(density, x, z, top) && y <= top ==> lies_at(
                    p.bands@,
                    p.fill,
                    top - y,
                    out->Material_0[i],
                )
                &&& surfaces_at(density, x, z, top) && y > top ==> out->Material_0[i] == MaterialId(
                    0,
                )
                &&& surfaces_nowhere(density, x, z) ==> out->Material_0[i] == MaterialId(0)
            }
            &&& kind is Queue && reads(env, cache, id, 0, OutputView::Material(first)) && reads(
                env,
                cache,
                id,
                1,
                OutputView::Material(second),
            ) ==> r is Ok && out is Material && out->Material_0[i] == (if first[i] != MaterialId(0) {
                first[i]
            } else {
                second[i]
            })
            &&& kind is BuildTerrain && reads(env, cache, id, 0, OutputView::Scalar(density))
                && reads(env, cache, id, 1, OutputView::Material(first)) ==> {
                &&& r is Ok && out is Terrain
                &&& density[i].positive() ==> out->Terrain_0[i] == (Voxel {
                    shape: ShapeId::Cube,
                    rotation: Rotation::Unrotated,
                    material: first[i],
                    flags: 0,
                })
                &&& !density[i].positive() ==> out->Terrain_0[i].shape == ShapeId::Empty
            }
        }),
{
    let i = x + 32 * y + 1024 * z;
    let kind = env.nodes[id].kind;
    if reads(env, cache, id, 0, OutputView::Scalar(density)) {
        lemma_reads(env, cache, id, 0, OutputView::Scalar(density));
    }
    if reads(env, cache, id, 0, OutputView::Material(first)) {
        lemma_reads(env, cache, id, 0, OutputView::Material(first));
    }
    if reads(env, cache, id, 1, OutputView::Material(first)) {
        lemma_reads(env, cache, id, 1, OutputView::Material(first));
    }
    if reads(env, cache, id, 1, OutputView::Material(second)) {
        lemma_reads(env, cache, id, 1, OutputView::Material(second));
    }
    if let NodeKind::Layer(p) = kind {
        layer_nodes_lay_bands_below_the_surface(density, p.bands@, p.fill, x, y, z, top);
    }
    materials_fall_back_and_build(density, first, second, i);
}

/// A reference to another graph has in every cell of a column the value that the other
/// graph has for that column; a reference to the cave library is sampled at the positions
/// wired to it.
#[verifier::spinoff_prover]
#[verifier::rlimit(60)]
pub proof fn references_read_what_they_name(
    env: EvalEnv,
    cache: Map<u64, OutputView>,
    m: Arithmetic,
    id: NodeId,
    places: Seq<Vec3>,
    x: int,
    y: int,
    z: int,
)
    requires
        env.nodes.contains_key(id),
        0 <= x < 32,
        0 <= y < 32,
        0 <= z < 32,
    ensures
        ({
            let kind = env.nodes[id].kind;
            let i = x + 32 * y + 1024 * z;
            let r = node_fill::<'static>(env, cache, id);
            let out = fill_value(m, r->Ok_0);
            &&& kind matches NodeKind::GraphRef(p) ==> r is Ok ==> {
                let name = crate::eval_model::reference_name(env, id)->Ok_0;
                let columns = crate::column_eval::upstream_field(
                    env.upstream->0,
                    p.target,
                    name,
                    id,
                )->Ok_0;
                out is Scalar && out->Scalar_0[i] == columns[x + 32 * z]
            }
            &&& kind matches NodeKind::LibraryRef(p) ==> reads(
                env,
                cache,
                id,
                0,
                OutputView::Vec3(places),
            ) && env.kernels is Some && env.kernels->0.contains_key(p.library.0)
                && env.kernels->0[p.library.0] == LibraryKernel::StandardCaveNoise ==> r is Ok && out
                is Scalar && out->Scalar_0[i] == (m.cave)(
                crate::context::noise_seed_of(env.world_seed, p.library.0),
                places[i],
            )
            &&& kind matches NodeKind::DomainWarp(p) ==> reads(
                env,
                cache,
                id,
                0,
                OutputView::Vec3(places),
            ) ==> r is Ok && out is Vec3 && out->Vec3_0[i] == (m.warp)(
                p,
                (
                    crate::context::noise_seed_of(env.world_seed, p.seed),
                    crate::context::noise_seed_of(env.world_seed, p.seed ^ 0xDEAD_BEEF),
                ),
                places[i],
            )
        }),
{
    let i = x + 32 * y + 1024 * z;
    assert(i % 32 == x && i / 1024 == z);
    if reads(env, cache, id, 0, OutputView::Vec3(places)) {
        lemma_reads(env, cache, id, 0, OutputView::Vec3(places));
    }
}

/// An operator whose first unwired pin is `pin`, the pins before it reading scalars, is
/// refused for want of that pin.
#[verifier::spinoff_prover]
#[verifier::rlimit(60)]
pub proof fn a_missing_input_is_named(
    env: EvalEnv,
    cache: Map<u64, OutputView>,
    id: NodeId,
    a: Seq<Single>,
    b: Seq<Single>,
)
    requires
        env.nodes.contains_key(id),
        operator(&env.nodes[id].kind) is Some,
    ensures
        ({
            let inputs = env.nodes[id].kind.declared_inputs().len();
            let r = node_fill::<'static>(env, cache, id);
            let first = reads(env, cache, id, 0, OutputView::Scalar(a));
            let second = reads(env, cache, id, 1, OutputView::Scalar(b));
            &&& inputs >= 1 && unfed(env.edges, id, 0) ==> r == Err::<FillView<'static>, EvalError>(
                EvalError::MissingInput { node: id, pin: 0 },
            )
            &&& inputs >= 2 && first && unfed(env.edges, id, 1) ==> r == Err::<
                FillView<'static>,
                EvalError,
            >(EvalError::MissingInput { node: id, pin: 1 })
            &&& inputs >= 3 && first && second && unfed(env.edges, id, 2) ==> r == Err::<
                FillView<'static>,
                EvalError,
            >(EvalError::MissingInput { node: id, pin: 2 })
        }),
{
    crate::operation::operators_take_their_declared_inputs(env.nodes[id].kind);
    reveal_with_fuel(scalar_inputs, 4);
    if unfed(env.edges, id, 0) {
        lemma_unfed(env.edges, id, 0, env.edges.len() as int);
    }
    if unfed(env.edges, id, 1) {
        lemma_unfed(env.edges, id, 1, env.edges.len() as int);
    }
    if unfed(env.edges, id, 2) {
        lemma_unfed(env.edges, id, 2, env.edges.len() as int);
    }
    if reads(env, cache, id, 0, OutputView::Scalar(a)) {
        lemma_reads(env, cache, id, 0, OutputView::Scalar(a));
    }
    if reads(env, cache, id, 1, OutputView::Scalar(b)) {
        lemma_reads(env, cache, id, 1, OutputView::Scalar(b));
    }
}

} // verus!
