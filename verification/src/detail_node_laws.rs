//! What each kind of node of a foliage graph gives, and how a run over them goes.
use crate::biome_laws::{feeds_nothing, first_feeds, scans_find_the_first_source};
use crate::detail::{all_grounded, in_biome, paint_of, scattered, DetailPoint};
use crate::detail_eval::{
    detail_fill, detail_run, input_assignments, DetailEnv, DetailFillView, DetailProgress,
    DetailView,
};
use crate::eval_error::EvalError;
use crate::foliage::{BucketView, PaintView};
use crate::index::scanned_source;
use crate::node::NodeKind;
use crate::slots::NodeId;
use vstd::prelude::*;

verus! {

/// Whether a node's first input reads a value: that held for the node at the other end of
/// the first edge into it.
pub open spec fn reads_value(
    env: DetailEnv,
    cache: Map<u64, DetailView>,
    id: NodeId,
    value: DetailView,
) -> bool {
    exists|source: NodeId| #[trigger]
        first_feeds(env.edges, id, 0, source) && cache.contains_key(source.code())
            && cache[source.code()] == value
}

proof fn lemma_reads_value(
    env: DetailEnv,
    cache: Map<u64, DetailView>,
    id: NodeId,
    value: DetailView,
)
    requires
        reads_value(env, cache, id, value),
    ensures
        scanned_source(env.edges, id, 0) is Some,
        cache.contains_key(scanned_source(env.edges, id, 0)->0.node.code()),
        cache[scanned_source(env.edges, id, 0)->0.node.code()] == value,
{
    let source = choose|source: NodeId| #[trigger]
        first_feeds(env.edges, id, 0, source) && cache.contains_key(source.code())
            && cache[source.code()] == value;
    scans_find_the_first_source(env.edges, id, 0, source);
}

/// A distribution asks for candidates. The nodes behind it work on the candidates they
/// read: a surface filter keeps those that the ground admits, a biome mask those in its own
/// biome, and a picker asks for one draw for each of them.
pub proof fn nodes_work_on_the_candidates_they_read(
    env: DetailEnv,
    cache: Map<u64, DetailView>,
    id: NodeId,
    points: Seq<DetailPoint>,
    i: int,
)
    ensures
        env.nodes[id].kind matches NodeKind::PoissonDistribution(p) ==> detail_fill(env, cache, id)
            == Ok::<DetailFillView, EvalError>(DetailFillView::Points(p)),
        reads_value(env, cache, id, DetailView::Positions(points)) ==> {
            &&& env.nodes[id].kind matches NodeKind::SurfaceFilter(p) ==> detail_fill(
                env,
                cache,
                id,
            ) == Ok::<DetailFillView, EvalError>(
                DetailFillView::Ready(
                    DetailView::Positions(all_grounded(env.ground, p, points)),
                ),
            )
            &&& env.nodes[id].kind matches NodeKind::BiomeContextMask(p) ==> detail_fill(
                env,
                cache,
                id,
            ) == Ok::<DetailFillView, EvalError>(
                DetailFillView::Ready(DetailView::Positions(in_biome(env.ground, p.biome, points))),
            )
            &&& env.nodes[id].kind matches NodeKind::SpeciesPicker(p) ==> asks_for_draws(
                detail_fill(env, cache, id),
                points.len() as int,
            )
        },
{
    if reads_value(env, cache, id, DetailView::Positions(points)) {
        lemma_reads_value(env, cache, id, DetailView::Positions(points));
    }
}

/// Whether filling a node asks for a number of draws.
pub open spec fn asks_for_draws(r: Result<DetailFillView, EvalError>, n: int) -> bool {
    r matches Ok(fill) && fill matches DetailFillView::Species(draws) && draws.len() == n
}

/// A node that needs candidates says where an input is missing, and refuses candidates that
/// already have a species; one that places instances says so too, and refuses those that
/// have none.
pub proof fn unsuited_inputs_are_refused(
    env: DetailEnv,
    cache: Map<u64, DetailView>,
    id: NodeId,
    points: Seq<DetailPoint>,
    assigned: Seq<(DetailPoint, u8)>,
)
    ensures
        (env.nodes[id].kind is SurfaceFilter || env.nodes[id].kind is BiomeContextMask
            || env.nodes[id].kind is SpeciesPicker) ==> {
            &&& feeds_nothing(env.edges, id, 0) ==> detail_fill(env, cache, id) == Err::<
                DetailFillView,
                EvalError,
            >(EvalError::MissingInput { node: id, pin: 0 })
            &&& reads_value(env, cache, id, DetailView::Assignments(assigned)) ==> detail_fill(
                env,
                cache,
                id,
            ) == Err::<DetailFillView, EvalError>(
                EvalError::WrongInputType { node: id, expected: "positions", got: "assignments" },
            )
        },
        feeds_nothing(env.edges, id, 0) ==> input_assignments(env, cache, id, 0) == Err::<
            Seq<(DetailPoint, u8)>,
            EvalError,
        >(EvalError::MissingInput { node: id, pin: 0 }),
        reads_value(env, cache, id, DetailView::Positions(points)) ==> input_assignments(
            env,
            cache,
            id,
            0,
        ) == Err::<Seq<(DetailPoint, u8)>, EvalError>(
            EvalError::WrongInputType { node: id, expected: "assignments", got: "positions" },
        ),
{
    if feeds_nothing(env.edges, id, 0) {
        scans_find_the_first_source(env.edges, id, 0, id);
    }
    if reads_value(env, cache, id, DetailView::Assignments(assigned)) {
        lemma_reads_value(env, cache, id, DetailView::Assignments(assigned));
    }
    if reads_value(env, cache, id, DetailView::Positions(points)) {
        lemma_reads_value(env, cache, id, DetailView::Positions(points));
    }
}

/// A run goes on from each node to the next and ends behind the last: a paint node adds a
/// layer behind those painted so far, a scatter node the instances of the candidates it
/// reads behind those placed so far, a node that is held already adds nothing, and one that
/// can be filled is held from then on.
pub proof fn runs_add_what_each_node_gives(
    env: DetailEnv,
    order: Seq<NodeId>,
    i: int,
    cache: Map<u64, DetailView>,
    paint: Seq<PaintView>,
    scatter: Seq<BucketView>,
    assigned: Seq<(DetailPoint, u8)>,
    value: DetailView,
)
    requires
        0 <= i <= order.len(),
    ensures
        i == order.len() ==> detail_run(env, order, i, cache, paint, scatter) == (
            DetailProgress::Done { paint, scatter },
            cache,
        ),
        i < order.len() ==> {
            let id = order[i];
            let kind = env.nodes[id].kind;
            let now = detail_run(env, order, i, cache, paint, scatter);
            &&& kind matches NodeKind::PaintDensity(p) ==> now == detail_run(
                env,
                order,
                i + 1,
                cache,
                paint.push(paint_of(env.ground, p)),
                scatter,
            )
            &&& kind matches NodeKind::ScatterPlace(p) ==> reads_value(
                env,
                cache,
                id,
                DetailView::Assignments(assigned),
            ) ==> now == detail_run(
                env,
                order,
                i + 1,
                cache,
                paint,
                scatter.push(
                    BucketView {
                        type_id: p.type_id,
                        instances: scattered(env.ground, p.seed, p.prefab_id, assigned),
                    },
                ),
            )
            &&& !(kind is PaintDensity || kind is ScatterPlace) && cache.contains_key(id.code())
                ==> now == detail_run(env, order, i + 1, cache, paint, scatter)
            &&& !(kind is PaintDensity || kind is ScatterPlace) && !cache.contains_key(id.code())
                && detail_fill(env, cache, id) == Ok::<DetailFillView, EvalError>(
                DetailFillView::Ready(value),
            ) ==> now == detail_run(
                env,
                order,
                i + 1,
                cache.insert(id.code(), value),
                paint,
                scatter,
            )
        },
{
    if i < order.len() && reads_value(env, cache, order[i], DetailView::Assignments(assigned)) {
        lemma_reads_value(env, cache, order[i], DetailView::Assignments(assigned));
    }
}

} // verus!
