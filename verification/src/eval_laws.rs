//! Laws of biome-graph evaluation: what is cached does not depend on the order of
//! filling, and single values agree with whole-chunk filling.
use crate::cache::OutputView;
use crate::column_eval::{depth, upstream_field, upstream_node};
use crate::column_laws::{
    faithful as columns_faithful, single_columns_agree_with_filling, upstream_env, NoiseModel,
};
use crate::eval::{eval_run, Progress};
use crate::eval_error::EvalError;
use crate::eval_model::{
    input_output, input_steps, node_fill, position_input_steps, position_steps, probeable,
    reference_name, sample_steps, scalar_input, scalar_inputs, upstream_plan, vec3_input, EvalEnv,
    FillView, SampleStep, WorkView,
};
use crate::field::Vec3;
use crate::index::{indexed_source, lemma_source_edge};
use crate::ids::GraphKind;
use crate::node::NodeKind;
use crate::operation::{noise_source, operator, NoiseSource, ScalarOp};
use crate::order::{live, settles, settles_within};
use crate::params::{Axis, DomainWarpParams, JitteredGridParams, PoissonDiskParams, YBandParams};
use crate::scalar::Single;
use crate::scatter::ScatterPoint;
use crate::slots::{code_identifies, NodeId};
use crate::soundness::sound_edges;
use crate::validate::edge_problem;
use vstd::prelude::*;

verus! {

/// Some arithmetic: what each operation gives, cell by cell.
pub struct Arithmetic {
    /// An operation on the values of a cell.
    pub apply: spec_fn(ScalarOp<'static>, Seq<Single>, int) -> Single,
    /// Noise at a position.
    pub noise: spec_fn(NoiseSource, i32, Vec3) -> Single,
    /// The world position of a cell.
    pub position: spec_fn(int) -> Vec3,
    /// One coordinate of the world position of a cell.
    pub axis: spec_fn(Axis, int) -> Single,
    /// Whether the height of a cell is in a range, as one or zero.
    pub band: spec_fn(YBandParams, int) -> Single,
    /// A position displaced by noise.
    pub warp: spec_fn(DomainWarpParams, (i32, i32), Vec3) -> Vec3,
    /// Cave noise at a position.
    pub cave: spec_fn(i32, Vec3) -> Single,
    /// Per-column noise, by column.
    pub column: NoiseModel,
    /// Points on a jittered grid.
    pub jittered: spec_fn(JitteredGridParams) -> Seq<ScatterPoint>,
    /// Points by Poisson-disk sampling.
    pub poisson: spec_fn(PoissonDiskParams) -> Seq<ScatterPoint>,
}

/// The values of a cell in several fields.
pub open spec fn cell_values(inputs: Seq<Seq<Single>>, i: int) -> Seq<Single> {
    inputs.map_values(|f: Seq<Single>| f[i])
}

/// What some work gives.
pub open spec fn work_value(m: Arithmetic, work: WorkView<'static>) -> OutputView {
    match work {
        WorkView::Apply { op, inputs } => OutputView::Scalar(
            Seq::new(32768, |i: int| (m.apply)(op, cell_values(inputs, i), i)),
        ),
        WorkView::Noise { source, seed, positions } => OutputView::Scalar(
            match positions {
                None => Seq::new(32768, |i: int| (m.noise)(source, seed, (m.position)(i))),
                Some(p) => Seq::new(32768, |i: int| (m.noise)(source, seed, p[i])),
            },
        ),
        WorkView::WorldPos => OutputView::Vec3(Seq::new(32768, |i: int| (m.position)(i))),
        WorkView::WorldAxis(axis) => OutputView::Scalar(
            Seq::new(32768, |i: int| (m.axis)(axis, i)),
        ),
        WorkView::YBand(p) => OutputView::Scalar(Seq::new(32768, |i: int| (m.band)(p, i))),
        WorkView::Warp { params, seeds, positions } => OutputView::Vec3(
            Seq::new(32768, |i: int| (m.warp)(params, seeds, positions[i])),
        ),
        WorkView::Cave { seed, positions } => OutputView::Scalar(
            Seq::new(32768, |i: int| (m.cave)(seed, positions[i])),
        ),
        WorkView::JitteredGrid(p) => OutputView::Positions((m.jittered)(p)),
        WorkView::PoissonDisk(p) => OutputView::Positions((m.poisson)(p)),
    }
}

/// What a fill stands for, given the arithmetic.
pub open spec fn fill_value(m: Arithmetic, fill: FillView<'static>) -> OutputView {
    match fill {
        FillView::Ready(out) => out,
        FillView::Needed(work) => work_value(m, work),
    }
}

/// Whether a node's cached output is what filling it gives.
pub open spec fn faithful_at(
    env: EvalEnv,
    cache: Map<u64, OutputView>,
    m: Arithmetic,
    id: NodeId,
) -> bool {
    match node_fill::<'static>(env, cache, id) {
        Ok(fill) => cache[id.code()] == fill_value(m, fill),
        Err(_) => false,
    }
}

/// Whether what is cached is cached for nodes of the graph, and is what filling
/// them gives.
pub open spec fn faithful(env: EvalEnv, cache: Map<u64, OutputView>, m: Arithmetic) -> bool {
    forall|id: NodeId| #[trigger]
        cache.contains_key(id.code()) ==> env.nodes.contains_key(id) && faithful_at(
            env,
            cache,
            m,
            id,
        )
}

/// Whether one cache holds everything that another holds.
pub open spec fn extends(a: Map<u64, OutputView>, b: Map<u64, OutputView>) -> bool {
    forall|k: u64| #[trigger] a.contains_key(k) ==> b.contains_key(k) && a[k] == b[k]
}

proof fn lemma_input_monotone(
    env: EvalEnv,
    a: Map<u64, OutputView>,
    b: Map<u64, OutputView>,
    id: NodeId,
    pin: u16,
)
    requires
        extends(a, b),
        input_output(env, a, id, pin) is Ok,
    ensures
        input_output(env, b, id, pin) == input_output(env, a, id, pin),
{
    let from = indexed_source(env.edges, id, pin)->0;
    assert(a.contains_key(from.node.code()));
}

proof fn lemma_scalars_monotone(
    env: EvalEnv,
    a: Map<u64, OutputView>,
    b: Map<u64, OutputView>,
    id: NodeId,
    k: nat,
)
    requires
        extends(a, b),
        scalar_inputs(env, a, id, k) is Ok,
    ensures
        scalar_inputs(env, b, id, k) == scalar_inputs(env, a, id, k),
    decreases k,
{
    if k > 0 {
        lemma_scalars_monotone(env, a, b, id, (k - 1) as nat);
        lemma_input_monotone(env, a, b, id, (k - 1) as u16);
    }
}

proof fn lemma_fill_monotone(
    env: EvalEnv,
    a: Map<u64, OutputView>,
    b: Map<u64, OutputView>,
    id: NodeId,
)
    requires
        extends(a, b),
        node_fill::<'static>(env, a, id) is Ok,
    ensures
        node_fill::<'static>(env, b, id) == node_fill::<'static>(env, a, id),
{
    if operator(&env.nodes[id].kind) is Some {
        lemma_scalars_monotone(env, a, b, id, operator(&env.nodes[id].kind)->0.arity());
    } else {
        if input_output(env, a, id, 0) is Ok {
            lemma_input_monotone(env, a, b, id, 0);
        }
        if input_output(env, a, id, 1) is Ok {
            lemma_input_monotone(env, a, b, id, 1);
        }
    }
}

/// Adding a node's own output to what is cached keeps the cache faithful.
pub proof fn filling_keeps_the_cache_faithful(
    env: EvalEnv,
    cache: Map<u64, OutputView>,
    m: Arithmetic,
    id: NodeId,
)
    requires
        faithful(env, cache, m),
        env.nodes.contains_key(id),
        !cache.contains_key(id.code()),
        node_fill::<'static>(env, cache, id) is Ok,
    ensures
        faithful(
            env,
            cache.insert(
                id.code(),
                fill_value(m, node_fill::<'static>(env, cache, id)->Ok_0),
            ),
            m,
        ),
{
    let out = fill_value(m, node_fill::<'static>(env, cache, id)->Ok_0);
    let after = cache.insert(id.code(), out);
    assert(extends(cache, after));
    assert forall|k: NodeId| #[trigger]
        after.contains_key(k.code()) implies env.nodes.contains_key(k) && faithful_at(
        env,
        after,
        m,
        k,
    ) by {
        code_identifies(k, id);
        if k == id {
            lemma_fill_monotone(env, cache, after, id);
        } else {
            assert(cache.contains_key(k.code()));
            lemma_fill_monotone(env, cache, after, k);
        }
    }
}

/// Evaluation keeps a faithful cache faithful, and when it is done every node in
/// the order is cached.
pub proof fn evaluation_is_faithful(
    env: EvalEnv,
    order: Seq<NodeId>,
    i: int,
    cache: Map<u64, OutputView>,
    m: Arithmetic,
)
    requires
        faithful(env, cache, m),
        0 <= i <= order.len(),
        forall|k: int| 0 <= k < order.len() ==> env.nodes.contains_key(#[trigger] order[k]),
        forall|k: int| 0 <= k < i ==> cache.contains_key((#[trigger] order[k]).code()),
    ensures
        faithful(env, eval_run::<'static>(env, order, i, cache).1, m),
        extends(cache, eval_run::<'static>(env, order, i, cache).1),
        eval_run::<'static>(env, order, i, cache).0 is Done ==> forall|k: int|
            0 <= k < order.len() ==> eval_run::<'static>(env, order, i, cache).1.contains_key(
                (#[trigger] order[k]).code(),
            ),
        match eval_run::<'static>(env, order, i, cache).0 {
            Progress::Work { node, work } => {
                let after = eval_run::<'static>(env, order, i, cache).1;
                &&& env.nodes.contains_key(node)
                &&& !after.contains_key(node.code())
                &&& node_fill::<'static>(env, after, node) == Ok::<FillView<'static>, EvalError>(
                    FillView::Needed(work),
                )
            },
            _ => true,
        },
    decreases order.len() - i,
{
    if i < order.len() {
        assert(env.nodes.contains_key(order[i]));
        if cache.contains_key(order[i].code()) {
            evaluation_is_faithful(env, order, i + 1, cache, m);
        } else {
            match node_fill::<'static>(env, cache, order[i]) {
                Ok(FillView::Ready(out)) => {
                    filling_keeps_the_cache_faithful(env, cache, m, order[i]);
                    let after = cache.insert(order[i].code(), out);
                    assert(extends(cache, after));
                    assert forall|k: int| 0 <= k < i + 1 implies after.contains_key(
                        (#[trigger] order[k]).code(),
                    ) by {
                        if k < i {
                            assert(cache.contains_key(order[k].code()));
                        }
                    }
                    evaluation_is_faithful(env, order, i + 1, after, m);
                    let end = eval_run::<'static>(env, order, i + 1, after).1;
                    assert forall|k: u64| #[trigger] cache.contains_key(k) implies end.contains_key(
                        k,
                    ) && cache[k] == end[k] by {
                        assert(after.contains_key(k));
                    }
                },
                _ => {},
            }
        }
    }
}

/// Outputs are a function of the graph and the arithmetic alone: two faithful
/// caches agree on every node that both hold, in whatever order they were filled.
pub proof fn filling_order_does_not_matter(
    env: EvalEnv,
    a: Map<u64, OutputView>,
    b: Map<u64, OutputView>,
    m: Arithmetic,
    id: NodeId,
)
    requires
        faithful(env, a, m),
        faithful(env, b, m),
        a.contains_key(id.code()),
        b.contains_key(id.code()),
        settles(env.nodes, env.edges, id),
    ensures
        a[id.code()] == b[id.code()],
{
    let n = choose|n: nat| settles_within(env.nodes, env.edges, id, n);
    lemma_outputs_agree(env, a, b, m, id, n);
}

proof fn lemma_outputs_agree(
    env: EvalEnv,
    a: Map<u64, OutputView>,
    b: Map<u64, OutputView>,
    m: Arithmetic,
    id: NodeId,
    n: nat,
)
    requires
        faithful(env, a, m),
        faithful(env, b, m),
        a.contains_key(id.code()),
        b.contains_key(id.code()),
        settles_within(env.nodes, env.edges, id, n),
    ensures
        a[id.code()] == b[id.code()],
    decreases n,
{
    assert(faithful_at(env, a, m, id));
    assert(faithful_at(env, b, m, id));
    assert forall|pin: u16|
        input_output(env, a, id, pin) is Ok && input_output(env, b, id, pin) is Ok implies (
    #[trigger] input_output(env, a, id, pin)) == input_output(env, b, id, pin) by {
        let from = indexed_source(env.edges, id, pin)->0;
        let k = lemma_source_edge(env.edges, id, pin);
        assert(a.contains_key(from.node.code()));
        assert(live(env.nodes, env.edges, k));
        lemma_outputs_agree(env, a, b, m, from.node, (n - 1) as nat);
    }
    if operator(&env.nodes[id].kind) is Some {
        lemma_scalars_agree(env, a, b, id, operator(&env.nodes[id].kind)->0.arity());
    } else {
        assert(input_output(env, a, id, 0) is Ok && input_output(env, b, id, 0) is Ok
            ==> input_output(env, a, id, 0) == input_output(env, b, id, 0));
        assert(input_output(env, a, id, 1) is Ok && input_output(env, b, id, 1) is Ok
            ==> input_output(env, a, id, 1) == input_output(env, b, id, 1));
    }
}

proof fn lemma_scalars_agree(
    env: EvalEnv,
    a: Map<u64, OutputView>,
    b: Map<u64, OutputView>,
    id: NodeId,
    k: nat,
)
    requires
        scalar_inputs(env, a, id, k) is Ok,
        scalar_inputs(env, b, id, k) is Ok,
        forall|pin: u16|
            input_output(env, a, id, pin) is Ok && input_output(env, b, id, pin) is Ok ==> (
            #[trigger] input_output(env, a, id, pin)) == input_output(env, b, id, pin),
    ensures
        scalar_inputs(env, a, id, k) == scalar_inputs(env, b, id, k),
    decreases k,
{
    if k > 0 {
        lemma_scalars_agree(env, a, b, id, (k - 1) as nat);
        let pin = (k - 1) as u16;
        assert(input_output(env, a, id, pin) is Ok && input_output(env, b, id, pin) is Ok);
    }
}

/// An entry of the stack that single values are computed on.
pub enum StackCell {
    /// A number.
    Number(Single),
    /// A position.
    Place(Vec3),
}

/// The number of an entry.
pub open spec fn number(c: StackCell) -> Single {
    match c {
        StackCell::Number(v) => v,
        StackCell::Place(p) => p.x,
    }
}

/// The position of an entry.
pub open spec fn place(c: StackCell) -> Vec3 {
    match c {
        StackCell::Number(v) => Vec3 { x: v, y: v, z: v },
        StackCell::Place(p) => p,
    }
}

/// The column of a cell.
pub open spec fn column_of(i: int) -> int {
    i % 32 + 32 * (i / 1024)
}

/// The stack after one step, at a cell.
pub open spec fn after_step(
    m: Arithmetic,
    stack: Seq<StackCell>,
    step: SampleStep<'static>,
    i: int,
) -> Seq<StackCell> {
    match step {
        SampleStep::Value(v) => stack.push(StackCell::Number(v)),
        SampleStep::Noise { source, seed } => stack.push(
            StackCell::Number((m.noise)(source, seed, (m.position)(i))),
        ),
        SampleStep::NoiseAt { source, seed } => stack.drop_last().push(
            StackCell::Number((m.noise)(source, seed, place(stack.last()))),
        ),
        SampleStep::WorldAxis(axis) => stack.push(StackCell::Number((m.axis)(axis, i))),
        SampleStep::YBand(p) => stack.push(StackCell::Number((m.band)(p, i))),
        SampleStep::Apply(op) => {
            let base = stack.len() - op.arity();
            stack.take(base).push(
                StackCell::Number(
                    (m.apply)(op, stack.skip(base).map_values(|c: StackCell| number(c)), i),
                ),
            )
        },
        SampleStep::Position => stack.push(StackCell::Place((m.position)(i))),
        SampleStep::Warp { params, seeds } => stack.drop_last().push(
            StackCell::Place((m.warp)(params, seeds, place(stack.last()))),
        ),
        SampleStep::Cave { seed } => stack.drop_last().push(
            StackCell::Number((m.cave)(seed, place(stack.last()))),
        ),
        SampleStep::Column { params, seed } => stack.push(
            StackCell::Number((m.column)(params, seed, column_of(i))),
        ),
    }
}

/// The stack after steps, at a cell.
pub open spec fn after_steps(
    m: Arithmetic,
    stack: Seq<StackCell>,
    steps: Seq<SampleStep<'static>>,
    i: int,
) -> Seq<StackCell>
    decreases steps.len(),
{
    if steps.len() == 0 {
        stack
    } else {
        after_step(m, after_steps(m, stack, steps.drop_last(), i), steps.last(), i)
    }
}

proof fn lemma_steps_join(
    m: Arithmetic,
    stack: Seq<StackCell>,
    a: Seq<SampleStep<'static>>,
    b: Seq<SampleStep<'static>>,
    i: int,
)
    ensures
        after_steps(m, stack, a + b, i) == after_steps(m, after_steps(m, stack, a, i), b, i),
    decreases b.len(),
{
    if b.len() == 0 {
        assert(a + b =~= a);
    } else {
        lemma_steps_join(m, stack, a, b.drop_last(), i);
        assert((a + b).drop_last() =~= a + b.drop_last());
    }
}

proof fn lemma_one_step(
    m: Arithmetic,
    stack: Seq<StackCell>,
    step: SampleStep<'static>,
    i: int,
)
    ensures
        after_steps(m, stack, seq![step], i) == after_step(m, stack, step, i),
{
    assert(seq![step].drop_last() =~= Seq::<SampleStep<'static>>::empty());
    assert(after_steps(m, stack, Seq::<SampleStep<'static>>::empty(), i) == stack);
}

/// What single values assume: a faithful cache, and faithful columns in the graphs
/// that references read.
pub open spec fn comparable(env: EvalEnv, cache: Map<u64, OutputView>, m: Arithmetic) -> bool {
    &&& faithful(env, cache, m)
    &&& env.upstream is Some ==> forall|k: u32| #[trigger]
        env.upstream->0.contains_key(k) ==> columns_faithful(
            upstream_env(env.upstream->0[k]),
            env.upstream->0[k].cache,
            m.column,
        )
}

/// A single value agrees with whole-chunk filling: wherever a cached node's value
/// can be computed step by step, the steps leave on the stack what is cached at
/// the cell.
pub proof fn single_values_agree_with_filling(
    env: EvalEnv,
    cache: Map<u64, OutputView>,
    m: Arithmetic,
    id: NodeId,
    i: int,
    stack: Seq<StackCell>,
)
    requires
        comparable(env, cache, m),
        probeable(env, id),
        cache.contains_key(id.code()),
        0 <= i < 32768,
    ensures
        match sample_steps::<'static>(env, id, depth(env.nodes, env.edges, id)) {
            Ok(steps) => match cache[id.code()] {
                OutputView::Scalar(f) => after_steps(m, stack, steps, i) == stack.push(
                    StackCell::Number(f[i]),
                ),
                _ => false,
            },
            Err(_) => true,
        },
{
    let n = depth(env.nodes, env.edges, id);
    assert(settles_within(env.nodes, env.edges, id, n));
    lemma_sample(env, cache, m, id, i, stack, n);
}

proof fn lemma_sample(
    env: EvalEnv,
    cache: Map<u64, OutputView>,
    m: Arithmetic,
    id: NodeId,
    i: int,
    stack: Seq<StackCell>,
    n: nat,
)
    requires
        comparable(env, cache, m),
        probeable(env, id),
        cache.contains_key(id.code()),
        settles_within(env.nodes, env.edges, id, n),
        0 <= i < 32768,
    ensures
        match sample_steps::<'static>(env, id, n) {
            Ok(steps) => match cache[id.code()] {
                OutputView::Scalar(f) => after_steps(m, stack, steps, i) == stack.push(
                    StackCell::Number(f[i]),
                ),
                _ => false,
            },
            Err(_) => true,
        },
    decreases n, 2int, 0nat,
{
    assert(faithful_at(env, cache, m, id));
    if let Ok(steps) = sample_steps::<'static>(env, id, n) {
        let kind = env.nodes[id].kind;
        if operator(&kind) is Some {
            lemma_sample_operator(env, cache, m, id, i, stack, n);
        } else if kind is SurfaceToDensity || kind is Output {
            lemma_sample_pass(env, cache, m, id, i, stack, n);
        } else if kind is LibraryRef || (noise_source(kind) is Some && indexed_source(
            env.edges,
            id,
            0,
        ) is Some) {
            lemma_sample_at_place(env, cache, m, id, i, stack, n);
        } else if kind is GraphRef {
            lemma_upstream_value(env, cache, m, id, i);
            assert(steps =~= seq![steps[0]]);
            lemma_one_step(m, stack, steps[0], i);
        } else {
            assert(steps =~= seq![steps[0]]);
            lemma_one_step(m, stack, steps[0], i);
        }
    }
}

proof fn lemma_sample_operator(
    env: EvalEnv,
    cache: Map<u64, OutputView>,
    m: Arithmetic,
    id: NodeId,
    i: int,
    stack: Seq<StackCell>,
    n: nat,
)
    requires
        comparable(env, cache, m),
        probeable(env, id),
        cache.contains_key(id.code()),
        settles_within(env.nodes, env.edges, id, n),
        operator(&env.nodes[id].kind) is Some,
        sample_steps::<'static>(env, id, n) is Ok,
        0 <= i < 32768,
    ensures
        match cache[id.code()] {
            OutputView::Scalar(f) => after_steps(
                m,
                stack,
                sample_steps::<'static>(env, id, n)->Ok_0,
                i,
            ) == stack.push(StackCell::Number(f[i])),
            _ => false,
        },
    decreases n, 1int, 4nat,
{
    assert(faithful_at(env, cache, m, id));
    let op = operator(&env.nodes[id].kind)->0;
    lemma_sample_inputs(env, cache, m, id, i, stack, n, op.arity());
    let ins = input_steps::<'static>(env, id, op.arity(), n)->Ok_0;
    let fields = scalar_inputs(env, cache, id, op.arity())->Ok_0;
    lemma_steps_join(m, stack, ins, seq![SampleStep::Apply(op)], i);
    assert(ins.push(SampleStep::Apply(op)) =~= ins + seq![SampleStep::Apply(op)]);
    let mid = after_steps(m, stack, ins, i);
    lemma_one_step(m, mid, SampleStep::Apply(op), i);
    assert(mid.take(mid.len() - op.arity()) =~= stack);
    assert(mid.skip(mid.len() - op.arity()).map_values(|c: StackCell| number(c))
        =~= cell_values(fields, i));
}

proof fn lemma_sample_pass(
    env: EvalEnv,
    cache: Map<u64, OutputView>,
    m: Arithmetic,
    id: NodeId,
    i: int,
    stack: Seq<StackCell>,
    n: nat,
)
    requires
        comparable(env, cache, m),
        probeable(env, id),
        cache.contains_key(id.code()),
        settles_within(env.nodes, env.edges, id, n),
        env.nodes[id].kind is SurfaceToDensity || env.nodes[id].kind is Output,
        sample_steps::<'static>(env, id, n) is Ok,
        0 <= i < 32768,
    ensures
        match cache[id.code()] {
            OutputView::Scalar(f) => after_steps(
                m,
                stack,
                sample_steps::<'static>(env, id, n)->Ok_0,
                i,
            ) == stack.push(StackCell::Number(f[i])),
            _ => false,
        },
    decreases n, 1int, 4nat,
{
    assert(faithful_at(env, cache, m, id));
    reveal_with_fuel(scalar_inputs, 2);
    lemma_sample_inputs(env, cache, m, id, i, stack, n, 1);
    lemma_pass(env, cache, id, i, stack);
}

proof fn lemma_sample_at_place(
    env: EvalEnv,
    cache: Map<u64, OutputView>,
    m: Arithmetic,
    id: NodeId,
    i: int,
    stack: Seq<StackCell>,
    n: nat,
)
    requires
        comparable(env, cache, m),
        probeable(env, id),
        cache.contains_key(id.code()),
        settles_within(env.nodes, env.edges, id, n),
        env.nodes[id].kind is LibraryRef || (noise_source(env.nodes[id].kind) is Some
            && indexed_source(env.edges, id, 0) is Some),
        sample_steps::<'static>(env, id, n) is Ok,
        0 <= i < 32768,
    ensures
        match cache[id.code()] {
            OutputView::Scalar(f) => after_steps(
                m,
                stack,
                sample_steps::<'static>(env, id, n)->Ok_0,
                i,
            ) == stack.push(StackCell::Number(f[i])),
            _ => false,
        },
    decreases n, 1int, 4nat,
{
    assert(faithful_at(env, cache, m, id));
    let steps = sample_steps::<'static>(env, id, n)->Ok_0;
    lemma_position_input(env, cache, m, id, i, stack, n);
    let ins = position_input_steps::<'static>(env, id, n)->Ok_0;
    let step = steps.last();
    assert(steps =~= ins + seq![step]);
    lemma_steps_join(m, stack, ins, seq![step], i);
    let mid = after_steps(m, stack, ins, i);
    lemma_one_step(m, mid, step, i);
    assert(mid.drop_last() =~= stack);
}

proof fn lemma_pass(
    env: EvalEnv,
    cache: Map<u64, OutputView>,
    id: NodeId,
    i: int,
    stack: Seq<StackCell>,
)
    requires
        scalar_inputs(env, cache, id, 1) is Ok,
    ensures
        scalar_input(env, cache, id, 0) is Ok,
        stack + cell_values(scalar_inputs(env, cache, id, 1)->Ok_0, i).map_values(
            |v: Single| StackCell::Number(v),
        ) == stack.push(StackCell::Number(scalar_input(env, cache, id, 0)->Ok_0[i])),
{
    reveal_with_fuel(scalar_inputs, 2);
    let fields = scalar_inputs(env, cache, id, 1)->Ok_0;
    assert(fields =~= seq![scalar_input(env, cache, id, 0)->Ok_0]);
    assert(stack + cell_values(fields, i).map_values(|v: Single| StackCell::Number(v))
        =~= stack.push(StackCell::Number(scalar_input(env, cache, id, 0)->Ok_0[i])));
}

proof fn lemma_sample_inputs(
    env: EvalEnv,
    cache: Map<u64, OutputView>,
    m: Arithmetic,
    id: NodeId,
    i: int,
    stack: Seq<StackCell>,
    n: nat,
    k: nat,
)
    requires
        comparable(env, cache, m),
        probeable(env, id),
        env.nodes.contains_key(id),
        settles_within(env.nodes, env.edges, id, n),
        input_steps::<'static>(env, id, k, n) is Ok,
        0 <= i < 32768,
        k <= 3,
        scalar_inputs(env, cache, id, k) is Ok,
    ensures
        scalar_inputs(env, cache, id, k)->Ok_0.len() == k,
        after_steps(m, stack, input_steps::<'static>(env, id, k, n)->Ok_0, i) == stack
            + cell_values(scalar_inputs(env, cache, id, k)->Ok_0, i).map_values(
            |v: Single| StackCell::Number(v),
        ),
    decreases n, 1int, k,
{
    if k == 0 {
        assert(stack + cell_values(Seq::empty(), i).map_values(|v: Single| StackCell::Number(v))
            =~= stack);
    } else {
        let pin = (k - 1) as u16;
        lemma_sample_inputs(env, cache, m, id, i, stack, n, (k - 1) as nat);
        let from = indexed_source(env.edges, id, pin)->0;
        let e = lemma_source_edge(env.edges, id, pin);
        assert(live(env.nodes, env.edges, e));
        assert(settles_within(env.nodes, env.edges, from.node, (n - 1) as nat));
        let a = input_steps::<'static>(env, id, (k - 1) as nat, n)->Ok_0;
        let b = sample_steps::<'static>(env, from.node, (n - 1) as nat)->Ok_0;
        let mid = after_steps(m, stack, a, i);
        assert(scalar_input(env, cache, id, pin) is Ok);
        assert(cache.contains_key(from.node.code()));
        lemma_sample(env, cache, m, from.node, i, mid, (n - 1) as nat);
        lemma_steps_join(m, stack, a, b, i);
        let before = scalar_inputs(env, cache, id, (k - 1) as nat)->Ok_0;
        let f = scalar_input(env, cache, id, pin)->Ok_0;
        let all = scalar_inputs(env, cache, id, k)->Ok_0;
        assert(all == before.push(f));
        assert(stack + cell_values(all, i).map_values(|v: Single| StackCell::Number(v)) =~= (stack
            + cell_values(before, i).map_values(|v: Single| StackCell::Number(v))).push(
            StackCell::Number(f[i]),
        ));
    }
}

proof fn lemma_position_input(
    env: EvalEnv,
    cache: Map<u64, OutputView>,
    m: Arithmetic,
    id: NodeId,
    i: int,
    stack: Seq<StackCell>,
    n: nat,
)
    requires
        comparable(env, cache, m),
        probeable(env, id),
        env.nodes.contains_key(id),
        settles_within(env.nodes, env.edges, id, n),
        position_input_steps::<'static>(env, id, n) is Ok,
        vec3_input(env, cache, id, 0) is Ok,
        0 <= i < 32768,
    ensures
        after_steps(m, stack, position_input_steps::<'static>(env, id, n)->Ok_0, i) == stack.push(
            StackCell::Place(vec3_input(env, cache, id, 0)->Ok_0[i]),
        ),
    decreases n, 1int, 0nat,
{
    let from = indexed_source(env.edges, id, 0)->0;
    let e = lemma_source_edge(env.edges, id, 0);
    assert(live(env.nodes, env.edges, e));
    assert(settles_within(env.nodes, env.edges, from.node, (n - 1) as nat));
    assert(cache.contains_key(from.node.code()));
    lemma_position(env, cache, m, from.node, i, stack, (n - 1) as nat);
}

proof fn lemma_position(
    env: EvalEnv,
    cache: Map<u64, OutputView>,
    m: Arithmetic,
    id: NodeId,
    i: int,
    stack: Seq<StackCell>,
    n: nat,
)
    requires
        comparable(env, cache, m),
        probeable(env, id),
        cache.contains_key(id.code()),
        settles_within(env.nodes, env.edges, id, n),
        position_steps::<'static>(env, id, n) is Ok,
        0 <= i < 32768,
    ensures
        match cache[id.code()] {
            OutputView::Vec3(f) => after_steps(
                m,
                stack,
                position_steps::<'static>(env, id, n)->Ok_0,
                i,
            ) == stack.push(StackCell::Place(f[i])),
            _ => false,
        },
    decreases n, 2int, 0nat,
{
    assert(faithful_at(env, cache, m, id));
    let steps = position_steps::<'static>(env, id, n)->Ok_0;
    match env.nodes[id].kind {
        NodeKind::WorldPos(_) => {
            assert(steps =~= seq![steps[0]]);
            lemma_one_step(m, stack, steps[0], i);
        },
        NodeKind::DomainWarp(p) => {
            lemma_position_input(env, cache, m, id, i, stack, n);
            let ins = position_input_steps::<'static>(env, id, n)->Ok_0;
            let step = steps.last();
            assert(steps =~= ins + seq![step]);
            lemma_steps_join(m, stack, ins, seq![step], i);
            let mid = after_steps(m, stack, ins, i);
            lemma_one_step(m, mid, step, i);
            assert(mid.drop_last() =~= stack);
        },
        _ => {},
    }
}

proof fn lemma_upstream_value(
    env: EvalEnv,
    cache: Map<u64, OutputView>,
    m: Arithmetic,
    id: NodeId,
    i: int,
)
    requires
        comparable(env, cache, m),
        probeable(env, id),
        cache.contains_key(id.code()),
        env.nodes[id].kind is GraphRef,
        0 <= i < 32768,
    ensures
        match reference_name(env, id) {
            Ok(name) => match upstream_plan(
                env.upstream->0,
                env.nodes[id].kind->GraphRef_0.target,
                name,
                id,
            ) {
                Ok(plan) => match cache[id.code()] {
                    OutputView::Scalar(f) => f[i] == (m.column)(
                        plan.params,
                        plan.seed,
                        column_of(i),
                    ),
                    _ => false,
                },
                Err(_) => true,
            },
            Err(_) => true,
        },
{
    assert(faithful_at(env, cache, m, id));
    let target = env.nodes[id].kind->GraphRef_0.target;
    if let Ok(name) = reference_name(env, id) {
        let graphs = env.upstream->0;
        if upstream_field(graphs, target, name, id) is Ok && upstream_plan(
            graphs,
            target,
            name,
            id,
        ) is Ok {
            let up = graphs[target.rank()];
            let out = upstream_node(graphs, target, name, id)->Ok_0;
            let inner = upstream_env(up);
            assert(graphs.contains_key(target.rank()));
            assert(up.cache.contains_key(out.code()));
            assert(inner.nodes.contains_key(out));
            assert(graphs[target.rank()].nodes.contains_key(out));
            assert(settles(up.nodes, up.edges, out));
            single_columns_agree_with_filling(inner, up.cache, m.column, out, column_of(i));
        }
    }
}

/// Every cached scalar but a pond's can be computed singly, when the edges are sound:
/// with that, and the agreement of single values, single values are what is cached.
pub proof fn cached_scalars_can_be_computed_singly(
    kind: GraphKind,
    env: EvalEnv,
    cache: Map<u64, OutputView>,
    m: Arithmetic,
    id: NodeId,
)
    requires
        sound_edges(kind, env.nodes, env.edges),
        comparable(env, cache, m),
        probeable(env, id),
        cache.contains_key(id.code()),
        cache[id.code()] is Scalar,
        env.nodes[id].kind !is FluidOutput,
    ensures
        sample_steps::<'static>(env, id, depth(env.nodes, env.edges, id)) is Ok,
{
    let n = depth(env.nodes, env.edges, id);
    assert(settles_within(env.nodes, env.edges, id, n));
    lemma_sample_succeeds(kind, env, cache, m, id, n);
}

proof fn lemma_sample_succeeds(
    kind: GraphKind,
    env: EvalEnv,
    cache: Map<u64, OutputView>,
    m: Arithmetic,
    id: NodeId,
    n: nat,
)
    requires
        sound_edges(kind, env.nodes, env.edges),
        comparable(env, cache, m),
        probeable(env, id),
        cache.contains_key(id.code()),
        cache[id.code()] is Scalar,
        env.nodes[id].kind !is FluidOutput,
        settles_within(env.nodes, env.edges, id, n),
    ensures
        sample_steps::<'static>(env, id, n) is Ok,
    decreases n, 2int, 0nat,
{
    assert(faithful_at(env, cache, m, id));
    let node = env.nodes[id].kind;
    if operator(&node) is Some {
        lemma_inputs_succeed(kind, env, cache, m, id, n, operator(&node)->0.arity());
    } else if noise_source(node) is Some {
        if indexed_source(env.edges, id, 0) is Some {
            lemma_position_input_succeeds(kind, env, cache, m, id, n);
        }
    } else if node is SurfaceToDensity || node is Output {
        reveal_with_fuel(scalar_inputs, 2);
        lemma_inputs_succeed(kind, env, cache, m, id, n, 1);
    } else if node is LibraryRef {
        lemma_position_input_succeeds(kind, env, cache, m, id, n);
    } else if node is GraphRef {
        lemma_reference_succeeds(env, cache, m, id);
    }
}

proof fn lemma_inputs_succeed(
    kind: GraphKind,
    env: EvalEnv,
    cache: Map<u64, OutputView>,
    m: Arithmetic,
    id: NodeId,
    n: nat,
    k: nat,
)
    requires
        sound_edges(kind, env.nodes, env.edges),
        comparable(env, cache, m),
        probeable(env, id),
        env.nodes.contains_key(id),
        settles_within(env.nodes, env.edges, id, n),
        k <= 3,
        scalar_inputs(env, cache, id, k) is Ok,
    ensures
        input_steps::<'static>(env, id, k, n) is Ok,
    decreases n, 1int, k,
{
    if k > 0 {
        let pin = (k - 1) as u16;
        lemma_inputs_succeed(kind, env, cache, m, id, n, (k - 1) as nat);
        let from = indexed_source(env.edges, id, pin)->0;
        let e = lemma_source_edge(env.edges, id, pin);
        assert(edge_problem(kind, env.nodes, env.edges[e]) is None);
        assert(live(env.nodes, env.edges, e));
        assert(settles_within(env.nodes, env.edges, from.node, (n - 1) as nat));
        assert(scalar_input(env, cache, id, pin) is Ok);
        assert(cache.contains_key(from.node.code()));
        assert(env.nodes[from.node].kind.outputs_in(kind).len() > 0);
        lemma_sample_succeeds(kind, env, cache, m, from.node, (n - 1) as nat);
    }
}

proof fn lemma_position_input_succeeds(
    kind: GraphKind,
    env: EvalEnv,
    cache: Map<u64, OutputView>,
    m: Arithmetic,
    id: NodeId,
    n: nat,
)
    requires
        sound_edges(kind, env.nodes, env.edges),
        comparable(env, cache, m),
        probeable(env, id),
        env.nodes.contains_key(id),
        settles_within(env.nodes, env.edges, id, n),
        vec3_input(env, cache, id, 0) is Ok,
    ensures
        position_input_steps::<'static>(env, id, n) is Ok,
    decreases n, 1int, 0nat,
{
    let from = indexed_source(env.edges, id, 0)->0;
    let e = lemma_source_edge(env.edges, id, 0);
    assert(edge_problem(kind, env.nodes, env.edges[e]) is None);
    assert(live(env.nodes, env.edges, e));
    assert(settles_within(env.nodes, env.edges, from.node, (n - 1) as nat));
    assert(cache.contains_key(from.node.code()));
    assert(faithful_at(env, cache, m, from.node));
    if env.nodes[from.node].kind is DomainWarp {
        lemma_position_input_succeeds(kind, env, cache, m, from.node, (n - 1) as nat);
    }
}

proof fn lemma_reference_succeeds(
    env: EvalEnv,
    cache: Map<u64, OutputView>,
    m: Arithmetic,
    id: NodeId,
)
    requires
        comparable(env, cache, m),
        probeable(env, id),
        cache.contains_key(id.code()),
        env.nodes[id].kind is GraphRef,
    ensures
        reference_name(env, id) is Ok,
        upstream_plan(
            env.upstream->0,
            env.nodes[id].kind->GraphRef_0.target,
            reference_name(env, id)->Ok_0,
            id,
        ) is Ok,
{
    assert(faithful_at(env, cache, m, id));
    let target = env.nodes[id].kind->GraphRef_0.target;
    let name = reference_name(env, id)->Ok_0;
    let graphs = env.upstream->0;
    assert(upstream_field(graphs, target, name, id) is Ok);
    let up = graphs[target.rank()];
    let out = upstream_node(graphs, target, name, id)->Ok_0;
    let inner = upstream_env(up);
    assert(graphs.contains_key(target.rank()));
    assert(up.cache.contains_key(out.code()));
    assert(inner.nodes.contains_key(out));
    assert(graphs[target.rank()].nodes.contains_key(out));
    assert(settles(up.nodes, up.edges, out));
    single_columns_agree_with_filling(inner, up.cache, m.column, out, 0);
}

} // verus!
