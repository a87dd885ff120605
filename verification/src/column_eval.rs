//! The per-column evaluator: fills the nodes of a world or zone graph with one
//! value per column, and answers single columns of the world.
//!
//! Noise is the only arithmetic involved. Filling stops at a noise node and says
//! what to compute; a single column comes down to one noise lookup and the bands
//! it is put through.
use crate::bands::{assigned_id, assigned_ids, band_id, quantize_bands, quantize_one};
use crate::column::ColumnField;
use crate::column_cache::{ColumnCache, ColumnOutput, ColumnView};
use crate::context::{noise_seed_of, EvalContext};
use crate::edge::Edge;
use crate::eval_error::{EvalError, EvalResult};
use crate::graph::Graph;
use crate::ids::{GraphKind, GraphRefTarget};
use crate::index::{indexable, indexed_source, lemma_source_edge, EdgeIndex};
use crate::node::{Node, NodeKind};
use crate::diagnostic::Severity;
use crate::order::{
    cyclic, every_node_settles_iff_acyclic, is_evaluation_order, lemma_unsettled_members, live,
    settles, settles_within, unsettled,
};
use crate::params::NoiseParams;
use crate::scalar::Single;
use crate::shared::share;
use crate::slots::{is_key_order, key_order_is_distinct, NodeId};
use crate::upstream::{UpstreamGraph, UpstreamGraphs};
use crate::validate::{
    evaluable, every_finding_is_an_error, findings, no_findings_iff_evaluable, reported,
};
use std::sync::Arc;
use vstd::prelude::*;

verus! {

/// A graph that references read, as values.
pub struct UpstreamView {
    /// Its nodes.
    pub nodes: Map<NodeId, Node>,
    /// Its edges.
    pub edges: Seq<Edge>,
    /// The world seed it was evaluated with.
    pub world_seed: u64,
    /// Its cached outputs.
    pub cache: Map<u64, ColumnView>,
}

/// What a per-column evaluation reads, as values.
pub struct ColumnEnv {
    /// The graph's nodes.
    pub nodes: Map<NodeId, Node>,
    /// The graph's edges.
    pub edges: Seq<Edge>,
    /// The world seed.
    pub world_seed: u64,
    /// The graphs that references read, by the place of their target.
    pub upstream: Option<Map<u32, UpstreamView>>,
}

/// The node that exposes a name, the last of those listed.
pub open spec fn exposing_node(
    nodes: Map<NodeId, Node>,
    keys: Seq<NodeId>,
    name: Seq<char>,
) -> Option<NodeId>
    decreases keys.len(),
{
    if keys.len() == 0 {
        None
    } else {
        match nodes[keys.last()].kind {
            NodeKind::GraphOutput(p) => if p.name@ == name {
                Some(keys.last())
            } else {
                exposing_node(nodes, keys.drop_last(), name)
            },
            _ => exposing_node(nodes, keys.drop_last(), name),
        }
    }
}

/// The node of a graph that exposes a name.
pub open spec fn output_node(nodes: Map<NodeId, Node>, name: Seq<char>) -> Option<NodeId> {
    exposing_node(nodes, choose|keys: Seq<NodeId>| is_key_order(nodes, keys), name)
}

/// The name that a reference's output pin reads.
pub open spec fn output_name(nodes: Map<NodeId, Node>, id: NodeId, pin: u16) -> Result<
    Seq<char>,
    EvalError,
> {
    if !nodes.contains_key(id) {
        Err(EvalError::MissingOutput(id))
    } else if pin < nodes[id].kind.presented_outputs().len() {
        Ok(nodes[id].kind.presented_outputs()[pin as int].name)
    } else {
        Err(EvalError::UnresolvedGraphRef { node: id })
    }
}

/// Where an input's values come from.
pub enum SurfaceSource {
    /// A node of the same graph.
    Own(NodeId),
    /// A named output of another graph.
    Other {
        /// Which graph.
        target: GraphRefTarget,
        /// Which output.
        name: Seq<char>,
        /// The reference that reads it.
        node: NodeId,
    },
}

/// Where the values of an input pin come from.
pub open spec fn surface_source(env: ColumnEnv, node: NodeId, pin: u16) -> Result<
    SurfaceSource,
    EvalError,
> {
    match indexed_source(env.edges, node, pin) {
        None => Err(EvalError::MissingInput { node, pin }),
        Some(from) => if env.nodes.contains_key(from.node) && env.nodes[from.node].kind is GraphRef {
            match output_name(env.nodes, from.node, from.pin) {
                Err(e) => Err(e),
                Ok(name) => if env.upstream is Some {
                    Ok(
                        SurfaceSource::Other {
                            target: env.nodes[from.node].kind->GraphRef_0.target,
                            name,
                            node: from.node,
                        },
                    )
                } else {
                    Err(EvalError::UnresolvedGraphRef { node: from.node })
                },
            }
        } else {
            Ok(SurfaceSource::Own(from.node))
        },
    }
}

/// The node of another graph that a reference reads.
pub open spec fn upstream_node(
    graphs: Map<u32, UpstreamView>,
    target: GraphRefTarget,
    name: Seq<char>,
    reference: NodeId,
) -> Result<NodeId, EvalError> {
    if !graphs.contains_key(target.rank()) {
        Err(EvalError::UnresolvedGraphRef { node: reference })
    } else {
        match output_node(graphs[target.rank()].nodes, name) {
            Some(node) => Ok(node),
            None => Err(EvalError::UnresolvedGraphRef { node: reference }),
        }
    }
}

/// The cached values of another graph's named output.
pub open spec fn upstream_field(
    graphs: Map<u32, UpstreamView>,
    target: GraphRefTarget,
    name: Seq<char>,
    reference: NodeId,
) -> Result<Seq<Single>, EvalError> {
    match upstream_node(graphs, target, name, reference) {
        Err(e) => Err(e),
        Ok(node) => {
            let cache = graphs[target.rank()].cache;
            if !cache.contains_key(node.code()) {
                Err(EvalError::MissingOutput(node))
            } else {
                match cache[node.code()] {
                    ColumnView::Surface(f) => Ok(f),
                    ColumnView::Id(_) => Err(
                        EvalError::WrongInputType { node, expected: "surface", got: "id" },
                    ),
                }
            }
        },
    }
}

/// The values feeding an input pin.
pub open spec fn input_field(
    env: ColumnEnv,
    cache: Map<u64, ColumnView>,
    node: NodeId,
    pin: u16,
) -> Result<Seq<Single>, EvalError> {
    match surface_source(env, node, pin) {
        Err(e) => Err(e),
        Ok(SurfaceSource::Other { target, name, node: reference }) => upstream_field(
            env.upstream->0,
            target,
            name,
            reference,
        ),
        Ok(SurfaceSource::Own(src)) => if !cache.contains_key(src.code()) {
            Err(EvalError::MissingOutput(src))
        } else {
            match cache[src.code()] {
                ColumnView::Surface(f) => Ok(f),
                ColumnView::Id(_) => Err(
                    EvalError::WrongInputType { node, expected: "surface", got: "id" },
                ),
            }
        },
    }
}

/// What filling a node comes to.
pub enum ColumnFillView {
    /// Its values.
    Ready(ColumnView),
    /// The noise that gives its values.
    Noise {
        /// The noise.
        params: NoiseParams,
        /// Its seed.
        seed: i32,
    },
}

/// What filling a node comes to, given what is cached.
pub open spec fn column_fill(env: ColumnEnv, cache: Map<u64, ColumnView>, id: NodeId) -> Result<
    ColumnFillView,
    EvalError,
> {
    if !env.nodes.contains_key(id) {
        Err(EvalError::MissingOutput(id))
    } else {
        match env.nodes[id].kind {
            NodeKind::SurfaceNoise(p) => Ok(
                ColumnFillView::Noise { params: p, seed: noise_seed_of(env.world_seed, p.seed) },
            ),
            NodeKind::WorldOutput(p) => match input_field(env, cache, id, 0) {
                Err(e) => Err(e),
                Ok(f) => Ok(
                    ColumnFillView::Ready(
                        ColumnView::Id(assigned_ids(f, p.zone_bands@, p.zone_ids@)),
                    ),
                ),
            },
            NodeKind::ZoneOutput(p) => match input_field(env, cache, id, 0) {
                Err(e) => Err(e),
                Ok(f) => Ok(
                    ColumnFillView::Ready(
                        ColumnView::Id(assigned_ids(f, p.biome_bands@, p.biome_ids@)),
                    ),
                ),
            },
            NodeKind::GraphOutput(_) => match input_field(env, cache, id, 0) {
                Err(e) => Err(e),
                Ok(f) => Ok(ColumnFillView::Ready(ColumnView::Surface(f))),
            },
            _ => Err(EvalError::WrongGraphDomain { node: id }),
        }
    }
}

/// Whether a node has nothing to fill: a reference, read where it is used, or a
/// declaration without pins.
pub open spec fn unfilled(node: Node) -> bool {
    node.kind is GraphRef || (node.kind.declared_inputs().len() == 0
        && node.kind.declared_outputs().len() == 0)
}

/// What evaluation comes to: nothing left to do, noise to compute, or an error.
pub enum ColumnProgress {
    /// Every node is filled.
    Done,
    /// A node needs this noise.
    Noise {
        /// The node.
        node: NodeId,
        /// The noise.
        params: NoiseParams,
        /// Its seed.
        seed: i32,
    },
    /// Evaluation failed.
    Failed(EvalError),
}

/// What filling nodes in order, from number `i` on, comes to, and what is cached
/// then.
pub open spec fn column_run(
    env: ColumnEnv,
    order: Seq<NodeId>,
    i: int,
    cache: Map<u64, ColumnView>,
) -> (ColumnProgress, Map<u64, ColumnView>)
    decreases order.len() - i,
{
    if i < 0 || i >= order.len() {
        (ColumnProgress::Done, cache)
    } else if cache.contains_key(order[i].code()) || unfilled(env.nodes[order[i]]) {
        column_run(env, order, i + 1, cache)
    } else {
        match column_fill(env, cache, order[i]) {
            Err(e) => (ColumnProgress::Failed(e), cache),
            Ok(ColumnFillView::Noise { params, seed }) => (
                ColumnProgress::Noise { node: order[i], params, seed },
                cache,
            ),
            Ok(ColumnFillView::Ready(out)) => column_run(
                env,
                order,
                i + 1,
                cache.insert(order[i].code(), out),
            ),
        }
    }
}

/// How a single column is computed: one noise lookup, and the bands its value is
/// put through, if any.
pub struct ColumnPlanView {
    /// The noise.
    pub params: NoiseParams,
    /// Its seed.
    pub seed: i32,
    /// Thresholds and ids.
    pub bands: Option<(Seq<Single>, Seq<u16>)>,
}

/// How deep the graph is above a node.
pub open spec fn depth(nodes: Map<NodeId, Node>, edges: Seq<Edge>, id: NodeId) -> nat {
    choose|n: nat| settles_within(nodes, edges, id, n)
}

/// How a single column of a node is computed, at most `n` edges deep.
pub open spec fn column_plan(env: ColumnEnv, id: NodeId, n: nat) -> Result<
    ColumnPlanView,
    EvalError,
>
    decreases (if env.upstream is Some { 1int } else { 0int }), n, 1int,
{
    if !env.nodes.contains_key(id) {
        Err(EvalError::MissingOutput(id))
    } else {
        match env.nodes[id].kind {
            NodeKind::SurfaceNoise(p) => Ok(
                ColumnPlanView {
                    params: p,
                    seed: noise_seed_of(env.world_seed, p.seed),
                    bands: None,
                },
            ),
            NodeKind::WorldOutput(p) => match input_plan(env, id, n) {
                Err(e) => Err(e),
                Ok(plan) => Ok(
                    ColumnPlanView { bands: Some((p.zone_bands@, p.zone_ids@)), ..plan },
                ),
            },
            NodeKind::ZoneOutput(p) => match input_plan(env, id, n) {
                Err(e) => Err(e),
                Ok(plan) => Ok(
                    ColumnPlanView { bands: Some((p.biome_bands@, p.biome_ids@)), ..plan },
                ),
            },
            NodeKind::GraphOutput(_) => input_plan(env, id, n),
            _ => Err(EvalError::WrongGraphDomain { node: id }),
        }
    }
}

/// How a single column of a node's first input is computed.
pub open spec fn input_plan(env: ColumnEnv, node: NodeId, n: nat) -> Result<
    ColumnPlanView,
    EvalError,
>
    decreases (if env.upstream is Some { 1int } else { 0int }), n, 0int,
{
    match surface_source(env, node, 0) {
        Err(e) => Err(e),
        Ok(SurfaceSource::Other { target, name, node: reference }) => match upstream_node(
            env.upstream->0,
            target,
            name,
            reference,
        ) {
            Err(e) => Err(e),
            Ok(out) => {
                let up = env.upstream->0[target.rank()];
                let inner = ColumnEnv {
                    nodes: up.nodes,
                    edges: up.edges,
                    world_seed: up.world_seed,
                    upstream: None,
                };
                if env.upstream is Some {
                    must_be_surface(
                        column_plan(inner, out, depth(up.nodes, up.edges, out)),
                        out,
                    )
                } else {
                    Err(EvalError::Cyclic)
                }
            },
        },
        Ok(SurfaceSource::Own(src)) => if !env.nodes.contains_key(src) {
            Err(EvalError::MissingOutput(src))
        } else if n == 0 {
            Err(EvalError::Cyclic)
        } else {
            must_be_surface(column_plan(env, src, (n - 1) as nat), node)
        },
    }
}

/// A plan, refused where it ends in bands.
pub open spec fn must_be_surface(plan: Result<ColumnPlanView, EvalError>, node: NodeId) -> Result<
    ColumnPlanView,
    EvalError,
> {
    match plan {
        Err(e) => Err(e),
        Ok(p) => if p.bands is Some {
            Err(EvalError::WrongInputType { node, expected: "surface", got: "id" })
        } else {
            Ok(p)
        },
    }
}

/// Whether single columns can be computed: nothing is cyclic above the node, nor
/// in the graphs it reads.
pub open spec fn samplable(env: ColumnEnv, id: NodeId) -> bool {
    &&& settles(env.nodes, env.edges, id)
    &&& env.upstream is Some ==> forall|k: u32, n: NodeId|
        #![trigger env.upstream->0[k].nodes.contains_key(n)]
        env.upstream->0.contains_key(k) && env.upstream->0[k].nodes.contains_key(n) ==> settles(
            env.upstream->0[k].nodes,
            env.upstream->0[k].edges,
            n,
        )
}

/// The plan of a single column does not depend on how much deeper than the graph
/// one is prepared to go.
proof fn lemma_plan_depth(env: ColumnEnv, id: NodeId, n: nat, m: nat)
    requires
        env.nodes.contains_key(id),
        settles_within(env.nodes, env.edges, id, n),
        settles_within(env.nodes, env.edges, id, m),
    ensures
        column_plan(env, id, n) == column_plan(env, id, m),
        input_plan(env, id, n) == input_plan(env, id, m),
    decreases n,
{
    match surface_source(env, id, 0) {
        Ok(SurfaceSource::Own(src)) => {
            if env.nodes.contains_key(src) {
                let i = lemma_source_edge(env.edges, id, 0);
                assert(live(env.nodes, env.edges, i));
                lemma_plan_depth(env, src, (n - 1) as nat, (m - 1) as nat);
            }
        },
        _ => {},
    }
}

/// How a single column is computed.
#[derive(Clone, Copy, Debug)]
pub struct ColumnPlan<'g> {
    /// The noise.
    pub params: NoiseParams,
    /// Its seed.
    pub seed: i32,
    /// Thresholds and ids that the value is put through, if any.
    pub bands: Option<(&'g Vec<Single>, &'g Vec<u16>)>,
}

/// The value of a single column.
#[derive(Clone, Copy, PartialEq, Eq, Structural, Debug)]
pub enum ColumnSample {
    /// A continuous value.
    Surface(Single),
    /// A discrete id.
    Id(u16),
}

impl<'g> ColumnPlan<'g> {
    /// The plan as values.
    pub open spec fn view(&self) -> ColumnPlanView {
        ColumnPlanView {
            params: self.params,
            seed: self.seed,
            bands: match self.bands {
                Some((bands, ids)) => Some((bands@, ids@)),
                None => None,
            },
        }
    }

    /// The value of the column, once the noise there is known.
    pub fn finish(&self, noise: Single) -> (r: ColumnSample)
        ensures
            r == (match self@.bands {
                Some((bands, ids)) => ColumnSample::Id(assigned_id(noise, bands, ids)),
                None => ColumnSample::Surface(noise),
            }),
    {
        match self.bands {
            Some((bands, ids)) => {
                let k: u16 = quantize_one(noise, bands.as_slice());
                ColumnSample::Id(band_id(k, ids.as_slice()))
            },
            None => ColumnSample::Surface(noise),
        }
    }
}

/// A node's values, or the noise that gives them.
#[derive(Debug)]
pub enum ColumnFill {
    /// The values.
    Ready(ColumnOutput),
    /// The noise.
    Noise {
        /// The noise.
        params: NoiseParams,
        /// Its seed.
        seed: i32,
    },
}

impl ColumnFill {
    /// The fill as values.
    pub open spec fn view(&self) -> ColumnFillView {
        match self {
            ColumnFill::Ready(out) => ColumnFillView::Ready(out@),
            ColumnFill::Noise { params, seed } => ColumnFillView::Noise {
                params: *params,
                seed: *seed,
            },
        }
    }
}

/// Noise that an evaluation waits for.
#[derive(Clone, Copy, Debug)]
pub struct ColumnWork {
    /// The node to fill.
    pub node: NodeId,
    /// The noise.
    pub params: NoiseParams,
    /// Its seed.
    pub seed: i32,
}

/// Evaluates a world or zone graph for one chunk.
pub struct ColumnEvaluator<'g> {
    graph: &'g Graph,
    edges: EdgeIndex,
    ctx: EvalContext,
    cache: ColumnCache,
    upstream: Option<&'g UpstreamGraphs<'g>>,
    order: Option<Vec<NodeId>>,
}

pub(crate) fn name_of_output(graph: &Graph, id: NodeId, pin: u16) -> (r: EvalResult<String>)
    ensures
        match r {
            Ok(name) => output_name(graph.nodes@, id, pin) == Ok::<Seq<char>, EvalError>(name@),
            Err(e) => output_name(graph.nodes@, id, pin) == Err::<Seq<char>, EvalError>(e),
        },
{
    match graph.nodes.get(id) {
        None => Err(EvalError::MissingOutput(id)),
        Some(node) => {
            let outputs = node.kind.effective_outputs();
            if (pin as usize) < outputs.len() {
                assert(node.kind.presented_outputs()[pin as int] == outputs@[pin as int]@);
                Ok(String::from_str(outputs[pin as usize].name))
            } else {
                Err(EvalError::UnresolvedGraphRef { node: id })
            }
        },
    }
}

/// Where the values of an input pin come from.
enum Source {
    Own(NodeId),
    Other { target: GraphRefTarget, name: String, node: NodeId },
}

fn find_source(
    graph: &Graph,
    edges: &EdgeIndex,
    has_upstream: bool,
    node: NodeId,
    pin: u16,
    Ghost(env): Ghost<ColumnEnv>,
) -> (r: EvalResult<Source>)
    requires
        env.nodes == graph.nodes@,
        env.edges == graph.edges@,
        has_upstream == (env.upstream is Some),
        forall|n: NodeId, p: u16| #[trigger]
            edges.lookup(n, p) == indexed_source(graph.edges@, n, p),
    ensures
        match r {
            Ok(Source::Own(src)) => surface_source(env, node, pin) == Ok::<
                SurfaceSource,
                EvalError,
            >(SurfaceSource::Own(src)),
            Ok(Source::Other { target, name, node: reference }) => surface_source(env, node, pin)
                == Ok::<SurfaceSource, EvalError>(
                SurfaceSource::Other { target, name: name@, node: reference },
            ),
            Err(e) => surface_source(env, node, pin) == Err::<SurfaceSource, EvalError>(e),
        },
{
    match edges.source(node, pin) {
        None => Err(EvalError::MissingInput { node, pin }),
        Some(from) => {
            let target = match graph.nodes.get(from.node) {
                Some(n) => match &n.kind {
                    NodeKind::GraphRef(p) => Some(p.target),
                    _ => None,
                },
                None => None,
            };
            match target {
                Some(target) => match name_of_output(graph, from.node, from.pin) {
                    Ok(name) => if has_upstream {
                        Ok(Source::Other { target, name, node: from.node })
                    } else {
                        Err(EvalError::UnresolvedGraphRef { node: from.node })
                    },
                    Err(e) => Err(e),
                },
                None => Ok(Source::Own(from.node)),
            }
        },
    }
}

/// The node of another graph that a reference reads, and the graph.
pub(crate) fn find_upstream<'a, 'g>(
    upstream: &'a UpstreamGraphs<'g>,
    target: GraphRefTarget,
    name: &str,
    reference: NodeId,
) -> (r: EvalResult<(&'a UpstreamGraph<'g>, NodeId)>)
    requires
        upstream.wf(),
    ensures
        match r {
            Ok((g, node)) => {
                &&& upstream_node(upstream@, target, name@, reference) == Ok::<NodeId, EvalError>(
                    node,
                )
                &&& g.wf()
                &&& g@ == upstream@[target.rank()]
                &&& upstream@.contains_key(target.rank())
                &&& g@.nodes.contains_key(node)
            },
            Err(e) => upstream_node(upstream@, target, name@, reference) == Err::<
                NodeId,
                EvalError,
            >(e),
        },
{
    match upstream.find(target) {
        None => Err(EvalError::UnresolvedGraphRef { node: reference }),
        Some(g) => match g.output(name) {
            Some(node) => Ok((g, node)),
            None => Err(EvalError::UnresolvedGraphRef { node: reference }),
        },
    }
}

/// The cached values of another graph's named output.
pub(crate) fn read_upstream(
    upstream: &UpstreamGraphs<'_>,
    target: GraphRefTarget,
    name: &str,
    reference: NodeId,
) -> (r: EvalResult<Arc<ColumnField>>)
    requires
        upstream.wf(),
    ensures
        match r {
            Ok(f) => upstream_field(upstream@, target, name@, reference) == Ok::<
                Seq<Single>,
                EvalError,
            >(f@),
            Err(e) => upstream_field(upstream@, target, name@, reference) == Err::<
                Seq<Single>,
                EvalError,
            >(e),
        },
{
    match find_upstream(upstream, target, name, reference) {
        Err(e) => Err(e),
        Ok((g, node)) => match g.columns().get(node) {
            None => Err(EvalError::MissingOutput(node)),
            Some(out) => match out {
                ColumnOutput::Surface(f) => Ok(share(f)),
                ColumnOutput::Id(_) => Err(
                    EvalError::WrongInputType { node, expected: "surface", got: "id" },
                ),
            },
        },
    }
}

pub(crate) fn refuse_bands<'a>(plan: EvalResult<ColumnPlan<'a>>, node: NodeId) -> (r: EvalResult<
    ColumnPlan<'a>,
>)
    ensures
        plan_result(r) == must_be_surface(plan_result(plan), node),
{
    match plan {
        Err(e) => Err(e),
        Ok(p) => if p.bands.is_some() {
            Err(EvalError::WrongInputType { node, expected: "surface", got: "id" })
        } else {
            Ok(p)
        },
    }
}

/// The outcome of planning, as values.
pub open spec fn plan_result(r: EvalResult<ColumnPlan<'_>>) -> Result<ColumnPlanView, EvalError> {
    match r {
        Ok(p) => Ok(p@),
        Err(e) => Err(e),
    }
}

pub(crate) fn plan_column<'a>(
    graph: &'a Graph,
    edges: &EdgeIndex,
    ctx: EvalContext,
    upstream: Option<&'a UpstreamGraphs<'a>>,
    id: NodeId,
    Ghost(env): Ghost<ColumnEnv>,
    Ghost(n): Ghost<nat>,
) -> (r: EvalResult<ColumnPlan<'a>>)
    requires
        env.nodes == graph.nodes@,
        env.edges == graph.edges@,
        env.world_seed == ctx.world_seed,
        match (env.upstream, upstream) {
            (Some(view), Some(u)) => view == u@ && u.wf(),
            (None, None) => true,
            _ => false,
        },
        forall|m: NodeId, p: u16| #[trigger]
            edges.lookup(m, p) == indexed_source(graph.edges@, m, p),
        settles_within(env.nodes, env.edges, id, n),
        samplable(env, id),
    ensures
        plan_result(r) == column_plan(env, id, n),
    decreases (if env.upstream is Some { 1int } else { 0int }), n, 1int,
{
    match graph.nodes.get(id) {
        None => Err(EvalError::MissingOutput(id)),
        Some(node) => match &node.kind {
            NodeKind::SurfaceNoise(p) => Ok(
                ColumnPlan { params: *p, seed: ctx.noise_seed(p.seed), bands: None },
            ),
            NodeKind::WorldOutput(p) => match plan_input(
                graph,
                edges,
                ctx,
                upstream,
                id,
                Ghost(env),
                Ghost(n),
            ) {
                Err(e) => Err(e),
                Ok(plan) => Ok(
                    ColumnPlan {
                        params: plan.params,
                        seed: plan.seed,
                        bands: Some((&p.zone_bands, &p.zone_ids)),
                    },
                ),
            },
            NodeKind::ZoneOutput(p) => match plan_input(
                graph,
                edges,
                ctx,
                upstream,
                id,
                Ghost(env),
                Ghost(n),
            ) {
                Err(e) => Err(e),
                Ok(plan) => Ok(
                    ColumnPlan {
                        params: plan.params,
                        seed: plan.seed,
                        bands: Some((&p.biome_bands, &p.biome_ids)),
                    },
                ),
            },
            NodeKind::GraphOutput(_) => plan_input(
                graph,
                edges,
                ctx,
                upstream,
                id,
                Ghost(env),
                Ghost(n),
            ),
            _ => Err(EvalError::WrongGraphDomain { node: id }),
        },
    }
}

fn plan_input<'a>(
    graph: &'a Graph,
    edges: &EdgeIndex,
    ctx: EvalContext,
    upstream: Option<&'a UpstreamGraphs<'a>>,
    id: NodeId,
    Ghost(env): Ghost<ColumnEnv>,
    Ghost(n): Ghost<nat>,
) -> (r: EvalResult<ColumnPlan<'a>>)
    requires
        env.nodes == graph.nodes@,
        env.edges == graph.edges@,
        env.nodes.contains_key(id),
        env.world_seed == ctx.world_seed,
        match (env.upstream, upstream) {
            (Some(view), Some(u)) => view == u@ && u.wf(),
            (None, None) => true,
            _ => false,
        },
        forall|m: NodeId, p: u16| #[trigger]
            edges.lookup(m, p) == indexed_source(graph.edges@, m, p),
        settles_within(env.nodes, env.edges, id, n),
        samplable(env, id),
    ensures
        plan_result(r) == input_plan(env, id, n),
    decreases (if env.upstream is Some { 1int } else { 0int }), n, 0int,
{
    match find_source(graph, edges, upstream.is_some(), id, 0, Ghost(env)) {
        Err(e) => Err(e),
        Ok(Source::Own(src)) => {
            if !graph.nodes.contains_key(src) {
                return Err(EvalError::MissingOutput(src));
            }
            proof {
                let i = lemma_source_edge(env.edges, id, 0);
                assert(live(env.nodes, env.edges, i));
                assert(settles_within(env.nodes, env.edges, src, (n - 1) as nat));
            }
            let plan = plan_column(
                graph,
                edges,
                ctx,
                upstream,
                src,
                Ghost(env),
                Ghost((n - 1) as nat),
            );
            refuse_bands(plan, id)
        },
        Ok(Source::Other { target, name, node: reference }) => match upstream {
            None => Err(EvalError::UnresolvedGraphRef { node: reference }),
            Some(graphs) => match find_upstream(graphs, target, name.as_str(), reference) {
                Err(e) => Err(e),
                Ok((g, out)) => {
                    let (inner, inner_edges, inner_ctx) = g.parts();
                    let ghost inner_env = ColumnEnv {
                        nodes: g@.nodes,
                        edges: g@.edges,
                        world_seed: g@.world_seed,
                        upstream: None,
                    };
                    let ghost inner_depth = depth(g@.nodes, g@.edges, out);
                    proof {
                        assert(env.upstream->0.contains_key(target.rank()));
                        assert(env.upstream->0[target.rank()].nodes.contains_key(out));
                        assert(settles(g@.nodes, g@.edges, out));
                        assert(settles_within(g@.nodes, g@.edges, out, inner_depth));
                    }
                    let plan = plan_column(
                        inner,
                        inner_edges,
                        inner_ctx,
                        None,
                        out,
                        Ghost(inner_env),
                        Ghost(inner_depth),
                    );
                    refuse_bands(plan, out)
                },
            },
        },
    }
}

impl<'g> ColumnEvaluator<'g> {
    /// What the evaluation reads, as values.
    pub closed spec fn env(&self) -> ColumnEnv {
        ColumnEnv {
            nodes: self.graph.nodes@,
            edges: self.graph.edges@,
            world_seed: self.ctx.world_seed,
            upstream: match self.upstream {
                Some(u) => Some(u@),
                None => None,
            },
        }
    }

    /// The kind of the graph.
    pub closed spec fn graph_kind(&self) -> GraphKind {
        self.graph.kind
    }

    /// What is cached, as values.
    pub closed spec fn cached(&self) -> Map<u64, ColumnView> {
        self.cache@
    }

    /// Whether the evaluator is set up: its edges are indexed, and an order it has
    /// settled on is one.
    pub closed spec fn wf(&self) -> bool {
        &&& forall|n: NodeId, p: u16| #[trigger]
            self.edges.lookup(n, p) == indexed_source(self.graph.edges@, n, p)
        &&& match self.upstream {
            Some(u) => u.wf(),
            None => true,
        }
        &&& match self.order {
            Some(order) => {
                &&& evaluable(self.graph.kind, self.graph.nodes@, self.graph.edges@)
                &&& is_evaluation_order(self.graph.nodes@, self.graph.edges@, order@)
            },
            None => true,
        }
    }

    /// New evaluator over a graph for a chunk.
    pub fn new(graph: &'g Graph, ctx: EvalContext) -> (r: Self)
        requires
            indexable(graph.edges@),
        ensures
            r.wf(),
            r.env() == (ColumnEnv {
                nodes: graph.nodes@,
                edges: graph.edges@,
                world_seed: ctx.world_seed,
                upstream: None,
            }),
            r.graph_kind() == graph.kind,
            r.cached() == Map::<u64, ColumnView>::empty(),
    {
        ColumnEvaluator {
            graph,
            edges: EdgeIndex::build(graph),
            ctx,
            cache: ColumnCache::new(),
            upstream: None,
            order: None,
        }
    }

    /// Attach the graphs that references read.
    pub fn with_upstream(self, upstream: &'g UpstreamGraphs<'g>) -> (r: Self)
        requires
            self.wf(),
            upstream.wf(),
        ensures
            r.wf(),
            r.env() == (ColumnEnv { upstream: Some(upstream@), ..self.env() }),
            r.graph_kind() == self.graph_kind(),
            r.cached() == self.cached(),
    {
        ColumnEvaluator { upstream: Some(upstream), ..self }
    }

    /// The cached outputs.
    pub fn cache(&self) -> (r: &ColumnCache)
        ensures
            r@ == self.cached(),
    {
        &self.cache
    }

    /// The cached outputs, the evaluator consumed.
    pub fn into_cache(self) -> (r: ColumnCache)
        ensures
            r@ == self.cached(),
    {
        self.cache
    }

    fn input_surface(&self, node: NodeId, pin: u16) -> (r: EvalResult<Arc<ColumnField>>)
        requires
            self.wf(),
        ensures
            match r {
                Ok(f) => input_field(self.env(), self.cached(), node, pin) == Ok::<
                    Seq<Single>,
                    EvalError,
                >(f@),
                Err(e) => input_field(self.env(), self.cached(), node, pin) == Err::<
                    Seq<Single>,
                    EvalError,
                >(e),
            },
    {
        match find_source(
            self.graph,
            &self.edges,
            self.upstream.is_some(),
            node,
            pin,
            Ghost(self.env()),
        ) {
            Err(e) => Err(e),
            Ok(Source::Other { target, name, node: reference }) => match self.upstream {
                Some(u) => read_upstream(u, target, name.as_str(), reference),
                None => Err(EvalError::UnresolvedGraphRef { node: reference }),
            },
            Ok(Source::Own(src)) => match self.cache.get(src) {
                None => Err(EvalError::MissingOutput(src)),
                Some(out) => match out {
                    ColumnOutput::Surface(f) => Ok(share(f)),
                    ColumnOutput::Id(_) => Err(
                        EvalError::WrongInputType { node, expected: "surface", got: "id" },
                    ),
                },
            },
        }
    }

    /// Fill one node from what is cached, or say what noise fills it.
    pub fn fill_node(&self, id: NodeId) -> (r: EvalResult<ColumnFill>)
        requires
            self.wf(),
        ensures
            match r {
                Ok(f) => column_fill(self.env(), self.cached(), id) == Ok::<
                    ColumnFillView,
                    EvalError,
                >(f@),
                Err(e) => column_fill(self.env(), self.cached(), id) == Err::<
                    ColumnFillView,
                    EvalError,
                >(e),
            },
    {
        match self.graph.nodes.get(id) {
            None => Err(EvalError::MissingOutput(id)),
            Some(node) => match &node.kind {
                NodeKind::SurfaceNoise(p) => Ok(
                    ColumnFill::Noise { params: *p, seed: self.ctx.noise_seed(p.seed) },
                ),
                NodeKind::WorldOutput(p) => match self.input_surface(id, 0) {
                    Err(e) => Err(e),
                    Ok(f) => Ok(
                        ColumnFill::Ready(
                            ColumnOutput::Id(
                                Arc::new(
                                    quantize_bands(
                                        &f,
                                        p.zone_bands.as_slice(),
                                        p.zone_ids.as_slice(),
                                    ),
                                ),
                            ),
                        ),
                    ),
                },
                NodeKind::ZoneOutput(p) => match self.input_surface(id, 0) {
                    Err(e) => Err(e),
                    Ok(f) => Ok(
                        ColumnFill::Ready(
                            ColumnOutput::Id(
                                Arc::new(
                                    quantize_bands(
                                        &f,
                                        p.biome_bands.as_slice(),
                                        p.biome_ids.as_slice(),
                                    ),
                                ),
                            ),
                        ),
                    ),
                },
                NodeKind::GraphOutput(_) => match self.input_surface(id, 0) {
                    Err(e) => Err(e),
                    Ok(f) => Ok(ColumnFill::Ready(ColumnOutput::Surface(f))),
                },
                _ => Err(EvalError::WrongGraphDomain { node: id }),
            },
        }
    }

    fn has_nothing_to_fill(&self, id: NodeId) -> (r: bool)
        requires
            self.env().nodes.contains_key(id),
        ensures
            r == unfilled(self.env().nodes[id]),
    {
        match self.graph.nodes.get(id) {
            None => false,
            Some(node) => {
                let reference = match &node.kind {
                    NodeKind::GraphRef(_) => true,
                    _ => false,
                };
                let d = node.kind.descriptor();
                proof {
                    assert(node.kind.declared_inputs().len() == d.inputs@.len());
                    assert(node.kind.declared_outputs().len() == d.outputs@.len());
                }
                reference || (d.inputs.len() == 0 && d.outputs.len() == 0)
            },
        }
    }

    /// Fill every node in dependency order. Where a node needs noise, evaluation
    /// stops and says which; it goes on from there once the noise is supplied.
    pub fn evaluate(&mut self) -> (r: EvalResult<Option<ColumnWork>>)
        requires
            old(self).wf(),
        ensures
            final(self).wf(),
            final(self).env() == old(self).env(),
            final(self).graph_kind() == old(self).graph_kind(),
            evaluable(
                old(self).graph_kind(),
                old(self).env().nodes,
                old(self).env().edges,
            ) ==> exists|order: Seq<NodeId>| #[trigger]
                is_evaluation_order(old(self).env().nodes, old(self).env().edges, order)
                    && column_run(old(self).env(), order, 0, old(self).cached()) == (
                    column_progress(r),
                    final(self).cached(),
                ),
            !evaluable(
                old(self).graph_kind(),
                old(self).env().nodes,
                old(self).env().edges,
            ) ==> final(self).cached() == old(self).cached() && exists|keys: Seq<NodeId>|
                #[trigger] is_key_order(old(self).env().nodes, keys) && r == Err::<
                    Option<ColumnWork>,
                    EvalError,
                >(
                    EvalError::InvalidGraph(
                        findings(
                            old(self).graph_kind(),
                            old(self).env().nodes,
                            old(self).env().edges,
                            keys,
                        ).len() as usize,
                    ),
                ),
    {
        let order = match self.settle_order() {
            Ok(order) => order,
            Err(e) => {
                return Err(e);
            },
        };
        let ghost env = self.env();
        let ghost start = self.cached();
        let mut i: usize = 0;
        let mut outcome: EvalResult<Option<ColumnWork>> = Ok(None);
        let mut running: bool = true;
        while running && i < order.len()
            invariant
                i <= order@.len(),
                self.wf(),
                self.env() == env,
                env == old(self).env(),
                self.graph_kind() == old(self).graph_kind(),
                is_evaluation_order(env.nodes, env.edges, order@),
                running ==> outcome == Ok::<Option<ColumnWork>, EvalError>(None) && column_run(
                    env,
                    order@,
                    0,
                    start,
                ) == column_run(env, order@, i as int, self.cached()),
                !running ==> column_run(env, order@, 0, start) == (
                    column_progress(outcome),
                    self.cached(),
                ),
            decreases order@.len() - i + (if running { 1int } else { 0int }),
        {
            let id = order[i];
            assert(order@.contains(id));
            if self.cache.contains(id) || self.has_nothing_to_fill(id) {
                i = i + 1;
            } else {
                match self.fill_node(id) {
                    Err(e) => {
                        outcome = Err(e);
                        running = false;
                    },
                    Ok(ColumnFill::Noise { params, seed }) => {
                        outcome = Ok(Some(ColumnWork { node: id, params, seed }));
                        running = false;
                    },
                    Ok(ColumnFill::Ready(out)) => {
                        self.cache.insert(id, out);
                        i = i + 1;
                    },
                }
            }
        }
        self.order = Some(order);
        outcome
    }

    /// Store the noise that an evaluation waits for.
    pub fn supply(&mut self, node: NodeId, field: ColumnField)
        requires
            old(self).wf(),
        ensures
            final(self).wf(),
            final(self).env() == old(self).env(),
            final(self).graph_kind() == old(self).graph_kind(),
            final(self).cached() == old(self).cached().insert(
                node.code(),
                ColumnView::Surface(field@),
            ),
    {
        self.cache.insert(node, ColumnOutput::Surface(Arc::new(field)));
    }

    /// How a single column of a node is computed. It is the same in whichever
    /// chunk asks: only the world seed takes part.
    pub fn sample_column(&self, id: NodeId) -> (r: EvalResult<ColumnPlan<'g>>)
        requires
            self.wf(),
            samplable(self.env(), id),
        ensures
            plan_result(r) == column_plan(
                self.env(),
                id,
                depth(self.env().nodes, self.env().edges, id),
            ),
    {
        let ghost n = depth(self.env().nodes, self.env().edges, id);
        assert(settles_within(self.env().nodes, self.env().edges, id, n));
        plan_column(
            self.graph,
            &self.edges,
            self.ctx,
            self.upstream,
            id,
            Ghost(self.env()),
            Ghost(n),
        )
    }

    fn settle_order(&mut self) -> (r: EvalResult<Vec<NodeId>>)
        requires
            old(self).wf(),
        ensures
            final(self).wf(),
            final(self).env() == old(self).env(),
            final(self).graph_kind() == old(self).graph_kind(),
            final(self).cached() == old(self).cached(),
            match r {
                Ok(order) => {
                    &&& evaluable(
                        old(self).graph_kind(),
                        old(self).env().nodes,
                        old(self).env().edges,
                    )
                    &&& is_evaluation_order(
                        old(self).env().nodes,
                        old(self).env().edges,
                        order@,
                    )
                },
                Err(e) => {
                    &&& !evaluable(
                        old(self).graph_kind(),
                        old(self).env().nodes,
                        old(self).env().edges,
                    )
                    &&& exists|keys: Seq<NodeId>| #[trigger]
                        is_key_order(old(self).env().nodes, keys) && e == EvalError::InvalidGraph(
                            findings(
                                old(self).graph_kind(),
                                old(self).env().nodes,
                                old(self).env().edges,
                                keys,
                            ).len() as usize,
                        )
                },
            },
    {
        let mut held: Option<Vec<NodeId>> = None;
        std::mem::swap(&mut held, &mut self.order);
        match held {
            Some(order) => Ok(order),
            None => evaluation_order(self.graph),
        }
    }
}

/// The outcome of an evaluation, as values.
pub open spec fn column_progress(r: EvalResult<Option<ColumnWork>>) -> ColumnProgress {
    match r {
        Err(e) => ColumnProgress::Failed(e),
        Ok(None) => ColumnProgress::Done,
        Ok(Some(w)) => ColumnProgress::Noise { node: w.node, params: w.params, seed: w.seed },
    }
}

/// An order to fill a graph's nodes in, or how many errors keep it from being
/// evaluated.
pub(crate) fn evaluation_order(graph: &Graph) -> (r: EvalResult<Vec<NodeId>>)
    ensures
        match r {
            Ok(order) => {
                &&& evaluable(graph.kind, graph.nodes@, graph.edges@)
                &&& is_evaluation_order(graph.nodes@, graph.edges@, order@)
            },
            Err(e) => {
                &&& !evaluable(graph.kind, graph.nodes@, graph.edges@)
                &&& exists|keys: Seq<NodeId>| #[trigger]
                    is_key_order(graph.nodes@, keys) && e == EvalError::InvalidGraph(
                        findings(graph.kind, graph.nodes@, graph.edges@, keys).len() as usize,
                    )
            },
        },
{
    let diags = graph.validate();
    proof {
        let keys = choose|keys: Seq<NodeId>| #[trigger]
            is_key_order(graph.nodes@, keys) && reported(diags@) == findings(
                graph.kind,
                graph.nodes@,
                graph.edges@,
                keys,
            );
        no_findings_iff_evaluable(graph.kind, graph.nodes@, graph.edges@, keys);
        every_finding_is_an_error(graph.kind, graph.nodes@, graph.edges@, keys);
        key_order_is_distinct(graph.nodes@, keys);
        every_node_settles_iff_acyclic(graph.nodes@, graph.edges@);
        assert(reported(diags@).len() == diags@.len());
        assert forall|i: int| 0 <= i < diags@.len() implies (#[trigger] diags@[i]).severity
            == Severity::Error by {
            assert(reported(diags@)[i].severity == Severity::Error);
        }
    }
    let mut errors: usize = 0;
    let mut k: usize = 0;
    while k < diags.len()
        invariant
            k <= diags@.len(),
            errors == k,
            forall|i: int|
                0 <= i < diags@.len() ==> (#[trigger] diags@[i]).severity == Severity::Error,
        decreases diags@.len() - k,
    {
        if diags[k].severity == Severity::Error {
            errors = errors + 1;
        }
        k = k + 1;
    }
    if errors > 0 {
        return Err(EvalError::InvalidGraph(errors));
    }
    match graph.topological_order() {
        Ok(order) => Ok(order),
        Err(blocked) => {
            proof {
                let keys = choose|keys: Seq<NodeId>| #[trigger]
                    is_key_order(graph.nodes@, keys) && blocked@ == unsettled(
                        graph.nodes@,
                        graph.edges@,
                        keys,
                    );
                lemma_unsettled_members(graph.nodes@, graph.edges@, keys);
                assert(blocked@.contains(blocked@[0]));
                assert(keys.contains(blocked@[0]));
                assert(graph.nodes@.contains_key(blocked@[0]));
                assert(cyclic(graph.nodes@, graph.edges@));
            }
            Err(EvalError::Cyclic)
        },
    }
}

} // verus!
