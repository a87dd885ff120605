//! Cycles among graph-to-graph references.
use crate::cycle::{find_cycle, ordered_links, reports_cycle, table_refs};
use crate::graph::{graph_targets, Graph};
use crate::ids::GraphRefTarget;
use crate::node::Node;
use crate::slots::{is_key_order, NodeId};
use crate::sort::{lists, sorted_distinct};
use std::collections::HashMap;
use vstd::prelude::*;

verus! {

broadcast use vstd::std_specs::hash::group_hash_axioms;

impl GraphRefTarget {
    /// The place of a target among all of them: the world, the zone, then the
    /// biomes by id.
    pub open spec fn rank(self) -> u32 {
        match self {
            GraphRefTarget::World => 0,
            GraphRefTarget::Zone => 1,
            GraphRefTarget::Biome(b) => (b + 2) as u32,
        }
    }

    fn to_rank(self) -> (r: u32)
        ensures
            r == self.rank(),
    {
        match self {
            GraphRefTarget::World => 0,
            GraphRefTarget::Zone => 1,
            GraphRefTarget::Biome(b) => b as u32 + 2,
        }
    }

    fn of_rank(rank: u32) -> (r: GraphRefTarget)
        requires
            rank < 0x1_0002,
        ensures
            r.rank() == rank,
    {
        if rank == 0 {
            GraphRefTarget::World
        } else if rank == 1 {
            GraphRefTarget::Zone
        } else {
            GraphRefTarget::Biome((rank - 2) as u16)
        }
    }
}

/// Different targets have different places.
pub proof fn rank_identifies(a: GraphRefTarget, b: GraphRefTarget)
    ensures
        a.rank() == b.rank() <==> a == b,
        a.rank() < 0x1_0002,
{
}

/// Whether a node refers to the target at a place.
pub open spec fn names_target(node: Node, rank: u32) -> bool {
    node.kind is GraphRef && node.kind->GraphRef_0.target.rank() == rank
}

/// The targets that a graph's nodes refer to, by place.
pub open spec fn targets_named(nodes: Map<NodeId, Node>) -> Set<u32> {
    Set::new(
        |x: u32|
            exists|id: NodeId| nodes.contains_key(id) && names_target(#[trigger] nodes[id], x),
    )
}

/// Which targets each present target's graph refers to. A later graph for a
/// target stands in for an earlier one.
pub open spec fn target_links(graphs: Seq<(GraphRefTarget, &Graph)>) -> Map<u32, Set<u32>>
    decreases graphs.len(),
{
    if graphs.len() == 0 {
        Map::empty()
    } else {
        target_links(graphs.drop_last()).insert(
            graphs.last().0.rank(),
            targets_named(graphs.last().1.nodes@),
        )
    }
}

proof fn lemma_targets_are_named(nodes: Map<NodeId, Node>, keys: Seq<NodeId>, x: u32)
    ensures
        (exists|i: int|
            0 <= i < graph_targets(nodes, keys).len() && (#[trigger] graph_targets(
                nodes,
                keys,
            )[i]).rank() == x) <==> (exists|k: int|
            0 <= k < keys.len() && names_target(nodes[#[trigger] keys[k]], x)),
    decreases keys.len(),
{
    if keys.len() > 0 {
        let short = keys.drop_last();
        lemma_targets_are_named(nodes, short, x);
        let all = graph_targets(nodes, keys);
        let rest = graph_targets(nodes, short);
        if exists|i: int| 0 <= i < all.len() && (#[trigger] all[i]).rank() == x {
            let i = choose|i: int| 0 <= i < all.len() && (#[trigger] all[i]).rank() == x;
            if i < rest.len() {
                assert(rest[i].rank() == x);
                let k = choose|k: int|
                    0 <= k < short.len() && names_target(nodes[#[trigger] short[k]], x);
                assert(names_target(nodes[keys[k]], x));
            } else {
                assert(names_target(nodes[keys[keys.len() - 1]], x));
            }
        }
        if exists|k: int| 0 <= k < keys.len() && names_target(nodes[#[trigger] keys[k]], x) {
            let k = choose|k: int|
                0 <= k < keys.len() && names_target(nodes[#[trigger] keys[k]], x);
            if k < short.len() {
                assert(names_target(nodes[short[k]], x));
                let i = choose|i: int| 0 <= i < rest.len() && (#[trigger] rest[i]).rank() == x;
                assert(all[i].rank() == x);
            } else {
                assert(all[rest.len() as int].rank() == x);
            }
        }
    }
}

/// The targets a graph refers to, by place, each once, ascending.
fn references(graph: &Graph) -> (r: Vec<u32>)
    ensures
        lists(r@, targets_named(graph.nodes@)),
{
    let named = graph.graph_refs();
    let mut raw: Vec<u32> = Vec::new();
    let mut k: usize = 0;
    while k < named.len()
        invariant
            k <= named@.len(),
            raw@.len() == k,
            forall|i: int| 0 <= i < k ==> raw@[i] == (#[trigger] named@[i]).rank(),
        decreases named@.len() - k,
    {
        raw.push(named[k].to_rank());
        k = k + 1;
    }
    let r = sorted_distinct(&raw);
    proof {
        let nodes = graph.nodes@;
        let keys = choose|keys: Seq<NodeId>| #[trigger]
            is_key_order(nodes, keys) && named@ == graph_targets(nodes, keys);
        assert forall|x: u32| targets_named(nodes).contains(x) <==> r@.contains(x) by {
            lemma_targets_are_named(nodes, keys, x);
            if targets_named(nodes).contains(x) {
                let id = choose|id: NodeId|
                    nodes.contains_key(id) && names_target(#[trigger] nodes[id], x);
                assert(keys.contains(id));
                let k = choose|k: int| 0 <= k < keys.len() && keys[k] == id;
                assert(names_target(nodes[keys[k]], x));
                let i = choose|i: int| 0 <= i < named@.len() && (#[trigger] named@[i]).rank() == x;
                assert(raw@[i] == x);
                assert(raw@.to_set().contains(x));
            }
            if r@.contains(x) {
                assert(raw@.to_set().contains(x));
                let i = choose|i: int| 0 <= i < raw@.len() && raw@[i] == x;
                assert(named@[i].rank() == x);
                let k = choose|k: int|
                    0 <= k < keys.len() && names_target(nodes[#[trigger] keys[k]], x);
                assert(nodes.contains_key(keys[k]));
                assert(names_target(nodes[keys[k]], x));
            }
        }
    }
    r
}

/// The places of targets.
pub open spec fn ranks(targets: Seq<GraphRefTarget>) -> Seq<u32> {
    targets.map_values(|t: GraphRefTarget| t.rank())
}

fn of_ranks(codes: &Vec<u32>) -> (r: Vec<GraphRefTarget>)
    requires
        forall|i: int| 0 <= i < codes@.len() ==> #[trigger] codes@[i] < 0x1_0002,
    ensures
        ranks(r@) == codes@,
{
    let mut out: Vec<GraphRefTarget> = Vec::new();
    let mut k: usize = 0;
    while k < codes.len()
        invariant
            k <= codes@.len(),
            out@.len() == k,
            forall|i: int| 0 <= i < codes@.len() ==> #[trigger] codes@[i] < 0x1_0002,
            forall|i: int| 0 <= i < k ==> (#[trigger] out@[i]).rank() == codes@[i],
        decreases codes@.len() - k,
    {
        out.push(GraphRefTarget::of_rank(codes[k]));
        k = k + 1;
    }
    assert(ranks(out@) =~= codes@);
    out
}

proof fn lemma_links_are_ranks(graphs: Seq<(GraphRefTarget, &Graph)>)
    ensures
        forall|x: u32| #[trigger] target_links(graphs).contains_key(x) ==> x < 0x1_0002,
        target_links(graphs).dom().finite(),
    decreases graphs.len(),
{
    if graphs.len() > 0 {
        lemma_links_are_ranks(graphs.drop_last());
    }
}

/// The targets on a cycle of graph references, or `None` if there is no cycle.
/// Targets and each graph's references are taken in ascending order, so the
/// reported cycle is deterministic. A reference to an absent target is skipped.
pub fn detect_graph_ref_cycle(graphs: &[(GraphRefTarget, &Graph)]) -> (r: Option<
    Vec<GraphRefTarget>,
>)
    ensures
        reports_cycle(
            target_links(graphs@),
            match r {
                Some(c) => Some(ranks(c@)),
                None => None,
            },
        ),
{
    let ghost links = target_links(graphs@);
    let mut table: HashMap<u32, Vec<u32>> = HashMap::new();
    let mut raw: Vec<u32> = Vec::new();
    let mut k: usize = 0;
    while k < graphs.len()
        invariant
            k <= graphs@.len(),
            raw@.to_set() == table@.dom(),
            table@.dom() == target_links(graphs@.take(k as int)).dom(),
            forall|x: u32| #[trigger]
                table@.contains_key(x) ==> lists(
                    table@[x]@,
                    target_links(graphs@.take(k as int))[x],
                ),
        decreases graphs@.len() - k,
    {
        let ghost seen = graphs@.take(k as int);
        let ghost now = graphs@.take(k + 1);
        let ghost before = table@;
        let ghost listed = raw@;
        assert(now.drop_last() =~= seen);
        let rank: u32 = graphs[k].0.to_rank();
        raw.push(rank);
        table.insert(rank, references(graphs[k].1));
        proof {
            assert(table@.dom() =~= target_links(now).dom());
            assert forall|x: u32| raw@.to_set().contains(x) <==> table@.dom().contains(x) by {
                if raw@.contains(x) {
                    let i = choose|i: int| 0 <= i < raw@.len() && raw@[i] == x;
                    if i < listed.len() {
                        assert(listed[i] == x);
                        assert(listed.to_set().contains(x));
                    }
                }
                if before.contains_key(x) {
                    assert(listed.to_set().contains(x));
                    let i = choose|i: int| 0 <= i < listed.len() && listed[i] == x;
                    assert(raw@[i] == x);
                }
                assert(raw@[listed.len() as int] == rank);
            }
            assert(raw@.to_set() =~= table@.dom());
        }
        k = k + 1;
    }
    assert(graphs@.take(k as int) =~= graphs@);
    let ids = sorted_distinct(&raw);
    let ghost refs = table_refs(table@);
    proof {
        assert(refs.dom() =~= links.dom());
        assert forall|x: u32| table@.contains_key(x) <==> ids@.contains(x) by {
            assert(table@.dom().contains(x) <==> raw@.to_set().contains(x));
        }
        assert(ordered_links(links, refs, ids@));
    }
    match find_cycle(&table, &ids) {
        Some(codes) => {
            proof {
                assert(reports_cycle(links, Some(codes@)));
                lemma_links_are_ranks(graphs@);
                crate::cycle::report_is_exact(links, Some(codes@), Some(codes@));
                assert forall|i: int| 0 <= i < codes@.len() implies #[trigger] codes@[i]
                    < 0x1_0002 by {
                    assert(links.contains_key(codes@[i]));
                }
            }
            Some(of_ranks(&codes))
        },
        None => {
            assert(reports_cycle(links, None));
            None
        },
    }
}

} // verus!
