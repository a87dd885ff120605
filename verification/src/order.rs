//! Dependency order: what it means for a node to be free of cycles, and what an
//! evaluation order is.
use crate::edge::Edge;
use crate::node::Node;
use crate::slots::{code_identifies, is_key_order, key_order_is_distinct, NodeId, NodeMap};
use std::collections::HashMap;
use vstd::prelude::*;

verus! {

/// Whether edge `i` connects two nodes that exist.
pub open spec fn live(nodes: Map<NodeId, Node>, edges: Seq<Edge>, i: int) -> bool {
    &&& 0 <= i < edges.len()
    &&& nodes.contains_key(edges[i].from.node)
    &&& nodes.contains_key(edges[i].to.node)
}

/// Whether everything upstream of `v` ends within `n` steps.
pub open spec fn settles_within(
    nodes: Map<NodeId, Node>,
    edges: Seq<Edge>,
    v: NodeId,
    n: nat,
) -> bool
    decreases n,
{
    forall|i: int| #[trigger]
        live(nodes, edges, i) && edges[i].to.node == v ==> n > 0 && settles_within(
            nodes,
            edges,
            edges[i].from.node,
            (n - 1) as nat,
        )
}

/// Whether `v` is neither on a cycle nor downstream of one: everything upstream
/// of it ends.
pub open spec fn settles(nodes: Map<NodeId, Node>, edges: Seq<Edge>, v: NodeId) -> bool {
    exists|n: nat| settles_within(nodes, edges, v, n)
}

/// Whether a live edge goes from one node to another.
pub open spec fn feeds(
    nodes: Map<NodeId, Node>,
    edges: Seq<Edge>,
    from: NodeId,
    to: NodeId,
) -> bool {
    exists|i: int| #[trigger]
        live(nodes, edges, i) && edges[i].from.node == from && edges[i].to.node == to
}

/// Whether a sequence is a walk along live edges.
pub open spec fn is_walk(nodes: Map<NodeId, Node>, edges: Seq<Edge>, walk: Seq<NodeId>) -> bool {
    &&& walk.len() > 0
    &&& forall|k: int, m: int|
        0 <= k && m == k + 1 && m < walk.len() ==> #[trigger] feeds(
            nodes,
            edges,
            walk[k],
            walk[m],
        )
}

/// Whether the graph has a cycle: a walk of at least one edge back to its start.
pub open spec fn cyclic(nodes: Map<NodeId, Node>, edges: Seq<Edge>) -> bool {
    exists|walk: Seq<NodeId>| #[trigger]
        is_walk(nodes, edges, walk) && walk.len() >= 2 && walk[0] == walk.last()
}

/// Whether `order` lists every node once, sources before what they feed.
pub open spec fn is_evaluation_order(
    nodes: Map<NodeId, Node>,
    edges: Seq<Edge>,
    order: Seq<NodeId>,
) -> bool {
    &&& order.no_duplicates()
    &&& forall|id: NodeId| nodes.contains_key(id) <==> order.contains(id)
    &&& forall|i: int, a: int, b: int|
        #![trigger live(nodes, edges, i), order[a], order[b]]
        live(nodes, edges, i) && 0 <= a < order.len() && 0 <= b < order.len() && order[a]
            == edges[i].from.node && order[b] == edges[i].to.node ==> a < b
}

/// The listed nodes that do not settle, in the order listed.
pub open spec fn unsettled(
    nodes: Map<NodeId, Node>,
    edges: Seq<Edge>,
    keys: Seq<NodeId>,
) -> Seq<NodeId>
    decreases keys.len(),
{
    if keys.len() == 0 {
        Seq::empty()
    } else {
        let rest = unsettled(nodes, edges, keys.drop_last());
        if settles(nodes, edges, keys.last()) {
            rest
        } else {
            rest.push(keys.last())
        }
    }
}

/// How many of the first `k` edges are live, enter `v`, and leave a node outside
/// `done`.
spec fn pending(
    nodes: Map<NodeId, Node>,
    edges: Seq<Edge>,
    k: int,
    v: NodeId,
    done: Set<NodeId>,
) -> int
    decreases k,
{
    if k <= 0 {
        0
    } else {
        pending(nodes, edges, k - 1, v, done) + (if live(nodes, edges, k - 1) && edges[k
            - 1].to.node == v && !done.contains(edges[k - 1].from.node) {
            1int
        } else {
            0int
        })
    }
}

/// How many of the first `k` edges are live and go from `n` to `v`.
spec fn released(
    nodes: Map<NodeId, Node>,
    edges: Seq<Edge>,
    k: int,
    v: NodeId,
    n: NodeId,
) -> int
    decreases k,
{
    if k <= 0 {
        0
    } else {
        released(nodes, edges, k - 1, v, n) + (if live(nodes, edges, k - 1) && edges[k - 1].to.node
            == v && edges[k - 1].from.node == n {
            1int
        } else {
            0int
        })
    }
}

proof fn lemma_pending_bounds(
    nodes: Map<NodeId, Node>,
    edges: Seq<Edge>,
    k: int,
    v: NodeId,
    done: Set<NodeId>,
)
    requires
        0 <= k,
    ensures
        0 <= pending(nodes, edges, k, v, done) <= k,
    decreases k,
{
    if k > 0 {
        lemma_pending_bounds(nodes, edges, k - 1, v, done);
    }
}

proof fn lemma_pending_insert(
    nodes: Map<NodeId, Node>,
    edges: Seq<Edge>,
    k: int,
    v: NodeId,
    done: Set<NodeId>,
    n: NodeId,
)
    requires
        0 <= k,
        !done.contains(n),
    ensures
        pending(nodes, edges, k, v, done.insert(n)) == pending(nodes, edges, k, v, done)
            - released(nodes, edges, k, v, n),
    decreases k,
{
    if k > 0 {
        lemma_pending_insert(nodes, edges, k - 1, v, done, n);
    }
}

proof fn lemma_released_monotone(
    nodes: Map<NodeId, Node>,
    edges: Seq<Edge>,
    j: int,
    k: int,
    v: NodeId,
    n: NodeId,
)
    requires
        0 <= j <= k,
    ensures
        0 <= released(nodes, edges, j, v, n) <= released(nodes, edges, k, v, n),
    decreases k,
{
    if j < k {
        lemma_released_monotone(nodes, edges, j, k - 1, v, n);
    } else if k > 0 {
        lemma_released_monotone(nodes, edges, j - 1, k - 1, v, n);
    }
}

proof fn lemma_pending_zero(
    nodes: Map<NodeId, Node>,
    edges: Seq<Edge>,
    k: int,
    v: NodeId,
    done: Set<NodeId>,
)
    requires
        0 <= k <= edges.len(),
    ensures
        pending(nodes, edges, k, v, done) == 0 <==> (forall|i: int|
            #![trigger live(nodes, edges, i)]
            i < k && live(nodes, edges, i) && edges[i].to.node == v ==> done.contains(
                edges[i].from.node,
            )),
    decreases k,
{
    if k > 0 {
        lemma_pending_zero(nodes, edges, k - 1, v, done);
        lemma_pending_bounds(nodes, edges, k - 1, v, done);
        if pending(nodes, edges, k, v, done) == 0 {
            assert forall|i: int|
                i < k && #[trigger] live(nodes, edges, i) && edges[i].to.node == v implies done.contains(
            edges[i].from.node) by {
                if i < k - 1 {
                } else {
                    assert(i == k - 1);
                }
            }
        } else if pending(nodes, edges, k - 1, v, done) == 0 {
            assert(live(nodes, edges, k - 1));
        }
    }
}

/// A set in which every member is fed by a member holds no settling node.
proof fn lemma_fed_from_within(
    nodes: Map<NodeId, Node>,
    edges: Seq<Edge>,
    within: Set<NodeId>,
    v: NodeId,
    n: nat,
)
    requires
        within.contains(v),
        forall|w: NodeId| #[trigger]
            within.contains(w) ==> exists|i: int| #[trigger]
                live(nodes, edges, i) && edges[i].to.node == w && within.contains(
                    edges[i].from.node,
                ),
    ensures
        !settles_within(nodes, edges, v, n),
    decreases n,
{
    let i = choose|i: int| #[trigger]
        live(nodes, edges, i) && edges[i].to.node == v && within.contains(edges[i].from.node);
    if n > 0 {
        lemma_fed_from_within(nodes, edges, within, edges[i].from.node, (n - 1) as nat);
    }
}

/// Settling sooner is settling.
proof fn lemma_settles_monotone(
    nodes: Map<NodeId, Node>,
    edges: Seq<Edge>,
    v: NodeId,
    n: nat,
    m: nat,
)
    requires
        settles_within(nodes, edges, v, n),
        n <= m,
    ensures
        settles_within(nodes, edges, v, m),
    decreases n,
{
    assert forall|i: int| #[trigger] live(nodes, edges, i) && edges[i].to.node == v implies m > 0
        && settles_within(nodes, edges, edges[i].from.node, (m - 1) as nat) by {
        lemma_settles_monotone(nodes, edges, edges[i].from.node, (n - 1) as nat, (m - 1) as nat);
    }
}

/// The bookkeeping of a run: in-degrees count the edges from nodes not yet
/// listed, and the nodes with none are the ones listed or waiting.
spec fn bookkeeping(
    nodes: Map<NodeId, Node>,
    edges: Seq<Edge>,
    degree: Map<u64, usize>,
    order: Seq<NodeId>,
    queue: Seq<NodeId>,
) -> bool {
    &&& order.no_duplicates()
    &&& queue.no_duplicates()
    &&& forall|id: NodeId| #[trigger] order.contains(id) ==> nodes.contains_key(id)
    &&& forall|id: NodeId| #[trigger]
        queue.contains(id) ==> nodes.contains_key(id) && !order.contains(id)
    &&& forall|id: NodeId|
        #![trigger nodes.contains_key(id)]
        nodes.contains_key(id) ==> degree.contains_key(id.code()) && (degree[id.code()] == 0
            <==> order.contains(id) || queue.contains(id))
    &&& forall|i: int, b: int|
        #![trigger live(nodes, edges, i), order[b]]
        live(nodes, edges, i) && 0 <= b < order.len() && edges[i].to.node == order[b]
            ==> order.take(b).contains(edges[i].from.node)
}

spec fn degrees_are(
    nodes: Map<NodeId, Node>,
    edges: Seq<Edge>,
    degree: Map<u64, usize>,
    done: Set<NodeId>,
    n: NodeId,
    j: int,
) -> bool {
    forall|id: NodeId|
        #![trigger nodes.contains_key(id)]
        nodes.contains_key(id) ==> degree.contains_key(id.code()) && degree[id.code()] == pending(
            nodes,
            edges,
            edges.len() as int,
            id,
            done,
        ) - released(nodes, edges, j, id, n)
}

proof fn lemma_listed_fit(nodes: Map<NodeId, Node>, keys: Seq<NodeId>, order: Seq<NodeId>)
    requires
        is_key_order(nodes, keys),
        order.no_duplicates(),
        forall|id: NodeId| #[trigger] order.contains(id) ==> nodes.contains_key(id),
    ensures
        order.len() <= keys.len(),
        order.len() == keys.len() <==> (forall|id: NodeId|
            nodes.contains_key(id) ==> #[trigger] order.contains(id)),
{
    key_order_is_distinct(nodes, keys);
    order.unique_seq_to_set();
    assert(order.to_set().subset_of(nodes.dom())) by {
        assert forall|id: NodeId| order.to_set().contains(id) implies nodes.dom().contains(id) by {
            assert(order.contains(id));
        }
    }
    vstd::set_lib::lemma_len_subset(order.to_set(), nodes.dom());
    if order.len() == keys.len() {
        vstd::set_lib::lemma_subset_equality(order.to_set(), nodes.dom());
        assert forall|id: NodeId| nodes.contains_key(id) implies #[trigger] order.contains(id) by {
            assert(order.to_set().contains(id));
        }
    } else if forall|id: NodeId| nodes.contains_key(id) ==> #[trigger] order.contains(id) {
        assert(order.to_set() =~= nodes.dom()) by {
            assert forall|id: NodeId| nodes.dom().contains(id) implies order.to_set().contains(
            id) by {
                assert(order.contains(id));
            }
        }
    }
}

/// Everything upstream of the node listed at `b` is listed before it, so it
/// settles.
proof fn lemma_listed_settle(
    nodes: Map<NodeId, Node>,
    edges: Seq<Edge>,
    degree: Map<u64, usize>,
    order: Seq<NodeId>,
    queue: Seq<NodeId>,
    b: int,
)
    requires
        bookkeeping(nodes, edges, degree, order, queue),
        0 <= b < order.len(),
    ensures
        settles_within(nodes, edges, order[b], b as nat),
    decreases b,
{
    assert forall|i: int| #[trigger]
        live(nodes, edges, i) && edges[i].to.node == order[b] implies b > 0 && settles_within(
        nodes,
        edges,
        edges[i].from.node,
        (b - 1) as nat,
    ) by {
        let before = order.take(b);
        assert(before.contains(edges[i].from.node));
        let a = choose|a: int| 0 <= a < before.len() && before[a] == edges[i].from.node;
        assert(order[a] == edges[i].from.node);
        lemma_listed_settle(nodes, edges, degree, order, queue, a);
        lemma_settles_monotone(nodes, edges, order[a], a as nat, (b - 1) as nat);
    }
}

/// At the end of a run a node settles exactly when it was listed.
proof fn lemma_listed_iff_settles(
    nodes: Map<NodeId, Node>,
    edges: Seq<Edge>,
    degree: Map<u64, usize>,
    order: Seq<NodeId>,
    n: NodeId,
)
    requires
        bookkeeping(nodes, edges, degree, order, Seq::empty()),
        degrees_are(nodes, edges, degree, order.to_set(), n, 0),
    ensures
        forall|id: NodeId|
            nodes.contains_key(id) ==> (#[trigger] settles(nodes, edges, id) <==> order.contains(
                id,
            )),
{
    let left = nodes.dom().difference(order.to_set());
    assert forall|w: NodeId| #[trigger] left.contains(w) implies exists|i: int| #[trigger]
        live(nodes, edges, i) && edges[i].to.node == w && left.contains(edges[i].from.node) by {
        assert(nodes.contains_key(w));
        assert(!order.contains(w)) by {
            if order.contains(w) {
                assert(order.to_set().contains(w));
            }
        }
        assert(!Seq::<NodeId>::empty().contains(w));
        lemma_pending_zero(nodes, edges, edges.len() as int, w, order.to_set());
        let i = choose|i: int| #[trigger]
            live(nodes, edges, i) && edges[i].to.node == w && !order.to_set().contains(
                edges[i].from.node,
            );
        assert(live(nodes, edges, i) && left.contains(edges[i].from.node));
    }
    assert forall|id: NodeId| nodes.contains_key(id) implies (#[trigger] settles(nodes, edges, id)
        <==> order.contains(id)) by {
        if order.contains(id) {
            let b = choose|b: int| 0 <= b < order.len() && order[b] == id;
            lemma_listed_settle(nodes, edges, degree, order, Seq::empty(), b);
        } else {
            assert(left.contains(id)) by {
                if order.to_set().contains(id) {
                    assert(order.contains(id));
                }
            }
            assert forall|k: nat| !settles_within(nodes, edges, id, k) by {
                lemma_fed_from_within(nodes, edges, left, id, k);
            }
        }
    }
}

/// One released edge: the in-degree of its target drops.
fn release(degree: &mut HashMap<u64, usize>, target: NodeId) -> (r: usize)
    requires
        old(degree)@.contains_key(target.code()),
        old(degree)@[target.code()] > 0,
    ensures
        final(degree)@ == old(degree)@.insert(target.code(), r),
        r == old(degree)@[target.code()] - 1,
{
    let code: u64 = target.to_code();
    let d: usize = match degree.get(&code) {
        Some(d) => *d - 1,
        None => 0,
    };
    degree.insert(code, d);
    d
}

fn count_degrees(nodes: &NodeMap, edges: &Vec<Edge>, keys: &Vec<NodeId>) -> (r: HashMap<u64, usize>)
    requires
        is_key_order(nodes@, keys@),
    ensures
        forall|id: NodeId|
            #![trigger nodes@.contains_key(id)]
            nodes@.contains_key(id) ==> r@.contains_key(id.code()) && r@[id.code()] == pending(
                nodes@,
                edges@,
                edges@.len() as int,
                id,
                Set::empty(),
            ),
{
    let mut degree: HashMap<u64, usize> = HashMap::new();
    let mut k: usize = 0;
    while k < keys.len()
        invariant
            k <= keys@.len(),
            forall|a: int|
                0 <= a < k ==> degree@.contains_key((#[trigger] keys@[a]).code())
                    && degree@[keys@[a].code()] == 0,
        decreases keys@.len() - k,
    {
        degree.insert(keys[k].to_code(), 0);
        k = k + 1;
    }
    assert forall|id: NodeId|
        #![trigger nodes@.contains_key(id)]
        nodes@.contains_key(id) implies degree@.contains_key(id.code()) && degree@[id.code()]
        == pending(nodes@, edges@, 0, id, Set::empty()) by {
        assert(keys@.contains(id));
    }
    let mut j: usize = 0;
    while j < edges.len()
        invariant
            j <= edges@.len(),
            forall|id: NodeId|
                #![trigger nodes@.contains_key(id)]
                nodes@.contains_key(id) ==> degree@.contains_key(id.code()) && degree@[id.code()]
                    == pending(nodes@, edges@, j as int, id, Set::empty()),
        decreases edges@.len() - j,
    {
        let e = edges[j];
        if nodes.contains_key(e.from.node) && nodes.contains_key(e.to.node) {
            let code: u64 = e.to.node.to_code();
            let d: usize = match degree.get(&code) {
                Some(d) => *d,
                None => 0,
            };
            proof {
                lemma_pending_bounds(nodes@, edges@, j as int, e.to.node, Set::empty());
            }
            degree.insert(code, d + 1);
            assert forall|id: NodeId|
                #![trigger nodes@.contains_key(id)]
                nodes@.contains_key(id) implies degree@.contains_key(id.code())
                && degree@[id.code()] == pending(nodes@, edges@, j + 1, id, Set::empty()) by {
                code_identifies(id, e.to.node);
            }
        }
        j = j + 1;
    }
    degree
}

fn seed_queue(nodes: &NodeMap, degree: &HashMap<u64, usize>, keys: &Vec<NodeId>) -> (r: Vec<NodeId>)
    requires
        is_key_order(nodes@, keys@),
        forall|id: NodeId|
            #![trigger nodes@.contains_key(id)]
            nodes@.contains_key(id) ==> degree@.contains_key(id.code()),
    ensures
        r@.no_duplicates(),
        forall|id: NodeId|
            #[trigger] r@.contains(id) <==> nodes@.contains_key(id) && degree@[id.code()] == 0,
{
    let mut queue: Vec<NodeId> = Vec::new();
    let mut k: usize = 0;
    proof {
        key_order_is_distinct(nodes@, keys@);
    }
    while k < keys.len()
        invariant
            k <= keys@.len(),
            keys@.no_duplicates(),
            is_key_order(nodes@, keys@),
            forall|id: NodeId|
                #![trigger nodes@.contains_key(id)]
                nodes@.contains_key(id) ==> degree@.contains_key(id.code()),
            queue@.no_duplicates(),
            forall|id: NodeId| #[trigger]
                queue@.contains(id) <==> keys@.take(k as int).contains(id) && degree@[id.code()]
                    == 0,
        decreases keys@.len() - k,
    {
        let id = keys[k];
        assert(nodes@.contains_key(id));
        let zero = match degree.get(&id.to_code()) {
            Some(d) => *d == 0,
            None => false,
        };
        let ghost before = queue@;
        assert(keys@.take(k + 1) =~= keys@.take(k as int).push(id));
        assert(!keys@.take(k as int).contains(id)) by {
            if keys@.take(k as int).contains(id) {
                let a = choose|a: int| 0 <= a < k && keys@.take(k as int)[a] == id;
                assert(keys@[a] == keys@[k as int]);
            }
        }
        assert(!before.contains(id));
        if zero {
            queue.push(id);
            assert forall|w: NodeId| #[trigger] queue@.contains(w) <==> before.contains(w) || w
                == id by {
                if before.contains(w) {
                    let a = choose|a: int| 0 <= a < before.len() && before[a] == w;
                    assert(queue@[a] == w);
                }
                if w == id {
                    assert(queue@[before.len() as int] == w);
                }
            }
        }
        assert forall|w: NodeId| #[trigger] queue@.contains(w) <==> keys@.take(k + 1).contains(w)
            && degree@[w.code()] == 0 by {
            if keys@.take(k as int).contains(w) {
                let a = choose|a: int| 0 <= a < k && keys@.take(k as int)[a] == w;
                assert(keys@.take(k + 1)[a] == w);
            }
            if w == id {
                assert(keys@.take(k + 1)[k as int] == w);
            }
            if keys@.take(k + 1).contains(w) {
                let upto = keys@.take(k + 1);
                let a = choose|a: int| 0 <= a < upto.len() && upto[a] == w;
                if a < k {
                    assert(keys@.take(k as int)[a] == w);
                }
            }
        }
        k = k + 1;
    }
    assert(keys@.take(k as int) =~= keys@);
    assert forall|id: NodeId| #[trigger] queue@.contains(id) <==> nodes@.contains_key(id)
        && degree@[id.code()] == 0 by {
        if keys@.contains(id) {
            let a = choose|a: int| 0 <= a < keys@.len() && keys@[a] == id;
            assert(nodes@.contains_key(keys@[a]));
        }
    }
    queue
}

fn collect_unsettled(
    nodes: &NodeMap,
    Ghost(edges): Ghost<Seq<Edge>>,
    degree: &HashMap<u64, usize>,
    keys: &Vec<NodeId>,
) -> (r: Vec<NodeId>)
    requires
        is_key_order(nodes@, keys@),
        forall|id: NodeId|
            #![trigger nodes@.contains_key(id)]
            nodes@.contains_key(id) ==> degree@.contains_key(id.code()) && (degree@[id.code()] == 0
                <==> settles(nodes@, edges, id)),
    ensures
        r@ == unsettled(nodes@, edges, keys@),
{
    let mut out: Vec<NodeId> = Vec::new();
    let mut k: usize = 0;
    while k < keys.len()
        invariant
            k <= keys@.len(),
            is_key_order(nodes@, keys@),
            forall|id: NodeId|
                #![trigger nodes@.contains_key(id)]
                nodes@.contains_key(id) ==> degree@.contains_key(id.code()) && (degree@[id.code()]
                    == 0 <==> settles(nodes@, edges, id)),
            out@ == unsettled(nodes@, edges, keys@.take(k as int)),
        decreases keys@.len() - k,
    {
        let id = keys[k];
        assert(nodes@.contains_key(id));
        assert(keys@.take(k + 1).drop_last() =~= keys@.take(k as int));
        let zero = match degree.get(&id.to_code()) {
            Some(d) => *d == 0,
            None => false,
        };
        if !zero {
            out.push(id);
        }
        k = k + 1;
    }
    assert(keys@.take(k as int) =~= keys@);
    out
}

/// List every node with its sources before it. When the graph has a cycle that
/// cannot be done, and the nodes on or downstream of one come back instead.
pub fn dependency_order(nodes: &NodeMap, edges: &Vec<Edge>) -> (r: Result<
    Vec<NodeId>,
    Vec<NodeId>,
>)
    ensures
        match r {
            Ok(order) => {
                &&& is_evaluation_order(nodes@, edges@, order@)
                &&& forall|id: NodeId|
                    nodes@.contains_key(id) ==> #[trigger] settles(nodes@, edges@, id)
            },
            Err(blocked) => {
                &&& blocked@.len() > 0
                &&& exists|keys: Seq<NodeId>| #[trigger]
                    is_key_order(nodes@, keys) && blocked@ == unsettled(nodes@, edges@, keys)
            },
        },
{
    let keys = nodes.keys();
    let mut degree = count_degrees(nodes, edges, &keys);
    let mut queue = seed_queue(nodes, &degree, &keys);
    let mut order: Vec<NodeId> = Vec::new();
    let ghost mut last: NodeId = arbitrary();
    assert(order@.to_set() =~= Set::<NodeId>::empty());
    while queue.len() > 0
        invariant
            is_key_order(nodes@, keys@),
            bookkeeping(nodes@, edges@, degree@, order@, queue@),
            degrees_are(nodes@, edges@, degree@, order@.to_set(), last, 0),
        decreases keys@.len() - order@.len(),
    {
        let ghost queue0 = queue@;
        let ghost order0 = order@;
        let ghost done = order@.to_set();
        let n = queue[queue.len() - 1];
        queue.pop();
        proof {
            assert(queue0 =~= queue@.push(n));
            assert(queue0.contains(n)) by {
                assert(queue0[queue0.len() - 1] == n);
            }
            assert(nodes@.contains_key(n));
            assert(!order0.contains(n));
            assert(!done.contains(n));
            lemma_pending_zero(nodes@, edges@, edges@.len() as int, n, done);
            assert(degree@[n.code()] == 0);
        }
        order.push(n);
        proof {
            assert forall|w: NodeId| #[trigger] order@.contains(w) <==> order0.contains(w) || w
                == n by {
                if order0.contains(w) {
                    let a = choose|a: int| 0 <= a < order0.len() && order0[a] == w;
                    assert(order@[a] == w);
                }
                if w == n {
                    assert(order@[order0.len() as int] == w);
                }
            }
            assert forall|w: NodeId| #[trigger] queue0.contains(w) <==> queue@.contains(w) || w
                == n by {
                if queue@.contains(w) {
                    let a = choose|a: int| 0 <= a < queue@.len() && queue@[a] == w;
                    assert(queue0[a] == w);
                }
            }
            assert(!queue@.contains(n)) by {
                if queue@.contains(n) {
                    let a = choose|a: int| 0 <= a < queue@.len() && queue@[a] == n;
                    assert(queue0[a] == queue0[queue0.len() - 1]);
                }
            }
            assert(queue@.no_duplicates()) by {
                assert forall|a: int, b: int|
                    0 <= a < queue@.len() && 0 <= b < queue@.len() && a != b implies queue@[a]
                    != queue@[b] by {
                    assert(queue0[a] != queue0[b]);
                }
            }
            assert forall|i: int, b: int|
                #![trigger live(nodes@, edges@, i), order@[b]]
                live(nodes@, edges@, i) && 0 <= b < order@.len() && edges@[i].to.node
                    == order@[b] implies order@.take(b).contains(edges@[i].from.node) by {
                if b < order0.len() {
                    assert(order@[b] == order0[b]);
                    assert(order@.take(b) =~= order0.take(b));
                } else {
                    assert(done.contains(edges@[i].from.node));
                    assert(order@.take(b) =~= order0);
                }
            }
            assert(order@.no_duplicates()) by {
                assert forall|a: int, b: int|
                    0 <= a < order@.len() && 0 <= b < order@.len() && a != b implies order@[a]
                    != order@[b] by {
                    if a < order0.len() {
                        assert(order0.contains(order@[a]));
                    }
                    if b < order0.len() {
                        assert(order0.contains(order@[b]));
                    }
                }
            }
            assert forall|w: NodeId| #[trigger] queue@.contains(w) implies nodes@.contains_key(w)
                && !order@.contains(w) by {
                assert(queue0.contains(w));
            }
            assert(bookkeeping(nodes@, edges@, degree@, order@, queue@));
            lemma_listed_fit(nodes@, keys@, order@);
        }
        let mut j: usize = 0;
        assert(degrees_are(nodes@, edges@, degree@, done, n, 0));
        while j < edges.len()
            invariant
                j <= edges@.len(),
                nodes@.contains_key(n),
                !done.contains(n),
                bookkeeping(nodes@, edges@, degree@, order@, queue@),
                degrees_are(nodes@, edges@, degree@, done, n, j as int),
            decreases edges@.len() - j,
        {
            let e = edges[j];
            if e.from.node == n && nodes.contains_key(e.to.node) {
                let ghost queue1 = queue@;
                let to = e.to.node;
                proof {
                    assert(live(nodes@, edges@, j as int));
                    lemma_pending_insert(nodes@, edges@, edges@.len() as int, to, done, n);
                    lemma_pending_bounds(nodes@, edges@, edges@.len() as int, to, done.insert(n));
                    lemma_released_monotone(
                        nodes@,
                        edges@,
                        j + 1,
                        edges@.len() as int,
                        to,
                        n,
                    );
                    assert(nodes@.contains_key(to));
                }
                let d: usize = release(&mut degree, to);
                if d == 0 {
                    queue.push(to);
                }
                proof {
                    assert(!order@.contains(to) && !queue1.contains(to));
                    assert forall|w: NodeId| #[trigger] queue@.contains(w) <==> queue1.contains(w)
                        || (d == 0 && w == to) by {
                        if queue1.contains(w) {
                            let a = choose|a: int| 0 <= a < queue1.len() && queue1[a] == w;
                            assert(queue@[a] == w);
                        }
                        if d == 0 && w == to {
                            assert(queue@[queue1.len() as int] == w);
                        }
                    }
                    assert forall|id: NodeId|
                        #![trigger nodes@.contains_key(id)]
                        nodes@.contains_key(id) implies degree@.contains_key(id.code()) && (
                    degree@[id.code()] == 0 <==> order@.contains(id) || queue@.contains(id))
                        && degree@[id.code()] == pending(
                        nodes@,
                        edges@,
                        edges@.len() as int,
                        id,
                        done,
                    ) - released(nodes@, edges@, j + 1, id, n) by {
                        code_identifies(id, to);
                    }
                }
            } else {
                assert forall|id: NodeId|
                    #![trigger nodes@.contains_key(id)]
                    nodes@.contains_key(id) implies released(nodes@, edges@, j + 1, id, n)
                    == released(nodes@, edges@, j as int, id, n) by {}
            }
            j = j + 1;
        }
        proof {
            last = n;
            assert(order@.to_set() =~= done.insert(n)) by {
                assert forall|w: NodeId| order@.to_set().contains(w) <==> done.insert(n).contains(
                    w,
                ) by {
                    assert(order@.to_set().contains(w) <==> order@.contains(w));
                    assert(order0.to_set().contains(w) <==> order0.contains(w));
                    if order0.contains(w) {
                        let a = choose|a: int| 0 <= a < order0.len() && order0[a] == w;
                        assert(order@[a] == w);
                    }
                    if w == n {
                        assert(order@[order0.len() as int] == w);
                    }
                }
            }
            assert forall|id: NodeId|
                #![trigger nodes@.contains_key(id)]
                nodes@.contains_key(id) implies degree@.contains_key(id.code())
                && degree@[id.code()] == pending(
                nodes@,
                edges@,
                edges@.len() as int,
                id,
                order@.to_set(),
            ) - released(nodes@, edges@, 0, id, n) by {
                lemma_pending_insert(nodes@, edges@, edges@.len() as int, id, done, n);
            }
        }
    }
    proof {
        assert(queue@ =~= Seq::<NodeId>::empty());
        lemma_listed_iff_settles(nodes@, edges@, degree@, order@, last);
        lemma_listed_fit(nodes@, keys@, order@);
    }
    if order.len() == keys.len() {
        assert forall|i: int, a: int, b: int|
            #![trigger live(nodes@, edges@, i), order@[a], order@[b]]
            live(nodes@, edges@, i) && 0 <= a < order@.len() && 0 <= b < order@.len() && order@[a]
                == edges@[i].from.node && order@[b] == edges@[i].to.node implies a < b by {
            let before = order@.take(b);
            assert(before.contains(edges@[i].from.node));
            let c = choose|c: int| 0 <= c < before.len() && before[c] == edges@[i].from.node;
            assert(order@[c] == order@[a]);
        }
        Ok(order)
    } else {
        let blocked = collect_unsettled(nodes, Ghost(edges@), &degree, &keys);
        proof {
            let missed = choose|id: NodeId|
                nodes@.contains_key(id) && !(#[trigger] order@.contains(id));
            assert(!settles(nodes@, edges@, missed));
            lemma_unsettled_members(nodes@, edges@, keys@);
            assert(keys@.contains(missed));
            assert(blocked@.contains(missed));
        }
        Err(blocked)
    }
}

/// The unsettled list holds exactly the listed nodes that do not settle.
pub proof fn lemma_unsettled_members(
    nodes: Map<NodeId, Node>,
    edges: Seq<Edge>,
    keys: Seq<NodeId>,
)
    ensures
        forall|id: NodeId| #[trigger]
            unsettled(nodes, edges, keys).contains(id) <==> keys.contains(id) && !settles(
                nodes,
                edges,
                id,
            ),
    decreases keys.len(),
{
    let all = unsettled(nodes, edges, keys);
    if keys.len() > 0 {
        let shorter = keys.drop_last();
        lemma_unsettled_members(nodes, edges, shorter);
        let rest = unsettled(nodes, edges, shorter);
        assert forall|id: NodeId| #[trigger] all.contains(id) <==> keys.contains(id) && !settles(
            nodes,
            edges,
            id,
        ) by {
            assert(keys.contains(id) <==> shorter.contains(id) || id == keys.last()) by {
                if keys.contains(id) {
                    let a = choose|a: int| 0 <= a < keys.len() && keys[a] == id;
                    if a < keys.len() - 1 {
                        assert(shorter[a] == id);
                    }
                }
                if shorter.contains(id) {
                    let a = choose|a: int| 0 <= a < shorter.len() && shorter[a] == id;
                    assert(keys[a] == id);
                }
            }
            if all.contains(id) {
                let a = choose|a: int| 0 <= a < all.len() && all[a] == id;
                if a < rest.len() {
                    assert(rest[a] == id);
                }
            }
            if rest.contains(id) {
                let a = choose|a: int| 0 <= a < rest.len() && rest[a] == id;
                assert(all[a] == id);
            }
            if id == keys.last() && !settles(nodes, edges, id) {
                assert(all[rest.len() as int] == id);
            }
        }
    }
}

/// Whether a walk ends at `v` and passes through some node twice: `v` is then on
/// a cycle or downstream of one.
pub open spec fn downstream_of_cycle(
    nodes: Map<NodeId, Node>,
    edges: Seq<Edge>,
    v: NodeId,
) -> bool {
    exists|walk: Seq<NodeId>| #[trigger]
        is_walk(nodes, edges, walk) && walk.last() == v && !walk.no_duplicates()
}

/// If every source of `v` settles, all of them do within one bound.
proof fn lemma_common_bound(
    nodes: Map<NodeId, Node>,
    edges: Seq<Edge>,
    v: NodeId,
    k: int,
) -> (bound: nat)
    requires
        0 <= k <= edges.len(),
        forall|i: int| #[trigger]
            live(nodes, edges, i) && edges[i].to.node == v ==> settles(
                nodes,
                edges,
                edges[i].from.node,
            ),
    ensures
        forall|i: int| #[trigger]
            live(nodes, edges, i) && i < k && edges[i].to.node == v ==> settles_within(
                nodes,
                edges,
                edges[i].from.node,
                bound,
            ),
    decreases k,
{
    if k == 0 {
        0
    } else {
        let rest = lemma_common_bound(nodes, edges, v, k - 1);
        if live(nodes, edges, k - 1) && edges[k - 1].to.node == v {
            let u = edges[k - 1].from.node;
            let n = choose|n: nat| settles_within(nodes, edges, u, n);
            let bound = if n >= rest {
                n
            } else {
                rest
            };
            assert forall|i: int| #[trigger]
                live(nodes, edges, i) && i < k && edges[i].to.node == v implies settles_within(
                nodes,
                edges,
                edges[i].from.node,
                bound,
            ) by {
                if i == k - 1 {
                    lemma_settles_monotone(nodes, edges, u, n, bound);
                } else {
                    lemma_settles_monotone(nodes, edges, edges[i].from.node, rest, bound);
                }
            }
            bound
        } else {
            rest
        }
    }
}

/// An unsettled node has an unsettled source.
proof fn lemma_unsettled_source(nodes: Map<NodeId, Node>, edges: Seq<Edge>, v: NodeId) -> (i: int)
    requires
        !settles(nodes, edges, v),
    ensures
        live(nodes, edges, i),
        edges[i].to.node == v,
        !settles(nodes, edges, edges[i].from.node),
{
    if forall|i: int| #[trigger]
        live(nodes, edges, i) && edges[i].to.node == v ==> settles(
            nodes,
            edges,
            edges[i].from.node,
        ) {
        let bound = lemma_common_bound(nodes, edges, v, edges.len() as int);
        assert(settles_within(nodes, edges, v, bound + 1));
        assert(settles(nodes, edges, v));
    }
    choose|i: int| #[trigger]
        live(nodes, edges, i) && edges[i].to.node == v && !settles(
            nodes,
            edges,
            edges[i].from.node,
        )
}

/// Walks of any length lead to an unsettled node.
proof fn lemma_long_walk(
    nodes: Map<NodeId, Node>,
    edges: Seq<Edge>,
    v: NodeId,
    n: nat,
) -> (walk: Seq<NodeId>)
    requires
        nodes.contains_key(v),
        !settles(nodes, edges, v),
    ensures
        walk.len() == n + 1,
        walk.last() == v,
        is_walk(nodes, edges, walk),
        forall|k: int| 0 <= k < walk.len() ==> nodes.contains_key(#[trigger] walk[k]),
    decreases n,
{
    if n == 0 {
        seq![v]
    } else {
        let i = lemma_unsettled_source(nodes, edges, v);
        let u = edges[i].from.node;
        let rest = lemma_long_walk(nodes, edges, u, (n - 1) as nat);
        let walk = rest.push(v);
        assert forall|k: int, m: int| 0 <= k && m == k + 1 && m < walk.len() implies #[trigger] feeds(
            nodes,
            edges,
            walk[k],
            walk[m],
        ) by {
            if m < rest.len() {
                assert(feeds(nodes, edges, rest[k], rest[m]));
            } else {
                assert(live(nodes, edges, i) && edges[i].from.node == walk[k]);
            }
        }
        walk
    }
}

/// Along a walk, whatever comes before a settling node settles.
proof fn lemma_walk_settles(
    nodes: Map<NodeId, Node>,
    edges: Seq<Edge>,
    walk: Seq<NodeId>,
    k: int,
    n: nat,
)
    requires
        is_walk(nodes, edges, walk),
        0 <= k < walk.len(),
        settles_within(nodes, edges, walk.last(), n),
    ensures
        walk.len() - 1 - k <= n,
        settles_within(nodes, edges, walk[k], (n - (walk.len() - 1 - k)) as nat),
    decreases walk.len() - k,
{
    if k < walk.len() - 1 {
        lemma_walk_settles(nodes, edges, walk, k + 1, n);
        assert(feeds(nodes, edges, walk[k], walk[k + 1]));
    }
}

/// A walk around a cycle can be taken again: from a node met twice at `i < j`,
/// walks of any length end there.
proof fn lemma_cycle_unsettled(
    nodes: Map<NodeId, Node>,
    edges: Seq<Edge>,
    walk: Seq<NodeId>,
    i: int,
    j: int,
    n: nat,
)
    requires
        is_walk(nodes, edges, walk),
        0 <= i < j < walk.len(),
        walk[i] == walk[j],
    ensures
        !settles_within(nodes, edges, walk[j], n),
    decreases n,
{
    if settles_within(nodes, edges, walk[j], n) {
        let upto = walk.take(j + 1);
        assert(is_walk(nodes, edges, upto)) by {
            assert forall|k: int, m: int|
                0 <= k && m == k + 1 && m < upto.len() implies #[trigger] feeds(
                nodes,
                edges,
                upto[k],
                upto[m],
            ) by {
                assert(feeds(nodes, edges, walk[k], walk[m]));
            }
        }
        lemma_walk_settles(nodes, edges, upto, i, n);
        lemma_cycle_unsettled(nodes, edges, walk, i, j, (n - (j - i)) as nat);
    }
}

/// The nodes reported for a cyclic graph are exactly those on a cycle or
/// downstream of one.
pub proof fn unsettled_is_downstream_of_a_cycle(
    nodes: Map<NodeId, Node>,
    edges: Seq<Edge>,
    v: NodeId,
)
    requires
        nodes.dom().finite(),
        nodes.contains_key(v),
    ensures
        !settles(nodes, edges, v) <==> downstream_of_cycle(nodes, edges, v),
{
    if !settles(nodes, edges, v) {
        let walk = lemma_long_walk(nodes, edges, v, nodes.len());
        if walk.no_duplicates() {
            walk.unique_seq_to_set();
            assert(walk.to_set().subset_of(nodes.dom())) by {
                assert forall|w: NodeId| walk.to_set().contains(w) implies nodes.dom().contains(
                    w,
                ) by {
                    let k = choose|k: int| 0 <= k < walk.len() && walk[k] == w;
                    assert(nodes.contains_key(walk[k]));
                }
            }
            vstd::set_lib::lemma_len_subset(walk.to_set(), nodes.dom());
        }
    }
    if downstream_of_cycle(nodes, edges, v) {
        let walk = choose|walk: Seq<NodeId>| #[trigger]
            is_walk(nodes, edges, walk) && walk.last() == v && !walk.no_duplicates();
        let (i, j) = choose|i: int, j: int|
            0 <= i < walk.len() && 0 <= j < walk.len() && i != j && #[trigger] walk[i]
                == #[trigger] walk[j];
        let (a, b) = if i < j {
            (i, j)
        } else {
            (j, i)
        };
        if settles(nodes, edges, v) {
            let n = choose|n: nat| settles_within(nodes, edges, v, n);
            lemma_walk_settles(nodes, edges, walk, b, n);
            lemma_cycle_unsettled(
                nodes,
                edges,
                walk,
                a,
                b,
                (n - (walk.len() - 1 - b)) as nat,
            );
        }
    }
}

/// An order exists exactly when the graph has no cycle.
pub proof fn every_node_settles_iff_acyclic(nodes: Map<NodeId, Node>, edges: Seq<Edge>)
    requires
        nodes.dom().finite(),
    ensures
        cyclic(nodes, edges) <==> (exists|v: NodeId| #[trigger]
            nodes.contains_key(v) && !settles(nodes, edges, v)),
{
    if cyclic(nodes, edges) {
        let walk = choose|walk: Seq<NodeId>| #[trigger]
            is_walk(nodes, edges, walk) && walk.len() >= 2 && walk[0] == walk.last();
        let last = walk.len() - 1;
        assert(feeds(nodes, edges, walk[last - 1], walk[last]));
        assert(nodes.contains_key(walk.last()));
        assert forall|n: nat| !settles_within(nodes, edges, walk.last(), n) by {
            lemma_cycle_unsettled(nodes, edges, walk, 0, last, n);
        }
        assert(!settles(nodes, edges, walk.last()));
    }
    if exists|v: NodeId| #[trigger] nodes.contains_key(v) && !settles(nodes, edges, v) {
        let v = choose|v: NodeId| #[trigger]
            nodes.contains_key(v) && !settles(nodes, edges, v);
        unsettled_is_downstream_of_a_cycle(nodes, edges, v);
        let walk = choose|walk: Seq<NodeId>| #[trigger]
            is_walk(nodes, edges, walk) && walk.last() == v && !walk.no_duplicates();
        let (i, j) = choose|i: int, j: int|
            0 <= i < walk.len() && 0 <= j < walk.len() && i != j && #[trigger] walk[i]
                == #[trigger] walk[j];
        let (a, b) = if i < j {
            (i, j)
        } else {
            (j, i)
        };
        let round = walk.subrange(a, b + 1);
        assert forall|k: int, m: int|
            0 <= k && m == k + 1 && m < round.len() implies #[trigger] feeds(
            nodes,
            edges,
            round[k],
            round[m],
        ) by {
            assert(feeds(nodes, edges, walk[a + k], walk[a + m]));
        }
        assert(is_walk(nodes, edges, round));
    }
}

} // verus!
