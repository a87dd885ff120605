//! An input-pin index over a graph's edges: which output feeds an input pin.
//!
//! Answered against the edges directly that is a linear scan. The index keeps
//! the sources in one list, with a window of it per destination node.
use crate::edge::{Edge, PinRef};
use crate::graph::Graph;
use crate::ids::GraphKind;
use crate::node::Node;
use crate::slots::{after_insert, code_identifies, is_key_order, older, NodeId, WindowMap};
use crate::soundness::sound_edges;
use crate::validate::edge_problem;
use vstd::prelude::*;

verus! {

/// The source of the last of the first `k` edges into an input pin.
pub open spec fn last_source(edges: Seq<Edge>, node: NodeId, pin: u16, k: int) -> Option<PinRef>
    decreases k,
{
    if k <= 0 {
        None
    } else if edges[k - 1].to.node == node && edges[k - 1].to.pin == pin {
        Some(edges[k - 1].from)
    } else {
        last_source(edges, node, pin, k - 1)
    }
}

/// Whether some edge goes into a newer identity of the node's slot. Edges into
/// the older one are then stale.
pub open spec fn superseded(edges: Seq<Edge>, node: NodeId) -> bool {
    exists|i: int|
        0 <= i < edges.len() && (#[trigger] edges[i]).to.node.slot() == node.slot()
            && edges[i].to.node.version() > node.version()
}

/// The output pin an index finds for an input pin.
pub open spec fn indexed_source(edges: Seq<Edge>, node: NodeId, pin: u16) -> Option<PinRef> {
    if superseded(edges, node) {
        None
    } else {
        last_source(edges, node, pin, edges.len() as int)
    }
}

/// One more than the highest pin of a node that the first `k` edges feed, or 0.
pub open spec fn width(edges: Seq<Edge>, node: NodeId, k: int) -> int
    decreases k,
{
    if k <= 0 {
        0
    } else {
        let rest = width(edges, node, k - 1);
        if edges[k - 1].to.node == node && edges[k - 1].to.pin + 1 > rest {
            edges[k - 1].to.pin + 1
        } else {
            rest
        }
    }
}

/// Whether one of the first `k` edges goes into a node.
pub open spec fn reached(edges: Seq<Edge>, node: NodeId, k: int) -> bool {
    exists|i: int| 0 <= i < k && (#[trigger] edges[i]).to.node == node
}

/// How many entries the nodes that the first `k` edges reach take up together.
pub open spec fn extent(edges: Seq<Edge>, k: int) -> int
    decreases k,
{
    if k <= 0 {
        0
    } else {
        let node = edges[k - 1].to.node;
        extent(edges, k - 1) + (if !reached(edges, node, k - 1) && !superseded(edges, node) {
            width(edges, node, edges.len() as int)
        } else {
            0
        })
    }
}

/// Whether edges can be indexed: windows are counted in 32 bits, and identities
/// that share a slot are near enough in age to tell which is newer.
pub open spec fn indexable(edges: Seq<Edge>) -> bool {
    &&& extent(edges, edges.len() as int) <= 0xffff_ffff
    &&& forall|i: int, j: int|
        0 <= i < edges.len() && 0 <= j < edges.len() && (#[trigger] edges[i]).to.node.slot() == (
        #[trigger] edges[j]).to.node.slot() ==> edges[i].to.node.version()
            - edges[j].to.node.version() < 0x8000_0000
}

/// Whether a map holds, per slot that the first `k` edges reach, the newest
/// identity.
spec fn newest_held(edges: Seq<Edge>, k: int, m: Map<NodeId, (u32, u32)>) -> bool {
    &&& forall|h: NodeId| #[trigger] m.contains_key(h) ==> reached(edges, h, k)
    &&& forall|j: int|
        0 <= j < k ==> exists|h: NodeId| #[trigger]
            m.contains_key(h) && h.slot() == (#[trigger] edges[j]).to.node.slot() && h.version()
                >= edges[j].to.node.version()
    &&& forall|g: NodeId, h: NodeId| #[trigger]
        m.contains_key(g) && #[trigger] m.contains_key(h) && g.slot() == h.slot() ==> g == h
}

/// Between destinations that share a slot, the older is the one with the lower
/// generation.
proof fn lemma_older(edges: Seq<Edge>, i: int, j: int)
    requires
        indexable(edges),
        0 <= i < edges.len(),
        0 <= j < edges.len(),
        edges[i].to.node.slot() == edges[j].to.node.slot(),
    ensures
        older(edges[i].to.node.version(), edges[j].to.node.version())
            <==> edges[i].to.node.version() < edges[j].to.node.version(),
{
    assert(edges[i].to.node.version() - edges[j].to.node.version() < 0x8000_0000);
    assert(edges[j].to.node.version() - edges[i].to.node.version() < 0x8000_0000);
}

#[verifier::rlimit(40)]
#[verifier::spinoff_prover]
proof fn lemma_newest_step(
    edges: Seq<Edge>,
    k: int,
    m: Map<NodeId, (u32, u32)>,
    value: (u32, u32),
)
    requires
        0 <= k < edges.len(),
        newest_held(edges, k, m),
        indexable(edges),
    ensures
        newest_held(edges, k + 1, after_insert(m, edges[k].to.node, value)),
        forall|h: NodeId|
            m.contains_key(h) && h != edges[k].to.node && #[trigger] after_insert(
                m,
                edges[k].to.node,
                value,
            ).contains_key(h) ==> after_insert(m, edges[k].to.node, value)[h] == m[h],
        forall|h: NodeId| #[trigger]
            after_insert(m, edges[k].to.node, value).contains_key(h) ==> m.contains_key(h) || h
                == edges[k].to.node,
        after_insert(m, edges[k].to.node, value).contains_key(edges[k].to.node)
            && !m.contains_key(edges[k].to.node) ==> !reached(edges, edges[k].to.node, k),
        after_insert(m, edges[k].to.node, value).contains_key(edges[k].to.node) ==> after_insert(
            m,
            edges[k].to.node,
            value,
        )[edges[k].to.node] == value,
{
    let n = edges[k].to.node;
    let after = after_insert(m, n, value);
    if !m.contains_key(n) && after.contains_key(n) && reached(edges, n, k) {
        let j = choose|j: int| 0 <= j < k && (#[trigger] edges[j]).to.node == n;
        let h = choose|h: NodeId| #[trigger]
            m.contains_key(h) && h.slot() == edges[j].to.node.slot() && h.version()
                >= edges[j].to.node.version();
        code_identifies(h, n);
        let i = choose|i: int| 0 <= i < k && (#[trigger] edges[i]).to.node == h;
        assert(reached(edges, h, k));
        lemma_older(edges, k, i);
    }
    assert forall|h: NodeId| #[trigger] after.contains_key(h) implies reached(edges, h, k + 1) by {
        if h == n {
            assert(edges[k].to.node == h);
        } else {
            assert(reached(edges, h, k));
            let i = choose|i: int| 0 <= i < k && (#[trigger] edges[i]).to.node == h;
            assert(edges[i].to.node == h);
        }
    }
    assert forall|j: int| 0 <= j < k + 1 implies exists|h: NodeId| #[trigger]
        after.contains_key(h) && h.slot() == (#[trigger] edges[j]).to.node.slot() && h.version()
            >= edges[j].to.node.version() by {
        if j == k {
            if m.contains_key(n) {
                assert(after.contains_key(n));
            } else if exists|h: NodeId| #[trigger]
                m.contains_key(h) && h.slot() == n.slot() && older(n.version(), h.version()) {
                let h = choose|h: NodeId| #[trigger]
                    m.contains_key(h) && h.slot() == n.slot() && older(n.version(), h.version());
                assert(reached(edges, h, k));
                let i = choose|i: int| 0 <= i < k && (#[trigger] edges[i]).to.node == h;
                lemma_older(edges, k, i);
                assert(after.contains_key(h));
            } else {
                assert(after.contains_key(n));
            }
        } else {
            let h = choose|h: NodeId| #[trigger]
                m.contains_key(h) && h.slot() == edges[j].to.node.slot() && h.version()
                    >= edges[j].to.node.version();
            if !after.contains_key(h) {
                assert(h.slot() == n.slot());
                assert(after.contains_key(n));
                assert(reached(edges, h, k));
                let i = choose|i: int| 0 <= i < k && (#[trigger] edges[i]).to.node == h;
                lemma_older(edges, k, i);
            }
        }
    }
    assert forall|g: NodeId, h: NodeId| #[trigger]
        after.contains_key(g) && #[trigger] after.contains_key(h) && g.slot() == h.slot() implies g
        == h by {}
}

/// What is held at the end: the reached nodes that are not superseded.
proof fn lemma_held_iff(edges: Seq<Edge>, m: Map<NodeId, (u32, u32)>, node: NodeId)
    requires
        newest_held(edges, edges.len() as int, m),
    ensures
        m.contains_key(node) <==> reached(edges, node, edges.len() as int) && !superseded(
            edges,
            node,
        ),
{
    let n = edges.len() as int;
    if m.contains_key(node) {
        assert(reached(edges, node, n));
        if superseded(edges, node) {
            let i = choose|i: int|
                0 <= i < edges.len() && (#[trigger] edges[i]).to.node.slot() == node.slot()
                    && edges[i].to.node.version() > node.version();
            let h = choose|h: NodeId| #[trigger]
                m.contains_key(h) && h.slot() == edges[i].to.node.slot() && h.version()
                    >= edges[i].to.node.version();
            assert(h == node);
        }
    }
    if reached(edges, node, n) && !superseded(edges, node) {
        let j = choose|j: int| 0 <= j < n && (#[trigger] edges[j]).to.node == node;
        let h = choose|h: NodeId| #[trigger]
            m.contains_key(h) && h.slot() == edges[j].to.node.slot() && h.version()
                >= edges[j].to.node.version();
        assert(reached(edges, h, n));
        let i = choose|i: int| 0 <= i < n && (#[trigger] edges[i]).to.node == h;
        assert(h.version() <= node.version());
        code_identifies(h, node);
    }
}

proof fn lemma_width(edges: Seq<Edge>, node: NodeId, k: int)
    requires
        0 <= k <= edges.len(),
    ensures
        0 <= width(edges, node, k) <= 0x1_0000,
        width(edges, node, k) == 0 <==> !reached(edges, node, k),
        forall|i: int|
            0 <= i < k && (#[trigger] edges[i]).to.node == node ==> edges[i].to.pin < width(
                edges,
                node,
                k,
            ),
    decreases k,
{
    if k > 0 {
        lemma_width(edges, node, k - 1);
        let e = edges[k - 1];
        if reached(edges, node, k - 1) {
            let i = choose|i: int| 0 <= i < k - 1 && (#[trigger] edges[i]).to.node == node;
            assert(reached(edges, node, k));
        }
        if reached(edges, node, k) && e.to.node != node {
            let i = choose|i: int| 0 <= i < k && (#[trigger] edges[i]).to.node == node;
            assert(reached(edges, node, k - 1));
        }
    }
}

proof fn lemma_past_width(edges: Seq<Edge>, node: NodeId, pin: u16, k: int)
    requires
        0 <= k <= edges.len(),
        pin >= width(edges, node, k),
    ensures
        last_source(edges, node, pin, k) is None,
    decreases k,
{
    if k > 0 {
        lemma_width(edges, node, k - 1);
        lemma_past_width(edges, node, pin, k - 1);
    }
}

proof fn lemma_extent_monotone(edges: Seq<Edge>, j: int, k: int)
    requires
        0 <= j <= k <= edges.len(),
    ensures
        0 <= extent(edges, j) <= extent(edges, k),
    decreases k,
{
    if j < k {
        lemma_extent_monotone(edges, j, k - 1);
        lemma_width(edges, edges[k - 1].to.node, edges.len() as int);
    } else if k > 0 {
        lemma_extent_monotone(edges, k - 1, k - 1);
        lemma_width(edges, edges[k - 1].to.node, edges.len() as int);
    }
}

/// Whether every held node's window has the width it needs.
spec fn measured(edges: Seq<Edge>, k: int, m: Map<NodeId, (u32, u32)>) -> bool {
    forall|h: NodeId| #[trigger] m.contains_key(h) ==> m[h].1 == width(edges, h, k)
}

/// Whether the windows of the nodes that the first `k` edges reach are placed
/// below `next`, apart from each other.
spec fn placed(edges: Seq<Edge>, k: int, m: Map<NodeId, (u32, u32)>, next: int) -> bool {
    &&& forall|h: NodeId| #[trigger]
        m.contains_key(h) ==> if reached(edges, h, k) {
            m[h].0 + m[h].1 <= next
        } else {
            m[h].0 == 0xffff_ffff
        }
    &&& forall|g: NodeId, h: NodeId| #[trigger]
        m.contains_key(g) && #[trigger] m.contains_key(h) && g != h && reached(edges, g, k)
            && reached(edges, h, k) ==> m[g].0 + m[g].1 <= m[h].0 || m[h].0 + m[h].1 <= m[g].0
}

/// Whether the entries hold the sources that the first `k` edges give.
spec fn filled(
    edges: Seq<Edge>,
    k: int,
    m: Map<NodeId, (u32, u32)>,
    slots: Seq<Option<PinRef>>,
) -> bool {
    forall|h: NodeId, p: u16|
        m.contains_key(h) && p < m[h].1 ==> slots[m[h].0 + p] == #[trigger] last_source(
            edges,
            h,
            p,
            k,
        )
}

/// Sources by input pin, in node-contiguous storage.
#[derive(Debug)]
pub struct EdgeIndex {
    windows: WindowMap,
    slots: Vec<Option<PinRef>>,
}

impl EdgeIndex {
    #[verifier::type_invariant]
    spec fn windows_fit(self) -> bool {
        forall|h: NodeId| #[trigger]
            self.windows@.contains_key(h) ==> self.windows@[h].0 + self.windows@[h].1
                <= self.slots@.len() <= 0xffff_ffff
    }

    /// The output pin the index holds for an input pin.
    pub closed spec fn lookup(self, node: NodeId, pin: u16) -> Option<PinRef> {
        if self.windows@.contains_key(node) && pin < self.windows@[node].1 {
            self.slots@[self.windows@[node].0 + pin]
        } else {
            None
        }
    }

    /// Whether a graph's edges can be indexed.
    pub fn fits(graph: &Graph) -> (r: bool)
        ensures
            r == indexable(graph.edges@),
    {
        EdgeIndex::ages_compare(&graph.edges) && EdgeIndex::extent_fits(&graph.edges)
    }

    fn ages_compare(edges: &Vec<Edge>) -> (r: bool)
        ensures
            r == forall|i: int, j: int|
                0 <= i < edges@.len() && 0 <= j < edges@.len() && (
                #[trigger] edges@[i]).to.node.slot() == (#[trigger] edges@[j]).to.node.slot()
                    ==> edges@[i].to.node.version() - edges@[j].to.node.version() < 0x8000_0000,
    {
        let mut a: usize = 0;
        while a < edges.len()
            invariant
                a <= edges@.len(),
                forall|i: int, j: int|
                    0 <= i < a && 0 <= j < edges@.len() && (
                    #[trigger] edges@[i]).to.node.slot() == (
                    #[trigger] edges@[j]).to.node.slot() ==> edges@[i].to.node.version()
                        - edges@[j].to.node.version() < 0x8000_0000,
            decreases edges@.len() - a,
        {
            let x: u64 = edges[a].to.node.to_code();
            let mut b: usize = 0;
            while b < edges.len()
                invariant
                    a < edges@.len(),
                    b <= edges@.len(),
                    x == edges@[a as int].to.node.code(),
                    forall|j: int|
                        0 <= j < b && edges@[a as int].to.node.slot() == (
                        #[trigger] edges@[j]).to.node.slot() ==> edges@[a as int].to.node.version()
                            - edges@[j].to.node.version() < 0x8000_0000,
                decreases edges@.len() - b,
            {
                let y: u64 = edges[b].to.node.to_code();
                if x % 0x1_0000_0000 == y % 0x1_0000_0000 {
                    if x / 0x1_0000_0000 >= y / 0x1_0000_0000 + 0x8000_0000 {
                        assert(edges@[a as int].to.node.slot() == edges@[b as int].to.node.slot());
                        return false;
                    }
                }
                b = b + 1;
            }
            a = a + 1;
        }
        true
    }

    fn reaches(edges: &Vec<Edge>, node: NodeId, k: usize) -> (r: bool)
        requires
            k <= edges@.len(),
        ensures
            r == reached(edges@, node, k as int),
    {
        let mut i: usize = 0;
        while i < k
            invariant
                i <= k <= edges@.len(),
                forall|j: int| 0 <= j < i ==> (#[trigger] edges@[j]).to.node != node,
            decreases k - i,
        {
            if edges[i].to.node == node {
                return true;
            }
            i = i + 1;
        }
        false
    }

    fn is_superseded(edges: &Vec<Edge>, node: NodeId) -> (r: bool)
        ensures
            r == superseded(edges@, node),
    {
        let x: u64 = node.to_code();
        let mut i: usize = 0;
        while i < edges.len()
            invariant
                i <= edges@.len(),
                x == node.code(),
                forall|j: int|
                    0 <= j < i ==> !((#[trigger] edges@[j]).to.node.slot() == node.slot()
                        && edges@[j].to.node.version() > node.version()),
            decreases edges@.len() - i,
        {
            let y: u64 = edges[i].to.node.to_code();
            if x % 0x1_0000_0000 == y % 0x1_0000_0000 && y / 0x1_0000_0000 > x / 0x1_0000_0000 {
                assert(edges@[i as int].to.node.slot() == node.slot());
                return true;
            }
            i = i + 1;
        }
        false
    }

    fn width_of(edges: &Vec<Edge>, node: NodeId) -> (r: u64)
        ensures
            r == width(edges@, node, edges@.len() as int),
            r <= 0x1_0000,
    {
        let mut w: u64 = 0;
        let mut i: usize = 0;
        while i < edges.len()
            invariant
                i <= edges@.len(),
                w == width(edges@, node, i as int),
                w <= 0x1_0000,
            decreases edges@.len() - i,
        {
            let e = edges[i];
            if e.to.node == node && e.to.pin as u64 + 1 > w {
                w = e.to.pin as u64 + 1;
            }
            i = i + 1;
        }
        w
    }

    fn extent_fits(edges: &Vec<Edge>) -> (r: bool)
        ensures
            r == (extent(edges@, edges@.len() as int) <= 0xffff_ffff),
    {
        let mut total: u64 = 0;
        let mut k: usize = 0;
        while k < edges.len()
            invariant
                k <= edges@.len(),
                total == extent(edges@, k as int),
                total <= 0xffff_ffff,
            decreases edges@.len() - k,
        {
            let node = edges[k].to.node;
            if !EdgeIndex::reaches(edges, node, k) && !EdgeIndex::is_superseded(edges, node) {
                total = total + EdgeIndex::width_of(edges, node);
            }
            if total > 0xffff_ffff {
                proof {
                    lemma_extent_monotone(edges@, k + 1, edges@.len() as int);
                }
                return false;
            }
            k = k + 1;
        }
        true
    }

    /// Index a graph's edges by their destination pin.
    pub fn build(graph: &Graph) -> (r: EdgeIndex)
        requires
            indexable(graph.edges@),
        ensures
            forall|node: NodeId, pin: u16| #[trigger]
                r.lookup(node, pin) == indexed_source(graph.edges@, node, pin),
    {
        let windows = EdgeIndex::measure(&graph.edges);
        let (windows, next) = EdgeIndex::place(&graph.edges, windows);
        EdgeIndex::fill(&graph.edges, windows, next)
    }

    /// The output pin feeding an input pin, or `None` if it is unconnected.
    pub fn source(&self, node: NodeId, pin: u16) -> (r: Option<PinRef>)
        ensures
            r == self.lookup(node, pin),
    {
        proof {
            use_type_invariant(self);
        }
        match self.windows.get(node) {
            Some((start, len)) => {
                if pin as u32 >= len {
                    return None;
                }
                self.slots[(start + pin as u32) as usize]
            },
            None => None,
        }
    }

    fn measure(edges: &Vec<Edge>) -> (r: WindowMap)
        requires
            indexable(edges@),
        ensures
            newest_held(edges@, edges@.len() as int, r@),
            measured(edges@, edges@.len() as int, r@),
            placed(edges@, 0, r@, 0),
    {
        let mut windows = WindowMap::new();
        let mut k: usize = 0;
        while k < edges.len()
            invariant
                indexable(edges@),
                k <= edges@.len(),
                newest_held(edges@, k as int, windows@),
                measured(edges@, k as int, windows@),
                forall|h: NodeId| #[trigger]
                    windows@.contains_key(h) ==> windows@[h].0 == 0xffff_ffff,
            decreases edges@.len() - k,
        {
            let e = edges[k];
            let needed: u32 = e.to.pin as u32 + 1;
            let ghost before = windows@;
            let len: u32 = match windows.get(e.to.node) {
                Some((_, len)) => if len < needed {
                    needed
                } else {
                    len
                },
                None => needed,
            };
            windows.insert(e.to.node, (0xffff_ffff, len));
            proof {
                lemma_newest_step(edges@, k as int, before, (0xffff_ffff, len));
                lemma_width(edges@, e.to.node, k as int);
                assert forall|h: NodeId| #[trigger]
                    windows@.contains_key(h) implies windows@[h].1 == width(
                    edges@,
                    h,
                    k + 1,
                ) && windows@[h].0 == 0xffff_ffff by {
                    if h != e.to.node {
                        assert(before.contains_key(h));
                    }
                }
            }
            k = k + 1;
        }
        windows
    }

    fn place(edges: &Vec<Edge>, unplaced: WindowMap) -> (r: (WindowMap, u32))
        requires
            indexable(edges@),
            newest_held(edges@, edges@.len() as int, unplaced@),
            measured(edges@, edges@.len() as int, unplaced@),
            placed(edges@, 0, unplaced@, 0),
        ensures
            newest_held(edges@, edges@.len() as int, r.0@),
            measured(edges@, edges@.len() as int, r.0@),
            placed(edges@, edges@.len() as int, r.0@, r.1 as int),
    {
        let mut windows = unplaced;
        let mut next: u32 = 0;
        let mut k: usize = 0;
        while k < edges.len()
            invariant
                indexable(edges@),
                k <= edges@.len(),
                newest_held(edges@, edges@.len() as int, windows@),
                measured(edges@, edges@.len() as int, windows@),
                placed(edges@, k as int, windows@, next as int),
                next == extent(edges@, k as int),
            decreases edges@.len() - k,
        {
            let node = edges[k].to.node;
            let ghost before = windows@;
            proof {
                lemma_held_iff(edges@, windows@, node);
                lemma_width(edges@, node, edges@.len() as int);
                lemma_extent_monotone(edges@, k + 1, edges@.len() as int);
                assert(edges@[k as int].to.node == node);
                assert(reached(edges@, node, edges@.len() as int));
            }
            if let Some((start, len)) = windows.get(node) {
                if start == 0xffff_ffff {
                    proof {
                        if reached(edges@, node, k as int) {
                            assert(before[node].0 + before[node].1 <= next);
                        }
                    }
                    windows.insert(node, (next, len));
                    next = next + len;
                }
            }
            proof {
                assert forall|h: NodeId| reached(edges@, h, k + 1) == (reached(edges@, h, k as int)
                    || h == node) by {
                    if reached(edges@, h, k + 1) {
                        let i = choose|i: int|
                            0 <= i < k + 1 && (#[trigger] edges@[i]).to.node == h;
                        if i < k {
                            assert(reached(edges@, h, k as int));
                        }
                    }
                    if reached(edges@, h, k as int) {
                        let i = choose|i: int| 0 <= i < k && (#[trigger] edges@[i]).to.node == h;
                        assert(0 <= i < k + 1 && edges@[i].to.node == h);
                    }
                    if h == node {
                        assert(edges@[k as int].to.node == h);
                    }
                }
                assert(windows@.dom() =~= before.dom());
                assert(forall|h: NodeId| windows@.contains_key(h) == before.contains_key(h));
                assert(newest_held(edges@, edges@.len() as int, windows@)) by {
                    assert forall|j: int| 0 <= j < edges@.len() implies exists|h: NodeId| #[trigger]
                        windows@.contains_key(h) && h.slot() == (
                        #[trigger] edges@[j]).to.node.slot() && h.version()
                            >= edges@[j].to.node.version() by {
                        let h = choose|h: NodeId| #[trigger]
                            before.contains_key(h) && h.slot() == edges@[j].to.node.slot()
                                && h.version() >= edges@[j].to.node.version();
                        assert(windows@.contains_key(h));
                    }
                }
            }
            k = k + 1;
        }
        (windows, next)
    }

    fn fill(edges: &Vec<Edge>, windows: WindowMap, next: u32) -> (r: EdgeIndex)
        requires
            newest_held(edges@, edges@.len() as int, windows@),
            measured(edges@, edges@.len() as int, windows@),
            placed(edges@, edges@.len() as int, windows@, next as int),
        ensures
            forall|node: NodeId, pin: u16| #[trigger]
                r.lookup(node, pin) == indexed_source(edges@, node, pin),
    {
        let mut slots: Vec<Option<PinRef>> = Vec::new();
        let mut i: u32 = 0;
        while i < next
            invariant
                i <= next,
                slots@.len() == i,
                forall|j: int| 0 <= j < i ==> #[trigger] slots@[j] is None,
            decreases next - i,
        {
            slots.push(None);
            i = i + 1;
        }
        let mut k: usize = 0;
        while k < edges.len()
            invariant
                k <= edges@.len(),
                slots@.len() == next,
                newest_held(edges@, edges@.len() as int, windows@),
                measured(edges@, edges@.len() as int, windows@),
                placed(edges@, edges@.len() as int, windows@, next as int),
                filled(edges@, k as int, windows@, slots@),
            decreases edges@.len() - k,
        {
            let e = edges[k];
            let ghost before = slots@;
            if let Some((start, len)) = windows.get(e.to.node) {
                proof {
                    lemma_width(edges@, e.to.node, edges@.len() as int);
                    assert(edges@[k as int].to.node == e.to.node);
                }
                slots[(start + e.to.pin as u32) as usize] = Some(e.from);
            }
            proof {
                assert forall|h: NodeId, p: u16|
                    windows@.contains_key(h) && p < windows@[h].1 implies slots@[windows@[h].0 + p]
                    == #[trigger] last_source(edges@, h, p, k + 1) by {
                    assert(before[windows@[h].0 + p] == last_source(edges@, h, p, k as int));
                    assert(reached(edges@, h, edges@.len() as int));
                    if windows@.contains_key(e.to.node) {
                        assert(reached(edges@, e.to.node, edges@.len() as int));
                        assert(windows@.contains_key(h) && windows@.contains_key(e.to.node));
                    }
                }
            }
            k = k + 1;
        }
        proof {
            assert forall|h: NodeId| #[trigger] windows@.contains_key(h) implies windows@[h].0
                + windows@[h].1 <= slots@.len() <= 0xffff_ffff by {
                assert(reached(edges@, h, edges@.len() as int));
            }
        }
        let r = EdgeIndex { windows, slots };
        proof {
            assert forall|node: NodeId, pin: u16| #[trigger]
                r.lookup(node, pin) == indexed_source(edges@, node, pin) by {
                lemma_held_iff(edges@, windows@, node);
                let all = edges@.len() as int;
                lemma_width(edges@, node, all);
                if windows@.contains_key(node) {
                    if pin >= windows@[node].1 {
                        lemma_past_width(edges@, node, pin, all);
                    } else {
                        assert(slots@[windows@[node].0 + pin] == last_source(
                            edges@,
                            node,
                            pin,
                            all,
                        ));
                    }
                } else if !superseded(edges@, node) {
                    lemma_past_width(edges@, node, pin, all);
                }
            }
        }
        r
    }
}

/// What an index finds is the start of an edge into the pin.
pub proof fn lemma_source_edge(edges: Seq<Edge>, node: NodeId, pin: u16) -> (i: int)
    requires
        indexed_source(edges, node, pin) is Some,
    ensures
        0 <= i < edges.len(),
        edges[i] == (Edge { from: indexed_source(edges, node, pin)->0, to: PinRef { node, pin } }),
{
    lemma_last_source_edge(edges, node, pin, edges.len() as int)
}

proof fn lemma_last_source_edge(edges: Seq<Edge>, node: NodeId, pin: u16, k: int) -> (i: int)
    requires
        0 <= k <= edges.len(),
        last_source(edges, node, pin, k) is Some,
    ensures
        0 <= i < edges.len(),
        edges[i] == (Edge { from: last_source(edges, node, pin, k)->0, to: PinRef { node, pin } }),
    decreases k,
{
    if edges[k - 1].to.node == node && edges[k - 1].to.pin == pin {
        k - 1
    } else {
        lemma_last_source_edge(edges, node, pin, k - 1)
    }
}

/// The source of the first edge into an input pin, as a scan finds it.
pub open spec fn scanned_source(edges: Seq<Edge>, node: NodeId, pin: u16) -> Option<PinRef>
    decreases edges.len(),
{
    if edges.len() == 0 {
        None
    } else if edges[0].to.node == node && edges[0].to.pin == pin {
        Some(edges[0].from)
    } else {
        scanned_source(edges.drop_first(), node, pin)
    }
}

proof fn lemma_scan_finds_the_only_edge(edges: Seq<Edge>, node: NodeId, pin: u16)
    requires
        forall|i: int, j: int|
            0 <= i < j < edges.len() ==> (#[trigger] edges[i]).to != (#[trigger] edges[j]).to,
    ensures
        scanned_source(edges, node, pin) == last_source(edges, node, pin, edges.len() as int),
    decreases edges.len(),
{
    if edges.len() > 0 {
        let rest = edges.drop_first();
        let n = edges.len() as int;
        assert forall|i: int, j: int| 0 <= i < j < rest.len() implies (#[trigger] rest[i]).to != (
        #[trigger] rest[j]).to by {
            assert(edges[i + 1].to != edges[j + 1].to);
        }
        lemma_scan_finds_the_only_edge(rest, node, pin);
        lemma_last_source_shift(edges, node, pin, n);
        let first = edges[0];
        if first.to.node == node && first.to.pin == pin {
            assert forall|i: int| 0 <= i < rest.len() implies (#[trigger] rest[i]).to != first.to by {
                assert(edges[0].to != edges[i + 1].to);
            }
            lemma_no_source(rest, node, pin, rest.len() as int);
        }
    }
}

proof fn lemma_no_source(edges: Seq<Edge>, node: NodeId, pin: u16, k: int)
    requires
        0 <= k <= edges.len(),
        forall|i: int|
            0 <= i < edges.len() ==> (#[trigger] edges[i]).to != (PinRef { node, pin }),
    ensures
        last_source(edges, node, pin, k) is None,
    decreases k,
{
    if k > 0 {
        lemma_no_source(edges, node, pin, k - 1);
        assert(edges[k - 1].to != (PinRef { node, pin }));
    }
}

proof fn lemma_last_source_shift(edges: Seq<Edge>, node: NodeId, pin: u16, k: int)
    requires
        1 <= k <= edges.len(),
    ensures
        last_source(edges, node, pin, k) == (match last_source(
            edges.drop_first(),
            node,
            pin,
            k - 1,
        ) {
            Some(from) => Some(from),
            None => if edges[0].to.node == node && edges[0].to.pin == pin {
                Some(edges[0].from)
            } else {
                None
            },
        }),
    decreases k,
{
    if k > 1 {
        lemma_last_source_shift(edges, node, pin, k - 1);
        assert(edges.drop_first()[k - 2] == edges[k - 1]);
    } else {
        assert(last_source(edges, node, pin, 0) is None);
    }
}

/// On a graph with sound edges the index is the scan it replaces, for every node
/// and every pin, and no edge is stale.
pub proof fn index_agrees_with_scan(
    kind: GraphKind,
    nodes: Map<NodeId, Node>,
    edges: Seq<Edge>,
    keys: Seq<NodeId>,
    node: NodeId,
    pin: u16,
)
    requires
        is_key_order(nodes, keys),
        sound_edges(kind, nodes, edges),
    ensures
        indexed_source(edges, node, pin) == scanned_source(edges, node, pin),
        extent(edges, edges.len() as int) <= 0xffff_ffff ==> indexable(edges),
{
    assert forall|i: int| 0 <= i < edges.len() implies nodes.contains_key(
        (#[trigger] edges[i]).to.node,
    ) by {
        assert(edge_problem(kind, nodes, edges[i]) is None);
    }
    assert forall|a: NodeId, b: NodeId|
        nodes.contains_key(a) && nodes.contains_key(b) && #[trigger] a.slot()
            == #[trigger] b.slot() implies a == b by {
        assert(keys.contains(a) && keys.contains(b));
        let i = choose|i: int| 0 <= i < keys.len() && keys[i] == a;
        let j = choose|j: int| 0 <= j < keys.len() && keys[j] == b;
        if i < j {
            assert(keys[i].slot() < keys[j].slot());
        } else if j < i {
            assert(keys[j].slot() < keys[i].slot());
        }
    }
    lemma_scan_finds_the_only_edge(edges, node, pin);
    if superseded(edges, node) {
        let i = choose|i: int|
            0 <= i < edges.len() && (#[trigger] edges[i]).to.node.slot() == node.slot()
                && edges[i].to.node.version() > node.version();
        assert(!nodes.contains_key(node));
        assert forall|i: int| 0 <= i < edges.len() implies (#[trigger] edges[i]).to != (PinRef {
            node,
            pin,
        }) by {
            assert(nodes.contains_key(edges[i].to.node));
        }
        lemma_no_source(edges, node, pin, edges.len() as int);
    }
    assert forall|i: int, j: int|
        0 <= i < edges.len() && 0 <= j < edges.len() && (#[trigger] edges[i]).to.node.slot() == (
        #[trigger] edges[j]).to.node.slot() implies edges[i].to.node.version()
        - edges[j].to.node.version() < 0x8000_0000 by {
        assert(edges[i].to.node == edges[j].to.node);
    }
}

} // verus!
