//! Which limbs of a skeleton carry foliage.
use crate::scalar::Single;
use crate::skeleton::{
    budget_of, budgets_grow_with_age, sprouted, sprouts_extend, Habit, LimbNode, Shoot, MAX_NODES,
    NO_PARENT,
};
use crate::sort::lemma_insert_adds_one;
use vstd::prelude::*;

verus! {

impl Single {
    /// Position in the total order of all bit patterns: numbers as they compare,
    /// negative zero before zero, and what is not a number at the ends.
    pub open spec fn total_rank(self) -> int {
        if self.bits >= 0x8000_0000 {
            -self.magnitude() - 1
        } else {
            self.magnitude()
        }
    }

    fn total_rank_of(self) -> (r: i64)
        ensures
            r == self.total_rank(),
    {
        if self.bits >= 0x8000_0000 {
            -((self.bits - 0x8000_0000) as i64) - 1
        } else {
            self.bits as i64
        }
    }
}

/// Pairs of a node and its parent, one for each node but the root.
pub open spec fn paired(parents: Seq<u32>) -> Seq<(u32, u32)>
    decreases parents.len(),
{
    if parents.len() == 0 {
        Seq::empty()
    } else if parents.last() == NO_PARENT {
        paired(parents.drop_last())
    } else {
        paired(parents.drop_last()).push((parents.last(), (parents.len() - 1) as u32))
    }
}

/// The segments of a skeleton: each node but the root, with its parent first.
pub fn segments(parents: &Vec<u32>) -> (r: Vec<(u32, u32)>)
    requires
        parents@.len() <= 0xffff_ffff,
    ensures
        r@ == paired(parents@),
{
    let mut out: Vec<(u32, u32)> = Vec::new();
    let mut k: usize = 0;
    while k < parents.len()
        invariant
            k <= parents@.len(),
            parents@.len() <= 0xffff_ffff,
            out@ == paired(parents@.take(k as int)),
        decreases parents@.len() - k,
    {
        assert(parents@.take(k + 1).drop_last() =~= parents@.take(k as int));
        if parents[k] != NO_PARENT {
            out.push((parents[k], k as u32));
        }
        k = k + 1;
    }
    assert(parents@.take(k as int) =~= parents@);
    out
}

/// Whether any node of a list has this parent.
pub open spec fn has_child(parents: Seq<u32>, i: int) -> bool {
    exists|j: int| 0 <= j < parents.len() && #[trigger] parents[j] == i
}

/// How many of the first `k` nodes have no child.
pub open spec fn tips_among(parents: Seq<u32>, k: int) -> int
    decreases k,
{
    if k <= 0 {
        0
    } else {
        tips_among(parents, k - 1) + if has_child(parents, k - 1) {
            0int
        } else {
            1
        }
    }
}

/// How many nodes of a skeleton have no child, counted as at least one.
pub fn count_tips(parents: &Vec<u32>) -> (r: usize)
    requires
        parents@.len() < 0xffff_ffff,
    ensures
        r == if tips_among(parents@, parents@.len() as int) >= 1 {
            tips_among(parents@, parents@.len() as int)
        } else {
            1
        },
{
    let n: usize = parents.len();
    let mut tips: usize = 0;
    let mut i: usize = 0;
    while i < n
        invariant
            i <= n,
            n == parents@.len(),
            n < 0xffff_ffff,
            tips <= i,
            tips == tips_among(parents@, i as int),
        decreases n - i,
    {
        let mut found: bool = false;
        let mut j: usize = 0;
        while j < n
            invariant
                j <= n,
                i < n,
                n == parents@.len(),
                n < 0xffff_ffff,
                found == exists|q: int| 0 <= q < j && #[trigger] parents@[q] == i,
            decreases n - j,
        {
            if parents[j] == i as u32 {
                assert(parents@[j as int] == i);
                found = true;
            }
            j = j + 1;
        }
        if !found {
            tips = tips + 1;
        }
        i = i + 1;
    }
    if tips >= 1 {
        tips
    } else {
        1
    }
}

/// A limb: the radius that supplies it, and the node its foliage hangs from.
#[derive(Clone, Copy, PartialEq, Eq, Structural, Debug)]
pub struct Limb {
    /// Radius of its first node.
    pub supply: Single,
    /// Its last node.
    pub terminal: u32,
}

/// The radius at the start of a limb, among the first `k` nodes; zero if it does
/// not start there.
pub open spec fn supply_of(nodes: Seq<LimbNode>, radii: Seq<Single>, limb: int, k: int) -> Single
    decreases k,
{
    if k <= 0 {
        Single { bits: 0 }
    } else if nodes[k - 1].chain == limb && nodes[k - 1].chain_idx == 0 {
        radii[k - 1]
    } else {
        supply_of(nodes, radii, limb, k - 1)
    }
}

/// The furthest place on a limb among the first `k` nodes, and the last node there.
pub open spec fn terminal_of(nodes: Seq<LimbNode>, limb: int, k: int) -> (u32, u32)
    decreases k,
{
    if k <= 0 {
        (0, 0)
    } else {
        let before = terminal_of(nodes, limb, k - 1);
        if nodes[k - 1].chain == limb && nodes[k - 1].chain_idx >= before.0 {
            (nodes[k - 1].chain_idx, (k - 1) as u32)
        } else {
            before
        }
    }
}

/// The limbs of a skeleton.
pub fn find_limbs(nodes: &Vec<LimbNode>, radii: &Vec<Single>, chains: u32) -> (r: Vec<Limb>)
    requires
        nodes@.len() == radii@.len(),
        nodes@.len() <= 0xffff_ffff,
    ensures
        r@.len() == chains,
        forall|c: int|
            0 <= c < chains ==> (#[trigger] r@[c]) == (Limb {
                supply: supply_of(nodes@, radii@, c, nodes@.len() as int),
                terminal: terminal_of(nodes@, c, nodes@.len() as int).1,
            }),
{
    let mut out: Vec<Limb> = Vec::new();
    let mut c: u32 = 0;
    while c < chains
        invariant
            c <= chains,
            nodes@.len() == radii@.len(),
            nodes@.len() <= 0xffff_ffff,
            out@.len() == c,
            forall|q: int|
                0 <= q < c ==> (#[trigger] out@[q]) == (Limb {
                    supply: supply_of(nodes@, radii@, q, nodes@.len() as int),
                    terminal: terminal_of(nodes@, q, nodes@.len() as int).1,
                }),
        decreases chains - c,
    {
        let mut supply = Single { bits: 0 };
        let mut furthest: u32 = 0;
        let mut terminal: u32 = 0;
        let mut k: usize = 0;
        while k < nodes.len()
            invariant
                k <= nodes@.len(),
                nodes@.len() == radii@.len(),
                nodes@.len() <= 0xffff_ffff,
                supply == supply_of(nodes@, radii@, c as int, k as int),
                (furthest, terminal) == terminal_of(nodes@, c as int, k as int),
            decreases nodes@.len() - k,
        {
            let node = nodes[k];
            if node.chain == c {
                if node.chain_idx == 0 {
                    supply = radii[k];
                }
                if node.chain_idx >= furthest {
                    furthest = node.chain_idx;
                    terminal = k as u32;
                }
            }
            k = k + 1;
        }
        out.push(Limb { supply, terminal });
        c = c + 1;
    }
    out
}

/// Whether a limb comes before another: the larger supply first, then the lower
/// node.
pub open spec fn limb_before(a: Limb, b: Limb) -> bool {
    a.supply.total_rank() > b.supply.total_rank() || (a.supply.total_rank()
        == b.supply.total_rank() && a.terminal < b.terminal)
}

/// Whether limbs come largest first.
pub open spec fn largest_first(s: Seq<Limb>) -> bool {
    forall|i: int, j: int|
        0 <= i < j < s.len() ==> !limb_before(#[trigger] s[j], #[trigger] s[i])
}

/// Order limbs largest first. Equal supplies are common, so the node decides
/// between them.
pub fn order_limbs(limbs: &Vec<Limb>) -> (r: Vec<Limb>)
    ensures
        largest_first(r@),
        r@.to_multiset() == limbs@.to_multiset(),
{
    let mut out: Vec<Limb> = Vec::new();
    let mut k: usize = 0;
    assert(limbs@.take(0) =~= out@);
    while k < limbs.len()
        invariant
            k <= limbs@.len(),
            largest_first(out@),
            out@.to_multiset() == limbs@.take(k as int).to_multiset(),
        decreases limbs@.len() - k,
    {
        let limb = limbs[k];
        let mut at: usize = out.len();
        while at > 0 && precedes(&limb, &out[at - 1])
            invariant
                at <= out@.len(),
                largest_first(out@),
                forall|j: int| at <= j < out@.len() ==> limb_before(limb, #[trigger] out@[j]),
            decreases at,
        {
            at = at - 1;
        }
        let ghost before = out@;
        out.insert(at, limb);
        proof {
            assert(out@ =~= before.insert(at as int, limb));
            lemma_insert_adds_one(before, at as int, limb);
            assert(limbs@.take(k + 1) =~= limbs@.take(k as int).push(limb));
            vstd::seq_lib::to_multiset_build(limbs@.take(k as int), limb);
            assert forall|i: int, j: int| 0 <= i < j < out@.len() implies !limb_before(
                #[trigger] out@[j],
                #[trigger] out@[i],
            ) by {
                let a = if i < at { i } else { i - 1 };
                let b = if j < at { j } else { j - 1 };
                if i != at {
                    assert(out@[i] == before[a]);
                }
                if j != at {
                    assert(out@[j] == before[b]);
                }
                if i != at && j != at {
                    assert(!limb_before(before[b], before[a]));
                } else if j == at {
                    assert(!limb_before(limb, before[at - 1]));
                    if i < at - 1 {
                        assert(!limb_before(before[at - 1], before[i]));
                    }
                } else {
                    assert(limb_before(limb, before[b]));
                }
            }
        }
        k = k + 1;
    }
    assert(limbs@.take(k as int) =~= limbs@);
    out
}

fn precedes(a: &Limb, b: &Limb) -> (r: bool)
    ensures
        r == limb_before(*a, *b),
{
    let x: i64 = a.supply.total_rank_of();
    let y: i64 = b.supply.total_rank_of();
    x > y || (x == y && a.terminal < b.terminal)
}

/// The size of a lobe of foliage, and the node it hangs from.
#[derive(Clone, Copy, PartialEq, Eq, Structural, Debug)]
pub struct LobeSize {
    /// Mean radius.
    pub radius: Single,
    /// The node.
    pub anchor: u32,
}

/// Whether a lobe is dropped before another: the smaller first, then the one on the
/// higher node.
pub open spec fn dropped_before(a: LobeSize, b: LobeSize) -> bool {
    a.radius.total_rank() < b.radius.total_rank() || (a.radius.total_rank()
        == b.radius.total_rank() && a.anchor > b.anchor)
}

/// Position of the lobe to drop first, the first of several, among the first `k`.
pub open spec fn first_to_drop(s: Seq<LobeSize>, k: int) -> int
    decreases k,
{
    if k <= 1 {
        0
    } else {
        let before = first_to_drop(s, k - 1);
        if dropped_before(s[k - 1], s[before]) {
            k - 1
        } else {
            before
        }
    }
}

/// Lobes without the smallest, until there are no more than allowed.
pub open spec fn trimmed(s: Seq<LobeSize>, most: int) -> Seq<LobeSize>
    decreases s.len(),
{
    if s.len() <= most || s.len() == 0 {
        s
    } else {
        let at = first_to_drop(s, s.len() as int);
        if 0 <= at < s.len() {
            trimmed(s.remove(at), most)
        } else {
            s
        }
    }
}

proof fn lemma_drop_position(s: Seq<LobeSize>, k: int)
    requires
        1 <= k <= s.len(),
    ensures
        0 <= first_to_drop(s, k) < k,
        forall|i: int| 0 <= i < k ==> !dropped_before(#[trigger] s[i], s[first_to_drop(s, k)]),
    decreases k,
{
    if k > 1 {
        lemma_drop_position(s, k - 1);
    }
}

/// Drop the smallest lobes until there are no more than allowed.
pub fn trim_lobes(lobes: Vec<LobeSize>, most: u8) -> (r: Vec<LobeSize>)
    ensures
        r@ == trimmed(lobes@, most as int),
        r@.len() <= lobes@.len(),
        r@.len() <= most,
{
    let mut out = lobes;
    while out.len() > most as usize
        invariant
            trimmed(out@, most as int) == trimmed(lobes@, most as int),
            out@.len() <= lobes@.len(),
        decreases out@.len(),
    {
        let mut at: usize = 0;
        let mut k: usize = 1;
        while k < out.len()
            invariant
                1 <= k <= out@.len(),
                at == first_to_drop(out@, k as int),
                at < k,
            decreases out@.len() - k,
        {
            let a: i64 = out[k].radius.total_rank_of();
            let b: i64 = out[at].radius.total_rank_of();
            if a < b || (a == b && out[k].anchor > out[at].anchor) {
                at = k;
            }
            k = k + 1;
        }
        let _ = out.remove(at);
    }
    out
}

/// A lobe that is dropped is no larger than any that is kept.
pub proof fn dropped_lobes_are_smallest(s: Seq<LobeSize>, i: int)
    requires
        0 <= i < s.len(),
    ensures
        ({
            let at = first_to_drop(s, s.len() as int);
            0 <= at < s.len() && s[at].radius.total_rank() <= s[i].radius.total_rank()
        }),
{
    lemma_drop_position(s, s.len() as int);
    assert(!dropped_before(s[i], s[first_to_drop(s, s.len() as int)]));
}

/// The parents of the nodes that one round of crown growth adds: every pulled node
/// grows one child, in order, within the budget.
pub open spec fn round_parents(pulled: Seq<bool>, room: int) -> Seq<u32>
    decreases pulled.len(),
{
    if pulled.len() == 0 {
        Seq::empty()
    } else {
        let before = round_parents(pulled.drop_last(), room);
        if pulled.last() && before.len() < room {
            before.push((pulled.len() - 1) as u32)
        } else {
            before
        }
    }
}

/// The parents of the nodes that one round of crown growth adds.
pub fn grow_crown(pulled: &Vec<bool>, budget: usize) -> (r: Vec<u32>)
    requires
        pulled@.len() <= budget,
        budget <= 0xffff_ffff,
    ensures
        r@ == round_parents(pulled@, budget - pulled@.len()),
        pulled@.len() + r@.len() <= budget,
{
    let room: usize = budget - pulled.len();
    let mut out: Vec<u32> = Vec::new();
    let mut k: usize = 0;
    while k < pulled.len()
        invariant
            k <= pulled@.len(),
            pulled@.len() <= budget,
            budget <= 0xffff_ffff,
            room == budget - pulled@.len(),
            out@.len() <= room,
            out@ == round_parents(pulled@.take(k as int), room as int),
        decreases pulled@.len() - k,
    {
        assert(pulled@.take(k + 1).drop_last() =~= pulled@.take(k as int));
        if pulled[k] && out.len() < room {
            out.push(k as u32);
        }
        k = k + 1;
    }
    assert(pulled@.take(k as int) =~= pulled@);
    out
}

proof fn lemma_room(pulled: Seq<bool>, room: int)
    ensures
        room >= 0 ==> round_parents(pulled, room).len() <= room,
        room <= 0 ==> round_parents(pulled, room).len() == 0,
    decreases pulled.len(),
{
    if pulled.len() > 0 {
        lemma_room(pulled.drop_last(), room);
    }
}

/// More room adds to a round behind what it adds anyway: with less room a round adds
/// the first of the same nodes, and the same ones where the room is not spent.
pub proof fn more_room_adds_behind(pulled: Seq<bool>, less: int, more: int)
    requires
        less <= more,
    ensures
        round_parents(pulled, less).is_prefix_of(round_parents(pulled, more)),
        round_parents(pulled, less).len() < less ==> round_parents(pulled, less)
            == round_parents(pulled, more),
    decreases pulled.len(),
{
    if pulled.len() > 0 {
        more_room_adds_behind(pulled.drop_last(), less, more);
        lemma_room(pulled.drop_last(), less);
        let a = round_parents(pulled.drop_last(), less);
        let b = round_parents(pulled.drop_last(), more);
        assert(round_parents(pulled, less).is_prefix_of(round_parents(pulled, more))) by {
            assert(a == b.take(a.len() as int));
        }
    }
}

/// How many rounds a crown grows at most.
pub const CROWN_ROUNDS: usize = 64;

/// Whether crown growth goes on: rounds are left, the budget is not spent, and
/// something still attracts growth.
pub open spec fn crown_grows(round: int, nodes: int, budget: int, attractors: int) -> bool {
    round < CROWN_ROUNDS && nodes < budget && attractors > 0
}

/// Whether crown growth goes on after `round` rounds.
pub fn crown_goes_on(round: usize, nodes: usize, budget: usize, attractors: usize) -> (r: bool)
    ensures
        r == crown_grows(round as int, nodes as int, budget as int, attractors as int),
        r == (round < 64 && nodes < budget && attractors > 0),
{
    round < CROWN_ROUNDS && nodes < budget && attractors > 0
}

/// A node of a tree: what it grew from, and where it stands.
pub struct TreeNode<P> {
    /// The node it grew from.
    pub parent: u32,
    /// Its place.
    pub place: P,
}

/// What a round of crown growth goes by: how much still attracts growth, and for each
/// node where the child it grows stands, if it is pulled.
pub struct Pull<P> {
    /// How many attractors are left.
    pub attractors: int,
    /// The place of each node's child.
    pub children: Seq<Option<P>>,
}

/// The nodes of branches, where `place` says where a shoot stands, given the nodes
/// before it.
pub open spec fn planted<P>(
    shoots: Seq<Shoot>,
    place: spec_fn(Seq<TreeNode<P>>, Shoot) -> P,
) -> Seq<TreeNode<P>>
    decreases shoots.len(),
{
    if shoots.len() == 0 {
        Seq::empty()
    } else {
        let before = planted(shoots.drop_last(), place);
        before.push(TreeNode { parent: shoots.last().parent, place: place(before, shoots.last()) })
    }
}

/// The nodes that one round of crown growth adds.
pub open spec fn round_nodes<P>(children: Seq<Option<P>>, room: int) -> Seq<TreeNode<P>> {
    round_parents(children.map_values(|c: Option<P>| c is Some), room).map_values(
        |i: u32| TreeNode { parent: i, place: children[i as int]->0 },
    )
}

/// The nodes of a tree after rounds of crown growth, where `pulls` says what a round
/// goes by, given the branches and all nodes so far.
pub open spec fn crown_of<P>(
    pulls: spec_fn(Seq<TreeNode<P>>, Seq<TreeNode<P>>) -> Pull<P>,
    branches: Seq<TreeNode<P>>,
    budget: int,
    rounds: nat,
) -> Seq<TreeNode<P>>
    decreases rounds,
{
    if rounds == 0 {
        branches
    } else {
        let nodes = crown_of(pulls, branches, budget, (rounds - 1) as nat);
        let pull = pulls(branches, nodes);
        if crown_grows(rounds - 1, nodes.len() as int, budget, pull.attractors) {
            nodes + round_nodes(pull.children, budget - nodes.len())
        } else {
            nodes
        }
    }
}

/// The nodes of a tree within a budget: those of its branches, then those of its crown.
pub open spec fn tree_nodes<P>(
    h: Habit,
    place: spec_fn(Seq<TreeNode<P>>, Shoot) -> P,
    pulls: spec_fn(Seq<TreeNode<P>>, Seq<TreeNode<P>>) -> Pull<P>,
    budget: int,
) -> Seq<TreeNode<P>> {
    crown_of(pulls, planted(sprouted(h, budget), place), budget, CROWN_ROUNDS as nat)
}

proof fn lemma_planted<P>(
    shoots: Seq<Shoot>,
    n: int,
    place: spec_fn(Seq<TreeNode<P>>, Shoot) -> P,
)
    requires
        0 <= n <= shoots.len(),
    ensures
        planted(shoots, place).len() == shoots.len(),
        planted(shoots, place).take(n) == planted(shoots.take(n), place),
    decreases shoots.len(),
{
    if n < shoots.len() {
        lemma_planted(shoots.drop_last(), n, place);
        assert(shoots.drop_last().take(n) =~= shoots.take(n));
        assert(planted(shoots, place).take(n) =~= planted(shoots.drop_last(), place).take(n));
    } else {
        if shoots.len() > 0 {
            lemma_planted(shoots.drop_last(), n - 1, place);
        }
        assert(shoots.take(n) =~= shoots);
        assert(planted(shoots, place).take(n) =~= planted(shoots, place));
    }
}

proof fn lemma_crown_full<P>(
    pulls: spec_fn(Seq<TreeNode<P>>, Seq<TreeNode<P>>) -> Pull<P>,
    branches: Seq<TreeNode<P>>,
    budget: int,
    rounds: nat,
)
    requires
        branches.len() <= budget,
    ensures
        branches.len() <= crown_of(pulls, branches, budget, rounds).len() <= budget,
        branches.is_prefix_of(crown_of(pulls, branches, budget, rounds)),
        branches.len() == budget ==> crown_of(pulls, branches, budget, rounds) == branches,
    decreases rounds,
{
    if rounds > 0 {
        let n = (rounds - 1) as nat;
        lemma_crown_full(pulls, branches, budget, n);
        let nodes = crown_of(pulls, branches, budget, n);
        let flags = pulls(branches, nodes).children.map_values(|c: Option<P>| c is Some);
        lemma_room(flags, budget - nodes.len());
        let all = crown_of(pulls, branches, budget, rounds);
        assert(all.take(branches.len() as int) =~= nodes.take(branches.len() as int));
    } else {
        assert(branches =~= branches.take(branches.len() as int));
    }
}

proof fn lemma_crown_extends<P>(
    pulls: spec_fn(Seq<TreeNode<P>>, Seq<TreeNode<P>>) -> Pull<P>,
    branches: Seq<TreeNode<P>>,
    less: int,
    more: int,
    rounds: nat,
)
    requires
        branches.len() <= less <= more,
    ensures
        crown_of(pulls, branches, less, rounds).is_prefix_of(
            crown_of(pulls, branches, more, rounds),
        ),
        crown_of(pulls, branches, less, rounds).len() < less ==> crown_of(
            pulls,
            branches,
            less,
            rounds,
        ) == crown_of(pulls, branches, more, rounds),
    decreases rounds,
{
    if rounds > 0 {
        let n = (rounds - 1) as nat;
        lemma_crown_extends(pulls, branches, less, more, n);
        lemma_crown_full(pulls, branches, less, n);
        let a = crown_of(pulls, branches, less, n);
        let b = crown_of(pulls, branches, more, n);
        let a1 = crown_of(pulls, branches, less, rounds);
        let b1 = crown_of(pulls, branches, more, rounds);
        if a.len() == less {
            assert(a1 == a);
            assert(b1.take(a.len() as int) =~= b.take(a.len() as int));
        } else {
            let children = pulls(branches, a).children;
            let flags = children.map_values(|c: Option<P>| c is Some);
            let (ra, rb) = (
                round_parents(flags, less - a.len()),
                round_parents(flags, more - a.len()),
            );
            lemma_room(flags, less - a.len());
            more_room_adds_behind(flags, less - a.len(), more - a.len());
            let (na, nb) = (
                round_nodes(children, less - a.len()),
                round_nodes(children, more - a.len()),
            );
            assert(na =~= nb.take(na.len() as int));
            assert(b1.take(a1.len() as int) =~= a1);
        }
    } else {
        assert(branches =~= branches.take(branches.len() as int));
    }
}

/// A younger tree is the start of an older one, whatever says where nodes stand and
/// what pulls them: its nodes are the older tree's first, with the same parents and at
/// the same places.
pub proof fn younger_trees_start_older_ones<P>(
    h: Habit,
    place: spec_fn(Seq<TreeNode<P>>, Shoot) -> P,
    pulls: spec_fn(Seq<TreeNode<P>>, Seq<TreeNode<P>>) -> Pull<P>,
    young: Single,
    later: Single,
)
    requires
        later.at_least(young),
    ensures
        ({
            let y = tree_nodes(h, place, pulls, budget_of(young));
            let o = tree_nodes(h, place, pulls, budget_of(later));
            &&& 1 <= y.len() <= o.len() <= MAX_NODES
            &&& y.is_prefix_of(o)
        }),
{
    budgets_grow_with_age(young, later);
    let (less, more) = (budget_of(young), budget_of(later));
    let (a, b) = (sprouted(h, less), sprouted(h, more));
    let (pa, pb) = (planted(a, place), planted(b, place));
    let rounds = CROWN_ROUNDS as nat;
    sprouts_extend(h, less, more);
    lemma_planted(a, a.len() as int, place);
    lemma_planted(b, a.len() as int, place);
    assert(b.take(a.len() as int) =~= a);
    lemma_crown_full(pulls, pa, less, rounds);
    lemma_crown_full(pulls, pb, more, rounds);
    if a.len() < less {
        lemma_crown_extends(pulls, pa, less, more, rounds);
    } else {
        let whole = crown_of(pulls, pb, more, rounds);
        assert(whole.take(pa.len() as int) =~= pb.take(pa.len() as int));
    }
}

} // verus!
