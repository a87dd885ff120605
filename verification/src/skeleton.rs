//! The structure of tree skeletons: which node grows from which, how branches
//! divide into limbs, and which limbs carry foliage.
//!
//! A node's parent always comes before it. Growing a tree further adds nodes and
//! changes nothing about those that are there.
use crate::scalar::{two_to, Single};
use vstd::prelude::*;

verus! {

/// Most nodes that a skeleton has, reached at full age.
pub const MAX_NODES: usize = 512;

/// What marks the root in place of a parent.
pub const NO_PARENT: u32 = 0xffff_ffff;

/// How many nodes a tree has at an age: a share of the most it can have, rounded
/// up, and at least the root.
pub open spec fn budget_of(age: Single) -> int {
    if !age.positive() || age.bits < 0x80_0000 {
        1
    } else if age.bits >= 0x3f80_0000 {
        512
    } else {
        (Single { bits: (age.bits + 0x480_0000) as u32 }).ceiling()
    }
}

/// How many nodes a tree has at an age. Below one, adding nine to the exponent
/// multiplies by the most nodes a tree can have.
pub fn node_budget(age: Single) -> (r: usize)
    ensures
        r == budget_of(age),
        1 <= r <= MAX_NODES,
{
    proof {
        lemma_budget_bound(age);
    }
    if !age.is_positive() || age.bits < 0x80_0000 {
        return 1;
    }
    if age.bits >= 0x3f80_0000 {
        return 512;
    }
    (Single { bits: age.bits + 0x480_0000 }).ceil() as usize
}

proof fn lemma_places(j: nat, k: nat)
    requires
        j <= k,
    ensures
        1 <= two_to(j) <= two_to(k),
        j < k ==> 2 * two_to(j) <= two_to(k),
    decreases k,
{
    if j < k {
        lemma_places(j, (k - 1) as nat);
    } else if j > 0 {
        lemma_places((j - 1) as nat, (k - 1) as nat);
    }
}

/// The least whole number that, scaled by `unit`, is not below the digits.
proof fn lemma_filled_up(digits: int, unit: int, n: int)
    requires
        digits > 0,
        unit >= 1,
    ensures
        (digits + unit - 1) / unit * unit >= digits,
        (digits + unit - 1) / unit >= 1,
        n * unit >= digits ==> (digits + unit - 1) / unit <= n,
{
    let q = (digits + unit - 1) / unit;
    vstd::arithmetic::div_mod::lemma_fundamental_div_mod(digits + unit - 1, unit);
    vstd::arithmetic::div_mod::lemma_mod_bound(digits + unit - 1, unit);
    assert(q * unit == unit * q) by (nonlinear_arith);
    assert(q >= 1) by (nonlinear_arith)
        requires
            q * unit >= digits,
            digits > 0,
            unit >= 1,
    ;
    if n * unit >= digits && q > n {
        assert(q * unit >= n * unit + unit) by (nonlinear_arith)
            requires
                q >= n + 1,
                unit >= 1,
        ;
    }
}

/// An older tree has no smaller budget, and every tree has room for its root and no
/// more than the most nodes.
pub proof fn budgets_grow_with_age(young: Single, later: Single)
    requires
        later.at_least(young),
    ensures
        1 <= budget_of(young) <= budget_of(later) <= MAX_NODES,
{
    lemma_budget_bound(young);
    lemma_budget_bound(later);
    if young.positive() && 0x80_0000 <= young.bits && later.bits < 0x3f80_0000 {
        let a = Single { bits: (young.bits + 0x480_0000) as u32 };
        let b = Single { bits: (later.bits + 0x480_0000) as u32 };
        let (j, k) = ((-b.scale()) as nat, (-a.scale()) as nat);
        lemma_places(j, k);
        let n = b.ceiling();
        lemma_filled_up(b.significand(), two_to(j), n);
        if j < k {
            assert(n * two_to(k) >= 2 * (n * two_to(j))) by (nonlinear_arith)
                requires
                    n >= 1,
                    two_to(k) >= 2 * two_to(j),
            ;
        }
        lemma_filled_up(a.significand(), two_to(k), n);
    }
}

proof fn lemma_budget_bound(age: Single)
    ensures
        1 <= budget_of(age) <= MAX_NODES,
{
    if age.positive() && 0x80_0000 <= age.bits < 0x3f80_0000 {
        let a = Single { bits: (age.bits + 0x480_0000) as u32 };
        let k = (-a.scale()) as nat;
        assert(two_to(15) == 0x8000) by {
            reveal_with_fuel(two_to, 16);
        }
        lemma_places(15, k);
        assert(512 * two_to(k) >= 0x100_0000);
        lemma_filled_up(a.significand(), two_to(k), 512);
    }
}

/// How a species branches.
#[derive(Clone, Copy, PartialEq, Eq, Structural, Debug)]
pub struct Habit {
    /// Internodes an axis extends by.
    pub axis_steps: u8,
    /// Deepest branching order.
    pub max_order: u8,
    /// Laterals for each internode.
    pub laterals: u8,
}

/// A node of a growing skeleton: what it grew from, and as what.
#[derive(Clone, Copy, PartialEq, Eq, Structural, Debug)]
pub struct Shoot {
    /// The node it grew from.
    pub parent: u32,
    /// Branching order of its axis.
    pub order: u8,
    /// Internodes before it on its axis.
    pub step: u8,
    /// Its number among the laterals, if it starts an axis off another.
    pub lateral: Option<u8>,
}

/// The root of a skeleton.
pub open spec fn root_shoot() -> Shoot {
    Shoot { parent: NO_PARENT, order: 0, step: 0, lateral: None }
}

/// The first buds of a skeleton.
pub open spec fn first_buds() -> Seq<Shoot> {
    seq![Shoot { parent: 0, order: 0, step: 0, lateral: None }]
}

/// The first `k` laterals that a node starts.
pub open spec fn lateral_buds(index: u32, order: u8, k: int) -> Seq<Shoot> {
    Seq::new(
        k as nat,
        |i: int|
            Shoot { parent: index, order: (order + 1) as u8, step: 0, lateral: Some(i as u8) },
    )
}

/// The buds that a node starts: its axis goes on until its last internode, and
/// laterals branch off below the deepest order.
pub open spec fn buds_of(h: Habit, index: u32, s: Shoot) -> Seq<Shoot> {
    let onward = if s.step + 1 < h.axis_steps {
        seq![
            Shoot { parent: index, order: s.order, step: (s.step + 1) as u8, lateral: None },
        ]
    } else {
        Seq::empty()
    };
    let sideways = if s.order < h.max_order {
        lateral_buds(index, s.order, h.laterals as int)
    } else {
        Seq::empty()
    };
    onward + sideways
}

/// Nodes and waiting buds after `n` buds have grown, oldest first, as far as there
/// are any.
pub open spec fn grown_by(h: Habit, n: nat) -> (Seq<Shoot>, Seq<Shoot>)
    decreases n,
{
    if n == 0 {
        (seq![root_shoot()], first_buds())
    } else {
        let (nodes, buds) = grown_by(h, (n - 1) as nat);
        if buds.len() == 0 {
            (nodes, buds)
        } else {
            (
                nodes.push(buds[0]),
                buds.drop_first() + buds_of(h, nodes.len() as u32, buds[0]),
            )
        }
    }
}

/// The nodes of a skeleton within a budget.
pub open spec fn sprouted(h: Habit, budget: int) -> Seq<Shoot> {
    if budget <= 1 {
        seq![root_shoot()]
    } else {
        grown_by(h, (budget - 1) as nat).0
    }
}

proof fn lemma_grown_size(h: Habit, n: nat)
    ensures
        1 <= grown_by(h, n).0.len() <= n + 1,
        grown_by(h, n).1.len() > 0 ==> grown_by(h, n).0.len() == n + 1,
    decreases n,
{
    if n > 0 {
        lemma_grown_size(h, (n - 1) as nat);
    }
}

proof fn lemma_grown_out(h: Habit, n: nat, m: nat)
    requires
        n <= m,
        grown_by(h, n).1.len() == 0,
    ensures
        grown_by(h, m) == grown_by(h, n),
    decreases m,
{
    if n < m {
        lemma_grown_out(h, n, (m - 1) as nat);
    }
}

/// Grow the nodes of a skeleton, oldest buds first, until the budget is spent or
/// no bud is left.
pub fn sprout(h: Habit, budget: usize) -> (r: Vec<Shoot>)
    requires
        budget <= MAX_NODES,
    ensures
        r@ == sprouted(h, budget as int),
{
    let mut nodes: Vec<Shoot> = Vec::new();
    nodes.push(Shoot { parent: NO_PARENT, order: 0, step: 0, lateral: None });
    let mut buds: Vec<Shoot> = Vec::new();
    buds.push(Shoot { parent: 0, order: 0, step: 0, lateral: None });
    let mut head: usize = 0;
    proof {
        assert(nodes@ =~= grown_by(h, 0).0);
        assert(buds@.skip(0) =~= grown_by(h, 0).1);
    }
    while nodes.len() < budget && head < buds.len()
        invariant
            budget <= MAX_NODES,
            1 <= nodes@.len(),
            nodes@.len() <= budget || nodes@.len() == 1,
            head <= buds@.len(),
            (nodes@, buds@.skip(head as int)) == grown_by(h, (nodes@.len() - 1) as nat),
        decreases budget - nodes@.len(),
    {
        let bud = buds[head];
        let index: u32 = nodes.len() as u32;
        let ghost n = (nodes@.len() - 1) as nat;
        let ghost waiting = buds@.skip(head as int);
        assert(waiting[0] == bud);
        nodes.push(bud);
        head = head + 1;
        let ghost rest = waiting.drop_first();
        assert(buds@.skip(head as int) =~= rest);
        if bud.step < 255 && bud.step + 1 < h.axis_steps {
            buds.push(Shoot { parent: index, order: bud.order, step: bud.step + 1, lateral: None });
        }
        let ghost onward = if bud.step + 1 < h.axis_steps {
            seq![
                Shoot { parent: index, order: bud.order, step: (bud.step + 1) as u8, lateral: None },
            ]
        } else {
            Seq::empty()
        };
        assert(buds@.skip(head as int) =~= rest + onward);
        if bud.order < h.max_order {
            let mut k: u8 = 0;
            while k < h.laterals
                invariant
                    k <= h.laterals,
                    head <= buds@.len(),
                    bud.order < h.max_order,
                    buds@.skip(head as int) == rest + onward + lateral_buds(
                        index,
                        bud.order,
                        k as int,
                    ),
                decreases h.laterals - k,
            {
                let ghost before = buds@.skip(head as int);
                buds.push(
                    Shoot { parent: index, order: bud.order + 1, step: 0, lateral: Some(k) },
                );
                proof {
                    assert(buds@.skip(head as int) =~= before.push(buds@.last()));
                    assert(lateral_buds(index, bud.order, k + 1) =~= lateral_buds(
                        index,
                        bud.order,
                        k as int,
                    ).push(buds@.last()));
                    assert(buds@.skip(head as int) =~= rest + onward + lateral_buds(
                        index,
                        bud.order,
                        k + 1,
                    ));
                }
                k = k + 1;
            }
        }
        proof {
            assert(buds@.skip(head as int) =~= rest + buds_of(h, index, bud));
            assert(grown_by(h, n + 1).1 == buds@.skip(head as int));
            assert(grown_by(h, n + 1).0 == nodes@);
        }
    }
    proof {
        let n = (nodes@.len() - 1) as nat;
        if nodes@.len() < budget {
            lemma_grown_out(h, n, (budget - 1) as nat);
        }
    }
    nodes
}

/// A tree's nodes keep their places as it grows: those of a younger tree are the
/// first nodes of the older.
pub proof fn growing_extends_the_frontier(h: Habit, young: nat, later: nat)
    requires
        young <= later,
    ensures
        grown_by(h, young).0.len() <= grown_by(h, later).0.len(),
        grown_by(h, young).0 == grown_by(h, later).0.take(grown_by(h, young).0.len() as int),
    decreases later,
{
    if young < later {
        growing_extends_the_frontier(h, young, (later - 1) as nat);
        let a = grown_by(h, young).0;
        let b = grown_by(h, (later - 1) as nat).0;
        let c = grown_by(h, later).0;
        assert(c.take(a.len() as int) =~= b.take(a.len() as int));
    } else {
        assert(grown_by(h, young).0 =~= grown_by(h, young).0.take(
            grown_by(h, young).0.len() as int,
        ));
    }
}

/// The branches of a younger tree are the first of the older, and the same ones where
/// its budget is not spent.
pub proof fn sprouts_extend(h: Habit, less: int, more: int)
    requires
        1 <= less <= more,
    ensures
        1 <= sprouted(h, less).len() <= less,
        sprouted(h, more).len() <= more,
        sprouted(h, less).is_prefix_of(sprouted(h, more)),
        sprouted(h, less).len() < less ==> sprouted(h, less) == sprouted(h, more),
{
    let (n, m) = ((less - 1) as nat, (more - 1) as nat);
    lemma_grown_size(h, n);
    lemma_grown_size(h, m);
    growing_extends_the_frontier(h, n, m);
    assert(grown_by(h, 0).0 =~= seq![root_shoot()]);
    if grown_by(h, n).1.len() == 0 {
        lemma_grown_out(h, n, m);
    }
}

proof fn lemma_buds_refer_back(h: Habit, n: nat)
    requires
        n < 0xffff_ffff,
    ensures
        forall|i: int|
            0 < i < grown_by(h, n).0.len() ==> (#[trigger] grown_by(h, n).0[i]).parent < i,
        forall|i: int|
            0 <= i < grown_by(h, n).1.len() ==> (#[trigger] grown_by(h, n).1[i]).parent
                < grown_by(h, n).0.len(),
    decreases n,
{
    if n > 0 {
        lemma_buds_refer_back(h, (n - 1) as nat);
        lemma_grown_size(h, (n - 1) as nat);
        let (nodes, buds) = grown_by(h, (n - 1) as nat);
        let (more, waiting) = grown_by(h, n);
        if buds.len() > 0 {
            let fresh = buds_of(h, nodes.len() as u32, buds[0]);
            assert forall|i: int| 0 < i < more.len() implies (#[trigger] more[i]).parent < i by {
                if i < nodes.len() {
                    assert(more[i] == nodes[i]);
                } else {
                    assert(more[i] == buds[0]);
                }
            }
            assert forall|i: int| 0 <= i < waiting.len() implies (#[trigger] waiting[i]).parent
                < more.len() by {
                let kept = buds.drop_first();
                if i < kept.len() {
                    assert(waiting[i] == buds[i + 1]);
                } else {
                    assert(waiting[i] == fresh[i - kept.len()]);
                }
            }
        }
    }
}

/// A node never comes before what it grew from.
pub proof fn parents_come_first(h: Habit, budget: int, i: int)
    requires
        1 <= budget <= MAX_NODES,
        0 < i < sprouted(h, budget).len(),
    ensures
        sprouted(h, budget)[i].parent < i,
{
    lemma_buds_refer_back(h, (budget - 1) as nat);
}

/// A skeleton has no more nodes than its budget.
pub proof fn the_budget_bounds_the_nodes(h: Habit, budget: int)
    requires
        budget >= 1,
    ensures
        1 <= sprouted(h, budget).len() <= budget,
{
    lemma_grown_size(h, (budget - 1) as nat);
}

/// Whether a list of parents makes a tree: a root, and every other node after its
/// parent.
pub open spec fn is_tree(parents: Seq<u32>) -> bool {
    &&& 0 < parents.len() < 0xffff_ffff
    &&& parents[0] == NO_PARENT
    &&& forall|i: int| 0 < i < parents.len() ==> (#[trigger] parents[i]) < i
}

/// How many nodes a node carries, itself included.
pub open spec fn weight_of(parents: Seq<u32>, i: int) -> int
    decreases parents.len() - i, parents.len() + 1,
{
    if i < 0 || i >= parents.len() {
        0
    } else {
        1 + carried(parents, i, i + 1)
    }
}

/// How many nodes the children of `i` numbered from `from` on carry.
pub open spec fn carried(parents: Seq<u32>, i: int, from: int) -> int
    decreases parents.len() - i, parents.len() - from,
{
    if from <= i || from >= parents.len() {
        0
    } else {
        carried(parents, i, from + 1) + if parents[from] == i {
            weight_of(parents, from)
        } else {
            0
        }
    }
}

/// The heaviest child of `i` numbered from `from` on, the highest number of
/// several.
pub open spec fn heaviest_from(parents: Seq<u32>, i: int, from: int) -> Option<int>
    decreases parents.len() - from,
{
    if from <= i || from >= parents.len() {
        None
    } else {
        let later = heaviest_from(parents, i, from + 1);
        if parents[from] != i {
            later
        } else {
            match later {
                None => Some(from),
                Some(j) => if weight_of(parents, from) > weight_of(parents, j) {
                    Some(from)
                } else {
                    Some(j)
                },
            }
        }
    }
}

/// The child that continues a node's limb.
pub open spec fn heavy_child(parents: Seq<u32>, i: int) -> Option<int> {
    heaviest_from(parents, i, i + 1)
}

/// Whether a node starts a limb of its own.
pub open spec fn starts_limb(parents: Seq<u32>, i: int) -> bool {
    heavy_child(parents, parents[i] as int) != Some(i)
}

/// How many limbs nodes `1 ..= i` start.
pub open spec fn limbs_started(parents: Seq<u32>, i: int) -> int
    decreases i,
{
    if i <= 0 {
        0
    } else {
        limbs_started(parents, i - 1) + if starts_limb(parents, i) {
            1int
        } else {
            0
        }
    }
}

/// The limb of a node, and its place on it.
pub open spec fn limb_of(parents: Seq<u32>, i: int) -> (int, int)
    decreases i,
{
    if i <= 0 {
        (0, 0)
    } else if starts_limb(parents, i) {
        (limbs_started(parents, i), 0)
    } else if parents[i] < i {
        let (limb, place) = limb_of(parents, parents[i] as int);
        (limb, place + 1)
    } else {
        (0, 0)
    }
}

/// A node of a skeleton divided into limbs.
#[derive(Clone, Copy, PartialEq, Eq, Structural, Debug)]
pub struct LimbNode {
    /// How many nodes it carries, itself included.
    pub weight: u32,
    /// The limb it is on.
    pub chain: u32,
    /// Its place on the limb.
    pub chain_idx: u32,
}

proof fn lemma_carried_bound(parents: Seq<u32>, i: int, from: int)
    requires
        is_tree(parents),
        0 <= i < parents.len(),
        i < from <= parents.len(),
    ensures
        carried(parents, i, from) >= 0,
    decreases parents.len() - i, parents.len() - from,
{
    if from < parents.len() {
        lemma_carried_bound(parents, i, from + 1);
        if parents[from] == i {
            lemma_carried_bound(parents, from, from + 1);
            assert(weight_of(parents, from) == 1 + carried(parents, from, from + 1));
        }
    }
}

/// What the nodes from `from` on whose parent is before `k` carry together.
spec fn carried_across(parents: Seq<u32>, k: int, from: int) -> int
    decreases parents.len() - from,
{
    if from < 0 || from >= parents.len() {
        0
    } else {
        carried_across(parents, k, from + 1) + if parents[from] < k {
            weight_of(parents, from)
        } else {
            0
        }
    }
}

proof fn lemma_split_across(parents: Seq<u32>, k: int, from: int)
    requires
        is_tree(parents),
        0 <= k < from <= parents.len(),
    ensures
        carried_across(parents, k + 1, from) == carried_across(parents, k, from) + carried(
            parents,
            k,
            from,
        ),
    decreases parents.len() - from,
{
    if from < parents.len() {
        lemma_split_across(parents, k, from + 1);
    }
}

proof fn lemma_all_across(parents: Seq<u32>, k: int)
    requires
        is_tree(parents),
        1 <= k <= parents.len(),
    ensures
        carried_across(parents, k, k) == parents.len() - k,
    decreases parents.len() - k,
{
    if k < parents.len() {
        lemma_all_across(parents, k + 1);
        lemma_split_across(parents, k, k + 1);
        assert(parents[k] < k);
        assert(weight_of(parents, k) == 1 + carried(parents, k, k + 1));
    }
}

proof fn lemma_across_bounds(parents: Seq<u32>, i: int, from: int)
    requires
        is_tree(parents),
        0 <= i < from <= parents.len(),
    ensures
        carried(parents, i, from) <= carried_across(parents, i + 1, from),
    decreases parents.len() - from,
{
    if from < parents.len() {
        lemma_across_bounds(parents, i, from + 1);
        lemma_light(parents, from);
    }
}

proof fn lemma_weight_bound(parents: Seq<u32>, i: int)
    requires
        is_tree(parents),
        0 <= i < parents.len(),
    ensures
        1 <= weight_of(parents, i) <= parents.len() - i,
{
    lemma_light(parents, i);
    lemma_across_bounds(parents, i, i + 1);
    lemma_all_across(parents, i + 1);
}

/// The root carries every node.
pub proof fn the_root_carries_every_node(parents: Seq<u32>)
    requires
        is_tree(parents),
    ensures
        weight_of(parents, 0) == parents.len(),
{
    lemma_all_across(parents, 1);
    lemma_roots_children(parents, 1);
}

proof fn lemma_roots_children(parents: Seq<u32>, from: int)
    requires
        is_tree(parents),
        1 <= from <= parents.len(),
    ensures
        carried(parents, 0, from) == carried_across(parents, 1, from),
    decreases parents.len() - from,
{
    if from < parents.len() {
        lemma_roots_children(parents, from + 1);
    }
}

proof fn lemma_light(parents: Seq<u32>, i: int)
    requires
        is_tree(parents),
        0 <= i < parents.len(),
    ensures
        1 <= weight_of(parents, i),
{
    lemma_carried_bound(parents, i, i + 1);
}

/// Divide a skeleton into limbs: the heaviest child continues its parent's limb,
/// every other starts one. The second result counts the limbs.
pub fn divide_limbs(parents: &Vec<u32>) -> (r: (Vec<LimbNode>, u32))
    requires
        is_tree(parents@),
        parents@.len() <= MAX_NODES,
    ensures
        r.0@.len() == parents@.len(),
        forall|i: int|
            0 <= i < parents@.len() ==> {
                &&& (#[trigger] r.0@[i]).weight == weight_of(parents@, i)
                &&& (r.0@[i].chain as int, r.0@[i].chain_idx as int) == limb_of(parents@, i)
            },
        r.1 == limbs_started(parents@, parents@.len() - 1) + 1,
{
    let n: usize = parents.len();
    let ghost tree = parents@;
    let mut weights: Vec<u32> = Vec::new();
    let mut heavy: Vec<u32> = Vec::new();
    let mut j: usize = 0;
    while j < n
        invariant
            j <= n,
            n == tree.len(),
            weights@.len() == j,
            heavy@.len() == j,
            forall|i: int| 0 <= i < j ==> (#[trigger] weights@[i]) == 1,
            forall|i: int| 0 <= i < j ==> (#[trigger] heavy@[i]) == NO_PARENT,
        decreases n - j,
    {
        weights.push(1);
        heavy.push(NO_PARENT);
        j = j + 1;
    }
    let mut k: usize = n;
    while k > 1
        invariant
            1 <= k <= n || n == k,
            n == tree.len(),
            tree == parents@,
            is_tree(tree),
            n <= MAX_NODES,
            weights@.len() == n,
            heavy@.len() == n,
            forall|i: int|
                0 <= i < n ==> (#[trigger] weights@[i]) == 1 + carried(
                    tree,
                    i,
                    if k > i { k as int } else { i + 1 },
                ),
            forall|i: int|
                0 <= i < n ==> (#[trigger] heavy@[i]) == match heaviest_from(
                    tree,
                    i,
                    if k > i { k as int } else { i + 1 },
                ) {
                    Some(h) => h,
                    None => NO_PARENT as int,
                },
        decreases k,
    {
        let c: usize = k - 1;
        let p: usize = parents[c] as usize;
        assert(tree[c as int] < c);
        let w: u32 = weights[c];
        assert(w == weight_of(tree, c as int));
        proof {
            assert(carried(tree, p as int, c as int) == carried(tree, p as int, k as int) + w);
            lemma_carried_prefix(tree, p as int, c as int);
            lemma_weight_bound(tree, p as int);
            lemma_carried_bound(tree, p as int, k as int);
            lemma_heaviest_index(tree, p as int, k as int);
        }
        let ghost before_w = weights@;
        let ghost before_h = heavy@;
        let so_far: u32 = weights[p];
        let best: u32 = heavy[p];
        weights.set(p, so_far + w);
        if best == NO_PARENT || w > weights[best as usize] {
            heavy.set(p, c as u32);
        }
        proof {
            assert forall|i: int| 0 <= i < n implies (#[trigger] weights@[i]) == 1 + carried(
                tree,
                i,
                if c > i { c as int } else { i + 1 },
            ) by {
                assert(before_w[i] == 1 + carried(tree, i, if k > i { k as int } else { i + 1 }));
                if i < c {
                    assert(carried(tree, i, c as int) == carried(tree, i, k as int) + if tree[c as int]
                        == i {
                        weight_of(tree, c as int)
                    } else {
                        0
                    });
                }
            }
            assert forall|i: int| 0 <= i < n implies (#[trigger] heavy@[i]) == match heaviest_from(
                tree,
                i,
                if c > i { c as int } else { i + 1 },
            ) {
                Some(h) => h,
                None => NO_PARENT as int,
            } by {
                assert(before_h[i] == match heaviest_from(
                    tree,
                    i,
                    if k > i { k as int } else { i + 1 },
                ) {
                    Some(h) => h,
                    None => NO_PARENT as int,
                });
                if i == p {
                    if best != NO_PARENT {
                        assert(before_w[best as int] == weight_of(tree, best as int));
                    }
                }
            }
        }
        k = k - 1;
    }
    let mut out: Vec<LimbNode> = Vec::new();
    out.push(LimbNode { weight: weights[0], chain: 0, chain_idx: 0 });
    let mut next: u32 = 1;
    let mut i: usize = 1;
    while i < n
        invariant
            1 <= i <= n,
            n == tree.len(),
            tree == parents@,
            is_tree(tree),
            n <= MAX_NODES,
            weights@.len() == n,
            heavy@.len() == n,
            out@.len() == i,
            next == limbs_started(tree, i - 1) + 1,
            next <= i,
            forall|q: int| 0 <= q < n ==> (#[trigger] weights@[q]) == weight_of(tree, q),
            forall|q: int|
                0 <= q < n ==> (#[trigger] heavy@[q]) == match heavy_child(tree, q) {
                    Some(h) => h,
                    None => NO_PARENT as int,
                },
            forall|q: int|
                0 <= q < i ==> {
                    &&& (#[trigger] out@[q]).weight == weight_of(tree, q)
                    &&& (out@[q].chain as int, out@[q].chain_idx as int) == limb_of(tree, q)
                    &&& out@[q].chain_idx <= q
                },
        decreases n - i,
    {
        let p: usize = parents[i] as usize;
        assert(tree[i as int] < i);
        let parent = out[p];
        proof {
            lemma_heaviest_index(tree, p as int, p + 1);
        }
        if heavy[p] == i as u32 {
            out.push(
                LimbNode {
                    weight: weights[i],
                    chain: parent.chain,
                    chain_idx: parent.chain_idx + 1,
                },
            );
        } else {
            out.push(LimbNode { weight: weights[i], chain: next, chain_idx: 0 });
            next = next + 1;
        }
        i = i + 1;
    }
    (out, next)
}

proof fn lemma_heaviest_index(parents: Seq<u32>, i: int, from: int)
    requires
        i < from,
    ensures
        heaviest_from(parents, i, from) matches Some(h) ==> from <= h < parents.len() && parents[h]
            == i,
    decreases parents.len() - from,
{
    if from < parents.len() {
        lemma_heaviest_index(parents, i, from + 1);
    }
}

proof fn lemma_carried_prefix(parents: Seq<u32>, i: int, from: int)
    requires
        is_tree(parents),
        0 <= i < parents.len(),
        i < from <= parents.len(),
    ensures
        carried(parents, i, from) <= carried(parents, i, i + 1),
    decreases from,
{
    if from > i + 1 {
        lemma_carried_prefix(parents, i, from - 1);
        if parents[from - 1] == i {
            lemma_light(parents, from - 1);
        }
    }
}

/// The child that continues a limb is no lighter than any of its siblings.
pub proof fn limbs_follow_the_greatest_mass(parents: Seq<u32>, i: int, from: int, sibling: int)
    requires
        i < from <= sibling < parents.len(),
        parents[sibling] == i,
    ensures
        heaviest_from(parents, i, from) matches Some(h) && weight_of(parents, sibling) <= weight_of(
            parents,
            h,
        ),
    decreases parents.len() - from,
{
    if from < sibling {
        limbs_follow_the_greatest_mass(parents, i, from + 1, sibling);
    }
}

proof fn lemma_limbs_grow(parents: Seq<u32>, i: int, j: int)
    requires
        0 <= i <= j,
    ensures
        limbs_started(parents, i) <= limbs_started(parents, j),
        i < j && starts_limb(parents, j) ==> limbs_started(parents, i) < limbs_started(parents, j),
        limbs_started(parents, i) >= 0,
    decreases j,
{
    if i < j {
        lemma_limbs_grow(parents, i, j - 1);
    } else if i > 0 {
        lemma_limbs_grow(parents, i - 1, i - 1);
    }
}

/// No two nodes share a place on a limb.
pub proof fn places_on_limbs_are_unique(parents: Seq<u32>, i: int, j: int)
    requires
        is_tree(parents),
        0 <= i < parents.len(),
        0 <= j < parents.len(),
        limb_of(parents, i) == limb_of(parents, j),
    ensures
        i == j,
    decreases i + j,
{
    lemma_place_not_negative(parents, i);
    lemma_place_not_negative(parents, j);
    if i > 0 && j > 0 && !starts_limb(parents, i) && !starts_limb(parents, j) {
        places_on_limbs_are_unique(parents, parents[i] as int, parents[j] as int);
    } else if i > 0 && j > 0 && starts_limb(parents, i) && starts_limb(parents, j) {
        if i < j {
            lemma_limbs_grow(parents, i, j);
        } else if j < i {
            lemma_limbs_grow(parents, j, i);
        }
    } else if i == 0 && j > 0 {
        if starts_limb(parents, j) {
            lemma_limbs_grow(parents, 0, j);
        } else {
            lemma_place_not_negative(parents, parents[j] as int);
        }
    } else if j == 0 && i > 0 {
        if starts_limb(parents, i) {
            lemma_limbs_grow(parents, 0, i);
        } else {
            lemma_place_not_negative(parents, parents[i] as int);
        }
    } else if i > 0 && j > 0 {
        if starts_limb(parents, i) {
            lemma_place_not_negative(parents, parents[j] as int);
        } else {
            lemma_place_not_negative(parents, parents[i] as int);
        }
    }
}

proof fn lemma_place_not_negative(parents: Seq<u32>, i: int)
    requires
        is_tree(parents),
        0 <= i < parents.len(),
    ensures
        limb_of(parents, i).1 >= 0,
    decreases i,
{
    if i > 0 && !starts_limb(parents, i) {
        lemma_place_not_negative(parents, parents[i] as int);
    }
}

} // verus!
