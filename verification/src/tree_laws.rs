//! How trees grow: which shoots a habit gives, which limbs they make, and which limbs and
//! lobes come first.
use crate::canopy::{
    dropped_before, first_to_drop, has_child, largest_first, limb_before, paired, round_parents,
    supply_of, terminal_of, tips_among, trimmed, Limb, LobeSize,
};
use crate::scalar::Single;
use crate::skeleton::{
    buds_of, first_buds, grown_by, heaviest_from, heavy_child, is_tree, lateral_buds, limb_of,
    limbs_started, root_shoot, sprouted, starts_limb, weight_of, Habit, LimbNode, Shoot, MAX_NODES,
    NO_PARENT,
};
use vstd::prelude::*;

verus! {

/// Whether a shoot is what a habit grows from another: the next internode of the same axis,
/// or the start of an axis one order deeper.
pub open spec fn descends(h: Habit, from: Shoot, to: Shoot) -> bool {
    match to.lateral {
        None => to.order == from.order && to.step == from.step + 1 && to.step < h.axis_steps,
        Some(k) => to.order == from.order + 1 && to.order <= h.max_order && to.step == 0 && k
            < h.laterals,
    }
}

/// The number of a branch among those of its parent: the axis first, then the laterals.
pub open spec fn branch_number(s: Shoot) -> int {
    match s.lateral {
        None => 0,
        Some(k) => k + 1,
    }
}

/// Whether a habit has a shoot grow a branch with this number.
pub open spec fn grows(h: Habit, s: Shoot, number: int) -> bool {
    (number == 0 && s.step + 1 < h.axis_steps) || (1 <= number <= h.laterals && s.order
        < h.max_order)
}

/// Whether some node is a node's branch with this number.
pub open spec fn branches(nodes: Seq<Shoot>, p: int, number: int) -> bool {
    exists|j: int|
        1 <= j < nodes.len() && (#[trigger] nodes[j]).parent == p && branch_number(nodes[j])
            == number
}

/// Whether a shoot grows before another: that of the earlier parent first, then the lower
/// branch.
pub open spec fn grows_before(a: Shoot, b: Shoot) -> bool {
    a.parent < b.parent || (a.parent == b.parent && branch_number(a) < branch_number(b))
}

spec fn family(h: Habit, all: Seq<Shoot>, k: int) -> bool {
    &&& 1 <= k <= all.len()
    &&& all.len() >= 2
    &&& all[0] == root_shoot()
    &&& all[1] == first_buds()[0]
    &&& forall|i: int|
        2 <= i < all.len() ==> 1 <= (#[trigger] all[i]).parent < k && descends(
            h,
            all[all[i].parent as int],
            all[i],
        )
    &&& forall|i: int, j: int|
        1 <= i < j < all.len() ==> grows_before(#[trigger] all[i], #[trigger] all[j])
    &&& forall|p: int, number: int|
        1 <= p < k && #[trigger] grows(h, all[p], number) ==> branches(all, p, number)
}

proof fn lemma_buds(h: Habit, index: u32, s: Shoot)
    ensures
        forall|i: int|
            0 <= i < buds_of(h, index, s).len() ==> (#[trigger] buds_of(h, index, s)[i]).parent
                == index && descends(h, s, buds_of(h, index, s)[i]),
        forall|i: int, j: int|
            0 <= i < j < buds_of(h, index, s).len() ==> grows_before(
                #[trigger] buds_of(h, index, s)[i],
                #[trigger] buds_of(h, index, s)[j],
            ),
        forall|number: int| #[trigger]
            grows(h, s, number) ==> exists|i: int|
                0 <= i < buds_of(h, index, s).len() && branch_number(
                    #[trigger] buds_of(h, index, s)[i],
                ) == number,
{
    let buds = buds_of(h, index, s);
    let onward: int = if s.step + 1 < h.axis_steps {
        1
    } else {
        0
    };
    let sideways = lateral_buds(index, s.order, h.laterals as int);
    assert forall|i: int| onward <= i < buds.len() implies #[trigger] buds[i] == sideways[i - onward]
        && s.order < h.max_order by {}
    assert forall|number: int| #[trigger] grows(h, s, number) implies exists|i: int|
        0 <= i < buds.len() && branch_number(#[trigger] buds[i]) == number by {
        if number == 0 && onward == 1 {
            assert(branch_number(buds[0]) == 0);
        } else {
            assert(buds[onward + number - 1] == sideways[number - 1]);
            assert(branch_number(buds[onward + number - 1]) == number);
        }
    }
}

proof fn lemma_family(h: Habit, n: nat)
    requires
        n < 0xffff_0000,
    ensures
        family(h, grown_by(h, n).0 + grown_by(h, n).1, grown_by(h, n).0.len() as int),
        grown_by(h, n).0.len() <= n + 1,
        grown_by(h, n).1.len() > 0 ==> grown_by(h, n).0.len() == n + 1,
    decreases n,
{
    let (nodes, buds) = grown_by(h, n);
    let all = nodes + buds;
    if n == 0 {
        assert(all =~= seq![root_shoot(), first_buds()[0]]);
        assert(family(h, all, 1));
    } else {
        lemma_family(h, (n - 1) as nat);
        let (nodes0, buds0) = grown_by(h, (n - 1) as nat);
        let all0 = nodes0 + buds0;
        let k0 = nodes0.len() as int;
        if buds0.len() > 0 {
            let fresh = buds_of(h, k0 as u32, buds0[0]);
            lemma_buds(h, k0 as u32, buds0[0]);
            assert(all =~= all0 + fresh);
            assert(all0[k0] == buds0[0]);
            assert forall|i: int| 2 <= i < all.len() implies 1 <= (#[trigger] all[i]).parent < k0
                + 1 && descends(h, all[all[i].parent as int], all[i]) by {
                if i < all0.len() {
                    assert(all[i] == all0[i]);
                    assert(all[all[i].parent as int] == all0[all[i].parent as int]);
                } else {
                    assert(all[i] == fresh[i - all0.len()]);
                }
            }
            assert forall|i: int, j: int| 1 <= i < j < all.len() implies grows_before(
                #[trigger] all[i],
                #[trigger] all[j],
            ) by {
                if j < all0.len() {
                    assert(all[i] == all0[i] && all[j] == all0[j]);
                } else if i < all0.len() {
                    assert(all[i] == all0[i] && all[j] == fresh[j - all0.len()]);
                    if i >= 2 {
                        assert(all0[i].parent < k0);
                    }
                } else {
                    assert(all[i] == fresh[i - all0.len()] && all[j] == fresh[j - all0.len()]);
                }
            }
            assert forall|p: int, number: int|
                1 <= p < k0 + 1 && #[trigger] grows(h, all[p], number) implies branches(
                all,
                p,
                number,
            ) by {
                assert(all[p] == all0[p]);
                if p < k0 {
                    assert(branches(all0, p, number));
                    let j = choose|j: int|
                        1 <= j < all0.len() && (#[trigger] all0[j]).parent == p && branch_number(
                            all0[j],
                        ) == number;
                    assert(all[j] == all0[j]);
                } else {
                    let i = choose|i: int|
                        0 <= i < fresh.len() && branch_number(#[trigger] fresh[i]) == number;
                    assert(all[all0.len() + i] == fresh[i]);
                }
            }
        }
    }
}

/// A skeleton has the branches of its habit, in the order in which they grow: below the root
/// one shoot starts the first axis, and every later node is what the habit grows from its
/// parent, those of earlier parents first. Where the budget is not spent, no branch of any
/// node is missing.
pub proof fn skeletons_branch_by_their_habit(
    h: Habit,
    budget: int,
    i: int,
    j: int,
    number: int,
)
    requires
        1 <= budget <= MAX_NODES,
    ensures
        ({
            let nodes = sprouted(h, budget);
            &&& nodes[0] == (Shoot { parent: NO_PARENT, order: 0, step: 0, lateral: None })
            &&& budget >= 2 ==> nodes.len() >= 2 && nodes[1] == (Shoot {
                parent: 0,
                order: 0,
                step: 0,
                lateral: None,
            })
            &&& 2 <= i < nodes.len() ==> 1 <= nodes[i].parent < i && descends(
                h,
                nodes[nodes[i].parent as int],
                nodes[i],
            )
            &&& 1 <= i < j < nodes.len() ==> grows_before(nodes[i], nodes[j])
            &&& nodes.len() < budget && 1 <= i < nodes.len() && grows(h, nodes[i], number)
                ==> branches(nodes, i, number)
        }),
{
    let n = (budget - 1) as nat;
    lemma_family(h, n);
    let (nodes, buds) = grown_by(h, n);
    let all = nodes + buds;
    assert(all[0] == root_shoot());
    assert forall|q: int| 0 <= q < nodes.len() implies nodes[q] == #[trigger] all[q] by {}
    if buds.len() == 0 {
        assert(all =~= nodes);
    }
    if 2 <= i < nodes.len() {
        assert(all[i] == nodes[i]);
        crate::skeleton::parents_come_first(h, budget, i);
        assert(all[nodes[i].parent as int] == nodes[nodes[i].parent as int]);
    }
    if 1 <= i < j < nodes.len() {
        assert(grows_before(all[i], all[j]));
    }
    if nodes.len() < budget && 1 <= i < nodes.len() && grows(h, nodes[i], number) {
        assert(grows(h, all[i], number));
    }
}

/// Whether a node goes before a sibling: it carries more, or as much and comes later.
pub open spec fn outweighs(parents: Seq<u32>, i: int, sibling: int) -> bool {
    weight_of(parents, sibling) < weight_of(parents, i) || (weight_of(parents, sibling)
        == weight_of(parents, i) && sibling < i)
}

/// Whether a node carries the most among its siblings.
pub open spec fn is_heaviest(parents: Seq<u32>, i: int) -> bool {
    forall|s: int|
        0 <= s < parents.len() && s != i && #[trigger] parents[s] == parents[i] ==> outweighs(
            parents,
            i,
            s,
        )
}

proof fn lemma_heaviest(parents: Seq<u32>, p: int, from: int, c: int)
    requires
        p < from <= c < parents.len(),
        parents[c] == p,
        0 <= p,
        forall|s: int|
            from <= s < parents.len() && s != c && #[trigger] parents[s] == p ==> outweighs(
                parents,
                c,
                s,
            ),
    ensures
        heaviest_from(parents, p, from) == Some(c),
    decreases parents.len() - from,
{
    let later = heaviest_from(parents, p, from + 1);
    if from < c {
        lemma_heaviest(parents, p, from + 1, c);
        if parents[from] == p {
            assert(outweighs(parents, c, from));
        }
    } else if let Some(j) = later {
        lemma_found(parents, p, from + 1);
        assert(outweighs(parents, c, j));
    }
}

proof fn lemma_found(parents: Seq<u32>, p: int, from: int)
    ensures
        heaviest_from(parents, p, from) matches Some(j) ==> from <= j < parents.len() && parents[j]
            == p,
    decreases parents.len() - from,
{
    if !(from <= p || from >= parents.len()) {
        lemma_found(parents, p, from + 1);
    }
}

proof fn lemma_heaviest_outweighs(parents: Seq<u32>, p: int, from: int, s: int)
    requires
        0 <= p < from <= s < parents.len(),
        parents[s] == p,
        heaviest_from(parents, p, from) != Some(s),
    ensures
        heaviest_from(parents, p, from) matches Some(c) && outweighs(parents, c, s),
    decreases parents.len() - from,
{
    lemma_found(parents, p, from + 1);
    if from < s {
        if heaviest_from(parents, p, from + 1) != Some(s) {
            lemma_heaviest_outweighs(parents, p, from + 1, s);
        }
    }
}

/// Among the children of a node, the one that carries the most, the last of several, goes on
/// with its limb at the next place; every other starts the next new limb, at its first place.
pub proof fn limbs_go_on_through_the_heaviest_child(parents: Seq<u32>, i: int, j: int)
    requires
        is_tree(parents),
        0 < i < parents.len(),
        0 <= j < i,
    ensures
        limb_of(parents, 0) == (0int, 0int),
        is_heaviest(parents, i) ==> limb_of(parents, i) == (
            limb_of(parents, parents[i] as int).0,
            limb_of(parents, parents[i] as int).1 + 1,
        ),
        !is_heaviest(parents, i) ==> limb_of(parents, i).1 == 0 && limb_of(parents, j).0 < limb_of(
            parents,
            i,
        ).0,
        !is_heaviest(parents, i) ==> exists|q: int|
            0 <= q < i && (#[trigger] limb_of(parents, q)).0 == limb_of(parents, i).0 - 1,
{
    let p = parents[i] as int;
    if is_heaviest(parents, i) {
        assert forall|s: int|
            p + 1 <= s < parents.len() && s != i && #[trigger] parents[s] == p implies outweighs(
            parents,
            i,
            s,
        ) by {
            assert(parents[s] == parents[i]);
        }
        lemma_heaviest(parents, p, p + 1, i);
    } else {
        let s = choose|s: int|
            0 <= s < parents.len() && s != i && #[trigger] parents[s] == parents[i] && !outweighs(
                parents,
                i,
                s,
            );
        assert(s > 0);
        if heavy_child(parents, p) == Some(i) {
            assert(p < s);
            lemma_heaviest_outweighs(parents, p, p + 1, s);
        }
        lemma_limb_number(parents, j);
        lemma_started(parents, j, i - 1);
        let q = lemma_limb_used(parents, i - 1);
        assert(limb_of(parents, q).0 == limb_of(parents, i).0 - 1);
    }
}

proof fn lemma_limb_number(parents: Seq<u32>, i: int)
    requires
        is_tree(parents),
        0 <= i < parents.len(),
    ensures
        0 <= limb_of(parents, i).0 <= limbs_started(parents, i),
    decreases i,
{
    if i > 0 {
        lemma_started(parents, 0, i);
        if !starts_limb(parents, i) {
            lemma_limb_number(parents, parents[i] as int);
            lemma_started(parents, parents[i] as int, i);
        }
    }
}

proof fn lemma_started(parents: Seq<u32>, i: int, j: int)
    requires
        0 <= i <= j,
    ensures
        limbs_started(parents, i) <= limbs_started(parents, j),
    decreases j,
{
    if i < j {
        lemma_started(parents, i, j - 1);
    }
}

proof fn lemma_limb_used(parents: Seq<u32>, i: int) -> (q: int)
    requires
        is_tree(parents),
        0 <= i < parents.len(),
    ensures
        0 <= q <= i,
        limb_of(parents, q).0 == limbs_started(parents, i),
    decreases i,
{
    if i == 0 || starts_limb(parents, i) {
        i
    } else {
        lemma_limb_used(parents, i - 1)
    }
}

/// There are as many limbs as numbers up to the highest that a node has.
pub proof fn limbs_are_counted(parents: Seq<u32>, i: int)
    requires
        is_tree(parents),
        0 <= i < parents.len(),
    ensures
        0 <= limb_of(parents, i).0 < limbs_started(parents, parents.len() - 1) + 1,
        exists|q: int|
            0 <= q < parents.len() && (#[trigger] limb_of(parents, q)).0 == limbs_started(
                parents,
                parents.len() - 1,
            ),
{
    lemma_limb_number(parents, i);
    lemma_started(parents, i, parents.len() - 1);
    let q = lemma_limb_used(parents, parents.len() - 1);
    assert(limb_of(parents, q).0 == limbs_started(parents, parents.len() - 1));
}

/// Each node but the root makes one segment from its parent to itself, in order.
pub proof fn segments_lead_from_parents(parents: Seq<u32>, p: u32)
    requires
        parents.len() < 0xffff_ffff,
    ensures
        paired(Seq::empty()).len() == 0,
        p == NO_PARENT ==> paired(parents.push(p)) == paired(parents),
        p != NO_PARENT ==> paired(parents.push(p)) == paired(parents).push(
            (p, parents.len() as u32),
        ),
{
    assert(parents.push(p).drop_last() =~= parents);
}

/// The nodes that are no node's parent.
pub open spec fn tips(parents: Seq<u32>, k: int) -> Set<int> {
    Set::new(
        |i: int|
            0 <= i < k && forall|j: int|
                0 <= j < parents.len() ==> #[trigger] parents[j] as int != i,
    )
}

/// Tips are counted: as many as there are nodes that no node grows from.
pub proof fn tips_carry_nothing(parents: Seq<u32>, k: int)
    requires
        0 <= k,
    ensures
        tips(parents, k).finite(),
        tips_among(parents, k) == tips(parents, k).len(),
    decreases k,
{
    if k == 0 {
        assert(tips(parents, k) =~= Set::empty());
    } else {
        tips_carry_nothing(parents, k - 1);
        if has_child(parents, k - 1) {
            assert(tips(parents, k) =~= tips(parents, k - 1));
        } else {
            assert(tips(parents, k) =~= tips(parents, k - 1).insert(k - 1));
        }
    }
}

/// A limb is supplied by its first node: the radius of the one at its first place.
pub proof fn limbs_are_supplied_where_they_start(
    nodes: Seq<LimbNode>,
    radii: Seq<Single>,
    limb: int,
    k: int,
    i: int,
)
    requires
        0 <= i < k,
        nodes[i].chain == limb,
        nodes[i].chain_idx == 0,
        forall|j: int|
            i < j < k ==> !((#[trigger] nodes[j]).chain == limb && nodes[j].chain_idx == 0),
    ensures
        supply_of(nodes, radii, limb, k) == radii[i],
    decreases k,
{
    if i < k - 1 {
        assert(!(nodes[k - 1].chain == limb && nodes[k - 1].chain_idx == 0));
        limbs_are_supplied_where_they_start(nodes, radii, limb, k - 1, i);
    }
}

/// Foliage hangs from the end of its limb: the node on it at the furthest place, the last of
/// several.
pub proof fn foliage_hangs_from_the_end(nodes: Seq<LimbNode>, limb: int, k: int, i: int)
    requires
        0 <= i < k <= 0xffff_ffff,
        nodes[i].chain == limb,
    ensures
        ({
            let (place, end) = terminal_of(nodes, limb, k);
            &&& 0 <= end < k
            &&& nodes[end as int].chain == limb
            &&& nodes[end as int].chain_idx == place
            &&& nodes[i].chain_idx <= place
            &&& nodes[i].chain_idx == place ==> i <= end
        }),
    decreases k,
{
    if i < k - 1 {
        foliage_hangs_from_the_end(nodes, limb, k - 1, i);
    } else {
        lemma_terminal(nodes, limb, k - 1);
    }
}

proof fn lemma_terminal(nodes: Seq<LimbNode>, limb: int, k: int)
    requires
        0 <= k <= 0xffff_ffff,
    ensures
        ({
            let (place, end) = terminal_of(nodes, limb, k);
            (place, end) == (0u32, 0u32) || (end < k && nodes[end as int].chain == limb
                && nodes[end as int].chain_idx == place)
        }),
    decreases k,
{
    if k > 0 {
        lemma_terminal(nodes, limb, k - 1);
    }
}

/// Ordered limbs come with the larger supply first, and of equal ones that on the lower node.
pub proof fn large_limbs_come_first(s: Seq<Limb>, i: int, j: int)
    requires
        largest_first(s),
        0 <= i < j < s.len(),
    ensures
        !s[i].supply.is_nan() && !s[j].supply.is_nan() ==> s[i].supply.at_least(s[j].supply),
        s[i].supply == s[j].supply ==> s[i].terminal <= s[j].terminal,
{
    assert(!limb_before(s[j], s[i]));
}

proof fn lemma_first_to_drop(s: Seq<LobeSize>, k: int)
    requires
        1 <= k <= s.len(),
    ensures
        0 <= first_to_drop(s, k) < k,
        forall|i: int| 0 <= i < k ==> !dropped_before(#[trigger] s[i], s[first_to_drop(s, k)]),
    decreases k,
{
    if k > 1 {
        lemma_first_to_drop(s, k - 1);
    }
}

/// Trimming keeps the largest lobes, in their order: as many as allowed, none of them
/// smaller than one that is dropped, and of equal ones those on the lower nodes. The result
/// tells the places of the lobes that stay.
pub proof fn the_largest_lobes_stay(s: Seq<LobeSize>, most: int) -> (kept: Seq<int>)
    requires
        most >= 0,
    ensures
        kept.len() == (if s.len() <= most {
            s.len() as int
        } else {
            most
        }),
        kept.len() == trimmed(s, most).len(),
        forall|i: int|
            0 <= i < kept.len() ==> 0 <= #[trigger] kept[i] < s.len() && trimmed(s, most)[i]
                == s[kept[i]],
        forall|i: int, j: int| 0 <= i < j < kept.len() ==> kept[i] < kept[j],
        forall|i: int, d: int|
            0 <= i < kept.len() && 0 <= d < s.len() && !kept.contains(d) ==> stays_over(
                #[trigger] s[kept[i]],
                #[trigger] s[d],
            ),
    decreases s.len(),
{
    if s.len() <= most || s.len() == 0 {
        let kept = Seq::new(s.len(), |i: int| i);
        assert forall|i: int, d: int|
            0 <= i < kept.len() && 0 <= d < s.len() && !kept.contains(d) implies stays_over(
            #[trigger] s[kept[i]],
            #[trigger] s[d],
        ) by {
            assert(kept[d] == d);
        }
        kept
    } else {
        let n = s.len() as int;
        lemma_first_to_drop(s, n);
        let at = first_to_drop(s, n);
        let less = s.remove(at);
        let inner = the_largest_lobes_stay(less, most);
        let kept = inner.map_values(
            |q: int|
                if q < at {
                    q
                } else {
                    q + 1
                },
        );
        assert forall|i: int| 0 <= i < kept.len() implies 0 <= #[trigger] kept[i] < s.len()
            && trimmed(s, most)[i] == s[kept[i]] && kept[i] != at by {
            assert(0 <= inner[i] < less.len());
            assert(less[inner[i]] == s[kept[i]]);
        }
        assert forall|i: int, d: int|
            0 <= i < kept.len() && 0 <= d < s.len() && !kept.contains(d) implies stays_over(
            #[trigger] s[kept[i]],
            #[trigger] s[d],
        ) by {
            if d == at {
                assert(!dropped_before(s[kept[i]], s[at]));
            } else {
                let e = if d < at {
                    d
                } else {
                    d - 1
                };
                assert(less[e] == s[d]);
                assert(less[inner[i]] == s[kept[i]]);
                if inner.contains(e) {
                    let w = choose|w: int| 0 <= w < inner.len() && inner[w] == e;
                    assert(kept[w] == d);
                }
                assert(stays_over(less[inner[i]], less[e]));
            }
        }
        kept
    }
}

/// Whether a lobe stays rather than another.
pub open spec fn stays_over(a: LobeSize, b: LobeSize) -> bool {
    &&& !a.radius.is_nan() && !b.radius.is_nan() ==> a.radius.at_least(b.radius)
    &&& a.radius == b.radius ==> a.anchor <= b.anchor
}

/// In a round of crown growth every pulled node grows one child, in order, until no room is
/// left.
pub proof fn pulled_nodes_grow_in_order(pulled: Seq<bool>, room: int, i: int, j: int)
    requires
        room >= 0,
        pulled.len() <= 0xffff_ffff,
    ensures
        ({
            let r = round_parents(pulled, room);
            &&& r.len() <= room
            &&& 0 <= i < r.len() ==> r[i] < pulled.len() && pulled[r[i] as int]
            &&& 0 <= i < j < r.len() ==> r[i] < r[j]
            &&& 0 <= j < pulled.len() && pulled[j] ==> r.contains(j as u32) || (r.len() == room && (
            0 <= i < r.len() ==> r[i] < j))
        }),
    decreases pulled.len(),
{
    if pulled.len() > 0 {
        let less = pulled.drop_last();
        let n = pulled.len() - 1;
        let before = round_parents(less, room);
        let r = round_parents(pulled, room);
        pulled_nodes_grow_in_order(less, room, i, j);
        if 0 <= i < before.len() {
            assert(r[i] == before[i]);
        }
        if 0 <= j < before.len() {
            assert(r[j] == before[j]);
        }
        if r.len() > before.len() {
            assert(r[before.len() as int] == n as u32);
            if 0 <= j < less.len() && pulled[j] {
                assert(less[j]);
                let w = choose|w: int| 0 <= w < before.len() && before[w] == j as u32;
                assert(r[w] == before[w]);
            }
        }
    }
}

} // verus!
