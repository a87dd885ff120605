//! The branching of a tree: growth, limbs and what hangs from them.
use nodegraph::canopy::{
    count_tips, crown_goes_on, find_limbs, grow_crown, order_limbs, segments, trim_lobes, LobeSize,
};
use nodegraph::params::TreeSpecies;
use nodegraph::scalar::Single;
use nodegraph::skeleton::{divide_limbs, node_budget, sprout, Habit, MAX_NODES, NO_PARENT};

fn single(v: f32) -> Single {
    Single::from_bits(v.to_bits())
}

fn oak() -> Habit {
    let species = TreeSpecies::default();
    Habit {
        axis_steps: species.axis_steps,
        max_order: species.max_order,
        laterals: species.laterals,
    }
}

fn parents(habit: Habit, age: f32) -> Vec<u32> {
    sprout(habit, node_budget(single(age))).iter().map(|s| s.parent).collect()
}

#[test]
fn a_child_never_precedes_its_parent() {
    let nodes = parents(oak(), 1.0);
    assert!(nodes.len() > 1);
    for (i, &p) in nodes.iter().enumerate() {
        if p != NO_PARENT {
            assert!((p as usize) < i, "node {i} has parent {p}");
        }
    }
}

#[test]
fn the_heavy_chain_follows_the_greatest_subtree_mass() {
    // Walk chain 0 from the root. At each step the node it continued into must be
    // no lighter than any of its siblings.
    let parent = parents(oak(), 1.0);
    let (nodes, chains) = divide_limbs(&parent);
    let mut children = vec![Vec::new(); parent.len()];
    for (i, &p) in parent.iter().enumerate() {
        if p != NO_PARENT {
            children[p as usize].push(i);
        }
    }
    let mut cur = 0usize;
    let mut steps = 0;
    while let Some(&next) = children[cur].iter().find(|&&c| nodes[c].chain == nodes[cur].chain) {
        for &sib in &children[cur] {
            assert!(
                nodes[sib].weight <= nodes[next].weight,
                "chain left {cur} for {next} while sibling {sib} is heavier",
            );
        }
        cur = next;
        steps += 1;
    }
    assert!(steps > 0, "vacuous: chain 0 has no second node");
    assert!(chains >= 1);
    assert_eq!(nodes[0].weight as usize, parent.len(), "the root carries every node");
}

#[test]
fn the_node_cap_bounds_every_age() {
    for age in [0.0, 0.25, 0.5, 1.0, 2.0] {
        let nodes = parents(oak(), age);
        assert!(!nodes.is_empty(), "age {age} produced no root");
        assert!(nodes.len() <= MAX_NODES, "age {age} exceeded the cap");
    }
    assert_eq!(node_budget(single(0.0)), 1);
    assert_eq!(node_budget(single(0.5)), MAX_NODES / 2);
    assert_eq!(node_budget(single(1.0)), MAX_NODES);
    assert_eq!(node_budget(single(2.0)), MAX_NODES);
    assert_eq!(node_budget(single(f32::NAN)), 1);
}

#[test]
fn segments_pair_every_node_with_its_parent() {
    let parent = parents(oak(), 1.0);
    let segs = segments(&parent);
    assert_eq!(segs.len(), parent.len() - 1, "one segment per non-root node");
    assert!(segs.iter().all(|g| g.0 != g.1), "a segment must have length");
}

#[test]
fn a_bare_oak_ends_on_its_own() {
    // The root, five internodes, a five-node lateral off each, and five more off those.
    // 1 + 5 + 25 + 125.
    assert_eq!(parents(oak(), 1.0).len(), 156);
}

#[test]
fn a_smaller_budget_gives_a_prefix() {
    let bushy = Habit { axis_steps: 9, max_order: 3, laterals: 3 };
    let young = sprout(bushy, 40);
    let old = sprout(bushy, 400);
    assert_eq!(young.len(), 40);
    assert_eq!(young[..], old[..40]);
}

#[test]
fn limbs_are_supplied_by_their_first_node() {
    // 0 - 1 - 2 with 3 hanging off 0.
    let parent = vec![NO_PARENT, 0, 1, 0];
    let (nodes, chains) = divide_limbs(&parent);
    assert_eq!(chains, 2);
    assert_eq!(nodes.iter().map(|n| n.chain).collect::<Vec<_>>(), vec![0, 0, 0, 1]);
    assert_eq!(nodes.iter().map(|n| n.chain_idx).collect::<Vec<_>>(), vec![0, 1, 2, 0]);
    let radii = vec![single(3.0), single(2.0), single(1.0), single(1.5)];
    let limbs = find_limbs(&nodes, &radii, chains);
    assert_eq!(limbs[0].terminal, 2);
    assert_eq!(limbs[0].supply, single(3.0));
    assert_eq!(limbs[1].terminal, 3);
    assert_eq!(limbs[1].supply, single(1.5));
    let ordered = order_limbs(&vec![limbs[1], limbs[0]]);
    assert_eq!(ordered[0].supply, single(3.0));
    assert_eq!(count_tips(&parent), 2);
}

#[test]
fn the_smallest_lobes_go_first() {
    let lobes = vec![
        LobeSize { radius: single(2.0), anchor: 1 },
        LobeSize { radius: single(0.5), anchor: 2 },
        LobeSize { radius: single(1.0), anchor: 3 },
        LobeSize { radius: single(0.5), anchor: 4 },
    ];
    let kept = trim_lobes(lobes, 2);
    assert_eq!(kept.iter().map(|l| l.anchor).collect::<Vec<_>>(), vec![1, 3]);
}

#[test]
fn crown_growth_stops_at_the_budget() {
    let pulled = vec![true, false, true, true];
    assert_eq!(grow_crown(&pulled, 10), vec![0, 2, 3]);
    assert_eq!(grow_crown(&pulled, 5), vec![0]);
    assert!(grow_crown(&pulled, 4).is_empty());
}

#[test]
fn a_larger_budget_adds_behind() {
    let pulled = vec![true, false, true, true, true];
    let most = grow_crown(&pulled, 10);
    assert_eq!(most, vec![0, 2, 3, 4]);
    for budget in 5..10 {
        let some = grow_crown(&pulled, budget);
        assert_eq!(some, most[..some.len()], "budget {budget}");
        assert_eq!(some.len(), (budget - 5).min(4));
    }
}

#[test]
fn budgets_rise_with_age() {
    let ages = [-1.0, 0.0, 1e-30, 0.001, 0.002, 0.0021, 0.3, 0.9999, 1.0, 5.0];
    let budgets: Vec<usize> = ages.iter().map(|a| node_budget(single(*a))).collect();
    assert_eq!(budgets, [1, 1, 1, 1, 2, 2, 154, 512, 512, 512]);
}

#[test]
fn a_crown_stops_for_any_of_three_reasons() {
    assert!(crown_goes_on(0, 10, 11, 1));
    assert!(crown_goes_on(63, 10, 11, 1));
    assert!(!crown_goes_on(64, 10, 11, 1), "the rounds are over");
    assert!(!crown_goes_on(0, 11, 11, 1), "the budget is spent");
    assert!(!crown_goes_on(0, 10, 11, 0), "nothing attracts growth");
}

#[test]
fn trimming_leaves_no_more_than_allowed() {
    let lobes = |n: u32| -> Vec<LobeSize> {
        (0..n).map(|i| LobeSize { radius: single(i as f32), anchor: i }).collect()
    };
    for most in [0u8, 2, 5, 9] {
        assert_eq!(trim_lobes(lobes(5), most).len(), 5.min(most as usize));
    }
}
