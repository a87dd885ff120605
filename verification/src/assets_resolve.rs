//! Filling the nodes that name authored content.
//!
//! Loading is up to the caller: a node's name goes to a loader, and what comes
//! back is stored on the node. Nodes are taken in order of identity and the
//! first failure ends the pass, with the nodes before it filled.
use crate::assets::{quoted, quoted_text, HotReloadError, HotReloadResult};
use crate::canvas_edit::joined;
use crate::graph::Graph;
use crate::node::{Node, NodeKind};
use crate::params::{
    PlaceBlueprintParams, PlaceStructureParams, PlaceTreeParams, ResolvedTree, TreeSpecies,
    WorldPosParams,
};
use crate::slots::{is_key_order, key_order_is_distinct, NodeId};
use crate::voxel::{MaterialId, ResolvedBlueprint};
use vstd::prelude::*;

verus! {

/// Whether a loader may answer a name with an outcome.
pub open spec fn answers<T, F: Fn(&str) -> T>(load: F, name: Seq<char>, outcome: T) -> bool {
    exists|s: &str| s@ == name && #[trigger] call_ensures(load, (s,), outcome)
}

/// Whether a node is a tree source that is not filled yet.
pub open spec fn wants_species(node: Node) -> bool {
    match node.kind {
        NodeKind::PlaceTree(p) => p.resolved is None,
        _ => false,
    }
}

/// Whether a node is what filling a tree source makes of it. Any other node
/// stays.
pub open spec fn species_filled<
    L: Fn(&str) -> HotReloadResult<TreeSpecies>,
    W: Fn(&str) -> Option<MaterialId>,
>(load: L, wood: W, before: Node, after: Node) -> bool {
    match before.kind {
        NodeKind::PlaceTree(p) => if p.resolved is Some {
            after == before
        } else {
            exists|species: TreeSpecies, material: MaterialId| #[trigger]
                answers(load, p.species@, Ok::<TreeSpecies, HotReloadError>(species))
                    && #[trigger] answers(wood, p.wood@, Some(material)) && after == (Node {
                    kind: NodeKind::PlaceTree(
                        PlaceTreeParams {
                            resolved: Some(ResolvedTree { species, wood: material }),
                            ..p
                        },
                    ),
                    position: before.position,
                })
        },
        _ => after == before,
    }
}

/// Whether filling a tree source may fail with an error: the species could not
/// be loaded, or its wood is not known.
pub open spec fn species_fails<
    L: Fn(&str) -> HotReloadResult<TreeSpecies>,
    W: Fn(&str) -> Option<MaterialId>,
>(load: L, wood: W, node: Node, e: HotReloadError) -> bool {
    match node.kind {
        NodeKind::PlaceTree(p) => p.resolved is None && (answers(
            load,
            p.species@,
            Err::<TreeSpecies, HotReloadError>(e),
        ) || (exists|species: TreeSpecies| #[trigger]
            answers(load, p.species@, Ok::<TreeSpecies, HotReloadError>(species))) && answers(
            wood,
            p.wood@,
            None::<MaterialId>,
        ) && e.reason() == "species '"@ + p.species@ + "' names an unknown wood material "@
            + quoted_text(p.wood@)),
        _ => false,
    }
}

/// Whether a pass over the nodes listed by `keys` filled the tree sources among
/// the first `n` and left the others.
pub open spec fn species_pass<
    L: Fn(&str) -> HotReloadResult<TreeSpecies>,
    W: Fn(&str) -> Option<MaterialId>,
>(
    load: L,
    wood: W,
    before: Map<NodeId, Node>,
    after: Map<NodeId, Node>,
    keys: Seq<NodeId>,
    n: int,
) -> bool {
    &&& is_key_order(before, keys)
    &&& 0 <= n <= keys.len()
    &&& after.dom() == before.dom()
    &&& forall|i: int|
        0 <= i < n ==> species_filled(load, wood, before[keys[i]], #[trigger] after[keys[i]])
    &&& forall|i: int|
        n <= i < keys.len() ==> #[trigger] after[keys[i]] == before[keys[i]]
}

/// Fill every tree source with the species and wood it names, as loaded by
/// name. Sources already filled are skipped. The first species that cannot be
/// loaded, or whose wood is not known, ends the pass with an error.
pub fn resolve_species<
    L: Fn(&str) -> HotReloadResult<TreeSpecies>,
    W: Fn(&str) -> Option<MaterialId>,
>(graph: &mut Graph, load: L, wood: W) -> (r: HotReloadResult<()>)
    requires
        forall|s: &str| #[trigger] call_requires(load, (s,)),
        forall|s: &str| #[trigger] call_requires(wood, (s,)),
    ensures
        final(graph).edges == old(graph).edges,
        final(graph).kind == old(graph).kind,
        final(graph).boundary == old(graph).boundary,
        exists|keys: Seq<NodeId>, n: int| #[trigger]
            species_pass(load, wood, old(graph).nodes@, final(graph).nodes@, keys, n) && (match r {
                Ok(_) => n == keys.len(),
                Err(e) => n < keys.len() && species_fails(
                    load,
                    wood,
                    old(graph).nodes@[keys[n]],
                    e,
                ),
            }),
{
    let keys = graph.nodes.keys();
    let ghost before = graph.nodes@;
    proof {
        key_order_is_distinct(before, keys@);
    }
    let mut i: usize = 0;
    while i < keys.len()
        invariant
            forall|s: &str| #[trigger] call_requires(load, (s,)),
            forall|s: &str| #[trigger] call_requires(wood, (s,)),
            i <= keys@.len(),
            keys@.no_duplicates(),
            before == old(graph).nodes@,
            graph.edges == old(graph).edges,
            graph.kind == old(graph).kind,
            graph.boundary == old(graph).boundary,
            species_pass(load, wood, before, graph.nodes@, keys@, i as int),
        decreases keys@.len() - i,
    {
        let id = keys[i];
        assert(graph.nodes@.contains_key(id)) by {
            assert(before.contains_key(keys@[i as int]));
        }
        let ghost current = graph.nodes@;
        assert(current[keys@[i as int]] == before[keys@[i as int]]);
        let mut filling: Option<ResolvedTree> = None;
        if let Some(node) = graph.nodes.get(id) {
            if let NodeKind::PlaceTree(p) = &node.kind {
                if p.resolved.is_none() {
                    let name = p.species.as_str();
                    let outcome = load(name);
                    assert(answers(load, p.species@, outcome)) by {
                        assert(call_ensures(load, (name,), outcome));
                    }
                    let species = match outcome {
                        Ok(s) => s,
                        Err(e) => {
                            assert(species_fails(load, wood, before[keys@[i as int]], e));
                            assert(species_pass(
                                load,
                                wood,
                                before,
                                graph.nodes@,
                                keys@,
                                i as int,
                            ));
                            return Err(e);
                        },
                    };
                    let material_name = p.wood.as_str();
                    let found = wood(material_name);
                    assert(answers(wood, p.wood@, found)) by {
                        assert(call_ensures(wood, (material_name,), found));
                    }
                    match found {
                        Some(m) => {
                            filling = Some(ResolvedTree { species, wood: m });
                        },
                        None => {
                            let mut text = joined("species '", name);
                            text.append("' names an unknown wood material ");
                            text.append(quoted(material_name).as_str());
                            let e = HotReloadError::Blueprint(text);
                            assert(species_fails(load, wood, before[keys@[i as int]], e));
                            assert(species_pass(
                                load,
                                wood,
                                before,
                                graph.nodes@,
                                keys@,
                                i as int,
                            ));
                            return Err(e);
                        },
                    }
                }
            }
        }
        if let Some(tree) = filling {
            let taken = graph.nodes.replace(
                id,
                Node::new(NodeKind::WorldPos(WorldPosParams {  })),
            );
            let position = taken.position;
            let kind = match taken.kind {
                NodeKind::PlaceTree(p) => NodeKind::PlaceTree(
                    PlaceTreeParams { resolved: Some(tree), ..p },
                ),
                other => other,
            };
            graph.nodes.replace(id, Node { kind, position });
        }
        proof {
            assert(graph.nodes@.dom() =~= before.dom());
            assert forall|j: int| 0 <= j < i + 1 implies species_filled(
                load,
                wood,
                before[keys@[j]],
                #[trigger] graph.nodes@[keys@[j]],
            ) by {
                if j < i {
                    assert(graph.nodes@[keys@[j]] == current[keys@[j]]);
                }
            }
            assert forall|j: int| i + 1 <= j < keys@.len() implies #[trigger] graph.nodes@[keys@[j]]
                == before[keys@[j]] by {
                assert(graph.nodes@[keys@[j]] == current[keys@[j]]);
            }
        }
        i = i + 1;
    }
    Ok(())
}

/// Whether a node names a blueprint that is not filled in yet, and which.
pub open spec fn wanted_blueprint(node: Node) -> Option<Seq<char>> {
    match node.kind {
        NodeKind::PlaceBlueprint(p) => if p.resolved is None {
            Some(p.blueprint@)
        } else {
            None
        },
        NodeKind::PlaceStructure(p) => if p.resolved is None {
            Some(p.blueprint@)
        } else {
            None
        },
        _ => None,
    }
}

/// A node with a blueprint filled in.
pub open spec fn with_blueprint(node: Node, blueprint: ResolvedBlueprint) -> Node {
    Node {
        kind: match node.kind {
            NodeKind::PlaceBlueprint(p) => NodeKind::PlaceBlueprint(
                PlaceBlueprintParams { resolved: Some(blueprint), ..p },
            ),
            NodeKind::PlaceStructure(p) => NodeKind::PlaceStructure(
                PlaceStructureParams { resolved: Some(blueprint), ..p },
            ),
            other => other,
        },
        position: node.position,
    }
}

/// Whether a node is what filling in blueprints makes of it.
pub open spec fn blueprint_filled<L: Fn(&str) -> HotReloadResult<ResolvedBlueprint>>(
    load: L,
    before: Node,
    after: Node,
) -> bool {
    match wanted_blueprint(before) {
        Some(name) => exists|blueprint: ResolvedBlueprint| #[trigger]
            answers(load, name, Ok::<ResolvedBlueprint, HotReloadError>(blueprint)) && after
                == with_blueprint(before, blueprint),
        None => after == before,
    }
}

/// Whether a pass over the nodes listed by `keys` filled in the blueprints among
/// the first `n` and left the others.
pub open spec fn blueprint_pass<L: Fn(&str) -> HotReloadResult<ResolvedBlueprint>>(
    load: L,
    before: Map<NodeId, Node>,
    after: Map<NodeId, Node>,
    keys: Seq<NodeId>,
    n: int,
) -> bool {
    &&& is_key_order(before, keys)
    &&& 0 <= n <= keys.len()
    &&& after.dom() == before.dom()
    &&& forall|i: int|
        0 <= i < n ==> blueprint_filled(load, before[keys[i]], #[trigger] after[keys[i]])
    &&& forall|i: int|
        n <= i < keys.len() ==> #[trigger] after[keys[i]] == before[keys[i]]
}

fn unfilled_name(node: &Node) -> (r: Option<&str>)
    ensures
        match (r, wanted_blueprint(*node)) {
            (Some(name), Some(wanted)) => name@ == wanted,
            (None, None) => true,
            _ => false,
        },
{
    match &node.kind {
        NodeKind::PlaceBlueprint(p) => {
            if p.resolved.is_none() {
                Some(p.blueprint.as_str())
            } else {
                None
            }
        },
        NodeKind::PlaceStructure(p) => {
            if p.resolved.is_none() {
                Some(p.blueprint.as_str())
            } else {
                None
            }
        },
        _ => None,
    }
}

/// Fill in every blueprint that a node names, as loaded by name. Nodes already
/// filled are skipped. The first blueprint that cannot be loaded ends the pass
/// with its error.
pub fn resolve_blueprints<L: Fn(&str) -> HotReloadResult<ResolvedBlueprint>>(
    graph: &mut Graph,
    load: L,
) -> (r: HotReloadResult<()>)
    requires
        forall|s: &str| #[trigger] call_requires(load, (s,)),
    ensures
        final(graph).edges == old(graph).edges,
        final(graph).kind == old(graph).kind,
        final(graph).boundary == old(graph).boundary,
        exists|keys: Seq<NodeId>, n: int| #[trigger]
            blueprint_pass(load, old(graph).nodes@, final(graph).nodes@, keys, n) && (match r {
                Ok(_) => n == keys.len(),
                Err(e) => n < keys.len() && (match wanted_blueprint(old(graph).nodes@[keys[n]]) {
                    Some(name) => answers(load, name, Err::<ResolvedBlueprint, HotReloadError>(e)),
                    None => false,
                }),
            }),
{
    let keys = graph.nodes.keys();
    let ghost before = graph.nodes@;
    proof {
        key_order_is_distinct(before, keys@);
    }
    let mut i: usize = 0;
    while i < keys.len()
        invariant
            forall|s: &str| #[trigger] call_requires(load, (s,)),
            i <= keys@.len(),
            keys@.no_duplicates(),
            before == old(graph).nodes@,
            graph.edges == old(graph).edges,
            graph.kind == old(graph).kind,
            graph.boundary == old(graph).boundary,
            blueprint_pass(load, before, graph.nodes@, keys@, i as int),
        decreases keys@.len() - i,
    {
        let id = keys[i];
        assert(graph.nodes@.contains_key(id)) by {
            assert(before.contains_key(keys@[i as int]));
        }
        let ghost current = graph.nodes@;
        assert(current[keys@[i as int]] == before[keys@[i as int]]);
        let mut filling: Option<ResolvedBlueprint> = None;
        if let Some(node) = graph.nodes.get(id) {
            if let Some(name) = unfilled_name(node) {
                let outcome = load(name);
                assert(answers(load, name@, outcome)) by {
                    assert(call_ensures(load, (name,), outcome));
                }
                match outcome {
                    Ok(b) => {
                        filling = Some(b);
                    },
                    Err(e) => {
                        assert(blueprint_pass(load, before, graph.nodes@, keys@, i as int));
                        return Err(e);
                    },
                }
            }
        }
        if let Some(blueprint) = filling {
            let taken = graph.nodes.replace(
                id,
                Node::new(NodeKind::WorldPos(WorldPosParams {  })),
            );
            let position = taken.position;
            let kind = match taken.kind {
                NodeKind::PlaceBlueprint(p) => NodeKind::PlaceBlueprint(
                    PlaceBlueprintParams { resolved: Some(blueprint), ..p },
                ),
                NodeKind::PlaceStructure(p) => NodeKind::PlaceStructure(
                    PlaceStructureParams { resolved: Some(blueprint), ..p },
                ),
                other => other,
            };
            graph.nodes.replace(id, Node { kind, position });
        }
        proof {
            assert(graph.nodes@.dom() =~= before.dom());
            assert forall|j: int| 0 <= j < i + 1 implies blueprint_filled(
                load,
                before[keys@[j]],
                #[trigger] graph.nodes@[keys@[j]],
            ) by {
                if j < i {
                    assert(graph.nodes@[keys@[j]] == current[keys@[j]]);
                }
            }
            assert forall|j: int| i + 1 <= j < keys@.len() implies #[trigger] graph.nodes@[keys@[j]]
                == before[keys@[j]] by {
                assert(graph.nodes@[keys@[j]] == current[keys@[j]]);
            }
        }
        i = i + 1;
    }
    Ok(())
}

/// After a pass that ran to the end, no tree source is left unfilled, and no
/// node lost or changed its kind of work.
pub proof fn passes_leave_no_source_unfilled<
    L: Fn(&str) -> HotReloadResult<TreeSpecies>,
    W: Fn(&str) -> Option<MaterialId>,
>(
    load: L,
    wood: W,
    before: Map<NodeId, Node>,
    after: Map<NodeId, Node>,
    keys: Seq<NodeId>,
    id: NodeId,
)
    requires
        species_pass(load, wood, before, after, keys, keys.len() as int),
        after.contains_key(id),
    ensures
        before.contains_key(id),
        !wants_species(after[id]),
        !wants_species(before[id]) ==> after[id] == before[id],
{
    assert(keys.contains(id));
    let k = choose|k: int| 0 <= k < keys.len() && keys[k] == id;
    assert(species_filled(load, wood, before[keys[k]], after[keys[k]]));
}

/// After a pass that ran to the end, no blueprint is left to fill in.
pub proof fn passes_leave_no_blueprint_unfilled<
    L: Fn(&str) -> HotReloadResult<ResolvedBlueprint>,
>(
    load: L,
    before: Map<NodeId, Node>,
    after: Map<NodeId, Node>,
    keys: Seq<NodeId>,
    id: NodeId,
)
    requires
        blueprint_pass(load, before, after, keys, keys.len() as int),
        after.contains_key(id),
    ensures
        before.contains_key(id),
        wanted_blueprint(after[id]) is None,
        wanted_blueprint(before[id]) is None ==> after[id] == before[id],
{
    assert(keys.contains(id));
    let k = choose|k: int| 0 <= k < keys.len() && keys[k] == id;
    assert(blueprint_filled(load, before[keys[k]], after[keys[k]]));
}

} // verus!
