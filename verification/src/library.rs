//! Library graphs: reusable sub-graphs that `LibraryRef` nodes refer to, and a
//! registry of them.
use crate::cycle::{find_cycle, ordered_links, reports_cycle, table_refs};
use crate::graph::{library_targets, Graph};
use crate::ids::LibraryGraphId;
use crate::node::Node;
use crate::slots::{is_key_order, NodeId};
use crate::sort::{lists, sorted_distinct};
use std::collections::HashMap;
use vstd::prelude::*;
use vstd::std_specs::iter::IteratorSpec;

verus! {

broadcast use vstd::std_specs::hash::group_hash_axioms;

/// Library graphs by id.
#[derive(Clone, Debug)]
pub struct LibraryGraphRegistry {
    graphs: HashMap<u32, Graph>,
}

/// Whether a node refers to a library.
pub open spec fn names_library(node: Node, library: u32) -> bool {
    node.kind is LibraryRef && node.kind->LibraryRef_0.library.0 == library
}

/// The libraries that a graph's nodes refer to.
pub open spec fn libraries_named(nodes: Map<NodeId, Node>) -> Set<u32> {
    Set::new(
        |x: u32|
            exists|id: NodeId|
                nodes.contains_key(id) && names_library(#[trigger] nodes[id], x),
    )
}

/// Which libraries each registered library refers to.
pub open spec fn library_links(graphs: Map<u32, Graph>) -> Map<u32, Set<u32>> {
    graphs.map_values(|g: Graph| libraries_named(g.nodes@))
}

proof fn lemma_targets_are_named(nodes: Map<NodeId, Node>, keys: Seq<NodeId>, x: u32)
    ensures
        (exists|i: int|
            0 <= i < library_targets(nodes, keys).len() && (#[trigger] library_targets(
                nodes,
                keys,
            )[i]).0 == x) <==> (exists|k: int|
            0 <= k < keys.len() && names_library(nodes[#[trigger] keys[k]], x)),
    decreases keys.len(),
{
    if keys.len() > 0 {
        let short = keys.drop_last();
        lemma_targets_are_named(nodes, short, x);
        let all = library_targets(nodes, keys);
        let rest = library_targets(nodes, short);
        if exists|i: int| 0 <= i < all.len() && (#[trigger] all[i]).0 == x {
            let i = choose|i: int| 0 <= i < all.len() && (#[trigger] all[i]).0 == x;
            if i < rest.len() {
                assert(rest[i].0 == x);
                let k = choose|k: int|
                    0 <= k < short.len() && names_library(nodes[#[trigger] short[k]], x);
                assert(names_library(nodes[keys[k]], x));
            } else {
                assert(names_library(nodes[keys[keys.len() - 1]], x));
            }
        }
        if exists|k: int| 0 <= k < keys.len() && names_library(nodes[#[trigger] keys[k]], x) {
            let k = choose|k: int|
                0 <= k < keys.len() && names_library(nodes[#[trigger] keys[k]], x);
            if k < short.len() {
                assert(names_library(nodes[short[k]], x));
                let i = choose|i: int| 0 <= i < rest.len() && (#[trigger] rest[i]).0 == x;
                assert(all[i].0 == x);
            } else {
                assert(all[rest.len() as int].0 == x);
            }
        }
    }
}

/// The libraries a graph refers to, each once, ascending.
fn references(graph: &Graph) -> (r: Vec<u32>)
    ensures
        lists(r@, libraries_named(graph.nodes@)),
{
    let named = graph.library_refs();
    let mut raw: Vec<u32> = Vec::new();
    let mut k: usize = 0;
    while k < named.len()
        invariant
            k <= named@.len(),
            raw@.len() == k,
            forall|i: int| 0 <= i < k ==> raw@[i] == (#[trigger] named@[i]).0,
        decreases named@.len() - k,
    {
        raw.push(named[k].0);
        k = k + 1;
    }
    let r = sorted_distinct(&raw);
    proof {
        let nodes = graph.nodes@;
        let keys = choose|keys: Seq<NodeId>| #[trigger]
            is_key_order(nodes, keys) && named@ == library_targets(nodes, keys);
        assert forall|x: u32| libraries_named(nodes).contains(x) <==> r@.contains(x) by {
            lemma_targets_are_named(nodes, keys, x);
            if libraries_named(nodes).contains(x) {
                let id = choose|id: NodeId|
                    nodes.contains_key(id) && names_library(#[trigger] nodes[id], x);
                assert(keys.contains(id));
                let k = choose|k: int| 0 <= k < keys.len() && keys[k] == id;
                assert(names_library(nodes[keys[k]], x));
                let i = choose|i: int| 0 <= i < named@.len() && (#[trigger] named@[i]).0 == x;
                assert(raw@[i] == x);
                assert(raw@.to_set().contains(x));
            }
            if r@.contains(x) {
                assert(raw@.to_set().contains(x));
                let i = choose|i: int| 0 <= i < raw@.len() && raw@[i] == x;
                assert(named@[i].0 == x);
                let k = choose|k: int|
                    0 <= k < keys.len() && names_library(nodes[#[trigger] keys[k]], x);
                assert(nodes.contains_key(keys[k]));
                assert(names_library(nodes[keys[k]], x));
            }
        }
    }
    r
}

/// The ids that integers stand for.
pub open spec fn library_ids(codes: Seq<u32>) -> Seq<LibraryGraphId> {
    codes.map_values(|c: u32| LibraryGraphId(c))
}

fn to_ids(codes: &Vec<u32>) -> (r: Vec<LibraryGraphId>)
    ensures
        r@ == library_ids(codes@),
{
    let mut out: Vec<LibraryGraphId> = Vec::new();
    let mut k: usize = 0;
    while k < codes.len()
        invariant
            k <= codes@.len(),
            out@.len() == k,
            forall|i: int| 0 <= i < k ==> out@[i] == LibraryGraphId(#[trigger] codes@[i]),
        decreases codes@.len() - k,
    {
        out.push(LibraryGraphId(codes[k]));
        k = k + 1;
    }
    assert(out@ =~= library_ids(codes@));
    out
}

impl Default for LibraryGraphRegistry {
    fn default() -> (r: Self)
        ensures
            r@ == Map::<u32, Graph>::empty(),
    {
        LibraryGraphRegistry::new()
    }
}

impl LibraryGraphRegistry {
    /// The graphs by id.
    pub closed spec fn view(&self) -> Map<u32, Graph> {
        self.graphs@
    }

    /// Empty registry.
    pub fn new() -> (r: Self)
        ensures
            r@ == Map::<u32, Graph>::empty(),
    {
        LibraryGraphRegistry { graphs: HashMap::new() }
    }

    /// Insert or replace the library graph under an id; the graph that was there
    /// comes back.
    pub fn insert(&mut self, id: LibraryGraphId, graph: Graph) -> (r: Option<Graph>)
        ensures
            final(self)@ == old(self)@.insert(id.0, graph),
            r == (if old(self)@.contains_key(id.0) {
                Some(old(self)@[id.0])
            } else {
                None
            }),
    {
        self.graphs.insert(id.0, graph)
    }

    /// The graph registered under an id, if any.
    pub fn get(&self, id: LibraryGraphId) -> (r: Option<&Graph>)
        ensures
            r == (if self@.contains_key(id.0) {
                Some(&self@[id.0])
            } else {
                None
            }),
    {
        self.graphs.get(&id.0)
    }

    /// Whether an id is registered.
    pub fn contains(&self, id: LibraryGraphId) -> (r: bool)
        ensures
            r == self@.contains_key(id.0),
    {
        self.graphs.contains_key(&id.0)
    }

    /// How many library graphs are registered.
    pub fn len(&self) -> (r: usize)
        ensures
            r == self@.len(),
    {
        self.graphs.len()
    }

    /// Whether no library graph is registered.
    pub fn is_empty(&self) -> (r: bool)
        ensures
            r == self@.is_empty(),
    {
        self.graphs.is_empty()
    }

    /// The ids on a cycle of library references, or `None` if there is no cycle.
    ///
    /// Ids and each library's references are taken in ascending order, so the
    /// reported cycle is deterministic. A reference to an unregistered id is
    /// skipped.
    pub fn detect_cycle(&self) -> (r: Option<Vec<LibraryGraphId>>)
        ensures
            exists|found: Option<Seq<u32>>| #[trigger]
                reports_cycle(library_links(self@), found) && (match r {
                    Some(c) => found is Some && c@ == library_ids(found->0),
                    None => found is None,
                }),
    {
        let mut raw: Vec<u32> = Vec::new();
        let ghost all = vstd::std_specs::hash::spec_keys_iter(&self.graphs).remaining().unref();
        for key in it: self.graphs.keys()
            invariant
                it.seq().unref() == all,
                raw@ == all.take(it.index() as int),
        {
            raw.push(*key);
            assert(raw@ =~= all.take(it.index() + 1));
        }
        assert(raw@ =~= all);
        let ids = sorted_distinct(&raw);
        let ghost links = library_links(self@);
        proof {
            assert(raw@.to_set() =~= self@.dom());
            assert(links.dom() =~= self@.dom());
        }
        let mut table: HashMap<u32, Vec<u32>> = HashMap::new();
        let mut k: usize = 0;
        while k < ids.len()
            invariant
                k <= ids@.len(),
                lists(ids@, self@.dom()),
                links == library_links(self@),
                forall|x: u32| #[trigger]
                    table@.contains_key(x) <==> exists|i: int| 0 <= i < k && ids@[i] == x,
                forall|x: u32| #[trigger]
                    table@.contains_key(x) ==> lists(table@[x]@, links[x]),
            decreases ids@.len() - k,
        {
            let id: u32 = ids[k];
            assert(ids@.contains(id));
            if let Some(graph) = self.graphs.get(&id) {
                let ghost before = table@;
                table.insert(id, references(graph));
                proof {
                    assert(links[id] == libraries_named(graph.nodes@));
                    assert forall|x: u32| #[trigger]
                        table@.contains_key(x) <==> exists|i: int|
                            0 <= i < k + 1 && ids@[i] == x by {
                        if before.contains_key(x) {
                            let i = choose|i: int| 0 <= i < k && ids@[i] == x;
                            assert(0 <= i < k + 1 && ids@[i] == x);
                        }
                        if x == id {
                            assert(ids@[k as int] == x);
                        }
                    }
                }
            }
            k = k + 1;
        }
        let ghost refs = table_refs(table@);
        proof {
            assert forall|x: u32| table@.contains_key(x) <==> ids@.contains(x) by {}
            assert(refs.dom() =~= links.dom());
            assert(ordered_links(links, refs, ids@));
        }
        match find_cycle(&table, &ids) {
            Some(codes) => {
                let c = to_ids(&codes);
                assert(reports_cycle(links, Some(codes@)));
                Some(c)
            },
            None => {
                assert(reports_cycle(links, None));
                None
            },
        }
    }
}

} // verus!
