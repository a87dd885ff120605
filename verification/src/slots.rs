//! Node identities and the tables keyed by them.
//!
//! Nodes live in a generational slot map: an identity is a slot and the
//! generation the slot had when the node was inserted, so an identity that was
//! removed does not come to mean another node until its slot has been used again
//! some two thousand million times, when generations wrap.
use crate::node::Node;
use slotmap::{DefaultKey, Key, KeyData, SecondaryMap, SlotMap};
use vstd::prelude::*;

verus! {

/// Stable identifier of a node. Edges reference nodes by it.
#[derive(Clone, Copy, PartialEq, Eq, Structural, Hash, Debug)]
pub struct NodeId {
    raw: u64,
}

impl NodeId {
    /// The identity as one integer.
    pub closed spec fn code(self) -> u64 {
        self.raw
    }

    /// The slot of the identity.
    pub open spec fn slot(self) -> int {
        self.code() as int % 0x1_0000_0000
    }

    /// The generation of the identity.
    pub open spec fn version(self) -> int {
        self.code() as int / 0x1_0000_0000
    }

    /// What integers are identities: the generation of an occupied slot is odd,
    /// and the last slot is never used.
    pub open spec fn is_code(code: u64) -> bool {
        (code as int / 0x1_0000_0000) % 2 == 1 && code as int % 0x1_0000_0000 != 0xffff_ffff
    }

    #[verifier::type_invariant]
    spec fn keyed(self) -> bool {
        NodeId::is_code(self.raw)
    }

    /// The identity as one integer.
    pub fn to_code(self) -> (r: u64)
        ensures
            r == self.code(),
            NodeId::is_code(r),
    {
        proof {
            use_type_invariant(self);
        }
        self.raw
    }

    /// The identity an integer stands for, if it stands for one.
    pub fn from_code(code: u64) -> (r: Option<NodeId>)
        ensures
            match r {
                Some(id) => NodeId::is_code(code) && id.code() == code,
                None => !NodeId::is_code(code),
            },
    {
        if (code / 0x1_0000_0000) % 2 == 1 && code % 0x1_0000_0000 != 0xffff_ffff {
            Some(NodeId { raw: code })
        } else {
            None
        }
    }
}

/// Identities are the same exactly when their integers are, and an integer is
/// determined by its slot and generation.
pub proof fn code_identifies(a: NodeId, b: NodeId)
    ensures
        a.code() == b.code() <==> a == b,
        a.slot() == b.slot() && a.version() == b.version() <==> a == b,
{
    assert(a.code() as int == a.version() * 0x1_0000_0000 + a.slot());
    assert(b.code() as int == b.version() * 0x1_0000_0000 + b.slot());
}

/// The node table: a `slotmap::SlotMap` from identities to nodes.
#[derive(Debug)]
#[verifier::external_body]
pub struct NodeMap {
    map: SlotMap<DefaultKey, Node>,
}

/// What a node table holds.
pub uninterp spec fn slot_nodes(m: NodeMap) -> Map<NodeId, Node>;

/// Wraps `slotmap::SlotMap::new`: the new table is empty.
#[verifier::external_body]
fn slot_new() -> (r: NodeMap)
    ensures
        slot_nodes(r).dom() == Set::<NodeId>::empty(),
{
    NodeMap { map: SlotMap::new() }
}

/// Wraps `slotmap::SlotMap::insert`: the value is stored under a key that was
/// not in the table, and everything else stays. The call panics on a table with
/// no slot left, which the precondition excludes.
#[verifier::external_body]
fn slot_insert(m: &mut NodeMap, node: Node) -> (r: NodeId)
    requires
        slot_nodes(*old(m)).len() < 0xffff_fffe,
    ensures
        !slot_nodes(*old(m)).contains_key(r),
        slot_nodes(*final(m)) == slot_nodes(*old(m)).insert(r, node),
{
    NodeId { raw: m.map.insert(node).data().as_ffi() }
}

/// Wraps `slotmap::SlotMap::get`: the value under the key, if the key is in the
/// table.
#[verifier::external_body]
fn slot_get(m: &NodeMap, id: NodeId) -> (r: Option<&Node>)
    ensures
        r == (if slot_nodes(*m).contains_key(id) {
            Some(&slot_nodes(*m)[id])
        } else {
            None
        }),
{
    m.map.get(DefaultKey::from(KeyData::from_ffi(id.raw)))
}

/// Wraps `slotmap::SlotMap::remove`: the value under the key leaves the table,
/// if the key is in it, and everything else stays.
#[verifier::external_body]
fn slot_remove(m: &mut NodeMap, id: NodeId) -> (r: Option<Node>)
    ensures
        r == (if slot_nodes(*old(m)).contains_key(id) {
            Some(slot_nodes(*old(m))[id])
        } else {
            None
        }),
        slot_nodes(*final(m)) == slot_nodes(*old(m)).remove(id),
{
    m.map.remove(DefaultKey::from(KeyData::from_ffi(id.raw)))
}

/// Wraps the mutable indexing of `slotmap::SlotMap`: the value under a present
/// key is replaced and handed back. Indexing with an absent key panics, which
/// the precondition excludes.
#[verifier::external_body]
fn slot_replace(m: &mut NodeMap, id: NodeId, node: Node) -> (r: Node)
    requires
        slot_nodes(*old(m)).contains_key(id),
    ensures
        r == slot_nodes(*old(m))[id],
        slot_nodes(*final(m)) == slot_nodes(*old(m)).insert(id, node),
{
    std::mem::replace(&mut m.map[DefaultKey::from(KeyData::from_ffi(id.raw))], node)
}

/// Wraps `slotmap::SlotMap::len`: how many keys the table holds.
#[verifier::external_body]
fn slot_len(m: &NodeMap) -> (r: usize)
    ensures
        r == slot_nodes(*m).len(),
{
    m.map.len()
}

/// Wraps `slotmap::SlotMap::keys`: every key of the table, by ascending slot.
/// No two keys in a table share a slot.
#[verifier::external_body]
fn slot_keys(m: &NodeMap) -> (r: Vec<NodeId>)
    ensures
        is_key_order(slot_nodes(*m), r@),
{
    m.map.keys().map(|k| NodeId { raw: k.data().as_ffi() }).collect()
}

/// Wraps the clone of `slotmap::SlotMap`: the same keys, each with a clone of
/// its value.
#[verifier::external_body]
fn slot_clone(m: &NodeMap) -> (r: NodeMap)
    ensures
        slot_nodes(r).dom() == slot_nodes(*m).dom(),
        forall|id: NodeId|
            slot_nodes(*m).contains_key(id) ==> slot_nodes(*m)[id].same(
                #[trigger] slot_nodes(r)[id],
            ),
{
    NodeMap { map: m.map.clone() }
}

/// Whether a sequence lists the keys of a table by ascending slot.
pub open spec fn is_key_order(nodes: Map<NodeId, Node>, keys: Seq<NodeId>) -> bool {
    &&& forall|i: int| 0 <= i < keys.len() ==> nodes.contains_key(#[trigger] keys[i])
    &&& forall|id: NodeId| nodes.contains_key(id) ==> keys.contains(id)
    &&& forall|i: int, j: int|
        0 <= i < j < keys.len() ==> (#[trigger] keys[i]).slot() < (#[trigger] keys[j]).slot()
}

/// A key order has no repetition.
pub proof fn key_order_is_distinct(nodes: Map<NodeId, Node>, keys: Seq<NodeId>)
    requires
        is_key_order(nodes, keys),
    ensures
        keys.no_duplicates(),
        nodes.dom() == keys.to_set(),
        nodes.dom().finite(),
        nodes.len() == keys.len(),
{
    assert forall|i: int, j: int| 0 <= i < keys.len() && 0 <= j < keys.len() && i != j implies keys[i]
        != keys[j] by {
        if i < j {
            assert(keys[i].slot() < keys[j].slot());
        } else {
            assert(keys[j].slot() < keys[i].slot());
        }
    }
    assert(nodes.dom() =~= keys.to_set());
    keys.unique_seq_to_set();
}

/// The key order of a table is unique.
pub proof fn key_order_is_unique(nodes: Map<NodeId, Node>, a: Seq<NodeId>, b: Seq<NodeId>)
    requires
        is_key_order(nodes, a),
        is_key_order(nodes, b),
    ensures
        a == b,
{
    key_order_is_distinct(nodes, a);
    key_order_is_distinct(nodes, b);
    lemma_key_orders_agree(nodes, a, b, a.len() as int);
    assert(a =~= b);
}

proof fn lemma_key_orders_agree(
    nodes: Map<NodeId, Node>,
    a: Seq<NodeId>,
    b: Seq<NodeId>,
    n: int,
)
    requires
        is_key_order(nodes, a),
        is_key_order(nodes, b),
        a.len() == b.len(),
        0 <= n <= a.len(),
    ensures
        forall|i: int| 0 <= i < n ==> a[i] == b[i],
    decreases n,
{
    if n > 0 {
        lemma_key_orders_agree(nodes, a, b, n - 1);
        let k = n - 1;
        let j = choose|j: int| 0 <= j < b.len() && b[j] == a[k];
        assert(b.contains(a[k]));
        if j < k {
            assert(a[j].slot() < a[k].slot());
        }
        if j > k {
            let i = choose|i: int| 0 <= i < a.len() && a[i] == b[k];
            assert(a.contains(b[k]));
            assert(b[k].slot() < b[j].slot());
            if i < k {
                assert(b[i].slot() < b[k].slot());
            } else if i > k {
                assert(a[k].slot() < a[i].slot());
            }
        }
    }
}

impl NodeMap {
    /// What the table holds.
    pub open spec fn view(&self) -> Map<NodeId, Node> {
        slot_nodes(*self)
    }

    /// An empty table.
    pub fn new() -> (r: NodeMap)
        ensures
            r@ == Map::<NodeId, Node>::empty(),
    {
        let r = slot_new();
        assert(r@ =~= Map::<NodeId, Node>::empty());
        r
    }

    /// Insert a node under a fresh identity.
    pub fn insert(&mut self, node: Node) -> (r: NodeId)
        requires
            old(self)@.len() < 0xffff_fffe,
        ensures
            !old(self)@.contains_key(r),
            final(self)@ == old(self)@.insert(r, node),
    {
        slot_insert(self, node)
    }

    /// The node with this identity, if it is in the table.
    pub fn get(&self, id: NodeId) -> (r: Option<&Node>)
        ensures
            r == (if self@.contains_key(id) {
                Some(&self@[id])
            } else {
                None
            }),
    {
        slot_get(self, id)
    }

    /// Whether the table holds this identity.
    pub fn contains_key(&self, id: NodeId) -> (r: bool)
        ensures
            r == self@.contains_key(id),
    {
        slot_get(self, id).is_some()
    }

    /// Remove a node.
    pub fn remove(&mut self, id: NodeId) -> (r: Option<Node>)
        ensures
            r == (if old(self)@.contains_key(id) {
                Some(old(self)@[id])
            } else {
                None
            }),
            final(self)@ == old(self)@.remove(id),
    {
        slot_remove(self, id)
    }

    /// Replace a node in place.
    pub fn replace(&mut self, id: NodeId, node: Node) -> (r: Node)
        requires
            old(self)@.contains_key(id),
        ensures
            r == old(self)@[id],
            final(self)@ == old(self)@.insert(id, node),
    {
        slot_replace(self, id, node)
    }

    /// How many nodes the table holds.
    pub fn len(&self) -> (r: usize)
        ensures
            r == self@.len(),
    {
        slot_len(self)
    }

    /// Whether the table holds no node.
    pub fn is_empty(&self) -> (r: bool)
        ensures
            r == (self@ == Map::<NodeId, Node>::empty()),
    {
        let keys = slot_keys(self);
        proof {
            if keys@.len() == 0 {
                assert forall|id: NodeId| !self@.contains_key(id) by {
                    assert(!keys@.contains(id));
                }
                assert(self@ =~= Map::<NodeId, Node>::empty());
            } else {
                assert(self@.contains_key(keys@[0]));
            }
        }
        keys.len() == 0
    }

    /// Every identity, by ascending slot.
    pub fn keys(&self) -> (r: Vec<NodeId>)
        ensures
            is_key_order(self@, r@),
    {
        slot_keys(self)
    }
}

impl Clone for NodeMap {
    fn clone(&self) -> (r: Self)
        ensures
            r@.dom() == self@.dom(),
            forall|id: NodeId| self@.contains_key(id) ==> self@[id].same(#[trigger] r@[id]),
    {
        slot_clone(self)
    }
}

/// A `slotmap::SecondaryMap` from node identities to windows of a flat list.
#[derive(Debug)]
#[verifier::external_body]
pub struct WindowMap {
    map: SecondaryMap<DefaultKey, (u32, u32)>,
}

/// What a window map holds.
pub uninterp spec fn window_entries(m: WindowMap) -> Map<NodeId, (u32, u32)>;

/// Whether generation `a` of a slot counts as older than generation `b`:
/// generations wrap around, so age is measured the short way.
pub open spec fn older(a: int, b: int) -> bool {
    (a - b) % 0x1_0000_0000 >= 0x8000_0000
}

/// A window map after storing a value: a slot holds one key, and an older key
/// neither replaces a newer one nor stays beside it.
pub open spec fn after_insert(
    m: Map<NodeId, (u32, u32)>,
    id: NodeId,
    value: (u32, u32),
) -> Map<NodeId, (u32, u32)> {
    if m.contains_key(id) {
        m.insert(id, value)
    } else if exists|k: NodeId| #[trigger]
        m.contains_key(k) && k.slot() == id.slot() && older(id.version(), k.version()) {
        m
    } else {
        Map::new(|k: NodeId| m.contains_key(k) && k.slot() != id.slot(), |k: NodeId| m[k]).insert(
            id,
            value,
        )
    }
}

/// Wraps `slotmap::SecondaryMap::new`: the new map is empty.
#[verifier::external_body]
fn window_new() -> (r: WindowMap)
    ensures
        window_entries(r).dom() == Set::<NodeId>::empty(),
{
    WindowMap { map: SecondaryMap::new() }
}

/// Wraps `slotmap::SecondaryMap::get`: the value under the key, if the key is
/// in the map.
#[verifier::external_body]
fn window_get(m: &WindowMap, id: NodeId) -> (r: Option<(u32, u32)>)
    ensures
        r == (if window_entries(*m).contains_key(id) {
            Some(window_entries(*m)[id])
        } else {
            None
        }),
{
    m.map.get(DefaultKey::from(KeyData::from_ffi(id.raw))).copied()
}

/// Wraps `slotmap::SecondaryMap::insert`: the value is stored under the key
/// unless the key's slot holds a newer key, and an older key in that slot goes.
#[verifier::external_body]
fn window_insert(m: &mut WindowMap, id: NodeId, value: (u32, u32))
    ensures
        window_entries(*final(m)) == after_insert(window_entries(*old(m)), id, value),
{
    let _ = m.map.insert(DefaultKey::from(KeyData::from_ffi(id.raw)), value);
}

impl WindowMap {
    /// What the map holds.
    pub open spec fn view(&self) -> Map<NodeId, (u32, u32)> {
        window_entries(*self)
    }

    /// An empty map.
    pub fn new() -> (r: WindowMap)
        ensures
            r@ == Map::<NodeId, (u32, u32)>::empty(),
    {
        let r = window_new();
        assert(r@ =~= Map::<NodeId, (u32, u32)>::empty());
        r
    }

    /// The window of a node, if the map holds one.
    pub fn get(&self, id: NodeId) -> (r: Option<(u32, u32)>)
        ensures
            r == (if self@.contains_key(id) {
                Some(self@[id])
            } else {
                None
            }),
    {
        window_get(self, id)
    }

    /// Store the window of a node.
    pub fn insert(&mut self, id: NodeId, window: (u32, u32))
        ensures
            final(self)@ == after_insert(old(self)@, id, window),
    {
        window_insert(self, id, window)
    }
}

} // verus!
