//! The feature sources that zone graphs declare.
use crate::eval_error::{EvalError, EvalResult};
use crate::feature::{FeatureCanopy, FeaturePayload, FeatureSource, TreeSource};
use crate::node::{Node, NodeKind};
use crate::params::{copy_vec, TreeSpecies};
use crate::scalar::Single;
use crate::slots::{is_key_order, key_order_is_unique, NodeId};
use crate::text::{
    is_text_before, text_before, text_order_is_strict_and_total, text_order_is_transitive,
};
use crate::voxel::{BlueprintView, MaterialId};
use crate::world::{WorldEvaluator, ZoneGraph};
use vstd::prelude::*;

verus! {

/// What a source places, as values.
pub enum PayloadView {
    /// An authored template.
    Blueprint(BlueprintView),
    /// A tree.
    Tree {
        /// Name of the source.
        name: Seq<char>,
        /// Shape parameters.
        species: TreeSpecies,
        /// Material of the wood.
        wood: MaterialId,
        /// Maturity.
        age: Single,
    },
}

/// A feature source, as values.
pub struct SourceView {
    /// Edge of a grid cell.
    pub cell_size: i32,
    /// Chance that a cell produces a feature.
    pub density: Single,
    /// Seed of the source.
    pub seed: u32,
    /// Zones the source appears in.
    pub zones: Seq<u16>,
    /// Biomes the source appears in.
    pub biomes: Seq<u16>,
    /// Whether each occurrence takes a random quarter turn.
    pub random_yaw: bool,
    /// How far above the surface the anchor lands.
    pub surface_offset: i32,
    /// What each occurrence places.
    pub payload: PayloadView,
    /// Foliage that each occurrence anchors.
    pub canopy: Option<FeatureCanopy>,
}

impl SourceView {
    /// Name of what is placed.
    pub open spec fn name(self) -> Seq<char> {
        match self.payload {
            PayloadView::Blueprint(b) => b.name,
            PayloadView::Tree { name, .. } => name,
        }
    }
}

impl FeatureSource {
    /// The source, as values.
    pub open spec fn view(&self) -> SourceView {
        SourceView {
            cell_size: self.cell_size,
            density: self.density,
            seed: self.seed,
            zones: self.zones@,
            biomes: self.biomes@,
            random_yaw: self.random_yaw,
            surface_offset: self.surface_offset,
            payload: match self.payload {
                FeaturePayload::Blueprint(bp) => PayloadView::Blueprint(bp@),
                FeaturePayload::Tree(t) => PayloadView::Tree {
                    name: t.name@,
                    species: t.species,
                    wood: t.wood,
                    age: t.age,
                },
            },
            canopy: self.canopy,
        }
    }
}

/// The sources, as values.
pub open spec fn source_views(s: Seq<FeatureSource>) -> Seq<SourceView> {
    Seq::new(s.len(), |i: int| s[i]@)
}

/// The source that a structure declaration makes in a zone. A tree stands on its
/// anchor unturned; a template does as the declaration says.
pub open spec fn declared_source(zone: u16, id: NodeId, node: Node) -> Result<
    Option<SourceView>,
    EvalError,
> {
    match node.kind {
        NodeKind::PlaceStructure(p) => match p.resolved {
            None => Err(EvalError::UnresolvedBlueprint { node: id }),
            Some(bp) => Ok(
                Some(
                    SourceView {
                        cell_size: p.cell_size,
                        density: p.density,
                        seed: p.seed,
                        zones: seq![zone],
                        biomes: p.biomes@,
                        random_yaw: p.random_yaw,
                        surface_offset: p.surface_offset,
                        payload: PayloadView::Blueprint(bp@),
                        canopy: match p.canopy {
                            Some(c) => Some(
                                FeatureCanopy {
                                    type_id: c.type_id,
                                    prefab_id: c.prefab_id,
                                    y_offset: c.y_offset,
                                },
                            ),
                            None => None,
                        },
                    },
                ),
            ),
        },
        NodeKind::PlaceTree(p) => match p.resolved {
            None => Err(EvalError::UnresolvedBlueprint { node: id }),
            Some(t) => Ok(
                Some(
                    SourceView {
                        cell_size: p.cell_size,
                        density: p.density,
                        seed: p.seed,
                        zones: seq![zone],
                        biomes: p.biomes@,
                        random_yaw: false,
                        surface_offset: 0,
                        payload: PayloadView::Tree {
                            name: p.species@,
                            species: t.species,
                            wood: t.wood,
                            age: p.age,
                        },
                        canopy: None,
                    },
                ),
            ),
        },
        _ => Ok(None),
    }
}

/// The keys of a table, by ascending slot.
pub open spec fn key_list(nodes: Map<NodeId, Node>) -> Seq<NodeId> {
    choose|keys: Seq<NodeId>| is_key_order(nodes, keys)
}

/// Whether a source comes before another: by zone, seed, cell size, then name.
pub open spec fn listed_before(a: SourceView, b: SourceView) -> bool {
    if a.zones[0] != b.zones[0] {
        a.zones[0] < b.zones[0]
    } else if a.seed != b.seed {
        a.seed < b.seed
    } else if a.cell_size != b.cell_size {
        a.cell_size < b.cell_size
    } else {
        text_before(a.name(), b.name())
    }
}

/// Listed sources with one more, behind all that it does not come before.
pub open spec fn listed(s: Seq<SourceView>, v: SourceView) -> Seq<SourceView>
    decreases s.len(),
{
    if s.len() == 0 || !listed_before(v, s.last()) {
        s.push(v)
    } else {
        listed(s.drop_last(), v).push(s.last())
    }
}

/// Sources with those that listed nodes of a zone declare, or the first error.
pub open spec fn with_declared(
    so_far: Result<Seq<SourceView>, EvalError>,
    zone: u16,
    nodes: Map<NodeId, Node>,
    keys: Seq<NodeId>,
) -> Result<Seq<SourceView>, EvalError>
    decreases keys.len(),
{
    if keys.len() == 0 {
        so_far
    } else {
        match with_declared(so_far, zone, nodes, keys.drop_last()) {
            Err(e) => Err(e),
            Ok(s) => match declared_source(zone, keys.last(), nodes[keys.last()]) {
                Err(e) => Err(e),
                Ok(None) => Ok(s),
                Ok(Some(v)) => Ok(listed(s, v)),
            },
        }
    }
}

/// The sources that zones declare, or the first error.
pub open spec fn declared_sources(zones: Seq<ZoneGraph>) -> Result<Seq<SourceView>, EvalError>
    decreases zones.len(),
{
    if zones.len() == 0 {
        Ok(Seq::empty())
    } else {
        let zone = zones.last();
        with_declared(
            declared_sources(zones.drop_last()),
            zone.id,
            zone.graph.nodes@,
            key_list(zone.graph.nodes@),
        )
    }
}

fn only(zone: u16) -> (r: Vec<u16>)
    ensures
        r@ == seq![zone],
{
    let mut v: Vec<u16> = Vec::new();
    v.push(zone);
    assert(v@ =~= seq![zone]);
    v
}

fn source_of(zone: u16, id: NodeId, node: &Node) -> (r: EvalResult<Option<FeatureSource>>)
    ensures
        match r {
            Err(e) => declared_source(zone, id, *node) == Err::<Option<SourceView>, EvalError>(e),
            Ok(None) => declared_source(zone, id, *node) == Ok::<Option<SourceView>, EvalError>(
                None,
            ),
            Ok(Some(s)) => declared_source(zone, id, *node) == Ok::<Option<SourceView>, EvalError>(
                Some(s@),
            ),
        },
{
    match &node.kind {
        NodeKind::PlaceStructure(p) => match &p.resolved {
            None => Err(EvalError::UnresolvedBlueprint { node: id }),
            Some(bp) => {
                let canopy = match p.canopy {
                    Some(c) => Some(
                        FeatureCanopy {
                            type_id: c.type_id,
                            prefab_id: c.prefab_id,
                            y_offset: c.y_offset,
                        },
                    ),
                    None => None,
                };
                Ok(
                    Some(
                        FeatureSource {
                            cell_size: p.cell_size,
                            density: p.density,
                            seed: p.seed,
                            zones: only(zone),
                            biomes: copy_vec(&p.biomes),
                            random_yaw: p.random_yaw,
                            surface_offset: p.surface_offset,
                            payload: FeaturePayload::Blueprint(bp.clone()),
                            canopy,
                        },
                    ),
                )
            },
        },
        NodeKind::PlaceTree(p) => match p.resolved {
            None => Err(EvalError::UnresolvedBlueprint { node: id }),
            Some(t) => Ok(
                Some(
                    FeatureSource {
                        cell_size: p.cell_size,
                        density: p.density,
                        seed: p.seed,
                        zones: only(zone),
                        biomes: copy_vec(&p.biomes),
                        random_yaw: false,
                        surface_offset: 0,
                        payload: FeaturePayload::Tree(
                            TreeSource {
                                name: p.species.clone(),
                                species: t.species,
                                wood: t.wood,
                                age: p.age,
                            },
                        ),
                        canopy: None,
                    },
                ),
            ),
        },
        _ => Ok(None),
    }
}

fn comes_before(a: &FeatureSource, b: &FeatureSource) -> (r: bool)
    requires
        a.zones@.len() > 0,
        b.zones@.len() > 0,
    ensures
        r == listed_before(a@, b@),
{
    if a.zones[0] != b.zones[0] {
        a.zones[0] < b.zones[0]
    } else if a.seed != b.seed {
        a.seed < b.seed
    } else if a.cell_size != b.cell_size {
        a.cell_size < b.cell_size
    } else {
        is_text_before(a.payload.name(), b.payload.name())
    }
}

fn list(out: &mut Vec<FeatureSource>, s: FeatureSource)
    requires
        s.zones@.len() > 0,
        forall|i: int| 0 <= i < old(out)@.len() ==> (#[trigger] old(out)@[i]).zones@.len() > 0,
    ensures
        source_views(final(out)@) == listed(source_views(old(out)@), s@),
        forall|i: int| 0 <= i < final(out)@.len() ==> (#[trigger] final(out)@[i]).zones@.len() > 0,
{
    let ghost all = source_views(out@);
    let ghost before = out@;
    let mut k: usize = out.len();
    proof {
        assert(all.take(all.len() as int) =~= all);
        assert(listed(all, s@) + all.skip(all.len() as int) =~= listed(all, s@));
    }
    while k > 0 && comes_before(&s, &out[k - 1])
        invariant
            k <= all.len(),
            out@ == before,
            all == source_views(before),
            s.zones@.len() > 0,
            forall|i: int| 0 <= i < out@.len() ==> (#[trigger] out@[i]).zones@.len() > 0,
            listed(all, s@) == listed(all.take(k as int), s@) + all.skip(k as int),
        decreases k,
    {
        proof {
            let part = all.take(k as int);
            assert(part.last() == all[k - 1]);
            assert(all[k - 1] == before[k - 1]@);
            assert(part.drop_last() =~= all.take(k - 1));
            assert(listed(part, s@) + all.skip(k as int) =~= listed(all.take(k - 1), s@)
                + all.skip(k - 1));
        }
        k = k - 1;
    }
    proof {
        let part = all.take(k as int);
        if k > 0 {
            assert(part.last() == all[k - 1]);
            assert(all[k - 1] == before[k - 1]@);
        }
        assert(listed(part, s@) == part.push(s@));
    }
    out.insert(k, s);
    proof {
        assert(source_views(out@) =~= all.take(k as int).push(s@) + all.skip(k as int));
        assert forall|i: int| 0 <= i < out@.len() implies (#[trigger] out@[i]).zones@.len() > 0 by {
            if i < k {
                assert(out@[i] == before[i]);
            } else if i > k {
                assert(out@[i] == before[i - 1]);
            }
        }
    }
}

fn add_zone(out: &mut Vec<FeatureSource>, zone: &ZoneGraph) -> (r: EvalResult<()>)
    requires
        forall|i: int| 0 <= i < old(out)@.len() ==> (#[trigger] old(out)@[i]).zones@.len() > 0,
    ensures
        forall|i: int| 0 <= i < final(out)@.len() ==> (#[trigger] final(out)@[i]).zones@.len() > 0,
        with_declared(
            Ok(source_views(old(out)@)),
            zone.id,
            zone.graph.nodes@,
            key_list(zone.graph.nodes@),
        ) == match r {
            Ok(_) => Ok::<Seq<SourceView>, EvalError>(source_views(final(out)@)),
            Err(e) => Err::<Seq<SourceView>, EvalError>(e),
        },
{
    let keys = zone.graph.nodes.keys();
    let ghost nodes = zone.graph.nodes@;
    let ghost start = Ok::<Seq<SourceView>, EvalError>(source_views(out@));
    proof {
        assert(is_key_order(nodes, key_list(nodes)));
        key_order_is_unique(nodes, keys@, key_list(nodes));
    }
    let mut k: usize = 0;
    assert(keys@.take(0) =~= Seq::<NodeId>::empty());
    while k < keys.len()
        invariant
            k <= keys@.len(),
            nodes == zone.graph.nodes@,
            is_key_order(nodes, keys@),
            keys@ == key_list(nodes),
            forall|i: int| 0 <= i < out@.len() ==> (#[trigger] out@[i]).zones@.len() > 0,
            start == Ok::<Seq<SourceView>, EvalError>(source_views(old(out)@)),
            with_declared(start, zone.id, nodes, keys@.take(k as int)) == Ok::<
                Seq<SourceView>,
                EvalError,
            >(source_views(out@)),
        decreases keys@.len() - k,
    {
        let id = keys[k];
        proof {
            assert(nodes.contains_key(keys@[k as int]));
            assert(keys@.take(k + 1).drop_last() =~= keys@.take(k as int));
            assert(keys@.take(k + 1).last() == id);
        }
        if let Some(node) = zone.graph.nodes.get(id) {
            match source_of(zone.id, id, node) {
                Err(e) => {
                    proof {
                        lemma_error_sticks(start, zone.id, nodes, keys@, k + 1, e);
                    }
                    return Err(e);
                },
                Ok(None) => {},
                Ok(Some(s)) => {
                    list(out, s);
                },
            }
        }
        k = k + 1;
    }
    assert(keys@.take(k as int) =~= keys@);
    Ok(())
}

proof fn lemma_error_sticks(
    start: Result<Seq<SourceView>, EvalError>,
    zone: u16,
    nodes: Map<NodeId, Node>,
    keys: Seq<NodeId>,
    k: int,
    e: EvalError,
)
    requires
        0 <= k <= keys.len(),
        with_declared(start, zone, nodes, keys.take(k)) == Err::<Seq<SourceView>, EvalError>(e),
    ensures
        with_declared(start, zone, nodes, keys) == Err::<Seq<SourceView>, EvalError>(e),
    decreases keys.len() - k,
{
    if k < keys.len() {
        assert(keys.take(k + 1).drop_last() =~= keys.take(k));
        lemma_error_sticks(start, zone, nodes, keys, k + 1, e);
    } else {
        assert(keys.take(k) =~= keys);
    }
}

proof fn lemma_failed_start(
    e: EvalError,
    zone: u16,
    nodes: Map<NodeId, Node>,
    keys: Seq<NodeId>,
)
    ensures
        with_declared(Err(e), zone, nodes, keys) == Err::<Seq<SourceView>, EvalError>(e),
    decreases keys.len(),
{
    if keys.len() > 0 {
        lemma_failed_start(e, zone, nodes, keys.drop_last());
    }
}

proof fn lemma_failed_zone(zones: Seq<ZoneGraph>, k: int, e: EvalError)
    requires
        0 <= k <= zones.len(),
        declared_sources(zones.take(k)) == Err::<Seq<SourceView>, EvalError>(e),
    ensures
        declared_sources(zones) == Err::<Seq<SourceView>, EvalError>(e),
    decreases zones.len() - k,
{
    if k < zones.len() {
        let zone = zones[k];
        assert(zones.take(k + 1).drop_last() =~= zones.take(k));
        assert(zones.take(k + 1).last() == zone);
        lemma_failed_start(e, zone.id, zone.graph.nodes@, key_list(zone.graph.nodes@));
        lemma_failed_zone(zones, k + 1, e);
    } else {
        assert(zones.take(k) =~= zones);
    }
}

impl WorldEvaluator {
    /// The feature sources that the zone graphs declare, each for its own zone, in
    /// an order that depends on what they are and not on where they were found. A
    /// declaration whose template was not resolved is an error, not a source that
    /// places nothing.
    pub fn structure_sources(&self) -> (r: EvalResult<Vec<FeatureSource>>)
        ensures
            declared_sources(self.zones@) == match r {
                Ok(v) => Ok::<Seq<SourceView>, EvalError>(source_views(v@)),
                Err(e) => Err::<Seq<SourceView>, EvalError>(e),
            },
    {
        let mut out: Vec<FeatureSource> = Vec::new();
        assert(source_views(out@) =~= Seq::<SourceView>::empty());
        assert(self.zones@.take(0) =~= Seq::<ZoneGraph>::empty());
        let mut k: usize = 0;
        while k < self.zones.len()
            invariant
                k <= self.zones@.len(),
                forall|i: int| 0 <= i < out@.len() ==> (#[trigger] out@[i]).zones@.len() > 0,
                declared_sources(self.zones@.take(k as int)) == Ok::<Seq<SourceView>, EvalError>(
                    source_views(out@),
                ),
            decreases self.zones@.len() - k,
        {
            assert(self.zones@.take(k + 1).drop_last() =~= self.zones@.take(k as int));
            assert(self.zones@.take(k + 1).last() == self.zones@[k as int]);
            match add_zone(&mut out, &self.zones[k]) {
                Ok(_) => {},
                Err(e) => {
                    proof {
                        lemma_failed_zone(self.zones@, k + 1, e);
                    }
                    return Err(e);
                },
            }
            k = k + 1;
        }
        assert(self.zones@.take(k as int) =~= self.zones@);
        Ok(out)
    }
}

/// Whether no source in a list comes before an earlier one.
pub open spec fn in_list_order(s: Seq<SourceView>) -> bool {
    forall|i: int, j: int|
        0 <= i < j < s.len() ==> !listed_before(#[trigger] s[j], #[trigger] s[i])
}

proof fn lemma_order_chains(a: SourceView, b: SourceView, c: SourceView)
    requires
        !listed_before(b, a),
        !listed_before(c, b),
    ensures
        !listed_before(c, a),
{
    text_order_is_strict_and_total(a.name(), b.name());
    text_order_is_strict_and_total(b.name(), c.name());
    text_order_is_strict_and_total(a.name(), c.name());
    if text_before(c.name(), a.name()) {
        if text_before(a.name(), b.name()) {
            text_order_is_transitive(c.name(), a.name(), b.name());
        }
    }
}

proof fn lemma_listed(s: Seq<SourceView>, v: SourceView)
    requires
        in_list_order(s),
    ensures
        in_list_order(listed(s, v)),
        listed(s, v).to_multiset() == s.to_multiset().insert(v),
    decreases s.len(),
{
    broadcast use vstd::seq_lib::group_to_multiset_ensures;
    broadcast use vstd::multiset::group_multiset_axioms;

    text_order_is_strict_and_total(v.name(), v.name());
    if s.len() > 0 && listed_before(v, s.last()) {
        let short = s.drop_last();
        assert(in_list_order(short)) by {
            assert forall|i: int, j: int| 0 <= i < j < short.len() implies !listed_before(
                #[trigger] short[j],
                #[trigger] short[i],
            ) by {
                assert(short[i] == s[i] && short[j] == s[j]);
            }
        }
        lemma_listed(short, v);
        assert(s =~= short.push(s.last()));
        assert(listed(s, v).to_multiset() =~= s.to_multiset().insert(v));
        let r = listed(short, v);
        let all = r.push(s.last());
        text_order_is_strict_and_total(v.name(), s.last().name());
        assert forall|i: int, j: int| 0 <= i < j < all.len() implies !listed_before(
            #[trigger] all[j],
            #[trigger] all[i],
        ) by {
            if j < r.len() {
                assert(all[i] == r[i] && all[j] == r[j]);
            } else {
                assert(r.contains(r[i]));
                assert(r.to_multiset().count(r[i]) > 0);
                if r[i] != v {
                    assert(short.to_multiset().count(r[i]) > 0);
                    assert(short.contains(r[i]));
                    let n = choose|n: int| 0 <= n < short.len() && short[n] == r[i];
                    assert(s[n] == r[i]);
                    assert(!listed_before(s[s.len() - 1], s[n]));
                }
            }
        }
    } else {
        assert(s.push(v).to_multiset() =~= s.to_multiset().insert(v));
        let all = s.push(v);
        assert forall|i: int, j: int| 0 <= i < j < all.len() implies !listed_before(
            #[trigger] all[j],
            #[trigger] all[i],
        ) by {
            if j < s.len() {
                assert(all[i] == s[i] && all[j] == s[j]);
            } else if i < s.len() - 1 {
                assert(!listed_before(s[s.len() - 1], s[i]));
                lemma_order_chains(s[i], s[s.len() - 1], v);
            }
        }
    }
}

proof fn lemma_declared_in_order(
    so_far: Seq<SourceView>,
    zone: u16,
    nodes: Map<NodeId, Node>,
    keys: Seq<NodeId>,
)
    requires
        in_list_order(so_far),
    ensures
        with_declared(Ok(so_far), zone, nodes, keys) matches Ok(s) ==> in_list_order(s),
    decreases keys.len(),
{
    if keys.len() > 0 {
        lemma_declared_in_order(so_far, zone, nodes, keys.drop_last());
        match with_declared(Ok(so_far), zone, nodes, keys.drop_last()) {
            Ok(s) => {
                match declared_source(zone, keys.last(), nodes[keys.last()]) {
                    Ok(Some(v)) => lemma_listed(s, v),
                    _ => {},
                }
            },
            Err(_) => {},
        }
    }
}

/// Declared sources come by zone, seed, cell size and name, so that the number of
/// a source, which decides between features with equal keys, follows from what is
/// declared.
pub proof fn sources_are_in_content_order(zones: Seq<ZoneGraph>)
    ensures
        declared_sources(zones) matches Ok(s) ==> in_list_order(s),
    decreases zones.len(),
{
    if zones.len() > 0 {
        sources_are_in_content_order(zones.drop_last());
        let zone = zones.last();
        match declared_sources(zones.drop_last()) {
            Ok(s) => {
                lemma_declared_in_order(
                    s,
                    zone.id,
                    zone.graph.nodes@,
                    key_list(zone.graph.nodes@),
                );
            },
            Err(e) => {
                lemma_failed_start(e, zone.id, zone.graph.nodes@, key_list(zone.graph.nodes@));
            },
        }
    }
}

} // verus!
