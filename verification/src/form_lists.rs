//! The lists and pickers of the parameter form.
use crate::canvas_edit::{joined, GraphChoice, LibraryChoice};
use crate::ids::{GraphRefTarget, LibraryGraphId};
use crate::params::{
    FindFlatParams, GraphRefParams, LayerParams, LibraryRefParams, SpeciesPickerParams,
    SurfaceFilterParams, WorldOutputParams, ZoneOutputParams,
};
use crate::scalar::Single;
use crate::text::{decimal_text, push_decimal, same_text};
use crate::voxel::MaterialId;
use vstd::prelude::*;

verus! {

/// The thickest band the layer form accepts.
pub const THICKEST_BAND: u32 = 64;

/// A list of regions cut or filled up to a length.
pub open spec fn fitted(ids: Seq<u16>, regions: int, fill: spec_fn(int) -> u16) -> Seq<u16> {
    Seq::new(
        regions as nat,
        |k: int|
            if k < ids.len() {
                ids[k]
            } else {
                fill(k)
            },
    )
}

/// Region identities after the threshold at a place goes: the region above it
/// merges into the one below.
pub open spec fn merged(ids: Seq<u16>, at: int) -> Seq<u16> {
    if at + 1 < ids.len() {
        ids.remove(at + 1)
    } else {
        ids
    }
}

/// Region identities after a threshold is added above all: the new top region
/// takes over the identity of the old one.
pub open spec fn split(ids: Seq<u16>, fallback: u16) -> Seq<u16> {
    ids.push(
        if ids.len() > 0 {
            ids.last()
        } else {
            fallback
        },
    )
}

fn merge_at(ids: &mut Vec<u16>, at: usize)
    ensures
        final(ids)@ == merged(old(ids)@, at as int),
{
    if ids.len() > 0 && at < ids.len() - 1 {
        ids.remove(at + 1);
    }
}

fn split_top(ids: &mut Vec<u16>, fallback: u16)
    ensures
        final(ids)@ == split(old(ids)@, fallback),
{
    let top: u16 = if ids.len() > 0 {
        ids[ids.len() - 1]
    } else {
        fallback
    };
    ids.push(top);
}

fn cut(ids: &mut Vec<u16>, regions: usize)
    requires
        regions <= old(ids)@.len(),
    ensures
        final(ids)@ == old(ids)@.take(regions as int),
{
    let ghost all = ids@;
    while ids.len() > regions
        invariant
            regions <= ids@.len() <= all.len(),
            ids@ == all.take(ids@.len() as int),
        decreases ids@.len(),
    {
        ids.pop();
        assert(ids@ =~= all.take(ids@.len() as int));
    }
}

impl ZoneOutputParams {
    /// Give every region one biome: one more than there are thresholds. A region
    /// without one starts as its own number.
    pub fn fit_regions(&mut self)
        requires
            old(self).biome_bands@.len() < usize::MAX,
        ensures
            final(self).biome_bands == old(self).biome_bands,
            final(self).biome_ids@ == fitted(
                old(self).biome_ids@,
                old(self).biome_bands@.len() as int + 1,
                |k: int| k as u16,
            ),
    {
        let regions: usize = self.biome_bands.len() + 1;
        let ghost all = self.biome_ids@;
        while self.biome_ids.len() < regions
            invariant
                regions == old(self).biome_bands@.len() + 1,
                self.biome_bands == old(self).biome_bands,
                self.biome_ids@.len() >= all.len(),
                all.len() < regions ==> self.biome_ids@.len() <= regions,
                all.len() >= regions ==> self.biome_ids@ == all,
                self.biome_ids@ =~= fitted(all, self.biome_ids@.len() as int, |k: int| k as u16),
            decreases regions - self.biome_ids@.len(),
        {
            let next: u16 = #[verifier::truncate] (self.biome_ids.len() as u16);
            self.biome_ids.push(next);
        }
        cut(&mut self.biome_ids, regions);
        assert(self.biome_ids@ =~= fitted(all, regions as int, |k: int| k as u16));
    }

    /// Remove a threshold; the region above it merges into the one below.
    pub fn remove_threshold(&mut self, at: usize)
        requires
            at < old(self).biome_bands@.len(),
        ensures
            final(self).biome_bands@ == old(self).biome_bands@.remove(at as int),
            final(self).biome_ids@ == merged(old(self).biome_ids@, at as int),
    {
        self.biome_bands.remove(at);
        merge_at(&mut self.biome_ids, at);
    }

    /// Add a threshold above the others.
    pub fn add_threshold(&mut self, threshold: Single)
        ensures
            final(self).biome_bands@ == old(self).biome_bands@.push(threshold),
            final(self).biome_ids@ == split(old(self).biome_ids@, 0),
    {
        self.biome_bands.push(threshold);
        split_top(&mut self.biome_ids, 0);
    }
}

impl WorldOutputParams {
    /// Give every region one zone: one more than there are thresholds. A region
    /// without one starts as the fallback.
    pub fn fit_regions(&mut self, fallback: u16)
        requires
            old(self).zone_bands@.len() < usize::MAX,
        ensures
            final(self).zone_bands == old(self).zone_bands,
            final(self).zone_ids@ == fitted(
                old(self).zone_ids@,
                old(self).zone_bands@.len() as int + 1,
                |k: int| fallback,
            ),
    {
        let regions: usize = self.zone_bands.len() + 1;
        let ghost all = self.zone_ids@;
        while self.zone_ids.len() < regions
            invariant
                regions == old(self).zone_bands@.len() + 1,
                self.zone_bands == old(self).zone_bands,
                self.zone_ids@.len() >= all.len(),
                all.len() < regions ==> self.zone_ids@.len() <= regions,
                all.len() >= regions ==> self.zone_ids@ == all,
                self.zone_ids@ =~= fitted(all, self.zone_ids@.len() as int, |k: int| fallback),
            decreases regions - self.zone_ids@.len(),
        {
            self.zone_ids.push(fallback);
        }
        cut(&mut self.zone_ids, regions);
        assert(self.zone_ids@ =~= fitted(all, regions as int, |k: int| fallback));
    }

    /// Remove a threshold; the region above it merges into the one below.
    pub fn remove_threshold(&mut self, at: usize)
        requires
            at < old(self).zone_bands@.len(),
        ensures
            final(self).zone_bands@ == old(self).zone_bands@.remove(at as int),
            final(self).zone_ids@ == merged(old(self).zone_ids@, at as int),
    {
        self.zone_bands.remove(at);
        merge_at(&mut self.zone_ids, at);
    }

    /// Add a threshold above the others.
    pub fn add_threshold(&mut self, threshold: Single, fallback: u16)
        ensures
            final(self).zone_bands@ == old(self).zone_bands@.push(threshold),
            final(self).zone_ids@ == split(old(self).zone_ids@, fallback),
    {
        self.zone_bands.push(threshold);
        split_top(&mut self.zone_ids, fallback);
    }
}

/// The zone a region of the world starts as: the first in the catalog.
pub fn fallback_zone(zones: &Vec<(u16, String)>) -> (r: u16)
    ensures
        r == (if zones@.len() > 0 {
            zones@[0].0
        } else {
            0
        }),
{
    if zones.len() > 0 {
        zones[0].0
    } else {
        0
    }
}

/// Fitted regions are one more than the thresholds, and stay so when a
/// threshold is added or removed.
pub proof fn regions_match_thresholds(
    ids: Seq<u16>,
    thresholds: int,
    fill: spec_fn(int) -> u16,
    at: int,
    fallback: u16,
)
    requires
        0 <= at < thresholds,
    ensures
        fitted(ids, thresholds + 1, fill).len() == thresholds + 1,
        merged(fitted(ids, thresholds + 1, fill), at).len() == thresholds,
        split(fitted(ids, thresholds + 1, fill), fallback).len() == thresholds + 2,
{
}

/// Fitting again changes nothing.
pub proof fn fitting_is_stable(ids: Seq<u16>, regions: int, fill: spec_fn(int) -> u16)
    requires
        regions >= 0,
    ensures
        fitted(fitted(ids, regions, fill), regions, fill) == fitted(ids, regions, fill),
{
    assert(fitted(fitted(ids, regions, fill), regions, fill) =~= fitted(ids, regions, fill));
}

/// Removing a threshold keeps the identity of every region but the one that
/// merged away.
pub proof fn merging_keeps_the_other_regions(ids: Seq<u16>, at: int, k: int)
    requires
        0 <= at,
        at + 1 < ids.len(),
        0 <= k < ids.len(),
        k != at + 1,
    ensures
        merged(ids, at)[if k <= at {
            k
        } else {
            k - 1
        }] == ids[k],
{
}

/// Where a catalog first lists an identity.
pub open spec fn listed_at(catalog: Seq<(u16, String)>, id: u16) -> Option<int>
    decreases catalog.len(),
{
    if catalog.len() == 0 {
        None
    } else {
        match listed_at(catalog.drop_last(), id) {
            Some(k) => Some(k),
            None => if catalog.last().0 == id {
                Some(catalog.len() - 1)
            } else {
                None
            },
        }
    }
}

/// What a picker shows for an identity: its name, or that it is missing.
pub open spec fn id_shown(catalog: Seq<(u16, String)>, id: u16, noun: Seq<char>) -> Seq<char> {
    match listed_at(catalog, id) {
        Some(k) => catalog[k].1@,
        None => noun + " "@ + decimal_text(id as nat) + " (missing)"@,
    }
}

/// What a picker shows for an identity. One that the catalog lacks still shows,
/// marked as missing.
pub fn id_text(catalog: &Vec<(u16, String)>, id: u16, noun: &str) -> (r: String)
    ensures
        r@ == id_shown(catalog@, id, noun@),
{
    let mut k: usize = 0;
    while k < catalog.len()
        invariant
            k <= catalog@.len(),
            listed_at(catalog@.take(k as int), id) is None,
        decreases catalog@.len() - k,
    {
        assert(catalog@.take(k + 1).drop_last() =~= catalog@.take(k as int));
        if catalog[k].0 == id {
            proof {
                lemma_listed_stays(catalog@, id, k + 1);
            }
            return catalog[k].1.clone();
        }
        k = k + 1;
    }
    assert(catalog@.take(k as int) =~= catalog@);
    let mut text = joined(noun, " ");
    push_decimal(&mut text, id as usize);
    text.append(" (missing)");
    text
}

proof fn lemma_listed_stays(catalog: Seq<(u16, String)>, id: u16, k: int)
    requires
        0 <= k <= catalog.len(),
        listed_at(catalog.take(k), id) is Some,
    ensures
        listed_at(catalog, id) == listed_at(catalog.take(k), id),
    decreases catalog.len() - k,
{
    if k == catalog.len() {
        assert(catalog.take(k) =~= catalog);
    } else {
        assert(catalog.take(k + 1).drop_last() =~= catalog.take(k));
        lemma_listed_stays(catalog, id, k + 1);
    }
}

/// Whether a catalog holds a name.
pub open spec fn names_hold(catalog: Seq<String>, name: Seq<char>) -> bool {
    exists|k: int| 0 <= k < catalog.len() && (#[trigger] catalog[k])@ == name
}

/// What a picker shows for a name: the name, that there is none, or that it is
/// missing.
pub open spec fn name_shown(catalog: Seq<String>, name: Seq<char>) -> Seq<char> {
    if names_hold(catalog, name) {
        name
    } else if name.len() == 0 {
        "(none)"@
    } else {
        name + " (missing)"@
    }
}

/// What a picker shows for a name. One that the catalog lacks still shows,
/// marked as missing.
pub fn name_text(catalog: &Vec<String>, name: &str) -> (r: String)
    ensures
        r@ == name_shown(catalog@, name@),
{
    let mut k: usize = 0;
    while k < catalog.len()
        invariant
            k <= catalog@.len(),
            forall|i: int| 0 <= i < k ==> (#[trigger] catalog@[i])@ != name@,
        decreases catalog@.len() - k,
    {
        if same_text(catalog[k].as_str(), name) {
            return String::from_str(name);
        }
        k = k + 1;
    }
    if name.unicode_len() == 0 {
        String::from_str("(none)")
    } else {
        joined(name, " (missing)")
    }
}

/// Where a list first holds a library.
pub open spec fn library_at(choices: Seq<LibraryChoice>, id: LibraryGraphId) -> Option<int>
    decreases choices.len(),
{
    if choices.len() == 0 {
        None
    } else {
        match library_at(choices.drop_last(), id) {
            Some(k) => Some(k),
            None => if choices.last().id == id {
                Some(choices.len() - 1)
            } else {
                None
            },
        }
    }
}

proof fn lemma_library_stays(choices: Seq<LibraryChoice>, id: LibraryGraphId, k: int)
    requires
        0 <= k <= choices.len(),
        library_at(choices.take(k), id) is Some,
    ensures
        library_at(choices, id) == library_at(choices.take(k), id),
    decreases choices.len() - k,
{
    if k == choices.len() {
        assert(choices.take(k) =~= choices);
    } else {
        assert(choices.take(k + 1).drop_last() =~= choices.take(k));
        lemma_library_stays(choices, id, k + 1);
    }
}

/// What the library picker shows for a reference.
pub fn library_text(choices: &Vec<LibraryChoice>, library: LibraryGraphId) -> (r: String)
    ensures
        r@ == (match library_at(choices@, library) {
            Some(k) => choices@[k].name@,
            None => "library "@ + decimal_text(library.0 as nat) + " (missing)"@,
        }),
{
    let mut k: usize = 0;
    while k < choices.len()
        invariant
            k <= choices@.len(),
            library_at(choices@.take(k as int), library) is None,
        decreases choices@.len() - k,
    {
        assert(choices@.take(k + 1).drop_last() =~= choices@.take(k as int));
        if choices[k].id == library {
            proof {
                lemma_library_stays(choices@, library, k + 1);
            }
            return choices[k].name.clone();
        }
        k = k + 1;
    }
    assert(choices@.take(k as int) =~= choices@);
    let mut text = String::from_str("library ");
    push_decimal(&mut text, library.0 as usize);
    text.append(" (missing)");
    text
}

/// Where a list first holds a target.
pub open spec fn target_at(choices: Seq<GraphChoice>, target: GraphRefTarget) -> Option<int>
    decreases choices.len(),
{
    if choices.len() == 0 {
        None
    } else {
        match target_at(choices.drop_last(), target) {
            Some(k) => Some(k),
            None => if choices.last().target == target {
                Some(choices.len() - 1)
            } else {
                None
            },
        }
    }
}

proof fn lemma_target_stays(choices: Seq<GraphChoice>, target: GraphRefTarget, k: int)
    requires
        0 <= k <= choices.len(),
        target_at(choices.take(k), target) is Some,
    ensures
        target_at(choices, target) == target_at(choices.take(k), target),
    decreases choices.len() - k,
{
    if k == choices.len() {
        assert(choices.take(k) =~= choices);
    } else {
        assert(choices.take(k + 1).drop_last() =~= choices.take(k));
        lemma_target_stays(choices, target, k + 1);
    }
}

/// A target spelled out.
pub open spec fn target_spelled(target: GraphRefTarget) -> Seq<char> {
    match target {
        GraphRefTarget::World => "World"@,
        GraphRefTarget::Zone => "Zone"@,
        GraphRefTarget::Biome(id) => "Biome("@ + decimal_text(id as nat) + ")"@,
    }
}

/// What the graph picker shows for a reference.
pub fn graph_text(choices: &Vec<GraphChoice>, target: GraphRefTarget) -> (r: String)
    ensures
        r@ == (match target_at(choices@, target) {
            Some(k) => choices@[k].name@,
            None => target_spelled(target) + " (missing)"@,
        }),
{
    let mut k: usize = 0;
    while k < choices.len()
        invariant
            k <= choices@.len(),
            target_at(choices@.take(k as int), target) is None,
        decreases choices@.len() - k,
    {
        assert(choices@.take(k + 1).drop_last() =~= choices@.take(k as int));
        if choices[k].target == target {
            proof {
                lemma_target_stays(choices@, target, k + 1);
            }
            return choices[k].name.clone();
        }
        k = k + 1;
    }
    assert(choices@.take(k as int) =~= choices@);
    let mut text = match target {
        GraphRefTarget::World => String::from_str("World"),
        GraphRefTarget::Zone => String::from_str("Zone"),
        GraphRefTarget::Biome(id) => {
            let mut named = String::from_str("Biome(");
            push_decimal(&mut named, id as usize);
            named.append(")");
            named
        },
    };
    text.append(" (missing)");
    text
}

impl LibraryRefParams {
    /// Point the reference at a library and present its pins at once. Choosing
    /// the library it already points at changes nothing. Returns whether
    /// anything changed.
    pub fn retarget(&mut self, choice: &LibraryChoice) -> (r: bool)
        ensures
            r == (old(self).library != choice.id),
            final(self).library == choice.id,
            r ==> (match final(self).resolved {
                Some(b) => b@.inputs == crate::boundary::port_pins(choice.boundary@.inputs)
                    && b@.outputs == crate::boundary::port_pins(choice.boundary@.outputs),
                None => false,
            }),
            !r ==> *final(self) == *old(self),
    {
        if self.library == choice.id {
            return false;
        }
        self.library = choice.id;
        self.resolved = Some(choice.boundary.to_resolved());
        true
    }
}

impl GraphRefParams {
    /// Point the reference at a graph and present its outputs at once. Choosing
    /// the graph it already points at changes nothing. Returns whether anything
    /// changed.
    pub fn retarget(&mut self, choice: &GraphChoice) -> (r: bool)
        ensures
            r == (old(self).target != choice.target),
            final(self).target == choice.target,
            r ==> (match final(self).resolved {
                Some(b) => b@.inputs.len() == 0 && b@.outputs == crate::boundary::port_pins(
                    choice.boundary@.outputs,
                ),
                None => false,
            }),
            !r ==> *final(self) == *old(self),
    {
        if self.target == choice.target {
            return false;
        }
        self.target = choice.target;
        self.resolved = Some(choice.boundary.to_resolved_outputs());
        true
    }
}

impl FindFlatParams {
    /// Allow one more material, to be picked by the author.
    pub fn add_material(&mut self)
        ensures
            final(self).on_materials@ == old(self).on_materials@.push(MaterialId(6)),
            final(self).max_step == old(self).max_step,
    {
        self.on_materials.push(MaterialId(6));
    }
}

impl SurfaceFilterParams {
    /// Allow one more material, to be picked by the author.
    pub fn add_material(&mut self)
        ensures
            final(self).materials@ == old(self).materials@.push(MaterialId(6)),
            final(self).max_slope == old(self).max_slope,
            final(self).min_height == old(self).min_height,
            final(self).max_height == old(self).max_height,
    {
        self.materials.push(MaterialId(6));
    }
}

impl SpeciesPickerParams {
    /// Add one more species, with no weight yet.
    pub fn add_weight(&mut self)
        ensures
            final(self).weights@ == old(self).weights@.push(Single { bits: 0 }),
            final(self).seed == old(self).seed,
    {
        self.weights.push(Single { bits: 0 });
    }
}

impl LayerParams {
    /// Add a band below the others, one voxel thick.
    pub fn add_band(&mut self)
        ensures
            final(self).bands@ == old(self).bands@.push((MaterialId(1), 1u32)),
            final(self).fill == old(self).fill,
    {
        self.bands.push((MaterialId(1), 1));
    }

    /// Set a band. A thickness out of range is held to the range.
    pub fn set_band(&mut self, at: usize, material: MaterialId, thickness: u32)
        requires
            at < old(self).bands@.len(),
        ensures
            final(self).bands@ == old(self).bands@.update(
                at as int,
                (
                    material,
                    if thickness < 1 {
                        1u32
                    } else if thickness > THICKEST_BAND {
                        THICKEST_BAND
                    } else {
                        thickness
                    },
                ),
            ),
            final(self).fill == old(self).fill,
    {
        let held: u32 = if thickness < 1 {
            1
        } else if thickness > THICKEST_BAND {
            THICKEST_BAND
        } else {
            thickness
        };
        self.bands.set(at, (material, held));
    }
}

} // verus!
