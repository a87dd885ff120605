//! Band tables: which id a continuous column value is assigned.
use crate::column::{ColumnField, IdColumn};
use crate::scalar::Single;
use crate::sort::sorted_distinct;
use vstd::prelude::*;

verus! {

/// How many thresholds a value meets or exceeds.
pub open spec fn thresholds_met(value: Single, bands: Seq<Single>) -> nat
    decreases bands.len(),
{
    if bands.len() == 0 {
        0
    } else {
        thresholds_met(value, bands.drop_last()) + (if value.at_least(bands.last()) {
            1nat
        } else {
            0nat
        })
    }
}

/// The band region of a value. Regions are counted in 16 bits.
pub open spec fn region(value: Single, bands: Seq<Single>) -> u16 {
    (thresholds_met(value, bands) % 0x1_0000) as u16
}

/// The id of a band region: its entry in the id table, or the region itself where
/// the table has none.
pub open spec fn region_id(k: u16, ids: Seq<u16>) -> u16 {
    if k < ids.len() {
        ids[k as int]
    } else {
        k
    }
}

/// The id a band table assigns to a value.
pub open spec fn assigned_id(value: Single, bands: Seq<Single>, ids: Seq<u16>) -> u16 {
    region_id(region(value, bands), ids)
}

/// The band region of a value: how many thresholds it meets or exceeds.
pub fn quantize_one(value: Single, bands: &[Single]) -> (r: u16)
    ensures
        r == region(value, bands@),
{
    let mut n: usize = 0;
    let mut k: usize = 0;
    while k < bands.len()
        invariant
            k <= bands@.len(),
            n <= k,
            n == thresholds_met(value, bands@.take(k as int)),
        decreases bands@.len() - k,
    {
        assert(bands@.take(k + 1).drop_last() =~= bands@.take(k as int));
        if value.ge(bands[k]) {
            n = n + 1;
        }
        k = k + 1;
    }
    assert(bands@.take(k as int) =~= bands@);
    (n % 0x1_0000) as u16
}

/// The id of a band region.
pub fn band_id(k: u16, ids: &[u16]) -> (r: u16)
    ensures
        r == region_id(k, ids@),
{
    if (k as usize) < ids.len() {
        ids[k as usize]
    } else {
        k
    }
}

/// Whether a band table with so many thresholds can assign an id.
pub open spec fn assignable(band_count: int, ids: Seq<u16>, id: u16) -> bool {
    exists|k: int| 0 <= k <= band_count && #[trigger] region_id((k % 0x1_0000) as u16, ids) == id
}

/// Every id a band table can assign, ascending. So many thresholds make one more
/// region, and a region past the end of the id table is its own id.
pub fn assignable_ids(band_count: usize, ids: &[u16]) -> (r: Vec<u16>)
    ensures
        forall|i: int, j: int| 0 <= i < j < r@.len() ==> r@[i] < r@[j],
        forall|id: u16| r@.contains(id) <==> assignable(band_count as int, ids@, id),
{
    let mut raw: Vec<u32> = Vec::new();
    let mut k: usize = 0;
    let mut more: bool = true;
    while more
        invariant
            k <= band_count,
            forall|x: u32|
                raw@.contains(x) ==> x < 0x1_0000 && assignable(band_count as int, ids@, x as u16),
            forall|j: int|
                0 <= j < k || (j == k && !more) ==> raw@.contains(
                    #[trigger] region_id((j % 0x1_0000) as u16, ids@) as u32,
                ),
            !more ==> k == band_count,
        decreases band_count - k + (if more { 1int } else { 0int }),
    {
        let ghost before = raw@;
        let id: u16 = band_id((k % 0x1_0000) as u16, ids);
        raw.push(id as u32);
        proof {
            assert(region_id((k as int % 0x1_0000) as u16, ids@) == id);
            assert forall|x: u32| raw@.contains(x) implies x < 0x1_0000 && assignable(
                band_count as int,
                ids@,
                x as u16,
            ) by {
                let i = choose|i: int| 0 <= i < raw@.len() && raw@[i] == x;
                if i < before.len() {
                    assert(before[i] == x);
                    assert(before.contains(x));
                }
            }
            assert forall|j: int| 0 <= j <= k implies raw@.contains(
                #[trigger] region_id((j % 0x1_0000) as u16, ids@) as u32,
            ) by {
                if j == k {
                    assert(raw@[before.len() as int] == id);
                } else {
                    let x = region_id((j % 0x1_0000) as u16, ids@) as u32;
                    assert(before.contains(x));
                    let i = choose|i: int| 0 <= i < before.len() && before[i] == x;
                    assert(raw@[i] == x);
                }
            }
        }
        if k == band_count {
            more = false;
        } else {
            k = k + 1;
        }
    }
    let sorted = sorted_distinct(&raw);
    let mut out: Vec<u16> = Vec::new();
    let mut i: usize = 0;
    assert forall|j: int| 0 <= j < sorted@.len() implies #[trigger] sorted@[j] < 0x1_0000 by {
        assert(sorted@.contains(sorted@[j]));
        assert(raw@.to_set().contains(sorted@[j]));
        assert(raw@.contains(sorted@[j]));
    }
    while i < sorted.len()
        invariant
            i <= sorted@.len(),
            out@.len() == i,
            forall|j: int| 0 <= j < sorted@.len() ==> #[trigger] sorted@[j] < 0x1_0000,
            forall|j: int| 0 <= j < i ==> #[trigger] out@[j] == sorted@[j],
        decreases sorted@.len() - i,
    {
        out.push(sorted[i] as u16);
        i = i + 1;
    }
    proof {
        assert forall|id: u16| out@.contains(id) <==> assignable(band_count as int, ids@, id) by {
            if out@.contains(id) {
                let j = choose|j: int| 0 <= j < out@.len() && out@[j] == id;
                assert(sorted@.contains(sorted@[j]));
                assert(raw@.to_set().contains(sorted@[j]));
                assert(raw@.contains(id as u32));
            }
            if assignable(band_count as int, ids@, id) {
                let j = choose|j: int|
                    0 <= j <= band_count && #[trigger] region_id(
                        (j % 0x1_0000) as u16,
                        ids@,
                    ) == id;
                assert(raw@.contains(region_id((j % 0x1_0000) as u16, ids@) as u32));
                assert(raw@.to_set().contains(id as u32));
                assert(sorted@.contains(id as u32));
                let i = choose|i: int| 0 <= i < sorted@.len() && sorted@[i] == id as u32;
                assert(out@[i] == id);
            }
        }
    }
    out
}

/// The ids a band table assigns to a plane of values.
pub open spec fn assigned_ids(
    values: Seq<Single>,
    bands: Seq<Single>,
    ids: Seq<u16>,
) -> Seq<u16> {
    Seq::new(1024, |i: int| assigned_id(values[i], bands, ids))
}

/// Assign every column the id of its value's band.
pub fn quantize_bands(field: &ColumnField, bands: &[Single], ids: &[u16]) -> (r: IdColumn)
    ensures
        r@ == assigned_ids(field@, bands@, ids@),
{
    let mut out = IdColumn::zeroed();
    let mut z: usize = 0;
    while z < 32
        invariant
            z <= 32,
            out@.len() == 1024,
            forall|i: int|
                0 <= i < 32 * z ==> #[trigger] out@[i] == assigned_id(field@[i], bands@, ids@),
        decreases 32 - z,
    {
        let mut x: usize = 0;
        while x < 32
            invariant
                x <= 32,
                z < 32,
                out@.len() == 1024,
                forall|i: int|
                    0 <= i < 32 * z + x ==> #[trigger] out@[i] == assigned_id(
                        field@[i],
                        bands@,
                        ids@,
                    ),
            decreases 32 - x,
        {
            let k: u16 = quantize_one(field.get(x, z), bands);
            out.set(x, z, band_id(k, ids));
            x = x + 1;
        }
        z = z + 1;
    }
    assert(out@ =~= assigned_ids(field@, bands@, ids@));
    out
}

proof fn lemma_met_at_most(value: Single, bands: Seq<Single>)
    ensures
        thresholds_met(value, bands) <= bands.len(),
    decreases bands.len(),
{
    if bands.len() > 0 {
        lemma_met_at_most(value, bands.drop_last());
    }
}

/// Whatever a band table assigns is among its assignable ids.
pub proof fn assigned_ids_are_assignable(value: Single, bands: Seq<Single>, ids: Seq<u16>)
    ensures
        assignable(bands.len() as int, ids, assigned_id(value, bands, ids)),
{
    lemma_met_at_most(value, bands);
    let k = thresholds_met(value, bands) as int;
    assert(region_id((k % 0x1_0000) as u16, ids) == assigned_id(value, bands, ids));
}

/// With no thresholds everything is assigned the first id, or 0 without a table.
pub proof fn no_bands_assign_one_id(value: Single, ids: Seq<u16>)
    ensures
        assigned_id(value, Seq::empty(), ids) == (if ids.len() > 0 {
            ids[0]
        } else {
            0
        }),
{
}

} // verus!
