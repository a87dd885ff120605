//! Which way rivers flow: every node of the network drains into its lowest
//! neighbor.
use crate::scalar::Single;
use vstd::prelude::*;

verus! {

/// Numeric `a < b`; false when either is not a number.
pub open spec fn lower(a: Single, b: Single) -> bool {
    !a.is_nan() && !b.is_nan() && a.rank() < b.rank()
}

fn is_lower(a: Single, b: Single) -> (r: bool)
    ensures
        r == lower(a, b),
{
    b.ge(a) && !a.ge(b)
}

/// The neighbors of a cell, row by row, without the cell itself.
pub open spec fn neighbor(width: int, cell: int, k: int) -> int {
    let at = if k < 4 {
        k
    } else {
        k + 1
    };
    cell + (at / 3 - 1) * width + (at % 3 - 1)
}

/// The lowest of the first `k` neighbors of a cell that lie below it, the first of
/// several; nothing if none does.
pub open spec fn lowest_below(potentials: Seq<Single>, width: int, cell: int, k: int) -> Option<int>
    decreases k,
{
    if k <= 0 {
        None
    } else {
        let best = lowest_below(potentials, width, cell, k - 1);
        let next = neighbor(width, cell, k - 1);
        if !lower(potentials[next], potentials[cell]) {
            best
        } else {
            match best {
                None => Some(next),
                Some(b) => if lower(potentials[next], potentials[b]) {
                    Some(next)
                } else {
                    best
                },
            }
        }
    }
}

/// Where a cell drains: its lowest neighbor below it.
pub open spec fn drains_into(potentials: Seq<Single>, width: int, cell: int) -> Option<int> {
    lowest_below(potentials, width, cell, 8)
}

/// The links of a rectangle of cells, row by row, leaving out the outermost ring,
/// whose neighbors are not all known. `k` cells have been looked at.
pub open spec fn links_among(potentials: Seq<Single>, width: int, height: int, k: int) -> Seq<
    (int, int),
>
    decreases k,
{
    if k <= 0 {
        Seq::empty()
    } else {
        let before = links_among(potentials, width, height, k - 1);
        let cell = k - 1;
        if inner(width, height, cell) && drains_into(potentials, width, cell) is Some {
            before.push((cell, drains_into(potentials, width, cell).unwrap()))
        } else {
            before
        }
    }
}

/// Whether a cell of a rectangle has all its neighbors in it.
pub open spec fn inner(width: int, height: int, cell: int) -> bool {
    &&& 0 < cell % width < width - 1
    &&& 0 < cell / width < height - 1
}

/// The links, as integers.
pub open spec fn as_cells(links: Seq<(usize, usize)>) -> Seq<(int, int)> {
    links.map_values(|l: (usize, usize)| (l.0 as int, l.1 as int))
}

proof fn lemma_neighbor(width: int, height: int, cell: int, k: int)
    requires
        width > 0,
        height > 0,
        0 <= cell < width * height,
        inner(width, height, cell),
        0 <= k < 8,
    ensures
        0 <= neighbor(width, cell, k) < width * height,
        neighbor(width, cell, k) != cell,
{
    let x = cell % width;
    let z = cell / width;
    vstd::arithmetic::div_mod::lemma_fundamental_div_mod(cell, width);
    let at = if k < 4 {
        k
    } else {
        k + 1
    };
    let dx = at % 3 - 1;
    let dz = at / 3 - 1;
    assert(-1 <= dx <= 1 && -1 <= dz <= 1);
    assert(dx != 0 || dz != 0);
    let nx = x + dx;
    let nz = z + dz;
    assert(neighbor(width, cell, k) == nz * width + nx) by (nonlinear_arith)
        requires
            neighbor(width, cell, k) == cell + dz * width + dx,
            cell == width * z + x,
            nx == x + dx,
            nz == z + dz,
    ;
    assert(0 <= nz * width + nx < width * height) by (nonlinear_arith)
        requires
            0 <= nx < width,
            0 <= nz < height,
    ;
    assert(neighbor(width, cell, k) != cell) by (nonlinear_arith)
        requires
            neighbor(width, cell, k) == cell + dz * width + dx,
            width >= 3,
            -1 <= dx <= 1,
            -1 <= dz <= 1,
            dx != 0 || dz != 0,
    ;
}

fn find_drain(potentials: &Vec<Single>, width: usize, height: usize, cell: usize) -> (r: Option<
    usize,
>)
    requires
        width > 0,
        height > 0,
        width * height == potentials@.len(),
        cell < potentials@.len(),
        inner(width as int, height as int, cell as int),
    ensures
        match r {
            Some(c) => drains_into(potentials@, width as int, cell as int) == Some(c as int) && c
                < potentials@.len(),
            None => drains_into(potentials@, width as int, cell as int) is None,
        },
{
    let own = potentials[cell];
    let total: usize = potentials.len();
    let mut best: Option<usize> = None;
    let mut k: usize = 0;
    while k < 8
        invariant
            k <= 8,
            width > 0,
            height > 0,
            width * height == potentials@.len(),
            total == potentials@.len(),
            cell < total,
            inner(width as int, height as int, cell as int),
            own == potentials@[cell as int],
            match best {
                Some(c) => lowest_below(potentials@, width as int, cell as int, k as int) == Some(
                    c as int,
                ) && c < total,
                None => lowest_below(potentials@, width as int, cell as int, k as int) is None,
            },
        decreases 8 - k,
    {
        let at: usize = if k < 4 { k } else { k + 1 };
        proof {
            lemma_neighbor(width as int, height as int, cell as int, k as int);
            lemma_row_above(width as int, height as int, cell as int);
        }
        let row: usize = if at < 3 {
            cell - width
        } else if at < 6 {
            cell
        } else {
            cell + width
        };
        let column: usize = at % 3;
        let next: usize = if column == 0 {
            row - 1
        } else if column == 1 {
            row
        } else {
            row + 1
        };
        proof {
            assert(next == neighbor(width as int, cell as int, k as int)) by {
                assert((at / 3 - 1) * width == if at < 3 {
                    -(width as int)
                } else if at < 6 {
                    0
                } else {
                    width as int
                }) by (nonlinear_arith)
                    requires
                        0 <= at < 9,
                ;
            }
        }
        if is_lower(potentials[next], own) {
            match best {
                None => {
                    best = Some(next);
                },
                Some(b) => {
                    if is_lower(potentials[next], potentials[b]) {
                        best = Some(next);
                    }
                },
            }
        }
        k = k + 1;
    }
    best
}

proof fn lemma_row_above(width: int, height: int, cell: int)
    requires
        width > 0,
        height > 0,
        0 <= cell < width * height,
        inner(width, height, cell),
    ensures
        width + 1 <= cell,
        cell + width + 1 < width * height,
{
    let z = cell / width;
    vstd::arithmetic::div_mod::lemma_fundamental_div_mod(cell, width);
    assert(width * z >= width) by (nonlinear_arith)
        requires
            z >= 1,
            width > 0,
    ;
    assert(width * z + 2 * width <= width * height) by (nonlinear_arith)
        requires
            z + 2 <= height,
            width > 0,
    ;
}

/// The links of a river network over a rectangle of cells, given the potential of
/// each: every inner cell that has a lower neighbor drains into the lowest.
pub fn river_links(potentials: &Vec<Single>, width: usize, height: usize) -> (r: Vec<(usize, usize)>)
    requires
        width > 0,
        height > 0,
        width * height == potentials@.len(),
    ensures
        as_cells(r@) == links_among(
            potentials@,
            width as int,
            height as int,
            potentials@.len() as int,
        ),
{
    let mut out: Vec<(usize, usize)> = Vec::new();
    let mut cell: usize = 0;
    assert(as_cells(out@) =~= Seq::<(int, int)>::empty());
    while cell < potentials.len()
        invariant
            cell <= potentials@.len(),
            width > 0,
            height > 0,
            width * height == potentials@.len(),
            as_cells(out@) == links_among(
                potentials@,
                width as int,
                height as int,
                cell as int,
            ),
        decreases potentials@.len() - cell,
    {
        let x: usize = cell % width;
        let z: usize = cell / width;
        if 0 < x && x < width - 1 && 0 < z && z < height - 1 {
            let ghost before = out@;
            if let Some(to) = find_drain(potentials, width, height, cell) {
                out.push((cell, to));
                assert(as_cells(out@) =~= as_cells(before).push((cell as int, to as int)));
            }
        }
        cell = cell + 1;
    }
    out
}

/// Every cell drains downhill, so following the water never leads in a circle.
pub proof fn rivers_flow_downhill(potentials: Seq<Single>, width: int, cell: int, k: int)
    requires
        0 <= k <= 8,
    ensures
        lowest_below(potentials, width, cell, k) matches Some(to) ==> lower(
            potentials[to],
            potentials[cell],
        ),
    decreases k,
{
    if k > 0 {
        rivers_flow_downhill(potentials, width, cell, k - 1);
    }
}

/// Whether each cell of a course drains into the next.
pub open spec fn is_course(potentials: Seq<Single>, width: int, course: Seq<int>) -> bool {
    forall|i: int|
        0 <= i < course.len() - 1 ==> drains_into(potentials, width, #[trigger] course[i]) == Some(
            course[i + 1],
        )
}

/// A course of water visits no cell twice.
pub proof fn rivers_cannot_cycle(potentials: Seq<Single>, width: int, course: Seq<int>, i: int, j: int)
    requires
        is_course(potentials, width, course),
        0 <= i < j < course.len(),
    ensures
        lower(potentials[course[j]], potentials[course[i]]),
        course[i] != course[j],
    decreases j - i,
{
    assert(drains_into(potentials, width, course[j - 1]) == Some(course[j - 1 + 1]));
    rivers_flow_downhill(potentials, width, course[j - 1], 8);
    if i < j - 1 {
        rivers_cannot_cycle(potentials, width, course, i, j - 1);
    }
}

/// Whether two cells of a rectangle touch, at an edge or a corner.
pub open spec fn touch(width: int, a: int, b: int) -> bool {
    &&& a != b
    &&& -1 <= a % width - b % width <= 1
    &&& -1 <= a / width - b / width <= 1
}

/// Whether one height is numerically below another.
pub open spec fn lies_below(a: Single, b: Single) -> bool {
    b.at_least(a) && !a.at_least(b)
}

/// Whether `to` is where a cell drains: below the cell, touching it, and with no other
/// touching cell below it; of several as low, the first, row by row.
pub open spec fn is_steepest(
    potentials: Seq<Single>,
    width: int,
    height: int,
    from: int,
    to: int,
) -> bool {
    &&& 0 <= to < width * height
    &&& touch(width, from, to)
    &&& lies_below(potentials[to], potentials[from])
    &&& forall|c: int|
        0 <= c < width * height && #[trigger] touch(width, from, c) ==> !lies_below(
            potentials[c],
            potentials[to],
        )
    &&& forall|c: int|
        0 <= c < to && #[trigger] touch(width, from, c) && lies_below(potentials[c], potentials[from])
            ==> lies_below(potentials[to], potentials[c])
}

proof fn lemma_neighbors_in_order(width: int, cell: int, i: int, j: int)
    requires
        width >= 3,
        0 <= i < j < 8,
    ensures
        neighbor(width, cell, i) < neighbor(width, cell, j),
{
    let a = if i < 4 {
        i
    } else {
        i + 1
    };
    let b = if j < 4 {
        j
    } else {
        j + 1
    };
    assert((a / 3 - 1) * width + (a % 3 - 1) < (b / 3 - 1) * width + (b % 3 - 1))
        by (nonlinear_arith)
        requires
            0 <= a < b <= 8,
            width >= 3,
    ;
}

proof fn lemma_neighbor_touches(width: int, height: int, cell: int, k: int)
    requires
        0 <= cell < width * height,
        inner(width, height, cell),
        width > 0,
        height > 0,
        0 <= k < 8,
    ensures
        touch(width, cell, neighbor(width, cell, k)),
        0 <= neighbor(width, cell, k) < width * height,
{
    lemma_neighbor(width, height, cell, k);
    let at = if k < 4 {
        k
    } else {
        k + 1
    };
    let dx = at % 3 - 1;
    let dz = at / 3 - 1;
    let x = cell % width;
    let z = cell / width;
    vstd::arithmetic::div_mod::lemma_fundamental_div_mod(cell, width);
    let n = neighbor(width, cell, k);
    assert(n == (z + dz) * width + (x + dx)) by (nonlinear_arith)
        requires
            n == cell + dz * width + dx,
            cell == width * z + x,
    ;
    vstd::arithmetic::div_mod::lemma_fundamental_div_mod_converse(n, width, z + dz, x + dx);
}

proof fn lemma_touching_is_neighbor(width: int, height: int, cell: int, c: int) -> (k: int)
    requires
        0 <= cell < width * height,
        inner(width, height, cell),
        width > 0,
        height > 0,
        touch(width, cell, c),
    ensures
        0 <= k < 8,
        neighbor(width, cell, k) == c,
{
    vstd::arithmetic::div_mod::lemma_fundamental_div_mod(cell, width);
    vstd::arithmetic::div_mod::lemma_fundamental_div_mod(c, width);
    let dx = c % width - cell % width;
    let dz = c / width - cell / width;
    let at = 3 * (dz + 1) + (dx + 1);
    assert(c == cell + dz * width + dx) by (nonlinear_arith)
        requires
            cell == width * (cell / width) + cell % width,
            c == width * (c / width) + c % width,
            dx == c % width - cell % width,
            dz == c / width - cell / width,
    ;
    assert(at / 3 - 1 == dz && at % 3 - 1 == dx);
    if dx == 0 && dz == 0 {
        assert(0 * width == 0);
    }
    assert(at != 4);
    if at < 4 {
        at
    } else {
        at - 1
    }
}

proof fn lemma_lowest(potentials: Seq<Single>, width: int, cell: int, k: int) -> (best: int)
    requires
        width >= 3,
        0 <= k <= 8,
    ensures
        match lowest_below(potentials, width, cell, k) {
            None => forall|j: int|
                0 <= j < k ==> !lower(
                    potentials[#[trigger] neighbor(width, cell, j)],
                    potentials[cell],
                ),
            Some(b) => {
                &&& 0 <= best < k
                &&& b == neighbor(width, cell, best)
                &&& lower(potentials[b], potentials[cell])
                &&& forall|j: int|
                    0 <= j < k ==> !lower(
                        potentials[#[trigger] neighbor(width, cell, j)],
                        potentials[b],
                    )
                &&& forall|j: int|
                    0 <= j < best && lower(
                        potentials[#[trigger] neighbor(width, cell, j)],
                        potentials[cell],
                    ) ==> lower(potentials[b], potentials[neighbor(width, cell, j)])
            },
        },
    decreases k,
{
    if k <= 0 {
        0
    } else {
        let before = lemma_lowest(potentials, width, cell, k - 1);
        let next = neighbor(width, cell, k - 1);
        if lowest_below(potentials, width, cell, k) == lowest_below(
            potentials,
            width,
            cell,
            k - 1,
        ) {
            before
        } else {
            k - 1
        }
    }
}

proof fn lemma_drain_is_steepest(potentials: Seq<Single>, width: int, height: int, cell: int)
    requires
        width > 0,
        height > 0,
        0 <= cell < width * height,
        inner(width, height, cell),
    ensures
        match drains_into(potentials, width, cell) {
            Some(to) => is_steepest(potentials, width, height, cell, to),
            None => forall|c: int|
                0 <= c < width * height && #[trigger] touch(width, cell, c) ==> !lower(
                    potentials[c],
                    potentials[cell],
                ),
        },
{
    let best = lemma_lowest(potentials, width, cell, 8);
    match drains_into(potentials, width, cell) {
        Some(to) => {
            lemma_neighbor_touches(width, height, cell, best);
            assert forall|c: int| 0 <= c < width * height && #[trigger] touch(width, cell, c) implies
                !lower(potentials[c], potentials[to]) by {
                let j = lemma_touching_is_neighbor(width, height, cell, c);
                assert(neighbor(width, cell, j) == c);
            }
            assert forall|c: int|
                0 <= c < to && #[trigger] touch(width, cell, c) && lower(
                    potentials[c],
                    potentials[cell],
                ) implies lower(potentials[to], potentials[c]) by {
                let j = lemma_touching_is_neighbor(width, height, cell, c);
                if j > best {
                    lemma_neighbors_in_order(width, cell, best, j);
                }
                assert(neighbor(width, cell, j) == c);
            }
        },
        None => {
            assert forall|c: int| 0 <= c < width * height && #[trigger] touch(width, cell, c) implies
                !lower(potentials[c], potentials[cell]) by {
                let j = lemma_touching_is_neighbor(width, height, cell, c);
                assert(neighbor(width, cell, j) == c);
            }
        },
    }
}

/// Rivers take the steepest way down: every link leads from a cell to the lowest of the
/// eight around it, which lies below it; links come row by row, one for a cell; and every
/// cell within the rim that has a lower cell beside it has one.
pub proof fn rivers_take_the_steepest_way(
    potentials: Seq<Single>,
    width: int,
    height: int,
    cells: int,
)
    requires
        width > 0,
        height > 0,
        0 <= cells <= width * height,
    ensures
        ({
            let links = links_among(potentials, width, height, cells);
            &&& forall|i: int|
                0 <= i < links.len() ==> is_steepest(
                    potentials,
                    width,
                    height,
                    (#[trigger] links[i]).0,
                    links[i].1,
                ) && 0 <= links[i].0 < cells
            &&& forall|i: int, j: int|
                0 <= i < j < links.len() ==> (#[trigger] links[i]).0 < (#[trigger] links[j]).0
            &&& forall|cell: int, c: int|
                0 <= cell < cells && 0 < cell % width < width - 1 && 0 < cell / width < height - 1
                    && 0 <= c < width * height && #[trigger] touch(width, cell, c) && lies_below(
                    potentials[c],
                    potentials[cell],
                ) ==> exists|i: int| 0 <= i < links.len() && (#[trigger] links[i]).0 == cell
        }),
    decreases cells,
{
    let links = links_among(potentials, width, height, cells);
    if cells > 0 {
        rivers_take_the_steepest_way(potentials, width, height, cells - 1);
        let before = links_among(potentials, width, height, cells - 1);
        let last = cells - 1;
        if inner(width, height, last) {
            lemma_drain_is_steepest(potentials, width, height, last);
        }
        assert forall|i: int| 0 <= i < links.len() implies is_steepest(
            potentials,
            width,
            height,
            (#[trigger] links[i]).0,
            links[i].1,
        ) && 0 <= links[i].0 < cells by {
            if i < before.len() {
                assert(links[i] == before[i]);
            }
        }
        assert forall|i: int, j: int| 0 <= i < j < links.len() implies (#[trigger] links[i]).0 < (
        #[trigger] links[j]).0 by {
            assert(links[i] == before[i]);
            if j < before.len() {
                assert(links[j] == before[j]);
            }
        }
        assert forall|cell: int, c: int|
            0 <= cell < cells && 0 < cell % width < width - 1 && 0 < cell / width < height - 1 && 0
                <= c < width * height && #[trigger] touch(width, cell, c) && lies_below(
                potentials[c],
                potentials[cell],
            ) implies exists|i: int| 0 <= i < links.len() && (#[trigger] links[i]).0 == cell by {
            if cell < last {
                let i = choose|i: int| 0 <= i < before.len() && (#[trigger] before[i]).0 == cell;
                assert(links[i] == before[i]);
            } else {
                assert(inner(width, height, cell));
                assert(links[links.len() - 1].0 == cell);
            }
        }
    }
}

} // verus!
