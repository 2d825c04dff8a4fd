//! Downsampling on a grid of voxels.
//!
//! Space is cut into boxes of the leaf size. Every box that holds enough
//! points gives one point, the centroid of the points in it; the other
//! attributes of that point are zero. The box of a point and the centroid of
//! a box are floating-point work and come from the caller: the box of each
//! point as a key of three integers, the floor of each coordinate divided by
//! the leaf size; the centroid of each box as a position. What is decided
//! here is which points are taken, which boxes give a point, and in which
//! order.

use crate::filter::utility::is_finite;
use crate::pc::base::{positions_of, PointCloudBase};
use crate::point::PointBase;
use crate::types::{Float, Position, FLOAT_ONE};
use vstd::prelude::*;

verus! {

/// The box of a point: along each axis, the number of the box.
pub type CellKey = (i32, i32, i32);

/// A point in the sweep: its box, and its index in the cloud.
pub type Entry = (CellKey, usize);

#[derive(Debug)]
pub struct VoxelGrid {
    /// The size of a box along each axis, each a binary32 value above 0.
    pub leaf_size: (Float, Float, Float),
    /// How many points a box must hold to give a point. 0 counts as 1.
    pub min_poins_per_voxel: usize,
}

impl Default for VoxelGrid {
    fn default() -> (r: Self)
        ensures
            r.leaf_size == (FLOAT_ONE, FLOAT_ONE, FLOAT_ONE),
            r.min_poins_per_voxel == 1,
    {
        VoxelGrid { leaf_size: (FLOAT_ONE, FLOAT_ONE, FLOAT_ONE), min_poins_per_voxel: 1 }
    }
}

/// The order of the boxes: by the first axis, then the second, then the
/// third.
pub open spec fn cell_lt(a: CellKey, b: CellKey) -> bool {
    a.0 < b.0 || (a.0 == b.0 && (a.1 < b.1 || (a.1 == b.1 && a.2 < b.2)))
}

/// The order of the entries: by the box, then by the index.
pub open spec fn entry_lt(a: Entry, b: Entry) -> bool {
    cell_lt(a.0, b.0) || (a.0 == b.0 && a.1 < b.1)
}

/// For each position, whether all its coordinates are numbers.
pub open spec fn finite_of(positions: Seq<Position>) -> Seq<bool> {
    Seq::new(positions.len(), |i: int| positions[i].finite())
}

/// The indices of the points that are taken and lie in the box `k`.
pub open spec fn members(taken: Seq<bool>, keys: Seq<CellKey>, k: CellKey) -> Set<int> {
    Set::new(|i: int| 0 <= i < keys.len() && taken[i] && keys[i] == k)
}

/// How many points are taken and lie in the box `k`.
pub open spec fn population(taken: Seq<bool>, keys: Seq<CellKey>, k: CellKey) -> nat {
    members(taken, keys, k).len()
}

/// The box of a cell: that of its first point.
pub open spec fn cell_key(cell: Seq<usize>, keys: Seq<CellKey>) -> CellKey {
    keys[cell[0] as int]
}

/// Whether `cell` lists, by rising index, all points that are taken and lie
/// in one box, and these are `min` at least.
pub open spec fn is_cell(cell: Seq<usize>, taken: Seq<bool>, keys: Seq<CellKey>, min: nat) -> bool {
    &&& cell.len() >= min
    &&& cell.len() >= 1
    &&& forall|a: int|
        0 <= a < cell.len() ==> (#[trigger] cell[a]) < keys.len() && taken[cell[a] as int]
            && keys[cell[a] as int] == cell_key(cell, keys)
    &&& forall|a: int, b: int| 0 <= a < b < cell.len() ==> cell[a] < cell[b]
    &&& forall|i: int|
        0 <= i < keys.len() && #[trigger] taken[i] && keys[i] == cell_key(cell, keys)
            ==> exists|a: int| 0 <= a < cell.len() && #[trigger] cell[a] == i
}

/// Whether `cells` is the grid of the points: one cell for each box that
/// holds `min` taken points at least, in the order of the boxes.
pub open spec fn is_grid(
    cells: Seq<Seq<usize>>,
    taken: Seq<bool>,
    keys: Seq<CellKey>,
    min: nat,
) -> bool {
    &&& forall|g: int| 0 <= g < cells.len() ==> is_cell(#[trigger] cells[g], taken, keys, min)
    &&& forall|g: int, h: int|
        0 <= g < h < cells.len() ==> cell_lt(
            cell_key(#[trigger] cells[g], keys),
            cell_key(#[trigger] cells[h], keys),
        )
    &&& forall|i: int|
        0 <= i < keys.len() && #[trigger] taken[i] && population(taken, keys, keys[i]) >= min
            ==> exists|g: int| 0 <= g < cells.len() && cell_key(#[trigger] cells[g], keys) == keys[i]
}

/// A point that is not taken is in no cell, and where no point is taken
/// there is no cell.
pub proof fn lemma_grid_takes(
    cells: Seq<Seq<usize>>,
    taken: Seq<bool>,
    keys: Seq<CellKey>,
    min: nat,
)
    requires
        is_grid(cells, taken, keys, min),
    ensures
        forall|g: int, a: int|
            0 <= g < cells.len() && 0 <= a < cells[g].len() ==> taken[(#[trigger] cells[g][a]) as int],
        (forall|i: int| 0 <= i < keys.len() ==> !#[trigger] taken[i]) ==> cells.len() == 0,
{
    assert forall|g: int, a: int| 0 <= g < cells.len() && 0 <= a < cells[g].len() implies taken[(
    #[trigger] cells[g][a]) as int] by {
        assert(is_cell(cells[g], taken, keys, min));
    }
    if cells.len() > 0 {
        assert(is_cell(cells[0], taken, keys, min));
        assert(taken[cells[0][0] as int]);
    }
}

/// Two rising sequences with the same elements are one sequence.
proof fn lemma_rising_unique<T>(a: Seq<T>, b: Seq<T>, lt: spec_fn(T, T) -> bool)
    requires
        forall|x: T, y: T| !(#[trigger] lt(x, y) && lt(y, x)),
        forall|i: int, j: int| 0 <= i < j < a.len() ==> #[trigger] lt(a[i], a[j]),
        forall|i: int, j: int| 0 <= i < j < b.len() ==> #[trigger] lt(b[i], b[j]),
        forall|i: int| 0 <= i < a.len() ==> b.contains(#[trigger] a[i]),
        forall|i: int| 0 <= i < b.len() ==> a.contains(#[trigger] b[i]),
    ensures
        a == b,
{
    assert forall|j: int| 0 <= j < a.len() && j < b.len() implies a[j] == b[j] by {
        lemma_rising_at(a, b, lt, j);
    }
    if a.len() < b.len() {
        let x = b[a.len() as int];
        assert(a.contains(x));
        let t = choose|t: int| 0 <= t < a.len() && a[t] == x;
        assert(lt(b[t], b[a.len() as int]));
        assert(!(lt(x, x) && lt(x, x)));
    }
    if b.len() < a.len() {
        let x = a[b.len() as int];
        assert(b.contains(x));
        let t = choose|t: int| 0 <= t < b.len() && b[t] == x;
        assert(lt(a[t], a[b.len() as int]));
        assert(!(lt(x, x) && lt(x, x)));
    }
    assert(a =~= b);
}

proof fn lemma_rising_at<T>(a: Seq<T>, b: Seq<T>, lt: spec_fn(T, T) -> bool, j: int)
    requires
        forall|x: T, y: T| !(#[trigger] lt(x, y) && lt(y, x)),
        forall|i: int, j: int| 0 <= i < j < a.len() ==> #[trigger] lt(a[i], a[j]),
        forall|i: int, j: int| 0 <= i < j < b.len() ==> #[trigger] lt(b[i], b[j]),
        forall|i: int| 0 <= i < a.len() ==> b.contains(#[trigger] a[i]),
        forall|i: int| 0 <= i < b.len() ==> a.contains(#[trigger] b[i]),
        0 <= j < a.len(),
        j < b.len(),
    ensures
        a[j] == b[j],
    decreases j,
{
    assert forall|t: int| 0 <= t < j implies a[t] == b[t] by {
        lemma_rising_at(a, b, lt, t);
    }
    assert(b.contains(a[j]));
    let t = choose|t: int| 0 <= t < b.len() && b[t] == a[j];
    assert(a.contains(b[j]));
    let u = choose|u: int| 0 <= u < a.len() && a[u] == b[j];
    if t < j {
        assert(lt(a[t], a[j]));
        assert(!(lt(a[j], a[j]) && lt(a[j], a[j])));
    }
    if u < j {
        assert(lt(b[u], b[j]));
        assert(!(lt(b[j], b[j]) && lt(b[j], b[j])));
    }
    if a[j] != b[j] {
        assert(lt(b[j], b[t]));
        assert(lt(a[j], a[u]));
        assert(!(lt(a[j], b[j]) && lt(b[j], a[j])));
    }
}

/// A cell holds as many points as are taken and lie in its box.
proof fn lemma_cell_population(cell: Seq<usize>, taken: Seq<bool>, keys: Seq<CellKey>, min: nat)
    requires
        is_cell(cell, taken, keys, min),
    ensures
        population(taken, keys, cell_key(cell, keys)) == cell.len(),
{
    let k = cell_key(cell, keys);
    let idx = Seq::new(cell.len(), |a: int| cell[a] as int);
    assert(idx.no_duplicates()) by {
        assert forall|i: int, j: int| 0 <= i < idx.len() && 0 <= j < idx.len() && i != j implies idx[i]
            != idx[j] by {
            if i < j {
                assert(cell[i] < cell[j]);
            } else {
                assert(cell[j] < cell[i]);
            }
        }
    }
    assert(idx.to_set() =~= members(taken, keys, k)) by {
        assert forall|i: int| idx.to_set().contains(i) <==> members(taken, keys, k).contains(
            i,
        ) by {
            if idx.contains(i) {
                let a = choose|a: int| 0 <= a < idx.len() && idx[a] == i;
                assert(cell[a] == i);
            }
            if members(taken, keys, k).contains(i) {
                assert(taken[i]);
                let a = choose|a: int| 0 <= a < cell.len() && #[trigger] cell[a] == i;
                assert(idx[a] == i);
            }
        }
    }
    idx.unique_seq_to_set();
}

/// Two cells of one box are one cell.
proof fn lemma_cell_unique(
    c: Seq<usize>,
    d: Seq<usize>,
    taken: Seq<bool>,
    keys: Seq<CellKey>,
    min: nat,
)
    requires
        is_cell(c, taken, keys, min),
        is_cell(d, taken, keys, min),
        cell_key(c, keys) == cell_key(d, keys),
    ensures
        c == d,
{
    let lt = |x: usize, y: usize| x < y;
    assert forall|i: int| 0 <= i < c.len() implies d.contains(#[trigger] c[i]) by {
        assert(taken[c[i] as int]);
        let a = choose|a: int| 0 <= a < d.len() && #[trigger] d[a] == c[i] as int;
        assert(d[a] == c[i]);
    }
    assert forall|i: int| 0 <= i < d.len() implies c.contains(#[trigger] d[i]) by {
        assert(taken[d[i] as int]);
        let a = choose|a: int| 0 <= a < c.len() && #[trigger] c[a] == d[i] as int;
        assert(c[a] == d[i]);
    }
    lemma_rising_unique(c, d, lt);
}

/// The grid of the points is one grid: the boxes with enough points, their
/// order and the points of each are all told.
pub proof fn lemma_grid_unique(
    c: Seq<Seq<usize>>,
    d: Seq<Seq<usize>>,
    taken: Seq<bool>,
    keys: Seq<CellKey>,
    min: nat,
)
    requires
        is_grid(c, taken, keys, min),
        is_grid(d, taken, keys, min),
    ensures
        c == d,
{
    let ck = Seq::new(c.len(), |g: int| cell_key(c[g], keys));
    let dk = Seq::new(d.len(), |g: int| cell_key(d[g], keys));
    let lt = |x: CellKey, y: CellKey| cell_lt(x, y);
    assert forall|g: int| 0 <= g < ck.len() implies dk.contains(#[trigger] ck[g]) by {
        lemma_grid_has(c, d, taken, keys, min, g);
        let h = choose|h: int| 0 <= h < d.len() && cell_key(#[trigger] d[h], keys) == ck[g];
        assert(dk[h] == ck[g]);
    }
    assert forall|g: int| 0 <= g < dk.len() implies ck.contains(#[trigger] dk[g]) by {
        lemma_grid_has(d, c, taken, keys, min, g);
        let h = choose|h: int| 0 <= h < c.len() && cell_key(#[trigger] c[h], keys) == dk[g];
        assert(ck[h] == dk[g]);
    }
    assert forall|i: int, j: int| 0 <= i < j < ck.len() implies #[trigger] lt(ck[i], ck[j]) by {
        assert(cell_lt(cell_key(c[i], keys), cell_key(c[j], keys)));
    }
    assert forall|i: int, j: int| 0 <= i < j < dk.len() implies #[trigger] lt(dk[i], dk[j]) by {
        assert(cell_lt(cell_key(d[i], keys), cell_key(d[j], keys)));
    }
    lemma_rising_unique(ck, dk, lt);
    assert(c.len() == d.len());
    assert forall|g: int| 0 <= g < c.len() implies c[g] == d[g] by {
        assert(ck[g] == dk[g]);
        assert(is_cell(c[g], taken, keys, min));
        assert(is_cell(d[g], taken, keys, min));
        lemma_cell_unique(c[g], d[g], taken, keys, min);
    }
    assert(c =~= d);
}

/// A box that has a cell in one grid has a cell in every grid.
proof fn lemma_grid_has(
    c: Seq<Seq<usize>>,
    d: Seq<Seq<usize>>,
    taken: Seq<bool>,
    keys: Seq<CellKey>,
    min: nat,
    g: int,
)
    requires
        is_grid(c, taken, keys, min),
        is_grid(d, taken, keys, min),
        0 <= g < c.len(),
    ensures
        exists|h: int| 0 <= h < d.len() && cell_key(#[trigger] d[h], keys) == cell_key(c[g], keys),
{
    assert(is_cell(c[g], taken, keys, min));
    lemma_cell_population(c[g], taken, keys, min);
    let i = c[g][0] as int;
    assert(taken[i]);
    assert(keys[i] == cell_key(c[g], keys));
}

/// The indices of the points that are taken, by rising index.
pub open spec fn kept(taken: Seq<bool>) -> Seq<int>
    decreases taken.len(),
{
    if taken.len() == 0 {
        Seq::empty()
    } else if taken.last() {
        kept(taken.drop_last()).push(taken.len() - 1)
    } else {
        kept(taken.drop_last())
    }
}

/// What is left of `all` where only the taken points are kept, in their
/// order.
pub open spec fn kept_of<T>(taken: Seq<bool>, all: Seq<T>) -> Seq<T> {
    Seq::new(kept(taken).len(), |j: int| all[kept(taken)[j]])
}

/// The cells of the kept points, each index put back to what it was among
/// all points.
pub open spec fn restored(cells: Seq<Seq<usize>>, taken: Seq<bool>) -> Seq<Seq<usize>> {
    Seq::new(
        cells.len(),
        |g: int| Seq::new(cells[g].len(), |a: int| kept(taken)[cells[g][a] as int] as usize),
    )
}

/// The kept indices are the indices of the taken points, each once, and
/// they rise.
pub proof fn lemma_kept(taken: Seq<bool>)
    ensures
        kept(taken).len() <= taken.len(),
        forall|j: int|
            0 <= j < kept(taken).len() ==> 0 <= (#[trigger] kept(taken)[j]) < taken.len()
                && taken[kept(taken)[j]],
        forall|j: int, l: int|
            0 <= j < l < kept(taken).len() ==> (#[trigger] kept(taken)[j]) < (#[trigger] kept(
                taken,
            )[l]),
        forall|i: int|
            0 <= i < taken.len() && #[trigger] taken[i] ==> exists|j: int|
                0 <= j < kept(taken).len() && #[trigger] kept(taken)[j] == i,
    decreases taken.len(),
{
    if taken.len() > 0 {
        let front = taken.drop_last();
        lemma_kept(front);
        let k = kept(taken);
        let f = kept(front);
        assert forall|j: int| 0 <= j < k.len() implies 0 <= (#[trigger] k[j]) < taken.len()
            && taken[k[j]] by {
            if j < f.len() {
                assert(k[j] == f[j]);
                assert(front[f[j]] == taken[f[j]]);
            }
        }
        assert forall|j: int, l: int| 0 <= j < l < k.len() implies (#[trigger] k[j]) < (
        #[trigger] k[l]) by {
            assert(k[j] == f[j]);
            if l < f.len() {
                assert(k[l] == f[l]);
            }
        }
        assert forall|i: int| 0 <= i < taken.len() && #[trigger] taken[i] implies exists|j: int|
            0 <= j < k.len() && #[trigger] k[j] == i by {
            if i < front.len() {
                assert(front[i]);
                let j = choose|j: int| 0 <= j < f.len() && #[trigger] f[j] == i;
                assert(k[j] == i);
            } else {
                assert(k[k.len() - 1] == i);
            }
        }
    }
}

/// A box holds as many kept points as it holds taken points.
proof fn lemma_kept_population(taken: Seq<bool>, keys: Seq<CellKey>, k: CellKey)
    requires
        taken.len() == keys.len(),
    ensures
        population(Seq::new(kept(taken).len(), |j: int| true), kept_of(taken, keys), k)
            == population(taken, keys, k),
{
    lemma_kept(taken);
    let m = kept(taken).len() as int;
    let x = members(Seq::new(kept(taken).len(), |j: int| true), kept_of(taken, keys), k);
    let y = members(taken, keys, k);
    let f = |j: int| kept(taken)[j];
    vstd::set_lib::lemma_int_range(0, m);
    assert(x.subset_of(vstd::set_lib::set_int_range(0, m)));
    vstd::set_lib::lemma_set_subset_finite(vstd::set_lib::set_int_range(0, m), x);
    assert(vstd::relations::injective_on(f, x)) by {
        assert forall|a: int, b: int|
            x.contains(a) && x.contains(b) && #[trigger] f(a) == #[trigger] f(b) implies a
            == b by {
            if a < b {
                assert(kept(taken)[a] < kept(taken)[b]);
            } else if b < a {
                assert(kept(taken)[b] < kept(taken)[a]);
            }
        }
    }
    assert(x.map(f) =~= y) by {
        assert forall|i: int| x.map(f).contains(i) <==> y.contains(i) by {
            if x.map(f).contains(i) {
                let j = choose|j: int| x.contains(j) && i == f(j);
                assert(kept_of(taken, keys)[j] == keys[kept(taken)[j]]);
                assert(taken[kept(taken)[j]]);
            }
            if y.contains(i) {
                assert(taken[i]);
                let j = choose|j: int| 0 <= j < kept(taken).len() && #[trigger] kept(taken)[j] == i;
                assert(kept_of(taken, keys)[j] == keys[i]);
                assert(x.contains(j));
                assert(f(j) == i);
            }
        }
    }
    vstd::set_lib::lemma_map_size(x, y, f);
}

/// The grid of the kept points, with each index put back, is the grid of
/// all points: a point that is not taken changes no cell.
pub proof fn lemma_grid_restored(
    cells: Seq<Seq<usize>>,
    taken: Seq<bool>,
    keys: Seq<CellKey>,
    min: nat,
)
    requires
        taken.len() == keys.len(),
        keys.len() <= usize::MAX,
        is_grid(cells, Seq::new(kept(taken).len(), |j: int| true), kept_of(taken, keys), min),
    ensures
        is_grid(restored(cells, taken), taken, keys, min),
{
    lemma_kept(taken);
    let all = Seq::new(kept(taken).len(), |j: int| true);
    let keys2 = kept_of(taken, keys);
    let k = kept(taken);
    let r = restored(cells, taken);
    assert forall|g: int| 0 <= g < r.len() implies is_cell(#[trigger] r[g], taken, keys, min)
        && cell_key(r[g], keys) == cell_key(cells[g], keys2) by {
        let c = cells[g];
        let d = r[g];
        assert(is_cell(c, all, keys2, min));
        assert forall|a: int| 0 <= a < d.len() implies d[a] == k[c[a] as int] && (#[trigger] d[a])
            < keys.len() && taken[d[a] as int] && keys[d[a] as int] == keys2[c[a] as int] by {
            assert(c[a] < keys2.len());
            assert(0 <= k[c[a] as int] < taken.len());
        }
        assert(d[0] == k[c[0] as int]);
        assert(cell_key(d, keys) == cell_key(c, keys2));
        assert forall|a: int| 0 <= a < d.len() implies (#[trigger] d[a]) < keys.len()
            && taken[d[a] as int] && keys[d[a] as int] == cell_key(d, keys) by {
            assert(keys2[c[a] as int] == cell_key(c, keys2));
        }
        assert forall|a: int, b: int| 0 <= a < b < d.len() implies d[a] < d[b] by {
            assert(c[a] < c[b]);
            assert(k[c[a] as int] < k[c[b] as int]);
        }
        assert forall|i: int|
            0 <= i < keys.len() && #[trigger] taken[i] && keys[i] == cell_key(
                d,
                keys,
            ) implies exists|a: int| 0 <= a < d.len() && #[trigger] d[a] == i by {
            let j = choose|j: int| 0 <= j < k.len() && #[trigger] k[j] == i;
            assert(all[j]);
            assert(keys2[j] == keys[i]);
            let a = choose|a: int| 0 <= a < c.len() && #[trigger] c[a] == j;
            assert(d[a] == i);
        }
    }
    assert forall|g: int, h: int| 0 <= g < h < r.len() implies cell_lt(
        cell_key(#[trigger] r[g], keys),
        cell_key(#[trigger] r[h], keys),
    ) by {
        assert(is_cell(r[g], taken, keys, min) && cell_key(r[g], keys) == cell_key(
            cells[g],
            keys2,
        ));
        assert(is_cell(r[h], taken, keys, min) && cell_key(r[h], keys) == cell_key(
            cells[h],
            keys2,
        ));
        assert(cell_lt(cell_key(cells[g], keys2), cell_key(cells[h], keys2)));
    }
    assert forall|i: int|
        0 <= i < keys.len() && #[trigger] taken[i] && population(taken, keys, keys[i])
            >= min implies exists|g: int|
        0 <= g < r.len() && cell_key(#[trigger] r[g], keys) == keys[i] by {
        let j = choose|j: int| 0 <= j < k.len() && #[trigger] k[j] == i;
        lemma_kept_population(taken, keys, keys[i]);
        assert(all[j]);
        assert(keys2[j] == keys[i]);
        let g = choose|g: int| 0 <= g < cells.len() && cell_key(#[trigger] cells[g], keys2) == keys2[j];
        assert(is_cell(r[g], taken, keys, min) && cell_key(r[g], keys) == cell_key(
            cells[g],
            keys2,
        ));
    }
}

/// A cloud and the same cloud without its points that have a coordinate
/// that is no number have the same grid: as many cells, and in each cell
/// the same positions in the same order. `whole` is the grid of all points,
/// `part` that of the points that are left.
pub proof fn lemma_non_finite_points_change_nothing(
    positions: Seq<Position>,
    keys: Seq<CellKey>,
    whole: Seq<Seq<usize>>,
    part: Seq<Seq<usize>>,
    min: nat,
)
    requires
        keys.len() == positions.len(),
        positions.len() <= usize::MAX,
        is_grid(whole, finite_of(positions), keys, min),
        is_grid(
            part,
            finite_of(kept_of(finite_of(positions), positions)),
            kept_of(finite_of(positions), keys),
            min,
        ),
    ensures
        whole == restored(part, finite_of(positions)),
        whole.len() == part.len(),
        forall|g: int, a: int|
            0 <= g < whole.len() && 0 <= a < whole[g].len() ==> whole[g].len() == part[g].len()
                && positions[(#[trigger] whole[g][a]) as int] == kept_of(
                finite_of(positions),
                positions,
            )[part[g][a] as int],
{
    let taken = finite_of(positions);
    let left = kept_of(taken, positions);
    lemma_kept(taken);
    assert(finite_of(left) =~= Seq::new(kept(taken).len(), |j: int| true)) by {
        assert forall|j: int| 0 <= j < left.len() implies finite_of(left)[j] by {
            assert(taken[kept(taken)[j]]);
        }
    }
    lemma_grid_restored(part, taken, keys, min);
    lemma_grid_unique(whole, restored(part, taken), taken, keys, min);
    assert forall|g: int, a: int| 0 <= g < whole.len() && 0 <= a < whole[g].len() implies whole[g].len()
        == part[g].len() && positions[(#[trigger] whole[g][a]) as int] == left[part[g][a] as int] by {
        assert(is_cell(part[g], finite_of(left), kept_of(taken, keys), min));
        assert(part[g][a] < kept(taken).len());
        assert(0 <= kept(taken)[part[g][a] as int] < taken.len());
    }
}

/// Whether the entries are those of the taken points, each once, in their
/// order.
pub open spec fn is_sweep(s: Seq<Entry>, taken: Seq<bool>, keys: Seq<CellKey>) -> bool {
    &&& forall|p: int|
        0 <= p < s.len() ==> (#[trigger] s[p]).1 < keys.len() && taken[s[p].1 as int]
            && keys[s[p].1 as int] == s[p].0
    &&& forall|p: int, q: int| 0 <= p < q < s.len() ==> entry_lt(#[trigger] s[p], #[trigger] s[q])
    &&& forall|i: int|
        0 <= i < keys.len() && #[trigger] taken[i] ==> exists|p: int|
            0 <= p < s.len() && (#[trigger] s[p]).0 == keys[i] && s[p].1 == i
}

/// `<[T]>::sort` on entries: the entries are put in the order of their
/// boxes, and entries of one box in the order of their indices. None is
/// lost and none is added.
#[verifier::external_body]
fn sort_entries(v: &mut Vec<Entry>)
    ensures
        final(v)@.to_multiset() == old(v)@.to_multiset(),
        forall|p: int, q: int|
            0 <= p < q < final(v)@.len() ==> final(v)@[p] == final(v)@[q] || entry_lt(
                #[trigger] final(v)@[p],
                #[trigger] final(v)@[q],
            ),
{
    v.sort();
}

/// Sorting the entries of the taken points gives the sweep.
proof fn lemma_sorted_is_sweep(e: Seq<Entry>, s: Seq<Entry>, taken: Seq<bool>, keys: Seq<CellKey>)
    requires
        s.to_multiset() == e.to_multiset(),
        forall|p: int, q: int|
            0 <= p < q < s.len() ==> s[p] == s[q] || entry_lt(#[trigger] s[p], #[trigger] s[q]),
        forall|p: int|
            0 <= p < e.len() ==> (#[trigger] e[p]).1 < keys.len() && taken[e[p].1 as int]
                && keys[e[p].1 as int] == e[p].0,
        forall|p: int, q: int| 0 <= p < q < e.len() ==> (#[trigger] e[p]).1 < (#[trigger] e[q]).1,
        forall|i: int|
            0 <= i < keys.len() && #[trigger] taken[i] ==> exists|p: int|
                0 <= p < e.len() && (#[trigger] e[p]).0 == keys[i] && e[p].1 == i,
    ensures
        is_sweep(s, taken, keys),
        s.len() == e.len(),
{
    vstd::seq_lib::to_multiset_len(e);
    vstd::seq_lib::to_multiset_len(s);
    assert forall|x: Entry| s.contains(x) <==> e.contains(x) by {
        vstd::seq_lib::to_multiset_contains(e, x);
        vstd::seq_lib::to_multiset_contains(s, x);
    }
    assert(e.no_duplicates());
    e.lemma_multiset_has_no_duplicates();
    s.lemma_multiset_has_no_duplicates_conv();
    assert forall|p: int| 0 <= p < s.len() implies (#[trigger] s[p]).1 < keys.len() && taken[s[p].1 as int]
        && keys[s[p].1 as int] == s[p].0 by {
        assert(s.contains(s[p]));
        let q = choose|q: int| 0 <= q < e.len() && e[q] == s[p];
        assert(e[q].1 < keys.len());
    }
    assert forall|i: int| 0 <= i < keys.len() && #[trigger] taken[i] implies exists|p: int|
        0 <= p < s.len() && (#[trigger] s[p]).0 == keys[i] && s[p].1 == i by {
        let q = choose|q: int| 0 <= q < e.len() && (#[trigger] e[q]).0 == keys[i] && e[q].1 == i;
        assert(e.contains(e[q]));
        assert(s.contains(e[q]));
        let p = choose|p: int| 0 <= p < s.len() && s[p] == e[q];
        assert(s[p].0 == keys[i]);
    }
}

/// A run of the sweep that is all of one box holds the points of that box,
/// each once.
proof fn lemma_run(s: Seq<Entry>, taken: Seq<bool>, keys: Seq<CellKey>, a: int, b: int)
    requires
        is_sweep(s, taken, keys),
        0 <= a < b <= s.len(),
        forall|p: int| a <= p < b ==> (#[trigger] s[p]).0 == s[a].0,
        a == 0 || s[a - 1].0 != s[a].0,
        b == s.len() || s[b].0 != s[a].0,
    ensures
        population(taken, keys, s[a].0) == b - a,
        forall|i: int|
            0 <= i < keys.len() && #[trigger] taken[i] && keys[i] == s[a].0 ==> exists|p: int|
                a <= p < b && (#[trigger] s[p]).1 == i,
{
    let k = s[a].0;
    let idx = Seq::new((b - a) as nat, |j: int| s[a + j].1 as int);
    assert forall|i: int| 0 <= i < keys.len() && #[trigger] taken[i] && keys[i] == k implies exists|
        p: int,
    |
        a <= p < b && (#[trigger] s[p]).1 == i by {
        let p = choose|p: int| 0 <= p < s.len() && (#[trigger] s[p]).0 == keys[i] && s[p].1 == i;
        if p < a {
            assert(entry_lt(s[p], s[a - 1]) || p == a - 1);
            assert(entry_lt(s[a - 1], s[a]));
        }
        if p >= b {
            assert(entry_lt(s[b], s[p]) || p == b);
            assert(entry_lt(s[a], s[b]));
        }
        assert(a <= p < b);
    }
    assert(idx.no_duplicates()) by {
        assert forall|i: int, j: int| 0 <= i < idx.len() && 0 <= j < idx.len() && i != j implies idx[i]
            != idx[j] by {
            if i < j {
                assert(entry_lt(s[a + i], s[a + j]));
            } else {
                assert(entry_lt(s[a + j], s[a + i]));
            }
        }
    }
    assert(idx.to_set() =~= members(taken, keys, k)) by {
        assert forall|i: int| idx.to_set().contains(i) <==> members(taken, keys, k).contains(
            i,
        ) by {
            if idx.contains(i) {
                let j = choose|j: int| 0 <= j < idx.len() && idx[j] == i;
                assert(s[a + j].1 == i);
            }
            if members(taken, keys, k).contains(i) {
                assert(taken[i]);
                let p = choose|p: int| a <= p < b && (#[trigger] s[p]).1 == i;
                assert(idx[p - a] == i);
            }
        }
    }
    idx.unique_seq_to_set();
}

impl VoxelGrid {
    /// A grid of boxes of size 1 that gives a point for every box with a
    /// point in it.
    pub fn new() -> (r: Self)
        ensures
            r.leaf_size == (FLOAT_ONE, FLOAT_ONE, FLOAT_ONE),
            r.min_poins_per_voxel == 1,
    {
        VoxelGrid { leaf_size: (FLOAT_ONE, FLOAT_ONE, FLOAT_ONE), min_poins_per_voxel: 1 }
    }

    /// How many points a box must hold to give a point: 1 at least.
    pub open spec fn threshold(&self) -> nat {
        if self.min_poins_per_voxel < 1 {
            1
        } else {
            self.min_poins_per_voxel as nat
        }
    }

    /// Groups the points of a cloud by their boxes. `keys` holds the box of
    /// each point. A point with a coordinate that is no number is left out,
    /// whatever its key. Each cell lists the indices of the points of one
    /// box by rising index; there is a cell for each box with enough points,
    /// and the cells come in the order of the boxes.
    pub fn cells<PC: PointCloudBase>(&self, pc: &PC, keys: &Vec<CellKey>) -> (r: Vec<Vec<usize>>)
        requires
            pc.wf(),
            keys@.len() == pc.points().len(),
        ensures
            is_grid(r.deep_view(), finite_of(positions_of(pc.points())), keys@, self.threshold()),
            (forall|i: int|
                0 <= i < pc.points().len() ==> !(#[trigger] pc.points()[i]).position_spec().finite())
                ==> r@.len() == 0,
    {
        let positions = pc.positions();
        let ghost taken = finite_of(positions_of(pc.points()));
        let min = if self.min_poins_per_voxel < 1 {
            1
        } else {
            self.min_poins_per_voxel
        };
        let entries = sweep_of(positions, keys);
        let cells = group(&entries, Ghost(taken), Ghost(keys@), min);
        proof {
            lemma_grid_takes(cells.deep_view(), taken, keys@, min as nat);
            if forall|i: int|
                0 <= i < pc.points().len() ==> !(#[trigger] pc.points()[i]).position_spec().finite() {
                assert forall|i: int| 0 <= i < keys@.len() implies !#[trigger] taken[i] by {
                    assert(!pc.points()[i].position_spec().finite());
                }
            }
        }
        cells
    }

    /// The cloud of the centroids: one point for each cell, at the
    /// centroid of the cell, its other attributes zero.
    pub fn filter<PC: PointCloudBase>(&self, cells: &Vec<Vec<usize>>, centroids: &Vec<Position>) -> (out:
        PC)
        requires
            centroids@.len() == cells@.len(),
        ensures
            out.wf(),
            out.points() == Seq::new(
                cells@.len(),
                |g: int| <PC::Point as PointBase>::at(centroids@[g]),
            ),
    {
        let n = cells.len();
        let mut out = PC::new();
        let ghost all = Seq::new(n as nat, |g: int| <PC::Point as PointBase>::at(centroids@[g]));
        let mut g: usize = 0;
        while g < n
            invariant
                g <= n,
                n == cells@.len(),
                n == centroids@.len(),
                all == Seq::new(n as nat, |g: int| <PC::Point as PointBase>::at(centroids@[g])),
                out.wf(),
                out.points() == all.take(g as int),
            decreases n - g,
        {
            let mut point = <PC::Point as PointBase>::zero();
            proof {
                point.lemma_moved(Position::origin(), centroids@[g as int]);
            }
            *point.position_mut() = centroids[g];
            out.push(point);
            proof {
                assert(all.take(g + 1) =~= all.take(g as int).push(point));
            }
            g += 1;
        }
        proof {
            assert(all.take(n as int) =~= all);
        }
        out
    }
}

/// The entries of the points whose coordinates are all numbers, in the
/// order of their boxes.
fn sweep_of(positions: &[Position], keys: &Vec<CellKey>) -> (r: Vec<Entry>)
    requires
        keys@.len() == positions@.len(),
    ensures
        is_sweep(r@, finite_of(positions@), keys@),
{
    let n = positions.len();
    let ghost taken = finite_of(positions@);
    let mut entries: Vec<Entry> = Vec::with_capacity(n);
    let mut i: usize = 0;
    while i < n
        invariant
            i <= n,
            n == positions@.len(),
            n == keys@.len(),
            taken == finite_of(positions@),
            forall|p: int|
                0 <= p < entries@.len() ==> (#[trigger] entries@[p]).1 < i && taken[entries@[p].1 as int]
                    && keys@[entries@[p].1 as int] == entries@[p].0,
            forall|p: int, q: int|
                0 <= p < q < entries@.len() ==> (#[trigger] entries@[p]).1 < (
                #[trigger] entries@[q]).1,
            forall|t: int|
                0 <= t < i && #[trigger] taken[t] ==> exists|p: int|
                    0 <= p < entries@.len() && (#[trigger] entries@[p]).0 == keys@[t]
                        && entries@[p].1 == t,
        decreases n - i,
    {
        if is_finite(&positions[i]) {
            let ghost before = entries@;
            entries.push((keys[i], i));
            proof {
                assert forall|t: int| 0 <= t < i + 1 && #[trigger] taken[t] implies exists|p: int|
                    0 <= p < entries@.len() && (#[trigger] entries@[p]).0 == keys@[t]
                        && entries@[p].1 == t by {
                    if t < i {
                        let p = choose|p: int|
                            0 <= p < before.len() && (#[trigger] before[p]).0 == keys@[t]
                                && before[p].1 == t;
                        assert(entries@[p] == before[p]);
                    } else {
                        assert(entries@[before.len() as int].1 == t);
                    }
                }
            }
        }
        i += 1;
    }
    let ghost unsorted = entries@;
    sort_entries(&mut entries);
    proof {
        lemma_sorted_is_sweep(unsorted, entries@, taken, keys@);
    }
    entries
}

/// Whether two boxes are one box.
fn same_cell(a: CellKey, b: CellKey) -> (r: bool)
    ensures
        r == (a == b),
{
    a.0 == b.0 && a.1 == b.1 && a.2 == b.2
}

/// Where the run of one box that starts at `from` ends.
fn run_end(s: &Vec<Entry>, from: usize) -> (end: usize)
    requires
        from < s@.len(),
    ensures
        from < end <= s@.len(),
        forall|p: int| from <= p < end ==> (#[trigger] s@[p]).0 == s@[from as int].0,
        end == s@.len() || s@[end as int].0 != s@[from as int].0,
{
    let n = s.len();
    let key = s[from].0;
    let mut end: usize = from + 1;
    while end < n && same_cell(s[end].0, key)
        invariant
            from < end <= n,
            n == s@.len(),
            key == s@[from as int].0,
            forall|p: int| from <= p < end ==> (#[trigger] s@[p]).0 == key,
        decreases n - end,
    {
        end += 1;
    }
    end
}

/// The indices of the entries from `from` to `end`.
fn indices_of(s: &Vec<Entry>, from: usize, end: usize) -> (cell: Vec<usize>)
    requires
        from <= end <= s@.len(),
    ensures
        cell@.len() == end - from,
        forall|j: int| 0 <= j < cell@.len() ==> cell@[j] == s@[from + j].1,
{
    let mut cell: Vec<usize> = Vec::new();
    let mut p: usize = from;
    while p < end
        invariant
            from <= p <= end <= s@.len(),
            cell@.len() == p - from,
            forall|j: int| 0 <= j < cell@.len() ==> cell@[j] == s@[from + j].1,
        decreases end - p,
    {
        cell.push(s[p].1);
        p += 1;
    }
    cell
}

/// Sweeps the entries: a cursor goes from run to run of one box. Where the
/// entry `min - 1` places behind the cursor is of another box, or there is
/// none, the run is too short and is passed over; else it becomes a cell.
fn group(s: &Vec<Entry>, Ghost(taken): Ghost<Seq<bool>>, Ghost(keys): Ghost<Seq<CellKey>>, min: usize) -> (r:
    Vec<Vec<usize>>)
    requires
        is_sweep(s@, taken, keys),
        min >= 1,
    ensures
        is_grid(r.deep_view(), taken, keys, min as nat),
{
    let n = s.len();
    let mut cells: Vec<Vec<usize>> = Vec::new();
    let mut cursor: usize = 0;
    while cursor < n
        invariant
            cursor <= n,
            n == s@.len(),
            min >= 1,
            is_sweep(s@, taken, keys),
            cursor == 0 || cursor == n || s@[cursor - 1].0 != s@[cursor as int].0,
            forall|g: int|
                0 <= g < cells@.len() ==> is_cell(
                    #[trigger] cells.deep_view()[g],
                    taken,
                    keys,
                    min as nat,
                ),
            forall|g: int, h: int|
                0 <= g < h < cells@.len() ==> cell_lt(
                    cell_key(#[trigger] cells.deep_view()[g], keys),
                    cell_key(#[trigger] cells.deep_view()[h], keys),
                ),
            forall|g: int, p: int|
                0 <= g < cells@.len() && cursor <= p < n ==> cell_lt(
                    cell_key(#[trigger] cells.deep_view()[g], keys),
                    (#[trigger] s@[p]).0,
                ),
            forall|p: int|
                0 <= p < cursor && population(taken, keys, (#[trigger] s@[p]).0) >= min
                    ==> exists|g: int|
                    0 <= g < cells@.len() && cell_key(#[trigger] cells.deep_view()[g], keys)
                        == s@[p].0,
        decreases n - cursor,
    {
        let end = run_end(s, cursor);
        let key = s[cursor].0;
        let full = n - cursor >= min && same_cell(s[cursor + (min - 1)].0, key);
        proof {
            lemma_run(s@, taken, keys, cursor as int, end as int);
            if full && end - cursor < min {
                assert(entry_lt(s@[end as int], s@[cursor + (min - 1)]) || end == cursor + (min - 1));
                assert(entry_lt(s@[cursor as int], s@[end as int]));
            }
            if !full && end - cursor >= min {
                assert(s@[cursor + (min - 1)].0 == key);
            }
            assert forall|g: int, p: int| 0 <= g < cells@.len() && end <= p < n implies cell_lt(
                cell_key(#[trigger] cells.deep_view()[g], keys),
                (#[trigger] s@[p]).0,
            ) by {}
        }
        if full {
            let cell = indices_of(s, cursor, end);
            let ghost before = cells.deep_view();
            cells.push(cell);
            proof {
                let c = cell.deep_view();
                assert(c =~= cell@);
                assert(cells.deep_view() =~= before.push(c));
                assert(c[0] == s@[cursor as int].1);
                assert(cell_key(c, keys) == key);
                assert forall|a: int| 0 <= a < c.len() implies (#[trigger] c[a]) < keys.len()
                    && taken[c[a] as int] && keys[c[a] as int] == cell_key(c, keys) by {
                    assert(c[a] == s@[cursor + a].1);
                }
                assert forall|a: int, b: int| 0 <= a < b < c.len() implies c[a] < c[b] by {
                    assert(entry_lt(s@[cursor + a], s@[cursor + b]));
                }
                assert forall|i: int|
                    0 <= i < keys.len() && #[trigger] taken[i] && keys[i] == cell_key(
                        c,
                        keys,
                    ) implies exists|a: int| 0 <= a < c.len() && #[trigger] c[a] == i by {
                    let p = choose|p: int| cursor <= p < end && (#[trigger] s@[p]).1 == i;
                    assert(c[p - cursor] == i);
                }
                assert(is_cell(c, taken, keys, min as nat));
                assert forall|g: int, p: int|
                    0 <= g < cells@.len() && end <= p < n implies cell_lt(
                    cell_key(#[trigger] cells.deep_view()[g], keys),
                    (#[trigger] s@[p]).0,
                ) by {
                    if g == before.len() {
                        assert(entry_lt(s@[end as int], s@[p]) || p == end);
                        assert(entry_lt(s@[cursor as int], s@[end as int]));
                    } else {
                        assert(cells.deep_view()[g] == before[g]);
                    }
                }
                assert forall|g: int, h: int| 0 <= g < h < cells@.len() implies cell_lt(
                    cell_key(#[trigger] cells.deep_view()[g], keys),
                    cell_key(#[trigger] cells.deep_view()[h], keys),
                ) by {
                    assert(cells.deep_view()[g] == before[g]);
                    if h == before.len() {
                        assert(cell_lt(cell_key(before[g], keys), s@[cursor as int].0));
                    } else {
                        assert(cells.deep_view()[h] == before[h]);
                    }
                }
                assert forall|g: int| 0 <= g < cells@.len() implies is_cell(
                    #[trigger] cells.deep_view()[g],
                    taken,
                    keys,
                    min as nat,
                ) by {
                    if g < before.len() {
                        assert(cells.deep_view()[g] == before[g]);
                    }
                }
                assert forall|p: int|
                    0 <= p < end && population(taken, keys, (#[trigger] s@[p]).0)
                        >= min implies exists|g: int|
                    0 <= g < cells@.len() && cell_key(#[trigger] cells.deep_view()[g], keys)
                        == s@[p].0 by {
                    if p < cursor {
                        let g = choose|g: int|
                            0 <= g < before.len() && cell_key(#[trigger] before[g], keys) == s@[p].0;
                        assert(cells.deep_view()[g] == before[g]);
                    } else {
                        assert(cells.deep_view()[before.len() as int] == c);
                    }
                }
            }
        }
        cursor = end;
    }
    proof {
        assert forall|i: int|
            0 <= i < keys.len() && #[trigger] taken[i] && population(taken, keys, keys[i])
                >= min implies exists|g: int|
            0 <= g < cells@.len() && cell_key(#[trigger] cells.deep_view()[g], keys) == keys[i] by {
            let p = choose|p: int|
                0 <= p < s@.len() && (#[trigger] s@[p]).0 == keys[i] && s@[p].1 == i;
            assert(s@[p].0 == keys[i]);
        }
    }
    cells
}

} // verus!
