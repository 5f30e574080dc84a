//! Discrete core of the cosmic-web topological encoder.
//!
//! Points are bucketed into integer grid cells (one cell per connective
//! distance `epsilon`); candidate neighbour pairs are drawn from the same
//! cell and from 13 "forward" neighbouring cells, so that every unordered pair
//! of adjacent cells is examined once.  The points are sorted by cell, so the
//! points of a neighbouring cell are found by binary search and the points
//! of each cell form one run.  Betti numbers are then read off the graph of
//! pairs that lie within `epsilon`.
use vstd::prelude::*;
use crate::union_find::{UnionFind, law_union_merges_exactly};
use vstd::set_lib::{lemma_int_range, lemma_len_subset, lemma_map_size, set_int_range};
use vstd::relations::injective_on;

verus! {

/// Integer grid cell of a point.
pub type Cell = (i32, i32, i32);

/// Offset from a cell to one of the cells it is compared with: the cell
/// itself and the 13 neighbours that come "after" it, so that of the two
/// offsets `o` and `-o` exactly one is listed (for `o != 0`).
pub open spec fn is_forward_offset(dx: int, dy: int, dz: int) -> bool {
    ||| (dx, dy, dz) == (0int, 0int, 0int)
    ||| (dx, dy, dz) == (1int, 0int, 0int)
    ||| (dx, dy, dz) == (0int, 1int, 0int)
    ||| (dx, dy, dz) == (1int, 1int, 0int)
    ||| (dx, dy, dz) == (-1int, 1int, 0int)
    ||| (dx, dy, dz) == (0int, 0int, 1int)
    ||| (dx, dy, dz) == (1int, 0int, 1int)
    ||| (dx, dy, dz) == (-1int, 0int, 1int)
    ||| (dx, dy, dz) == (0int, 1int, 1int)
    ||| (dx, dy, dz) == (1int, 1int, 1int)
    ||| (dx, dy, dz) == (-1int, 1int, 1int)
    ||| (dx, dy, dz) == (0int, -1int, 1int)
    ||| (dx, dy, dz) == (1int, -1int, 1int)
    ||| (dx, dy, dz) == (-1int, -1int, 1int)
}

/// `(i, j)` is a candidate pair: point `j` lies in a forward neighbour cell of
/// point `i`'s cell, and when both share a cell, `i < j`.
pub open spec fn is_candidate_pair(cells: Seq<Cell>, i: int, j: int) -> bool {
    let dx = cells[j].0 - cells[i].0;
    let dy = cells[j].1 - cells[i].1;
    let dz = cells[j].2 - cells[i].2;
    &&& 0 <= i < cells.len()
    &&& 0 <= j < cells.len()
    &&& is_forward_offset(dx, dy, dz)
    &&& ((dx, dy, dz) == (0int, 0int, 0int) ==> i < j)
}

/// The compared offsets in the order in which the encoder visits them (the
/// cell itself first).
pub open spec fn offset_at(o: int) -> (int, int, int) {
    if o == 0 {
        (0, 0, 0)
    } else if o == 1 {
        (1, 0, 0)
    } else if o == 2 {
        (0, 1, 0)
    } else if o == 3 {
        (1, 1, 0)
    } else if o == 4 {
        (-1, 1, 0)
    } else if o == 5 {
        (0, 0, 1)
    } else if o == 6 {
        (1, 0, 1)
    } else if o == 7 {
        (-1, 0, 1)
    } else if o == 8 {
        (0, 1, 1)
    } else if o == 9 {
        (1, 1, 1)
    } else if o == 10 {
        (-1, 1, 1)
    } else if o == 11 {
        (0, -1, 1)
    } else if o == 12 {
        (1, -1, 1)
    } else {
        (-1, -1, 1)
    }
}

/// Position of an offset in the visiting order (14 when it is not compared).
pub open spec fn offset_rank(dx: int, dy: int, dz: int) -> int {
    if (dx, dy, dz) == (0int, 0int, 0int) {
        0
    } else if (dx, dy, dz) == (1int, 0int, 0int) {
        1
    } else if (dx, dy, dz) == (0int, 1int, 0int) {
        2
    } else if (dx, dy, dz) == (1int, 1int, 0int) {
        3
    } else if (dx, dy, dz) == (-1int, 1int, 0int) {
        4
    } else if (dx, dy, dz) == (0int, 0int, 1int) {
        5
    } else if (dx, dy, dz) == (1int, 0int, 1int) {
        6
    } else if (dx, dy, dz) == (-1int, 0int, 1int) {
        7
    } else if (dx, dy, dz) == (0int, 1int, 1int) {
        8
    } else if (dx, dy, dz) == (1int, 1int, 1int) {
        9
    } else if (dx, dy, dz) == (-1int, 1int, 1int) {
        10
    } else if (dx, dy, dz) == (0int, -1int, 1int) {
        11
    } else if (dx, dy, dz) == (1int, -1int, 1int) {
        12
    } else if (dx, dy, dz) == (-1int, -1int, 1int) {
        13
    } else {
        14
    }
}

/// Position, in the visiting order, of the offset from point `a`'s cell to
/// point `b`'s.
pub open spec fn cand_rank(cells: Seq<Cell>, a: int, b: int) -> int {
    offset_rank(cells[b].0 - cells[a].0, cells[b].1 - cells[a].1, cells[b].2 - cells[a].2)
}

/// Order in which the candidate pairs are listed: by first point, then by
/// the offset between the two cells in visiting order, then by second point.
pub open spec fn pair_before(cells: Seq<Cell>, p: (usize, usize), q: (usize, usize)) -> bool {
    let rp = cand_rank(cells, p.0 as int, p.1 as int);
    let rq = cand_rank(cells, q.0 as int, q.1 as int);
    p.0 < q.0 || (p.0 == q.0 && (rp < rq || (rp == rq && p.1 < q.1)))
}

/// Sort key of a point: its cell, then its index.
pub type CellKey = (i32, i32, i32, usize);

pub open spec fn key_cell(k: CellKey) -> Cell {
    (k.0, k.1, k.2)
}

/// Key of point `m`.
pub open spec fn key_of(cells: Seq<Cell>, m: int) -> CellKey {
    (cells[m].0, cells[m].1, cells[m].2, m as usize)
}

/// Strict lexicographic order on cells.
pub open spec fn cell_lt(a: Cell, b: Cell) -> bool {
    a.0 < b.0 || (a.0 == b.0 && (a.1 < b.1 || (a.1 == b.1 && a.2 < b.2)))
}

/// std's order on tuples of integers (lexicographic), on keys.
pub open spec fn key_le(a: CellKey, b: CellKey) -> bool {
    cell_lt(key_cell(a), key_cell(b)) || (key_cell(a) == key_cell(b) && a.3 <= b.3)
}

/// Keys in ascending order.
pub open spec fn keys_sorted(s: Seq<CellKey>) -> bool {
    forall|p: int, q: int| 0 <= p < q < s.len() ==> key_le(#[trigger] s[p], #[trigger] s[q])
}

/// `slice::sort_unstable` on point keys.  Its documentation says that it
/// sorts the slice in ascending order of `Ord`, which for tuples of integers
/// is the lexicographic order `key_le`, and it sorts in place: the slice
/// keeps its elements, reordered.  Which of two equal keys comes first is
/// not stated (the keys sorted here are all distinct).
#[verifier::external_body]
fn sort_keys(keys: &mut Vec<CellKey>)
    ensures
        final(keys)@.to_multiset() == old(keys)@.to_multiset(),
        keys_sorted(final(keys)@),
{
    keys.sort_unstable();
}

/// The keys of all points, sorted: each point's key exactly once.
fn sorted_keys(cells: &Vec<Cell>) -> (order: Vec<CellKey>)
    ensures
        order@.len() == cells@.len(),
        keys_sorted(order@),
        order@.no_duplicates(),
        forall|p: int|
            0 <= p < order.len() ==> (#[trigger] order[p]).3 < cells@.len() && order[p] == key_of(
                cells@,
                order[p].3 as int,
            ),
        forall|m: int| 0 <= m < cells.len() ==> order@.contains(#[trigger] key_of(cells@, m)),
{
    broadcast use vstd::seq_lib::group_to_multiset_ensures;

    let mut keys: Vec<CellKey> = Vec::new();
    let mut m: usize = 0;
    while m < cells.len()
        invariant
            m <= cells@.len(),
            keys@ == Seq::new(m as nat, |k: int| key_of(cells@, k)),
        decreases cells@.len() - m,
    {
        let c = cells[m];
        keys.push((c.0, c.1, c.2, m));
        m = m + 1;
    }
    let ghost src = keys@;
    assert(src.no_duplicates()) by {
        assert forall|p: int, q: int| 0 <= p < src.len() && 0 <= q < src.len() && p != q implies src[p]
            != src[q] by {
            assert(src[p].3 == p && src[q].3 == q);
        }
    }
    sort_keys(&mut keys);
    proof {
        let order = keys@;
        assert(order.to_multiset().len() == order.len());
        assert(src.to_multiset().len() == src.len());
        src.lemma_multiset_has_no_duplicates();
        assert forall|x: CellKey| order.to_multiset().contains(x) implies order.to_multiset().count(x)
            == 1 by {}
        order.lemma_multiset_has_no_duplicates_conv();
        assert forall|p: int| 0 <= p < order.len() implies (#[trigger] order[p]).3 < cells@.len()
            && order[p] == key_of(cells@, order[p].3 as int) by {
            assert(order.contains(order[p]));
            assert(src.to_multiset().count(order[p]) > 0);
            let k = choose|k: int| 0 <= k < src.len() && src[k] == order[p];
            assert(src[k] == key_of(cells@, k));
        }
        assert forall|k: int| 0 <= k < cells.len() implies order.contains(#[trigger] key_of(cells@, k)) by {
            assert(src[k] == key_of(cells@, k));
            assert(src.contains(key_of(cells@, k)));
            assert(order.to_multiset().count(key_of(cells@, k)) > 0);
        }
    }
    keys
}

fn cell_less(a: Cell, b: Cell) -> (r: bool)
    ensures
        r == cell_lt(a, b),
{
    a.0 < b.0 || (a.0 == b.0 && (a.1 < b.1 || (a.1 == b.1 && a.2 < b.2)))
}

fn key_in_cell(order: &Vec<CellKey>, q: usize, t: Cell) -> (r: bool)
    requires
        q < order.len(),
    ensures
        r == (key_cell(order[q as int]) == t),
{
    let k = order[q];
    k.0 == t.0 && k.1 == t.1 && k.2 == t.2
}

/// First position of sorted keys whose cell is not below `t`.
fn lower_bound(order: &Vec<CellKey>, t: Cell) -> (lb: usize)
    requires
        keys_sorted(order@),
    ensures
        lb <= order.len(),
        forall|p: int| 0 <= p < lb ==> cell_lt(key_cell(#[trigger] order[p]), t),
        forall|p: int| lb <= p < order.len() ==> !cell_lt(key_cell(#[trigger] order[p]), t),
{
    let mut lo: usize = 0;
    let mut hi: usize = order.len();
    while lo < hi
        invariant
            lo <= hi <= order.len(),
            keys_sorted(order@),
            forall|p: int| 0 <= p < lo ==> cell_lt(key_cell(#[trigger] order[p]), t),
            forall|p: int| hi <= p < order.len() ==> !cell_lt(key_cell(#[trigger] order[p]), t),
        decreases hi - lo,
    {
        let mid = lo + (hi - lo) / 2;
        let k = order[mid];
        if cell_less((k.0, k.1, k.2), t) {
            assert forall|p: int| 0 <= p < mid + 1 implies cell_lt(key_cell(#[trigger] order[p]), t) by {
                if p < mid {
                    assert(key_le(order[p], order[mid as int]));
                }
            }
            lo = mid + 1;
        } else {
            assert forall|p: int| mid <= p < order.len() implies !cell_lt(
                key_cell(#[trigger] order[p]),
                t,
            ) by {
                if p > mid {
                    assert(key_le(order[mid as int], order[p]));
                }
            }
            hi = mid;
        }
    }
    lo
}

fn offset_exec(o: usize) -> (d: (i64, i64, i64))
    requires
        o < 14,
    ensures
        (d.0 as int, d.1 as int, d.2 as int) == offset_at(o as int),
{
    if o == 0 {
        (0, 0, 0)
    } else if o == 1 {
        (1, 0, 0)
    } else if o == 2 {
        (0, 1, 0)
    } else if o == 3 {
        (1, 1, 0)
    } else if o == 4 {
        (-1, 1, 0)
    } else if o == 5 {
        (0, 0, 1)
    } else if o == 6 {
        (1, 0, 1)
    } else if o == 7 {
        (-1, 0, 1)
    } else if o == 8 {
        (0, 1, 1)
    } else if o == 9 {
        (1, 1, 1)
    } else if o == 10 {
        (-1, 1, 1)
    } else if o == 11 {
        (0, -1, 1)
    } else if o == 12 {
        (1, -1, 1)
    } else {
        (-1, -1, 1)
    }
}

/// Offsets, ranks and the compared offsets agree.
proof fn lemma_offset_rank()
    ensures
        forall|o: int| 0 <= o < 14 ==> #[trigger] offset_rank(offset_at(o).0, offset_at(o).1, offset_at(o).2) == o,
        forall|dx: int, dy: int, dz: int|
            #[trigger] is_forward_offset(dx, dy, dz) <==> offset_rank(dx, dy, dz) < 14,
        forall|dx: int, dy: int, dz: int|
            #[trigger] offset_rank(dx, dy, dz) < 14 ==> offset_at(offset_rank(dx, dy, dz)) == (dx, dy, dz),
        forall|dx: int, dy: int, dz: int| 0 <= #[trigger] offset_rank(dx, dy, dz) <= 14,
{
}

/// A pair listed before the current point of the scan: of an earlier point,
/// of an earlier offset, or of the current offset with a smaller index.
spec fn before_frontier(cells: Seq<Cell>, p: (usize, usize), i: int, o: int, jb: int) -> bool {
    let r = cand_rank(cells, p.0 as int, p.1 as int);
    p.0 < i || (p.0 == i && (r < o || (r == o && p.1 < jb)))
}

/// All candidate pairs `(i, j)` of the point cells, each exactly once,
/// ordered by `pair_before`.  These are the pairs whose distance the encoder
/// compares against `epsilon`.  The points are sorted by cell once, and each
/// neighbouring cell's points are then found by binary search.
pub fn candidate_pairs(cells: &Vec<Cell>) -> (pairs: Vec<(usize, usize)>)
    ensures
        forall|k: int|
            0 <= k < pairs.len() ==> is_candidate_pair(
                cells@,
                #[trigger] pairs[k].0 as int,
                pairs[k].1 as int,
            ),
        forall|k: int, l: int|
            0 <= k < l < pairs.len() ==> pair_before(cells@, #[trigger] pairs[k], #[trigger] pairs[l]),
        forall|i: int, j: int|
            #[trigger] is_candidate_pair(cells@, i, j) ==> pairs@.contains((i as usize, j as usize)),
{
    broadcast use vstd::seq_lib::group_seq_properties;

    proof {
        lemma_offset_rank();
    }
    let n = cells.len();
    let order = sorted_keys(cells);
    let mut pairs: Vec<(usize, usize)> = Vec::new();
    let mut i: usize = 0;
    while i < n
        invariant
            i <= n,
            n == cells@.len(),
            order@.len() == n,
            keys_sorted(order@),
            order@.no_duplicates(),
            forall|p: int|
                0 <= p < n ==> (#[trigger] order[p]).3 < n && order[p] == key_of(cells@, order[p].3 as int),
            forall|m: int| 0 <= m < n ==> order@.contains(#[trigger] key_of(cells@, m)),
            forall|k: int|
                0 <= k < pairs.len() ==> is_candidate_pair(
                    cells@,
                    #[trigger] pairs[k].0 as int,
                    pairs[k].1 as int,
                ),
            forall|k: int, l: int|
                0 <= k < l < pairs.len() ==> pair_before(cells@, #[trigger] pairs[k], #[trigger] pairs[l]),
            forall|k: int| 0 <= k < pairs.len() ==> (#[trigger] pairs[k]).0 < i,
            forall|a: int, b: int|
                0 <= a < i && #[trigger] is_candidate_pair(cells@, a, b) ==> pairs@.contains(
                    (a as usize, b as usize),
                ),
        decreases n - i,
    {
        let ci = cells[i];
        let mut o: usize = 0;
        while o < 14
            invariant
                i < n,
                o <= 14,
                n == cells@.len(),
                ci == cells@[i as int],
                order@.len() == n,
                keys_sorted(order@),
                order@.no_duplicates(),
                forall|p: int|
                    0 <= p < n ==> (#[trigger] order[p]).3 < n && order[p] == key_of(
                        cells@,
                        order[p].3 as int,
                    ),
                forall|m: int| 0 <= m < n ==> order@.contains(#[trigger] key_of(cells@, m)),
                forall|k: int|
                    0 <= k < pairs.len() ==> is_candidate_pair(
                        cells@,
                        #[trigger] pairs[k].0 as int,
                        pairs[k].1 as int,
                    ),
                forall|k: int, l: int|
                    0 <= k < l < pairs.len() ==> pair_before(cells@, #[trigger] pairs[k], #[trigger] pairs[l]),
                forall|k: int|
                    0 <= k < pairs.len() ==> before_frontier(cells@, #[trigger] pairs[k], i as int, o as int, 0),
                forall|a: int, b: int|
                    0 <= a < i && #[trigger] is_candidate_pair(cells@, a, b) ==> pairs@.contains(
                        (a as usize, b as usize),
                    ),
                forall|b: int|
                    #[trigger] is_candidate_pair(cells@, i as int, b) && cand_rank(cells@, i as int, b) < o
                        ==> pairs@.contains((i, b as usize)),
            decreases 14 - o,
        {
            let d = offset_exec(o);
            let tx = ci.0 as i64 + d.0;
            let ty = ci.1 as i64 + d.1;
            let tz = ci.2 as i64 + d.2;
            let in_range = i32::MIN as i64 <= tx && tx <= i32::MAX as i64 && i32::MIN as i64 <= ty && ty
                <= i32::MAX as i64 && i32::MIN as i64 <= tz && tz <= i32::MAX as i64;
            if in_range {
                let t: Cell = (tx as i32, ty as i32, tz as i32);
                let lb = lower_bound(&order, t);
                let mut q: usize = lb;
                let ghost mut jb: int = 0;
                while q < n && key_in_cell(&order, q, t)
                    invariant
                        i < n,
                        o < 14,
                        lb <= q <= n,
                        n == cells@.len(),
                        ci == cells@[i as int],
                        (t.0 as int, t.1 as int, t.2 as int) == (ci.0 + offset_at(o as int).0, ci.1
                            + offset_at(o as int).1, ci.2 + offset_at(o as int).2),
                        order@.len() == n,
                        keys_sorted(order@),
                        order@.no_duplicates(),
                        forall|p: int|
                            0 <= p < n ==> (#[trigger] order[p]).3 < n && order[p] == key_of(
                                cells@,
                                order[p].3 as int,
                            ),
                        forall|p: int| 0 <= p < lb ==> cell_lt(key_cell(#[trigger] order[p]), t),
                        forall|p: int| lb <= p < n ==> !cell_lt(key_cell(#[trigger] order[p]), t),
                        forall|p: int| lb <= p < q ==> key_cell(#[trigger] order[p]) == t,
                        forall|p: int|
                            q <= p < n && key_cell(#[trigger] order[p]) == t ==> order[p].3 >= jb,
                        forall|k: int|
                            0 <= k < pairs.len() ==> is_candidate_pair(
                                cells@,
                                #[trigger] pairs[k].0 as int,
                                pairs[k].1 as int,
                            ),
                        forall|k: int, l: int|
                            0 <= k < l < pairs.len() ==> pair_before(
                                cells@,
                                #[trigger] pairs[k],
                                #[trigger] pairs[l],
                            ),
                        forall|k: int|
                            0 <= k < pairs.len() ==> before_frontier(
                                cells@,
                                #[trigger] pairs[k],
                                i as int,
                                o as int,
                                jb,
                            ),
                        forall|a: int, b: int|
                            0 <= a < i && #[trigger] is_candidate_pair(cells@, a, b) ==> pairs@.contains(
                                (a as usize, b as usize),
                            ),
                        forall|b: int|
                            #[trigger] is_candidate_pair(cells@, i as int, b) && cand_rank(cells@, i as int, b)
                                < o ==> pairs@.contains((i, b as usize)),
                        forall|p: int|
                            lb <= p < q && (o != 0 || i < (#[trigger] order[p]).3) ==> pairs@.contains(
                                (i, order[p].3),
                            ),
                    decreases n - q,
                {
                    let j = order[q].3;
                    proof {
                        assert(order[q as int] == key_of(cells@, j as int));
                        assert(cells@[j as int] == t);
                        assert(cand_rank(cells@, i as int, j as int) == o);
                        assert forall|p: int|
                            q < p < n && key_cell(#[trigger] order[p]) == t implies order[p].3 > j by {
                            assert(key_le(order[q as int], order[p]));
                            assert(order[q as int] != order[p]);
                        }
                    }
                    if o != 0 || i < j {
                        let ghost old_pairs = pairs@;
                        pairs.push((i, j));
                        proof {
                            assert forall|x: (usize, usize)| #[trigger] old_pairs.contains(x) implies pairs@.contains(
                                x,
                            ) by {
                                let k = choose|k: int| 0 <= k < old_pairs.len() && old_pairs[k] == x;
                                assert(pairs@[k] == x);
                            }
                            assert(pairs@[pairs.len() - 1] == (i, j));
                            assert(is_candidate_pair(cells@, i as int, j as int));
                            assert forall|k: int| 0 <= k < old_pairs.len() implies pair_before(
                                cells@,
                                #[trigger] old_pairs[k],
                                (i, j),
                            ) by {
                                assert(before_frontier(cells@, old_pairs[k], i as int, o as int, jb));
                            }
                            assert forall|k: int, l: int| 0 <= k < l < pairs.len() implies pair_before(
                                cells@,
                                #[trigger] pairs[k],
                                #[trigger] pairs[l],
                            ) by {
                                if l == pairs.len() - 1 {
                                    assert(pairs[k] == old_pairs[k]);
                                    assert(pairs[l] == (i, j));
                                } else {
                                    assert(pairs[k] == old_pairs[k]);
                                    assert(pairs[l] == old_pairs[l]);
                                }
                            }
                            jb = j + 1;
                            assert forall|k: int| 0 <= k < pairs.len() implies before_frontier(
                                cells@,
                                #[trigger] pairs[k],
                                i as int,
                                o as int,
                                jb,
                            ) by {
                                if k < old_pairs.len() {
                                    assert(pairs[k] == old_pairs[k]);
                                }
                            }
                        }
                    }
                    q = q + 1;
                }
                proof {
                    assert forall|b: int|
                        #[trigger] is_candidate_pair(cells@, i as int, b) && cand_rank(cells@, i as int, b)
                            < o + 1 implies pairs@.contains((i, b as usize)) by {
                        if cand_rank(cells@, i as int, b) == o {
                            assert(order@.contains(key_of(cells@, b)));
                            let pb = choose|p: int| 0 <= p < n && order[p] == key_of(cells@, b);
                            assert(key_cell(order[pb]) == t);
                            assert(pb >= lb);
                            if pb >= q {
                                assert(q < n);
                                assert(key_cell(order[q as int]) != t);
                                assert(key_le(order[q as int], order[pb]));
                            }
                            assert(order[pb].3 == b);
                        }
                    }
                    assert forall|k: int| 0 <= k < pairs.len() implies before_frontier(
                        cells@,
                        #[trigger] pairs[k],
                        i as int,
                        o + 1,
                        0,
                    ) by {
                        assert(before_frontier(cells@, pairs[k], i as int, o as int, jb));
                    }
                }
            } else {
                proof {
                    assert forall|b: int|
                        #[trigger] is_candidate_pair(cells@, i as int, b) && cand_rank(cells@, i as int, b)
                            < o + 1 implies pairs@.contains((i, b as usize)) by {
                        if cand_rank(cells@, i as int, b) == o {
                            let cb = cells@[b];
                            assert(cb.0 as int == tx && cb.1 as int == ty && cb.2 as int == tz);
                        }
                    }
                    assert forall|k: int| 0 <= k < pairs.len() implies before_frontier(
                        cells@,
                        #[trigger] pairs[k],
                        i as int,
                        o + 1,
                        0,
                    ) by {
                        assert(before_frontier(cells@, pairs[k], i as int, o as int, 0));
                    }
                }
            }
            o = o + 1;
        }
        proof {
            assert forall|k: int| 0 <= k < pairs.len() implies (#[trigger] pairs[k]).0 < i + 1 by {
                assert(before_frontier(cells@, pairs[k], i as int, 14, 0));
            }
            assert forall|a: int, b: int|
                0 <= a < i + 1 && #[trigger] is_candidate_pair(cells@, a, b) implies pairs@.contains(
                    (a as usize, b as usize),
                ) by {
                if a == i {
                    assert(cand_rank(cells@, i as int, b) < 14);
                }
            }
        }
        i = i + 1;
    }
    pairs
}

/// Number of positions of `s` that hold the cell `c`.
pub open spec fn cell_count(s: Seq<Cell>, c: Cell) -> nat
    decreases s.len(),
{
    if s.len() == 0 {
        0
    } else {
        cell_count(s.drop_last(), c) + (if s.last() == c {
            1nat
        } else {
            0nat
        })
    }
}

/// Positions of `s` that hold the cell `c`.
spec fn cell_positions(s: Seq<Cell>, c: Cell) -> Set<int> {
    Set::new(|m: int| 0 <= m < s.len() && s[m] == c)
}

/// Positions of the sorted keys that lie in cell `c`.
spec fn key_positions(order: Seq<CellKey>, c: Cell) -> Set<int> {
    Set::new(|p: int| 0 <= p < order.len() && key_cell(order[p]) == c)
}

proof fn lemma_cell_count_positions(s: Seq<Cell>, c: Cell)
    ensures
        cell_positions(s, c).finite(),
        cell_count(s, c) == cell_positions(s, c).len(),
    decreases s.len(),
{
    let a = cell_positions(s, c);
    if s.len() == 0 {
        assert(a =~= Set::empty());
    } else {
        let t = s.drop_last();
        lemma_cell_count_positions(t, c);
        let b = cell_positions(t, c);
        if s.last() == c {
            assert(a =~= b.insert(s.len() - 1));
        } else {
            assert(a =~= b);
        }
    }
}

/// The points of a cell and the sorted keys in that cell are equally many.
proof fn lemma_count_is_key_positions(cells: Seq<Cell>, order: Seq<CellKey>, c: Cell)
    requires
        order.len() == cells.len(),
        cells.len() <= usize::MAX,
        order.no_duplicates(),
        forall|p: int|
            0 <= p < order.len() ==> (#[trigger] order[p]).3 < cells.len() && order[p] == key_of(
                cells,
                order[p].3 as int,
            ),
        forall|m: int| 0 <= m < cells.len() ==> order.contains(#[trigger] key_of(cells, m)),
    ensures
        key_positions(order, c).finite(),
        cell_count(cells, c) == key_positions(order, c).len(),
{
    lemma_cell_count_positions(cells, c);
    let a = cell_positions(cells, c);
    let b = key_positions(order, c);
    let f = |p: int| order[p].3 as int;
    lemma_int_range(0, order.len() as int);
    assert(b.subset_of(set_int_range(0, order.len() as int)));
    lemma_len_subset(b, set_int_range(0, order.len() as int));
    assert(injective_on(f, b)) by {
        assert forall|p: int, q: int| b.contains(p) && b.contains(q) && #[trigger] f(p) == #[trigger] f(q) implies p
            == q by {
            assert(order[p] == order[q]);
        }
    }
    assert(b.map(f) =~= a) by {
        assert forall|m: int| a.contains(m) implies b.map(f).contains(m) by {
            assert(order.contains(key_of(cells, m)));
            let p = choose|p: int| 0 <= p < order.len() && order[p] == key_of(cells, m);
            assert(key_cell(order[p]) == cells[m]);
            assert(b.contains(p));
            assert(m == f(p));
        }
        assert forall|m: int| b.map(f).contains(m) implies a.contains(m) by {
            let p = choose|p: int| b.contains(p) && m == f(p);
            assert(order[p] == key_of(cells, order[p].3 as int));
        }
    }
    lemma_map_size(b, a, f);
}

/// A maximal run `[s, q)` of sorted keys in one cell holds every key of
/// that cell.
proof fn lemma_run_positions(order: Seq<CellKey>, s: int, q: int)
    requires
        keys_sorted(order),
        0 <= s < q <= order.len(),
        forall|p: int| s <= p < q ==> key_cell(#[trigger] order[p]) == key_cell(order[s]),
        s == 0 || key_cell(order[s - 1]) != key_cell(order[s]),
        q == order.len() || key_cell(order[q]) != key_cell(order[s]),
    ensures
        key_positions(order, key_cell(order[s])) == set_int_range(s, q),
{
    let c = key_cell(order[s]);
    assert forall|p: int| key_positions(order, c).contains(p) <==> set_int_range(s, q).contains(p) by {
        if 0 <= p < s {
            assert(key_le(order[s - 1], order[s]));
            if p < s - 1 {
                assert(key_le(order[p], order[s - 1]));
            }
        }
        if q <= p < order.len() {
            assert(key_le(order[s], order[q]));
            if p > q {
                assert(key_le(order[q], order[p]));
            }
        }
    }
    assert(key_positions(order, c) =~= set_int_range(s, q));
}

/// Law: `cell_count(s, c)` is the number of positions of `s` holding cell `c`.
pub proof fn law_cell_count_counts_points(s: Seq<Cell>, c: Cell)
    ensures
        Set::new(|m: int| 0 <= m < s.len() && s[m] == c).finite(),
        cell_count(s, c) == Set::new(|m: int| 0 <= m < s.len() && s[m] == c).len(),
{
    lemma_cell_count_positions(s, c);
    assert(cell_positions(s, c) == Set::new(|m: int| 0 <= m < s.len() && s[m] == c));
}

/// Cusp-core check: no grid cell holds `max_density_threshold` points or more
/// (true for an empty cloud).  The points are sorted by cell and the runs of
/// equal cells measured.
pub fn cusp_core_resolved(cells: &Vec<Cell>, max_density_threshold: usize) -> (ok: bool)
    ensures
        ok == (forall|k: int|
            0 <= k < cells.len() ==> #[trigger] cell_count(cells@, cells[k]) < max_density_threshold),
{
    let n = cells.len();
    let order = sorted_keys(cells);
    let mut s: usize = 0;
    while s < n
        invariant
            s <= n,
            n == cells@.len(),
            order@.len() == n,
            keys_sorted(order@),
            order@.no_duplicates(),
            forall|p: int|
                0 <= p < n ==> (#[trigger] order[p]).3 < n && order[p] == key_of(cells@, order[p].3 as int),
            forall|m: int| 0 <= m < n ==> order@.contains(#[trigger] key_of(cells@, m)),
            s == 0 || s == n || key_cell(order[s - 1]) != key_cell(order[s as int]),
            forall|p: int|
                0 <= p < s ==> cell_count(cells@, key_cell(#[trigger] order[p])) < max_density_threshold,
        decreases n - s,
    {
        let first = order[s];
        let c: Cell = (first.0, first.1, first.2);
        let mut q: usize = s + 1;
        while q < n && key_in_cell(&order, q, c)
            invariant
                s < q <= n,
                order@.len() == n,
                c == key_cell(order[s as int]),
                forall|p: int| s <= p < q ==> key_cell(#[trigger] order[p]) == c,
            decreases n - q,
        {
            q = q + 1;
        }
        proof {
            lemma_run_positions(order@, s as int, q as int);
            lemma_count_is_key_positions(cells@, order@, c);
            lemma_int_range(s as int, q as int);
        }
        if q - s >= max_density_threshold {
            proof {
                let k = order[s as int].3 as int;
                assert(cells@[k] == c);
                assert(!(cell_count(cells@, cells@[k]) < max_density_threshold));
            }
            return false;
        }
        s = q;
    }
    proof {
        assert forall|k: int| 0 <= k < cells.len() implies #[trigger] cell_count(cells@, cells[k])
            < max_density_threshold by {
            let p = choose|p: int| 0 <= p < n && order[p] == key_of(cells@, k);
            assert(key_cell(order[p]) == cells@[k]);
        }
    }
    true
}

/// Number of connected components of the graph on `n` vertices whose edges
/// are `edges`: `n` minus the number of edges that join two previously
/// separate groups, taking the edges in order.
pub open spec fn joining_edges(n: nat, edges: Seq<(usize, usize)>) -> nat
    decreases edges.len(),
{
    if edges.len() == 0 {
        0
    } else {
        let prev = edges.drop_last();
        let groups = edge_groups(n, prev);
        joining_edges(n, prev) + (if groups[edges.last().0 as int] != groups[edges.last().1 as int] {
            1nat
        } else {
            0nat
        })
    }
}

/// Group label of every vertex after merging the endpoints of each edge in
/// turn (a merge relabels the second endpoint's group with the first's).
pub open spec fn edge_groups(n: nat, edges: Seq<(usize, usize)>) -> Seq<int>
    decreases edges.len(),
{
    if edges.len() == 0 {
        Seq::new(n, |k: int| k)
    } else {
        let prev = edge_groups(n, edges.drop_last());
        let la = prev[edges.last().0 as int];
        let lb = prev[edges.last().1 as int];
        Seq::new(n, |k: int| if prev[k] == lb { la } else { prev[k] })
    }
}

/// Connected components of the graph.
pub open spec fn graph_components(n: nat, edges: Seq<(usize, usize)>) -> int {
    n - joining_edges(n, edges)
}

/// Betti numbers of the 1-dimensional complex on `n` points with the given
/// edges: `b0` its connected components, `b1 = E - V + b0` (clamped at 0), and
/// `b2 = 0`.
pub open spec fn betti_of_graph(n: nat, edges: Seq<(usize, usize)>) -> (int, int, int) {
    let b0 = graph_components(n, edges);
    let e = edges.len() as int;
    (b0, if e + b0 > n { e + b0 - n } else { 0 }, 0)
}

/// Betti numbers `(b0, b1, b2)` of the graph whose edges are the candidate
/// pairs found within `epsilon`.
pub fn betti_from_edges(n: usize, edges: &Vec<(usize, usize)>) -> (b: (usize, usize, usize))
    requires
        forall|k: int| 0 <= k < edges.len() ==> (#[trigger] edges[k]).0 < n && edges[k].1 < n,
    ensures
        (b.0 as int, b.1 as int, b.2 as int) == betti_of_graph(n as nat, edges@),
{
    let mut uf = UnionFind::new(n);
    let mut e: usize = 0;
    proof {
        assert(edge_groups(n as nat, edges@.take(0)) == Seq::new(n as nat, |k: int| k));
    }
    while e < edges.len()
        invariant
            e <= edges@.len(),
            forall|k: int| 0 <= k < edges.len() ==> (#[trigger] edges[k]).0 < n && edges[k].1 < n,
            uf.wf(),
            uf.size() == n,
            uf.num_components() == n - joining_edges(n as nat, edges@.take(e as int)),
            edge_groups(n as nat, edges@.take(e as int)).len() == n,
            forall|a: int, b: int|
                0 <= a < n && 0 <= b < n ==> (#[trigger] uf.same(a, b) <==> edge_groups(
                    n as nat,
                    edges@.take(e as int),
                )[a] == edge_groups(n as nat, edges@.take(e as int))[b]),
        decreases edges@.len() - e,
    {
        let (a, b) = edges[e];
        let ghost pre = uf;
        let ghost groups = edge_groups(n as nat, edges@.take(e as int));
        let merged = uf.union(a, b);
        proof {
            let t = edges@.take(e + 1);
            assert(t.drop_last() == edges@.take(e as int));
            assert(t.last() == (a, b));
            law_union_merges_exactly(pre, uf, a as int, b as int, merged);
            let ng = edge_groups(n as nat, t);
            assert forall|x: int, y: int|
                0 <= x < n && 0 <= y < n implies (#[trigger] uf.same(x, y) <==> ng[x] == ng[y]) by {
                assert(pre.same(x, y) == (groups[x] == groups[y]));
                assert(pre.same(x, a as int) == (groups[x] == groups[a as int]));
                assert(pre.same(y, b as int) == (groups[y] == groups[b as int]));
                assert(pre.same(x, b as int) == (groups[x] == groups[b as int]));
                assert(pre.same(y, a as int) == (groups[y] == groups[a as int]));
            }
            assert(merged == (groups[a as int] != groups[b as int])) by {
                assert(pre.same(a as int, b as int) == (groups[a as int] == groups[b as int]));
            }
        }
        e = e + 1;
    }
    proof {
        assert(edges@.take(edges@.len() as int) == edges@);
    }
    let b0 = uf.components();
    let v = n;
    // b0 <= v, so `E + b0 > V` is `E > V - b0`, with no overflow.
    let b1 = if edges.len() > v - b0 {
        edges.len() - (v - b0)
    } else {
        0
    };
    (b0, b1, 0)
}

/// `lab` gives both ends of every edge the same label.
pub open spec fn respects(lab: Seq<int>, edges: Seq<(usize, usize)>) -> bool {
    forall|k: int| 0 <= k < edges.len() ==> lab[(#[trigger] edges[k]).0 as int] == lab[edges[k].1 as int]
}

/// Points `a` and `b` are linked by the edges: every labelling of the `n`
/// points that gives both ends of each edge one label gives `a` and `b` one
/// label.
pub open spec fn linked(n: nat, edges: Seq<(usize, usize)>, a: int, b: int) -> bool {
    forall|lab: Seq<int>| lab.len() == n && #[trigger] respects(lab, edges) ==> lab[a] == lab[b]
}

/// Position `k` holds the first occurrence of its label.
pub open spec fn is_first(g: Seq<int>, k: int) -> bool {
    forall|j: int| 0 <= j < k ==> g[j] != g[k]
}

/// Number of distinct labels among the first `m` positions.
pub open spec fn label_leaders(g: Seq<int>, m: int) -> nat
    decreases m,
{
    if m <= 0 {
        0
    } else {
        label_leaders(g, m - 1) + (if is_first(g, m - 1) {
            1nat
        } else {
            0nat
        })
    }
}

/// Label `l` occurs among the first `m` positions.
pub open spec fn seen(g: Seq<int>, l: int, m: int) -> bool {
    exists|j: int| 0 <= j < m && g[j] == l
}

/// The group labels give both ends of every processed edge one label.
proof fn lemma_groups_respect(n: nat, edges: Seq<(usize, usize)>)
    requires
        forall|k: int| 0 <= k < edges.len() ==> (#[trigger] edges[k]).0 < n && edges[k].1 < n,
    ensures
        edge_groups(n, edges).len() == n,
        respects(edge_groups(n, edges), edges),
    decreases edges.len(),
{
    if edges.len() > 0 {
        let pe = edges.drop_last();
        lemma_groups_respect(n, pe);
        let prev = edge_groups(n, pe);
        let g = edge_groups(n, edges);
        assert forall|k: int| 0 <= k < edges.len() implies g[(#[trigger] edges[k]).0 as int] == g[edges[k].1 as int] by {
            if k < edges.len() - 1 {
                assert(edges[k] == pe[k]);
                assert(prev[pe[k].0 as int] == prev[pe[k].1 as int]);
            }
        }
    }
}

/// Two points share a group label exactly when the edges link them.
proof fn lemma_groups_linked(n: nat, edges: Seq<(usize, usize)>, a: int, b: int)
    requires
        forall|k: int| 0 <= k < edges.len() ==> (#[trigger] edges[k]).0 < n && edges[k].1 < n,
        0 <= a < n,
        0 <= b < n,
    ensures
        (edge_groups(n, edges)[a] == edge_groups(n, edges)[b]) <==> linked(n, edges, a, b),
    decreases edges.len(),
{
    lemma_groups_respect(n, edges);
    let g = edge_groups(n, edges);
    if linked(n, edges, a, b) {
        assert(respects(g, edges));
    }
    if g[a] == g[b] && edges.len() > 0 {
        let pe = edges.drop_last();
        let prev = edge_groups(n, pe);
        let u = edges.last().0 as int;
        let v = edges.last().1 as int;
        assert forall|lab: Seq<int>| lab.len() == n && #[trigger] respects(lab, edges) implies lab[a] == lab[b] by {
            assert(respects(lab, pe)) by {
                assert forall|k: int| 0 <= k < pe.len() implies lab[(#[trigger] pe[k]).0 as int]
                    == lab[pe[k].1 as int] by {
                    assert(pe[k] == edges[k]);
                }
            }
            assert(lab[u] == lab[v]) by {
                assert(edges[edges.len() - 1] == edges.last());
            }
            lemma_groups_linked(n, pe, a, b);
            lemma_groups_linked(n, pe, a, u);
            lemma_groups_linked(n, pe, a, v);
            lemma_groups_linked(n, pe, b, u);
            lemma_groups_linked(n, pe, b, v);
        }
    }
}

/// The identity labelling has one leader per position.
proof fn lemma_leaders_identity(n: nat, m: int)
    requires
        0 <= m <= n,
    ensures
        label_leaders(Seq::new(n, |k: int| k), m) == m,
    decreases m,
{
    if m > 0 {
        lemma_leaders_identity(n, m - 1);
    }
}

/// Relabelling `lb` as `la` merges two labels: once both have occurred, one
/// leader fewer.
proof fn lemma_relabel_leaders(g: Seq<int>, la: int, lb: int, m: int)
    requires
        la != lb,
        0 <= m <= g.len(),
    ensures
        label_leaders(Seq::new(g.len(), |k: int| if g[k] == lb { la } else { g[k] }), m) + (if seen(g, la, m)
            && seen(g, lb, m) {
            1int
        } else {
            0int
        }) == label_leaders(g, m),
    decreases m,
{
    let g2 = Seq::new(g.len(), |k: int| if g[k] == lb { la } else { g[k] });
    if m > 0 {
        let k = m - 1;
        lemma_relabel_leaders(g, la, lb, k);
        assert(seen(g, la, m) == (seen(g, la, k) || g[k] == la)) by {
            if seen(g, la, m) && g[k] != la {
                let j = choose|j: int| 0 <= j < m && g[j] == la;
                assert(j < k);
            }
        }
        assert(seen(g, lb, m) == (seen(g, lb, k) || g[k] == lb)) by {
            if seen(g, lb, m) && g[k] != lb {
                let j = choose|j: int| 0 <= j < m && g[j] == lb;
                assert(j < k);
            }
        }
        if g[k] != la && g[k] != lb {
            assert(is_first(g2, k) == is_first(g, k)) by {
                if !is_first(g, k) {
                    let j = choose|j: int| 0 <= j < k && g[j] == g[k];
                    assert(g2[j] == g2[k]);
                }
                if !is_first(g2, k) {
                    let j = choose|j: int| 0 <= j < k && g2[j] == g2[k];
                    assert(g[j] == g[k]);
                }
            }
        } else {
            assert(is_first(g, k) == !seen(g, g[k], k)) by {
                if !is_first(g, k) {
                    let j = choose|j: int| 0 <= j < k && g[j] == g[k];
                    assert(g[j] == g[k]);
                }
            }
            assert(is_first(g2, k) == (!seen(g, la, k) && !seen(g, lb, k))) by {
                if !is_first(g2, k) {
                    let j = choose|j: int| 0 <= j < k && g2[j] == g2[k];
                    assert(g[j] == la || g[j] == lb);
                }
                if seen(g, la, k) {
                    let j = choose|j: int| 0 <= j < k && g[j] == la;
                    assert(g2[j] == g2[k]);
                }
                if seen(g, lb, k) {
                    let j = choose|j: int| 0 <= j < k && g[j] == lb;
                    assert(g2[j] == g2[k]);
                }
            }
        }
    }
}

/// The number of distinct group labels is the number of components.
proof fn lemma_leaders_components(n: nat, edges: Seq<(usize, usize)>)
    requires
        forall|k: int| 0 <= k < edges.len() ==> (#[trigger] edges[k]).0 < n && edges[k].1 < n,
    ensures
        label_leaders(edge_groups(n, edges), n as int) == graph_components(n, edges),
    decreases edges.len(),
{
    if edges.len() == 0 {
        lemma_leaders_identity(n, n as int);
    } else {
        let pe = edges.drop_last();
        lemma_leaders_components(n, pe);
        let prev = edge_groups(n, pe);
        let u = edges.last().0 as int;
        let v = edges.last().1 as int;
        assert(edges[edges.len() - 1] == edges.last());
        let la = prev[u];
        let lb = prev[v];
        let g = edge_groups(n, edges);
        if la != lb {
            lemma_relabel_leaders(prev, la, lb, n as int);
            assert(seen(prev, la, n as int));
            assert(seen(prev, lb, n as int));
            assert(g == Seq::new(prev.len(), |k: int| if prev[k] == lb { la } else { prev[k] }));
        } else {
            assert(g == prev);
        }
    }
}

/// Labellings that agree on which positions share a label have as many
/// leaders.
proof fn lemma_leaders_same_partition(g1: Seq<int>, g2: Seq<int>, m: int)
    requires
        0 <= m <= g1.len(),
        g1.len() == g2.len(),
        forall|j: int, k: int|
            0 <= j < g1.len() && 0 <= k < g1.len() ==> (#[trigger] g1[j] == #[trigger] g1[k]) == (g2[j]
                == g2[k]),
    ensures
        label_leaders(g1, m) == label_leaders(g2, m),
    decreases m,
{
    if m > 0 {
        lemma_leaders_same_partition(g1, g2, m - 1);
        let k = m - 1;
        assert(is_first(g1, k) == is_first(g2, k)) by {
            if !is_first(g1, k) {
                let j = choose|j: int| 0 <= j < k && g1[j] == g1[k];
                assert(g2[j] == g2[k]);
            }
            if !is_first(g2, k) {
                let j = choose|j: int| 0 <= j < k && g2[j] == g2[k];
                assert(g1[j] == g1[k]);
            }
        }
    }
}

/// Point `k` is the first point of its class: no earlier point is linked to it.
pub open spec fn first_of_class(n: nat, edges: Seq<(usize, usize)>, k: int) -> bool {
    forall|j: int| 0 <= j < k ==> !#[trigger] linked(n, edges, j, k)
}

/// Number of classes of the `linked` relation met among the first `m` points.
pub open spec fn linked_classes(n: nat, edges: Seq<(usize, usize)>, m: int) -> nat
    decreases m,
{
    if m <= 0 {
        0
    } else {
        linked_classes(n, edges, m - 1) + (if first_of_class(n, edges, m - 1) {
            1nat
        } else {
            0nat
        })
    }
}

proof fn lemma_leaders_are_classes(n: nat, edges: Seq<(usize, usize)>, m: int)
    requires
        forall|k: int| 0 <= k < edges.len() ==> (#[trigger] edges[k]).0 < n && edges[k].1 < n,
        0 <= m <= n,
    ensures
        label_leaders(edge_groups(n, edges), m) == linked_classes(n, edges, m),
    decreases m,
{
    if m > 0 {
        lemma_leaders_are_classes(n, edges, m - 1);
        let k = m - 1;
        let g = edge_groups(n, edges);
        assert(is_first(g, k) == first_of_class(n, edges, k)) by {
            if !is_first(g, k) {
                let j = choose|j: int| 0 <= j < k && g[j] == g[k];
                lemma_groups_linked(n, edges, j, k);
            }
            if !first_of_class(n, edges, k) {
                let j = choose|j: int| 0 <= j < k && #[trigger] linked(n, edges, j, k);
                lemma_groups_linked(n, edges, j, k);
            }
        }
    }
}

/// Law: the component count of a graph is the number of classes of points
/// linked by its edges (points that every labelling respecting the edges
/// labels alike), whatever order the merges were replayed in.
pub proof fn law_components_are_linked_classes(n: nat, edges: Seq<(usize, usize)>)
    requires
        forall|k: int| 0 <= k < edges.len() ==> (#[trigger] edges[k]).0 < n && edges[k].1 < n,
    ensures
        graph_components(n, edges) == linked_classes(n, edges, n as int),
{
    lemma_leaders_components(n, edges);
    lemma_leaders_are_classes(n, edges, n as int);
}

proof fn lemma_joining_le_edges(n: nat, edges: Seq<(usize, usize)>)
    ensures
        joining_edges(n, edges) <= edges.len(),
    decreases edges.len(),
{
    if edges.len() > 0 {
        lemma_joining_le_edges(n, edges.drop_last());
    }
}

/// Law: the Betti numbers of the pair graph are its number of classes of
/// linked points (`b0`), its cycle rank (`b1 = E - V + b0`, which is never
/// negative) and zero (`b2`).
pub proof fn law_graph_betti_is_cycle_rank(n: nat, edges: Seq<(usize, usize)>)
    requires
        forall|k: int| 0 <= k < edges.len() ==> (#[trigger] edges[k]).0 < n && edges[k].1 < n,
    ensures
        betti_of_graph(n, edges).0 == linked_classes(n, edges, n as int),
        betti_of_graph(n, edges).1 + n == edges.len() + linked_classes(n, edges, n as int),
        betti_of_graph(n, edges).2 == 0,
{
    law_components_are_linked_classes(n, edges);
    lemma_joining_le_edges(n, edges);
}

/// Law: the Betti numbers of a graph do not depend on the order in which its
/// edges are listed: any reordering of the same edges gives the same
/// `(b0, b1, b2)`.  (The encoder's candidate pairs may come in any order.)
pub proof fn law_betti_ignores_edge_order(n: nat, e1: Seq<(usize, usize)>, e2: Seq<(usize, usize)>)
    requires
        forall|k: int| 0 <= k < e1.len() ==> (#[trigger] e1[k]).0 < n && e1[k].1 < n,
        e1.to_multiset() == e2.to_multiset(),
    ensures
        betti_of_graph(n, e1) == betti_of_graph(n, e2),
{
    broadcast use vstd::seq_lib::group_to_multiset_ensures;

    assert(e1.len() == e2.len()) by {
        assert(e1.to_multiset().len() == e1.len());
        assert(e2.to_multiset().len() == e2.len());
    }
    assert forall|x: (usize, usize)| e1.contains(x) <==> e2.contains(x) by {
        vstd::seq_lib::to_multiset_contains(e1, x);
        vstd::seq_lib::to_multiset_contains(e2, x);
    }
    assert forall|k: int| 0 <= k < e2.len() implies (#[trigger] e2[k]).0 < n && e2[k].1 < n by {
        assert(e2.contains(e2[k]));
        let j = choose|j: int| 0 <= j < e1.len() && e1[j] == e2[k];
    }
    assert forall|lab: Seq<int>| respects(lab, e1) == respects(lab, e2) by {
        if respects(lab, e1) {
            assert forall|k: int| 0 <= k < e2.len() implies lab[(#[trigger] e2[k]).0 as int]
                == lab[e2[k].1 as int] by {
                assert(e2.contains(e2[k]));
                let j = choose|j: int| 0 <= j < e1.len() && e1[j] == e2[k];
            }
        }
        if respects(lab, e2) {
            assert forall|k: int| 0 <= k < e1.len() implies lab[(#[trigger] e1[k]).0 as int]
                == lab[e1[k].1 as int] by {
                assert(e1.contains(e1[k]));
                let j = choose|j: int| 0 <= j < e2.len() && e2[j] == e1[k];
            }
        }
    }
    let g1 = edge_groups(n, e1);
    let g2 = edge_groups(n, e2);
    lemma_groups_respect(n, e1);
    lemma_groups_respect(n, e2);
    assert forall|j: int, k: int| 0 <= j < g1.len() && 0 <= k < g1.len() implies (#[trigger] g1[j]
        == #[trigger] g1[k]) == (g2[j] == g2[k]) by {
        lemma_groups_linked(n, e1, j, k);
        lemma_groups_linked(n, e2, j, k);
        assert(linked(n, e1, j, k) == linked(n, e2, j, k));
    }
    lemma_leaders_same_partition(g1, g2, n as int);
    lemma_leaders_components(n, e1);
    lemma_leaders_components(n, e2);
}

/// Law: the 14 compared offsets cover every neighbouring pair of points
/// exactly once: for two distinct points whose cells differ by at most one
/// step on each axis, exactly one of `(i, j)` and `(j, i)` is a candidate;
/// points in cells further apart are never compared.
pub proof fn law_adjacent_pairs_compared_once(cells: Seq<Cell>, i: int, j: int)
    requires
        0 <= i < cells.len(),
        0 <= j < cells.len(),
        i != j,
    ensures
        ({
            let dx = cells[j].0 - cells[i].0;
            let dy = cells[j].1 - cells[i].1;
            let dz = cells[j].2 - cells[i].2;
            if -1 <= dx <= 1 && -1 <= dy <= 1 && -1 <= dz <= 1 {
                is_candidate_pair(cells, i, j) != is_candidate_pair(cells, j, i)
            } else {
                !is_candidate_pair(cells, i, j) && !is_candidate_pair(cells, j, i)
            }
        }),
{
}

} // verus!
