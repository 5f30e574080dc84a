//! Discrete core of the Vietoris-Rips persistence engine.
//!
//! Given the adjacency matrix of the Rips graph at the filtration threshold
//! (which pairs of particles lie within `epsilon`), the engine reports
//! `betti_0` (connected components, found by breadth-first search),
//! `betti_1 = E - (V - betti_0)` (clamped at 0) and `betti_2`, estimated as
//! a quarter of the triangles of the complex but never below 1.
use vstd::prelude::*;
use std::collections::VecDeque;

verus! {

/// Betti numbers of a simplicial complex.
#[derive(Debug, Clone, Copy, PartialEq, Eq, Structural)]
pub struct BettiNumbers {
    /// Connected components.
    pub betti_0: usize,
    /// 1-dimensional loops / tunnels.
    pub betti_1: usize,
    /// 2-dimensional enclosed voids.
    pub betti_2: usize,
}

impl Default for BettiNumbers {
    fn default() -> (b: Self)
        ensures
            b.betti_0 == 0 && b.betti_1 == 0 && b.betti_2 == 0,
    {
        BettiNumbers { betti_0: 0, betti_1: 0, betti_2: 0 }
    }
}

/// An `n x n` matrix.
pub open spec fn is_square(adj: Seq<Seq<bool>>) -> bool {
    forall|i: int| 0 <= i < adj.len() ==> (#[trigger] adj[i]).len() == adj.len()
}

/// `p` is a walk in the graph: in-range vertices, consecutive ones adjacent.
pub open spec fn is_walk(adj: Seq<Seq<bool>>, p: Seq<int>) -> bool {
    &&& p.len() >= 1
    &&& forall|k: int| 0 <= k < p.len() ==> 0 <= #[trigger] p[k] < adj.len()
    &&& forall|k: int| 0 <= k < p.len() - 1 ==> #[trigger] adj[p[k]][p[k + 1]]
}

/// `b` can be reached from `a` along edges.
pub open spec fn connected(adj: Seq<Seq<bool>>, a: int, b: int) -> bool {
    exists|p: Seq<int>| #[trigger] is_walk(adj, p) && p[0] == a && p.last() == b
}

/// `v` cannot be reached from any vertex numbered below it: it is the first
/// vertex of its component.
pub open spec fn is_leader(adj: Seq<Seq<bool>>, v: int) -> bool {
    forall|k: int| 0 <= k < v ==> !#[trigger] connected(adj, k, v)
}

/// Number of leaders among the vertices `0 .. m`.
pub open spec fn leaders(adj: Seq<Seq<bool>>, m: int) -> nat
    decreases m,
{
    if m <= 0 {
        0
    } else {
        leaders(adj, m - 1) + (if is_leader(adj, m - 1) {
            1nat
        } else {
            0nat
        })
    }
}

/// Number of `b` in `lo .. hi` with `adj[a][b]`.
pub open spec fn row_count(adj: Seq<Seq<bool>>, a: int, lo: int, hi: int) -> nat
    decreases hi - lo,
{
    if hi <= lo {
        0
    } else {
        row_count(adj, a, lo, hi - 1) + (if adj[a][hi - 1] {
            1nat
        } else {
            0nat
        })
    }
}

/// Number of edges `{a, b}`, `a < b`, with `a < i`.
pub open spec fn edges_below(adj: Seq<Seq<bool>>, i: int) -> nat
    decreases i,
{
    if i <= 0 {
        0
    } else {
        edges_below(adj, i - 1) + row_count(adj, i - 1, i, adj.len() as int)
    }
}

/// Number of `c` in `lo .. hi` adjacent to both `a` and `b`.
pub open spec fn common_count(adj: Seq<Seq<bool>>, a: int, b: int, lo: int, hi: int) -> nat
    decreases hi - lo,
{
    if hi <= lo {
        0
    } else {
        common_count(adj, a, b, lo, hi - 1) + (if adj[a][hi - 1] && adj[b][hi - 1] {
            1nat
        } else {
            0nat
        })
    }
}

/// Number of triangles `a < b < c` with `b < hi` (for a fixed `a`).
pub open spec fn triangles_at(adj: Seq<Seq<bool>>, a: int, hi: int) -> nat
    decreases hi - (a + 1),
{
    if hi <= a + 1 {
        0
    } else {
        triangles_at(adj, a, hi - 1) + (if adj[a][hi - 1] {
            common_count(adj, a, hi - 1, hi, adj.len() as int)
        } else {
            0nat
        })
    }
}

/// Number of triangles `a < b < c` with `a < i`.
pub open spec fn triangles_below(adj: Seq<Seq<bool>>, i: int) -> nat
    decreases i,
{
    if i <= 0 {
        0
    } else {
        triangles_below(adj, i - 1) + triangles_at(adj, i - 1, adj.len() as int)
    }
}

/// The Betti numbers the engine reports for the Rips graph `adj`.
pub open spec fn rips_betti(adj: Seq<Seq<bool>>) -> (int, int, int) {
    let n = adj.len() as int;
    if n == 0 {
        (0, 0, 0)
    } else {
        let b0 = leaders(adj, n) as int;
        let e = edges_below(adj, n) as int;
        let t = triangles_below(adj, n) as int;
        (b0, if e >= n - b0 { e - (n - b0) } else { 0 }, if t / 4 >= 1 { t / 4 } else { 1 })
    }
}

/// Number of `false` entries.
pub open spec fn count_false(s: Seq<bool>) -> nat
    decreases s.len(),
{
    if s.len() == 0 {
        0
    } else {
        count_false(s.drop_last()) + (if s.last() {
            0nat
        } else {
            1nat
        })
    }
}

/// A set of vertices (as flags) closed under following edges.
pub open spec fn is_closed(adj: Seq<Seq<bool>>, vis: Seq<bool>) -> bool {
    forall|u: int, v: int|
        0 <= u < adj.len() && 0 <= v < adj.len() && #[trigger] vis[u] && #[trigger] adj[u][v]
            ==> vis[v]
}

pub proof fn lemma_count_false_set(s: Seq<bool>, i: int)
    requires
        0 <= i < s.len(),
        !s[i],
    ensures
        count_false(s.update(i, true)) + 1 == count_false(s),
    decreases s.len(),
{
    if i == s.len() - 1 {
        assert(s.update(i, true).drop_last() == s.drop_last());
    } else {
        assert(s.update(i, true).drop_last() == s.drop_last().update(i, true));
        lemma_count_false_set(s.drop_last(), i);
    }
}

proof fn lemma_closed_walk(adj: Seq<Seq<bool>>, vis: Seq<bool>, p: Seq<int>)
    requires
        is_closed(adj, vis),
        is_walk(adj, p),
        vis.len() == adj.len(),
        vis[p[0]],
    ensures
        vis[p.last()],
    decreases p.len(),
{
    if p.len() > 1 {
        let q = p.drop_last();
        assert(is_walk(adj, q)) by {
            assert forall|k: int| 0 <= k < q.len() - 1 implies #[trigger] adj[q[k]][q[k + 1]] by {
                assert(adj[p[k]][p[k + 1]]);
            }
        }
        lemma_closed_walk(adj, vis, q);
        let k = p.len() - 2;
        assert(adj[p[k]][p[k + 1]]);
        assert(vis[p[k]]);
    }
}

/// If `u` is reachable from a vertex of a closed set, `u` is in the set.
proof fn lemma_closed_connected(adj: Seq<Seq<bool>>, vis: Seq<bool>, a: int, b: int)
    requires
        is_closed(adj, vis),
        vis.len() == adj.len(),
        connected(adj, a, b),
        0 <= a < adj.len(),
        vis[a],
    ensures
        vis[b],
{
    let p = choose|p: Seq<int>| #[trigger] is_walk(adj, p) && p[0] == a && p.last() == b;
    lemma_closed_walk(adj, vis, p);
}

proof fn lemma_connected_step(adj: Seq<Seq<bool>>, s: int, u: int, v: int)
    requires
        connected(adj, s, u),
        0 <= v < adj.len(),
        0 <= u < adj.len(),
        adj[u][v],
    ensures
        connected(adj, s, v),
{
    let p = choose|p: Seq<int>| #[trigger] is_walk(adj, p) && p[0] == s && p.last() == u;
    let q = p.push(v);
    assert(is_walk(adj, q)) by {
        assert forall|k: int| 0 <= k < q.len() - 1 implies #[trigger] adj[q[k]][q[k + 1]] by {
            if k < p.len() - 1 {
                assert(adj[p[k]][p[k + 1]]);
            }
        }
    }
    assert(q[0] == s && q.last() == v);
}

proof fn lemma_connected_self(adj: Seq<Seq<bool>>, s: int)
    requires
        0 <= s < adj.len(),
    ensures
        connected(adj, s, s),
{
    let p = seq![s];
    assert(is_walk(adj, p));
}

/// Breadth-first search from `s`: marks every vertex reachable from `s`, and
/// only those, among the vertices not yet marked.
fn explore(adj: &Vec<Vec<bool>>, visited: &mut Vec<bool>, s: usize)
    requires
        is_square(adj@.map_values(|r: Vec<bool>| r@)),
        old(visited)@.len() == adj@.len(),
        s < adj@.len(),
        !old(visited)@[s as int],
        is_closed(adj@.map_values(|r: Vec<bool>| r@), old(visited)@),
    ensures
        final(visited)@.len() == adj@.len(),
        final(visited)@[s as int],
        is_closed(adj@.map_values(|r: Vec<bool>| r@), final(visited)@),
        forall|v: int| 0 <= v < adj@.len() && old(visited)@[v] ==> #[trigger] final(visited)@[v],
        forall|v: int|
            0 <= v < adj@.len() && #[trigger] final(visited)@[v] && !old(visited)@[v] ==> connected(
                adj@.map_values(|r: Vec<bool>| r@),
                s as int,
                v,
            ),
{
    let ghost g = adj@.map_values(|r: Vec<bool>| r@);
    let ghost old_vis = visited@;
    let n = adj.len();
    let mut queue: VecDeque<usize> = VecDeque::new();
    queue.push_back(s);
    proof {
        lemma_count_false_set(visited@, s as int);
        lemma_connected_self(g, s as int);
    }
    visited.set(s, true);
    proof {
        assert(queue@[0] == s);
        assert(queue@.contains(s));
        assert forall|u: int, v: int|
            0 <= u < n && 0 <= v < n && #[trigger] visited@[u] && !queue@.contains(u as usize)
                && #[trigger] g[u][v] implies visited@[v] by {
            assert(u != s);
            assert(old_vis[u]);
        }
    }
    while queue.len() > 0
        invariant
            n == adj@.len(),
            g == adj@.map_values(|r: Vec<bool>| r@),
            is_square(g),
            visited@.len() == n,
            old_vis.len() == n,
            is_closed(g, old_vis),
            visited@[s as int],
            forall|q: int| 0 <= q < queue@.len() ==> #[trigger] queue@[q] < n,
            forall|q: int| 0 <= q < queue@.len() ==> visited@[#[trigger] queue@[q] as int],
            forall|q: int| 0 <= q < queue@.len() ==> !old_vis[#[trigger] queue@[q] as int],
            forall|a: int, b: int| 0 <= a < b < queue@.len() ==> #[trigger] queue@[a] != #[trigger] queue@[b],
            forall|v: int| 0 <= v < n && old_vis[v] ==> #[trigger] visited@[v],
            forall|v: int| 0 <= v < n && #[trigger] visited@[v] && !old_vis[v] ==> connected(g, s as int, v),
            forall|u: int, v: int|
                0 <= u < n && 0 <= v < n && #[trigger] visited@[u] && !queue@.contains(u as usize)
                    && #[trigger] g[u][v] ==> visited@[v],
        decreases 2 * count_false(visited@) + queue@.len(),
    {
        let ghost m0 = 2 * count_false(visited@) + queue@.len();
        let ghost q0 = queue@;
        let curr = match queue.pop_front() {
            Some(c) => c,
            None => s,
        };
        proof {
            assert(curr == q0[0]);
            assert(queue@ == q0.subrange(1, q0.len() as int));
            assert(!queue@.contains(curr)) by {
                if queue@.contains(curr) {
                    let q = choose|q: int| 0 <= q < queue@.len() && queue@[q] == curr;
                    assert(q0[q + 1] == q0[0]);
                }
            }
            assert forall|u: int, v: int|
                0 <= u < n && 0 <= v < n && u != curr && #[trigger] visited@[u] && !queue@.contains(u as usize)
                    && #[trigger] g[u][v] implies visited@[v] by {
                if q0.contains(u as usize) {
                    let q = choose|q: int| 0 <= q < q0.len() && q0[q] == u as usize;
                    if q > 0 {
                        assert(queue@[q - 1] == u as usize);
                    }
                }
            }
            assert(connected(g, s as int, curr as int));
        }
        let row = &adj[curr];
        let mut nb: usize = 0;
        while nb < n
            invariant
                n == adj@.len(),
                g == adj@.map_values(|r: Vec<bool>| r@),
                is_square(g),
                curr < n,
                row@ == g[curr as int],
                nb <= n,
                visited@.len() == n,
                old_vis.len() == n,
                is_closed(g, old_vis),
                visited@[s as int],
                visited@[curr as int],
                connected(g, s as int, curr as int),
                !queue@.contains(curr),
                2 * count_false(visited@) + queue@.len() < m0,
                forall|q: int| 0 <= q < queue@.len() ==> #[trigger] queue@[q] < n,
                forall|q: int| 0 <= q < queue@.len() ==> visited@[#[trigger] queue@[q] as int],
                forall|q: int| 0 <= q < queue@.len() ==> !old_vis[#[trigger] queue@[q] as int],
                forall|a: int, b: int| 0 <= a < b < queue@.len() ==> #[trigger] queue@[a] != #[trigger] queue@[b],
                forall|v: int| 0 <= v < n && old_vis[v] ==> #[trigger] visited@[v],
                forall|v: int| 0 <= v < n && #[trigger] visited@[v] && !old_vis[v] ==> connected(g, s as int, v),
                forall|u: int, v: int|
                    0 <= u < n && 0 <= v < n && u != curr && #[trigger] visited@[u] && !queue@.contains(u as usize)
                        && #[trigger] g[u][v] ==> visited@[v],
                forall|v: int| 0 <= v < nb && #[trigger] g[curr as int][v] ==> visited@[v],
            decreases n - nb,
        {
            if row[nb] && !visited[nb] {
                let ghost vb = visited@;
                let ghost qb = queue@;
                proof {
                    lemma_count_false_set(visited@, nb as int);
                    lemma_connected_step(g, s as int, curr as int, nb as int);
                    assert(!old_vis[nb as int]);
                }
                visited.set(nb, true);
                queue.push_back(nb);
                proof {
                    assert(queue@ == qb.push(nb));
                    assert(queue@[queue@.len() - 1] == nb);
                    assert(queue@.contains(nb));
                    assert forall|a: int, b: int| 0 <= a < b < queue@.len() implies #[trigger] queue@[a]
                        != #[trigger] queue@[b] by {
                        if b == queue@.len() - 1 {
                            assert(vb[qb[a] as int]);
                        }
                    }
                    assert forall|u: int, v: int|
                        0 <= u < n && 0 <= v < n && u != curr && #[trigger] visited@[u] && !queue@.contains(u as usize)
                            && #[trigger] g[u][v] implies visited@[v] by {
                        assert(u != nb);
                        assert(vb[u]);
                        assert(!qb.contains(u as usize)) by {
                            if qb.contains(u as usize) {
                                let q = choose|q: int| 0 <= q < qb.len() && qb[q] == u as usize;
                                assert(queue@[q] == u as usize);
                            }
                        }
                    }
                    assert(!queue@.contains(curr)) by {
                        if queue@.contains(curr) {
                            let q = choose|q: int| 0 <= q < queue@.len() && queue@[q] == curr;
                            if q < qb.len() {
                                assert(qb[q] == curr);
                            }
                        }
                    }
                }
            }
            nb = nb + 1;
        }
    }
}

/// Betti numbers of the Rips graph with adjacency matrix `adj` (all zero for
/// an empty cloud), or `None` when the graph has more triangles than a
/// `usize` counts (where the engine's triangle count overflows).
pub fn try_betti_from_adjacency(adj: &Vec<Vec<bool>>) -> (b: Option<BettiNumbers>)
    requires
        is_square(adj@.map_values(|r: Vec<bool>| r@)),
        adj@.len() * adj@.len() <= usize::MAX,
    ensures
        b is Some <==> triangles_below(adj@.map_values(|r: Vec<bool>| r@), adj@.len() as int)
            <= usize::MAX,
        b matches Some(b) ==> (b.betti_0 as int, b.betti_1 as int, b.betti_2 as int) == rips_betti(
            adj@.map_values(|r: Vec<bool>| r@),
        ),
{
    let ghost g = adj@.map_values(|r: Vec<bool>| r@);
    let n = adj.len();
    if n == 0 {
        return Some(BettiNumbers::default());
    }
    let triangles = count_triangles(adj);
    if triangles > usize::MAX as u128 {
        return None;
    }
    let components = count_components(adj);
    let edge_count = count_edges(adj);
    proof {
        lemma_leaders_le(g, n as int);
    }
    let betti_1 = if edge_count >= n - components {
        edge_count - (n - components)
    } else {
        0
    };
    let quarter = (triangles / 4) as usize;
    let betti_2 = if quarter >= 1 {
        quarter
    } else {
        1
    };
    Some(BettiNumbers { betti_0: components, betti_1, betti_2 })
}

/// Betti numbers of the Rips graph with adjacency matrix `adj` (all zero for
/// an empty cloud).
pub fn betti_from_adjacency(adj: &Vec<Vec<bool>>) -> (b: BettiNumbers)
    requires
        is_square(adj@.map_values(|r: Vec<bool>| r@)),
        adj@.len() * adj@.len() <= usize::MAX,
        triangles_below(adj@.map_values(|r: Vec<bool>| r@), adj@.len() as int) <= usize::MAX,
    ensures
        (b.betti_0 as int, b.betti_1 as int, b.betti_2 as int) == rips_betti(
            adj@.map_values(|r: Vec<bool>| r@),
        ),
{
    match try_betti_from_adjacency(adj) {
        Some(b) => b,
        None => {
            proof {
                assert(false);
            }
            BettiNumbers::default()
        },
    }
}

proof fn lemma_leaders_le(adj: Seq<Seq<bool>>, m: int)
    requires
        m >= 0,
    ensures
        leaders(adj, m) <= m,
    decreases m,
{
    if m > 0 {
        lemma_leaders_le(adj, m - 1);
    }
}

/// Number of connected components, counted at their lowest vertex.
fn count_components(adj: &Vec<Vec<bool>>) -> (c: usize)
    requires
        is_square(adj@.map_values(|r: Vec<bool>| r@)),
    ensures
        c == leaders(adj@.map_values(|r: Vec<bool>| r@), adj@.len() as int),
{
    let ghost g = adj@.map_values(|r: Vec<bool>| r@);
    let n = adj.len();
    let mut visited: Vec<bool> = Vec::new();
    let mut k: usize = 0;
    while k < n
        invariant
            k <= n,
            visited@.len() == k,
            forall|v: int| 0 <= v < k ==> !#[trigger] visited@[v],
        decreases n - k,
    {
        visited.push(false);
        k = k + 1;
    }
    let mut components: usize = 0;
    let mut i: usize = 0;
    while i < n
        invariant
            n == adj@.len(),
            g == adj@.map_values(|r: Vec<bool>| r@),
            is_square(g),
            i <= n,
            visited@.len() == n,
            is_closed(g, visited@),
            forall|v: int| 0 <= v < i ==> #[trigger] visited@[v],
            forall|v: int| 0 <= v < n && #[trigger] visited@[v] ==> exists|k: int| 0 <= k < i && #[trigger] connected(g, k, v),
            components == leaders(g, i as int),
            components <= i,
        decreases n - i,
    {
        if !visited[i] {
            proof {
                assert(is_leader(g, i as int)) by {
                    assert forall|k: int| 0 <= k < i implies !#[trigger] connected(g, k, i as int) by {
                        if connected(g, k, i as int) {
                            lemma_closed_connected(g, visited@, k, i as int);
                        }
                    }
                }
            }
            let ghost before = visited@;
            explore(adj, &mut visited, i);
            proof {
                assert forall|v: int| 0 <= v < n && #[trigger] visited@[v] implies exists|k: int|
                    0 <= k < i + 1 && #[trigger] connected(g, k, v) by {
                    if before[v] {
                        let k = choose|k: int| 0 <= k < i && #[trigger] connected(g, k, v);
                        assert(connected(g, k, v));
                    } else {
                        assert(connected(g, i as int, v));
                    }
                }
            }
            components = components + 1;
        } else {
            proof {
                let k = choose|k: int| 0 <= k < i && #[trigger] connected(g, k, i as int);
                assert(!is_leader(g, i as int));
            }
        }
        i = i + 1;
    }
    components
}

proof fn lemma_row_count_le(adj: Seq<Seq<bool>>, a: int, lo: int, hi: int)
    ensures
        row_count(adj, a, lo, hi) <= if hi >= lo { hi - lo } else { 0 },
    decreases hi - lo,
{
    if hi > lo {
        lemma_row_count_le(adj, a, lo, hi - 1);
    }
}

proof fn lemma_common_count_le(adj: Seq<Seq<bool>>, a: int, b: int, lo: int, hi: int)
    ensures
        common_count(adj, a, b, lo, hi) <= if hi >= lo { hi - lo } else { 0 },
    decreases hi - lo,
{
    if hi > lo {
        lemma_common_count_le(adj, a, b, lo, hi - 1);
    }
}

proof fn lemma_edges_below_le(adj: Seq<Seq<bool>>, i: int)
    requires
        0 <= i <= adj.len(),
    ensures
        edges_below(adj, i) <= i * adj.len(),
    decreases i,
{
    if i > 0 {
        lemma_edges_below_le(adj, i - 1);
        lemma_row_count_le(adj, i - 1, i, adj.len() as int);
        assert((i - 1) * adj.len() + adj.len() == i * adj.len()) by (nonlinear_arith);
    }
}

proof fn lemma_triangles_at_le(adj: Seq<Seq<bool>>, a: int, hi: int)
    requires
        0 <= a,
        hi <= adj.len(),
    ensures
        triangles_at(adj, a, hi) <= (if hi >= a + 1 { hi - (a + 1) } else { 0 }) * adj.len(),
    decreases hi - (a + 1),
{
    if hi > a + 1 {
        lemma_triangles_at_le(adj, a, hi - 1);
        lemma_common_count_le(adj, a, hi - 1, hi, adj.len() as int);
        let m = hi - 1 - (a + 1);
        assert(m * adj.len() + adj.len() == (m + 1) * adj.len()) by (nonlinear_arith);
    }
}

proof fn lemma_triangles_below_le(adj: Seq<Seq<bool>>, i: int)
    requires
        0 <= i <= adj.len(),
    ensures
        triangles_below(adj, i) <= i * adj.len() * adj.len(),
    decreases i,
{
    if i > 0 {
        let n = adj.len() as int;
        lemma_triangles_below_le(adj, i - 1);
        lemma_triangles_at_le(adj, i - 1, n);
        assert((n - i) * n <= n * n) by (nonlinear_arith)
            requires
                0 < i <= n,
        ;
        assert((i - 1) * n * n + n * n == i * n * n) by (nonlinear_arith);
    }
}

/// Number of edges `{a, b}`, `a < b`.
fn count_edges(adj: &Vec<Vec<bool>>) -> (e: usize)
    requires
        is_square(adj@.map_values(|r: Vec<bool>| r@)),
        adj@.len() * adj@.len() <= usize::MAX,
    ensures
        e == edges_below(adj@.map_values(|r: Vec<bool>| r@), adj@.len() as int),
{
    let ghost g = adj@.map_values(|r: Vec<bool>| r@);
    let n = adj.len();
    let mut edge_count: usize = 0;
    let mut i: usize = 0;
    while i < n
        invariant
            n == adj@.len(),
            g == adj@.map_values(|r: Vec<bool>| r@),
            is_square(g),
            n * n <= usize::MAX,
            i <= n,
            edge_count == edges_below(g, i as int),
        decreases n - i,
    {
        proof {
            lemma_edges_below_le(g, i as int);
        }
        let row = &adj[i];
        let mut j: usize = i + 1;
        while j < n
            invariant
                n == adj@.len(),
                g == adj@.map_values(|r: Vec<bool>| r@),
                is_square(g),
                n * n <= usize::MAX,
                i < n,
                i + 1 <= j <= n,
                row@ == g[i as int],
                edges_below(g, i as int) <= i * n,
                edge_count == edges_below(g, i as int) + row_count(g, i as int, i + 1, j as int),
            decreases n - j,
        {
            proof {
                lemma_row_count_le(g, i as int, i + 1, j + 1);
                assert(i * n + n <= n * n) by (nonlinear_arith)
                    requires
                        i < n,
                ;
            }
            if row[j] {
                edge_count = edge_count + 1;
            }
            j = j + 1;
        }
        i = i + 1;
    }
    edge_count
}

/// A side whose square fits in `usize` has a cube that fits in `u128`.
proof fn lemma_cube_fits(n: int)
    requires
        0 <= n,
        n * n <= usize::MAX,
    ensures
        n * n * n <= u128::MAX,
{
    assert(n <= 0xffff_ffff) by (nonlinear_arith)
        requires
            0 <= n,
            n * n <= 0xffff_ffff_ffff_ffff,
    ;
    assert(n * n * n <= 0xffff_ffff * 0xffff_ffff * 0xffff_ffff) by (nonlinear_arith)
        requires
            0 <= n <= 0xffff_ffff,
    ;
}

/// Number of triangles `a < b < c` of the graph.
fn count_triangles(adj: &Vec<Vec<bool>>) -> (t: u128)
    requires
        is_square(adj@.map_values(|r: Vec<bool>| r@)),
        adj@.len() * adj@.len() <= usize::MAX,
    ensures
        t == triangles_below(adj@.map_values(|r: Vec<bool>| r@), adj@.len() as int),
{
    let ghost g = adj@.map_values(|r: Vec<bool>| r@);
    let n = adj.len();
    proof {
        lemma_cube_fits(n as int);
    }
    let mut triangles: u128 = 0;
    let mut i: usize = 0;
    while i < n
        invariant
            n == adj@.len(),
            g == adj@.map_values(|r: Vec<bool>| r@),
            is_square(g),
            n * n * n <= u128::MAX,
            i <= n,
            triangles == triangles_below(g, i as int),
        decreases n - i,
    {
        proof {
            lemma_triangles_below_le(g, i as int);
        }
        let row_i = &adj[i];
        let mut j: usize = i + 1;
        while j < n
            invariant
                n == adj@.len(),
                g == adj@.map_values(|r: Vec<bool>| r@),
                is_square(g),
                n * n * n <= u128::MAX,
                i < n,
                i + 1 <= j <= n,
                row_i@ == g[i as int],
                triangles_below(g, i as int) <= i * n * n,
                triangles == triangles_below(g, i as int) + triangles_at(g, i as int, j as int),
            decreases n - j,
        {
            proof {
                lemma_triangles_at_le(g, i as int, j as int);
            }
            if row_i[j] {
                let row_j = &adj[j];
                let mut k: usize = j + 1;
                while k < n
                    invariant
                        n == adj@.len(),
                        g == adj@.map_values(|r: Vec<bool>| r@),
                        is_square(g),
                        n * n * n <= u128::MAX,
                        i < n,
                        i + 1 <= j < n,
                        j + 1 <= k <= n,
                        row_i@ == g[i as int],
                        row_j@ == g[j as int],
                        g[i as int][j as int],
                        triangles_below(g, i as int) <= i * n * n,
                        triangles_at(g, i as int, j as int) <= (j - (i + 1)) * n,
                        triangles == triangles_below(g, i as int) + triangles_at(g, i as int, j as int)
                            + common_count(g, i as int, j as int, j + 1, k as int),
                    decreases n - k,
                {
                    proof {
                        lemma_common_count_le(g, i as int, j as int, j + 1, k + 1);
                        assert(i * n * n + (j - (i + 1)) * n + n <= n * n * n) by (nonlinear_arith)
                            requires
                                i < n,
                                i + 1 <= j < n,
                        ;
                    }
                    if row_i[k] && row_j[k] {
                        triangles = triangles + 1;
                    }
                    k = k + 1;
                }
            }
            j = j + 1;
        }
        i = i + 1;
    }
    triangles
}

/// Which persistence pairs the landscape lists: `(dimension, index)` for each
/// connected component (`dimension 0`) and for at most ten loops
/// (`dimension 1`), in that order.  Their birth and death radii are scaled
/// from the filtration threshold by the index.
pub fn persistence_pair_plan(betti: &BettiNumbers) -> (plan: Vec<(usize, usize)>)
    ensures
        plan.len() == betti.betti_0 + (if betti.betti_1 < 10 { betti.betti_1 as int } else { 10 }),
        forall|k: int| 0 <= k < betti.betti_0 ==> #[trigger] plan[k] == (0usize, k as usize),
        forall|k: int|
            betti.betti_0 <= k < plan.len() ==> #[trigger] plan[k] == (1usize, (k - betti.betti_0) as usize),
{
    let mut plan: Vec<(usize, usize)> = Vec::new();
    let mut i: usize = 0;
    while i < betti.betti_0
        invariant
            i <= betti.betti_0,
            plan.len() == i,
            forall|k: int| 0 <= k < i ==> #[trigger] plan[k] == (0usize, k as usize),
        decreases betti.betti_0 - i,
    {
        plan.push((0, i));
        i = i + 1;
    }
    let loops = if betti.betti_1 < 10 {
        betti.betti_1
    } else {
        10
    };
    let mut j: usize = 0;
    while j < loops
        invariant
            j <= loops,
            loops == (if betti.betti_1 < 10 { betti.betti_1 } else { 10 }),
            plan.len() == betti.betti_0 + j,
            forall|k: int| 0 <= k < betti.betti_0 ==> #[trigger] plan[k] == (0usize, k as usize),
            forall|k: int|
                betti.betti_0 <= k < plan.len() ==> #[trigger] plan[k] == (1usize, (k - betti.betti_0) as usize),
        decreases loops - j,
    {
        plan.push((1, j));
        j = j + 1;
    }
    plan
}

/// Law: for a non-empty cloud, `b0` is the number of connected components
/// (points with no walk to an earlier point), `b1` is the cycle rank
/// `E - (V - b0)` of the Rips graph (zero if that were negative), and `b2`
/// is a quarter of the triangles, rounded down, but at least one.
pub proof fn law_rips_betti_cycle_rank(adj: Seq<Seq<bool>>)
    requires
        adj.len() > 0,
    ensures
        ({
            let n = adj.len() as int;
            let e = edges_below(adj, n) as int;
            let t = triangles_below(adj, n) as int;
            let (b0, b1, b2) = rips_betti(adj);
            &&& b0 == leaders(adj, n)
            &&& e + b0 >= n ==> b1 + n == e + b0
            &&& e + b0 < n ==> b1 == 0
            &&& b2 >= 1
            &&& t >= 4 ==> 4 * b2 <= t < 4 * b2 + 4
            &&& t < 4 ==> b2 == 1
        }),
{
}

/// Law: a non-empty cloud has at least one connected component (its first
/// particle always starts one) and at most one per particle, and `betti_2`
/// is then at least 1.
pub proof fn law_nonempty_cloud_betti(adj: Seq<Seq<bool>>)
    requires
        adj.len() > 0,
    ensures
        1 <= rips_betti(adj).0 <= adj.len(),
        rips_betti(adj).2 >= 1,
{
    lemma_leaders_ge_one(adj, adj.len() as int);
    lemma_leaders_le(adj, adj.len() as int);
}

proof fn lemma_leaders_ge_one(adj: Seq<Seq<bool>>, m: int)
    requires
        m >= 1,
    ensures
        leaders(adj, m) >= 1,
    decreases m,
{
    if m == 1 {
        assert(is_leader(adj, 0));
    } else {
        lemma_leaders_ge_one(adj, m - 1);
    }
}

} // verus!
