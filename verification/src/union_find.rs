//! Disjoint-set forest with union by rank and path compression.
//!
//! The abstract state of a `UnionFind` over `n` elements is, for every element
//! `k < n`, its representative `rep(k)` (the root of its tree) together with the
//! rank of every element.  Two elements are in the same set exactly when they
//! have the same representative.
use vstd::prelude::*;
use vstd::set_lib::*;

verus! {

/// Representative of `i` in the forest described by `parent` and `rank`.
///
/// Following parent links is well founded because, in a well-formed forest,
/// the rank strictly increases along every link; the definition stops at the
/// first node where that does not hold (a root in a well-formed forest).
pub open spec fn root_of(parent: Seq<usize>, rank: Seq<usize>, i: int) -> int
    decreases usize::MAX - rank[i],
{
    if 0 <= i < parent.len() && i < rank.len() && parent[i] != i && parent[i] < parent.len()
        && parent[i] < rank.len() && rank[i] < rank[parent[i] as int] {
        root_of(parent, rank, parent[i] as int)
    } else {
        i
    }
}

/// The set of roots of a forest over `parent`.
pub open spec fn roots_of(parent: Seq<usize>) -> Set<int> {
    Set::new(|k: int| 0 <= k < parent.len() && parent[k] == k)
}

/// Structural well-formedness of a forest over `parent` / `rank`.
pub open spec fn forest_wf(parent: Seq<usize>, rank: Seq<usize>) -> bool {
    &&& parent.len() == rank.len()
    &&& forall|k: int| 0 <= k < parent.len() ==> #[trigger] parent[k] < parent.len()
    &&& forall|k: int|
        0 <= k < parent.len() && #[trigger] parent[k] != k ==> rank[k] < rank[parent[k] as int]
}

pub struct UnionFind {
    parent: Vec<usize>,
    rank: Vec<usize>,
    components: usize,
}

impl UnionFind {
    /// Number of elements.
    pub closed spec fn size(&self) -> nat {
        self.parent@.len()
    }

    /// Representative (root) of element `k`.
    pub closed spec fn rep(&self, k: int) -> int {
        root_of(self.parent@, self.rank@, k)
    }

    /// Parent link of element `k` (itself for a root).
    pub closed spec fn parent_of(&self, k: int) -> int {
        self.parent@[k] as int
    }

    /// Rank stored for element `k`.
    pub closed spec fn rank_of(&self, k: int) -> int {
        self.rank@[k] as int
    }

    /// Number of sets, as tracked by the structure.
    pub closed spec fn num_components(&self) -> int {
        self.components as int
    }

    /// Elements that are their own parent: the roots of the forest.
    pub open spec fn roots(&self) -> Set<int> {
        Set::new(|k: int| 0 <= k < self.size() && self.parent_of(k) == k)
    }

    /// Whether `a` and `b` belong to the same set.
    pub open spec fn same(&self, a: int, b: int) -> bool {
        self.rep(a) == self.rep(b)
    }

    /// The set of all representatives, one per set of the partition.
    pub open spec fn classes(&self) -> Set<int> {
        Set::new(|r: int| exists|k: int| 0 <= k < self.size() && #[trigger] self.rep(k) == r)
    }

    /// Internal invariant: a well-formed forest whose tracked component count
    /// is the number of roots, with ranks bounded by the number of merges.
    pub closed spec fn wf(&self) -> bool {
        &&& forest_wf(self.parent@, self.rank@)
        &&& roots_of(self.parent@).finite()
        &&& self.components == roots_of(self.parent@).len()
        &&& self.components <= self.parent@.len()
        &&& forall|k: int|
            0 <= k < self.parent@.len() ==> #[trigger] self.rank@[k] + self.components
                <= self.parent@.len()
    }

    /// What a successful or refused `union(i, j)` does to the abstract state.
    pub open spec fn union_post(pre: Self, post: Self, i: int, j: int, merged: bool) -> bool {
        let ri = pre.rep(i);
        let rj = pre.rep(j);
        let winner = if pre.rank_of(ri) < pre.rank_of(rj) { rj } else { ri };
        let loser = if pre.rank_of(ri) < pre.rank_of(rj) { ri } else { rj };
        &&& post.size() == pre.size()
        &&& merged == (ri != rj)
        &&& merged ==> {
            &&& post.num_components() == pre.num_components() - 1
            &&& forall|k: int|
                0 <= k < pre.size() ==> #[trigger] post.rep(k) == (if pre.rep(k) == loser {
                    winner
                } else {
                    pre.rep(k)
                })
            &&& post.rank_of(winner) == pre.rank_of(winner) + (if pre.rank_of(ri) == pre.rank_of(
                rj,
            ) {
                1int
            } else {
                0
            })
            &&& forall|k: int|
                0 <= k < pre.size() && k != winner ==> #[trigger] post.rank_of(k) == pre.rank_of(
                    k,
                )
        }
        &&& !merged ==> {
            &&& post.num_components() == pre.num_components()
            &&& forall|k: int| 0 <= k < pre.size() ==> #[trigger] post.rep(k) == pre.rep(k)
            &&& forall|k: int| 0 <= k < pre.size() ==> #[trigger] post.rank_of(k) == pre.rank_of(k)
        }
    }

    /// Creates `n` singleton sets `{0}, ..., {n-1}`.
    pub fn new(n: usize) -> (uf: Self)
        ensures
            uf.wf(),
            uf.size() == n,
            uf.num_components() == n,
            forall|k: int| 0 <= k < n ==> #[trigger] uf.rep(k) == k,
            forall|k: int| 0 <= k < n ==> #[trigger] uf.rank_of(k) == 0,
    {
        let mut parent: Vec<usize> = Vec::with_capacity(n);
        let mut rank: Vec<usize> = Vec::with_capacity(n);
        let mut i: usize = 0;
        while i < n
            invariant
                i <= n,
                parent@.len() == i,
                rank@.len() == i,
                forall|k: int| 0 <= k < i ==> #[trigger] parent@[k] == k,
                forall|k: int| 0 <= k < i ==> #[trigger] rank@[k] == 0,
            decreases n - i,
        {
            parent.push(i);
            rank.push(0);
            i = i + 1;
        }
        let uf = UnionFind { parent, rank, components: n };
        proof {
            lemma_int_range(0, n as int);
            assert(roots_of(uf.parent@) =~= set_int_range(0, n as int));
            assert forall|k: int| 0 <= k < n implies #[trigger] uf.rep(k) == k by {
                assert(uf.parent@[k] == k);
            }
        }
        uf
    }

    /// Number of elements.
    pub fn len(&self) -> (r: usize)
        ensures
            r == self.size(),
    {
        self.parent.len()
    }

    /// Number of disjoint sets.
    pub fn components(&self) -> (r: usize)
        ensures
            r == self.num_components(),
    {
        self.components
    }

    /// Returns the representative of `i`, compressing the path from `i` to it.
    /// The partition, the representatives and the ranks are unchanged.
    pub fn find(&mut self, i: usize) -> (r: usize)
        requires
            old(self).wf(),
            i < old(self).size(),
        ensures
            final(self).wf(),
            r == old(self).rep(i as int),
            final(self).size() == old(self).size(),
            final(self).num_components() == old(self).num_components(),
            forall|k: int| 0 <= k < old(self).size() ==> #[trigger] final(self).rep(k) == old(self).rep(k),
            forall|k: int| 0 <= k < old(self).size() ==> #[trigger] final(self).rank_of(k) == old(self).rank_of(k),
            final(self).parent_of(i as int) == r,
            final(self).parent_of(r as int) == r,
            forall|k: int|
                0 <= k < old(self).size() ==> #[trigger] final(self).parent_of(k) == old(self).parent_of(k)
                    || final(self).parent_of(k) == old(self).rep(k),
        decreases usize::MAX - old(self).rank_of(i as int),
    {
        let p = self.parent[i];
        if p != i {
            proof {
                assert(self.parent@[i as int] != i);
            }
            let r = self.find(p);
            proof {
                lemma_rep_props(self.parent@, self.rank@, i as int);
                assert(self.rep(i as int) == old(self).rep(i as int)) ;
                assert(old(self).rep(i as int) == old(self).rep(p as int));
                lemma_rep_props(old(self).parent@, old(self).rank@, i as int);
                lemma_compress(self.parent@, self.rank@, i as int);
                lemma_compress_roots(self.parent@, i as int, r);
            }
            let ghost mid = *self;
            self.parent.set(i, r);
            proof {
                assert(self.parent@ == mid.parent@.update(i as int, r));
                assert forall|k: int| 0 <= k < old(self).size() implies #[trigger] self.rep(k)
                    == old(self).rep(k) by {
                    assert(self.rep(k) == mid.rep(k));
                }
                assert forall|k: int| 0 <= k < old(self).size() implies #[trigger] self.rank_of(k)
                    == old(self).rank_of(k) by {
                    assert(self.rank_of(k) == mid.rank_of(k));
                }
                assert(r != i);
                assert forall|k: int| 0 <= k < old(self).size() implies #[trigger] self.parent_of(k)
                    == old(self).parent_of(k) || self.parent_of(k) == old(self).rep(k) by {
                    if k != i {
                        assert(self.parent_of(k) == mid.parent_of(k));
                    }
                }
            }
            r
        } else {
            proof {
                lemma_rep_props(self.parent@, self.rank@, i as int);
            }
            i
        }
    }

    /// Merges the sets of `i` and `j` (union by rank).  Returns whether they
    /// were in different sets; the number of sets then drops by one.
    pub fn union(&mut self, i: usize, j: usize) -> (merged: bool)
        requires
            old(self).wf(),
            i < old(self).size(),
            j < old(self).size(),
        ensures
            final(self).wf(),
            Self::union_post(*old(self), *final(self), i as int, j as int, merged),
            final(self).parent_of(i as int) == (if i == old(self).rep(i as int) {
                final(self).rep(i as int)
            } else {
                old(self).rep(i as int)
            }),
            final(self).parent_of(j as int) == (if j == old(self).rep(j as int) {
                final(self).rep(j as int)
            } else {
                old(self).rep(j as int)
            }),
    {
        let ghost pre = *self;
        let root_i = self.find(i);
        let ghost after_i = *self;
        let root_j = self.find(j);
        let ghost mid = *self;
        proof {
            assert(mid.parent_of(i as int) == after_i.parent_of(i as int) || mid.parent_of(i as int)
                == after_i.rep(i as int));
            assert(mid.parent_of(i as int) == root_i);
            assert(mid.parent_of(j as int) == root_j);
            lemma_rep_props(pre.parent@, pre.rank@, i as int);
            lemma_rep_props(pre.parent@, pre.rank@, j as int);
            lemma_rep_props(mid.parent@, mid.rank@, i as int);
            lemma_rep_props(mid.parent@, mid.rank@, j as int);
            assert(mid.rep(i as int) == pre.rep(i as int));
            assert(mid.rep(j as int) == pre.rep(j as int));
        }
        if root_i != root_j {
            let ri_rank = self.rank[root_i];
            let rj_rank = self.rank[root_j];
            let n = self.parent.len();
            proof {
                assert(n == mid.parent@.len());
                assert(roots_of(mid.parent@).contains(root_i as int));
                assert(roots_of(mid.parent@).contains(root_j as int));
                vstd::set::axiom_set_contains_len(roots_of(mid.parent@), root_i as int);
                assert(mid.rank_of(root_i as int) == pre.rank_of(root_i as int));
                assert(mid.rank_of(root_j as int) == pre.rank_of(root_j as int));
                assert(mid.rank@[root_i as int] + mid.components <= mid.parent@.len());
                assert(mid.rank@[root_j as int] + mid.components <= mid.parent@.len());
                assert(mid.components >= 1);
            }
            let ghost winner: int = if ri_rank < rj_rank { root_j as int } else { root_i as int };
            let ghost loser: int = if ri_rank < rj_rank { root_i as int } else { root_j as int };
            let ghost inc: int = if ri_rank == rj_rank { 1 } else { 0 };
            if ri_rank < rj_rank {
                self.parent.set(root_i, root_j);
            } else if ri_rank > rj_rank {
                self.parent.set(root_j, root_i);
            } else {
                self.parent.set(root_j, root_i);
                self.rank.set(root_i, ri_rank + 1);
            }
            self.components = self.components - 1;
            proof {
                assert(self.parent@ == mid.parent@.update(loser, winner as usize));
                assert(self.rank@ == mid.rank@.update(winner, (mid.rank@[winner] + inc) as usize));
                lemma_link(mid.parent@, mid.rank@, loser, winner, inc);
                vstd::set::axiom_set_remove_len(roots_of(mid.parent@), loser);
                vstd::set::axiom_set_remove_finite(roots_of(mid.parent@), loser);
                assert forall|k: int| 0 <= k < self.parent@.len() implies #[trigger] self.rank@[k]
                    + self.components <= self.parent@.len() by {
                    assert(mid.rank@[k] + mid.components <= mid.parent@.len());
                }
                assert forall|k: int| 0 <= k < pre.size() implies #[trigger] self.rep(k) == (if pre.rep(k) == loser {
                    winner
                } else {
                    pre.rep(k)
                }) by {
                    assert(mid.rep(k) == pre.rep(k));
                }
                assert forall|k: int| 0 <= k < pre.size() && k != winner implies #[trigger] self.rank_of(k)
                    == pre.rank_of(k) by {
                    assert(mid.rank_of(k) == pre.rank_of(k));
                }
                if i as int != loser {
                    assert(self.parent_of(i as int) == mid.parent_of(i as int));
                }
                if j as int != loser {
                    assert(self.parent_of(j as int) == mid.parent_of(j as int));
                }
            }
            true
        } else {
            false
        }
    }
}

/// Law: the number of sets the structure reports is the number of distinct
/// representatives, i.e. the number of classes of the partition.
pub proof fn law_components_are_classes(uf: UnionFind)
    requires
        uf.wf(),
    ensures
        uf.num_components() == uf.classes().len(),
        uf.classes().finite(),
{
    assert forall|r: int| uf.classes().contains(r) <==> roots_of(uf.parent@).contains(r) by {
        if uf.classes().contains(r) {
            let k = choose|k: int| 0 <= k < uf.size() && #[trigger] uf.rep(k) == r;
            lemma_rep_props(uf.parent@, uf.rank@, k);
        }
        if roots_of(uf.parent@).contains(r) {
            lemma_rep_props(uf.parent@, uf.rank@, r);
            assert(uf.rep(r) == r);
        }
    }
    assert(uf.classes() =~= roots_of(uf.parent@));
}

/// Law: in every state reachable from `new` through `find` and `union`, the
/// number of sets is the number of roots, every parent link stays in range,
/// and ranks strictly increase from a non-root towards its parent.
pub proof fn law_forest_shape(uf: UnionFind)
    requires
        uf.wf(),
    ensures
        uf.roots().finite(),
        uf.num_components() == uf.roots().len(),
        forall|k: int|
            0 <= k < uf.size() ==> 0 <= #[trigger] uf.parent_of(k) < uf.size() && (uf.parent_of(k) != k
                ==> uf.rank_of(k) < uf.rank_of(uf.parent_of(k))),
{
    assert(uf.roots() =~= roots_of(uf.parent@));
}

/// Law: after `union(i, j)` the two elements are in the same set, and two
/// elements are in the same set exactly when they were before, or one was with
/// `i` and the other with `j`.  Nothing else is merged.
pub proof fn law_union_merges_exactly(pre: UnionFind, post: UnionFind, i: int, j: int, merged: bool)
    requires
        pre.wf(),
        0 <= i < pre.size(),
        0 <= j < pre.size(),
        UnionFind::union_post(pre, post, i, j, merged),
    ensures
        post.same(i, j),
        forall|a: int, b: int|
            0 <= a < pre.size() && 0 <= b < pre.size() ==> (#[trigger] post.same(a, b) <==> (
            pre.same(a, b) || (pre.same(a, i) && pre.same(b, j)) || (pre.same(a, j) && pre.same(
                b,
                i,
            )))),
{
    assert(post.rep(i) == post.rep(j));
}

/// Law: `find` answers the same representative for two elements exactly when
/// they are in the same set, and an element's representative is itself a
/// member of its set.
pub proof fn law_rep_is_member(uf: UnionFind, k: int)
    requires
        uf.wf(),
        0 <= k < uf.size(),
    ensures
        0 <= uf.rep(k) < uf.size(),
        uf.rep(uf.rep(k)) == uf.rep(k),
        uf.same(k, uf.rep(k)),
{
    lemma_rep_props(uf.parent@, uf.rank@, k);
    lemma_rep_props(uf.parent@, uf.rank@, uf.rep(k));
}

/// Basic facts about representatives in a well-formed forest: the
/// representative of `i` is an in-range root whose rank is at least that of
/// `i`, strictly when `i` is not itself a root.
pub proof fn lemma_rep_props(parent: Seq<usize>, rank: Seq<usize>, i: int)
    requires
        forest_wf(parent, rank),
        0 <= i < parent.len(),
    ensures
        0 <= root_of(parent, rank, i) < parent.len(),
        parent[root_of(parent, rank, i)] == root_of(parent, rank, i),
        rank[i] <= rank[root_of(parent, rank, i)],
        parent[i] != i ==> rank[i] < rank[root_of(parent, rank, i)],
        parent[i] == i ==> root_of(parent, rank, i) == i,
        parent[i] != i ==> root_of(parent, rank, i) == root_of(parent, rank, parent[i] as int),
    decreases usize::MAX - rank[i],
{
    if parent[i] != i {
        assert(parent[i] < parent.len());
        lemma_rep_props(parent, rank, parent[i] as int);
    }
}

/// Pointing a non-root `i` directly at its representative keeps the forest
/// well formed and leaves every representative unchanged.
pub proof fn lemma_compress(parent: Seq<usize>, rank: Seq<usize>, i: int)
    requires
        forest_wf(parent, rank),
        0 <= i < parent.len(),
        root_of(parent, rank, i) != i,
    ensures
        forest_wf(parent.update(i, root_of(parent, rank, i) as usize), rank),
        forall|k: int|
            0 <= k < parent.len() ==> #[trigger] root_of(
                parent.update(i, root_of(parent, rank, i) as usize),
                rank,
                k,
            ) == root_of(parent, rank, k),
{
    let r = root_of(parent, rank, i);
    lemma_rep_props(parent, rank, i);
    let np = parent.update(i, r as usize);
    assert forall|k: int| 0 <= k < parent.len() implies #[trigger] root_of(np, rank, k) == root_of(
        parent,
        rank,
        k,
    ) by {
        lemma_compress_one(parent, rank, i, k);
    }
}

proof fn lemma_compress_one(parent: Seq<usize>, rank: Seq<usize>, i: int, k: int)
    requires
        forest_wf(parent, rank),
        0 <= i < parent.len(),
        0 <= k < parent.len(),
        root_of(parent, rank, i) != i,
    ensures
        root_of(parent.update(i, root_of(parent, rank, i) as usize), rank, k) == root_of(
            parent,
            rank,
            k,
        ),
    decreases usize::MAX - rank[k],
{
    let r = root_of(parent, rank, i);
    lemma_rep_props(parent, rank, i);
    let np = parent.update(i, r as usize);
    lemma_rep_props(parent, rank, k);
    if k == i {
        assert(np[i] == r);
        assert(np[r] == r);
        assert(root_of(np, rank, r) == r);
    } else if parent[k] == k {
        assert(np[k] == k);
    } else {
        assert(np[k] == parent[k]);
        lemma_compress_one(parent, rank, i, parent[k] as int);
    }
}

/// Compressing a path does not change which elements are roots.
pub proof fn lemma_compress_roots(parent: Seq<usize>, i: int, r: usize)
    requires
        0 <= i < parent.len(),
        parent[i] != i,
        r != i,
    ensures
        roots_of(parent.update(i, r)) == roots_of(parent),
{
    assert(roots_of(parent.update(i, r)) =~= roots_of(parent));
}

/// Linking root `loser` under root `winner`, raising the winner's rank by
/// `inc`, keeps the forest well formed and moves exactly the loser's set onto
/// the winner; the loser stops being a root.
pub proof fn lemma_link(parent: Seq<usize>, rank: Seq<usize>, loser: int, winner: int, inc: int)
    requires
        forest_wf(parent, rank),
        0 <= loser < parent.len(),
        0 <= winner < parent.len(),
        loser != winner,
        parent[loser] == loser,
        parent[winner] == winner,
        0 <= inc <= 1,
        rank[winner] + inc <= usize::MAX,
        rank[loser] < rank[winner] + inc,
    ensures
        ({
            let np = parent.update(loser, winner as usize);
            let nr = rank.update(winner, (rank[winner] + inc) as usize);
            &&& forest_wf(np, nr)
            &&& roots_of(np) == roots_of(parent).remove(loser)
            &&& forall|k: int|
                0 <= k < parent.len() ==> #[trigger] root_of(np, nr, k) == (if root_of(
                    parent,
                    rank,
                    k,
                ) == loser {
                    winner
                } else {
                    root_of(parent, rank, k)
                })
        }),
{
    let np = parent.update(loser, winner as usize);
    let nr = rank.update(winner, (rank[winner] + inc) as usize);
    assert forall|k: int| 0 <= k < np.len() && #[trigger] np[k] != k implies nr[k] < nr[np[k] as int] by {
        if k != loser {
            assert(parent[k] != k);
            assert(k != winner);
        }
    }
    assert(roots_of(np) =~= roots_of(parent).remove(loser));
    assert forall|k: int| 0 <= k < parent.len() implies #[trigger] root_of(np, nr, k) == (if root_of(
        parent,
        rank,
        k,
    ) == loser {
        winner
    } else {
        root_of(parent, rank, k)
    }) by {
        lemma_link_one(parent, rank, loser, winner, inc, k);
    }
}

proof fn lemma_link_one(
    parent: Seq<usize>,
    rank: Seq<usize>,
    loser: int,
    winner: int,
    inc: int,
    k: int,
)
    requires
        forest_wf(parent, rank),
        0 <= loser < parent.len(),
        0 <= winner < parent.len(),
        loser != winner,
        parent[loser] == loser,
        parent[winner] == winner,
        0 <= inc <= 1,
        rank[winner] + inc <= usize::MAX,
        rank[loser] < rank[winner] + inc,
        0 <= k < parent.len(),
    ensures
        ({
            let np = parent.update(loser, winner as usize);
            let nr = rank.update(winner, (rank[winner] + inc) as usize);
            root_of(np, nr, k) == (if root_of(parent, rank, k) == loser {
                winner
            } else {
                root_of(parent, rank, k)
            })
        }),
    decreases usize::MAX - rank[k],
{
    let np = parent.update(loser, winner as usize);
    let nr = rank.update(winner, (rank[winner] + inc) as usize);
    lemma_rep_props(parent, rank, k);
    if k == loser {
        assert(np[loser] == winner);
        assert(nr[loser] < nr[winner]);
        assert(np[winner] == winner);
        assert(root_of(np, nr, winner) == winner);
    } else if parent[k] == k {
        assert(np[k] == k);
    } else {
        assert(k != winner);
        assert(np[k] == parent[k]);
        assert(nr[k] == rank[k]);
        assert(nr[k] < nr[parent[k] as int]);
        lemma_link_one(parent, rank, loser, winner, inc, parent[k] as int);
    }
}

} // verus!
