//! Streaming of voxel terrain chunks around a viewer.
//!
//! Around the viewer's chunk the manager requires a square of
//! `(2r+1) x (2r+1)` chunk columns, three chunks high (`y = 0, 1, 2`), where
//! `r` is the view distance in chunks.  New chunks are generated nearest
//! first (by squared distance to the viewer's chunk, ties in generation
//! order); loaded chunks further than `r + 1` columns away are released.
use vstd::prelude::*;
use vstd::arithmetic::div_mod::{
    lemma_div_pos_is_pos, lemma_fundamental_div_mod, lemma_fundamental_div_mod_converse, lemma_mod_pos_bound,
};

verus! {

/// Integer coordinates of a chunk.
#[derive(Debug, Clone, Copy, PartialEq, Eq, Structural)]
pub struct ChunkCoord {
    pub x: i32,
    pub y: i32,
    pub z: i32,
}

impl ChunkCoord {
    pub fn new(x: i32, y: i32, z: i32) -> (c: Self)
        ensures
            c == (ChunkCoord { x, y, z }),
    {
        ChunkCoord { x, y, z }
    }
}

/// Squared distance between two chunks.
pub open spec fn dist_sq(a: ChunkCoord, b: ChunkCoord) -> int {
    (a.x - b.x) * (a.x - b.x) + (a.y - b.y) * (a.y - b.y) + (a.z - b.z) * (a.z - b.z)
}

/// Squared horizontal (x, z) distance between two chunks.
pub open spec fn column_dist_sq(a: ChunkCoord, b: ChunkCoord) -> int {
    (a.x - b.x) * (a.x - b.x) + (a.z - b.z) * (a.z - b.z)
}

/// Columns per side of the required square.
pub open spec fn side(r: int) -> int {
    if r >= 0 {
        2 * r + 1
    } else {
        0
    }
}

/// The `k`-th required chunk, in generation order (x outermost, then the
/// layer `y = 0, 1, 2`, then z).
pub open spec fn required_at(center: ChunkCoord, r: int, k: int) -> ChunkCoord {
    let n = side(r);
    ChunkCoord {
        x: (center.x - r + (k / n) / 3) as i32,
        y: ((k / n) % 3) as i32,
        z: (center.z - r + k % n) as i32,
    }
}

/// All chunks required around `center`, in generation order.
pub open spec fn required_chunks(center: ChunkCoord, r: int) -> Seq<ChunkCoord> {
    Seq::new((3 * side(r) * side(r)) as nat, |k: int| required_at(center, r, k))
}

/// Generation priority of required chunk `k`: nearer first, then earlier.
pub open spec fn before(center: ChunkCoord, r: int, a: int, b: int) -> bool {
    let da = dist_sq(required_at(center, r, a), center);
    let db = dist_sq(required_at(center, r, b), center);
    da < db || (da == db && a < b)
}

/// Loaded chunks whose column lies more than `r + 1` columns away, in order.
pub open spec fn far_chunks(loaded: Seq<ChunkCoord>, center: ChunkCoord, r: int) -> Seq<ChunkCoord>
    decreases loaded.len(),
{
    if loaded.len() == 0 {
        Seq::empty()
    } else {
        let rest = far_chunks(loaded.drop_last(), center, r);
        if column_dist_sq(loaded.last(), center) > (r + 1) * (r + 1) {
            rest.push(loaded.last())
        } else {
            rest
        }
    }
}

/// Required chunk `k` is neither loaded nor pending.
pub open spec fn is_wanted(
    loaded: Seq<ChunkCoord>,
    pending: Seq<ChunkCoord>,
    center: ChunkCoord,
    r: int,
    k: int,
) -> bool {
    !loaded.contains(required_at(center, r, k)) && !pending.contains(required_at(center, r, k))
}

/// `spawn` lists the wanted required chunks in generation priority, `order`
/// giving the index in `required_chunks` of each entry.
pub open spec fn spawn_plan_with(
    loaded: Seq<ChunkCoord>,
    pending: Seq<ChunkCoord>,
    center: ChunkCoord,
    r: int,
    spawn: Seq<ChunkCoord>,
    order: Seq<int>,
) -> bool {
    &&& order.len() == spawn.len()
    &&& forall|a: int|
        0 <= a < order.len() ==> 0 <= #[trigger] order[a] < 3 * side(r) * side(r) && is_wanted(
            loaded,
            pending,
            center,
            r,
            order[a],
        ) && spawn[a] == required_at(center, r, order[a])
    &&& forall|a: int, b: int|
        0 <= a < b < order.len() ==> before(center, r, #[trigger] order[a], #[trigger] order[b])
    &&& forall|k: int|
        0 <= k < 3 * side(r) * side(r) && #[trigger] is_wanted(loaded, pending, center, r, k)
            ==> exists|a: int| 0 <= a < order.len() && #[trigger] order[a] == k
}

/// `spawn` lists exactly the wanted required chunks, nearest first, ties in
/// generation order.
pub open spec fn is_spawn_plan(
    loaded: Seq<ChunkCoord>,
    pending: Seq<ChunkCoord>,
    center: ChunkCoord,
    r: int,
    spawn: Seq<ChunkCoord>,
) -> bool {
    exists|order: Seq<int>| #[trigger] spawn_plan_with(loaded, pending, center, r, spawn, order)
}

/// Chunk streaming state: view distance, loaded chunks and chunks whose
/// generation is pending.
pub struct AsyncVoxelChunkManager {
    pub voxel_resolution: u32,
    pub view_distance_chunks: i32,
    pub loaded_chunks: Vec<ChunkCoord>,
    pub pending_generation: Vec<ChunkCoord>,
}

impl AsyncVoxelChunkManager {
    /// A chunk is loaded at most once (the loaded chunks form a set).
    pub open spec fn wf(&self) -> bool {
        self.loaded_chunks@.no_duplicates()
    }
}

/// The far chunks are loaded chunks, each listed once when no chunk is
/// loaded twice.
proof fn lemma_far_chunks_unique(loaded: Seq<ChunkCoord>, center: ChunkCoord, r: int)
    ensures
        forall|x: ChunkCoord| far_chunks(loaded, center, r).contains(x) ==> loaded.contains(x),
        loaded.no_duplicates() ==> far_chunks(loaded, center, r).no_duplicates(),
    decreases loaded.len(),
{
    if loaded.len() > 0 {
        let pre = loaded.drop_last();
        lemma_far_chunks_unique(pre, center, r);
        let rest = far_chunks(pre, center, r);
        let far = far_chunks(loaded, center, r);
        assert forall|x: ChunkCoord| #[trigger] far.contains(x) implies loaded.contains(x) by {
            if rest.contains(x) {
                assert(pre.contains(x));
                let k = choose|k: int| 0 <= k < pre.len() && pre[k] == x;
                assert(loaded[k] == x);
            } else {
                let k = choose|k: int| 0 <= k < far.len() && far[k] == x;
                if far == rest {
                    assert(rest.contains(x));
                } else {
                    assert(far == rest.push(loaded.last()));
                    if k < rest.len() {
                        assert(rest[k] == x);
                    }
                    assert(loaded[loaded.len() - 1] == x);
                }
            }
        }
        if loaded.no_duplicates() {
            assert(pre.no_duplicates()) by {
                assert forall|a: int, b: int| 0 <= a < pre.len() && 0 <= b < pre.len() && a != b implies pre[a]
                    != pre[b] by {
                    assert(pre[a] == loaded[a] && pre[b] == loaded[b]);
                }
            }
            assert(!rest.contains(loaded.last())) by {
                if rest.contains(loaded.last()) {
                    assert(pre.contains(loaded.last()));
                    let k = choose|k: int| 0 <= k < pre.len() && pre[k] == loaded.last();
                    assert(pre[k] == loaded[k]);
                    assert(loaded[k] == loaded[loaded.len() - 1]);
                }
            }
            if far != rest {
                assert(far == rest.push(loaded.last()));
                assert forall|a: int, b: int| 0 <= a < far.len() && 0 <= b < far.len() && a != b implies far[a]
                    != far[b] by {
                    if a == rest.len() {
                        assert(rest.contains(far[b]));
                    } else if b == rest.len() {
                        assert(rest.contains(far[a]));
                    }
                }
            }
        }
    }
}

impl Default for AsyncVoxelChunkManager {
    fn default() -> (m: Self)
        ensures
            m.voxel_resolution == 32,
            m.view_distance_chunks == 4,
            m.loaded_chunks@.len() == 0,
            m.pending_generation@.len() == 0,
            m.wf(),
    {
        AsyncVoxelChunkManager {
            voxel_resolution: 32,
            view_distance_chunks: 4,
            loaded_chunks: Vec::new(),
            pending_generation: Vec::new(),
        }
    }
}

fn contains_chunk(v: &Vec<ChunkCoord>, c: ChunkCoord) -> (b: bool)
    ensures
        b == v@.contains(c),
{
    let mut i: usize = 0;
    while i < v.len()
        invariant
            i <= v@.len(),
            forall|k: int| 0 <= k < i ==> v@[k] != c,
        decreases v@.len() - i,
    {
        let e = v[i];
        if e.x == c.x && e.y == c.y && e.z == c.z {
            proof {
                assert(v@[i as int] == c);
            }
            return true;
        }
        i = i + 1;
    }
    false
}

fn chunk_dist_sq(a: ChunkCoord, b: ChunkCoord) -> (d: i128)
    ensures
        d == dist_sq(a, b),
{
    let dx = a.x as i128 - b.x as i128;
    let dy = a.y as i128 - b.y as i128;
    let dz = a.z as i128 - b.z as i128;
    proof {
        assert(0 <= dx * dx <= 0x1_0000_0000 * 0x1_0000_0000) by (nonlinear_arith)
            requires
                -0x1_0000_0000 <= dx <= 0x1_0000_0000,
        ;
        assert(0 <= dy * dy <= 0x1_0000_0000 * 0x1_0000_0000) by (nonlinear_arith)
            requires
                -0x1_0000_0000 <= dy <= 0x1_0000_0000,
        ;
        assert(0 <= dz * dz <= 0x1_0000_0000 * 0x1_0000_0000) by (nonlinear_arith)
            requires
                -0x1_0000_0000 <= dz <= 0x1_0000_0000,
        ;
    }
    dx * dx + dy * dy + dz * dz
}

fn column_dist(a: ChunkCoord, b: ChunkCoord) -> (d: i128)
    ensures
        d == column_dist_sq(a, b),
{
    let dx = a.x as i128 - b.x as i128;
    let dz = a.z as i128 - b.z as i128;
    proof {
        assert(0 <= dx * dx <= 0x1_0000_0000 * 0x1_0000_0000) by (nonlinear_arith)
            requires
                -0x1_0000_0000 <= dx <= 0x1_0000_0000,
        ;
        assert(0 <= dz * dz <= 0x1_0000_0000 * 0x1_0000_0000) by (nonlinear_arith)
            requires
                -0x1_0000_0000 <= dz <= 0x1_0000_0000,
        ;
    }
    dx * dx + dz * dz
}

proof fn lemma_required_index(n: int, ix: int, iy: int, iz: int, k: int)
    requires
        n > 0,
        0 <= ix,
        0 <= iy < 3,
        0 <= iz < n,
        k == (ix * 3 + iy) * n + iz,
    ensures
        (k / n) / 3 == ix,
        (k / n) % 3 == iy,
        k % n == iz,
{
    lemma_fundamental_div_mod_converse(k, n, ix * 3 + iy, iz);
    lemma_fundamental_div_mod_converse(ix * 3 + iy, 3, ix, iy);
}

/// The chunks required around `center` with view distance `r`.
fn generate_required(center: ChunkCoord, r: i32) -> (req: Vec<ChunkCoord>)
    requires
        r >= 0 ==> center.x - r >= i32::MIN && center.x + r <= i32::MAX,
        r >= 0 ==> center.z - r >= i32::MIN && center.z + r <= i32::MAX,
        3 * side(r as int) * side(r as int) <= usize::MAX,
    ensures
        req@ == required_chunks(center, r as int),
{
    let mut req: Vec<ChunkCoord> = Vec::new();
    if r < 0 {
        proof {
            assert(req@ == required_chunks(center, r as int));
        }
        return req;
    }
    let n: i64 = 2 * (r as i64) + 1;
    let ghost ni = n as int;
    let mut ix: i64 = 0;
    proof {
        assert(0 * 3 * ni == 0);
    }
    while ix < n
        invariant
            r >= 0,
            ni == n,
            ni == side(r as int),
            center.x - r >= i32::MIN && center.x + r <= i32::MAX,
            center.z - r >= i32::MIN && center.z + r <= i32::MAX,
            3 * ni * ni <= usize::MAX,
            0 <= ix <= n,
            req@.len() == ix * 3 * ni,
            forall|k: int| 0 <= k < req@.len() ==> #[trigger] req@[k] == required_at(center, r as int, k),
        decreases n - ix,
    {
        let mut iy: i64 = 0;
        while iy < 3
            invariant
                r >= 0,
                ni == n,
                ni == side(r as int),
                center.x - r >= i32::MIN && center.x + r <= i32::MAX,
                center.z - r >= i32::MIN && center.z + r <= i32::MAX,
                3 * ni * ni <= usize::MAX,
                0 <= ix < n,
                0 <= iy <= 3,
                req@.len() == (ix * 3 + iy) * ni,
                forall|k: int| 0 <= k < req@.len() ==> #[trigger] req@[k] == required_at(center, r as int, k),
            decreases 3 - iy,
        {
            let mut iz: i64 = 0;
            while iz < n
                invariant
                    r >= 0,
                    ni == n,
                    ni == side(r as int),
                    center.x - r >= i32::MIN && center.x + r <= i32::MAX,
                    center.z - r >= i32::MIN && center.z + r <= i32::MAX,
                    3 * ni * ni <= usize::MAX,
                    0 <= ix < n,
                    0 <= iy < 3,
                    0 <= iz <= n,
                    req@.len() == (ix * 3 + iy) * ni + iz,
                    forall|k: int|
                        0 <= k < req@.len() ==> #[trigger] req@[k] == required_at(center, r as int, k),
                decreases n - iz,
            {
                let ghost k = (ix * 3 + iy) * ni + iz;
                proof {
                    lemma_required_index(ni, ix as int, iy as int, iz as int, k);
                    assert(k < 3 * ni * ni) by (nonlinear_arith)
                        requires
                            k == (ix * 3 + iy) * ni + iz,
                            0 <= ix < ni,
                            0 <= iy < 3,
                            0 <= iz < ni,
                    ;
                }
                let c = ChunkCoord {
                    x: (center.x as i64 - r as i64 + ix) as i32,
                    y: iy as i32,
                    z: (center.z as i64 - r as i64 + iz) as i32,
                };
                req.push(c);
                iz = iz + 1;
            }
            proof {
                assert((ix * 3 + iy) * ni + ni == (ix * 3 + iy + 1) * ni) by (nonlinear_arith);
            }
            iy = iy + 1;
        }
        proof {
            assert((ix * 3 + 3) * ni == (ix + 1) * 3 * ni) by (nonlinear_arith);
        }
        ix = ix + 1;
    }
    proof {
        assert(req@ == required_chunks(center, r as int));
    }
    req
}

/// Chunks to release: loaded chunks more than `r + 1` columns away.
fn far_loaded(loaded: &Vec<ChunkCoord>, center: ChunkCoord, r: i32) -> (far: Vec<ChunkCoord>)
    ensures
        far@ == far_chunks(loaded@, center, r as int),
{
    let mut far: Vec<ChunkCoord> = Vec::new();
    let r1 = r as i128 + 1;
    proof {
        assert(0 <= r1 * r1 <= 0x1_0000_0000 * 0x1_0000_0000) by (nonlinear_arith)
            requires
                -0x1_0000_0000 <= r1 <= 0x1_0000_0000,
        ;
    }
    let limit: i128 = r1 * r1;
    let mut i: usize = 0;
    while i < loaded.len()
        invariant
            i <= loaded@.len(),
            limit == (r + 1) * (r + 1),
            far@ == far_chunks(loaded@.take(i as int), center, r as int),
        decreases loaded@.len() - i,
    {
        proof {
            assert(loaded@.take(i + 1).drop_last() == loaded@.take(i as int));
        }
        let c = loaded[i];
        if column_dist(c, center) > limit {
            far.push(c);
        }
        i = i + 1;
    }
    proof {
        assert(loaded@.take(loaded@.len() as int) == loaded@);
    }
    far
}

impl AsyncVoxelChunkManager {
    /// Chunks to generate around the viewer's chunk `center` (nearest first,
    /// ties in generation order, skipping loaded and pending ones) and loaded
    /// chunks to release.
    pub fn update_horizon(&self, center: ChunkCoord) -> (r: (Vec<ChunkCoord>, Vec<ChunkCoord>))
        requires
            self.view_distance_chunks >= 0 ==> center.x - self.view_distance_chunks >= i32::MIN
                && center.x + self.view_distance_chunks <= i32::MAX,
            self.view_distance_chunks >= 0 ==> center.z - self.view_distance_chunks >= i32::MIN
                && center.z + self.view_distance_chunks <= i32::MAX,
            3 * side(self.view_distance_chunks as int) * side(self.view_distance_chunks as int)
                <= usize::MAX,
            self.wf(),
        ensures
            is_spawn_plan(
                self.loaded_chunks@,
                self.pending_generation@,
                center,
                self.view_distance_chunks as int,
                r.0@,
            ),
            r.1@ == far_chunks(self.loaded_chunks@, center, self.view_distance_chunks as int),
            r.1@.no_duplicates(),
    {
        proof {
            lemma_far_chunks_unique(self.loaded_chunks@, center, self.view_distance_chunks as int);
        }
        let rr = self.view_distance_chunks;
        let required = generate_required(center, rr);
        let ghost req = required@;
        let m = required.len();
        let mut keys: Vec<i128> = Vec::new();
        let mut done: Vec<bool> = Vec::new();
        let mut i: usize = 0;
        while i < m
            invariant
                m == required@.len(),
                req == required@,
                req == required_chunks(center, rr as int),
                i <= m,
                keys@.len() == i,
                done@.len() == i,
                forall|k: int| 0 <= k < i ==> #[trigger] keys@[k] == dist_sq(req[k], center),
                forall|k: int|
                    0 <= k < i ==> (#[trigger] done@[k] == (self.loaded_chunks@.contains(req[k])
                        || self.pending_generation@.contains(req[k]))),
            decreases m - i,
        {
            let c = required[i];
            keys.push(chunk_dist_sq(c, center));
            let skip = contains_chunk(&self.loaded_chunks, c) || contains_chunk(
                &self.pending_generation,
                c,
            );
            done.push(skip);
            i = i + 1;
        }
        let ghost lc = self.loaded_chunks@;
        let ghost pc = self.pending_generation@;
        let mut to_spawn: Vec<ChunkCoord> = Vec::new();
        let ghost mut order: Seq<int> = Seq::empty();
        loop
            invariant
                m == required@.len(),
                req == required@,
                req == required_chunks(center, rr as int),
                keys@.len() == m,
                done@.len() == m,
                forall|k: int| 0 <= k < m ==> #[trigger] keys@[k] == dist_sq(req[k], center),
                order.len() == to_spawn@.len(),
                forall|a: int|
                    0 <= a < order.len() ==> 0 <= #[trigger] order[a] < m && is_wanted(lc, pc, center, rr as int, order[a])
                        && to_spawn@[a] == req[order[a]] && done@[order[a]],
                forall|a: int, b: int|
                    0 <= a < b < order.len() ==> before(center, rr as int, #[trigger] order[a], #[trigger] order[b]),
                forall|k: int|
                    0 <= k < m && is_wanted(lc, pc, center, rr as int, k) && #[trigger] done@[k] ==> exists|a: int|
                        0 <= a < order.len() && #[trigger] order[a] == k,
                forall|k: int| 0 <= k < m && !is_wanted(lc, pc, center, rr as int, k) ==> #[trigger] done@[k],
                forall|k: int|
                    0 <= k < m && !#[trigger] done@[k] && order.len() > 0 ==> before(
                        center,
                        rr as int,
                        order.last(),
                        k,
                    ),
            ensures
                done@.len() == m,
                forall|k: int| 0 <= k < m ==> #[trigger] done@[k],
            decreases crate::tda::count_false(done@),
        {
            let mut best: usize = m;
            let mut j: usize = 0;
            while j < m
                invariant
                    m == required@.len(),
                    req == required@,
                    req == required_chunks(center, rr as int),
                    keys@.len() == m,
                    done@.len() == m,
                    forall|k: int| 0 <= k < m ==> #[trigger] keys@[k] == dist_sq(req[k], center),
                    j <= m,
                    best == m || (best < j && !done@[best as int]),
                    best == m ==> forall|k: int| 0 <= k < j ==> #[trigger] done@[k],
                    best < m ==> forall|k: int|
                        0 <= k < j && !#[trigger] done@[k] && k != best ==> before(
                            center,
                            rr as int,
                            best as int,
                            k,
                        ),
                decreases m - j,
            {
                if !done[j] {
                    if best == m || keys[j] < keys[best] {
                        best = j;
                    }
                }
                j = j + 1;
            }
            if best == m {
                break;
            }
            proof {
                crate::tda::lemma_count_false_set(done@, best as int);
                assert(is_wanted(lc, pc, center, rr as int, best as int));
            }
            let ghost old_order = order;
            let ghost old_done = done@;
            done.set(best, true);
            to_spawn.push(required[best]);
            proof {
                order = order.push(best as int);
                assert forall|a: int, b: int| 0 <= a < b < order.len() implies before(
                    center,
                    rr as int,
                    #[trigger] order[a],
                    #[trigger] order[b],
                ) by {
                    if b == order.len() - 1 && a < old_order.len() {
                        assert(!old_done[best as int]);
                        assert(before(center, rr as int, old_order.last(), best as int));
                        if a < old_order.len() - 1 {
                            assert(before(center, rr as int, old_order[a], old_order.last()));
                        }
                    }
                }
                assert forall|k: int|
                    0 <= k < m && is_wanted(lc, pc, center, rr as int, k) && #[trigger] done@[k] implies exists|a: int|
                        0 <= a < order.len() && #[trigger] order[a] == k by {
                    if k == best {
                        assert(order[order.len() - 1] == k);
                    } else {
                        assert(old_done[k]);
                        let a = choose|a: int| 0 <= a < old_order.len() && #[trigger] old_order[a] == k;
                        assert(order[a] == k);
                    }
                }
                assert forall|a: int|
                    0 <= a < order.len() implies 0 <= #[trigger] order[a] < m && is_wanted(lc, pc, center, rr as int, order[a])
                        && to_spawn@[a] == req[order[a]] && done@[order[a]] by {
                    if a < old_order.len() {
                        assert(order[a] == old_order[a]);
                    }
                }
            }
        }
        proof {
            assert forall|k: int| 0 <= k < m && is_wanted(lc, pc, center, rr as int, k) implies exists|a: int|
                0 <= a < order.len() && #[trigger] order[a] == k by {
                assert(done@[k]);
            }
        }
        proof {
            assert(spawn_plan_with(lc, pc, center, rr as int, to_spawn@, order));
        }
        let to_despawn = far_loaded(&self.loaded_chunks, center, rr);
        (to_spawn, to_despawn)
    }
}

/// Law: the spawn plan is unique: any two lists that satisfy
/// `is_spawn_plan` for the same state and viewer are equal, so the contract
/// Law: the chunks to generate come nearest first (by squared distance to
/// the viewer's chunk), and none of them is already loaded or pending.
pub proof fn law_spawn_nearest_first(
    loaded: Seq<ChunkCoord>,
    pending: Seq<ChunkCoord>,
    center: ChunkCoord,
    r: int,
    spawn: Seq<ChunkCoord>,
)
    requires
        is_spawn_plan(loaded, pending, center, r, spawn),
    ensures
        forall|a: int, b: int|
            #![trigger spawn[a], spawn[b]]
            0 <= a < b < spawn.len() ==> (spawn[a].x - center.x) * (spawn[a].x - center.x) + (spawn[a].y
                - center.y) * (spawn[a].y - center.y) + (spawn[a].z - center.z) * (spawn[a].z - center.z)
                <= (spawn[b].x - center.x) * (spawn[b].x - center.x) + (spawn[b].y - center.y) * (
            spawn[b].y - center.y) + (spawn[b].z - center.z) * (spawn[b].z - center.z),
        forall|a: int|
            0 <= a < spawn.len() ==> !loaded.contains(#[trigger] spawn[a]) && !pending.contains(spawn[a]),
{
    let o = choose|o: Seq<int>| #[trigger] spawn_plan_with(loaded, pending, center, r, spawn, o);
    assert forall|a: int, b: int| 0 <= a < b < spawn.len() implies dist_sq(#[trigger] spawn[a], center)
        <= dist_sq(#[trigger] spawn[b], center) by {
        assert(before(center, r, o[a], o[b]));
    }
    assert forall|a: int| 0 <= a < spawn.len() implies !loaded.contains(#[trigger] spawn[a])
        && !pending.contains(spawn[a]) by {
        assert(is_wanted(loaded, pending, center, r, o[a]));
    }
}

/// Law: the chunks to generate are exactly the chunks of the horizon that
/// are neither loaded nor pending; the horizon is the `(2r+1) x (2r+1)`
/// columns around the viewer's chunk, at heights 0, 1 and 2.
pub proof fn law_spawn_fills_horizon(
    loaded: Seq<ChunkCoord>,
    pending: Seq<ChunkCoord>,
    center: ChunkCoord,
    r: int,
    spawn: Seq<ChunkCoord>,
    c: ChunkCoord,
)
    requires
        r >= 0,
        center.x - r >= i32::MIN,
        center.x + r <= i32::MAX,
        center.z - r >= i32::MIN,
        center.z + r <= i32::MAX,
        is_spawn_plan(loaded, pending, center, r, spawn),
    ensures
        spawn.contains(c) <==> (center.x - r <= c.x <= center.x + r && center.z - r <= c.z <= center.z
            + r && 0 <= c.y <= 2 && !loaded.contains(c) && !pending.contains(c)),
{
    let o = choose|o: Seq<int>| #[trigger] spawn_plan_with(loaded, pending, center, r, spawn, o);
    let n = side(r);
    if spawn.contains(c) {
        let a = choose|a: int| 0 <= a < spawn.len() && spawn[a] == c;
        let k = o[a];
        assert(0 <= k < 3 * n * n);
        assert(is_wanted(loaded, pending, center, r, k));
        lemma_fundamental_div_mod(k, n);
        lemma_mod_pos_bound(k, n);
        lemma_div_pos_is_pos(k, n);
        let q = k / n;
        assert(q < 3 * n) by (nonlinear_arith)
            requires
                k == n * q + k % n,
                0 <= k % n,
                k < 3 * n * n,
                n > 0,
        ;
        assert(0 <= q / 3 < n);
        assert(0 <= q % 3 < 3);
        assert(required_at(center, r, k) == c);
    }
    if center.x - r <= c.x <= center.x + r && center.z - r <= c.z <= center.z + r && 0 <= c.y <= 2
        && !loaded.contains(c) && !pending.contains(c) {
        let ix = c.x - (center.x - r);
        let iy = c.y as int;
        let iz = c.z - (center.z - r);
        let k = (ix * 3 + iy) * n + iz;
        lemma_required_index(n, ix, iy, iz, k);
        assert(0 <= k < 3 * n * n) by (nonlinear_arith)
            requires
                0 <= ix < n,
                0 <= iy < 3,
                0 <= iz < n,
                k == (ix * 3 + iy) * n + iz,
        ;
        assert(required_at(center, r, k) == c);
        assert(is_wanted(loaded, pending, center, r, k));
        let a = choose|a: int| 0 <= a < o.len() && #[trigger] o[a] == k;
        assert(spawn[a] == c);
    }
}

/// Law: a loaded chunk is released exactly when its column, `(x, z)`, lies
/// more than `r + 1` columns from the viewer's; its height layer plays no
/// part.
pub proof fn law_release_by_column(loaded: Seq<ChunkCoord>, center: ChunkCoord, r: int, c: ChunkCoord)
    ensures
        far_chunks(loaded, center, r).contains(c) <==> (loaded.contains(c) && (c.x - center.x) * (c.x
            - center.x) + (c.z - center.z) * (c.z - center.z) > (r + 1) * (r + 1)),
    decreases loaded.len(),
{
    if loaded.len() > 0 {
        let pre = loaded.drop_last();
        law_release_by_column(pre, center, r, c);
        let rest = far_chunks(pre, center, r);
        let far = far_chunks(loaded, center, r);
        assert(loaded == pre.push(loaded.last()));
        if far.contains(c) && !rest.contains(c) {
            assert(far == rest.push(loaded.last()));
            let k = choose|k: int| 0 <= k < far.len() && far[k] == c;
            if k < rest.len() {
                assert(rest[k] == c);
            }
        }
        if loaded.contains(c) && (c.x - center.x) * (c.x - center.x) + (c.z - center.z) * (c.z
            - center.z) > (r + 1) * (r + 1) {
            let k = choose|k: int| 0 <= k < loaded.len() && loaded[k] == c;
            if k < pre.len() {
                assert(pre[k] == c);
                assert(pre.contains(c));
                let j = choose|j: int| 0 <= j < rest.len() && rest[j] == c;
                if far != rest {
                    assert(far == rest.push(loaded.last()));
                    assert(far[j] == c);
                }
            } else {
                assert(loaded.last() == c);
                assert(far == rest.push(c));
                assert(far[rest.len() as int] == c);
            }
        }
        if rest.contains(c) && far != rest {
            assert(far == rest.push(loaded.last()));
            let j = choose|j: int| 0 <= j < rest.len() && rest[j] == c;
            assert(far[j] == c);
        }
        if rest.contains(c) {
            assert(pre.contains(c));
            let j = choose|j: int| 0 <= j < pre.len() && pre[j] == c;
            assert(loaded[j] == c);
        }
    }
}

/// of `update_horizon` fixes the chunks to generate and their order.
pub proof fn law_spawn_plan_unique(
    loaded: Seq<ChunkCoord>,
    pending: Seq<ChunkCoord>,
    center: ChunkCoord,
    r: int,
    s1: Seq<ChunkCoord>,
    s2: Seq<ChunkCoord>,
)
    requires
        is_spawn_plan(loaded, pending, center, r, s1),
        is_spawn_plan(loaded, pending, center, r, s2),
    ensures
        s1 == s2,
{
    let o1 = choose|o: Seq<int>| #[trigger] spawn_plan_with(loaded, pending, center, r, s1, o);
    let o2 = choose|o: Seq<int>| #[trigger] spawn_plan_with(loaded, pending, center, r, s2, o);
    let m = if o1.len() < o2.len() { o1.len() as int } else { o2.len() as int };
    lemma_common_prefix(loaded, pending, center, r, s1, s2, o1, o2, m);
    lemma_no_longer(loaded, pending, center, r, s1, s2, o1, o2);
    lemma_no_longer(loaded, pending, center, r, s2, s1, o2, o1);
    assert forall|a: int| 0 <= a < s1.len() implies s1[a] == s2[a] by {
        assert(o1[a] == o2[a]);
    }
    assert(s1 =~= s2);
}

proof fn lemma_common_prefix(
    loaded: Seq<ChunkCoord>,
    pending: Seq<ChunkCoord>,
    center: ChunkCoord,
    r: int,
    s1: Seq<ChunkCoord>,
    s2: Seq<ChunkCoord>,
    o1: Seq<int>,
    o2: Seq<int>,
    p: int,
)
    requires
        spawn_plan_with(loaded, pending, center, r, s1, o1),
        spawn_plan_with(loaded, pending, center, r, s2, o2),
        0 <= p <= o1.len(),
        p <= o2.len(),
    ensures
        forall|q: int| 0 <= q < p ==> #[trigger] o1[q] == o2[q],
    decreases p,
{
    if p > 0 {
        lemma_common_prefix(loaded, pending, center, r, s1, s2, o1, o2, p - 1);
        let x = o1[p - 1];
        let y = o2[p - 1];
        assert(is_wanted(loaded, pending, center, r, x));
        assert(is_wanted(loaded, pending, center, r, y));
        let a = choose|a: int| 0 <= a < o2.len() && #[trigger] o2[a] == x;
        let b = choose|b: int| 0 <= b < o1.len() && #[trigger] o1[b] == y;
        if x != y {
            if a < p - 1 {
                assert(o1[a] == o2[a]);
                assert(before(center, r, o1[a], o1[p - 1]));
            }
            if b < p - 1 {
                assert(o1[b] == o2[b]);
                assert(before(center, r, o2[b], o2[p - 1]));
            }
            assert(before(center, r, o2[p - 1], o2[a]));
            assert(before(center, r, o1[p - 1], o1[b]));
        }
    }
}

proof fn lemma_no_longer(
    loaded: Seq<ChunkCoord>,
    pending: Seq<ChunkCoord>,
    center: ChunkCoord,
    r: int,
    s1: Seq<ChunkCoord>,
    s2: Seq<ChunkCoord>,
    o1: Seq<int>,
    o2: Seq<int>,
)
    requires
        spawn_plan_with(loaded, pending, center, r, s1, o1),
        spawn_plan_with(loaded, pending, center, r, s2, o2),
        forall|q: int| 0 <= q < o1.len() && q < o2.len() ==> #[trigger] o1[q] == o2[q],
    ensures
        o1.len() <= o2.len(),
{
    if o1.len() > o2.len() {
        let x = o1[o2.len() as int];
        assert(is_wanted(loaded, pending, center, r, x));
        let a = choose|a: int| 0 <= a < o2.len() && #[trigger] o2[a] == x;
        assert(o1[a] == o2[a]);
        assert(before(center, r, o1[a], o1[o2.len() as int]));
    }
}

} // verus!
