use holo_engine::gpu_compute::surface_grid_fits;
use holo_engine::chunks::{AsyncVoxelChunkManager, ChunkCoord};
use holo_engine::gpu_compute::{clamp_render_resolution, frame_bytes, DeferredGpuRenderer, GPUComputeManager};
use holo_engine::tda::{betti_from_adjacency, persistence_pair_plan, try_betti_from_adjacency, BettiNumbers};
use holo_engine::topology::{betti_from_edges, candidate_pairs, cusp_core_resolved};
use holo_engine::union_find::UnionFind;
use holo_engine::world::{
    advance_step_counter, BiomeType, GpuInstancer, MarchingCubesPipeline, StellarAgeMass, StellarType,
    WorldPreset,
};

#[test]
fn union_find_merges_and_counts() {
    let mut uf = UnionFind::new(5);
    assert_eq!(uf.components(), 5);
    assert_eq!(uf.len(), 5);
    assert!(uf.union(0, 1));
    assert!(!uf.union(1, 0));
    assert!(uf.union(3, 4));
    assert_eq!(uf.components(), 3);
    assert_eq!(uf.find(0), uf.find(1));
    assert_ne!(uf.find(0), uf.find(3));
    assert!(uf.union(1, 4));
    assert_eq!(uf.components(), 2);
    assert_eq!(uf.find(0), uf.find(4));
    assert_ne!(uf.find(2), uf.find(0));
}

#[test]
fn union_find_union_by_rank_picks_root() {
    let mut uf = UnionFind::new(4);
    // equal ranks: the first element's root wins
    assert!(uf.union(0, 1));
    assert_eq!(uf.find(1), 0);
    // higher rank root absorbs the lower one, whichever argument it is
    assert!(uf.union(2, 0));
    assert_eq!(uf.find(2), 0);
    assert_eq!(uf.find(3), 3);
}

#[test]
fn union_find_empty() {
    let uf = UnionFind::new(0);
    assert_eq!(uf.components(), 0);
}

#[test]
fn betti_from_edges_triangle_and_isolated() {
    // triangle 0-1-2 plus isolated vertex 3: one loop, two components
    let edges = vec![(0, 1), (1, 2), (0, 2)];
    assert_eq!(betti_from_edges(4, &edges), (2, 1, 0));
    // a path has no loop
    assert_eq!(betti_from_edges(3, &vec![(0, 1), (1, 2)]), (1, 0, 0));
    // no points at all
    assert_eq!(betti_from_edges(0, &vec![]), (0, 0, 0));
}

#[test]
fn candidate_pairs_forward_neighbours() {
    let cells = vec![(0, 0, 0), (1, 0, 0), (0, 0, 0), (5, 5, 5), (0, -1, 0)];
    let pairs = candidate_pairs(&cells);
    // Point 0: same cell (0,2) first, then +x (0,1); (1,2) is -x, not
    // forward, but (2,1) is +x.  Point 4 at (0,-1,0): +y reaches points 0 and
    // 2, then (1,1,0) reaches point 1.
    assert_eq!(pairs, vec![(0, 2), (0, 1), (2, 1), (4, 0), (4, 2), (4, 1)]);
}

#[test]
fn candidate_pairs_at_grid_edge() {
    // Cells at the edge of the i32 range: the +x neighbour of i32::MAX does
    // not exist, and points far apart are never paired.
    let cells = vec![(i32::MAX, 0, 0), (i32::MAX, 0, 0), (i32::MAX - 1, 0, 0), (i32::MIN, 0, 0)];
    let pairs = candidate_pairs(&cells);
    assert_eq!(pairs, vec![(0, 1), (2, 0), (2, 1)]);
}

#[test]
fn candidate_pairs_empty_and_single() {
    assert!(candidate_pairs(&vec![]).is_empty());
    assert!(candidate_pairs(&vec![(3, -4, 5)]).is_empty());
}

#[test]
fn cusp_core_counts_scattered_points() {
    // The densest cell's points are not adjacent in the input.
    let cells = vec![(2, 2, 2), (0, 0, 0), (2, 2, 2), (1, 0, 0), (2, 2, 2), (0, 0, 0)];
    assert!(!cusp_core_resolved(&cells, 3));
    assert!(cusp_core_resolved(&cells, 4));
}

#[test]
fn betti_from_edges_ignores_edge_order() {
    let e1 = vec![(0, 1), (1, 2), (2, 0), (3, 4)];
    let e2 = vec![(3, 4), (2, 0), (0, 1), (1, 2)];
    // Components {0,1,2}, {3,4}, {5}; one loop: 4 + 3 - 6.
    assert_eq!(betti_from_edges(6, &e1), (3, 1, 0));
    assert_eq!(betti_from_edges(6, &e2), betti_from_edges(6, &e1));
}

#[test]
fn cusp_core_threshold() {
    let cells = vec![(0, 0, 0), (0, 0, 0), (1, 0, 0)];
    assert!(cusp_core_resolved(&cells, 3));
    assert!(!cusp_core_resolved(&cells, 2));
    assert!(cusp_core_resolved(&vec![], 0));
}

fn complete_graph(n: usize) -> Vec<Vec<bool>> {
    let mut adj = vec![vec![true; n]; n];
    for i in 0..n {
        adj[i][i] = false;
    }
    adj
}

#[test]
fn rips_betti_complete_graphs() {
    // K5: 10 edges, 10 triangles
    let b = betti_from_adjacency(&complete_graph(5));
    assert_eq!(b, BettiNumbers { betti_0: 1, betti_1: 6, betti_2: 2 });
    // K3: one triangle -> betti_2 clamped to 1
    let b = betti_from_adjacency(&complete_graph(3));
    assert_eq!(b, BettiNumbers { betti_0: 1, betti_1: 1, betti_2: 1 });
}

#[test]
fn rips_betti_components() {
    // two disjoint edges and an isolated point
    let mut adj = vec![vec![false; 5]; 5];
    adj[0][1] = true;
    adj[1][0] = true;
    adj[2][3] = true;
    adj[3][2] = true;
    let b = betti_from_adjacency(&adj);
    assert_eq!(b, BettiNumbers { betti_0: 3, betti_1: 0, betti_2: 1 });
    assert_eq!(betti_from_adjacency(&vec![]), BettiNumbers::default());
}

#[test]
fn persistence_plan_caps_loops() {
    let plan = persistence_pair_plan(&BettiNumbers { betti_0: 2, betti_1: 12, betti_2: 1 });
    assert_eq!(plan.len(), 12);
    assert_eq!(plan[0], (0, 0));
    assert_eq!(plan[1], (0, 1));
    assert_eq!(plan[2], (1, 0));
    assert_eq!(plan[11], (1, 9));
}

#[test]
fn gpu_dispatch_plans() {
    let d = GPUComputeManager::raymarch_dispatch(800, 600);
    assert_eq!(d.total_pixels, 480_000);
    assert_eq!(d.max_steps, 60);
    assert_eq!((d.workgroups_x, d.workgroups_y), (50, 38));
    assert_eq!(d.output_buffer_bytes, 1_920_000);
    assert_eq!(GPUComputeManager::raymarch_dispatch(1920, 1200).max_steps, 30);
    assert_eq!(GPUComputeManager::raymarch_dispatch(3840, 2160).max_steps, 15);

    let l = DeferredGpuRenderer::frame_layout(17, 16);
    assert_eq!(l.pixel_count, 272);
    assert_eq!(l.gbuffer_bytes, 272 * 16);
    assert_eq!(l.color_buffer_bytes, 272 * 4);
    assert_eq!((l.workgroups_x, l.workgroups_y), (2, 1));
    assert_eq!(DeferredGpuRenderer::dune_dispatch(64), (4, 16_384));
}

#[test]
fn voxel_layout_linear_index() {
    let m = GPUComputeManager::new(3);
    let coords = m.fallback_voxel_coords();
    assert_eq!(coords.len(), 27);
    assert_eq!(coords[0], (0, 0, 0));
    assert_eq!(coords[1 + 2 * 3 + 1 * 9], (1, 2, 1));
    assert_eq!(coords[26], (2, 2, 2));
}

#[test]
fn render_resolution_clamped() {
    assert_eq!(clamp_render_resolution(100, 5000), (256, 2160));
    assert_eq!(clamp_render_resolution(1920, 1080), (1920, 1080));
    assert_eq!(clamp_render_resolution(9999, 10), (3840, 256));
}

#[test]
fn frame_bytes_native_order() {
    let bytes = frame_bytes(&vec![0xFF11_2233u32, 0x0000_00AA]);
    assert_eq!(bytes.len(), 8);
    let expected: Vec<u8> = [0xFF11_2233u32, 0x0000_00AAu32]
        .iter()
        .flat_map(|p| p.to_ne_bytes())
        .collect();
    assert_eq!(bytes, expected);
}

#[test]
fn world_presets_and_schedule() {
    assert_eq!(WorldPreset::OrganicAlienWorld.particle_count(), 120);
    assert_eq!(WorldPreset::OceanNavierStokes.particle_count(), 300);
    assert_eq!(WorldPreset::BlackHoleTDual.particle_count(), 80);
    assert_eq!(WorldPreset::GalaxySymplecticNBody.particle_count(), 400);
    assert_eq!(advance_step_counter(29), (30, true));
    assert_eq!(advance_step_counter(30), (31, false));
    assert_eq!(GpuInstancer::new(7).instance_count, 7);
    assert_eq!(MarchingCubesPipeline::new(64).resolution, 64);
}

fn stage(age: f64, mass: f64) -> StellarType {
    let lifetime = 1.0e10 * mass.powf(-2.5);
    StellarType::classify(StellarAgeMass {
        before_lifetime: age < lifetime,
        before_giant_end: age < lifetime * 1.1,
        before_supernova_end: age < lifetime * 1.15,
        at_least_8_solar: mass >= 8.0,
        below_8_solar: mass < 8.0,
        below_20_solar: mass < 20.0,
    })
}

#[test]
fn stellar_evolution_stages() {
    assert_eq!(stage(1.0e9, 1.0), StellarType::MainSequence);
    assert_eq!(stage(1.05e10, 1.0), StellarType::RedGiant);
    assert_eq!(stage(2.0e10, 1.0), StellarType::WhiteDwarf);
    let life10 = 1.0e10 * 10f64.powf(-2.5);
    assert_eq!(stage(life10 * 1.12, 10.0), StellarType::Supernova);
    assert_eq!(stage(life10 * 2.0, 10.0), StellarType::NeutronStar);
    let life30 = 1.0e10 * 30f64.powf(-2.5);
    assert_eq!(stage(life30 * 2.0, 30.0), StellarType::BlackHole);
}

#[test]
fn whittaker_biomes() {
    assert_eq!(BiomeType::classify(true, true, true, true), BiomeType::SnowPeak);
    assert_eq!(BiomeType::classify(false, true, true, true), BiomeType::Desert);
    assert_eq!(BiomeType::classify(false, true, true, false), BiomeType::TropicalJungle);
    assert_eq!(BiomeType::classify(false, false, true, true), BiomeType::Tundra);
    assert_eq!(BiomeType::classify(false, false, true, false), BiomeType::TaigaForest);
    assert_eq!(BiomeType::classify(false, false, false, false), BiomeType::Tundra);
}

#[test]
fn chunk_horizon_nearest_first() {
    let mut m = AsyncVoxelChunkManager::default();
    m.view_distance_chunks = 1;
    let center = ChunkCoord::new(0, 0, 0);
    let (spawn, despawn) = m.update_horizon(center);
    assert_eq!(spawn.len(), 27);
    assert!(despawn.is_empty());
    assert_eq!(spawn[0], ChunkCoord::new(0, 0, 0));
    assert_eq!(
        &spawn[1..6],
        &[
            ChunkCoord::new(-1, 0, 0),
            ChunkCoord::new(0, 0, -1),
            ChunkCoord::new(0, 0, 1),
            ChunkCoord::new(0, 1, 0),
            ChunkCoord::new(1, 0, 0),
        ]
    );
}

#[test]
fn chunk_horizon_skips_loaded_and_releases_far() {
    let mut m = AsyncVoxelChunkManager::default();
    m.view_distance_chunks = 1;
    m.loaded_chunks = vec![ChunkCoord::new(0, 0, 0), ChunkCoord::new(5, 0, 0), ChunkCoord::new(2, 0, 0)];
    m.pending_generation = vec![ChunkCoord::new(1, 0, 0)];
    let (spawn, despawn) = m.update_horizon(ChunkCoord::new(0, 0, 0));
    assert_eq!(spawn.len(), 25);
    assert_eq!(spawn[0], ChunkCoord::new(-1, 0, 0));
    assert!(!spawn.contains(&ChunkCoord::new(1, 0, 0)));
    assert_eq!(despawn, vec![ChunkCoord::new(5, 0, 0)]);
}

#[test]
fn union_find_rejoining_reports_no_merge() {
    let mut uf = UnionFind::new(4);
    assert!(uf.union(0, 1));
    assert!(uf.union(2, 3));
    assert!(uf.union(1, 2));
    assert_eq!(uf.components(), 1);
    assert!(!uf.union(3, 0));
    assert_eq!(uf.components(), 1);
    assert_eq!(uf.find(3), 0);
}

#[test]
fn try_betti_agrees_when_triangles_fit() {
    let k5 = complete_graph(5);
    assert_eq!(try_betti_from_adjacency(&k5), Some(betti_from_adjacency(&k5)));
    assert_eq!(try_betti_from_adjacency(&vec![]), Some(BettiNumbers::default()));
}

#[test]
fn surface_grid_guard() {
    assert!(surface_grid_fits(2, 2, 2));
    assert!(surface_grid_fits(50, 50, 100));
    assert!(!surface_grid_fits(50, 50, 101));
    assert!(!surface_grid_fits(1, 100, 100));
    assert!(!surface_grid_fits(100, 100, 0));
}
