# holo_engine

A topological world engine: cosmic-web and particle-cloud topology (Betti
numbers of Vietoris-Rips complexes), GPU compute planning for SDF ray
marching, world presets and biome rules, bounded telemetry and voxel-chunk
streaming.

## Layout

- `src/` — the verified library (Verus):
  - `union_find.rs`: union-find with path compression and union by rank;
  - `topology.rs`: grid-cell candidate pairs, cusp-core density check and
    Betti numbers of the pair graph, with the laws that the 14 offsets
    compare each neighbouring pair once and that edge order does not matter;
  - `tda.rs`: Betti numbers of a Rips adjacency matrix (BFS components,
    loops, triangles) and the persistence-pair plan;
  - `shaders.rs`: the WGSL sources and the scene shader assembly;
  - `gpu_compute.rs`: voxel layouts, dispatch sizes, buffer sizes, step
    budgets, resolution clamping and pixel bytes;
  - `world.rs`: presets, render modes, step schedule, stellar and biome
    classification;
  - `telemetry.rs`: bounded snapshot history;
  - `chunks.rs`: chunk horizon (which chunks to spawn, nearest first, and
    which to drop).
- `tests/` — tests of the library.
- `app/` — the program: GPU passes (wgpu), the web render node (axum), the
  float physics models, agents and the telemetry report, calling the library
  for its discrete decisions.
