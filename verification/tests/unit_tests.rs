use holo_engine::gpu_compute::GPUComputeManager;
use holo_engine::shaders::TERRAIN_SDF_WGSL;
use holo_engine::world::{BiomeType, RenderMode, WorldPreset};

#[test]
fn test_wgsl_gpu_compute_sdf_shader_and_voxels() {
    let manager = GPUComputeManager::new(32);
    assert!(manager.validate_wgsl_shader() > 500, "WGSL shader string must be valid");
    assert_eq!(manager.total_voxels(), 32 * 32 * 32);

    // The CPU fallback evaluates one SDF sample per voxel of this layout.
    let voxels = manager.fallback_voxel_coords();
    assert_eq!(voxels.len(), 32_768);
}

#[test]
fn test_engine_t_duality_lod_switching() {
    // sqrt(alpha') = 1.0 for the T-dual singularity world.
    let sqrt_alpha: f32 = 1.0;
    let mode = RenderMode::for_camera(10.0f32 < sqrt_alpha);
    assert_eq!(mode, RenderMode::ContinuousRayMarch);

    let mode = RenderMode::for_camera(0.2f32 < sqrt_alpha);
    assert_eq!(mode, RenderMode::DiscreteK3Fiber);
}

#[test]
fn shader_length_matches_source() {
    let manager = GPUComputeManager::new(8);
    assert_eq!(manager.validate_wgsl_shader(), TERRAIN_SDF_WGSL.len());
}

#[test]
fn organic_world_preset_particle_count() {
    // An organic alien world is seeded with a non-empty particle set.
    let count = WorldPreset::OrganicAlienWorld.particle_count();
    assert!(count > 0);
    assert_eq!(count, 120);
}

#[test]
fn snow_peak_above_snow_line() {
    // At altitude y = 10 (above the snow line y > 3) every climate is a snow peak.
    let y = 10.0f32;
    for (hot, temperate, dry) in [(true, true, true), (false, true, false), (false, false, true)] {
        assert_eq!(BiomeType::classify(y > 3.0, hot, temperate, dry), BiomeType::SnowPeak);
    }
}
