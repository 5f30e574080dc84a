//! World presets, render modes, physics biomes and the discrete decisions the
//! engine takes about them: how many particles a preset spawns, when the
//! topological invariants are refreshed, which LOD render mode a camera
//! distance selects, and the stellar and Whittaker biome classifications.
//! The floating-point comparisons that feed the classifications are made by
//! the caller; these functions take their outcomes.
use vstd::prelude::*;

verus! {

/// Preset topological worlds.
#[derive(Debug, Clone, Copy, PartialEq, Eq, Structural)]
pub enum WorldPreset {
    /// Continuous 1-Lipschitz DONN terrain.
    OrganicAlienWorld,
    /// SPH particles under Leray solenoidal bounds.
    QuantumFluidOcean,
    /// Scale-invariant T-duality LOD world.
    TDualSingularity,
    /// High-Betti TDA mesh network.
    CyberneticMesh,
    /// Gerstner / Navier-Stokes ocean.
    OceanNavierStokes,
    /// Aeolian dunes with an angle of repose.
    DunesAeolian,
    /// Thermal buoyancy cloud field.
    CloudsConvection,
    /// Shallow-ice glacier sheet.
    GlacierIceSheet,
    /// Symplectic N-body galaxy.
    GalaxySymplecticNBody,
    /// Relativistic black hole with a T-dual bounce.
    BlackHoleTDual,
}

/// Number of particles a preset world spawns.
pub open spec fn preset_particle_count(p: WorldPreset) -> usize {
    match p {
        WorldPreset::OrganicAlienWorld => 120,
        WorldPreset::QuantumFluidOcean => 300,
        WorldPreset::OceanNavierStokes => 300,
        WorldPreset::TDualSingularity => 80,
        WorldPreset::BlackHoleTDual => 80,
        WorldPreset::CyberneticMesh => 200,
        WorldPreset::DunesAeolian => 250,
        WorldPreset::CloudsConvection => 350,
        WorldPreset::GlacierIceSheet => 180,
        WorldPreset::GalaxySymplecticNBody => 400,
    }
}

impl WorldPreset {
    pub fn particle_count(&self) -> (n: usize)
        ensures
            n == preset_particle_count(*self),
    {
        match self {
            WorldPreset::OrganicAlienWorld => 120,
            WorldPreset::QuantumFluidOcean | WorldPreset::OceanNavierStokes => 300,
            WorldPreset::TDualSingularity | WorldPreset::BlackHoleTDual => 80,
            WorldPreset::CyberneticMesh => 200,
            WorldPreset::DunesAeolian => 250,
            WorldPreset::CloudsConvection => 350,
            WorldPreset::GlacierIceSheet => 180,
            WorldPreset::GalaxySymplecticNBody => 400,
        }
    }
}

/// Level-of-detail render modes.
#[derive(Debug, Clone, Copy, PartialEq, Eq, Structural)]
pub enum RenderMode {
    ContinuousRayMarch,
    DiscreteK3Fiber,
    OrganicSurfaceMesh,
    QuantumFluidParticles,
}

impl RenderMode {
    /// Mode selected for a camera: below the string scale `sqrt(alpha')`
    /// continuous evaluation halts and the discrete K3 fiber is projected.
    pub fn for_camera(below_string_scale: bool) -> (m: RenderMode)
        ensures
            m == (if below_string_scale {
                RenderMode::DiscreteK3Fiber
            } else {
                RenderMode::ContinuousRayMarch
            }),
    {
        if below_string_scale {
            RenderMode::DiscreteK3Fiber
        } else {
            RenderMode::ContinuousRayMarch
        }
    }
}

/// Physical biomes of the unified physics system.
#[derive(Debug, Clone, Copy, PartialEq, Eq, Structural)]
pub enum ActiveBiome {
    Ocean,
    Dunes,
    Clouds,
    Glacier,
    Galaxy,
    BlackHole,
    Crystallography,
    EcologicalFlora,
}

/// Steps between two refreshes of the topological invariants.
pub const INVARIANT_REFRESH_PERIOD: usize = 30;

/// Advances the physics step counter; returns the new count and whether the
/// topological invariants are due for a refresh (every 30th step).
pub fn advance_step_counter(step_counter: usize) -> (r: (usize, bool))
    requires
        step_counter < usize::MAX,
    ensures
        r.0 == step_counter + 1,
        r.1 == ((step_counter + 1) % 30 == 0),
{
    let next = step_counter + 1;
    (next, next % INVARIANT_REFRESH_PERIOD == 0)
}

/// Stellar evolution stages.
#[derive(Debug, Clone, Copy, PartialEq, Eq, Structural)]
pub enum StellarType {
    Protostar,
    MainSequence,
    RedGiant,
    Supernova,
    WhiteDwarf,
    NeutronStar,
    BlackHole,
}

/// Outcomes of the comparisons that decide a star's stage.
#[derive(Debug, Clone, Copy, PartialEq, Eq, Structural)]
pub struct StellarAgeMass {
    /// age < main-sequence lifetime
    pub before_lifetime: bool,
    /// age < 1.1 x lifetime
    pub before_giant_end: bool,
    /// age < 1.15 x lifetime
    pub before_supernova_end: bool,
    /// mass >= 8 solar masses
    pub at_least_8_solar: bool,
    /// mass < 8 solar masses
    pub below_8_solar: bool,
    /// mass < 20 solar masses
    pub below_20_solar: bool,
}

/// Stage of a star: main sequence, then red giant, then (for heavy stars) a
/// brief supernova, then a remnant chosen by mass.
pub open spec fn stellar_stage(c: StellarAgeMass) -> StellarType {
    if c.before_lifetime {
        StellarType::MainSequence
    } else if c.before_giant_end {
        StellarType::RedGiant
    } else if c.before_supernova_end && c.at_least_8_solar {
        StellarType::Supernova
    } else if c.below_8_solar {
        StellarType::WhiteDwarf
    } else if c.below_20_solar {
        StellarType::NeutronStar
    } else {
        StellarType::BlackHole
    }
}

/// Law: the stellar lifecycle.  A star is on the main sequence before its
/// lifetime ends, then a red giant; a star of at least 8 solar masses then
/// goes supernova; afterwards the remnant is a white dwarf below 8 solar
/// masses, a neutron star below 20 and a black hole above.  No star is
/// classified a protostar.
pub proof fn law_stellar_lifecycle(c: StellarAgeMass)
    ensures
        (stellar_stage(c) == StellarType::MainSequence) <==> c.before_lifetime,
        (stellar_stage(c) == StellarType::RedGiant) <==> (!c.before_lifetime && c.before_giant_end),
        (stellar_stage(c) == StellarType::Supernova) <==> (!c.before_lifetime && !c.before_giant_end
            && c.before_supernova_end && c.at_least_8_solar),
        (stellar_stage(c) == StellarType::WhiteDwarf) <==> (!c.before_lifetime && !c.before_giant_end
            && !(c.before_supernova_end && c.at_least_8_solar) && c.below_8_solar),
        (stellar_stage(c) == StellarType::NeutronStar) <==> (!c.before_lifetime && !c.before_giant_end
            && !(c.before_supernova_end && c.at_least_8_solar) && !c.below_8_solar && c.below_20_solar),
        (stellar_stage(c) == StellarType::BlackHole) <==> (!c.before_lifetime && !c.before_giant_end
            && !(c.before_supernova_end && c.at_least_8_solar) && !c.below_8_solar && !c.below_20_solar),
        stellar_stage(c) != StellarType::Protostar,
{
}

impl StellarType {
    pub fn classify(c: StellarAgeMass) -> (t: StellarType)
        ensures
            t == stellar_stage(c),
    {
        if c.before_lifetime {
            StellarType::MainSequence
        } else if c.before_giant_end {
            StellarType::RedGiant
        } else if c.before_supernova_end && c.at_least_8_solar {
            StellarType::Supernova
        } else if c.below_8_solar {
            StellarType::WhiteDwarf
        } else if c.below_20_solar {
            StellarType::NeutronStar
        } else {
            StellarType::BlackHole
        }
    }
}

/// Whittaker biomes.
#[derive(Debug, Clone, Copy, PartialEq, Eq, Structural)]
pub enum BiomeType {
    Desert,
    TropicalJungle,
    TaigaForest,
    Tundra,
    SnowPeak,
}

/// Whittaker diagram: above the snow line a snow peak; hot (T > 0.6) gives
/// desert or jungle, temperate (T > 0.3) tundra or taiga, by humidity
/// (dry: H < 0.4); anything colder is (glacial) tundra.
pub open spec fn whittaker_biome(above_snow_line: bool, hot: bool, temperate: bool, dry: bool) -> BiomeType {
    if above_snow_line {
        BiomeType::SnowPeak
    } else if hot {
        if dry {
            BiomeType::Desert
        } else {
            BiomeType::TropicalJungle
        }
    } else if temperate {
        if dry {
            BiomeType::Tundra
        } else {
            BiomeType::TaigaForest
        }
    } else {
        BiomeType::Tundra
    }
}

/// Law: the Whittaker diagram.  Above the snow line every climate is a snow
/// peak; below it, hot climates are desert when dry and tropical jungle
/// otherwise, temperate ones taiga forest when humid, and every other
/// climate (temperate and dry, or colder than temperate) is tundra.
pub proof fn law_whittaker_diagram(above_snow_line: bool, hot: bool, temperate: bool, dry: bool)
    ensures
        (whittaker_biome(above_snow_line, hot, temperate, dry) == BiomeType::SnowPeak) <==> above_snow_line,
        (whittaker_biome(above_snow_line, hot, temperate, dry) == BiomeType::Desert) <==> (!above_snow_line
            && hot && dry),
        (whittaker_biome(above_snow_line, hot, temperate, dry) == BiomeType::TropicalJungle) <==> (
        !above_snow_line && hot && !dry),
        (whittaker_biome(above_snow_line, hot, temperate, dry) == BiomeType::TaigaForest) <==> (
        !above_snow_line && !hot && temperate && !dry),
        (whittaker_biome(above_snow_line, hot, temperate, dry) == BiomeType::Tundra) <==> (!above_snow_line
            && !hot && (dry || !temperate)),
{
}

impl BiomeType {
    pub fn classify(above_snow_line: bool, hot: bool, temperate: bool, dry: bool) -> (b: BiomeType)
        ensures
            b == whittaker_biome(above_snow_line, hot, temperate, dry),
    {
        if above_snow_line {
            BiomeType::SnowPeak
        } else if hot {
            if dry {
                BiomeType::Desert
            } else {
                BiomeType::TropicalJungle
            }
        } else if temperate {
            if dry {
                BiomeType::Tundra
            } else {
                BiomeType::TaigaForest
            }
        } else {
            BiomeType::Tundra
        }
    }
}

/// Scaffold for hardware instancing of L-system nodes.
pub struct GpuInstancer {
    pub instance_count: usize,
}

impl GpuInstancer {
    pub fn new(count: usize) -> (g: Self)
        ensures
            g.instance_count == count,
    {
        GpuInstancer { instance_count: count }
    }
}

/// Scaffold for the GPU marching-cubes pipeline.
pub struct MarchingCubesPipeline {
    pub resolution: u32,
}

impl MarchingCubesPipeline {
    pub fn new(resolution: u32) -> (p: Self)
        ensures
            p.resolution == resolution,
    {
        MarchingCubesPipeline { resolution }
    }
}

} // verus!
