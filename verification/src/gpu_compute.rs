//! Integer planning for the GPU passes: voxel-grid sizes and layouts,
//! workgroup dispatch counts, buffer sizes, the ray-march step budget and the
//! conversion of packed RGBA pixels to bytes.
use vstd::prelude::*;
use crate::shaders::TERRAIN_SDF_WGSL;
use vstd::string::StringSliceAdditionalSpecFns;
use vstd::arithmetic::div_mod::{
    lemma_div_denominator, lemma_div_pos_is_pos, lemma_fundamental_div_mod, lemma_fundamental_div_mod_converse,
    lemma_mod_pos_bound,
};

verus! {

/// Manager of the 3D SDF voxel-grid compute pass.
pub struct GPUComputeManager {
    /// Voxels per grid side.
    pub grid_resolution: u32,
}

/// Position of voxel `idx` in a grid of side `n`: `idx = x + y*n + z*n*n`.
pub open spec fn voxel_coord(idx: int, n: int) -> (usize, usize, usize) {
    ((idx % n) as usize, ((idx / n) % n) as usize, (idx / (n * n)) as usize)
}

/// Ray-march step budget for a frame of `total_pixels` pixels (fewer steps
/// for larger frames, to stay clear of GPU timeouts).
pub open spec fn raymarch_step_budget(total_pixels: int) -> u32 {
    if total_pixels > 4_000_000 {
        15
    } else if total_pixels > 2_000_000 {
        30
    } else {
        60
    }
}

/// Number of 16-wide workgroups covering `len` items.
pub open spec fn workgroups_16(len: int) -> int {
    (len + 15) / 16
}

/// Dispatch plan of the scene ray-march pass.
#[derive(Debug, Clone, Copy, PartialEq, Eq, Structural)]
pub struct RaymarchDispatch {
    pub total_pixels: u32,
    pub max_steps: u32,
    pub workgroups_x: u32,
    pub workgroups_y: u32,
    /// Size in bytes of the packed-RGBA output (and read-back) buffer.
    pub output_buffer_bytes: u64,
}

impl GPUComputeManager {
    pub fn new(grid_resolution: u32) -> (m: Self)
        ensures
            m.grid_resolution == grid_resolution,
    {
        GPUComputeManager { grid_resolution }
    }

    /// Length in bytes of the terrain SDF compute shader source.
    pub fn validate_wgsl_shader(&self) -> (len: usize)
        ensures
            len == TERRAIN_SDF_WGSL.spec_bytes().len() as usize,
    {
        TERRAIN_SDF_WGSL.len()
    }

    /// Number of voxels of the grid, `resolution^3`.
    pub fn total_voxels(&self) -> (v: usize)
        requires
            self.grid_resolution * self.grid_resolution * self.grid_resolution <= u32::MAX,
        ensures
            v == self.grid_resolution * self.grid_resolution * self.grid_resolution,
    {
        let r = self.grid_resolution;
        proof {
            assert(r * r <= r * r * r || r == 0) by (nonlinear_arith);
        }
        (r * r * r) as usize
    }

    /// Voxel coordinates `(x, y, z)` of the CPU fallback grid, indexed by the
    /// voxel's linear index `x + y*n + z*n*n`.
    pub fn fallback_voxel_coords(&self) -> (coords: Vec<(usize, usize, usize)>)
        requires
            self.grid_resolution * self.grid_resolution * self.grid_resolution <= usize::MAX,
        ensures
            coords.len() == self.grid_resolution * self.grid_resolution * self.grid_resolution,
            forall|idx: int|
                0 <= idx < coords.len() ==> #[trigger] coords[idx] == voxel_coord(
                    idx,
                    self.grid_resolution as int,
                ),
    {
        let n = self.grid_resolution as usize;
        let ghost ni = n as int;
        let mut coords: Vec<(usize, usize, usize)> = Vec::new();
        let mut z: usize = 0;
        while z < n
            invariant
                ni == n,
                ni * ni * ni <= usize::MAX,
                z <= n,
                coords.len() == z * ni * ni,
                forall|idx: int| 0 <= idx < coords.len() ==> #[trigger] coords[idx] == voxel_coord(idx, ni),
            decreases n - z,
        {
            let mut y: usize = 0;
            while y < n
                invariant
                    ni == n,
                    ni * ni * ni <= usize::MAX,
                    z < n,
                    y <= n,
                    coords.len() == z * ni * ni + y * ni,
                    forall|idx: int| 0 <= idx < coords.len() ==> #[trigger] coords[idx] == voxel_coord(idx, ni),
                decreases n - y,
            {
                let mut x: usize = 0;
                while x < n
                    invariant
                        ni == n,
                        ni * ni * ni <= usize::MAX,
                        z < n,
                        y < n,
                        x <= n,
                        coords.len() == z * ni * ni + y * ni + x,
                        forall|idx: int|
                            0 <= idx < coords.len() ==> #[trigger] coords[idx] == voxel_coord(idx, ni),
                    decreases n - x,
                {
                    proof {
                        let idx = z * ni * ni + y * ni + x;
                        lemma_voxel_coord(idx, ni, x as int, y as int, z as int);
                        assert(idx < ni * ni * ni) by (nonlinear_arith)
                            requires
                                idx == z * ni * ni + y * ni + x,
                                x < ni,
                                y < ni,
                                z < ni,
                        ;
                    }
                    coords.push((x, y, z));
                    x = x + 1;
                }
                proof {
                    assert(z * ni * ni + y * ni + ni == z * ni * ni + (y + 1) * ni) by (nonlinear_arith);
                }
                y = y + 1;
            }
            proof {
                assert(z * ni * ni + ni * ni == (z + 1) * ni * ni) by (nonlinear_arith);
            }
            z = z + 1;
        }
        coords
    }

    /// Dispatch plan of the scene ray-march pass for a `width x height` frame.
    pub fn raymarch_dispatch(width: u32, height: u32) -> (d: RaymarchDispatch)
        requires
            width * height <= u32::MAX,
            width + 15 <= u32::MAX,
            height + 15 <= u32::MAX,
        ensures
            d.total_pixels == width * height,
            d.max_steps == raymarch_step_budget(width * height),
            d.workgroups_x == workgroups_16(width as int),
            d.workgroups_y == workgroups_16(height as int),
            d.output_buffer_bytes == 4 * (width * height),
    {
        let total_pixels = width * height;
        let max_steps: u32 = if total_pixels > 4_000_000 {
            15
        } else if total_pixels > 2_000_000 {
            30
        } else {
            60
        };
        RaymarchDispatch {
            total_pixels,
            max_steps,
            workgroups_x: (width + 15) / 16,
            workgroups_y: (height + 15) / 16,
            output_buffer_bytes: total_pixels as u64 * 4,
        }
    }
}

/// Buffer sizes and dispatch counts of the deferred G-buffer / lighting passes.
#[derive(Debug, Clone, Copy, PartialEq, Eq, Structural)]
pub struct DeferredFrameLayout {
    pub pixel_count: u64,
    /// Bytes of each G-buffer (one `vec4<f32>`, 16 bytes, per pixel).
    pub gbuffer_bytes: u64,
    /// Bytes of the packed-RGBA colour buffer (4 bytes per pixel).
    pub color_buffer_bytes: u64,
    pub workgroups_x: u32,
    pub workgroups_y: u32,
}

/// Two-pass deferred SDF renderer and dune relaxation pass.
pub struct DeferredGpuRenderer;

impl DeferredGpuRenderer {
    /// Buffer sizes and workgroup counts for a `width x height` frame.
    pub fn frame_layout(width: u32, height: u32) -> (l: DeferredFrameLayout)
        requires
            width * height <= u32::MAX,
            width + 15 <= u32::MAX,
            height + 15 <= u32::MAX,
        ensures
            l.pixel_count == width * height,
            l.gbuffer_bytes == 16 * (width * height),
            l.color_buffer_bytes == 4 * (width * height),
            l.workgroups_x == workgroups_16(width as int),
            l.workgroups_y == workgroups_16(height as int),
    {
        let pixel_count = (width * height) as u64;
        DeferredFrameLayout {
            pixel_count,
            gbuffer_bytes: pixel_count * 16,
            color_buffer_bytes: pixel_count * 4,
            workgroups_x: (width + 15) / 16,
            workgroups_y: (height + 15) / 16,
        }
    }

    /// `(workgroups per side, buffer bytes)` of the dune relaxation pass on a
    /// `grid_size x grid_size` height field of `f32`.
    pub fn dune_dispatch(grid_size: u32) -> (r: (u32, u64))
        requires
            grid_size * grid_size * 4 <= u32::MAX,
        ensures
            r.0 == workgroups_16(grid_size as int),
            r.1 == grid_size * grid_size * 4,
    {
        proof {
            assert(grid_size < 65536) by (nonlinear_arith)
                requires
                    grid_size * grid_size * 4 <= u32::MAX,
            ;
        }
        ((grid_size + 15) / 16, (grid_size * grid_size * 4) as u64)
    }
}

/// Largest sampling grid, in cells, of the fluid-surface reconstruction.
pub const MAX_SURFACE_GRID_CELLS: usize = 250_000;

/// Whether the fluid-surface sampling grid of `dim_x x dim_y x dim_z` cells
/// is meshed: at most 250 000 cells and at least two cells per side (a
/// larger grid is refused to avoid memory spikes).
pub fn surface_grid_fits(dim_x: usize, dim_y: usize, dim_z: usize) -> (ok: bool)
    requires
        dim_x * dim_y * dim_z <= usize::MAX,
    ensures
        ok == (dim_x * dim_y * dim_z <= 250_000 && dim_x >= 2 && dim_y >= 2 && dim_z >= 2),
{
    if dim_x < 2 || dim_y < 2 || dim_z < 2 {
        return false;
    }
    proof {
        assert(dim_x * dim_y <= dim_x * dim_y * dim_z) by (nonlinear_arith)
            requires
                dim_z >= 2,
        ;
    }
    dim_x * dim_y * dim_z <= MAX_SURFACE_GRID_CELLS
}

/// Requested render resolution clamped to the supported range
/// (width 256..=3840, height 256..=2160).
pub fn clamp_render_resolution(width: u32, height: u32) -> (r: (u32, u32))
    ensures
        r.0 == (if width < 256 { 256 } else if width > 3840 { 3840 } else { width }),
        r.1 == (if height < 256 { 256 } else if height > 2160 { 2160 } else { height }),
{
    let w = if width < 256 {
        256
    } else if width > 3840 {
        3840
    } else {
        width
    };
    let h = if height < 256 {
        256
    } else if height > 2160 {
        2160
    } else {
        height
    };
    (w, h)
}

/// Little-endian bytes of a packed pixel.
pub open spec fn le_bytes(x: u32) -> Seq<u8> {
    seq![(x & 0xff) as u8, ((x >> 8) & 0xff) as u8, ((x >> 16) & 0xff) as u8, ((x >> 24) & 0xff) as u8]
}

/// Big-endian bytes of a packed pixel.
pub open spec fn be_bytes(x: u32) -> Seq<u8> {
    seq![((x >> 24) & 0xff) as u8, ((x >> 16) & 0xff) as u8, ((x >> 8) & 0xff) as u8, (x & 0xff) as u8]
}

/// `bytes` is the in-memory image of `pixels` on a little- or big-endian
/// machine: four bytes per pixel, in one of the two byte orders throughout.
pub open spec fn is_memory_image(pixels: Seq<u32>, bytes: Seq<u8>) -> bool {
    &&& bytes.len() == 4 * pixels.len()
    &&& {
        ||| forall|i: int|
            0 <= i < pixels.len() ==> #[trigger] bytes.subrange(4 * i, 4 * i + 4) == le_bytes(pixels[i])
        ||| forall|i: int|
            0 <= i < pixels.len() ==> #[trigger] bytes.subrange(4 * i, 4 * i + 4) == be_bytes(pixels[i])
    }
}

/// `bytemuck::cast_slice::<u32, u8>` followed by a copy.  bytemuck
/// reinterprets the slice's memory: a `u8` target never needs more alignment
/// than the `u32` source and 4 bytes per element always divide evenly, so the
/// cast cannot fail; the bytes are each pixel in the machine's native byte
/// order.  Which of the two orders that is, is left open.
#[verifier::external_body]
fn cast_pixels_to_bytes(pixels: &[u32]) -> (bytes: Vec<u8>)
    ensures
        is_memory_image(pixels@, bytes@),
{
    bytemuck::cast_slice::<u32, u8>(pixels).to_vec()
}

/// RGBA bytes of a frame of packed `0xAABBGGRR` pixels, ready for an image
/// buffer of the same dimensions.
pub fn frame_bytes(pixels: &Vec<u32>) -> (bytes: Vec<u8>)
    ensures
        is_memory_image(pixels@, bytes@),
{
    cast_pixels_to_bytes(pixels.as_slice())
}

/// Splits a linear voxel index: `idx = x + y*n + z*n*n` with `x, y < n`.
proof fn lemma_voxel_coord(idx: int, n: int, x: int, y: int, z: int)
    requires
        0 <= x < n,
        0 <= y < n,
        0 <= z,
        idx == z * n * n + y * n + x,
    ensures
        voxel_coord(idx, n) == (x as usize, y as usize, z as usize),
{
    assert(idx == (z * n + y) * n + x) by (nonlinear_arith)
        requires
            idx == z * n * n + y * n + x,
    ;
    lemma_fundamental_div_mod_converse(idx, n, z * n + y, x);
    lemma_fundamental_div_mod_converse(z * n + y, n, z, y);
    assert(idx >= 0) by (nonlinear_arith)
        requires
            idx == (z * n + y) * n + x,
            0 <= x,
            0 <= y,
            0 <= z,
            0 < n,
    ;
    lemma_div_denominator(idx, n, n);
}

/// Law: the fallback voxel coordinates invert the buffer layout: the voxel
/// at linear index `idx` of a grid of side `n` has coordinates below `n` and
/// `idx == x + y*n + z*n*n`.
pub proof fn law_voxel_coord_inverts_layout(idx: int, n: int)
    requires
        n > 0,
        0 <= idx < n * n * n,
        n * n * n <= usize::MAX,
    ensures
        ({
            let (x, y, z) = voxel_coord(idx, n);
            &&& x < n && y < n && z < n
            &&& idx == x + y * n + z * n * n
        }),
{
    lemma_fundamental_div_mod(idx, n);
    lemma_mod_pos_bound(idx, n);
    lemma_div_pos_is_pos(idx, n);
    let q = idx / n;
    lemma_fundamental_div_mod(q, n);
    lemma_mod_pos_bound(q, n);
    lemma_div_pos_is_pos(q, n);
    lemma_div_denominator(idx, n, n);
    let z = q / n;
    assert(q < n * n) by (nonlinear_arith)
        requires
            idx == n * q + idx % n,
            0 <= idx % n,
            idx < n * n * n,
            n > 0,
    ;
    assert(z < n) by (nonlinear_arith)
        requires
            q == n * z + q % n,
            0 <= q % n,
            q < n * n,
            n > 0,
    ;
    assert(n <= n * n * n) by (nonlinear_arith)
        requires
            n > 0,
    ;
    assert(idx / (n * n) == z);
    assert(idx == idx % n + (q % n) * n + z * n * n) by (nonlinear_arith)
        requires
            idx == n * q + idx % n,
            q == n * z + q % n,
    ;
}

/// Law: the dispatched 16-wide workgroups cover every item, and one fewer
/// workgroup would not.
pub proof fn law_workgroups_cover(len: int)
    requires
        len >= 0,
    ensures
        16 * workgroups_16(len) >= len,
        16 * (workgroups_16(len) - 1) < len || len == 0,
{
}

} // verus!
