use holo_engine::shaders::{
    get_advanced_scene_wgsl, BLACK_HOLE_WGSL_BODY, BLACK_HOLE_WGSL_OPENING, DEFAULT_COLOR,
    DEFAULT_SDF_BODY, DEFAULT_SDF_OPENING, OCEAN_SUNSET_COLOR, OCEAN_SUNSET_SDF_BODY,
    OCEAN_SUNSET_SDF_OPENING, VOLCANIC_CRYSTAL_CAVE_COLOR, VOLCANIC_CRYSTAL_CAVE_SDF_BODY,
    VOLCANIC_CRYSTAL_CAVE_SDF_OPENING,
};

fn joined(a: &str, b: &str) -> String {
    format!("{}{}", a, b)
}

/// The scene template as a format string, braces escaped.
fn expected_scene(sdf_logic: &str, color_logic: &str) -> String {
    format!(r#"
struct RaymarchParams {{
    camera_pos: vec3<f32>,
    fov: f32,
    camera_dir: vec3<f32>,
    screen_width: u32,
    camera_up: vec3<f32>,
    screen_height: u32,
    max_steps: u32,
    max_dist: f32,
    _pad0: u32,
    _pad1: u32,
}};

@group(0) @binding(0) var<uniform> ray_params: RaymarchParams;
@group(0) @binding(1) var<storage, read_write> color_buffer: array<u32>;

fn hash21(p: vec2<f32>) -> f32 {{
    var q = fract(p * vec2<f32>(123.34, 456.21));
    q += dot(q, q + 45.32);
    return fract(q.x * q.y);
}}

fn hash31(p: vec3<f32>) -> f32 {{
    var q = fract(p * vec3<f32>(123.34, 456.21, 789.92));
    q += dot(q, q + 45.32);
    return fract(q.x * q.y * q.z);
}}

fn noise3(p: vec3<f32>) -> f32 {{
    let i = floor(p);
    let f = fract(p);
    let u = f * f * (3.0 - 2.0 * f);
    return mix(
        mix(mix(hash31(i + vec3<f32>(0.0,0.0,0.0)), hash31(i + vec3<f32>(1.0,0.0,0.0)), u.x),
            mix(hash31(i + vec3<f32>(0.0,1.0,0.0)), hash31(i + vec3<f32>(1.0,1.0,0.0)), u.x), u.y),
        mix(mix(hash31(i + vec3<f32>(0.0,0.0,1.0)), hash31(i + vec3<f32>(1.0,0.0,1.0)), u.x),
            mix(hash31(i + vec3<f32>(0.0,1.0,1.0)), hash31(i + vec3<f32>(1.0,1.0,1.0)), u.x), u.y), u.z);
}}

fn fbm3(p: vec3<f32>) -> f32 {{
    var f = 0.0;
    var scale = 0.5;
    var q = p;
    for (var i = 0; i < 3; i++) {{
        f += scale * noise3(q);
        q *= 2.0;
        scale *= 0.5;
    }}
    return f;
}}

fn evaluate_scene(p: vec3<f32>) -> vec2<f32> {{
    {}
}}

fn calc_normal(p: vec3<f32>) -> vec3<f32> {{
    let e = max(0.001, length(p) * 0.00005);
    let dx = evaluate_scene(p + vec3<f32>(e, 0.0, 0.0)).x - evaluate_scene(p - vec3<f32>(e, 0.0, 0.0)).x;
    let dy = evaluate_scene(p + vec3<f32>(0.0, e, 0.0)).x - evaluate_scene(p - vec3<f32>(0.0, e, 0.0)).x;
    let dz = evaluate_scene(p + vec3<f32>(0.0, 0.0, e)).x - evaluate_scene(p - vec3<f32>(0.0, 0.0, e)).x;
    return normalize(vec3<f32>(dx, dy, dz));
}}

fn calc_softshadow(ro: vec3<f32>, rd: vec3<f32>, mint: f32, maxt: f32, k: f32) -> f32 {{
    var res: f32 = 1.0;
    var t: f32 = mint;
    for(var i: i32 = 0; i < 16; i++) {{
        if(t > maxt) {{ break; }}
        let h = evaluate_scene(ro + rd * t).x;
        if(h < 0.001) {{ return 0.0; }}
        res = min(res, k * h / t);
        t += clamp(h, 0.02, 0.20);
    }}
    return clamp(res, 0.0, 1.0);
}}

fn calc_ao(pos: vec3<f32>, nor: vec3<f32>) -> f32 {{
    var occ: f32 = 0.0;
    var sca: f32 = 1.0;
    for(var i: i32 = 0; i < 5; i++) {{
        let h = 0.01 + 0.12 * f32(i) / 4.0;
        let d = evaluate_scene(pos + h * nor).x;
        occ += (h - d) * sca;
        sca *= 0.95;
        if(occ > 0.35) {{ break; }}
    }}
    return clamp(1.0 - 3.0 * occ, 0.0, 1.0) * (0.5 + 0.5 * nor.y);
}}

fn aces_film(x: vec3<f32>) -> vec3<f32> {{
    let a = 2.51f;
    let b = 0.03f;
    let c = 2.43f;
    let d = 0.59f;
    let e = 0.14f;
    return clamp((x * (a * x + b)) / (x * (c * x + d) + e), vec3<f32>(0.0), vec3<f32>(1.0));
}}

@compute @workgroup_size(16, 16)
fn raymarch_main(@builtin(global_invocation_id) global_id: vec3<u32>) {{
    if (global_id.x >= ray_params.screen_width || global_id.y >= ray_params.screen_height) {{
        return;
    }}

    let w = f32(ray_params.screen_width);
    let h = f32(ray_params.screen_height);
    let uv = vec2<f32>(f32(global_id.x) - 0.5 * w, 0.5 * h - f32(global_id.y)) / h;

    let forward = normalize(ray_params.camera_dir);
    let right = normalize(cross(forward, ray_params.camera_up));
    let up = cross(right, forward);

    let ray_dir = normalize(forward + uv.x * right + uv.y * up);

    var t: f32 = 0.0;
    var hit: bool = false;
    var hit_pos: vec3<f32> = ray_params.camera_pos;
    var mat_id: f32 = 0.0;

    for (var i: u32 = 0u; i < ray_params.max_steps; i = i + 1u) {{
        let p = ray_params.camera_pos + ray_dir * t;
        let res = evaluate_scene(p);
        let d = res.x;
        
        // P2 Optimization: Distance-adapted epsilon (Cone tracing tolerance)
        let epsilon = max(0.0005, 0.0001 * t);
        if (abs(d) < epsilon) {{
            hit = true;
            hit_pos = p;
            mat_id = res.y;
            break;
        }}
        t += d;
        if (t > ray_params.max_dist) {{
            break;
        }}
    }}

    var color: vec3<f32> = vec3<f32>(0.01, 0.01, 0.02); // Deep Space Sky
    var normal: vec3<f32> = vec3<f32>(0.0, 1.0, 0.0);
    
    if (hit) {{
        normal = calc_normal(hit_pos);
    }} else {{
        // If no hit, t is max_dist
        t = ray_params.max_dist;
        hit_pos = ray_params.camera_pos + ray_dir * t;
    }}
    
    {} // Insert color_logic
    
    // Apply ACES cinematic tonemapping and Gamma correction (sRGB)
    color = aces_film(color);
    color = pow(color, vec3<f32>(1.0 / 2.2));

    let r = u32(clamp(color.r * 255.0, 0.0, 255.0));
    let g = u32(clamp(color.g * 255.0, 0.0, 255.0));
    let b = u32(clamp(color.b * 255.0, 0.0, 255.0));
    let a = 255u;

    let pixel_idx = global_id.x + (ray_params.screen_height - 1u - global_id.y) * ray_params.screen_width;
    color_buffer[pixel_idx] = (a << 24u) | (b << 16u) | (g << 8u) | r;
}}
    "#, sdf_logic, color_logic)
}

#[test]
fn black_hole_scene_is_standalone() {
    assert_eq!(get_advanced_scene_wgsl("black_hole"), joined(BLACK_HOLE_WGSL_OPENING, BLACK_HOLE_WGSL_BODY));
}

#[test]
fn named_scenes_fill_the_template() {
    assert_eq!(
        get_advanced_scene_wgsl("ocean_sunset"),
        expected_scene(&joined(OCEAN_SUNSET_SDF_OPENING, OCEAN_SUNSET_SDF_BODY), OCEAN_SUNSET_COLOR)
    );
    assert_eq!(
        get_advanced_scene_wgsl("volcanic_crystal_cave"),
        expected_scene(
            &joined(VOLCANIC_CRYSTAL_CAVE_SDF_OPENING, VOLCANIC_CRYSTAL_CAVE_SDF_BODY),
            VOLCANIC_CRYSTAL_CAVE_COLOR,
        )
    );
}

#[test]
fn unknown_scene_falls_back_to_ground_plane() {
    assert_eq!(get_advanced_scene_wgsl("no_such_scene"), expected_scene(&joined(DEFAULT_SDF_OPENING, DEFAULT_SDF_BODY), DEFAULT_COLOR));
    assert_eq!(get_advanced_scene_wgsl(""), expected_scene(&joined(DEFAULT_SDF_OPENING, DEFAULT_SDF_BODY), DEFAULT_COLOR));
    assert!(get_advanced_scene_wgsl("ocean_sunset").contains("Scene 1: Ocean Sunset"));
}

#[test]
fn known_scenes_are_distinct_from_each_other_and_the_fallback() {
    let ids = [
        "ocean_sunset", "forest_soil", "cloudscape", "crystal_cave", "floating_islands",
        "desert_dunes", "ice_glacier", "volcano_core", "alien_planet", "earth_orbit",
        "continental_biomes", "arctic_aurora", "volcanic_crystal_cave", "floating_archipelago",
        "black_hole",
    ];
    let fallback = get_advanced_scene_wgsl("");
    assert!(fallback.contains("let d = p.y + 1.0;"));
    let texts: Vec<String> = ids.iter().map(|id| get_advanced_scene_wgsl(id)).collect();
    for (a, ta) in texts.iter().enumerate() {
        assert_ne!(*ta, fallback, "{} must not fall back", ids[a]);
        for tb in texts.iter().skip(a + 1) {
            assert_ne!(ta, tb);
        }
    }
}
