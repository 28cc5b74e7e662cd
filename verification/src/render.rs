//! Whitted-style shading — ambient plus emission, per-light diffuse and
//! specular terms behind shadow rays, and a recursive mirror-reflection term
//! — and the image driver that turns the scene into bytes, one scanline of
//! independent pixels at a time.

use vstd::prelude::*;

use rayon::iter::{IntoParallelIterator, ParallelIterator};

use crate::camera::{spec_get_ray, Camera};
use crate::fixed;
use crate::fixed::{sat, spec_clamp01, spec_div, spec_mul, spec_pow, MAX_FX, ONE, SCALE};
use crate::geom::{
    dot, reflect, spec_dot, spec_length, spec_length_squared, spec_reflect, spec_unit, spec_vadd,
    spec_vdiv, spec_vmul, spec_vneg, spec_vscale, spec_vsub, Color, Ray, Vec3,
};
use crate::light::Light;
use crate::object::Hit;
use crate::scene::{spec_world_wf, World};

verus! {

/// Lower bound of every intersection interval: about a thousandth on the
/// fixed-point grid, so a secondary ray does not re-strike its own origin.
pub const T_EPSILON: i64 = 66;

/// The nearest hit in the whole scene, through the hierarchy.
pub open spec fn spec_world_hit(w: World, r: Ray, tmin: int, tmax: int) -> Option<Hit> {
    crate::bvh::spec_node_hit(w.bvh_node, w.objects.0@, r, tmin, tmax)
}

/// Query the hierarchy for the nearest hit in `[t_min, t_max]`.
pub fn world_hit(world: &World, r: &Ray, t_min: i64, t_max: i64) -> (res: Option<Hit>)
    requires
        spec_world_wf(*world),
    ensures
        res == spec_world_hit(*world, *r, t_min as int, t_max as int),
{
    world.bvh_node.hit(&world.objects, r, t_min, t_max)
}

/// One light's addition to the color at a hit point, or nothing when the
/// shadow ray finds an occluder. Directional lights test occlusion along the
/// whole ray; point lights only up to the light's own distance, and their
/// term is divided by the attenuation at that distance.
#[verifier::opaque]
pub open spec fn spec_light_contrib(w: World, wi: Ray, rec: Hit, l: Light) -> Option<Color> {
    match l {
        Light::Directional { x, y, z, r, g, b } => {
            let light_vector = spec_vneg(Vec3 { x, y, z });
            let light_direction = spec_unit(light_vector);
            let light_ray = Ray { origin: rec.point, direction: light_direction };
            let h = spec_unit(spec_vadd(spec_vsub(wi.origin, rec.point), light_vector));
            if spec_world_hit(w, light_ray, T_EPSILON as int, MAX_FX as int) is None {
                Some(
                    spec_vadd(
                        spec_vscale(
                            spec_vmul(Vec3 { x: r, y: g, z: b }, rec.material.diffuse),
                            vstd::math::max(0, spec_dot(rec.normal, light_direction)),
                        ),
                        spec_vscale(
                            rec.material.specular,
                            spec_pow(
                                vstd::math::max(0, spec_dot(rec.normal, h)),
                                rec.material.shininess as nat,
                            ),
                        ),
                    ),
                )
            } else {
                None
            }
        },
        Light::Point { x, y, z, r, g, b } => {
            let light_position = Vec3 { x, y, z };
            let light_vector = spec_vsub(light_position, rec.point);
            let light_direction = spec_unit(light_vector);
            let light_ray = Ray { origin: rec.point, direction: light_direction };
            let h = spec_unit(spec_vadd(spec_vsub(wi.origin, rec.point), light_vector));
            let dist = spec_length(light_vector);
            if spec_world_hit(w, light_ray, T_EPSILON as int, dist) is None {
                let atten = sat(
                    sat(w.attenuation.0 + spec_mul(w.attenuation.1 as int, dist)) + spec_mul(
                        w.attenuation.2 as int,
                        spec_length_squared(light_vector),
                    ),
                );
                Some(
                    spec_vdiv(
                        spec_vadd(
                            spec_vscale(
                                spec_vmul(Vec3 { x: r, y: g, z: b }, rec.material.diffuse),
                                vstd::math::max(0, spec_dot(rec.normal, light_direction)),
                            ),
                            spec_vscale(
                                rec.material.specular,
                                spec_pow(
                                    vstd::math::max(0, spec_dot(rec.normal, h)),
                                    rec.material.shininess as nat,
                                ),
                            ),
                        ),
                        atten,
                    ),
                )
            } else {
                None
            }
        },
    }
}

/// Ambient plus emission, then each of the first `i` lights' contributions
/// in order.
pub open spec fn spec_light_fold(w: World, wi: Ray, rec: Hit, i: int) -> Color
    decreases i,
{
    if i <= 0 {
        spec_vadd(w.ambient, rec.material.emission)
    } else {
        let prev = spec_light_fold(w, wi, rec, i - 1);
        match spec_light_contrib(w, wi, rec, w.lights@[i - 1]) {
            Some(c) => spec_vadd(prev, c),
            None => prev,
        }
    }
}

/// The outgoing radiance along a ray: black past the depth limit or on a
/// miss, else the shaded color at the nearest hit.
pub open spec fn spec_ray_color(w: World, r: Ray, depth: int) -> Color
    decreases w.max_depth - depth, 1int,
{
    if depth >= w.max_depth {
        Vec3 { x: 0, y: 0, z: 0 }
    } else {
        match spec_world_hit(w, r, T_EPSILON as int, MAX_FX as int) {
            Some(rec) => spec_intensity(w, r, rec, depth),
            None => Vec3 { x: 0, y: 0, z: 0 },
        }
    }
}

/// Recursion cutoff: at or past the world's depth limit the traced color is
/// black, whatever the scene and the ray. Together with the decreasing
/// measure `max_depth - depth` on the shading recursion, this bounds the
/// depth of the reflection recursion by the limit, even between facing
/// mirrors.
pub proof fn lemma_ray_color_depth_cutoff(w: World, r: Ray, depth: int)
    requires
        depth >= w.max_depth,
    ensures
        spec_ray_color(w, r, depth) == (Vec3 { x: 0, y: 0, z: 0 }),
{
}

/// The shaded color at a hit: every light's term over ambient plus emission,
/// plus the specular color times the recursively traced mirror reflection.
pub open spec fn spec_intensity(w: World, wi: Ray, rec: Hit, depth: int) -> Color
    decreases w.max_depth - depth, 0int,
    when depth < w.max_depth
{
    let reflected = Ray {
        origin: rec.point,
        direction: spec_reflect(wi.direction, rec.normal),
    };
    spec_vadd(
        spec_light_fold(w, wi, rec, w.lights@.len() as int),
        spec_vmul(rec.material.specular, spec_ray_color(w, reflected, depth + 1)),
    )
}

/// One light's addition to the color at a hit point, or `None` under
/// occlusion.
fn light_contrib(world: &World, wi: &Ray, rec: &Hit, l: &Light) -> (res: Option<Color>)
    requires
        spec_world_wf(*world),
    ensures
        res == spec_light_contrib(*world, *wi, *rec, *l),
{
    proof {
        reveal(spec_light_contrib);
    }
    match l {
        Light::Directional { x, y, z, r, g, b } => {
            let light_vector = Vec3 { x: *x, y: *y, z: *z }.neg();
            let light_direction = light_vector.normalize();
            let light_ray = Ray::new(rec.point, light_direction);
            let h = wi.origin.sub(&rec.point).add(&light_vector).normalize();
            let shadow = world_hit(world, &light_ray, T_EPSILON, MAX_FX);
            if shadow.is_none() {
                let diffuse_term = Vec3 { x: *r, y: *g, z: *b }.mul(&rec.material.diffuse).scale(
                    fixed::max(0, dot(rec.normal, light_direction)),
                );
                let specular_term = rec.material.specular.scale(
                    fixed::pow(fixed::max(0, dot(rec.normal, h)), rec.material.shininess),
                );
                Some(diffuse_term.add(&specular_term))
            } else {
                None
            }
        },
        Light::Point { x, y, z, r, g, b } => {
            let light_position = Vec3 { x: *x, y: *y, z: *z };
            let light_vector = light_position.sub(&rec.point);
            let light_direction = light_vector.normalize();
            let light_ray = Ray::new(rec.point, light_direction);
            let h = wi.origin.sub(&rec.point).add(&light_vector).normalize();
            let dist = light_vector.length();
            let shadow = world_hit(world, &light_ray, T_EPSILON, dist);
            if shadow.is_none() {
                let atten = fixed::add(
                    fixed::add(world.attenuation.0, fixed::mul(world.attenuation.1, dist)),
                    fixed::mul(world.attenuation.2, light_vector.length_squared()),
                );
                let diffuse_term = Vec3 { x: *r, y: *g, z: *b }.mul(&rec.material.diffuse).scale(
                    fixed::max(0, dot(rec.normal, light_direction)),
                );
                let specular_term = rec.material.specular.scale(
                    fixed::pow(fixed::max(0, dot(rec.normal, h)), rec.material.shininess),
                );
                Some(diffuse_term.add(&specular_term).div(atten))
            } else {
                None
            }
        },
    }
}

/// The outgoing radiance along a ray, up to the world's depth limit.
pub fn ray_color(ray: &Ray, world: &World, depth: i32) -> (c: Color)
    requires
        spec_world_wf(*world),
    ensures
        c == spec_ray_color(*world, *ray, depth as int),
    decreases world.max_depth - depth, 1int,
{
    if depth >= world.max_depth {
        return Vec3 { x: 0, y: 0, z: 0 };
    }
    match world_hit(world, ray, T_EPSILON, MAX_FX) {
        Some(rec) => intensity(ray, &rec, world, depth),
        None => Vec3 { x: 0, y: 0, z: 0 },
    }
}

/// The shaded color at a hit point: ambient, emission, each light behind its
/// shadow ray, and the recursive mirror term.
pub fn intensity(wi: &Ray, rec: &Hit, world: &World, depth: i32) -> (c: Color)
    requires
        spec_world_wf(*world),
        depth < world.max_depth,
    ensures
        c == spec_intensity(*world, *wi, *rec, depth as int),
    decreases world.max_depth - depth, 0int,
{
    let mut color = world.ambient.add(&rec.material.emission);
    let n = world.lights.len();
    let mut i: usize = 0;
    while i < n
        invariant
            i <= n,
            n == world.lights@.len(),
            spec_world_wf(*world),
            color == spec_light_fold(*world, *wi, *rec, i as int),
        decreases n - i,
    {
        let term = light_contrib(world, wi, rec, &world.lights[i]);
        if let Some(c) = term {
            color = color.add(&c);
        }
        i = i + 1;
    }
    let reflected_ray = Ray::new(rec.point, reflect(wi.direction, rec.normal));
    let rc = ray_color(&reflected_ray, world, depth + 1);
    color.add(&rec.material.specular.mul(&rc))
}

/// A channel value taken to a byte: clamped into [0, 1], scaled by 255.999,
/// rounded down.
pub open spec fn spec_byte(c: int) -> u8 {
    ((spec_clamp01(c) * 255999) / 65536000) as u8
}

/// The three bytes of one pixel, each channel first divided by the sample
/// count.
#[verifier::opaque]
pub open spec fn spec_color_bytes(c: Color, samples: int) -> Seq<u8> {
    let scale = spec_div(ONE as int, sat(samples * SCALE));
    seq![
        spec_byte(spec_mul(scale, c.x as int)),
        spec_byte(spec_mul(scale, c.y as int)),
        spec_byte(spec_mul(scale, c.z as int)),
    ]
}

/// A channel value taken to a byte.
fn to_byte(c: i64) -> (r: u8)
    ensures
        r == spec_byte(c as int),
{
    let cc = fixed::clamp01(c);
    let p: u64 = (cc as u64) * 255999;
    let q: u64 = p / 65536000;
    proof {
        vstd::arithmetic::div_mod::lemma_div_is_ordered(p as int, 16777150464, 65536000);
    }
    q as u8
}

/// Append one pixel's three bytes, channels averaged over the sample count
/// and clamped into [0, 1].
pub fn write_color(data: &mut Vec<u8>, pixel_color: Color, samples_per_pixel: u32)
    ensures
        final(data)@ == old(data)@ + spec_color_bytes(pixel_color, samples_per_pixel as int),
{
    proof {
        reveal(spec_color_bytes);
    }
    let scale = fixed::div(ONE, fixed::to_fx(samples_per_pixel as i64));
    let r = fixed::mul(scale, pixel_color.x);
    let g = fixed::mul(scale, pixel_color.y);
    let b = fixed::mul(scale, pixel_color.z);
    data.push(to_byte(r));
    data.push(to_byte(g));
    data.push(to_byte(b));
    proof {
        assert(data@ =~= old(data)@ + spec_color_bytes(pixel_color, samples_per_pixel as int));
    }
}

/// The image width in whole pixels; negative widths count as zero.
pub open spec fn spec_width_px(c: Camera) -> int {
    if c.width <= 0 {
        0
    } else if c.width as int / SCALE as int > u32::MAX {
        u32::MAX as int
    } else {
        c.width as int / SCALE as int
    }
}

/// The image height in whole pixels; negative heights count as zero.
pub open spec fn spec_height_px(c: Camera) -> int {
    if c.height <= 0 {
        0
    } else if c.height as int / SCALE as int > u32::MAX {
        u32::MAX as int
    } else {
        c.height as int / SCALE as int
    }
}

fn width_px(c: &Camera) -> (r: u32)
    ensures
        r as int == spec_width_px(*c),
{
    if c.width <= 0 {
        0
    } else {
        let q: u64 = (c.width as u64) / 65536;
        if q > 0xFFFF_FFFF {
            u32::MAX
        } else {
            q as u32
        }
    }
}

fn height_px(c: &Camera) -> (r: u32)
    ensures
        r as int == spec_height_px(*c),
{
    if c.height <= 0 {
        0
    } else {
        let q: u64 = (c.height as u64) / 65536;
        if q > 0xFFFF_FFFF {
            u32::MAX
        } else {
            q as u32
        }
    }
}

/// The color of the pixel at `(row, col)`: the primary ray through that
/// pixel, shaded from depth zero.
#[verifier::opaque]
pub open spec fn spec_pixel(w: World, row: int, col: int) -> Color {
    spec_ray_color(w, spec_get_ray(w.camera, sat(row * SCALE), sat(col * SCALE)), 0)
}

/// Compute one pixel: camera ray, then the full shading recursion.
pub fn pixel_color(world: &World, row: u32, col: u32) -> (c: Color)
    requires
        spec_world_wf(*world),
    ensures
        c == spec_pixel(*world, row as int, col as int),
{
    proof {
        reveal(spec_pixel);
    }
    let r = world.camera.get_ray(fixed::to_fx(row as i64), fixed::to_fx(col as i64));
    ray_color(&r, world, 0)
}

/// Relies on rayon's indexed parallel iterator: `into_par_iter().map(..)
/// .collect()` over a range keeps index order, so element `j` is the
/// verified color of column `j`. Each column is an independent pure
/// computation over the immutable world.
#[verifier::external_body]
fn render_scanline(world: &World, row: u32, width: u32) -> (v: Vec<Color>)
    requires
        spec_world_wf(*world),
    ensures
        v@.len() == width as int,
        forall|j: int| 0 <= j < width as int ==> v@[j] == spec_pixel(*world, row as int, j),
{
    (0..width).into_par_iter().map(|j| pixel_color(world, row, j)).collect()
}

/// The bytes of one scanline's first `cols` pixels, in column order.
pub open spec fn spec_row_bytes(w: World, row: int, cols: int) -> Seq<u8>
    decreases cols,
{
    if cols <= 0 {
        Seq::empty()
    } else {
        spec_row_bytes(w, row, cols - 1) + spec_color_bytes(spec_pixel(w, row, cols - 1), 1)
    }
}

/// The bytes of the image's first `rows` scanlines, top row first.
pub open spec fn spec_image_bytes(w: World, width: int, rows: int) -> Seq<u8>
    decreases rows,
{
    if rows <= 0 {
        Seq::empty()
    } else {
        spec_image_bytes(w, width, rows - 1) + spec_row_bytes(w, rows - 1, width)
    }
}

/// One scanline holds three bytes per pixel.
pub proof fn lemma_row_bytes_len(w: World, row: int, cols: int)
    requires
        cols >= 0,
    ensures
        spec_row_bytes(w, row, cols).len() == 3 * cols,
    decreases cols,
{
    reveal(spec_color_bytes);
    if cols > 0 {
        lemma_row_bytes_len(w, row, cols - 1);
    }
}

/// The image holds three bytes per pixel.
pub proof fn lemma_image_bytes_len(w: World, width: int, rows: int)
    requires
        width >= 0,
        rows >= 0,
    ensures
        spec_image_bytes(w, width, rows).len() == 3 * width * rows,
    decreases rows,
{
    if rows > 0 {
        lemma_image_bytes_len(w, width, rows - 1);
        lemma_row_bytes_len(w, rows - 1, width);
        assert(3 * width * (rows - 1) + 3 * width == 3 * width * rows) by (nonlinear_arith);
    } else {
        assert(3 * width * rows == 0) by (nonlinear_arith)
            requires rows == 0,
        ;
    }
}

/// Byte number `3 * (row * width + col) + ch` of the image is channel `ch`
/// of pixel `(row, col)`.
pub proof fn lemma_image_byte_at(w: World, width: int, rows: int, row: int, col: int, ch: int)
    requires
        0 <= row < rows,
        0 <= col < width,
        0 <= ch < 3,
    ensures
        spec_image_bytes(w, width, rows).len() == 3 * width * rows,
        spec_image_bytes(w, width, rows)[3 * (row * width + col) + ch] == spec_color_bytes(
            spec_pixel(w, row, col),
            1,
        )[ch],
    decreases rows, width,
{
    lemma_image_bytes_len(w, width, rows);
    lemma_image_bytes_len(w, width, rows - 1);
    lemma_row_bytes_len(w, rows - 1, width);
    if row < rows - 1 {
        lemma_image_byte_at(w, width, rows - 1, row, col, ch);
        assert(0 <= 3 * (row * width + col) + ch < 3 * width * (rows - 1)) by (nonlinear_arith)
            requires 0 <= row < rows - 1 && 0 <= col < width && 0 <= ch < 3,
        ;
    } else {
        lemma_row_byte_at(w, rows - 1, width, col, ch);
        assert(3 * (row * width + col) + ch == 3 * width * (rows - 1) + (3 * col + ch))
            by (nonlinear_arith)
            requires row == rows - 1,
        ;
    }
}

/// Byte number `3 * col + ch` of a scanline is channel `ch` of pixel
/// `(row, col)`.
pub proof fn lemma_row_byte_at(w: World, row: int, cols: int, col: int, ch: int)
    requires
        0 <= col < cols,
        0 <= ch < 3,
    ensures
        spec_row_bytes(w, row, cols).len() == 3 * cols,
        spec_row_bytes(w, row, cols)[3 * col + ch] == spec_color_bytes(
            spec_pixel(w, row, col),
            1,
        )[ch],
    decreases cols,
{
    reveal(spec_color_bytes);
    lemma_row_bytes_len(w, row, cols);
    lemma_row_bytes_len(w, row, cols - 1);
    if col < cols - 1 {
        lemma_row_byte_at(w, row, cols - 1, col, ch);
    }
}

/// Render the whole image into a flat byte buffer: row-major, top row first,
/// three bytes per pixel. Rows run in order; the columns of each scanline
/// are computed in parallel and written back in column order.
pub fn render(environment: &World) -> (data: Vec<u8>)
    requires
        spec_world_wf(*environment),
    ensures
        data@ == spec_image_bytes(
            *environment,
            spec_width_px(environment.camera),
            spec_height_px(environment.camera),
        ),
        data@.len() == 3 * spec_width_px(environment.camera) * spec_height_px(
            environment.camera,
        ),
{
    let w = width_px(&environment.camera);
    let h = height_px(&environment.camera);
    let mut data: Vec<u8> = Vec::new();
    let mut j: u32 = 0;
    proof {
        assert(data@ =~= spec_image_bytes(*environment, w as int, 0));
    }
    while j < h
        invariant
            j <= h,
            spec_world_wf(*environment),
            w as int == spec_width_px(environment.camera),
            h as int == spec_height_px(environment.camera),
            data@ == spec_image_bytes(*environment, w as int, j as int),
        decreases h - j,
    {
        let scanline = render_scanline(environment, j, w);
        let mut i: u32 = 0;
        let ghost row_start = data@;
        proof {
            assert(data@ =~= row_start + spec_row_bytes(*environment, j as int, 0));
        }
        while i < w
            invariant
                i <= w,
                spec_world_wf(*environment),
                scanline@.len() == w as int,
                forall|c: int|
                    0 <= c < w as int ==> scanline@[c] == spec_pixel(*environment, j as int, c),
                data@ == row_start + spec_row_bytes(*environment, j as int, i as int),
            decreases w - i,
        {
            let pixel = scanline[i as usize];
            write_color(&mut data, pixel, 1);
            proof {
                assert(data@ =~= row_start + spec_row_bytes(
                    *environment,
                    j as int,
                    i as int + 1,
                ));
            }
            i = i + 1;
        }
        j = j + 1;
    }
    proof {
        lemma_image_bytes_len(*environment, w as int, h as int);
        assert(3 * (w as int) * (h as int) == 3 * spec_width_px(environment.camera)
            * spec_height_px(environment.camera));
    }
    data
}

} // verus!
