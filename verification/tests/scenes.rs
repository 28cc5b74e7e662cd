//! Scenario tests: boxes, shape intersections, the hierarchy against the
//! linear scan, and whole renders.

use std::cmp::Ordering;

use raytrace::aabb::{surrounding_box, Aabb};
use raytrace::render::write_color;
use raytrace::camera::Camera;
use raytrace::fixed::{MAX_FX, ONE};
use raytrace::geom::{point3, reflect, vec3, Axis, Ray, Vec3};
use raytrace::light::Light;
use raytrace::mat4::Mat4;
use raytrace::material::Material;
use raytrace::object::{Objects, Shape};
use raytrace::render::{ray_color, render, world_hit, T_EPSILON};
use raytrace::scene::World;
use raytrace::sphere::Sphere;
use raytrace::triangle::Triangle;

fn red_matte() -> Material {
    Material::new(vec3(ONE, 0, 0), vec3(0, 0, 0), 0, vec3(0, 0, 0))
}

fn sphere_at(x: i64, y: i64, z: i64, r: i64, m: Material) -> Shape {
    Shape::Sphere(Sphere::new(point3(x, y, z), r, m, Mat4::identity(), Mat4::identity()))
}

#[test]
fn union_contains_both_boxes() {
    let a = Aabb::new(vec3(-ONE, 0, 0), vec3(ONE, ONE, ONE));
    let b = Aabb::new(vec3(0, -2 * ONE, ONE), vec3(3 * ONE, 0, 4 * ONE));
    let u = surrounding_box(a, b);
    assert_eq!(u.box_min, vec3(-ONE, -2 * ONE, 0));
    assert_eq!(u.box_max, vec3(3 * ONE, ONE, 4 * ONE));
    for axis in 0..3usize {
        assert!(u.box_min.comp(axis) <= a.box_min.comp(axis));
        assert!(u.box_min.comp(axis) <= b.box_min.comp(axis));
        assert!(u.box_max.comp(axis) >= a.box_max.comp(axis));
        assert!(u.box_max.comp(axis) >= b.box_max.comp(axis));
    }
}

#[test]
fn aabb_hit_through_center() {
    let b = Aabb::new(vec3(-ONE, -ONE, -ONE), vec3(ONE, ONE, ONE));
    let r = Ray::new(point3(0, 0, 4 * ONE), vec3(0, 0, -ONE));
    assert!(b.hit(&r, 0, MAX_FX));
    assert!(b.hit(&r, 0, 100 * ONE));
}

#[test]
fn aabb_miss_parallel_offset() {
    let b = Aabb::new(vec3(-ONE, -ONE, -ONE), vec3(ONE, ONE, ONE));
    // Parallel to the z axis but offset well outside the box on x.
    let r = Ray::new(point3(5 * ONE, 0, 4 * ONE), vec3(0, 0, -ONE));
    assert!(!b.hit(&r, 0, MAX_FX));
    // Heading away from the box entirely.
    let away = Ray::new(point3(0, 0, 4 * ONE), vec3(0, 0, ONE));
    assert!(!b.hit(&away, 0, MAX_FX));
}

#[test]
fn aabb_compare_orders_by_axis_minimum() {
    let a = Aabb::new(vec3(-ONE, 0, 0), vec3(0, 0, 0));
    let b = Aabb::new(vec3(0, -ONE, 0), vec3(0, 0, 0));
    assert_eq!(a.compare(&b, 0), Ordering::Less);
    assert_eq!(a.compare(&b, 1), Ordering::Greater);
    assert_eq!(a.compare(&b, 2), Ordering::Equal);
}

#[test]
fn axis_order_rotates() {
    assert_eq!(Axis::X.order(), (Axis::Y, Axis::Z, Axis::X));
    assert_eq!(Axis::Y.order(), (Axis::X, Axis::Z, Axis::Y));
    assert_eq!(Axis::Z.order(), (Axis::X, Axis::Y, Axis::Z));
}

#[test]
fn ray_at_and_reflect() {
    let r = Ray::new(point3(ONE, 0, 0), vec3(0, 2 * ONE, 0));
    assert_eq!(r.at(3 * ONE), point3(ONE, 6 * ONE, 0));
    // v bouncing off the plane with normal n: v - 2 (v . n) n.
    let v = vec3(ONE, -ONE, 0);
    let n = vec3(0, ONE, 0);
    assert_eq!(reflect(v, n), vec3(ONE, ONE, 0));
}

#[test]
fn sphere_entry_at_distance_minus_radius() {
    // A ray from distance 4 straight at a unit sphere enters at t = 3.
    let s = Sphere::new(point3(0, 0, 0), ONE, red_matte(), Mat4::identity(), Mat4::identity());
    let r = Ray::new(point3(0, 0, 4 * ONE), vec3(0, 0, -ONE));
    let hit = s.hit(&r, 0, MAX_FX).expect("ray through the center must hit");
    assert_eq!(hit.t, 3 * ONE);
    assert_eq!(hit.point, point3(0, 0, ONE));
    assert_eq!(hit.normal, vec3(0, 0, ONE));
}

#[test]
fn sphere_miss_when_interval_excludes() {
    let s = Sphere::new(point3(0, 0, 0), ONE, red_matte(), Mat4::identity(), Mat4::identity());
    let r = Ray::new(point3(0, 0, 4 * ONE), vec3(0, 0, -ONE));
    // Both roots (3 and 5) lie outside [0, 2].
    assert!(s.hit(&r, 0, 2 * ONE).is_none());
    // The far root is taken when the near one is below the interval.
    let inside = s.hit(&r, 4 * ONE, MAX_FX).expect("far root in range");
    assert_eq!(inside.t, 5 * ONE);
}

#[test]
fn triangle_barycentric_hit() {
    let quarter = ONE / 4;
    let t = Triangle::new(
        point3(0, 0, 0),
        point3(ONE, 0, 0),
        point3(0, ONE, 0),
        red_matte(),
        Mat4::identity(),
        Mat4::identity(),
    );
    let r = Ray::new(point3(quarter, quarter, ONE), vec3(0, 0, -ONE));
    let hit = t.hit(&r, 0, MAX_FX).expect("interior point must hit");
    assert_eq!(hit.t, ONE);
    // The hit point is the barycentric combination of the vertices.
    assert_eq!(hit.point, point3(quarter, quarter, 0));
    let miss = Ray::new(point3(ONE, ONE, ONE), vec3(0, 0, -ONE));
    assert!(t.hit(&miss, 0, MAX_FX).is_none());
}

#[test]
fn bvh_matches_linear_scan() {
    let m = red_matte();
    let objects = Objects(vec![
        sphere_at(0, 0, -4 * ONE, ONE, m),
        sphere_at(3 * ONE, 0, -6 * ONE, ONE, m),
        sphere_at(-3 * ONE, ONE, -8 * ONE, 2 * ONE, m),
        sphere_at(0, -2 * ONE, -5 * ONE, ONE, m),
        sphere_at(ONE, ONE, -3 * ONE, ONE / 2, m),
    ]);
    let linear = objects.clone();
    let camera = Camera::new(
        8 * ONE,
        8 * ONE,
        point3(0, 0, ONE),
        point3(0, 0, 0),
        vec3(0, ONE, 0),
        ONE,
    );
    let world = World::new(camera, objects, Vec::new(), vec3(0, 0, 0), (ONE, 0, 0), 5);
    let dirs = [
        vec3(0, 0, -ONE),
        vec3(ONE / 2, 0, -ONE),
        vec3(-ONE / 2, ONE / 4, -ONE),
        vec3(0, -ONE / 4, -ONE),
        vec3(ONE, ONE, -ONE),
    ];
    for d in dirs {
        let r = Ray::new(point3(0, 0, ONE), d.normalize());
        let accelerated = world_hit(&world, &r, T_EPSILON, MAX_FX).map(|h| h.t);
        let scanned = linear.hit(&r, T_EPSILON, MAX_FX).map(|h| h.t);
        assert_eq!(accelerated, scanned);
    }
    // No primitive is lost in the tree: a ray aimed straight at each
    // sphere's center finds a hit through the hierarchy.
    let centers = [
        point3(0, 0, -4 * ONE),
        point3(3 * ONE, 0, -6 * ONE),
        point3(-3 * ONE, ONE, -8 * ONE),
        point3(0, -2 * ONE, -5 * ONE),
        point3(ONE, ONE, -3 * ONE),
    ];
    for c in centers {
        let eye = point3(0, 0, 12 * ONE);
        let r = Ray::new(eye, c.sub(&eye).normalize());
        assert!(world_hit(&world, &r, T_EPSILON, MAX_FX).is_some());
    }
}

#[test]
fn depth_limit_returns_black() {
    let mirror = Material::new(vec3(0, 0, 0), vec3(ONE, ONE, ONE), 1, vec3(0, 0, 0));
    let objects = Objects(vec![
        sphere_at(0, 0, -4 * ONE, ONE, mirror),
        sphere_at(0, 0, 4 * ONE, ONE, mirror),
    ]);
    let camera = Camera::new(
        4 * ONE,
        4 * ONE,
        point3(0, 0, 0),
        point3(0, 0, -ONE),
        vec3(0, ONE, 0),
        ONE,
    );
    // Two facing mirrors: the recursion must still cut off at max_depth.
    let world = World::new(camera, objects, Vec::new(), vec3(0, 0, 0), (ONE, 0, 0), 8);
    let r = Ray::new(point3(0, 0, 0), vec3(0, 0, -ONE));
    // At the depth limit the answer is black immediately.
    assert_eq!(ray_color(&r, &world, 8), vec3(0, 0, 0));
    assert_eq!(ray_color(&r, &world, 99), vec3(0, 0, 0));
    // Below the limit it terminates (no lights, so everything stays black).
    assert_eq!(ray_color(&r, &world, 0), vec3(0, 0, 0));
}

fn pixel(data: &[u8], width: usize, row: usize, col: usize) -> (u8, u8, u8) {
    let base = 3 * (row * width + col);
    (data[base], data[base + 1], data[base + 2])
}

#[test]
fn render_red_sphere_under_directional_light() {
    // One unit sphere at the origin, diffuse red, a directional light
    // straight down, black ambient, camera on the +z axis looking at the
    // origin.
    let objects = Objects(vec![sphere_at(0, 0, 0, ONE, red_matte())]);
    let camera = Camera::new(
        16 * ONE,
        16 * ONE,
        point3(0, 0, 4 * ONE),
        point3(0, 0, 0),
        vec3(0, ONE, 0),
        ONE,
    );
    let lights = vec![Light::Directional { x: 0, y: -ONE, z: 0, r: ONE, g: ONE, b: ONE }];
    let world = World::new(camera, objects, lights, vec3(0, 0, 0), (ONE, 0, 0), 5);
    let data = render(&world);
    assert_eq!(data.len(), 3 * 16 * 16);

    // The topmost row of the sphere's silhouette is red-dominant; every
    // pixel outside the silhouette is exactly black.
    let mut top_lit: Option<(u8, u8, u8)> = None;
    for row in 0..16 {
        for col in 0..16 {
            let p = pixel(&data, 16, row, col);
            if p != (0, 0, 0) && top_lit.is_none() {
                top_lit = Some(p);
            }
        }
    }
    let (r, g, b) = top_lit.expect("the sphere must be visible and lit");
    assert!(r > 0);
    assert_eq!(g, 0);
    assert_eq!(b, 0);
    // The corners see no geometry.
    assert_eq!(pixel(&data, 16, 0, 0), (0, 0, 0));
    assert_eq!(pixel(&data, 16, 0, 15), (0, 0, 0));
    assert_eq!(pixel(&data, 16, 15, 0), (0, 0, 0));
    assert_eq!(pixel(&data, 16, 15, 15), (0, 0, 0));
}

#[test]
fn render_point_light_shadowed_by_second_sphere() {
    // A point light to the upper right of the first sphere's front face;
    // with no occluder the center pixel is lit, with a second sphere in the
    // way it receives nothing from that light.
    let camera = Camera::new(
        9 * ONE,
        9 * ONE,
        point3(0, 0, 4 * ONE),
        point3(0, 0, 0),
        vec3(0, ONE, 0),
        ONE,
    );
    let lights = vec![Light::Point { x: 2 * ONE, y: 0, z: 3 * ONE, r: ONE, g: ONE, b: ONE }];

    let open_world = World::new(
        camera,
        Objects(vec![sphere_at(0, 0, 0, ONE, red_matte())]),
        lights.clone(),
        vec3(0, 0, 0),
        (ONE, 0, 0),
        5,
    );
    let lit = render(&open_world);
    assert!(pixel(&lit, 9, 4, 4) != (0, 0, 0));

    let blocked_world = World::new(
        camera,
        Objects(vec![
            sphere_at(0, 0, 0, ONE, red_matte()),
            sphere_at(ONE, 0, 2 * ONE, ONE / 2, red_matte()),
        ]),
        lights,
        vec3(0, 0, 0),
        (ONE, 0, 0),
        5,
    );
    let shadowed = render(&blocked_world);
    assert_eq!(pixel(&shadowed, 9, 4, 4), (0, 0, 0));
}

#[test]
fn bytes_clamp_and_scale() {
    let mut data: Vec<u8> = Vec::new();
    write_color(&mut data, vec3(ONE, 0, ONE / 2), 1);
    assert_eq!(data, vec![255, 0, 127]);
    // Out-of-range channels clamp into [0, 1] before scaling.
    write_color(&mut data, vec3(10 * ONE, -ONE, ONE), 1);
    assert_eq!(&data[3..], &[255, 0, 255]);
}

#[test]
fn random_vectors_stay_in_range() {
    let mut rng = raytrace::rng::thread_rng();
    for _ in 0..100 {
        let v = raytrace::rng::rand_in_cube(&mut rng);
        assert!(-ONE <= v.x && v.x < ONE);
        assert!(-ONE <= v.y && v.y < ONE);
        assert!(-ONE <= v.z && v.z < ONE);
        let c = raytrace::rng::rand_color(&mut rng, 0, ONE);
        assert!(0 <= c.x && c.x < ONE);
        let p = raytrace::rng::rand_point(&mut rng, -2 * ONE, 2 * ONE);
        assert!(-2 * ONE <= p.y && p.y < 2 * ONE);
    }
}

#[test]
fn camera_center_pixel_ray() {
    // A symmetric camera: the center pixel's ray leaves the eye straight
    // along the viewing direction.
    let camera = Camera::new(
        9 * ONE,
        9 * ONE,
        point3(0, 0, 4 * ONE),
        point3(0, 0, 0),
        vec3(0, ONE, 0),
        ONE,
    );
    assert_eq!(camera.u, vec3(ONE, 0, 0));
    assert_eq!(camera.v, vec3(0, ONE, 0));
    assert_eq!(camera.w, vec3(0, 0, ONE));
    let r = camera.get_ray(4 * ONE, 4 * ONE);
    assert_eq!(r.origin, point3(0, 0, 4 * ONE));
    assert_eq!(r.direction, vec3(0, 0, -ONE));
}

#[test]
fn pow_squares_exactly() {
    assert_eq!(raytrace::fixed::pow(ONE / 2, 0), ONE);
    assert_eq!(raytrace::fixed::pow(ONE / 2, 1), ONE / 2);
    assert_eq!(raytrace::fixed::pow(ONE / 2, 2), ONE / 4);
    assert_eq!(raytrace::fixed::pow(2 * ONE, 3), 8 * ONE);
}

#[test]
fn refract_straight_through() {
    // With a matched refraction ratio, a ray normal to the surface passes
    // straight through.
    let v = vec3(0, 0, -ONE);
    let n = vec3(0, 0, ONE);
    assert_eq!(raytrace::geom::refract(v, n, ONE), vec3(0, 0, -ONE));
}

#[test]
fn onb_local_in_standard_basis() {
    let onb = raytrace::geom::Onb::new(vec3(ONE, 0, 0), vec3(0, ONE, 0), vec3(0, 0, ONE));
    let a = vec3(ONE, 2 * ONE, 3 * ONE);
    assert_eq!(onb.local(a), a);
    let grown = raytrace::geom::Onb::build_from_w(vec3(0, 0, 5 * ONE));
    assert_eq!(grown.w, vec3(0, 0, ONE));
    assert_eq!(grown.v, vec3(0, ONE, 0));
    assert_eq!(grown.u, vec3(-ONE, 0, 0));
}
