use ray_tracer::color::Color;
use ray_tracer::intersection::Intersection;
use ray_tracer::light::Light;
use ray_tracer::material::Material;
use ray_tracer::object::Object;
use ray_tracer::object::ObjectType;
use ray_tracer::ray::Ray;
use ray_tracer::ray_tracer::render;
use ray_tracer::scene::Scene;
use ray_tracer::sphere::Sphere;
use ray_tracer::vector::Vector;

const FX: i128 = 65536;

fn white() -> Color {
    Color { r: FX, g: FX, b: FX }
}

fn matte(c: Color) -> Material {
    Material { diffuse: c, reflection: 0, power: 60 }
}

fn sphere_obj(x: i128, y: i128, z: i128, radius: i128, m: Material) -> Object {
    Object {
        position: Vector { x, y, z },
        material: m,
        object_type: ObjectType::Sphere,
        radius,
        normal: Vector::default(),
    }
}

fn plane_obj(p: Vector, n: Vector, m: Material) -> Object {
    Object { position: p, material: m, object_type: ObjectType::Plane, radius: 0, normal: n }
}

#[test]
fn unit_vector_normalizes_to_itself() {
    // |v| is exactly 1.0, so normalisation must be the identity and the
    // squared norm of the result exactly 1.0 again.
    let v = Vector { x: 0, y: 0, z: FX };
    let n = v.normalized();
    assert_eq!(n.x, 0);
    assert_eq!(n.y, 0);
    assert_eq!(n.z, FX);
    assert_eq!(n.dot(&n), FX);
}

#[test]
fn axis_aligned_unit_vectors_normalize_exactly() {
    let v = Vector { x: -FX, y: 0, z: 0 };
    let n = v.normalized();
    assert_eq!((n.x, n.y, n.z), (-FX, 0, 0));
    assert_eq!(n.dot(&n), FX);
}

#[test]
fn normalizing_a_three_four_five_vector_truncates_toward_zero() {
    // |(3, 4, 0)| is exactly 5, so each component divides by 5.0 with the
    // stated truncation: 3/5 and 4/5 in fixed point.
    let v = Vector { x: 3 * FX, y: 4 * FX, z: 0 };
    let n = v.normalized();
    assert_eq!(n.x, 3 * FX / 5);
    assert_eq!(n.y, 4 * FX / 5);
    assert_eq!(n.z, 0);
}

#[test]
fn dot_product_exact_value() {
    let a = Vector { x: 2 * FX, y: 3 * FX, z: -FX };
    let b = Vector { x: 5 * FX, y: FX, z: 4 * FX };
    // 2*5 + 3*1 - 1*4 = 9
    assert_eq!(a.dot(&b), 9 * FX);
}

#[test]
fn vector_add_subtract_multiply() {
    let a = Vector { x: FX, y: 2 * FX, z: 3 * FX };
    let b = Vector { x: 4 * FX, y: -FX, z: FX / 2 };
    let s = a.add(&b);
    assert_eq!((s.x, s.y, s.z), (5 * FX, FX, 3 * FX + FX / 2));
    let d = a.subtract(&b);
    assert_eq!((d.x, d.y, d.z), (-3 * FX, 3 * FX, 2 * FX + FX / 2));
    let m = a.multiply(2 * FX);
    assert_eq!((m.x, m.y, m.z), (2 * FX, 4 * FX, 6 * FX));
}

#[test]
fn ray_at_sphere_center_hits_at_distance_minus_radius() {
    // A ray aimed straight at the centre from 100 units away, radius 50:
    // the hit parameter is exactly 50 and the normal points back along
    // the ray.
    let s = Sphere {
        position: Vector { x: 0, y: 0, z: 100 * FX },
        radius: 50 * FX,
        material: matte(white()),
    };
    let ray = Ray {
        position: Vector { x: 0, y: 0, z: 0 },
        direction: Vector { x: 0, y: 0, z: FX },
    };
    let i: Intersection = s.intersection(&ray, 20000 * FX);
    assert!(i.success);
    assert_eq!(i.t, 50 * FX);
    assert_eq!((i.position.x, i.position.y, i.position.z), (0, 0, 50 * FX));
    assert_eq!((i.normal.x, i.normal.y, i.normal.z), (0, 0, -FX));
}

#[test]
fn ray_missing_sphere_reports_no_hit() {
    let s = Sphere {
        position: Vector { x: 200 * FX, y: 0, z: 100 * FX },
        radius: 50 * FX,
        material: matte(white()),
    };
    let ray = Ray {
        position: Vector { x: 0, y: 0, z: 0 },
        direction: Vector { x: 0, y: 0, z: FX },
    };
    let i = s.intersection(&ray, 20000 * FX);
    assert!(!i.success);
    assert_eq!(i.t, 20000 * FX);
}

#[test]
fn parallel_ray_never_hits_plane() {
    // dot(direction, normal) == 0: the ray runs parallel to the plane.
    let p = plane_obj(
        Vector { x: 0, y: -200 * FX, z: 0 },
        Vector { x: 0, y: FX, z: 0 },
        matte(white()),
    );
    let ray = Ray {
        position: Vector { x: 0, y: 0, z: 0 },
        direction: Vector { x: FX, y: 0, z: 0 },
    };
    let i = p.intersection(&ray, 20000 * FX);
    assert!(!i.success);
    assert_eq!(i.t, 20000 * FX);
}

#[test]
fn plane_hit_parameter_is_linear_solve() {
    // Looking straight down at a floor 200 below: t is exactly 200.
    let p = plane_obj(
        Vector { x: 0, y: -200 * FX, z: 0 },
        Vector { x: 0, y: FX, z: 0 },
        matte(white()),
    );
    let ray = Ray {
        position: Vector { x: 0, y: 0, z: 0 },
        direction: Vector { x: 0, y: -FX, z: 0 },
    };
    let i = p.intersection(&ray, 20000 * FX);
    assert!(i.success);
    assert_eq!(i.t, 200 * FX);
    assert_eq!((i.normal.x, i.normal.y, i.normal.z), (0, FX, 0));
    assert_eq!((i.position.x, i.position.y, i.position.z), (0, -200 * FX, 0));
}

fn one_sphere_scene(objects: Vec<Object>) -> Scene {
    Scene {
        objects,
        lights: vec![Light {
            position: Vector { x: 0, y: 500 * FX, z: 0 },
            color: white(),
        }],
        eye: Vector { x: 0, y: 0, z: 0 },
        plane: 10 * FX,
    }
}

fn center_pixel(img: &[u8], w: usize, x: usize, y: usize) -> (u8, u8, u8) {
    let i = 3 * (y * w + x);
    (img[i], img[i + 1], img[i + 2])
}

#[test]
fn nearest_hit_wins_regardless_of_list_order() {
    // Two overlapping spheres along the axis; the returned surface is the
    // nearer one's whichever order the list gives them.
    let near = sphere_obj(0, 0, 80 * FX, 50 * FX, matte(Color { r: FX, g: 0, b: 0 }));
    let far = sphere_obj(0, 0, 100 * FX, 50 * FX, matte(Color { r: 0, g: 0, b: FX }));
    let s1 = one_sphere_scene(vec![far, near]);
    let s2 = one_sphere_scene(vec![near, far]);
    let img1 = render(&s1, 2, 2);
    let img2 = render(&s2, 2, 2);
    assert_eq!(img1, img2);
    // The nearer sphere is red: the centre-ish pixel carries no blue.
    let (r, _g, b) = center_pixel(&img1, 2, 1, 1);
    assert!(r > 0);
    assert_eq!(b, 0);
}

#[test]
fn tied_hits_keep_the_first_listed_object() {
    // Two spheres at the same position: the comparison is strict, so the
    // first of the tied pair supplies the surface.
    let red = sphere_obj(0, 0, 100 * FX, 50 * FX, matte(Color { r: FX, g: 0, b: 0 }));
    let blue = sphere_obj(0, 0, 100 * FX, 50 * FX, matte(Color { r: 0, g: 0, b: FX }));
    let img_rb = render(&one_sphere_scene(vec![red, blue]), 2, 2);
    let img_br = render(&one_sphere_scene(vec![blue, red]), 2, 2);
    let (r1, _, b1) = center_pixel(&img_rb, 2, 1, 1);
    let (r2, _, b2) = center_pixel(&img_br, 2, 1, 1);
    assert!(r1 > 0 && b1 == 0);
    assert!(b2 > 0 && r2 == 0);
}

#[test]
fn blocked_light_contributes_nothing() {
    let target = sphere_obj(0, 0, 100 * FX, 50 * FX, matte(white()));
    // A blocker sitting between the hit point and the overhead light.
    let blocker = sphere_obj(0, 250 * FX, 30 * FX, 60 * FX, matte(white()));
    let open = one_sphere_scene(vec![target]);
    let shadowed = one_sphere_scene(vec![target, blocker]);
    let lit = center_pixel(&render(&open, 2, 2), 2, 1, 1);
    let dark = center_pixel(&render(&shadowed, 2, 2), 2, 1, 1);
    assert!(lit.0 > 0);
    // The only light is occluded: the hit accumulates nothing at all.
    assert_eq!(dark, (0, 0, 0));
}

#[test]
fn facing_mirrors_terminate() {
    // Two fully reflective planes facing each other: the bounce loop must
    // still stop at the depth cap.
    let mirror = Material { diffuse: white(), reflection: FX, power: 60 };
    let bottom = plane_obj(
        Vector { x: 0, y: -100 * FX, z: 0 },
        Vector { x: 0, y: FX, z: 0 },
        mirror,
    );
    let top = plane_obj(
        Vector { x: 0, y: 100 * FX, z: 0 },
        Vector { x: 0, y: -FX, z: 0 },
        mirror,
    );
    let scene = Scene {
        objects: vec![bottom, top],
        lights: vec![Light {
            position: Vector { x: 0, y: 0, z: -500 * FX },
            color: white(),
        }],
        eye: Vector { x: 0, y: 0, z: 0 },
        plane: 10 * FX,
    };
    let img = render(&scene, 4, 4);
    assert_eq!(img.len(), 48);
}

#[test]
fn silhouette_center_brighter_than_black_corners() {
    // A single sphere of radius 50 on the camera axis, one overhead
    // light, non-reflective: the centre pixel is lit, the corners see
    // nothing and are exactly black.
    let s = one_sphere_scene(vec![sphere_obj(0, 0, 100 * FX, 50 * FX, matte(white()))]);
    let w = 21;
    let img = render(&s, w, w);
    let center = center_pixel(&img, w, 10, 10);
    assert!(center.0 > 0 && center.1 > 0 && center.2 > 0);
    for &(x, y) in &[(0, 0), (0, w - 1), (w - 1, 0), (w - 1, w - 1)] {
        assert_eq!(center_pixel(&img, w, x, y), (0, 0, 0));
    }
}

#[test]
fn rendering_twice_is_byte_identical() {
    let s = one_sphere_scene(vec![sphere_obj(0, 0, 100 * FX, 50 * FX, matte(white()))]);
    let img1 = render(&s, 9, 7);
    let img2 = render(&s, 9, 7);
    assert_eq!(img1, img2);
    assert_eq!(img1.len(), 3 * 9 * 7);
}

#[test]
fn overbright_pixels_clamp_to_full_byte() {
    // Two coincident head-on white lights push the channel sum to 2.0;
    // the output byte clamps at 255 instead of wrapping.
    let light = Light { position: Vector { x: 0, y: 0, z: 0 }, color: white() };
    let scene = Scene {
        objects: vec![sphere_obj(0, 0, 100 * FX, 50 * FX, matte(white()))],
        lights: vec![light, light],
        eye: Vector { x: 0, y: 0, z: 0 },
        plane: 10 * FX,
    };
    let img = render(&scene, 2, 2);
    let center = center_pixel(&img, 2, 1, 1);
    assert_eq!(center, (255, 255, 255));
}

#[test]
fn empty_scene_renders_black() {
    let scene = Scene {
        objects: vec![],
        lights: vec![],
        eye: Vector { x: 0, y: 0, z: 0 },
        plane: 10 * FX,
    };
    let img = render(&scene, 3, 3);
    assert_eq!(img.len(), 27);
    assert!(img.iter().all(|&b| b == 0));
}

#[test]
fn object_dispatch_matches_sphere_primitive() {
    let o = sphere_obj(0, 0, 100 * FX, 50 * FX, matte(white()));
    let s = Sphere {
        position: Vector { x: 0, y: 0, z: 100 * FX },
        radius: 50 * FX,
        material: matte(white()),
    };
    let ray = Ray {
        position: Vector { x: 0, y: 0, z: 0 },
        direction: Vector { x: 0, y: 0, z: FX },
    };
    let a = o.intersection(&ray, 20000 * FX);
    let b = s.intersection(&ray, 20000 * FX);
    assert_eq!(a.success, b.success);
    assert_eq!(a.t, b.t);
}
