//! The tracing loop: per-pixel primary rays, nearest-intersection search,
//! shadow rays, diffuse and specular shading, and mirror-reflection
//! recursion up to a fixed depth.

use vstd::prelude::*;
use crate::fixed::FX_ONE;
use crate::fixed::FX_DIV_LIMIT;
use crate::fixed::fx_mul;
use crate::fixed::fx_sqrt;
use crate::fixed::tdiv;
use crate::fixed::lemma_fx_mul_range;
use crate::fixed::lemma_fx_mul_unit;
use crate::fixed::mul_fx;
use crate::fixed::sqrt_fx;
use crate::vector::Vector;
use crate::vector::v_bounded;
use crate::vector::v_sub;
use crate::vector::v_scale;
use crate::vector::v_dot;
use crate::vector::v_normalized;
use crate::vector::UNIT_LIMIT;
use crate::color::Color;
use crate::color::c_bounded;
use crate::color::c_add;
use crate::ray::Ray;
use crate::light::Light;
use crate::material::Material;
use crate::material::material_wf;
use crate::intersection::Intersection;
use crate::object::Object;
use crate::object::obj_wf;
use crate::object::hit_t;
use crate::object::hit_pos;
use crate::object::hit_normal;
use crate::object::POS_LIMIT;
use crate::object::T_MAX_LIMIT;
use crate::scene::Scene;
use crate::scene::scene_wf;
use crate::shaders::lambert;
use crate::shaders::phong;
use crate::shaders::lambert_delta;
use crate::shaders::phong_delta;
use crate::shaders::DELTA_LIMIT;

verus! {

/// Upper bound on the hit parameter of a primary or reflected ray
/// (20000.0 in fixed point).
pub const T_LIMIT: i128 = 1310720000;

/// The nearest hit among the first `n` objects: scan in order, keeping a
/// strictly smaller parameter only, so ties keep the earlier object.
pub open spec fn nearest_rec(
    objs: Seq<Object>,
    rp: (int, int, int),
    rd: (int, int, int),
    n: int,
) -> Option<(int, int)>
    decreases n,
{
    if n <= 0 {
        None
    } else {
        let prev = nearest_rec(objs, rp, rd, n - 1);
        match hit_t(objs[n - 1], rp, rd, T_LIMIT as int) {
            Option::Some(tn) => match prev {
                Option::Some(jt) => if tn < jt.1 {
                    Option::Some((n - 1, tn))
                } else {
                    Option::Some(jt)
                },
                Option::None => Option::Some((n - 1, tn)),
            },
            Option::None => prev,
        }
    }
}

/// The nearest-hit invariant: the scan returns a valid hit of minimal
/// parameter, and of the objects tied at that minimum, the first one.
pub proof fn lemma_nearest_is_min(
    objs: Seq<Object>,
    rp: (int, int, int),
    rd: (int, int, int),
    n: int,
)
    requires
        0 <= n <= objs.len(),
    ensures
        match nearest_rec(objs, rp, rd, n) {
            Option::Some(jt) => {
                &&& 0 <= jt.0 < n
                &&& hit_t(objs[jt.0], rp, rd, T_LIMIT as int) == Option::Some(jt.1)
                &&& forall|k: int|
                    0 <= k < n && hit_t(#[trigger] objs[k], rp, rd, T_LIMIT as int).is_some()
                        ==> jt.1 <= hit_t(objs[k], rp, rd, T_LIMIT as int).unwrap()
                &&& forall|k: int|
                    0 <= k < jt.0 && hit_t(#[trigger] objs[k], rp, rd, T_LIMIT as int).is_some()
                        ==> jt.1 < hit_t(objs[k], rp, rd, T_LIMIT as int).unwrap()
            },
            Option::None => forall|k: int|
                0 <= k < n ==> hit_t(#[trigger] objs[k], rp, rd, T_LIMIT as int).is_none(),
        },
    decreases n,
{
    if n > 0 {
        lemma_nearest_is_min(objs, rp, rd, n - 1);
    }
}

/// Scan all primitives for the nearest valid hit of `ray`.
fn nearest_hit(scene: &Scene, ray: &Ray) -> (r: Option<(usize, Intersection)>)
    requires
        scene_wf(*scene),
        v_bounded(ray.position@, POS_LIMIT as int),
        v_bounded(ray.direction@, UNIT_LIMIT as int),
    ensures
        match r {
            Option::Some(pair) => {
                &&& (pair.0 as int) < scene.objects@.len()
                &&& pair.1.success
                &&& nearest_rec(
                    scene.objects@,
                    ray.position@,
                    ray.direction@,
                    scene.objects@.len() as int,
                ) == Option::Some((pair.0 as int, pair.1.t as int))
                &&& pair.1.position@ == hit_pos(
                    scene.objects@[pair.0 as int],
                    ray.position@,
                    ray.direction@,
                    pair.1.t as int,
                )
                &&& pair.1.normal@ == hit_normal(
                    scene.objects@[pair.0 as int],
                    ray.position@,
                    ray.direction@,
                    pair.1.t as int,
                )
                &&& 1 <= pair.1.t < T_LIMIT
                &&& v_bounded(pair.1.normal@, UNIT_LIMIT as int)
                &&& v_bounded(v_sub(pair.1.position@, ray.position@), 4 * (T_LIMIT as int))
            },
            Option::None => nearest_rec(
                scene.objects@,
                ray.position@,
                ray.direction@,
                scene.objects@.len() as int,
            ) is None,
        },
{
    let mut best: Option<(usize, Intersection)> = Option::None;
    let mut i: usize = 0;
    let n = scene.objects.len();
    while i < n
        invariant
            scene_wf(*scene),
            v_bounded(ray.position@, POS_LIMIT as int),
            v_bounded(ray.direction@, UNIT_LIMIT as int),
            i <= n,
            n == scene.objects@.len(),
            match best {
                Option::Some(pair) => {
                    &&& (pair.0 as int) < scene.objects@.len()
                    &&& pair.1.success
                    &&& nearest_rec(scene.objects@, ray.position@, ray.direction@, i as int)
                        == Option::Some((pair.0 as int, pair.1.t as int))
                    &&& pair.1.position@ == hit_pos(
                        scene.objects@[pair.0 as int],
                        ray.position@,
                        ray.direction@,
                        pair.1.t as int,
                    )
                    &&& pair.1.normal@ == hit_normal(
                        scene.objects@[pair.0 as int],
                        ray.position@,
                        ray.direction@,
                        pair.1.t as int,
                    )
                    &&& 1 <= pair.1.t < T_LIMIT
                    &&& v_bounded(pair.1.normal@, UNIT_LIMIT as int)
                    &&& v_bounded(v_sub(pair.1.position@, ray.position@), 4 * (T_LIMIT as int))
                },
                Option::None => nearest_rec(
                    scene.objects@,
                    ray.position@,
                    ray.direction@,
                    i as int,
                ) is None,
            },
        decreases n - i,
    {
        let obj = &scene.objects[i];
        let inter = obj.intersection(ray, T_LIMIT);
        if inter.success {
            match best {
                Option::Some(pair) => {
                    if inter.t < pair.1.t {
                        best = Option::Some((i, inter));
                    }
                },
                Option::None => {
                    best = Option::Some((i, inter));
                },
            }
        }
        i = i + 1;
    }
    best
}

/// Something stands between the ray origin and the parameter `t_max`.
pub open spec fn blocked(
    objs: Seq<Object>,
    rp: (int, int, int),
    rd: (int, int, int),
    t_max: int,
) -> bool {
    exists|k: int| 0 <= k < objs.len() && hit_t(#[trigger] objs[k], rp, rd, t_max).is_some()
}

/// Does any primitive intersect `ray` before parameter `t_max`?
fn in_shadow(objects: &Vec<Object>, ray: &Ray, t_max: i128) -> (b: bool)
    requires
        forall|i: int| 0 <= i < objects@.len() ==> obj_wf(#[trigger] objects@[i]),
        v_bounded(ray.position@, POS_LIMIT as int),
        v_bounded(ray.direction@, UNIT_LIMIT as int),
        0 <= t_max <= T_MAX_LIMIT,
    ensures
        b == blocked(objects@, ray.position@, ray.direction@, t_max as int),
{
    let mut i: usize = 0;
    let n = objects.len();
    while i < n
        invariant
            forall|k: int| 0 <= k < objects@.len() ==> obj_wf(#[trigger] objects@[k]),
            v_bounded(ray.position@, POS_LIMIT as int),
            v_bounded(ray.direction@, UNIT_LIMIT as int),
            0 <= t_max <= T_MAX_LIMIT,
            i <= n,
            n == objects@.len(),
            forall|k: int|
                0 <= k < i ==> hit_t(#[trigger] objects@[k], ray.position@, ray.direction@,
                t_max as int).is_none(),
        decreases n - i,
    {
        let inter = objects[i].intersection(ray, t_max);
        if inter.success {
            return true;
        }
        i = i + 1;
    }
    false
}

/// Contribution of one light at a hit point: zero when the light is
/// behind the surface, at zero distance, or shadowed; otherwise the
/// Lambert and Phong terms.
pub open spec fn light_term(
    objs: Seq<Object>,
    light: Light,
    pos: (int, int, int),
    normal: (int, int, int),
    view: (int, int, int),
    mat: Material,
    coef: int,
) -> (int, int, int) {
    let dist = v_sub(light.position@, pos);
    if v_dot(normal, dist) <= 0 {
        (0int, 0int, 0int)
    } else {
        let n2 = v_dot(dist, dist);
        let tl = fx_sqrt(n2);
        if tl <= 0 {
            (0int, 0int, 0int)
        } else {
            let ldir = v_normalized(dist);
            if blocked(objs, pos, ldir, tl) {
                (0int, 0int, 0int)
            } else {
                c_add(
                    lambert_delta(ldir, normal, light.color@, mat.diffuse@, coef),
                    phong_delta(view, ldir, normal, light.color@, mat.power as nat, coef),
                )
            }
        }
    }
}

/// Total contribution of the first `n` lights.
pub open spec fn shade_total(
    objs: Seq<Object>,
    lights: Seq<Light>,
    pos: (int, int, int),
    normal: (int, int, int),
    view: (int, int, int),
    mat: Material,
    coef: int,
    n: int,
) -> (int, int, int)
    decreases n,
{
    if n <= 0 {
        (0int, 0int, 0int)
    } else {
        c_add(
            shade_total(objs, lights, pos, normal, view, mat, coef, n - 1),
            light_term(objs, lights[n - 1], pos, normal, view, mat, coef),
        )
    }
}

/// The shadow invariant: a light whose line of sight to the hit point is
/// blocked by any primitive contributes nothing.
pub proof fn lemma_shadowed_light_dark(
    objs: Seq<Object>,
    light: Light,
    pos: (int, int, int),
    normal: (int, int, int),
    view: (int, int, int),
    mat: Material,
    coef: int,
)
    requires
        ({
            let dist = v_sub(light.position@, pos);
            blocked(objs, pos, v_normalized(dist), fx_sqrt(v_dot(dist, dist)))
        }),
    ensures
        light_term(objs, light, pos, normal, view, mat, coef) == (0int, 0int, 0int),
{
}

/// Magnitude bound on the pixel accumulator accepted by `shade` (2^50).
pub const SHADE_PIX_LIMIT: i128 = 1125899906842624;

/// Accumulate the contribution of every unoccluded light onto the pixel.
fn shade(
    scene: &Scene,
    hit_position: &Vector,
    surface_normal: &Vector,
    view: &Ray,
    material: &Material,
    coef: i128,
    pixel: &mut Color,
)
    requires
        scene_wf(*scene),
        v_bounded(hit_position@, POS_LIMIT as int),
        v_bounded(surface_normal@, UNIT_LIMIT as int),
        v_bounded(view.direction@, UNIT_LIMIT as int),
        material_wf(*material),
        0 <= coef <= FX_ONE,
        c_bounded(old(pixel)@, SHADE_PIX_LIMIT as int),
    ensures
        final(pixel)@ == c_add(
            old(pixel)@,
            shade_total(
                scene.objects@,
                scene.lights@,
                hit_position@,
                surface_normal@,
                view.direction@,
                *material,
                coef as int,
                scene.lights@.len() as int,
            ),
        ),
        c_bounded(
            shade_total(
                scene.objects@,
                scene.lights@,
                hit_position@,
                surface_normal@,
                view.direction@,
                *material,
                coef as int,
                scene.lights@.len() as int,
            ),
            2 * (DELTA_LIMIT as int) * scene.lights@.len(),
        ),
{
    let mut i: usize = 0;
    let n = scene.lights.len();
    while i < n
        invariant
            scene_wf(*scene),
            v_bounded(hit_position@, POS_LIMIT as int),
            v_bounded(surface_normal@, UNIT_LIMIT as int),
            v_bounded(view.direction@, UNIT_LIMIT as int),
            material_wf(*material),
            0 <= coef <= FX_ONE,
            c_bounded(old(pixel)@, SHADE_PIX_LIMIT as int),
            i <= n,
            n == scene.lights@.len(),
            pixel@ == c_add(
                old(pixel)@,
                shade_total(
                    scene.objects@,
                    scene.lights@,
                    hit_position@,
                    surface_normal@,
                    view.direction@,
                    *material,
                    coef as int,
                    i as int,
                ),
            ),
            c_bounded(
                shade_total(
                    scene.objects@,
                    scene.lights@,
                    hit_position@,
                    surface_normal@,
                    view.direction@,
                    *material,
                    coef as int,
                    i as int,
                ),
                2 * (DELTA_LIMIT as int) * (i as int),
            ),
        decreases n - i,
    {
        proof {
            assert(2 * (DELTA_LIMIT as int) * (i as int) + 2 * (DELTA_LIMIT as int) == 2 * (
            DELTA_LIMIT as int) * ((i + 1) as int)) by (nonlinear_arith);
            assert(2 * (DELTA_LIMIT as int) * (i as int) <= 2 * (DELTA_LIMIT as int) * 4096)
                by (nonlinear_arith)
                requires 0 <= i <= 4096;
        }
        let light = scene.lights[i];
        let dist = light.position.subtract(hit_position);
        let nd = surface_normal.dot(&dist);
        if nd > 0 {
            proof {
                lemma_fx_mul_range(dist@.0, dist@.0, 1161084278931456, 1161084278931456);
                lemma_fx_mul_range(dist@.1, dist@.1, 1161084278931456, 1161084278931456);
                lemma_fx_mul_range(dist@.2, dist@.2, 1161084278931456, 1161084278931456);
                crate::vector::lemma_dot_self_nonneg(dist@);
            }
            let n2 = dist.dot(&dist);
            let tl = sqrt_fx(n2);
            if tl > 0 {
                proof {
                    assert(tl as int <= T_MAX_LIMIT as int) by (nonlinear_arith)
                        requires
                            0 <= tl as int
                                && (tl as int) * (tl as int) <= (n2 as int) * 65536
                                && n2 as int
                                <= 61711885198140523652579328;
                    assert((tl as int) * (tl as int) >= 1) by (nonlinear_arith)
                        requires tl as int >= 1;
                    assert(n2 as int >= 1);
                }
                let ldir = dist.normalized();
                let light_ray = Ray { position: *hit_position, direction: ldir };
                let sh = in_shadow(&scene.objects, &light_ray, tl);
                if !sh {
                    lambert(pixel, view, &light_ray, &light, surface_normal, material, coef);
                    phong(pixel, view, &light_ray, &light, surface_normal, material, coef);
                }
            }
        }
        i = i + 1;
    }
}

/// Origin-coordinate budget at a given remaining depth: each bounce moves
/// the origin by at most `4 * T_LIMIT`, which is below 2^34.
pub open spec fn pos_limit(depth: int) -> int {
    281474976710656 - depth * 17179869184
}

/// One level of the tracing loop: find the nearest hit, shade it against
/// every light, then recurse along the mirror reflection with attenuated
/// energy, until no hit, a degenerate normal or direction, exhausted
/// energy, or exhausted depth ends the pixel.
pub open spec fn trace_spec(
    s: Scene,
    rp: (int, int, int),
    rd: (int, int, int),
    coef: int,
    depth: nat,
) -> (int, int, int)
    decreases depth,
{
    if depth == 0 {
        (0int, 0int, 0int)
    } else {
        match nearest_rec(s.objects@, rp, rd, s.objects@.len() as int) {
            Option::None => (0int, 0int, 0int),
            Option::Some(jt) => {
                let o = s.objects@[jt.0];
                let ipos = hit_pos(o, rp, rd, jt.1);
                let inorm = hit_normal(o, rp, rd, jt.1);
                if v_dot(inorm, inorm) < 1 {
                    (0int, 0int, 0int)
                } else {
                    let direct = shade_total(
                        s.objects@,
                        s.lights@,
                        ipos,
                        inorm,
                        rd,
                        o.material,
                        coef,
                        s.lights@.len() as int,
                    );
                    let ntemp = v_normalized(inorm);
                    let coef2 = fx_mul(coef, o.material.reflection as int);
                    let rd2 = v_sub(rd, v_scale(ntemp, 2 * v_dot(rd, ntemp)));
                    if coef2 <= 0 || depth <= 1 {
                        direct
                    } else if v_dot(rd2, rd2) < 1 {
                        direct
                    } else {
                        c_add(
                            direct,
                            trace_spec(s, ipos, v_normalized(rd2), coef2, (depth - 1) as nat),
                        )
                    }
                }
            },
        }
    }
}

/// Trace one ray and return the radiance it gathers.
pub fn trace_ray(scene: &Scene, ray: &Ray, coef: i128, depth: u32) -> (c: Color)
    requires
        scene_wf(*scene),
        v_bounded(ray.position@, pos_limit(depth as int)),
        v_bounded(ray.direction@, UNIT_LIMIT as int),
        0 <= coef <= FX_ONE,
        depth <= 10,
    ensures
        c@ == trace_spec(*scene, ray.position@, ray.direction@, coef as int, depth as nat),
        c_bounded(c@, (depth as int) * 68719476736),
    decreases depth,
{
    if depth == 0 {
        return Color { r: 0, g: 0, b: 0 };
    }
    let hit = nearest_hit(scene, ray);
    match hit {
        Option::None => Color { r: 0, g: 0, b: 0 },
        Option::Some(pair) => {
            let idx = pair.0;
            let inter = pair.1;
            proof {
                lemma_fx_mul_range(
                    inter.normal@.0,
                    inter.normal@.0,
                    UNIT_LIMIT as int,
                    UNIT_LIMIT as int,
                );
                lemma_fx_mul_range(
                    inter.normal@.1,
                    inter.normal@.1,
                    UNIT_LIMIT as int,
                    UNIT_LIMIT as int,
                );
                lemma_fx_mul_range(
                    inter.normal@.2,
                    inter.normal@.2,
                    UNIT_LIMIT as int,
                    UNIT_LIMIT as int,
                );
            }
            let nn = inter.normal.dot(&inter.normal);
            if nn < 1 {
                return Color { r: 0, g: 0, b: 0 };
            }
            let material = scene.objects[idx].material;
            let mut pixel = Color { r: 0, g: 0, b: 0 };
            shade(scene, &inter.position, &inter.normal, ray, &material, coef, &mut pixel);
            proof {
                assert(2 * (DELTA_LIMIT as int) * scene.lights@.len() <= 8388608
                    * scene.lights@.len()) by (nonlinear_arith);
                assert(8388608 * scene.lights@.len() <= 8388608 * 4096) by (nonlinear_arith)
                    requires scene.lights@.len() <= 4096;
            }
            let ntemp = inter.normal.normalized();
            proof {
                lemma_fx_mul_unit(coef as int, material.reflection as int);
                lemma_fx_mul_range(
                    ray.direction@.0,
                    ntemp@.0,
                    UNIT_LIMIT as int,
                    UNIT_LIMIT as int,
                );
                lemma_fx_mul_range(
                    ray.direction@.1,
                    ntemp@.1,
                    UNIT_LIMIT as int,
                    UNIT_LIMIT as int,
                );
                lemma_fx_mul_range(
                    ray.direction@.2,
                    ntemp@.2,
                    UNIT_LIMIT as int,
                    UNIT_LIMIT as int,
                );
            }
            let coef2 = mul_fx(coef, material.reflection);
            let rdot = ray.direction.dot(&ntemp);
            let refl = 2 * rdot;
            proof {
                lemma_fx_mul_range(ntemp@.0, refl as int, UNIT_LIMIT as int, 6291456);
                lemma_fx_mul_range(ntemp@.1, refl as int, UNIT_LIMIT as int, 6291456);
                lemma_fx_mul_range(ntemp@.2, refl as int, UNIT_LIMIT as int, 6291456);
            }
            let scaled = ntemp.multiply(refl);
            let rd2 = ray.direction.subtract(&scaled);
            if coef2 <= 0 || depth == 1 {
                return pixel;
            }
            let rn2 = rd2.dot(&rd2);
            if rn2 < 1 {
                return pixel;
            }
            let new_dir = rd2.normalized();
            let new_ray = Ray { position: inter.position, direction: new_dir };
            let rest = trace_ray(scene, &new_ray, coef2, depth - 1);
            Color { r: pixel.r + rest.r, g: pixel.g + rest.g, b: pixel.b + rest.b }
        },
    }
}

/// A fixed-point channel scaled by 255, clamped to [0, 255] and truncated
/// to a byte.
pub open spec fn byte_of(v: int) -> int {
    let s = tdiv(v * 255, FX_ONE as int);
    if s < 0 {
        0
    } else if s > 255 {
        255
    } else {
        s
    }
}

/// Convert one accumulated channel to its display byte.
fn to_byte(v: i128) -> (b: u8)
    requires
        -FX_DIV_LIMIT <= v <= FX_DIV_LIMIT,
    ensures
        b as int == byte_of(v as int),
{
    if v <= 0 {
        proof {
            if v < 0 {
                vstd::arithmetic::div_mod::lemma_div_pos_is_pos(-((v as int) * 255), 65536);
            }
        }
        return 0u8;
    }
    let p: i128 = v * 255;
    let q: u128 = (p as u128) / 65536;
    proof {
        vstd::arithmetic::div_mod::lemma_div_pos_is_pos(p as int, 65536);
    }
    if q > 255 {
        255u8
    } else {
        q as u8
    }
}

/// The colour gathered by the primary ray of pixel `(x, y)`: rays start
/// at the eye and pass through the projection plane; a degenerate
/// eye-to-screen vector yields black.
pub open spec fn pixel_color(s: Scene, w: int, h: int, x: int, y: int) -> (int, int, int) {
    let sx = x * 65536 - w * 32768;
    let sy = h * 32768 - y * 65536;
    let v = v_sub((sx, sy, s.plane as int), s.eye@);
    if v_dot(v, v) < 1 {
        (0int, 0int, 0int)
    } else {
        trace_spec(s, s.eye@, v_normalized(v), FX_ONE as int, 10)
    }
}

/// The byte at offset `i` of the row-major RGB image.
pub open spec fn byte_at(s: Scene, w: int, h: int, i: int) -> int {
    let p = i / 3;
    let k = i % 3;
    let x = p % w;
    let y = p / w;
    let c = pixel_color(s, w, h, x, y);
    if k == 0 {
        byte_of(c.0)
    } else if k == 1 {
        byte_of(c.1)
    } else {
        byte_of(c.2)
    }
}

/// Render the scene into a row-major RGB byte image, one primary ray per
/// pixel.
pub fn render(scene: &Scene, width: usize, height: usize) -> (img: Vec<u8>)
    requires
        scene_wf(*scene),
        width <= 2048,
        height <= 2048,
    ensures
        img@.len() == 3 * width * height,
        forall|i: int|
            0 <= i < img@.len() ==> img@[i] as int == byte_at(
                *scene,
                width as int,
                height as int,
                i,
            ),
{
    let mut img: Vec<u8> = Vec::new();
    let mut y: usize = 0;
    while y < height
        invariant
            scene_wf(*scene),
            width <= 2048,
            height <= 2048,
            y <= height,
            img@.len() == 3 * ((y as int) * (width as int)),
            forall|i: int|
                0 <= i < img@.len() ==> img@[i] as int == byte_at(
                    *scene,
                    width as int,
                    height as int,
                    i,
                ),
        decreases height - y,
    {
        let mut x: usize = 0;
        while x < width
            invariant
                scene_wf(*scene),
                width <= 2048,
                height <= 2048,
                y < height,
                x <= width,
                img@.len() == 3 * ((y as int) * (width as int) + x as int),
                forall|i: int|
                    0 <= i < img@.len() ==> img@[i] as int == byte_at(
                        *scene,
                        width as int,
                        height as int,
                        i,
                    ),
            decreases width - x,
        {
            let sx: i128 = (x as i128) * 65536 - (width as i128) * 32768;
            let sy: i128 = (height as i128) * 32768 - (y as i128) * 65536;
            let screen = Vector { x: sx, y: sy, z: scene.plane };
            let v = screen.subtract(&scene.eye);
            let n2 = v.dot(&v);
            let c: Color;
            if n2 < 1 {
                c = Color { r: 0, g: 0, b: 0 };
            } else {
                let dir = v.normalized();
                let primary = Ray { position: scene.eye, direction: dir };
                c = trace_ray(scene, &primary, FX_ONE, 10);
            }
            let b0 = to_byte(c.r);
            let b1 = to_byte(c.g);
            let b2 = to_byte(c.b);
            proof {
                let wi = width as int;
                let yi = y as int;
                let xi = x as int;
                let pi = yi * wi + xi;
                assert(wi * yi == yi * wi) by (nonlinear_arith);
                vstd::arithmetic::div_mod::lemma_div_multiples_vanish_fancy(pi, 0, 3);
                vstd::arithmetic::div_mod::lemma_div_multiples_vanish_fancy(pi, 1, 3);
                vstd::arithmetic::div_mod::lemma_div_multiples_vanish_fancy(pi, 2, 3);
                vstd::arithmetic::div_mod::lemma_mod_multiples_vanish(pi, 0, 3);
                vstd::arithmetic::div_mod::lemma_mod_multiples_vanish(pi, 1, 3);
                vstd::arithmetic::div_mod::lemma_mod_multiples_vanish(pi, 2, 3);
                vstd::arithmetic::div_mod::lemma_small_mod(0nat, 3nat);
                vstd::arithmetic::div_mod::lemma_small_mod(1nat, 3nat);
                vstd::arithmetic::div_mod::lemma_small_mod(2nat, 3nat);
                vstd::arithmetic::div_mod::lemma_div_multiples_vanish_fancy(yi, xi, wi);
                vstd::arithmetic::div_mod::lemma_mod_multiples_vanish(yi, xi, wi);
                vstd::arithmetic::div_mod::lemma_small_mod(x as nat, width as nat);
            }
            img.push(b0);
            img.push(b1);
            img.push(b2);
            x = x + 1;
        }
        proof {
            assert(((y as int) + 1) * (width as int) == (y as int) * (width as int) + (
            width as int)) by (nonlinear_arith);
        }
        y = y + 1;
    }
    proof {
        assert(3 * ((height as int) * (width as int)) == 3 * (width as int) * (height as int))
            by (nonlinear_arith);
    }
    img
}

/// Determinism: two renders of the same scene at the same size agree
/// byte for byte.
pub proof fn lemma_render_deterministic(
    s: Scene,
    w: int,
    h: int,
    img1: Seq<u8>,
    img2: Seq<u8>,
)
    requires
        img1.len() == 3 * w * h,
        img2.len() == 3 * w * h,
        forall|i: int| 0 <= i < img1.len() ==> img1[i] as int == byte_at(s, w, h, i),
        forall|i: int| 0 <= i < img2.len() ==> img2[i] as int == byte_at(s, w, h, i),
    ensures
        img1 == img2,
{
    assert(img1 =~= img2);
}

} // verus!
