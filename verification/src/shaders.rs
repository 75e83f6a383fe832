//! Shading terms: Lambertian diffuse and Phong specular, each a pure
//! contribution added onto the pixel accumulator, scaled by the running
//! attenuation coefficient.

use vstd::prelude::*;
use crate::fixed::FX_ONE;
use crate::fixed::fx_mul;
use crate::fixed::fx_pow;
use crate::fixed::lemma_fx_mul_range;
use crate::fixed::lemma_fx_mul_unit;
use crate::fixed::mul_fx;
use crate::fixed::pow_fx;
use crate::vector::Vector;
use crate::vector::v_bounded;
use crate::vector::v_sub;
use crate::vector::v_scale;
use crate::vector::v_dot;
use crate::vector::UNIT_LIMIT;
use crate::color::Color;
use crate::color::c_bounded;
use crate::color::c_add;
use crate::color::c_unit;
use crate::ray::Ray;
use crate::light::Light;
use crate::material::Material;

verus! {

/// Magnitude bound on the pixel accumulator accepted by the shaders (2^60).
pub const PIX_LIMIT: i128 = 1152921504606846976;

/// Magnitude bound on a single shading contribution per channel (2^22).
pub const DELTA_LIMIT: i128 = 4194304;

/// The diffuse contribution: the light-direction/normal dot product times
/// the attenuation, tinted channel-wise by light colour and material
/// diffuse colour.
pub open spec fn lambert_delta(
    ldir: (int, int, int),
    normal: (int, int, int),
    lcolor: (int, int, int),
    diffuse: (int, int, int),
    coef: int,
) -> (int, int, int) {
    let l = fx_mul(v_dot(ldir, normal), coef);
    (
        fx_mul(fx_mul(l, lcolor.0), diffuse.0),
        fx_mul(fx_mul(l, lcolor.1), diffuse.1),
        fx_mul(fx_mul(l, lcolor.2), diffuse.2),
    )
}

/// The specular contribution: reflect the light direction about the
/// normal, raise its (clamped to [0, 1]) dot product with the viewing
/// direction to the shininess power, scale by the attenuation and tint by
/// the light colour.
pub open spec fn phong_delta(
    view_dir: (int, int, int),
    ldir: (int, int, int),
    normal: (int, int, int),
    lcolor: (int, int, int),
    power: nat,
    coef: int,
) -> (int, int, int) {
    let reflet = 2 * v_dot(ldir, normal);
    let pdir = v_sub(ldir, v_scale(normal, reflet));
    let raw = v_dot(pdir, view_dir);
    let base = if raw < 0 {
        0
    } else if raw > FX_ONE as int {
        FX_ONE as int
    } else {
        raw
    };
    let pterm = fx_mul(fx_pow(base, power), coef);
    (fx_mul(pterm, lcolor.0), fx_mul(pterm, lcolor.1), fx_mul(pterm, lcolor.2))
}

/// Add the Lambertian diffuse term of one light onto the pixel.
pub fn lambert(
    pixel: &mut Color,
    _ray: &Ray,
    light_ray: &Ray,
    light: &Light,
    intersection_normal: &Vector,
    material: &Material,
    coef: i128,
)
    requires
        v_bounded(light_ray.direction@, UNIT_LIMIT as int),
        v_bounded(intersection_normal@, UNIT_LIMIT as int),
        0 <= coef <= FX_ONE,
        c_unit(light.color@),
        c_unit(material.diffuse@),
        c_bounded(old(pixel)@, PIX_LIMIT as int),
    ensures
        final(pixel)@ == c_add(
            old(pixel)@,
            lambert_delta(
                light_ray.direction@,
                intersection_normal@,
                light.color@,
                material.diffuse@,
                coef as int,
            ),
        ),
        c_bounded(
            lambert_delta(
                light_ray.direction@,
                intersection_normal@,
                light.color@,
                material.diffuse@,
                coef as int,
            ),
            DELTA_LIMIT as int,
        ),
{
    proof {
        lemma_fx_mul_range(
            light_ray.direction@.0,
            intersection_normal@.0,
            UNIT_LIMIT as int,
            UNIT_LIMIT as int,
        );
        lemma_fx_mul_range(
            light_ray.direction@.1,
            intersection_normal@.1,
            UNIT_LIMIT as int,
            UNIT_LIMIT as int,
        );
        lemma_fx_mul_range(
            light_ray.direction@.2,
            intersection_normal@.2,
            UNIT_LIMIT as int,
            UNIT_LIMIT as int,
        );
    }
    let d = light_ray.direction.dot(intersection_normal);
    proof {
        lemma_fx_mul_range(d as int, coef as int, 3145728, FX_ONE as int);
    }
    let l = mul_fx(d, coef);
    proof {
        lemma_fx_mul_range(l as int, light.color@.0, 3145728, FX_ONE as int);
        lemma_fx_mul_range(l as int, light.color@.1, 3145728, FX_ONE as int);
        lemma_fx_mul_range(l as int, light.color@.2, 3145728, FX_ONE as int);
        lemma_fx_mul_range(fx_mul(l as int, light.color@.0), material.diffuse@.0, 3145728, FX_ONE as int);
        lemma_fx_mul_range(fx_mul(l as int, light.color@.1), material.diffuse@.1, 3145728, FX_ONE as int);
        lemma_fx_mul_range(fx_mul(l as int, light.color@.2), material.diffuse@.2, 3145728, FX_ONE as int);
    }
    pixel.r = pixel.r + mul_fx(mul_fx(l, light.color.r), material.diffuse.r);
    pixel.g = pixel.g + mul_fx(mul_fx(l, light.color.g), material.diffuse.g);
    pixel.b = pixel.b + mul_fx(mul_fx(l, light.color.b), material.diffuse.b);
}

/// Add the Phong specular term of one light onto the pixel.
pub fn phong(
    pixel: &mut Color,
    ray: &Ray,
    light_ray: &Ray,
    light: &Light,
    intersection_normal: &Vector,
    material: &Material,
    coef: i128,
)
    requires
        v_bounded(ray.direction@, UNIT_LIMIT as int),
        v_bounded(light_ray.direction@, UNIT_LIMIT as int),
        v_bounded(intersection_normal@, UNIT_LIMIT as int),
        0 <= coef <= FX_ONE,
        c_unit(light.color@),
        c_bounded(old(pixel)@, PIX_LIMIT as int),
    ensures
        final(pixel)@ == c_add(
            old(pixel)@,
            phong_delta(
                ray.direction@,
                light_ray.direction@,
                intersection_normal@,
                light.color@,
                material.power as nat,
                coef as int,
            ),
        ),
        c_bounded(
            phong_delta(
                ray.direction@,
                light_ray.direction@,
                intersection_normal@,
                light.color@,
                material.power as nat,
                coef as int,
            ),
            DELTA_LIMIT as int,
        ),
{
    proof {
        lemma_fx_mul_range(
            light_ray.direction@.0,
            intersection_normal@.0,
            UNIT_LIMIT as int,
            UNIT_LIMIT as int,
        );
        lemma_fx_mul_range(
            light_ray.direction@.1,
            intersection_normal@.1,
            UNIT_LIMIT as int,
            UNIT_LIMIT as int,
        );
        lemma_fx_mul_range(
            light_ray.direction@.2,
            intersection_normal@.2,
            UNIT_LIMIT as int,
            UNIT_LIMIT as int,
        );
    }
    let d = light_ray.direction.dot(intersection_normal);
    let reflet = 2 * d;
    proof {
        lemma_fx_mul_range(intersection_normal@.0, reflet as int, UNIT_LIMIT as int, 6291456);
        lemma_fx_mul_range(intersection_normal@.1, reflet as int, UNIT_LIMIT as int, 6291456);
        lemma_fx_mul_range(intersection_normal@.2, reflet as int, UNIT_LIMIT as int, 6291456);
    }
    let scaled = intersection_normal.multiply(reflet);
    let pdir = light_ray.direction.subtract(&scaled);
    let raw = pdir.dot(&ray.direction);
    let base = if raw < 0 {
        0
    } else if raw > FX_ONE {
        FX_ONE
    } else {
        raw
    };
    let p = pow_fx(base, material.power);
    proof {
        lemma_fx_mul_unit(p as int, coef as int);
    }
    let pterm = mul_fx(p, coef);
    proof {
        lemma_fx_mul_unit(pterm as int, light.color@.0);
        lemma_fx_mul_unit(pterm as int, light.color@.1);
        lemma_fx_mul_unit(pterm as int, light.color@.2);
    }
    pixel.r = pixel.r + mul_fx(pterm, light.color.r);
    pixel.g = pixel.g + mul_fx(pterm, light.color.g);
    pixel.b = pixel.b + mul_fx(pterm, light.color.b);
}

} // verus!
