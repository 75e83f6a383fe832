//! A standalone sphere primitive sharing the tagged type's intersection
//! logic and contract.

use vstd::prelude::*;
use crate::vector::Vector;
use crate::vector::v_bounded;
use crate::vector::v_add;
use crate::vector::v_scale;
use crate::vector::v_sub;
use crate::vector::v_dot;
use crate::vector::v_normalized;
use crate::vector::UNIT_LIMIT;
use crate::material::Material;
use crate::material::material_wf;
use crate::intersection::Intersection;
use crate::ray::Ray;
use crate::light::COORD_LIMIT;
use crate::fixed::FX_ONE;
use crate::fixed::fx_mul;
use crate::fixed::fx_div;
use crate::fixed::fx_sqrt;
use crate::fixed::is_isqrt;
use crate::fixed::lemma_isqrt_unique;
use crate::vector::v_norm;
use crate::vector::lemma_unit_normalized;
use crate::object::Object;
use crate::object::ObjectType;
use crate::object::sphere_hit_t;
use crate::object::T_BIAS;
use crate::object::POS_LIMIT;
use crate::object::T_MAX_LIMIT;
use crate::object::HIT_POS_LIMIT;

verus! {

#[derive(Clone, Copy, Debug)]
pub struct Sphere {
    pub position: Vector,
    pub radius: i128,
    pub material: Material,
}

pub open spec fn sphere_wf(s: Sphere) -> bool {
    &&& v_bounded(s.position@, COORD_LIMIT as int)
    &&& 0 <= s.radius <= COORD_LIMIT
    &&& material_wf(s.material)
}

impl Sphere {
    /// The closest valid hit of `ray` against this sphere with parameter
    /// below `t`.
    pub fn intersection(&self, ray: &Ray, t: i128) -> (r: Intersection)
        requires
            sphere_wf(*self),
            v_bounded(ray.position@, POS_LIMIT as int),
            v_bounded(ray.direction@, UNIT_LIMIT as int),
            0 <= t <= T_MAX_LIMIT,
        ensures
            r.success == sphere_hit_t(
                self.position@,
                self.radius as int,
                ray.position@,
                ray.direction@,
                t as int,
            ).is_some(),
            r.success ==> r.t as int == sphere_hit_t(
                self.position@,
                self.radius as int,
                ray.position@,
                ray.direction@,
                t as int,
            ).unwrap(),
            r.success ==> 1 <= r.t < t,
            r.success ==> r.position@ == v_add(
                ray.position@,
                v_scale(v_normalized(ray.direction@), r.t as int),
            ),
            r.success ==> r.normal@ == ({
                let d = v_sub(r.position@, self.position@);
                if v_dot(d, d) >= 1 {
                    v_normalized(d)
                } else {
                    (0int, 0int, 0int)
                }
            }),
            !r.success ==> r.t == t,
            v_bounded(r.position@, HIT_POS_LIMIT as int),
            v_bounded(r.normal@, UNIT_LIMIT as int),
            r.success ==> v_bounded(v_sub(r.position@, ray.position@), 4 * (t as int)),
    {
        let o = Object {
            position: self.position,
            material: self.material,
            object_type: ObjectType::Sphere,
            radius: self.radius,
            normal: Vector::default(),
        };
        o.intersection(ray, t)
    }
}

/// A ray aimed straight at a sphere's centre from outside hits it at
/// parameter `distance-to-centre minus radius`, and the surface normal
/// there is exactly anti-parallel to the ray direction.  Stated for a
/// configuration aligned with the z axis whose radius is a multiple of
/// 1/256, where the fixed-point arithmetic is exact.
pub proof fn lemma_axial_sphere_hit(
    center: (int, int, int),
    radius: int,
    rp: (int, int, int),
    ell: int,
    t_max: int,
)
    requires
        v_sub(center, rp) == (0int, 0int, ell),
        0 < ell,
        256 <= radius,
        radius % 256 == 0,
        (T_BIAS as int) < ell - radius,
        ell - radius < t_max,
    ensures
        sphere_hit_t(center, radius, rp, (0int, 0int, FX_ONE as int), t_max) == Option::Some(
            ell - radius,
        ),
        ({
            let pos = v_add(rp, v_scale(v_normalized((0int, 0int, FX_ONE as int)), ell - radius));
            let diff = v_sub(pos, center);
            v_dot(diff, diff) >= 1 && v_normalized(diff) == (0int, 0int, -(FX_ONE as int))
        }),
{
    let rd = (0int, 0int, 65536int);
    let k = radius / 256;
    vstd::arithmetic::div_mod::lemma_fundamental_div_mod(radius, 256);
    assert(radius == 256 * k);
    assert(k >= 1);
    vstd::arithmetic::div_mod::lemma_div_of0(65536);
    assert(fx_mul(0, 0) == 0);
    assert(65536int * 65536 == 4294967296) by (nonlinear_arith);
    assert(fx_mul(65536, 65536) == 65536);
    assert(v_dot(rd, rd) == 65536);
    // The quadratic's terms.
    assert(0int * ell == 0) by (nonlinear_arith);
    vstd::arithmetic::div_mod::lemma_div_multiples_vanish(ell, 65536);
    assert(fx_mul(0, ell) == 0);
    assert(fx_mul(65536, ell) == ell);
    assert(v_dot(rd, v_sub(center, rp)) == ell);
    // The discriminant collapses to the squared radius.
    assert(radius * radius == 65536 * (k * k)) by (nonlinear_arith)
        requires radius == 256 * k;
    vstd::arithmetic::div_mod::lemma_div_multiples_vanish(k * k, 65536);
    assert(fx_mul(radius, radius) == k * k);
    let d0 = fx_mul(ell, ell) - v_dot(v_sub(center, rp), v_sub(center, rp)) + fx_mul(
        radius,
        radius,
    );
    assert(0int * 0 == 0) by (nonlinear_arith);
    assert(v_dot(v_sub(center, rp), v_sub(center, rp)) == fx_mul(ell, ell));
    assert(d0 == k * k);
    // Its square root is the radius itself.
    assert((k * k) * 65536 == radius * radius) by (nonlinear_arith)
        requires radius == 256 * k;
    assert(radius * radius < (radius + 1) * (radius + 1)) by (nonlinear_arith)
        requires 0 <= radius;
    assert(is_isqrt((k * k) * 65536, radius));
    lemma_isqrt_unique((k * k) * 65536, radius);
    assert(fx_sqrt(k * k) == radius);
    // Both roots, and the accepted one.
    assert(sphere_hit_t(center, radius, rp, rd, t_max) == Option::Some(ell - radius));
    // The hit position and its normal.
    lemma_unit_normalized(rd);
    assert(v_normalized(rd) == rd);
    let t = ell - radius;
    vstd::arithmetic::div_mod::lemma_div_multiples_vanish(t, 65536);
    assert(0int * t == 0) by (nonlinear_arith);
    assert(fx_mul(0, t) == 0);
    assert(fx_mul(65536, t) == t);
    assert(v_scale(rd, t) == (0int, 0int, t));
    let pos = v_add(rp, (0int, 0int, t));
    let diff = v_sub(pos, center);
    assert(diff == (0int, 0int, -radius));
    assert((-radius) * (-radius) == radius * radius) by (nonlinear_arith);
    assert(fx_mul(-radius, -radius) == k * k);
    assert(v_dot(diff, diff) == k * k);
    assert(k * k >= 1) by (nonlinear_arith)
        requires k >= 1;
    assert(v_norm(diff) == radius);
    // Each component of the normalised offset.
    vstd::arithmetic::div_mod::lemma_div_of0(radius);
    assert(0int * 65536 == 0) by (nonlinear_arith);
    assert(fx_div(0, radius) == 0);
    assert((-radius) * 65536 == -(radius * 65536)) by (nonlinear_arith);
    vstd::arithmetic::div_mod::lemma_div_multiples_vanish(65536, radius);
    assert(fx_div(-radius, radius) == -65536);
    assert(v_normalized(diff) == (0int, 0int, -65536int));
}

} // verus!
