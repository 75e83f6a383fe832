//! Geometric primitives (sphere, plane) behind one tagged type, each with
//! a ray-intersection test returning the closest parameter in
//! `(epsilon, t_max)`.

use vstd::prelude::*;
use crate::fixed::fx_mul;
use crate::fixed::fx_div;
use crate::fixed::fx_sqrt;
use crate::fixed::lemma_fx_mul_range;
use crate::fixed::mul_fx;
use crate::fixed::div_fx;
use crate::fixed::sqrt_fx;
use crate::vector::Vector;
use crate::vector::v_bounded;
use crate::vector::v_sub;
use crate::vector::v_add;
use crate::vector::v_scale;
use crate::vector::v_dot;
use crate::vector::v_normalized;
use crate::vector::UNIT_LIMIT;
use crate::material::Material;
use crate::material::material_wf;
use crate::intersection::Intersection;
use crate::ray::Ray;
use crate::light::COORD_LIMIT;

verus! {

/// Hits at parameters at or below this bias are rejected, excluding
/// self-intersections at the ray origin (0.1 in fixed point).
pub const T_BIAS: i128 = 6553;

/// Largest `t_max` accepted by the intersection tests (2^52).
pub const T_MAX_LIMIT: i128 = 4503599627370496;

/// Magnitude bound on ray origins accepted by the intersection tests (2^50).
pub const POS_LIMIT: i128 = 1125899906842624;

/// Magnitude bound on returned hit positions (2^55).
pub const HIT_POS_LIMIT: i128 = 36028797018963968;

#[derive(Clone, Copy, Debug, PartialEq, Eq, Structural)]
pub enum ObjectType {
    Sphere,
    Plane,
}

#[derive(Clone, Copy, Debug)]
pub struct Object {
    pub position: Vector,
    pub material: Material,
    pub object_type: ObjectType,
    /// Used by the sphere variant only.
    pub radius: i128,
    /// Used by the plane variant only; unit length by convention.
    pub normal: Vector,
}

pub open spec fn obj_wf(o: Object) -> bool {
    &&& v_bounded(o.position@, COORD_LIMIT as int)
    &&& 0 <= o.radius <= COORD_LIMIT
    &&& material_wf(o.material)
    &&& v_bounded(o.normal@, UNIT_LIMIT as int)
}

/// The hit parameter of a ray against a sphere: solve the quadratic, then
/// accept the nearer root lying in `(T_BIAS, t_max)`, the farther root
/// otherwise.  `None` when the ray misses or its direction is degenerate.
pub open spec fn sphere_hit_t(
    center: (int, int, int),
    radius: int,
    rp: (int, int, int),
    rd: (int, int, int),
    t_max: int,
) -> Option<int> {
    if v_dot(rd, rd) < 1 {
        None
    } else {
        let dist = v_sub(center, rp);
        let b = v_dot(rd, dist);
        let d = fx_mul(b, b) - v_dot(dist, dist) + fx_mul(radius, radius);
        if d < 0 {
            None
        } else {
            let s = fx_sqrt(d);
            let t0 = b - s;
            let t1 = b + s;
            let sa = T_BIAS < t0 && t0 < t_max;
            let ta = if sa {
                t0
            } else {
                t_max
            };
            let sb = sa || (T_BIAS < t1 && t1 < ta);
            let tb = if T_BIAS < t1 && t1 < ta {
                t1
            } else {
                ta
            };
            if sb {
                Some(tb)
            } else {
                None
            }
        }
    }
}

/// The hit parameter of a ray against a plane: reject parallel rays, then
/// accept a linear-solve parameter in `[1, t_max)`.
pub open spec fn plane_hit_t(
    ppos: (int, int, int),
    pnormal: (int, int, int),
    rp: (int, int, int),
    rd: (int, int, int),
    t_max: int,
) -> Option<int> {
    let denom = v_dot(rd, pnormal);
    if denom != 0 {
        let tmp = fx_div(v_dot(v_sub(ppos, rp), pnormal), denom);
        if 1 <= tmp && tmp < t_max {
            Some(tmp)
        } else {
            None
        }
    } else {
        None
    }
}

pub open spec fn hit_t(
    o: Object,
    rp: (int, int, int),
    rd: (int, int, int),
    t_max: int,
) -> Option<int> {
    match o.object_type {
        ObjectType::Sphere => sphere_hit_t(o.position@, o.radius as int, rp, rd, t_max),
        ObjectType::Plane => plane_hit_t(o.position@, o.normal@, rp, rd, t_max),
    }
}

/// Where a hit at parameter `t` lies: the sphere walks the re-normalised
/// direction, the plane the direction as given.
pub open spec fn hit_pos(
    o: Object,
    rp: (int, int, int),
    rd: (int, int, int),
    t: int,
) -> (int, int, int) {
    match o.object_type {
        ObjectType::Sphere => v_add(rp, v_scale(v_normalized(rd), t)),
        ObjectType::Plane => v_add(rp, v_scale(rd, t)),
    }
}

/// The surface normal at a hit: reconstructed and normalised for the
/// sphere (zero when reconstruction degenerates), fixed for the plane.
pub open spec fn hit_normal(
    o: Object,
    rp: (int, int, int),
    rd: (int, int, int),
    t: int,
) -> (int, int, int) {
    match o.object_type {
        ObjectType::Sphere => {
            let d = v_sub(hit_pos(o, rp, rd, t), o.position@);
            if v_dot(d, d) >= 1 {
                v_normalized(d)
            } else {
                (0int, 0int, 0int)
            }
        },
        ObjectType::Plane => o.normal@,
    }
}

impl Object {
    /// The closest valid hit of `ray` against this primitive with
    /// parameter below `t`.  On a miss the returned `t` is the bound and
    /// the geometric fields are zero.
    pub fn intersection(&self, ray: &Ray, t: i128) -> (r: Intersection)
        requires
            obj_wf(*self),
            v_bounded(ray.position@, POS_LIMIT as int),
            v_bounded(ray.direction@, UNIT_LIMIT as int),
            0 <= t <= T_MAX_LIMIT,
        ensures
            r.success == hit_t(*self, ray.position@, ray.direction@, t as int).is_some(),
            r.success ==> r.t as int == hit_t(
                *self,
                ray.position@,
                ray.direction@,
                t as int,
            ).unwrap(),
            r.success ==> 1 <= r.t < t,
            r.success ==> r.position@ == hit_pos(*self, ray.position@, ray.direction@, r.t as int),
            r.success ==> r.normal@ == hit_normal(*self, ray.position@, ray.direction@, r.t as int),
            !r.success ==> r.t == t && r.normal@ == (0int, 0int, 0int) && r.position@ == (
                0int,
                0int,
                0int,
            ),
            v_bounded(r.position@, HIT_POS_LIMIT as int),
            v_bounded(r.normal@, UNIT_LIMIT as int),
            r.success ==> v_bounded(v_sub(r.position@, ray.position@), 4 * (t as int)),
    {
        match self.object_type {
            ObjectType::Sphere => self.intersection_sphere(ray, t),
            ObjectType::Plane => self.intersection_plane(ray, t),
        }
    }

    fn intersection_plane(&self, ray: &Ray, t: i128) -> (r: Intersection)
        requires
            self.object_type == ObjectType::Plane,
            obj_wf(*self),
            v_bounded(ray.position@, POS_LIMIT as int),
            v_bounded(ray.direction@, UNIT_LIMIT as int),
            0 <= t <= T_MAX_LIMIT,
        ensures
            r.success == plane_hit_t(
                self.position@,
                self.normal@,
                ray.position@,
                ray.direction@,
                t as int,
            ).is_some(),
            r.success ==> r.t as int == plane_hit_t(
                self.position@,
                self.normal@,
                ray.position@,
                ray.direction@,
                t as int,
            ).unwrap(),
            r.success ==> 1 <= r.t < t,
            r.success ==> r.position@ == hit_pos(*self, ray.position@, ray.direction@, r.t as int),
            r.success ==> r.normal@ == hit_normal(*self, ray.position@, ray.direction@, r.t as int),
            !r.success ==> r.t == t && r.normal@ == (0int, 0int, 0int) && r.position@ == (
                0int,
                0int,
                0int,
            ),
            v_bounded(r.position@, HIT_POS_LIMIT as int),
            v_bounded(r.normal@, UNIT_LIMIT as int),
            r.success ==> v_bounded(v_sub(r.position@, ray.position@), 4 * (t as int)),
    {
        proof {
            lemma_fx_mul_range(
                ray.direction@.0,
                self.normal@.0,
                UNIT_LIMIT as int,
                UNIT_LIMIT as int,
            );
            lemma_fx_mul_range(
                ray.direction@.1,
                self.normal@.1,
                UNIT_LIMIT as int,
                UNIT_LIMIT as int,
            );
            lemma_fx_mul_range(
                ray.direction@.2,
                self.normal@.2,
                UNIT_LIMIT as int,
                UNIT_LIMIT as int,
            );
        }
        let denom = ray.direction.dot(&self.normal);
        if denom != 0 {
            let offset = self.position.subtract(&ray.position);
            proof {
                lemma_fx_mul_range(
                    offset@.0,
                    self.normal@.0,
                    (COORD_LIMIT + POS_LIMIT) as int,
                    UNIT_LIMIT as int,
                );
                lemma_fx_mul_range(
                    offset@.1,
                    self.normal@.1,
                    (COORD_LIMIT + POS_LIMIT) as int,
                    UNIT_LIMIT as int,
                );
                lemma_fx_mul_range(
                    offset@.2,
                    self.normal@.2,
                    (COORD_LIMIT + POS_LIMIT) as int,
                    UNIT_LIMIT as int,
                );
            }
            let num = offset.dot(&self.normal);
            let tmp_t = div_fx(num, denom);
            if tmp_t >= 1 && tmp_t < t {
                let step = ray.direction.multiply(tmp_t);
                proof {
                    lemma_fx_mul_range(
                        ray.direction@.0,
                        tmp_t as int,
                        UNIT_LIMIT as int,
                        T_MAX_LIMIT as int,
                    );
                    lemma_fx_mul_range(
                        ray.direction@.1,
                        tmp_t as int,
                        UNIT_LIMIT as int,
                        T_MAX_LIMIT as int,
                    );
                    lemma_fx_mul_range(
                        ray.direction@.2,
                        tmp_t as int,
                        UNIT_LIMIT as int,
                        T_MAX_LIMIT as int,
                    );
                    lemma_step_bound(ray.direction@.0, tmp_t as int, t as int);
                    lemma_step_bound(ray.direction@.1, tmp_t as int, t as int);
                    lemma_step_bound(ray.direction@.2, tmp_t as int, t as int);
                }
                let position = ray.position.add(&step);
                return Intersection {
                    t: tmp_t,
                    success: true,
                    normal: self.normal.clone(),
                    position,
                };
            }
        }
        Intersection { t, success: false, normal: Vector::default(), position: Vector::default() }
    }

    fn intersection_sphere(&self, ray: &Ray, t: i128) -> (r: Intersection)
        requires
            self.object_type == ObjectType::Sphere,
            obj_wf(*self),
            v_bounded(ray.position@, POS_LIMIT as int),
            v_bounded(ray.direction@, UNIT_LIMIT as int),
            0 <= t <= T_MAX_LIMIT,
        ensures
            r.success == sphere_hit_t(
                self.position@,
                self.radius as int,
                ray.position@,
                ray.direction@,
                t as int,
            ).is_some(),
            r.success ==> r.t as int == sphere_hit_t(
                self.position@,
                self.radius as int,
                ray.position@,
                ray.direction@,
                t as int,
            ).unwrap(),
            r.success ==> 1 <= r.t < t,
            r.success ==> r.position@ == hit_pos(*self, ray.position@, ray.direction@, r.t as int),
            r.success ==> r.normal@ == hit_normal(*self, ray.position@, ray.direction@, r.t as int),
            !r.success ==> r.t == t && r.normal@ == (0int, 0int, 0int) && r.position@ == (
                0int,
                0int,
                0int,
            ),
            v_bounded(r.position@, HIT_POS_LIMIT as int),
            v_bounded(r.normal@, UNIT_LIMIT as int),
            r.success ==> v_bounded(v_sub(r.position@, ray.position@), 4 * (t as int)),
    {
        let dir_n2 = ray.direction.dot(&ray.direction);
        if dir_n2 < 1 {
            return Intersection {
                t,
                success: false,
                normal: Vector::default(),
                position: Vector::default(),
            };
        }
        let dist = self.position.subtract(&ray.position);
        proof {
            lemma_fx_mul_range(
                ray.direction@.0,
                dist@.0,
                UNIT_LIMIT as int,
                (COORD_LIMIT + POS_LIMIT) as int,
            );
            lemma_fx_mul_range(
                ray.direction@.1,
                dist@.1,
                UNIT_LIMIT as int,
                (COORD_LIMIT + POS_LIMIT) as int,
            );
            lemma_fx_mul_range(
                ray.direction@.2,
                dist@.2,
                UNIT_LIMIT as int,
                (COORD_LIMIT + POS_LIMIT) as int,
            );
            lemma_fx_mul_range(
                dist@.0,
                dist@.0,
                (COORD_LIMIT + POS_LIMIT) as int,
                (COORD_LIMIT + POS_LIMIT) as int,
            );
            lemma_fx_mul_range(
                dist@.1,
                dist@.1,
                (COORD_LIMIT + POS_LIMIT) as int,
                (COORD_LIMIT + POS_LIMIT) as int,
            );
            lemma_fx_mul_range(
                dist@.2,
                dist@.2,
                (COORD_LIMIT + POS_LIMIT) as int,
                (COORD_LIMIT + POS_LIMIT) as int,
            );
        }
        let b = ray.direction.dot(&dist);
        let dd = dist.dot(&dist);
        proof {
            lemma_fx_mul_range(b as int, b as int, 13933011347177472, 13933011347177472);
            lemma_fx_mul_range(
                self.radius as int,
                self.radius as int,
                COORD_LIMIT as int,
                COORD_LIMIT as int,
            );
        }
        let bb = mul_fx(b, b);
        let rr = mul_fx(self.radius, self.radius);
        let d = bb - dd + rr;
        if d < 0 {
            return Intersection {
                t,
                success: false,
                normal: Vector::default(),
                position: Vector::default(),
            };
        }
        let s = sqrt_fx(d);
        let t0 = b - s;
        let t1 = b + s;
        let mut best = t;
        let mut success = false;
        if t0 > T_BIAS && t0 < best {
            best = t0;
            success = true;
        }
        if t1 > T_BIAS && t1 < best {
            best = t1;
            success = true;
        }
        if !success {
            return Intersection {
                t,
                success: false,
                normal: Vector::default(),
                position: Vector::default(),
            };
        }
        let dir_unit = ray.direction.normalized();
        proof {
            lemma_fx_mul_range(dir_unit@.0, best as int, UNIT_LIMIT as int, T_MAX_LIMIT as int);
            lemma_fx_mul_range(dir_unit@.1, best as int, UNIT_LIMIT as int, T_MAX_LIMIT as int);
            lemma_fx_mul_range(dir_unit@.2, best as int, UNIT_LIMIT as int, T_MAX_LIMIT as int);
            lemma_step_bound(dir_unit@.0, best as int, t as int);
            lemma_step_bound(dir_unit@.1, best as int, t as int);
            lemma_step_bound(dir_unit@.2, best as int, t as int);
        }
        let position = ray.position.add(&dir_unit.multiply(best));
        let diff = position.subtract(&self.position);
        let diff_n2 = diff.dot(&diff);
        let normal = if diff_n2 >= 1 {
            diff.normalized()
        } else {
            Vector::default()
        };
        Intersection { t: best, success: true, normal, position }
    }
}

/// Walking a near-unit direction for a parameter at most `cap` moves each
/// coordinate by at most `4 * cap`.
pub proof fn lemma_step_bound(u: int, tt: int, cap: int)
    requires
        -(UNIT_LIMIT as int) <= u <= UNIT_LIMIT as int,
        0 <= tt <= cap,
    ensures
        -4 * cap <= fx_mul(u, tt) <= 4 * cap,
{
    lemma_fx_mul_range(u, tt, UNIT_LIMIT as int, cap);
    vstd::arithmetic::div_mod::lemma_div_multiples_vanish(4 * cap, 65536);
    assert(262144 * cap == 65536 * (4 * cap)) by (nonlinear_arith);
}

/// A ray whose direction is perpendicular to a plane's normal runs
/// parallel to the plane and never hits it.
pub proof fn lemma_parallel_plane_misses(
    ppos: (int, int, int),
    pnormal: (int, int, int),
    rp: (int, int, int),
    rd: (int, int, int),
    t_max: int,
)
    requires
        v_dot(rd, pnormal) == 0,
    ensures
        plane_hit_t(ppos, pnormal, rp, rd, t_max).is_none(),
{
}

} // verus!
