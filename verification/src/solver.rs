//! Sphere tracing: stepping along a ray by the distance that the field
//! reports, until the ray is near a surface, has left the scene, or has used
//! up its steps.

use crate::configuration::Tunables;
use crate::fixed::{lemma_mul_bounds, saturate, spec_abs, spec_mul, Fixed, LIMIT, SCALE};
use crate::helpers::{point_of, spec_normalized, vec3_normalized, Point};
use crate::parameter::Snapshot;
use crate::primitive::{
    spec_direct_material, spec_evaluated, spec_query, Material, MaterialRaw, MaterialView,
    Primitive, PrimitiveResult, Sample,
};
use vstd::prelude::*;

verus! {

/// A ray: where it starts and the direction it travels in, a unit vector.
#[derive(Clone, Copy, Debug)]
pub struct Ray {
    pub origin: [Fixed; 3],
    pub direction: [Fixed; 3],
}

/// What a primary ray found.
#[derive(Clone, Copy, Debug)]
pub struct IntersectionInfo {
    pub hit: bool,
    pub dist: Fixed,
    pub steps: u32,
    pub fractal_data: [Fixed; 4],
    pub normal: [Fixed; 3],
    pub position: [Fixed; 3],
    pub material: MaterialRaw,
}

/// What a shadow ray found.
#[derive(Clone, Copy, Debug)]
pub struct IntersectionInfoSimple {
    pub hit: bool,
    pub dist: Fixed,
    pub steps: u32,
}

/// The colour of a surface where a ray hit it.
#[derive(Clone, Copy, Debug)]
pub struct SufraceProperties {
    pub color: [Fixed; 3],
}

/// How the march of a primary ray ended.
#[derive(Clone, Copy, Debug)]
pub struct Solve {
    pub hit: bool,
    pub dist: Fixed,
    pub fractal_data: [Fixed; 4],
    pub steps: u32,
    pub pos: [Fixed; 3],
    pub material: MaterialRaw,
}

/// How the march of a shadow ray ended.
#[derive(Clone, Copy, Debug)]
pub struct SolveSimple {
    pub hit: bool,
    pub dist: Fixed,
    pub steps: u32,
}

impl View for Solve {
    type V = MarchView;

    open spec fn view(&self) -> MarchView {
        MarchView {
            hit: self.hit,
            dist: self.dist@,
            steps: self.steps as int,
            position: point_of(self.pos),
            fractal_data: (
                self.fractal_data[0]@,
                self.fractal_data[1]@,
                self.fractal_data[2]@,
                self.fractal_data[3]@,
            ),
            material: self.material@,
        }
    }
}

/// How a march ended, in raw values.
pub struct MarchView {
    pub hit: bool,
    pub dist: int,
    pub steps: int,
    pub position: Point,
    pub fractal_data: (int, int, int, int),
    pub material: MaterialView,
}

/// What a primary ray found, in raw values.
pub struct IntersectionView {
    pub hit: bool,
    pub dist: int,
    pub steps: int,
    pub position: Point,
    pub normal: Point,
    pub fractal_data: (int, int, int, int),
    pub material: MaterialView,
}

impl View for IntersectionInfo {
    type V = IntersectionView;

    open spec fn view(&self) -> IntersectionView {
        IntersectionView {
            hit: self.hit,
            dist: self.dist@,
            steps: self.steps as int,
            position: point_of(self.position),
            normal: point_of(self.normal),
            fractal_data: (
                self.fractal_data[0]@,
                self.fractal_data[1]@,
                self.fractal_data[2]@,
                self.fractal_data[3]@,
            ),
            material: self.material@,
        }
    }
}

/// The answer of a scene without any field: infinitely far.
pub open spec fn spec_empty_world(default_material: MaterialView) -> Sample {
    Sample { distance: LIMIT as int, fractal_data: (0, 0, 0, 0), material: default_material }
}

/// The nearest answer among the first `n` fields of a scene at the point
/// `p`; among equally near fields the earliest.
pub open spec fn spec_world(
    prims: Seq<Primitive>,
    default_material: MaterialView,
    p: Point,
    n: int,
) -> Sample
    decreases n,
{
    if n <= 0 || n > prims.len() {
        spec_empty_world(default_material)
    } else {
        let nearest = spec_world(prims, default_material, p, n - 1);
        let cur = spec_query(prims[n - 1], p);
        if cur.distance < nearest.distance {
            cur
        } else {
            nearest
        }
    }
}

/// The point reached from `pos` after the raw distance `d` along `dir`.
pub open spec fn spec_advance(pos: Point, dir: Point, d: int) -> Point {
    Point {
        x: saturate(pos.x + spec_mul(dir.x, d)),
        y: saturate(pos.y + spec_mul(dir.y, d)),
        z: saturate(pos.z + spec_mul(dir.z, d)),
    }
}

/// What fixes a march: the scene, the thresholds and the ray's direction.
pub struct MarchSetup {
    pub prims: Seq<Primitive>,
    pub default_material: MaterialView,
    /// Nearer than this is a hit.
    pub min_dist: int,
    /// Farther than this is a miss.
    pub max_dist: int,
    /// Having travelled more than this is a miss.
    pub reach: int,
    /// The number of steps that may be taken.
    pub limit: int,
    pub dir: Point,
}

/// The outcome of a march that stands at `pos` after `step` steps, having
/// travelled `total`. With steps left, the scene is asked at `pos`. A way
/// travelled over `reach` is a miss, whatever the scene answers: nothing
/// beyond `reach` counts. Otherwise a distance under `min_dist` is a hit,
/// one over `max_dist` is a miss, and any other distance is travelled along
/// the ray. With no step left the march ends as a miss.
pub open spec fn spec_march(m: MarchSetup, pos: Point, total: int, step: int) -> MarchView
    decreases m.limit - step,
{
    if step >= m.limit {
        MarchView {
            hit: false,
            dist: total,
            steps: m.limit,
            position: pos,
            fractal_data: (0, 0, 0, 0),
            material: m.default_material,
        }
    } else {
        let s = spec_world(m.prims, m.default_material, pos, m.prims.len() as int);
        if total > m.reach {
            MarchView {
                hit: false,
                dist: total,
                steps: step,
                position: pos,
                fractal_data: s.fractal_data,
                material: s.material,
            }
        } else if s.distance < m.min_dist {
            MarchView {
                hit: true,
                dist: total,
                steps: step,
                position: pos,
                fractal_data: s.fractal_data,
                material: s.material,
            }
        } else if s.distance > m.max_dist {
            MarchView {
                hit: false,
                dist: total,
                steps: step,
                position: pos,
                fractal_data: s.fractal_data,
                material: s.material,
            }
        } else {
            spec_march(m, spec_advance(pos, m.dir, s.distance), saturate(total + s.distance), step + 1)
        }
    }
}

/// The direction in which the field of a scene grows fastest at `p`, from
/// central differences of width `2 eps` along each axis, as a unit vector.
pub open spec fn spec_normal(
    prims: Seq<Primitive>,
    default_material: MaterialView,
    eps: int,
    p: Point,
) -> Point {
    let n = prims.len() as int;
    let xp = spec_world(prims, default_material, Point { x: saturate(p.x + eps), y: p.y, z: p.z }, n);
    let xm = spec_world(prims, default_material, Point { x: saturate(p.x - eps), y: p.y, z: p.z }, n);
    let yp = spec_world(prims, default_material, Point { x: p.x, y: saturate(p.y + eps), z: p.z }, n);
    let ym = spec_world(prims, default_material, Point { x: p.x, y: saturate(p.y - eps), z: p.z }, n);
    let zp = spec_world(prims, default_material, Point { x: p.x, y: p.y, z: saturate(p.z + eps) }, n);
    let zm = spec_world(prims, default_material, Point { x: p.x, y: p.y, z: saturate(p.z - eps) }, n);
    spec_normalized(
        Point {
            x: saturate(xp.distance - xm.distance),
            y: saturate(yp.distance - ym.distance),
            z: saturate(zp.distance - zm.distance),
        },
    )
}

/// The answer of a scene is that of its nearest field: no field is
/// nearer, and unless the scene is answered as empty, one field is exactly
/// as far.
pub proof fn lemma_world_is_nearest(
    prims: Seq<Primitive>,
    default_material: MaterialView,
    p: Point,
    n: int,
)
    requires
        0 <= n <= prims.len(),
    ensures
        forall|i: int|
            0 <= i < n ==> spec_world(prims, default_material, p, n).distance
                <= #[trigger] spec_query(prims[i], p).distance,
        spec_world(prims, default_material, p, n) == spec_empty_world(default_material) || exists|
            i: int,
        |
            0 <= i < n && spec_world(prims, default_material, p, n) == #[trigger] spec_query(
                prims[i],
                p,
            ),
    decreases n,
{
    if n > 0 {
        lemma_world_is_nearest(prims, default_material, p, n - 1);
        let before = spec_world(prims, default_material, p, n - 1);
        let cur = spec_query(prims[n - 1], p);
        if cur.distance < before.distance {
            assert(spec_world(prims, default_material, p, n) == spec_query(prims[n - 1], p));
        } else if before != spec_empty_world(default_material) {
            let witness = choose|i: int|
                0 <= i < n - 1 && before == #[trigger] spec_query(prims[i], p);
            assert(spec_world(prims, default_material, p, n) == spec_query(prims[witness], p));
        }
    }
}

/// Among equally near fields the first decides: unless the scene is
/// answered as infinitely far, its answer is that of the first field that
/// is as near as any, and every field before that one is farther.
pub proof fn lemma_world_is_first_nearest(
    prims: Seq<Primitive>,
    default_material: MaterialView,
    p: Point,
    n: int,
)
    requires
        0 <= n <= prims.len(),
        spec_world(prims, default_material, p, n).distance < LIMIT,
    ensures
        exists|i: int|
            {
                &&& 0 <= i < n
                &&& spec_world(prims, default_material, p, n) == #[trigger] spec_query(prims[i], p)
                &&& forall|j: int|
                    0 <= j < i ==> (#[trigger] spec_query(prims[j], p)).distance > spec_world(
                        prims,
                        default_material,
                        p,
                        n,
                    ).distance
            },
    decreases n,
{
    if n > 0 {
        let before = spec_world(prims, default_material, p, n - 1);
        let cur = spec_query(prims[n - 1], p);
        let now = spec_world(prims, default_material, p, n);
        if cur.distance < before.distance {
            lemma_world_is_nearest(prims, default_material, p, n - 1);
            assert(now == spec_query(prims[n - 1], p));
            assert forall|j: int| 0 <= j < n - 1 implies (#[trigger] spec_query(
                prims[j],
                p,
            )).distance > now.distance by {}
        } else {
            assert(now == before);
            lemma_world_is_first_nearest(prims, default_material, p, n - 1);
            let i = choose|i: int|
                {
                    &&& 0 <= i < n - 1
                    &&& before == #[trigger] spec_query(prims[i], p)
                    &&& forall|j: int|
                        0 <= j < i ==> (#[trigger] spec_query(prims[j], p)).distance
                            > before.distance
                };
            assert(now == spec_query(prims[i], p));
        }
    }
}

/// A march ends within its limit of steps. A hit stands nearer to the
/// scene than `min_dist`, has a step to spare and has travelled no more than
/// `reach`: what lies beyond `reach` is never hit. A miss with a step to
/// spare has travelled more than `reach`, or stands where the scene is
/// farther than `max_dist` and not nearer than `min_dist`.
pub proof fn lemma_march_outcome(m: MarchSetup, pos: Point, total: int, step: int)
    requires
        0 <= step <= m.limit,
    ensures
        ({
            let r = spec_march(m, pos, total, step);
            let at = spec_world(m.prims, m.default_material, r.position, m.prims.len() as int);
            &&& step <= r.steps <= m.limit
            &&& r.hit ==> r.steps < m.limit && at.distance < m.min_dist && r.dist <= m.reach
            &&& r.hit ==> r.fractal_data == at.fractal_data && r.material == at.material
            &&& !r.hit && r.steps < m.limit ==> r.dist > m.reach || (at.distance >= m.min_dist
                && at.distance > m.max_dist)
        }),
    decreases m.limit - step,
{
    if step < m.limit {
        let s = spec_world(m.prims, m.default_material, pos, m.prims.len() as int);
        if total <= m.reach && s.distance >= m.min_dist && s.distance <= m.max_dist {
            lemma_march_outcome(
                m,
                spec_advance(pos, m.dir, s.distance),
                saturate(total + s.distance),
                step + 1,
            );
        }
    }
}

/// Whether a march that started at `origin` stands on its ray: after
/// `steps` steps and the way `total` along `dir` every coordinate of `pos`
/// is that of `origin + dir * total`, less at most one raw unit a step,
/// which rounding takes.
pub open spec fn spec_on_ray(origin: Point, dir: Point, pos: Point, total: int, steps: int) -> bool {
    &&& dir.x * total - steps * SCALE <= (pos.x - origin.x) * SCALE <= dir.x * total
    &&& dir.y * total - steps * SCALE <= (pos.y - origin.y) * SCALE <= dir.y * total
    &&& dir.z * total - steps * SCALE <= (pos.z - origin.z) * SCALE <= dir.z * total
}

/// One step along one axis keeps a march on its ray.
proof fn lemma_axis_step(o: int, dx: int, px: int, total: int, d: int, step: int, far: int)
    requires
        -SCALE <= dx <= SCALE,
        0 <= far,
        -far <= d <= far,
        0 <= step,
        -(step * far) <= total <= step * far,
        spec_abs(o) + (step + 1) * (far + 1) <= LIMIT,
        dx * total - step * SCALE <= (px - o) * SCALE <= dx * total,
    ensures
        ({
            let next = saturate(px + spec_mul(dx, d));
            dx * (total + d) - (step + 1) * SCALE <= (next - o) * SCALE <= dx * (total + d)
        }),
        -((step + 1) * far) <= total + d <= (step + 1) * far,
        (step + 1) * far <= LIMIT,
{
    let s = SCALE as int;
    let sf = step * far;
    let e = dx * d;
    let g = dx * total;
    assert(0 <= sf) by (nonlinear_arith)
        requires
            sf == step * far,
            step >= 0,
            far >= 0,
    ;
    assert((step + 1) * (far + 1) == sf + step + far + 1 && (step + 1) * far == sf + far)
        by (nonlinear_arith)
        requires
            sf == step * far,
    ;
    lemma_mul_bounds(dx, d, s, far);
    lemma_mul_bounds(dx, total, s, sf);
    let f = e / s;
    assert(-far <= f <= far) by (nonlinear_arith)
        requires
            f == e / s,
            -(s * far) <= e <= s * far,
            s == 1_000_000_000,
    ;
    assert(spec_mul(dx, d) == f);
    assert(-(sf + step) <= px - o <= sf) by (nonlinear_arith)
        requires
            g - step * s <= (px - o) * s <= g,
            -(s * sf) <= g <= s * sf,
            s == 1_000_000_000,
    ;
    assert(dx * (total + d) == g + e) by (nonlinear_arith)
        requires
            g == dx * total,
            e == dx * d,
    ;
    assert((px + f - o) * s == (px - o) * s + f * s) by (nonlinear_arith);
    assert(e - s < f * s <= e) by (nonlinear_arith)
        requires
            f == e / s,
            s == 1_000_000_000,
    ;
}

/// A march stays on its ray: where it ends it stands at the origin plus
/// the direction times the way travelled, less at most one raw unit a step.
/// This holds where nothing leaves the range of the numbers: the direction
/// has no component beyond one, every step is at most `far` long, and the
/// origin lies `far + 1` a step within the range.
pub proof fn lemma_march_on_ray(
    m: MarchSetup,
    origin: Point,
    pos: Point,
    total: int,
    step: int,
    far: int,
)
    requires
        0 <= step <= m.limit,
        -SCALE <= m.dir.x <= SCALE,
        -SCALE <= m.dir.y <= SCALE,
        -SCALE <= m.dir.z <= SCALE,
        0 <= far,
        -far <= m.min_dist,
        m.max_dist <= far,
        spec_abs(origin.x) + m.limit * (far + 1) <= LIMIT,
        spec_abs(origin.y) + m.limit * (far + 1) <= LIMIT,
        spec_abs(origin.z) + m.limit * (far + 1) <= LIMIT,
        -(step * far) <= total <= step * far,
        spec_on_ray(origin, m.dir, pos, total, step),
    ensures
        ({
            let r = spec_march(m, pos, total, step);
            spec_on_ray(origin, m.dir, r.position, r.dist, r.steps)
        }),
    decreases m.limit - step,
{
    if step < m.limit {
        let s = spec_world(m.prims, m.default_material, pos, m.prims.len() as int);
        if total <= m.reach && s.distance >= m.min_dist && s.distance <= m.max_dist {
            let d = s.distance;
            assert((step + 1) * (far + 1) <= m.limit * (far + 1)) by (nonlinear_arith)
                requires
                    step + 1 <= m.limit,
                    far >= 0,
            ;
            lemma_axis_step(origin.x, m.dir.x, pos.x, total, d, step, far);
            lemma_axis_step(origin.y, m.dir.y, pos.y, total, d, step, far);
            lemma_axis_step(origin.z, m.dir.z, pos.z, total, d, step, far);
            assert(saturate(total + d) == total + d);
            lemma_march_on_ray(
                m,
                origin,
                spec_advance(pos, m.dir, d),
                saturate(total + d),
                step + 1,
                far,
            );
        }
    } else {
        assert(step == m.limit);
    }
}

/// In a scene without fields a march ends at once, and as a miss: no step
/// is taken and no way travelled. This needs the escape threshold to be
/// finite.
pub proof fn lemma_march_empty_scene(m: MarchSetup, pos: Point)
    requires
        m.prims.len() == 0,
        m.min_dist <= LIMIT,
        m.max_dist < LIMIT,
        m.limit >= 0,
    ensures
        !spec_march(m, pos, 0, 0).hit,
        spec_march(m, pos, 0, 0).steps == 0,
        spec_march(m, pos, 0, 0).dist == 0,
        spec_march(m, pos, 0, 0).position == pos,
{
}

/// A solver: the fields of a scene, and what it is tuned by.
pub struct GeneralSolver {
    pub primitives: Vec<Primitive>,
    pub default_material: MaterialRaw,
    pub tunables: Tunables,
}

impl GeneralSolver {
    /// A solver for the given fields, with the default tunables.
    pub fn new(primitives: Vec<Primitive>) -> (r: GeneralSolver)
        ensures
            r.primitives == primitives,
            r.default_material@ == spec_direct_material(),
            r.tunables.min_dist@ == crate::configuration::min_dist,
            r.tunables.max_dist@ == crate::configuration::max_dist,
            r.tunables.step_number == crate::configuration::step_number,
            r.tunables.light_min_dist@ == crate::configuration::light_min_dist,
            r.tunables.light_step_number == crate::configuration::light_step_number,
            r.tunables.small_step@ == crate::configuration::small_step,
    {
        GeneralSolver {
            primitives,
            default_material: Material::new_direct().snapshot(),
            tunables: Tunables::new(),
        }
    }

    /// A solver for the given fields, tuned as asked.
    pub fn with_tunables(primitives: Vec<Primitive>, tunables: Tunables) -> (r: GeneralSolver)
        ensures
            r.primitives == primitives,
            r.default_material@ == spec_direct_material(),
            r.tunables == tunables,
    {
        GeneralSolver { primitives, default_material: Material::new_direct().snapshot(), tunables }
    }

    /// The answer of the scene at `p`.
    pub open spec fn spec_map_world(&self, p: Point) -> Sample {
        spec_world(self.primitives@, self.default_material@, p, self.primitives@.len() as int)
    }

    /// What fixes the march of a primary ray along `dir`.
    pub open spec fn spec_setup(&self, dir: Point) -> MarchSetup {
        MarchSetup {
            prims: self.primitives@,
            default_material: self.default_material@,
            min_dist: self.tunables.min_dist@,
            max_dist: self.tunables.max_dist@,
            reach: LIMIT as int,
            limit: self.tunables.step_number as int,
            dir,
        }
    }

    /// What fixes the march of a shadow ray along `dir` towards a light
    /// at the raw distance `max_dist`.
    pub open spec fn spec_setup_simple(&self, dir: Point, max_dist: int) -> MarchSetup {
        MarchSetup {
            prims: self.primitives@,
            default_material: self.default_material@,
            min_dist: self.tunables.light_min_dist@,
            max_dist: self.tunables.max_dist@,
            reach: max_dist,
            limit: self.tunables.light_step_number as int,
            dir,
        }
    }

    /// What a primary ray finds: the outcome of its march and, on a hit,
    /// the normal at the point reached; the normal of a miss is zero.
    pub open spec fn spec_solve(&self, origin: Point, dir: Point) -> IntersectionView {
        let r = spec_march(self.spec_setup(dir), origin, 0, 0);
        IntersectionView {
            hit: r.hit,
            dist: r.dist,
            steps: r.steps,
            position: r.position,
            normal: if r.hit {
                spec_normal(
                    self.primitives@,
                    self.default_material@,
                    self.tunables.small_step@,
                    r.position,
                )
            } else {
                Point { x: 0, y: 0, z: 0 }
            },
            fractal_data: r.fractal_data,
            material: r.material,
        }
    }

    /// The answer of the scene at `pos`: the nearest of the answers of its
    /// fields, and "infinitely far" where there is none.
    pub fn _map_world(&self, pos: [Fixed; 3]) -> (r: PrimitiveResult)
        ensures
            r@ == self.spec_map_world(point_of(pos)),
    {
        let mut prim: PrimitiveResult = PrimitiveResult::nothing(self.default_material);
        let mut i: usize = 0;
        while i < self.primitives.len()
            invariant
                i <= self.primitives.len(),
                prim@ == spec_world(
                    self.primitives@,
                    self.default_material@,
                    point_of(pos),
                    i as int,
                ),
            decreases self.primitives.len() - i,
        {
            let dist: PrimitiveResult = self.primitives[i].map_primitive(pos);
            if dist.distance.lt(prim.distance) {
                prim = dist;
            }
            i = i + 1;
        }
        prim
    }

    /// The unit normal of the scene's field at `pos`.
    pub fn _calculate_normal(&self, pos: [Fixed; 3]) -> (r: [Fixed; 3])
        ensures
            point_of(r) == spec_normal(
                self.primitives@,
                self.default_material@,
                self.tunables.small_step@,
                point_of(pos),
            ),
    {
        let e: Fixed = self.tunables.small_step;
        let gradient_x: Fixed = self._map_world([pos[0].add(e), pos[1], pos[2]]).distance.sub(
            self._map_world([pos[0].sub(e), pos[1], pos[2]]).distance,
        );
        let gradient_y: Fixed = self._map_world([pos[0], pos[1].add(e), pos[2]]).distance.sub(
            self._map_world([pos[0], pos[1].sub(e), pos[2]]).distance,
        );
        let gradient_z: Fixed = self._map_world([pos[0], pos[1], pos[2].add(e)]).distance.sub(
            self._map_world([pos[0], pos[1], pos[2].sub(e)]).distance,
        );
        vec3_normalized([gradient_x, gradient_y, gradient_z])
    }

    /// Marches from `pos` along `dir` under the given thresholds.
    #[verifier::rlimit(50)]
    fn march(
        &self,
        pos: [Fixed; 3],
        dir: [Fixed; 3],
        near: Fixed,
        far: Fixed,
        reach: Fixed,
        limit: u32,
    ) -> (r: Solve)
        ensures
            r@ == spec_march(
                MarchSetup {
                    prims: self.primitives@,
                    default_material: self.default_material@,
                    min_dist: near@,
                    max_dist: far@,
                    reach: reach@,
                    limit: limit as int,
                    dir: point_of(dir),
                },
                point_of(pos),
                0,
                0,
            ),
    {
        let ghost m = MarchSetup {
            prims: self.primitives@,
            default_material: self.default_material@,
            min_dist: near@,
            max_dist: far@,
            reach: reach@,
            limit: limit as int,
            dir: point_of(dir),
        };
        let mut mapped_pos: [Fixed; 3] = pos;
        let mut total_dist: Fixed = Fixed::zero();
        let mut i: u32 = 0;
        while i < limit
            invariant
                i <= limit,
                m.limit == limit,
                m.prims == self.primitives@,
                m.default_material == self.default_material@,
                m.min_dist == near@,
                m.max_dist == far@,
                m.reach == reach@,
                m.dir == point_of(dir),
                spec_march(m, point_of(pos), 0, 0) == spec_march(
                    m,
                    point_of(mapped_pos),
                    total_dist@,
                    i as int,
                ),
            decreases limit - i,
        {
            let dist: PrimitiveResult = self._map_world(mapped_pos);
            let ghost here = spec_march(m, point_of(mapped_pos), total_dist@, i as int);
            let ghost s = spec_world(
                m.prims,
                m.default_material,
                point_of(mapped_pos),
                m.prims.len() as int,
            );
            assert(dist@ == s);
            if total_dist.gt(reach) {
                return Solve {
                    hit: false,
                    dist: total_dist,
                    fractal_data: dist.fractal_data,
                    steps: i,
                    pos: mapped_pos,
                    material: dist.material,
                };
            }
            if dist.distance.lt(near) {
                return Solve {
                    hit: true,
                    dist: total_dist,
                    fractal_data: dist.fractal_data,
                    steps: i,
                    pos: mapped_pos,
                    material: dist.material,
                };
            }
            if dist.distance.gt(far) {
                return Solve {
                    hit: false,
                    dist: total_dist,
                    fractal_data: dist.fractal_data,
                    steps: i,
                    pos: mapped_pos,
                    material: dist.material,
                };
            }
            total_dist = total_dist.add(dist.distance);
            mapped_pos =
            [
                mapped_pos[0].add(dir[0].mul(dist.distance)),
                mapped_pos[1].add(dir[1].mul(dist.distance)),
                mapped_pos[2].add(dir[2].mul(dist.distance)),
            ];
            i = i + 1;
        }
        let z: Fixed = Fixed::zero();
        Solve {
            hit: false,
            dist: total_dist,
            fractal_data: [z, z, z, z],
            steps: limit,
            pos: mapped_pos,
            material: self.default_material,
        }
    }

    /// Marches a primary ray from `pos` along `dir`.
    pub fn _solve_world(&self, pos: [Fixed; 3], dir: [Fixed; 3]) -> (r: Solve)
        ensures
            r@ == spec_march(self.spec_setup(point_of(dir)), point_of(pos), 0, 0),
    {
        self.march(
            pos,
            dir,
            self.tunables.min_dist,
            self.tunables.max_dist,
            Fixed::infinity(),
            self.tunables.step_number,
        )
    }

    /// Marches a shadow ray from `pos` along `dir` towards a light at the
    /// distance `max_dist`. Once the way travelled exceeds that distance the
    /// march ends as a miss: what lies beyond the light casts no shadow.
    pub fn _solve_world_simple(&self, pos: [Fixed; 3], dir: [Fixed; 3], max_dist: Fixed) -> (r:
        SolveSimple)
        ensures
            ({
                let v = spec_march(
                    self.spec_setup_simple(point_of(dir), max_dist@),
                    point_of(pos),
                    0,
                    0,
                );
                &&& r.hit == v.hit
                &&& r.dist@ == v.dist
                &&& r.steps == v.steps
            }),
            r.hit ==> r.dist@ <= max_dist@,
    {
        proof {
            lemma_march_outcome(
                self.spec_setup_simple(point_of(dir), max_dist@),
                point_of(pos),
                0,
                0,
            );
        }
        let res: Solve = self.march(
            pos,
            dir,
            self.tunables.light_min_dist,
            self.tunables.max_dist,
            max_dist,
            self.tunables.light_step_number,
        );
        SolveSimple { hit: res.hit, dist: res.dist, steps: res.steps }
    }

    /// Solves a primary ray: marches it through the scene and, where it
    /// hits, estimates the normal there.
    pub fn solve(&self, ray: Ray) -> (r: IntersectionInfo)
        ensures
            r@ == self.spec_solve(point_of(ray.origin), point_of(ray.direction)),
            r.steps <= self.tunables.step_number,
            r.hit ==> r.steps < self.tunables.step_number && self.spec_map_world(
                point_of(r.position),
            ).distance < self.tunables.min_dist@,
            self.primitives@.len() == 0 && self.tunables.max_dist@ < LIMIT ==> !r.hit && r.steps
                == 0 && r.dist@ == 0,
    {
        proof {
            let m = self.spec_setup(point_of(ray.direction));
            lemma_march_outcome(m, point_of(ray.origin), 0, 0);
            self.tunables.min_dist.lemma_bounded();
            if self.primitives@.len() == 0 && self.tunables.max_dist@ < LIMIT {
                lemma_march_empty_scene(m, point_of(ray.origin));
            }
        }
        let res: Solve = self._solve_world(ray.origin, ray.direction);
        let z: Fixed = Fixed::zero();
        let normal: [Fixed; 3] = if res.hit {
            self._calculate_normal(res.pos)
        } else {
            [z, z, z]
        };
        IntersectionInfo {
            dist: res.dist,
            hit: res.hit,
            fractal_data: res.fractal_data,
            normal,
            position: res.pos,
            steps: res.steps,
            material: res.material,
        }
    }

    /// Solves a shadow ray towards a light at the distance `max_dist`:
    /// whether anything stands in the way. What lies beyond the light does
    /// not: a hit has travelled no further than `max_dist`.
    pub fn solve_simple(&self, ray: Ray, max_dist: Fixed) -> (r: IntersectionInfoSimple)
        ensures
            ({
                let v = spec_march(
                    self.spec_setup_simple(point_of(ray.direction), max_dist@),
                    point_of(ray.origin),
                    0,
                    0,
                );
                &&& r.hit == v.hit
                &&& r.dist@ == v.dist
                &&& r.steps == v.steps
            }),
            r.steps <= self.tunables.light_step_number,
            r.hit ==> r.steps < self.tunables.light_step_number,
            r.hit ==> r.dist@ <= max_dist@,
    {
        proof {
            lemma_march_outcome(
                self.spec_setup_simple(point_of(ray.direction), max_dist@),
                point_of(ray.origin),
                0,
                0,
            );
        }
        let res: SolveSimple = self._solve_world_simple(ray.origin, ray.direction, max_dist);
        IntersectionInfoSimple { hit: res.hit, dist: res.dist, steps: res.steps }
    }

    /// Refreshes every field of the scene from `snapshot`.
    pub fn evaluate(&mut self, snapshot: &Snapshot)
        ensures
            final(self).primitives@.len() == old(self).primitives@.len(),
            forall|i: int|
                0 <= i < old(self).primitives@.len() ==> spec_evaluated(
                    #[trigger] old(self).primitives@[i],
                    final(self).primitives@[i],
                    snapshot,
                ),
            final(self).default_material == old(self).default_material,
            final(self).tunables == old(self).tunables,
    {
        let ghost before = self.primitives@;
        let mut i: usize = 0;
        while i < self.primitives.len()
            invariant
                i <= self.primitives.len(),
                before == old(self).primitives@,
                self.primitives@.len() == before.len(),
                self.default_material == old(self).default_material,
                self.tunables == old(self).tunables,
                forall|j: int| i <= j < before.len() ==> self.primitives@[j] == before[j],
                forall|j: int|
                    0 <= j < i ==> spec_evaluated(
                        #[trigger] before[j],
                        self.primitives@[j],
                        snapshot,
                    ),
            decreases self.primitives.len() - i,
        {
            self.primitives[i].evaluate(snapshot);
            i = i + 1;
        }
    }
}

/// A scene answers a point in one way only: any two answers that a query
/// may give agree in every value.
pub proof fn lemma_query_deterministic(
    node: Primitive,
    p: Point,
    first: PrimitiveResult,
    second: PrimitiveResult,
)
    requires
        first@ == spec_query(node, p),
        second@ == spec_query(node, p),
    ensures
        first@ == second@,
        first.distance@ == second.distance@,
        first.material@ == second.material@,
{
}

/// What a primary ray finds lies on the ray: the position is the origin
/// plus the direction times the way travelled, less at most one raw unit a
/// step. `far` bounds the length of a step; the origin lies `far + 1` a
/// step within the range of the numbers.
pub proof fn lemma_solve_on_ray(solver: &GeneralSolver, origin: Point, dir: Point, far: int)
    requires
        -SCALE <= dir.x <= SCALE,
        -SCALE <= dir.y <= SCALE,
        -SCALE <= dir.z <= SCALE,
        0 <= far,
        -far <= solver.tunables.min_dist@,
        solver.tunables.max_dist@ <= far,
        spec_abs(origin.x) + solver.tunables.step_number * (far + 1) <= LIMIT,
        spec_abs(origin.y) + solver.tunables.step_number * (far + 1) <= LIMIT,
        spec_abs(origin.z) + solver.tunables.step_number * (far + 1) <= LIMIT,
    ensures
        ({
            let r = solver.spec_solve(origin, dir);
            spec_on_ray(origin, dir, r.position, r.dist, r.steps as int)
        }),
{
    assert(0 * far == 0);
    assert(dir.x * 0 == 0 && dir.y * 0 == 0 && dir.z * 0 == 0);
    assert(0 * SCALE == 0);
    lemma_march_on_ray(solver.spec_setup(dir), origin, origin, 0, 0, far);
}

/// A solver answers a ray in one way only: any two answers that `solve`
/// may give agree in every value.
pub proof fn lemma_solve_deterministic(
    solver: &GeneralSolver,
    ray: Ray,
    first: IntersectionInfo,
    second: IntersectionInfo,
)
    requires
        first@ == solver.spec_solve(point_of(ray.origin), point_of(ray.direction)),
        second@ == solver.spec_solve(point_of(ray.origin), point_of(ray.direction)),
    ensures
        first@ == second@,
        first.hit == second.hit,
        first.steps == second.steps,
        first.dist@ == second.dist@,
        point_of(first.position) == point_of(second.position),
        point_of(first.normal) == point_of(second.normal),
{
}

} // verus!
