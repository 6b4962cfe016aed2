//! A scene as it is described from outside, and the fields it stands for.
//!
//! A description lists objects, each with a kind and up to ten values, and
//! group modifiers, each of which combines two to four objects by a rule. The
//! fields of the scene are one group for every group modifier that names its
//! first two objects and has a known rule, and then every object that no
//! group modifier names.

use crate::animation::{frame_time, spec_frame_time, Animation, Source};
use crate::evaluator::{Evaluator, EvaluatorPointer, Keyframe, KeyframeEvaluator};
use crate::fixed::{saturate, spec_mul, Fixed, LIMIT, SCALE};
use crate::fractal::Mandelbulb;
use crate::helpers::mat_identity;
use crate::parameter::Param;
use crate::primitive::{
    Cube, GroupModifierType, GroupPrimitive, Material, MaterialView, Primitive, Sphere, Torus,
};
use vstd::prelude::*;

verus! {

/// A warp of an object, as described: a code and up to five attributes.
#[derive(Clone, Copy, Debug)]
pub struct SceneModifier {
    pub attribute0: Param,
    pub attribute1: Param,
    pub attribute2: Param,
    pub attribute3: Param,
    pub attribute4: Param,
    pub modifier: i32,
}

/// A group, as described: up to four objects by their index, `-1` for
/// none, the smoothing factor and the code of the rule.
#[derive(Clone, Copy, Debug)]
pub struct SceneGroupModifier {
    pub prim0: i32,
    pub prim1: i32,
    pub prim2: i32,
    pub prim3: i32,
    pub prim_attribute: Param,
    pub modifier: i32,
}

/// An object, as described: the inverse of its transform, the slot that
/// refreshes it, the code of its kind and its values.
pub struct SceneObject {
    pub mat_inv: [[Fixed; 4]; 4],
    pub transform_slot: Option<usize>,
    pub prim_type: i32,
    pub values: [Param; 10],
    pub modifiers: Vec<SceneModifier>,
}

/// The camera, as described: its position, and its pitch and yaw.
#[derive(Clone, Copy, Debug)]
pub struct Camera {
    pub cam_pos: [Param; 3],
    pub cam_py: [Param; 2],
}

/// A scene, as described.
pub struct Scene {
    pub objects: Vec<SceneObject>,
    pub group_modifiers: Vec<SceneGroupModifier>,
    pub camera: Camera,
}

/// The material of every object of a described scene: albedo 1,
/// specular 0.8, diffuse 0.2, exponent 10.
pub open spec fn spec_scene_material() -> MaterialView {
    MaterialView {
        albedo: 1_000_000_000,
        specular: 800_000_000,
        diffuse: 200_000_000,
        n_specular: 10_000_000_000,
    }
}

/// The rule that a code stands for: 1 to 6, in the order of the rules.
pub open spec fn spec_rule(code: i32) -> Option<GroupModifierType> {
    if code == 1 {
        Some(GroupModifierType::Union)
    } else if code == 2 {
        Some(GroupModifierType::Subtraction)
    } else if code == 3 {
        Some(GroupModifierType::Intersection)
    } else if code == 4 {
        Some(GroupModifierType::SmoothUnion)
    } else if code == 5 {
        Some(GroupModifierType::SmoothSubtraction)
    } else if code == 6 {
        Some(GroupModifierType::SmoothIntersection)
    } else {
        None
    }
}

/// Whether a rule rounds where fields meet.
pub open spec fn spec_is_smooth(rule: GroupModifierType) -> bool {
    rule == GroupModifierType::SmoothUnion || rule == GroupModifierType::SmoothSubtraction || rule
        == GroupModifierType::SmoothIntersection
}

impl SceneGroupModifier {
    /// Whether the group names its first two objects: only then does it
    /// take any object out of the scene.
    pub open spec fn spec_takes_part(&self) -> bool {
        self.prim0 != -1 && self.prim1 != -1
    }

    /// The objects of the group, in order: the first two, then the third
    /// and the fourth where they are named.
    pub open spec fn spec_members(&self) -> Seq<int> {
        let first = seq![self.prim0 as int, self.prim1 as int];
        let third = if self.prim2 != -1 {
            first.push(self.prim2 as int)
        } else {
            first
        };
        if self.prim3 != -1 {
            third.push(self.prim3 as int)
        } else {
            third
        }
    }

    /// Whether the group names the object `i`.
    pub open spec fn spec_names(&self, i: int) -> bool {
        self.spec_takes_part() && (self.prim0 == i || self.prim1 == i || self.prim2 == i
            || self.prim3 == i)
    }

    /// Whether the group stands for a field: it names its first two
    /// objects and its rule is known.
    pub open spec fn spec_makes_group(&self) -> bool {
        self.spec_takes_part() && spec_rule(self.modifier).is_some()
    }

    /// Whether every object that the group names is one of `n` objects.
    pub open spec fn spec_in_range(&self, n: int) -> bool {
        self.spec_takes_part() ==> {
            &&& 0 <= self.prim0 < n
            &&& 0 <= self.prim1 < n
            &&& -1 <= self.prim2 < n
            &&& -1 <= self.prim3 < n
        }
    }

    /// Whether every object that the group names is one of `n` objects.
    pub fn in_range(&self, n: usize) -> (r: bool)
        ensures
            r == self.spec_in_range(n as int),
    {
        if self.prim0 != -1 && self.prim1 != -1 {
            let count: i128 = n as i128;
            0 <= self.prim0 && (self.prim0 as i128) < count && 0 <= self.prim1 && (
            self.prim1 as i128) < count && -1 <= self.prim2 && (self.prim2 as i128) < count && -1
                <= self.prim3 && (self.prim3 as i128) < count
        } else {
            true
        }
    }
}

/// Whether some group among the first `k` names the object `i`.
pub open spec fn spec_grouped(groups: Seq<SceneGroupModifier>, i: int, k: int) -> bool {
    exists|g: int| 0 <= g < k && g < groups.len() && (#[trigger] groups[g]).spec_names(i)
}

/// The groups among the first `k` that stand for a field, by their index.
pub open spec fn spec_groups_made(groups: Seq<SceneGroupModifier>, k: int) -> Seq<int>
    decreases k,
{
    if k <= 0 || k > groups.len() {
        Seq::empty()
    } else if groups[k - 1].spec_makes_group() {
        spec_groups_made(groups, k - 1).push(k - 1)
    } else {
        spec_groups_made(groups, k - 1)
    }
}

/// The objects among the first `k` that no group names, by their index.
pub open spec fn spec_loose(groups: Seq<SceneGroupModifier>, k: int) -> Seq<int>
    decreases k,
{
    if k <= 0 {
        Seq::empty()
    } else if spec_grouped(groups, k - 1, groups.len() as int) {
        spec_loose(groups, k - 1)
    } else {
        spec_loose(groups, k - 1).push(k - 1)
    }
}

/// Whether the field `p` is the one that the object `so` stands for: a
/// sphere where its code is 1, a torus for 2, a box for 3 and the bulb for any
/// other, with the object's values and transform, without warps, and (but
/// for the bulb) with the scene's material.
pub open spec fn spec_stands_for(p: Primitive, so: SceneObject) -> bool {
    if so.prim_type == 1 {
        &&& p matches Primitive::Sphere(s)
        &&& s.rad == so.values[0]
        &&& s.primtive_data.mat_inv == so.mat_inv
        &&& s.primtive_data.transform_slot == so.transform_slot
        &&& s.primtive_data.pos_modifier@.len() == 0
        &&& s.material_raw@ == spec_scene_material()
        &&& s.material.spec_raw() == spec_scene_material()
        &&& s.material.is_constant()
    } else if so.prim_type == 2 {
        &&& p matches Primitive::Torus(s)
        &&& s.rad == so.values[0]
        &&& s.ring_rad == so.values[1]
        &&& s.primtive_data.mat_inv == so.mat_inv
        &&& s.primtive_data.transform_slot == so.transform_slot
        &&& s.primtive_data.pos_modifier@.len() == 0
        &&& s.material_raw@ == spec_scene_material()
        &&& s.material.spec_raw() == spec_scene_material()
        &&& s.material.is_constant()
    } else if so.prim_type == 3 {
        &&& p matches Primitive::Cube(s)
        &&& s.bounds[0] == so.values[0]
        &&& s.bounds[1] == so.values[1]
        &&& s.bounds[2] == so.values[2]
        &&& s.primtive_data.mat_inv == so.mat_inv
        &&& s.primtive_data.transform_slot == so.transform_slot
        &&& s.primtive_data.pos_modifier@.len() == 0
        &&& s.material_raw@ == spec_scene_material()
        &&& s.material.spec_raw() == spec_scene_material()
        &&& s.material.is_constant()
    } else {
        &&& p matches Primitive::Mandelbulb(s)
        &&& s.power == so.values[0]
        &&& s.primtive_data.mat_inv == so.mat_inv
        &&& s.primtive_data.transform_slot == so.transform_slot
        &&& s.primtive_data.pos_modifier@.len() == 0
    }
}

/// Whether the field `p` is the group that `g` stands for: its rule, its
/// factor where the rule is smooth, and one child for every member, in order.
pub open spec fn spec_group_stands_for(
    p: Primitive,
    g: SceneGroupModifier,
    objects: Seq<SceneObject>,
) -> bool {
    &&& p matches Primitive::Group(grp)
    &&& Some(grp.group_primitive_type) == spec_rule(g.modifier)
    &&& if spec_is_smooth(grp.group_primitive_type) {
        grp.factor_f == g.prim_attribute && grp.factor == g.prim_attribute.value
    } else {
        grp.factor@ == 0 && grp.factor_f.slot.is_none()
    }
    &&& grp.prims@.len() == g.spec_members().len()
    &&& forall|j: int|
        0 <= j < grp.prims@.len() ==> spec_stands_for(
            #[trigger] grp.prims@[j],
            objects[g.spec_members()[j]],
        )
}

/// The rule that a code stands for.
pub fn rule_of(code: i32) -> (r: Option<GroupModifierType>)
    ensures
        r == spec_rule(code),
{
    if code == 1 {
        Some(GroupModifierType::Union)
    } else if code == 2 {
        Some(GroupModifierType::Subtraction)
    } else if code == 3 {
        Some(GroupModifierType::Intersection)
    } else if code == 4 {
        Some(GroupModifierType::SmoothUnion)
    } else if code == 5 {
        Some(GroupModifierType::SmoothSubtraction)
    } else if code == 6 {
        Some(GroupModifierType::SmoothIntersection)
    } else {
        None
    }
}

/// The field that an object stands for.
pub fn add_prim(so: &SceneObject) -> (r: Primitive)
    ensures
        spec_stands_for(r, *so),
{
    let m: Material = Material::new(
        Param::constant(Fixed::from_raw(1_000_000_000)),
        Param::constant(Fixed::from_raw(800_000_000)),
        Param::constant(Fixed::from_raw(200_000_000)),
        Param::constant(Fixed::from_raw(10_000_000_000)),
    );
    if so.prim_type == 1 {
        return Primitive::Sphere(
            Sphere::new(so.values[0], so.mat_inv, so.transform_slot, Vec::new(), Some(m)),
        );
    }
    if so.prim_type == 2 {
        return Primitive::Torus(
            Torus::new(
                so.values[0],
                so.values[1],
                so.mat_inv,
                so.transform_slot,
                Vec::new(),
                Some(m),
            ),
        );
    }
    if so.prim_type == 3 {
        return Primitive::Cube(
            Cube::new(
                [so.values[0], so.values[1], so.values[2]],
                so.mat_inv,
                so.transform_slot,
                Vec::new(),
                Some(m),
            ),
        );
    } else {
        return Primitive::Mandelbulb(
            Mandelbulb::new(so.values[0], so.mat_inv, so.transform_slot, Vec::new()),
        );
    }
}

/// Whether `found` lists the index `i`.
spec fn spec_listed(found: Seq<i32>, i: int) -> bool {
    exists|j: int| 0 <= j < found.len() && #[trigger] found[j] == i
}

/// Whether `found` lists an index exactly where one of the first `k` groups names it.
spec fn spec_records(found: Seq<i32>, groups: Seq<SceneGroupModifier>, k: int) -> bool {
    forall|i: int| 0 <= i ==> (#[trigger] spec_listed(found, i) <==> spec_grouped(groups, i, k))
}

impl Scene {
    /// Whether every group names objects of the scene only.
    pub open spec fn spec_well_formed(&self) -> bool {
        &&& self.objects@.len() <= i32::MAX
        &&& forall|g: int|
            0 <= g < self.group_modifiers@.len() ==> (#[trigger] self.group_modifiers@[g]).spec_in_range(
                self.objects@.len() as int,
            )
    }

    /// Whether every group names objects of the scene only.
    pub fn well_formed(&self) -> (r: bool)
        ensures
            r == self.spec_well_formed(),
    {
        if self.objects.len() > i32::MAX as usize {
            return false;
        }
        let mut g: usize = 0;
        while g < self.group_modifiers.len()
            invariant
                g <= self.group_modifiers.len(),
                forall|h: int|
                    0 <= h < g ==> (#[trigger] self.group_modifiers@[h]).spec_in_range(
                        self.objects@.len() as int,
                    ),
            decreases self.group_modifiers.len() - g,
        {
            if !self.group_modifiers[g].in_range(self.objects.len()) {
                return false;
            }
            g = g + 1;
        }
        true
    }

    /// Whether `fields` are the fields of the scene: one group for every
    /// group modifier that stands for one, in their order, and then every
    /// object that no group names, in their order.
    pub open spec fn spec_built(&self, fields: Seq<Primitive>) -> bool {
        let groups = spec_groups_made(self.group_modifiers@, self.group_modifiers@.len() as int);
        let loose = spec_loose(self.group_modifiers@, self.objects@.len() as int);
        &&& fields.len() == groups.len() + loose.len()
        &&& forall|k: int|
            0 <= k < groups.len() ==> spec_group_stands_for(
                #[trigger] fields[k],
                self.group_modifiers@[groups[k]],
                self.objects@,
            )
        &&& forall|k: int|
            0 <= k < loose.len() ==> spec_stands_for(
                #[trigger] fields[groups.len() + k],
                self.objects@[loose[k]],
            )
    }

    /// The fields of the scene: one group for every group modifier that
    /// stands for one, in their order, and then every object that no group
    /// names, in their order.
    pub fn build_primitives(&self) -> (r: Vec<Primitive>)
        requires
            self.spec_well_formed(),
        ensures
            self.spec_built(r@),
    {
        let mut primitives: Vec<Primitive> = Vec::new();
        let mut group_modifier_indices: Vec<i32> = Vec::new();
        let ghost gms = self.group_modifiers@;
        let ghost objects = self.objects@;
        let mut g: usize = 0;
        while g < self.group_modifiers.len()
            invariant
                g <= self.group_modifiers.len(),
                gms == self.group_modifiers@,
                objects == self.objects@,
                self.spec_well_formed(),
                spec_records(group_modifier_indices@, gms, g as int),
                primitives@.len() == spec_groups_made(gms, g as int).len(),
                forall|k: int|
                    0 <= k < primitives@.len() ==> spec_group_stands_for(
                        #[trigger] primitives@[k],
                        gms[spec_groups_made(gms, g as int)[k]],
                        objects,
                    ),
            decreases self.group_modifiers.len() - g,
        {
            let go: SceneGroupModifier = self.group_modifiers[g];
            let ghost before = group_modifier_indices@;
            assert(go.spec_in_range(objects.len() as int));
            if go.prim0 != -1 && go.prim1 != -1 {
                let mut cur_prims: Vec<Primitive> = Vec::new();
                group_modifier_indices.push(go.prim0);
                cur_prims.push(add_prim(&self.objects[go.prim0 as usize]));
                group_modifier_indices.push(go.prim1);
                cur_prims.push(add_prim(&self.objects[go.prim1 as usize]));
                if go.prim2 != -1 {
                    group_modifier_indices.push(go.prim2);
                    cur_prims.push(add_prim(&self.objects[go.prim2 as usize]));
                }
                if go.prim3 != -1 {
                    group_modifier_indices.push(go.prim3);
                    cur_prims.push(add_prim(&self.objects[go.prim3 as usize]));
                }
                assert(cur_prims@.len() == go.spec_members().len());
                assert forall|j: int| 0 <= j < cur_prims@.len() implies spec_stands_for(
                    #[trigger] cur_prims@[j],
                    objects[go.spec_members()[j]],
                ) by {}
                let ghost old_prims = primitives@;
                match rule_of(go.modifier) {
                    Some(GroupModifierType::Union) => {
                        primitives.push(Primitive::Group(GroupPrimitive::new_union(cur_prims)));
                    },
                    Some(GroupModifierType::Subtraction) => {
                        primitives.push(
                            Primitive::Group(GroupPrimitive::new_subtraction(cur_prims)),
                        );
                    },
                    Some(GroupModifierType::Intersection) => {
                        primitives.push(
                            Primitive::Group(GroupPrimitive::new_intersection(cur_prims)),
                        );
                    },
                    Some(GroupModifierType::SmoothUnion) => {
                        primitives.push(
                            Primitive::Group(
                                GroupPrimitive::new_union_smooth(cur_prims, go.prim_attribute),
                            ),
                        );
                    },
                    Some(GroupModifierType::SmoothSubtraction) => {
                        primitives.push(
                            Primitive::Group(
                                GroupPrimitive::new_subtraction_smooth(cur_prims, go.prim_attribute),
                            ),
                        );
                    },
                    Some(GroupModifierType::SmoothIntersection) => {
                        primitives.push(
                            Primitive::Group(
                                GroupPrimitive::new_intersection_smooth(
                                    cur_prims,
                                    go.prim_attribute,
                                ),
                            ),
                        );
                    },
                    None => {},
                }
                proof {
                    let made = spec_groups_made(gms, g as int);
                    let made_next = spec_groups_made(gms, g + 1);
                    if go.spec_makes_group() {
                        assert(made_next == made.push(g as int));
                        assert forall|k: int|
                            0 <= k < primitives@.len() implies spec_group_stands_for(
                            #[trigger] primitives@[k],
                            gms[made_next[k]],
                            objects,
                        ) by {
                            if k < old_prims.len() {
                                assert(primitives@[k] == old_prims[k]);
                            }
                        }
                    } else {
                        assert(made_next == made);
                    }
                }
            }
            proof {
                let found = group_modifier_indices@;
                assert forall|i: int| 0 <= i implies (#[trigger] spec_listed(found, i)
                    <==> spec_grouped(gms, i, g + 1)) by {
                    assert(spec_listed(before, i) <==> spec_grouped(gms, i, g as int));
                    if go.spec_takes_part() {
                        assert(forall|j: int| 0 <= j < before.len() ==> found[j] == before[j]);
                        assert(found[before.len() as int] == go.prim0);
                        assert(found[before.len() as int + 1] == go.prim1);
                    } else {
                        assert(found == before);
                    }
                    if spec_grouped(gms, i, g + 1) {
                        let h = choose|h: int|
                            0 <= h < g + 1 && h < gms.len() && (#[trigger] gms[h]).spec_names(i);
                        if h < g {
                            assert(spec_grouped(gms, i, g as int));
                            let j = choose|j: int| 0 <= j < before.len() && #[trigger] before[j] == i;
                            assert(found[j] == i);
                        } else {
                            assert(gms[h] == go);
                            if go.prim0 == i {
                                assert(found[before.len() as int] == i);
                            } else if go.prim1 == i {
                                assert(found[before.len() as int + 1] == i);
                            } else if go.prim2 == i {
                                assert(found[before.len() as int + 2] == i);
                            } else {
                                assert(go.prim3 == i);
                                if go.prim2 != -1 {
                                    assert(found[before.len() as int + 3] == i);
                                } else {
                                    assert(found[before.len() as int + 2] == i);
                                }
                            }
                        }
                        assert(spec_listed(found, i));
                    }
                    if spec_listed(found, i) {
                        let j = choose|j: int| 0 <= j < found.len() && #[trigger] found[j] == i;
                        if j < before.len() {
                            assert(before[j] == i);
                            assert(spec_listed(before, i));
                            let h = choose|h: int|
                                0 <= h < g && h < gms.len() && (#[trigger] gms[h]).spec_names(i);
                            assert(gms[h].spec_names(i));
                        } else {
                            assert(go.spec_names(i));
                            assert(gms[g as int].spec_names(i));
                        }
                        assert(spec_grouped(gms, i, g + 1));
                    }
                }
            }
            g = g + 1;
        }
        let ghost made = spec_groups_made(gms, gms.len() as int);
        let ghost group_fields = primitives@;
        let mut so: usize = 0;
        while so < self.objects.len()
            invariant
                so <= self.objects.len(),
                gms == self.group_modifiers@,
                objects == self.objects@,
                objects.len() <= i32::MAX,
                made == spec_groups_made(gms, gms.len() as int),
                group_fields.len() == made.len(),
                spec_records(group_modifier_indices@, gms, gms.len() as int),
                primitives@.len() == made.len() + spec_loose(gms, so as int).len(),
                forall|k: int| 0 <= k < made.len() ==> #[trigger] primitives@[k] == group_fields[k],
                forall|k: int|
                    0 <= k < spec_loose(gms, so as int).len() ==> spec_stands_for(
                        #[trigger] primitives@[made.len() + k],
                        objects[spec_loose(gms, so as int)[k]],
                    ),
            decreases self.objects.len() - so,
        {
            let mut found: bool = false;
            let mut i: usize = 0;
            while i < group_modifier_indices.len()
                invariant
                    i <= group_modifier_indices.len(),
                    so < self.objects.len(),
                    self.objects@.len() <= i32::MAX,
                    found <==> exists|j: int| 0 <= j < i && #[trigger] group_modifier_indices@[j] == so,
                decreases group_modifier_indices.len() - i,
            {
                if group_modifier_indices[i] == so as i32 {
                    found = true;
                }
                i = i + 1;
            }
            let ghost old_prims = primitives@;
            let ghost loose = spec_loose(gms, so as int);
            if !found {
                primitives.push(add_prim(&self.objects[so]));
            }
            proof {
                let listed = spec_listed(group_modifier_indices@, so as int);
                assert(found <==> listed);
                assert(listed <==> spec_grouped(gms, so as int, gms.len() as int));
                let loose_next = spec_loose(gms, so + 1);
                if found {
                    assert(loose_next == loose);
                } else {
                    assert(loose_next == loose.push(so as int));
                    assert forall|k: int| 0 <= k < loose_next.len() implies spec_stands_for(
                        #[trigger] primitives@[made.len() + k],
                        objects[loose_next[k]],
                    ) by {
                        if k < loose.len() {
                            assert(primitives@[made.len() + k] == old_prims[made.len() + k]);
                        }
                    }
                }
                assert forall|k: int| 0 <= k < made.len() implies #[trigger] primitives@[k]
                    == group_fields[k] by {
                    assert(primitives@[k] == old_prims[k]);
                }
            }
            so = so + 1;
        }
        primitives
    }
}

/// A keyframe of a described value: the frame it stands at, its value and
/// the handles of the curve through it.
#[derive(Clone, Copy, Debug)]
pub struct JsonAnimationKeyframe {
    pub frame: u32,
    pub value: Fixed,
    pub inter_x_in: Fixed,
    pub inter_x_out: Fixed,
    pub inter_y_in: Fixed,
    pub inter_y_out: Fixed,
}

/// A described value: a plain value, or a track of keyframes.
pub struct JsonAnimationFloat {
    pub keyframes: Option<Vec<JsonAnimationKeyframe>>,
    pub value: Fixed,
}

/// A described value `v` with `add` added and the sum multiplied by `mul`.
pub open spec fn spec_offset(v: int, add: int, mul: int) -> int {
    spec_mul(saturate(v + add), mul)
}

/// Whether `k` is the keyframe that the described keyframe `n` becomes
/// under an offset.
pub open spec fn spec_keyframe_of(n: JsonAnimationKeyframe, add: int, mul: int, k: Keyframe) -> bool {
    &&& k.frame@ == spec_frame_time(n.frame)
    &&& k.value@ == spec_offset(n.value@, add, mul)
    &&& k.inter_x_in == n.inter_x_in
    &&& k.inter_x_out == n.inter_x_out
    &&& k.inter_y_in == n.inter_y_in
    &&& k.inter_y_out == n.inter_y_out
}

/// Whether `e` writes the track `p`, under an offset, into the slot `slot`.
pub open spec fn spec_track_of(
    p: Seq<JsonAnimationKeyframe>,
    add: int,
    mul: int,
    e: EvaluatorPointer,
    slot: usize,
) -> bool {
    &&& e.pointer == slot
    &&& match e.evaluator {
        Evaluator::Keyframe(track) => {
            &&& track.keyframes@.len() == p.len()
            &&& forall|i: int|
                0 <= i < p.len() ==> spec_keyframe_of(p[i], add, mul, #[trigger] track.keyframes@[i])
        },
        _ => false,
    }
}

impl JsonAnimationFloat {
    /// A track of keyframes holds at least one.
    pub open spec fn spec_well_formed(&self) -> bool {
        match self.keyframes {
            Some(p) => p@.len() >= 1,
            None => true,
        }
    }

    /// Whether the value moves: it has keyframes, and more than one.
    pub open spec fn spec_animated(&self) -> bool {
        match self.keyframes {
            Some(p) => p@.len() != 1,
            None => false,
        }
    }

    /// What the value starts as under an offset: its first keyframe,
    /// offset, or its plain value as it is.
    pub open spec fn spec_start(&self, add: int, mul: int) -> int {
        match self.keyframes {
            Some(p) => spec_offset(p@[0].value@, add, mul),
            None => self.value@,
        }
    }

    /// What the value starts as: its first keyframe, or its plain value.
    pub open spec fn spec_first(&self) -> int {
        match self.keyframes {
            Some(p) => p@[0].value@,
            None => self.value@,
        }
    }

    pub fn well_formed(&self) -> (r: bool)
        ensures
            r == self.spec_well_formed(),
    {
        match &self.keyframes {
            Some(p) => p.len() >= 1,
            None => true,
        }
    }
}

/// Whether the attribute `p` is what the described value `f` becomes under
/// an offset: it starts as `f` does, and has a slot where `f` moves.
pub open spec fn spec_param_of(f: JsonAnimationFloat, add: int, mul: int, p: Param) -> bool {
    p.value@ == f.spec_start(add, mul) && (p.slot.is_some() <==> f.spec_animated())
}

/// What converting described values does to the values of an animation:
/// what was there stays, and every new slot has one new writer.
pub open spec fn spec_grown(before: Animation, after: Animation) -> bool {
    &&& before.scalars@.len() <= after.scalars@.len()
    &&& after.scalars@.len() - before.scalars@.len() == after.manager.evaluators@.len()
        - before.manager.evaluators@.len()
    &&& forall|i: int|
        0 <= i < before.scalars@.len() ==> #[trigger] after.scalars@[i] == before.scalars@[i]
    &&& forall|i: int|
        0 <= i < before.manager.evaluators@.len() ==> #[trigger] after.manager.evaluators@[i]
            == before.manager.evaluators@[i]
}

/// The keyframe that a described keyframe becomes under an offset.
fn keyframe_of(n: JsonAnimationKeyframe, add: Fixed, mul: Fixed) -> (k: Keyframe)
    ensures
        spec_keyframe_of(n, add@, mul@, k),
{
    Keyframe::new(
        frame_time(n.frame),
        n.value.add(add).mul(mul),
        n.inter_x_in,
        n.inter_x_out,
        n.inter_y_in,
        n.inter_y_out,
    )
}

/// Converts a described value whose value is offset: `add` is added and
/// the sum is multiplied by `mul`. A plain value stays as it is, without
/// the offset; a track of one keyframe becomes that keyframe's value; a
/// longer track takes the next slot and is written into it from now on.
pub fn convert_offset(f: &JsonAnimationFloat, add: Fixed, mul: Fixed, animation: &mut Animation) -> (r:
    Param)
    requires
        f.spec_well_formed(),
    ensures
        spec_param_of(*f, add@, mul@, r),
        spec_grown(*old(animation), *final(animation)),
        final(animation).sources == old(animation).sources,
        !f.spec_animated() ==> *final(animation) == *old(animation),
        f.spec_animated() ==> {
            &&& r.slot == Some(old(animation).scalars@.len() as usize)
            &&& final(animation).scalars@ == old(animation).scalars@.push(r.value)
            &&& final(animation).manager.evaluators@.len() == old(animation).manager.evaluators@.len()
                + 1
            &&& spec_track_of(
                f.keyframes.unwrap()@,
                add@,
                mul@,
                final(animation).manager.evaluators@.last(),
                old(animation).scalars@.len() as usize,
            )
        },
{
    match &f.keyframes {
        Some(p) => {
            let first: Fixed = p[0].value.add(add).mul(mul);
            if p.len() == 1 {
                Param::constant(first)
            } else {
                let f_type: Param = animation.value(first);
                let mut b: Vec<Keyframe> = Vec::new();
                let mut i: usize = 0;
                while i < p.len()
                    invariant
                        i <= p.len(),
                        b@.len() == i,
                        forall|j: int|
                            0 <= j < i ==> spec_keyframe_of(p@[j], add@, mul@, #[trigger] b@[j]),
                    decreases p.len() - i,
                {
                    b.push(keyframe_of(p[i], add, mul));
                    i = i + 1;
                }
                animation.animate(f_type, Evaluator::Keyframe(KeyframeEvaluator::new_get(first, b)));
                f_type
            }
        },
        None => Param::constant(f.value),
    }
}

/// Without an offset a value is what it was.
pub proof fn lemma_no_offset(v: int)
    requires
        -LIMIT <= v <= LIMIT,
    ensures
        spec_offset(v, 0, SCALE as int) == v,
{
    assert((v * SCALE) / (SCALE as int) == v) by (nonlinear_arith);
}

/// Converts a described value: a plain value or a track of one keyframe
/// becomes that value; a longer track takes the next slot and is written
/// into it from now on.
pub fn convert_animated_float(f: &JsonAnimationFloat, animation: &mut Animation) -> (r: Param)
    requires
        f.spec_well_formed(),
    ensures
        r.value@ == f.spec_first(),
        spec_param_of(*f, 0, SCALE as int, r),
        spec_grown(*old(animation), *final(animation)),
        final(animation).sources == old(animation).sources,
        !f.spec_animated() ==> *final(animation) == *old(animation),
        f.spec_animated() ==> {
            &&& r.slot == Some(old(animation).scalars@.len() as usize)
            &&& final(animation).scalars@ == old(animation).scalars@.push(r.value)
            &&& final(animation).manager.evaluators@.len() == old(animation).manager.evaluators@.len()
                + 1
            &&& spec_track_of(
                f.keyframes.unwrap()@,
                0,
                SCALE as int,
                final(animation).manager.evaluators@.last(),
                old(animation).scalars@.len() as usize,
            )
        },
{
    proof {
        if f.keyframes.is_some() {
            let first = f.keyframes.unwrap()@[0].value;
            first.lemma_bounded();
            lemma_no_offset(first@);
        }
    }
    convert_offset(f, Fixed::zero(), Fixed::one(), animation)
}

/// A described warp of an object: a code and up to five attributes.
pub struct JsonSceneModifier {
    pub attribute0: JsonAnimationFloat,
    pub attribute1: JsonAnimationFloat,
    pub attribute2: JsonAnimationFloat,
    pub attribute3: JsonAnimationFloat,
    pub attribute4: JsonAnimationFloat,
    pub modifier: i32,
}

/// A described group: up to four objects by their index, `-1` for none,
/// the smoothing factor and the code of the rule.
pub struct JsonSceneGroupModifier {
    pub prim0: i32,
    pub prim1: i32,
    pub prim2: i32,
    pub prim3: i32,
    pub prim_attribute: JsonAnimationFloat,
    pub modifier: i32,
}

/// A described object: where it stands, how it is turned and scaled, the
/// code of its kind, its values and its warps.
pub struct JsonSceneObject {
    pub position: [JsonAnimationFloat; 3],
    pub rotation: [JsonAnimationFloat; 3],
    pub scale: [JsonAnimationFloat; 3],
    pub prim_type: i32,
    pub values: [JsonAnimationFloat; 10],
    pub modifiers: Vec<JsonSceneModifier>,
}

/// A described camera: its position, and its pitch and yaw in degrees.
pub struct JsonCamera {
    pub cam_pos: [JsonAnimationFloat; 3],
    pub cam_py: [JsonAnimationFloat; 2],
}

/// A described scene.
pub struct JsonScene {
    pub objects: Vec<JsonSceneObject>,
    pub group_modifiers: Vec<JsonSceneGroupModifier>,
    pub camera: JsonCamera,
}

/// Whether every described value of `f` is well formed.
pub open spec fn spec_all_well_formed(f: Seq<JsonAnimationFloat>) -> bool {
    forall|j: int| 0 <= j < f.len() ==> (#[trigger] f[j]).spec_well_formed()
}

/// Whether the attributes `p` are what the described values `f` become.
pub open spec fn spec_params_of(f: Seq<JsonAnimationFloat>, p: Seq<Param>) -> bool {
    &&& p.len() == f.len()
    &&& forall|j: int| 0 <= j < f.len() ==> spec_param_of(f[j], 0, SCALE as int, #[trigger] p[j])
}

/// Whether the warp `r` is what the described warp `m` becomes.
pub open spec fn spec_modifier_of(m: JsonSceneModifier, r: SceneModifier) -> bool {
    &&& r.modifier == m.modifier
    &&& spec_param_of(m.attribute0, 0, SCALE as int, r.attribute0)
    &&& spec_param_of(m.attribute1, 0, SCALE as int, r.attribute1)
    &&& spec_param_of(m.attribute2, 0, SCALE as int, r.attribute2)
    &&& spec_param_of(m.attribute3, 0, SCALE as int, r.attribute3)
    &&& spec_param_of(m.attribute4, 0, SCALE as int, r.attribute4)
}

/// Whether the group `r` is what the described group `g` becomes.
pub open spec fn spec_group_of(g: JsonSceneGroupModifier, r: SceneGroupModifier) -> bool {
    &&& r.prim0 == g.prim0
    &&& r.prim1 == g.prim1
    &&& r.prim2 == g.prim2
    &&& r.prim3 == g.prim3
    &&& r.modifier == g.modifier
    &&& spec_param_of(g.prim_attribute, 0, SCALE as int, r.prim_attribute)
}

/// Whether the camera `r` is what the described camera `c` becomes: the
/// pitch is turned round, and the yaw is turned round a quarter further.
pub open spec fn spec_camera_of(c: JsonCamera, r: Camera) -> bool {
    &&& spec_params_of(c.cam_pos@, r.cam_pos@)
    &&& spec_param_of(c.cam_py[0], 0, -SCALE, r.cam_py[0])
    &&& spec_param_of(c.cam_py[1], 90 * SCALE, -SCALE, r.cam_py[1])
}

/// Whether the object `r`, with the transform `source` in its slot, is
/// what the described object `o` becomes. Its matrix is the identity until
/// it is first refreshed.
pub open spec fn spec_object_of(o: JsonSceneObject, r: SceneObject, source: Source) -> bool {
    &&& r.prim_type == o.prim_type
    &&& forall|i: int, j: int|
        0 <= i < 4 && 0 <= j < 4 ==> (#[trigger] r.mat_inv[i][j])@ == (if i == j {
            SCALE as int
        } else {
            0
        })
    &&& spec_params_of(o.values@, r.values@)
    &&& r.modifiers@.len() == o.modifiers@.len()
    &&& forall|k: int|
        0 <= k < o.modifiers@.len() ==> spec_modifier_of(o.modifiers@[k], #[trigger] r.modifiers@[k])
    &&& match source {
        Source::Transformation(position, rotation, scale) => {
            &&& spec_params_of(o.position@, position@)
            &&& spec_params_of(o.rotation@, rotation@)
            &&& spec_params_of(o.scale@, scale@)
        },
        _ => false,
    }
}

impl JsonSceneModifier {
    pub open spec fn spec_well_formed(&self) -> bool {
        &&& self.attribute0.spec_well_formed()
        &&& self.attribute1.spec_well_formed()
        &&& self.attribute2.spec_well_formed()
        &&& self.attribute3.spec_well_formed()
        &&& self.attribute4.spec_well_formed()
    }

    pub fn well_formed(&self) -> (r: bool)
        ensures
            r == self.spec_well_formed(),
    {
        self.attribute0.well_formed() && self.attribute1.well_formed()
            && self.attribute2.well_formed() && self.attribute3.well_formed()
            && self.attribute4.well_formed()
    }
}

impl JsonSceneObject {
    pub open spec fn spec_well_formed(&self) -> bool {
        &&& spec_all_well_formed(self.position@)
        &&& spec_all_well_formed(self.rotation@)
        &&& spec_all_well_formed(self.scale@)
        &&& spec_all_well_formed(self.values@)
        &&& forall|k: int|
            0 <= k < self.modifiers@.len() ==> (#[trigger] self.modifiers@[k]).spec_well_formed()
    }

    pub fn well_formed(&self) -> (r: bool)
        ensures
            r == self.spec_well_formed(),
    {
        let mut k: usize = 0;
        while k < self.modifiers.len()
            invariant
                k <= self.modifiers.len(),
                forall|i: int| 0 <= i < k ==> (#[trigger] self.modifiers@[i]).spec_well_formed(),
            decreases self.modifiers.len() - k,
        {
            if !self.modifiers[k].well_formed() {
                return false;
            }
            k = k + 1;
        }
        all_well_formed(&self.position) && all_well_formed(&self.rotation) && all_well_formed(
            &self.scale,
        ) && all_well_formed(&self.values)
    }
}

impl JsonCamera {
    pub open spec fn spec_well_formed(&self) -> bool {
        spec_all_well_formed(self.cam_pos@) && spec_all_well_formed(self.cam_py@)
    }

    pub fn well_formed(&self) -> (r: bool)
        ensures
            r == self.spec_well_formed(),
    {
        all_well_formed(&self.cam_pos) && all_well_formed(&self.cam_py)
    }
}

impl JsonScene {
    /// Every track of keyframes in the scene holds at least one.
    pub open spec fn spec_well_formed(&self) -> bool {
        &&& self.camera.spec_well_formed()
        &&& forall|k: int|
            0 <= k < self.group_modifiers@.len() ==> (
            #[trigger] self.group_modifiers@[k]).prim_attribute.spec_well_formed()
        &&& forall|k: int|
            0 <= k < self.objects@.len() ==> (#[trigger] self.objects@[k]).spec_well_formed()
    }

    pub fn well_formed(&self) -> (r: bool)
        ensures
            r == self.spec_well_formed(),
    {
        if !self.camera.well_formed() {
            return false;
        }
        let mut k: usize = 0;
        while k < self.group_modifiers.len()
            invariant
                k <= self.group_modifiers.len(),
                forall|i: int|
                    0 <= i < k ==> (
                    #[trigger] self.group_modifiers@[i]).prim_attribute.spec_well_formed(),
            decreases self.group_modifiers.len() - k,
        {
            if !self.group_modifiers[k].prim_attribute.well_formed() {
                return false;
            }
            k = k + 1;
        }
        let mut o: usize = 0;
        while o < self.objects.len()
            invariant
                o <= self.objects.len(),
                forall|i: int| 0 <= i < o ==> (#[trigger] self.objects@[i]).spec_well_formed(),
            decreases self.objects.len() - o,
        {
            if !self.objects[o].well_formed() {
                return false;
            }
            o = o + 1;
        }
        true
    }
}

/// Whether every described value of a list is well formed.
fn all_well_formed<const N: usize>(f: &[JsonAnimationFloat; N]) -> (r: bool)
    ensures
        r == spec_all_well_formed(f@),
{
    let mut j: usize = 0;
    while j < N
        invariant
            j <= N,
            f@.len() == N,
            forall|i: int| 0 <= i < j ==> (#[trigger] f@[i]).spec_well_formed(),
        decreases N - j,
    {
        if !f[j].well_formed() {
            return false;
        }
        j = j + 1;
    }
    true
}

/// What grew twice has grown.
pub proof fn lemma_grown_twice(a: Animation, b: Animation, c: Animation)
    requires
        spec_grown(a, b),
        spec_grown(b, c),
    ensures
        spec_grown(a, c),
{
    assert forall|i: int| 0 <= i < a.scalars@.len() implies #[trigger] c.scalars@[i]
        == a.scalars@[i] by {
        assert(b.scalars@[i] == a.scalars@[i]);
    }
    assert forall|i: int| 0 <= i < a.manager.evaluators@.len() implies
        #[trigger] c.manager.evaluators@[i] == a.manager.evaluators@[i] by {
        assert(b.manager.evaluators@[i] == a.manager.evaluators@[i]);
    }
}

/// Converts three described values, in order.
fn convert3(f: &[JsonAnimationFloat; 3], animation: &mut Animation) -> (r: [Param; 3])
    requires
        spec_all_well_formed(f@),
    ensures
        spec_params_of(f@, r@),
        spec_grown(*old(animation), *final(animation)),
        final(animation).sources == old(animation).sources,
{
    let ghost start = *animation;
    let a: Param = convert_animated_float(&f[0], animation);
    let ghost first = *animation;
    let b: Param = convert_animated_float(&f[1], animation);
    proof {
        lemma_grown_twice(start, first, *animation);
    }
    let ghost second = *animation;
    let c: Param = convert_animated_float(&f[2], animation);
    proof {
        lemma_grown_twice(start, second, *animation);
    }
    [a, b, c]
}

/// Converts ten described values, in order.
fn convert10(f: &[JsonAnimationFloat; 10], animation: &mut Animation) -> (r: [Param; 10])
    requires
        spec_all_well_formed(f@),
    ensures
        spec_params_of(f@, r@),
        spec_grown(*old(animation), *final(animation)),
        final(animation).sources == old(animation).sources,
{
    let ghost start = *animation;
    let mut v: Vec<Param> = Vec::new();
    let mut j: usize = 0;
    while j < 10
        invariant
            j <= 10,
            v@.len() == j,
            spec_all_well_formed(f@),
            forall|i: int| 0 <= i < j ==> spec_param_of(f@[i], 0, SCALE as int, #[trigger] v@[i]),
            spec_grown(start, *animation),
            animation.sources == start.sources,
        decreases 10 - j,
    {
        let ghost before = *animation;
        v.push(convert_animated_float(&f[j], animation));
        proof {
            lemma_grown_twice(start, before, *animation);
        }
        j = j + 1;
    }
    [v[0], v[1], v[2], v[3], v[4], v[5], v[6], v[7], v[8], v[9]]
}

/// Converts a described warp, attribute by attribute.
fn convert_modifier(m: &JsonSceneModifier, animation: &mut Animation) -> (r: SceneModifier)
    requires
        m.spec_well_formed(),
    ensures
        spec_modifier_of(*m, r),
        spec_grown(*old(animation), *final(animation)),
        final(animation).sources == old(animation).sources,
{
    let ghost start = *animation;
    let attribute0: Param = convert_animated_float(&m.attribute0, animation);
    let ghost first = *animation;
    let attribute1: Param = convert_animated_float(&m.attribute1, animation);
    proof {
        lemma_grown_twice(start, first, *animation);
    }
    let ghost second = *animation;
    let attribute2: Param = convert_animated_float(&m.attribute2, animation);
    proof {
        lemma_grown_twice(start, second, *animation);
    }
    let ghost third = *animation;
    let attribute3: Param = convert_animated_float(&m.attribute3, animation);
    proof {
        lemma_grown_twice(start, third, *animation);
    }
    let ghost fourth = *animation;
    let attribute4: Param = convert_animated_float(&m.attribute4, animation);
    proof {
        lemma_grown_twice(start, fourth, *animation);
    }
    SceneModifier { attribute0, attribute1, attribute2, attribute3, attribute4, modifier: m.modifier }
}

/// Converts a described camera: its position as it is, its pitch turned
/// round, its yaw turned round a quarter further.
pub fn convert_camera(c: &JsonCamera, animation: &mut Animation) -> (r: Camera)
    requires
        c.spec_well_formed(),
    ensures
        spec_camera_of(*c, r),
        spec_grown(*old(animation), *final(animation)),
        final(animation).sources == old(animation).sources,
{
    let ghost start = *animation;
    let cam_pos: [Param; 3] = convert3(&c.cam_pos, animation);
    let ghost first = *animation;
    let turned: Fixed = Fixed::from_int(-1);
    assert(c.cam_py@[0].spec_well_formed() && c.cam_py@[1].spec_well_formed());
    let pitch: Param = convert_offset(&c.cam_py[0], Fixed::zero(), turned, animation);
    proof {
        lemma_grown_twice(start, first, *animation);
    }
    let ghost second = *animation;
    let yaw: Param = convert_offset(&c.cam_py[1], Fixed::from_int(90), turned, animation);
    proof {
        lemma_grown_twice(start, second, *animation);
    }
    Camera { cam_pos, cam_py: [pitch, yaw] }
}

/// Converts a described object. Its transform takes the next slot of the
/// transforms; its matrix is the identity until it is first refreshed.
pub fn convert_object(o: &JsonSceneObject, animation: &mut Animation) -> (r: SceneObject)
    requires
        o.spec_well_formed(),
    ensures
        r.transform_slot == Some(old(animation).sources@.len() as usize),
        final(animation).sources@.len() == old(animation).sources@.len() + 1,
        final(animation).sources@.drop_last() == old(animation).sources@,
        spec_object_of(*o, r, final(animation).sources@.last()),
        spec_grown(*old(animation), *final(animation)),
{
    let ghost start = *animation;
    let mut modifiers: Vec<SceneModifier> = Vec::new();
    let mut k: usize = 0;
    while k < o.modifiers.len()
        invariant
            k <= o.modifiers.len(),
            modifiers@.len() == k,
            o.spec_well_formed(),
            forall|i: int| 0 <= i < k ==> spec_modifier_of(o.modifiers@[i], #[trigger] modifiers@[i]),
            spec_grown(start, *animation),
            animation.sources == start.sources,
        decreases o.modifiers.len() - k,
    {
        let ghost before = *animation;
        modifiers.push(convert_modifier(&o.modifiers[k], animation));
        proof {
            lemma_grown_twice(start, before, *animation);
        }
        k = k + 1;
    }
    let ghost first = *animation;
    let position: [Param; 3] = convert3(&o.position, animation);
    proof {
        lemma_grown_twice(start, first, *animation);
    }
    let ghost second = *animation;
    let rotation: [Param; 3] = convert3(&o.rotation, animation);
    proof {
        lemma_grown_twice(start, second, *animation);
    }
    let ghost third = *animation;
    let scale: [Param; 3] = convert3(&o.scale, animation);
    proof {
        lemma_grown_twice(start, third, *animation);
    }
    let slot: usize = animation.bind(Source::Transformation(position, rotation, scale));
    let ghost fourth = *animation;
    let values: [Param; 10] = convert10(&o.values, animation);
    proof {
        lemma_grown_twice(start, fourth, *animation);
        assert(animation.sources@.drop_last() =~= start.sources@);
    }
    SceneObject {
        mat_inv: mat_identity(),
        transform_slot: Some(slot),
        prim_type: o.prim_type,
        values,
        modifiers,
    }
}

/// Converts a described scene: the camera, then the groups, then the
/// objects, each in order. Every value that moves takes the next slot of
/// the values and is written into it from now on; the transform of the
/// object `i` takes the slot `i` after those that were there.
pub fn convert_scene(json: &JsonScene, animation: &mut Animation) -> (r: Scene)
    requires
        json.spec_well_formed(),
    ensures
        spec_camera_of(json.camera, r.camera),
        r.group_modifiers@.len() == json.group_modifiers@.len(),
        forall|i: int|
            0 <= i < json.group_modifiers@.len() ==> spec_group_of(
                json.group_modifiers@[i],
                #[trigger] r.group_modifiers@[i],
            ),
        r.objects@.len() == json.objects@.len(),
        final(animation).sources@.len() == old(animation).sources@.len() + json.objects@.len(),
        forall|i: int|
            0 <= i < old(animation).sources@.len() ==> #[trigger] final(animation).sources@[i] == old(
                animation,
            ).sources@[i],
        forall|i: int|
            0 <= i < json.objects@.len() ==> (#[trigger] r.objects@[i]).transform_slot == Some(
                (old(animation).sources@.len() + i) as usize,
            ) && spec_object_of(
                json.objects@[i],
                r.objects@[i],
                final(animation).sources@[old(animation).sources@.len() + i],
            ),
        spec_grown(*old(animation), *final(animation)),
{
    let ghost start = *animation;
    let camera: Camera = convert_camera(&json.camera, animation);
    let mut group_modifiers: Vec<SceneGroupModifier> = Vec::new();
    let mut g: usize = 0;
    while g < json.group_modifiers.len()
        invariant
            g <= json.group_modifiers.len(),
            group_modifiers@.len() == g,
            json.spec_well_formed(),
            forall|i: int|
                0 <= i < g ==> spec_group_of(
                    json.group_modifiers@[i],
                    #[trigger] group_modifiers@[i],
                ),
            spec_grown(start, *animation),
            animation.sources == start.sources,
        decreases json.group_modifiers.len() - g,
    {
        let ghost before = *animation;
        let described: &JsonSceneGroupModifier = &json.group_modifiers[g];
        let prim_attribute: Param = convert_animated_float(&described.prim_attribute, animation);
        group_modifiers.push(
            SceneGroupModifier {
                prim0: described.prim0,
                prim1: described.prim1,
                prim2: described.prim2,
                prim3: described.prim3,
                prim_attribute,
                modifier: described.modifier,
            },
        );
        proof {
            lemma_grown_twice(start, before, *animation);
        }
        g = g + 1;
    }
    let mut objects: Vec<SceneObject> = Vec::new();
    let mut o: usize = 0;
    while o < json.objects.len()
        invariant
            o <= json.objects.len(),
            objects@.len() == o,
            json.spec_well_formed(),
            spec_grown(start, *animation),
            animation.sources@.len() == start.sources@.len() + o,
            forall|i: int|
                0 <= i < start.sources@.len() ==> #[trigger] animation.sources@[i]
                    == start.sources@[i],
            forall|i: int|
                0 <= i < o ==> (#[trigger] objects@[i]).transform_slot == Some(
                    (start.sources@.len() + i) as usize,
                ) && spec_object_of(
                    json.objects@[i],
                    objects@[i],
                    animation.sources@[start.sources@.len() + i],
                ),
        decreases json.objects.len() - o,
    {
        let ghost before = *animation;
        let ghost made = objects@;
        objects.push(convert_object(&json.objects[o], animation));
        proof {
            lemma_grown_twice(start, before, *animation);
            assert(animation.sources@.drop_last() == before.sources@);
            assert forall|i: int| 0 <= i < before.sources@.len() implies
                #[trigger] animation.sources@[i] == before.sources@[i] by {
                assert(animation.sources@.drop_last()[i] == animation.sources@[i]);
            }
            assert forall|i: int| 0 <= i < o + 1 implies (#[trigger] objects@[i]).transform_slot
                == Some((start.sources@.len() + i) as usize) && spec_object_of(
                json.objects@[i],
                objects@[i],
                animation.sources@[start.sources@.len() + i],
            ) by {
                if i < o {
                    assert(objects@[i] == made[i]);
                    assert(animation.sources@[start.sources@.len() + i]
                        == before.sources@[start.sources@.len() + i]);
                }
            }
        }
        o = o + 1;
    }
    Scene { objects, group_modifiers, camera }
}

/// Whether `e` writes the track `j` of the sampled tracks into the slot
/// `slot`: one keyframe for every frame from `start` on, at the frame's
/// time, with the value `j` of the frame's samples and flat handles.
pub open spec fn spec_sampled_track(
    samples: Seq<[Fixed; 10]>,
    start: u32,
    j: int,
    e: EvaluatorPointer,
    slot: int,
) -> bool {
    &&& e.pointer == slot
    &&& match e.evaluator {
        Evaluator::Keyframe(track) => {
            &&& track.keyframes@.len() == samples.len()
            &&& forall|i: int|
                0 <= i < samples.len() ==> {
                    let k = #[trigger] track.keyframes@[i];
                    &&& k.frame@ == spec_frame_time((start + i) as u32)
                    &&& k.value == samples[i][j]
                    &&& k.inter_x_in@ == 0
                    &&& k.inter_x_out@ == 0
                    &&& k.inter_y_in@ == 0
                    &&& k.inter_y_out@ == 0
                }
        },
        _ => false,
    }
}

/// The track `j` of the sampled tracks, keyframe by keyframe.
fn sampled_track(samples: &Vec<[Fixed; 10]>, start: u32, j: usize) -> (b: Vec<Keyframe>)
    requires
        start + samples@.len() <= u32::MAX,
        j < 10,
    ensures
        b@.len() == samples@.len(),
        forall|i: int|
            0 <= i < samples@.len() ==> {
                let k = #[trigger] b@[i];
                &&& k.frame@ == spec_frame_time((start + i) as u32)
                &&& k.value == samples@[i][j as int]
                &&& k.inter_x_in@ == 0
                &&& k.inter_x_out@ == 0
                &&& k.inter_y_in@ == 0
                &&& k.inter_y_out@ == 0
            },
{
    let flat: Fixed = Fixed::zero();
    let mut b: Vec<Keyframe> = Vec::new();
    let mut i: usize = 0;
    while i < samples.len()
        invariant
            i <= samples.len(),
            start + samples@.len() <= u32::MAX,
            j < 10,
            flat@ == 0,
            b@.len() == i,
            forall|n: int|
                0 <= n < i ==> {
                    let k = #[trigger] b@[n];
                    &&& k.frame@ == spec_frame_time((start + n) as u32)
                    &&& k.value == samples@[n][j as int]
                    &&& k.inter_x_in@ == 0
                    &&& k.inter_x_out@ == 0
                    &&& k.inter_y_in@ == 0
                    &&& k.inter_y_out@ == 0
                },
        decreases samples.len() - i,
    {
        let frame: u32 = start + i as u32;
        b.push(Keyframe::new(frame_time(frame), samples[i][j], flat, flat, flat, flat));
        i = i + 1;
    }
    b
}

/// Ten new values that follow ten sampled tracks. `samples[i]` holds the
/// ten values at the frame `start + i`. The values take the next ten
/// slots, each starting at zero, and then each gets the writer of its
/// track, in order.
pub fn convert_samples(samples: &Vec<[Fixed; 10]>, start: u32, animation: &mut Animation) -> (r: [Param; 10])
    requires
        start + samples@.len() <= u32::MAX,
    ensures
        forall|j: int|
            0 <= j < 10 ==> (#[trigger] r[j]).slot.is_some() && r[j].slot.unwrap() == old(
                animation,
            ).scalars@.len() + j && r[j].value@ == 0,
        spec_grown(*old(animation), *final(animation)),
        final(animation).sources == old(animation).sources,
        final(animation).scalars@.len() == old(animation).scalars@.len() + 10,
        forall|j: int|
            0 <= j < 10 ==> (#[trigger] final(animation).scalars@[old(animation).scalars@.len() + j])@
                == 0,
        forall|j: int|
            0 <= j < 10 ==> spec_sampled_track(
                samples@,
                start,
                j,
                #[trigger] final(animation).manager.evaluators@[old(
                    animation,
                ).manager.evaluators@.len() + j],
                old(animation).scalars@.len() + j,
            ),
{
    let ghost before = *animation;
    let mut made: Vec<Param> = Vec::new();
    let mut j: usize = 0;
    while j < 10
        invariant
            j <= 10,
            made@.len() == j,
            animation.sources == before.sources,
            animation.manager == before.manager,
            animation.scalars@.len() == before.scalars@.len() + j,
            forall|i: int|
                0 <= i < before.scalars@.len() ==> #[trigger] animation.scalars@[i]
                    == before.scalars@[i],
            forall|n: int|
                0 <= n < j ==> (#[trigger] animation.scalars@[before.scalars@.len() + n])@ == 0,
            forall|n: int|
                0 <= n < j ==> (#[trigger] made@[n]).slot.is_some() && made@[n].slot.unwrap()
                    == before.scalars@.len() + n && made@[n].value@ == 0,
        decreases 10 - j,
    {
        let next: usize = animation.scalars.len();
        let p: Param = animation.value(Fixed::zero());
        assert(p.slot == Some(next));
        made.push(p);
        j = j + 1;
    }
    let r: [Param; 10] = [
        made[0],
        made[1],
        made[2],
        made[3],
        made[4],
        made[5],
        made[6],
        made[7],
        made[8],
        made[9],
    ];
    let ghost valued = *animation;
    j = 0;
    while j < 10
        invariant
            j <= 10,
            start + samples@.len() <= u32::MAX,
            animation.sources == valued.sources,
            animation.scalars == valued.scalars,
            valued.manager == before.manager,
            valued.scalars@.len() == before.scalars@.len() + 10,
            forall|n: int|
                0 <= n < 10 ==> (#[trigger] r[n]).slot.is_some() && r[n].slot.unwrap()
                    == before.scalars@.len() + n,
            animation.manager.evaluators@.len() == before.manager.evaluators@.len() + j,
            forall|i: int|
                0 <= i < before.manager.evaluators@.len() ==> #[trigger] animation.manager.evaluators@[i]
                    == before.manager.evaluators@[i],
            forall|n: int|
                0 <= n < j ==> spec_sampled_track(
                    samples@,
                    start,
                    n,
                    #[trigger] animation.manager.evaluators@[before.manager.evaluators@.len() + n],
                    before.scalars@.len() + n,
                ),
        decreases 10 - j,
    {
        let track: Vec<Keyframe> = sampled_track(samples, start, j);
        let ghost earlier = animation.manager.evaluators@;
        animation.animate(r[j], Evaluator::Keyframe(KeyframeEvaluator::new_get(Fixed::zero(), track)));
        proof {
            assert(r[j as int].slot.is_some() && r[j as int].slot.unwrap() == before.scalars@.len() + j);
            assert forall|n: int| 0 <= n < j + 1 implies spec_sampled_track(
                samples@,
                start,
                n,
                #[trigger] animation.manager.evaluators@[before.manager.evaluators@.len() + n],
                before.scalars@.len() + n,
            ) by {
                if n < j {
                    assert(animation.manager.evaluators@[before.manager.evaluators@.len() + n]
                        == earlier[before.manager.evaluators@.len() + n]);
                }
            }
        }
        j = j + 1;
    }
    r
}

} // verus!
