//! Editing the selected bone's mesh and binds, and the keyframe curves:
//! the parts of these events that need no floating-point arithmetic.
use vstd::prelude::*;
use crate::model::{
    views, AnimationView, Armature, ArmatureView, BindView, BoneBindVert, BoneView, Duplicate, KeyframeView,
    SelectionState, SelectionView, Vec2, Vertex,
};

verus! {

/// The keyframes at `frame` with their incoming (`is_in`) or outgoing
/// handle set to `handle`, and their preset to `preset`.
pub open spec fn with_transition(kfs: Seq<KeyframeView>, frame: i32, is_in: bool, handle: Vec2, preset: u32) -> Seq<
    KeyframeView,
> {
    Seq::new(
        kfs.len(),
        |j: int|
            if kfs[j].frame != frame {
                kfs[j]
            } else if is_in {
                KeyframeView { start_handle: handle, handle_preset: preset, ..kfs[j] }
            } else {
                KeyframeView { end_handle: handle, handle_preset: preset, ..kfs[j] }
            },
    )
}

/// Sets the curve of the selected animation's keyframes at `frame`.
pub fn update_keyframe_transition(
    armature: &mut Armature,
    selections: &SelectionState,
    frame: i32,
    is_in: bool,
    handle: Vec2,
    preset: u32,
)
    requires
        selections.anim < old(armature).animations.len(),
    ensures
        ({
            let a = selections.anim as int;
            let anim = old(armature)@.animations[a];
            final(armature)@ == (ArmatureView {
                animations: old(armature)@.animations.update(
                    a,
                    AnimationView { keyframes: with_transition(anim.keyframes, frame, is_in, handle, preset), ..anim },
                ),
                ..old(armature)@
            })
        }),
{
    let a = selections.anim;
    let ghost arm0 = armature@;
    let ghost k0 = arm0.animations[a as int].keyframes;
    let mut anim = armature.animations[a].duplicate();
    let n = anim.keyframes.len();
    let mut j: usize = 0;
    while j < n
        invariant
            j <= n,
            n == k0.len(),
            anim@ == (AnimationView { keyframes: anim@.keyframes, ..arm0.animations[a as int] }),
            anim@.keyframes.len() == n,
            forall|q: int| 0 <= q < j ==> #[trigger] anim@.keyframes[q] == with_transition(k0, frame, is_in, handle, preset)[q],
            forall|q: int| j <= q < n ==> #[trigger] anim@.keyframes[q] == k0[q],
        decreases n - j,
    {
        assert(anim@.keyframes[j as int] == anim.keyframes@[j as int]@);
        assert(k0[j as int] == anim.keyframes@[j as int]@);
        if anim.keyframes[j].frame == frame {
            let mut kf = anim.keyframes[j].duplicate();
            if is_in {
                kf.start_handle = handle;
            } else {
                kf.end_handle = handle;
            }
            kf.handle_preset = preset;
            let ghost before = anim@.keyframes;
            anim.keyframes.set(j, kf);
            assert(anim@.keyframes =~= before.update(j as int, kf@));
        }
        assert(anim@.keyframes[j as int] == with_transition(k0, frame, is_in, handle, preset)[j as int]);
        j = j + 1;
    }
    assert(anim@.keyframes =~= with_transition(k0, frame, is_in, handle, preset));
    armature.animations.set(a, anim);
    assert(views(armature.animations@) =~= arm0.animations.update(
        a as int,
        AnimationView { keyframes: with_transition(k0, frame, is_in, handle, preset), ..arm0.animations[a as int] },
    ));
}

/// Makes bind `bind` of the selected bone follow a path (`on`) or not.
pub fn set_bind_pathing(armature: &mut Armature, selections: &SelectionState, bind: usize, on: bool)
    requires
        selections.bone_idx < old(armature).bones.len(),
        bind < old(armature)@.bones[selections.bone_idx as int].binds.len(),
    ensures
        ({
            let b = selections.bone_idx as int;
            let bone = old(armature)@.bones[b];
            final(armature)@ == (ArmatureView {
                bones: old(armature)@.bones.update(
                    b,
                    BoneView {
                        binds: bone.binds.update(bind as int, BindView { is_path: on, ..bone.binds[bind as int] }),
                        ..bone
                    },
                ),
                ..old(armature)@
            })
        }),
{
    let b = selections.bone_idx;
    let ghost arm0 = armature@;
    let mut bone = armature.bones[b].duplicate();
    assert(views(bone.binds@).len() == bone.binds@.len());
    let mut bd = bone.binds[bind].duplicate();
    bd.is_path = on;
    let ghost binds0 = views(bone.binds@);
    bone.binds.set(bind, bd);
    assert(views(bone.binds@) =~= binds0.update(bind as int, BindView { is_path: on, ..binds0[bind as int] }));
    armature.bones.set(b, bone);
    assert(views(armature.bones@) =~= arm0.bones.update(
        b as int,
        BoneView {
            binds: arm0.bones[b as int].binds.update(bind as int, BindView { is_path: on, ..arm0.bones[b as int].binds[bind as int] }),
            ..arm0.bones[b as int]
        },
    ));
}

/// The position of the first vertex of `verts` with id `id`, if any.
pub open spec fn first_with_id(verts: Seq<BoneBindVert>, id: i32) -> int {
    if exists|i: int| is_first_id(verts, id, i) {
        choose|i: int| is_first_id(verts, id, i)
    } else {
        -1
    }
}

pub open spec fn is_first_id(verts: Seq<BoneBindVert>, id: i32, i: int) -> bool {
    &&& 0 <= i < verts.len()
    &&& verts[i].id == id
    &&& forall|j: int| 0 <= j < i ==> verts[j].id != id
}

/// The vertices of a bind once the vertex with id `id` is added with
/// weight 1, or removed (its first occurrence) when it is already there.
pub open spec fn toggled_vert(verts: Seq<BoneBindVert>, id: i32) -> Seq<BoneBindVert> {
    let k = first_with_id(verts, id);
    if k >= 0 {
        verts.remove(k)
    } else {
        verts.push(BoneBindVert { id, weight: 0x3f80_0000 })
    }
}

/// The position of the first vertex of `verts` with id `id`, if any.
fn find_vert(verts: &Vec<BoneBindVert>, id: i32) -> (r: Option<usize>)
    ensures
        match r {
            Some(i) => is_first_id(verts@, id, i as int),
            None => !exists|q: int| is_first_id(verts@, id, q),
        },
{
    let mut i: usize = 0;
    while i < verts.len()
        invariant
            i <= verts.len(),
            forall|j: int| 0 <= j < i ==> verts@[j].id != id,
        decreases verts.len() - i,
    {
        if verts[i].id == id {
            return Some(i);
        }
        i = i + 1;
    }
    None
}

/// Whether vertex `v` of the selected bone can be clicked into the selected
/// bind: with a bind selected, the bone, the bind and the vertex exist.
pub open spec fn can_click_vertex(arm: ArmatureView, sel: SelectionView, v: int) -> bool {
    sel.bind != -1 ==> {
        &&& sel.bone_idx < arm.bones.len()
        &&& 0 <= sel.bind < arm.bones[sel.bone_idx as int].binds.len()
        &&& 0 <= v < arm.bones[sel.bone_idx as int].vertices.len()
    }
}

/// Clicking vertex `v` of the selected bone while a bind is selected adds it
/// to the bind with weight 1, or takes it out when it is in already; with no
/// bind selected nothing changes. Returns whether the vertex is now bound.
pub fn click_vertex(armature: &mut Armature, selections: &SelectionState, v: usize) -> (bound: bool)
    requires
        can_click_vertex(old(armature)@, selections@, v as int),
    ensures
        selections.bind == -1 ==> final(armature)@ == old(armature)@ && !bound,
        selections.bind != -1 ==> ({
            let b = selections.bone_idx as int;
            let bone = old(armature)@.bones[b];
            let k = selections.bind as int;
            let id = bone.vertices[v as int].id as i32;
            &&& bound == (first_with_id(bone.binds[k].verts, id) < 0)
            &&& final(armature)@ == (ArmatureView {
                bones: old(armature)@.bones.update(
                    b,
                    BoneView {
                        binds: bone.binds.update(k, BindView { verts: toggled_vert(bone.binds[k].verts, id), ..bone.binds[k] }),
                        ..bone
                    },
                ),
                ..old(armature)@
            })
        }),
{
    if selections.bind == -1 {
        return false;
    }
    let ghost arm0 = armature@;
    let b = selections.bone_idx;
    let k = selections.bind as usize;
    let mut bone = armature.bones[b].duplicate();
    let id = bone.vertices[v].id as i32;
    let mut bd = bone.binds[k].duplicate();
    let ghost verts0 = bd.verts@;
    let found = find_vert(&bd.verts, id);
    match found {
        Some(i) => {
            proof {
                let c = choose|q: int| is_first_id(verts0, id, q);
                assert(c == i as int) by {
                    if c < i as int {
                    } else if c > i as int {
                    }
                }
            }
            bd.verts.remove(i);
        },
        None => {
            bd.verts.push(BoneBindVert { id, weight: 0x3f80_0000 });
        },
    }
    let ghost binds0 = views(bone.binds@);
    let ghost bd_view = bd@;
    assert(bd_view == BindView { verts: toggled_vert(verts0, id), ..binds0[k as int] });
    bone.binds.set(k, bd);
    assert(views(bone.binds@) =~= binds0.update(k as int, bd_view));
    armature.bones.set(b, bone);
    assert(views(armature.bones@) =~= arm0.bones.update(
        b as int,
        BoneView { binds: binds0.update(k as int, bd_view), ..arm0.bones[b as int] },
    ));
    found.is_none()
}

/// Whether the selected bone's mesh can be replaced: a bone is selected.
pub open spec fn mesh_reset(arm: ArmatureView, sel: SelectionView, verts: Seq<Vertex>, indices: Seq<u32>) -> (
    ArmatureView,
    SelectionView,
) {
    let b = sel.bone_idx as int;
    (
        ArmatureView {
            bones: arm.bones.update(
                b,
                BoneView { vertices: verts, indices, binds: Seq::empty(), verts_edited: false, ..arm.bones[b] },
            ),
            ..arm
        },
        SelectionView { vert_ids: Seq::empty(), bind: -1i32, ..sel },
    )
}

/// Gives the selected bone the mesh `verts` and `indices` made for its
/// texture, as if it had never been edited: its binds go, and no vertex or
/// bind stays selected.
pub fn reset_vertices(armature: &mut Armature, selections: &mut SelectionState, verts: Vec<Vertex>, indices: Vec<u32>)
    requires
        old(selections).bone_idx < old(armature).bones.len(),
    ensures
        (final(armature)@, final(selections)@) == mesh_reset(old(armature)@, old(selections)@, verts@, indices@),
{
    let ghost arm0 = armature@;
    let b = selections.bone_idx;
    let mut bone = armature.bones[b].duplicate();
    bone.vertices = verts;
    bone.indices = indices;
    bone.binds = Vec::new();
    bone.verts_edited = false;
    assert(views(bone.binds@) =~= Seq::<BindView>::empty());
    let ghost nb = bone@;
    armature.bones.set(b, bone);
    assert(views(armature.bones@) =~= arm0.bones.update(b as int, nb));
    selections.vert_ids = Vec::new();
    selections.bind = -1;
}

} // verus!
