//! Making new bones: a new bone under the selected one, and a new parent
//! for the selected bones.
use vstd::prelude::*;
use vstd::string::StringExecFns;
use crate::arrange::{can_drag, drag_bone, drag_order, dragged_all, drop_refused};
use crate::dispatch::{index_of, to_index, Editor, EditorView};
use crate::model::{
    bone_index, copy_vec, find_bone, fresh_id, generate_id, views, Armature, ArmatureView, Bone, BoneProps, BoneView,
    Color, SelectionView, Tint, Transform, Vec2,
};
use crate::state::{can_select_bone, select_bone, select_bone_result, UiView, WindowView};
use crate::text::{decimal, push_decimal};

verus! {

/// The bit pattern of the `f32` 1.
pub open spec fn one() -> u32 {
    0x3f80_0000
}

/// The looks of a new bone: a white tint, a pivot of scale 1, and every
/// other value 0 or off.
pub open spec fn blank_props() -> BoneProps {
    BoneProps {
        tint: Tint { r: one(), g: one(), b: one(), a: one() },
        hidden: false,
        group_color: Color { r: 0, g: 0, b: 0, a: 0 },
        ik_mimic_target: false,
        pivot_pos: Vec2 { x: 0, y: 0 },
        pivot_rot: 0,
        pivot_scale: Vec2 { x: one(), y: one() },
        phys_sway: 0,
        phys_pos_damping: 0,
        phys_scale_damping: 0,
        phys_rot_damping: 0,
        phys_rot_bounce: 0,
        phys_pos_ratio: 0,
        phys_scale_ratio: 0,
        ik_folded: false,
        phys_folded: false,
        meshdef_folded: false,
        effects_folded: false,
    }
}

/// A new bone with id `id` under `parent_id`: no name, texture or mesh, at
/// the origin with scale 1, outside any IK family, unfolded and unlocked.
pub open spec fn blank_bone(id: i32, parent_id: i32) -> BoneView {
    BoneView {
        id,
        parent_id,
        name: Seq::empty(),
        tex: Seq::empty(),
        zindex: 0,
        ik_family_id: -1i32,
        ik_target_id: -1i32,
        ik_disabled: false,
        folded: false,
        anim_folded: false,
        locked: false,
        verts_edited: false,
        transform: Transform { pos: Vec2 { x: 0, y: 0 }, rot: 0, scale: Vec2 { x: one(), y: one() } },
        vertices: Seq::empty(),
        indices: Seq::empty(),
        blacklist: Seq::empty(),
        binds: Seq::empty(),
        ik_constraint: Seq::empty(),
        ik_mode: Seq::empty(),
        props: blank_props(),
    }
}

/// The ids of a list of bones, in order.
pub open spec fn bone_ids(bones: Seq<BoneView>) -> Seq<i32> {
    bones.map_values(|b: BoneView| b.id)
}

/// Where a new bone under `parent_id` goes: just below its parent, or at
/// the end for a root bone (or a parent that is missing).
pub open spec fn new_bone_index(bones: Seq<BoneView>, parent_id: i32) -> int {
    let k = bone_index(bones, parent_id);
    if parent_id != -1 && k >= 0 {
        k + 1
    } else {
        bones.len() as int
    }
}

/// The bones with a new bone under `parent_id`, whose id is the smallest
/// one not in use.
pub open spec fn with_new_bone(bones: Seq<BoneView>, parent_id: i32) -> Seq<BoneView> {
    bones.insert(new_bone_index(bones, parent_id), blank_bone(fresh_id(bone_ids(bones)), parent_id))
}

fn ids_of_bones(bones: &Vec<Bone>) -> (r: Vec<i32>)
    ensures
        r@ == bone_ids(views(bones@)),
{
    let mut r: Vec<i32> = Vec::new();
    let mut k: usize = 0;
    while k < bones.len()
        invariant
            k <= bones.len(),
            r@ == bone_ids(views(bones@)).take(k as int),
        decreases bones.len() - k,
    {
        r.push(bones[k].id);
        k = k + 1;
        assert(r@ =~= bone_ids(views(bones@)).take(k as int));
    }
    assert(r@ =~= bone_ids(views(bones@)));
    r
}

fn new_blank_bone(id: i32, parent_id: i32) -> (b: Bone)
    ensures
        b@ == blank_bone(id, parent_id),
{
    let one: u32 = 0x3f80_0000;
    let b = Bone {
        id,
        parent_id,
        name: String::new(),
        tex: String::new(),
        zindex: 0,
        ik_family_id: -1,
        ik_target_id: -1,
        ik_disabled: false,
        folded: false,
        anim_folded: false,
        locked: false,
        verts_edited: false,
        transform: Transform { pos: Vec2 { x: 0, y: 0 }, rot: 0, scale: Vec2 { x: one, y: one } },
        vertices: Vec::new(),
        indices: Vec::new(),
        blacklist: Vec::new(),
        binds: Vec::new(),
        ik_constraint: String::new(),
        ik_mode: String::new(),
        props: BoneProps {
            tint: Tint { r: one, g: one, b: one, a: one },
            hidden: false,
            group_color: Color { r: 0, g: 0, b: 0, a: 0 },
            ik_mimic_target: false,
            pivot_pos: Vec2 { x: 0, y: 0 },
            pivot_rot: 0,
            pivot_scale: Vec2 { x: one, y: one },
            phys_sway: 0,
            phys_pos_damping: 0,
            phys_scale_damping: 0,
            phys_rot_damping: 0,
            phys_rot_bounce: 0,
            phys_pos_ratio: 0,
            phys_scale_ratio: 0,
            ik_folded: false,
            phys_folded: false,
            meshdef_folded: false,
            effects_folded: false,
        },
    };
    assert(views(b.binds@) =~= Seq::<crate::model::BindView>::empty());
    b
}

/// Adds a new bone under `parent_id` (see `with_new_bone`) and returns its position.
pub fn new_bone(armature: &mut Armature, parent_id: i32) -> (idx: usize)
    requires
        old(armature).bones.len() < i32::MAX,
    ensures
        views(final(armature).bones@) == with_new_bone(views(old(armature).bones@), parent_id),
        idx == new_bone_index(views(old(armature).bones@), parent_id),
        final(armature).animations == old(armature).animations,
        final(armature).styles == old(armature).styles,
{
    let ghost b0 = views(armature.bones@);
    let ids = ids_of_bones(&armature.bones);
    let id = generate_id(&ids);
    let idx = if parent_id != -1 {
        match find_bone(&armature.bones, parent_id) {
            Some(k) => k + 1,
            None => armature.bones.len(),
        }
    } else {
        armature.bones.len()
    };
    armature.bones.insert(idx, new_blank_bone(id, parent_id));
    assert(views(armature.bones@) =~= with_new_bone(b0, parent_id));
    idx
}

/// The parent of a new bone: the selected bone, or none.
pub open spec fn new_parent(ed: EditorView) -> i32 {
    let sel = ed.selections;
    if sel.bone_idx < ed.armature.bones.len() {
        ed.armature.bones[sel.bone_idx as int].id
    } else {
        -1i32
    }
}

/// Whether a new bone can be made: an id is left, and selecting it (which
/// happens once a bone has been selected this session) can go through.
#[verifier::opaque]
pub open spec fn new_bone_allowed(ed: EditorView) -> bool {
    let bones1 = with_new_bone(ed.armature.bones, new_parent(ed));
    let idx = new_bone_index(ed.armature.bones, new_parent(ed)) as usize;
    &&& ed.armature.bones.len() < i32::MAX
    &&& ed.ui.selected_bone_first_time ==> can_select_bone(
        ed.selections,
        ed.ui,
        bones1,
        ed.edit_mode,
        ed.input,
        idx,
        false,
    )
}

/// Making a new bone under the selected one (a root bone when none is
/// selected): it is selected once a bone has been selected this session,
/// and its name field is opened for renaming.
#[verifier::opaque]
pub open spec fn new_bone_effect(ed: EditorView, after: EditorView) -> bool {
    let bones1 = with_new_bone(ed.armature.bones, new_parent(ed));
    let idx = new_bone_index(ed.armature.bones, new_parent(ed)) as usize;
    let r = if ed.ui.selected_bone_first_time {
        select_bone_result(ed.selections, ed.ui, bones1, ed.edit_mode, ed.input, idx, false)
    } else {
        (ed.selections, ed.ui, bones1, ed.edit_mode, None)
    };
    after == EditorView {
        armature: ArmatureView { bones: r.2, ..ed.armature },
        selections: r.0,
        edit_mode: r.3,
        ui: UiView {
            rename_id: seq!['b', 'o', 'n', 'e', '_'] + decimal(idx as nat),
            window: WindowView { prev_selected_bone_idx: idx, ..r.1.window },
            ..r.1
        },
        ..ed
    }
}

/// `prefix` followed by the decimal digits of `n`.
fn numbered(prefix: &str, n: usize) -> (r: String)
    ensures
        r@ == prefix@ + decimal(n as nat),
{
    let mut r = String::from_str(prefix);
    push_decimal(&mut r, n);
    r
}

fn bone_field_name(idx: usize) -> (r: String)
    ensures
        r@ == seq!['b', 'o', 'n', 'e', '_'] + decimal(idx as nat),
{
    proof {
        reveal_strlit("bone_");
    }
    assert("bone_"@ =~= seq!['b', 'o', 'n', 'e', '_']);
    numbered("bone_", idx)
}

/// Makes a new bone (see `new_bone_effect`).
#[verifier::rlimit(100)]
pub fn apply_new_bone(ed: &mut Editor)
    requires
        new_bone_allowed(old(ed)@),
    ensures
        new_bone_effect(old(ed)@, final(ed)@),
{
    proof {
        reveal(new_bone_allowed);
        reveal(new_bone_effect);
    }
    let parent = if ed.selections.bone_idx < ed.armature.bones.len() {
        ed.armature.bones[ed.selections.bone_idx].id
    } else {
        -1
    };
    let ghost ed0 = ed@;
    assert(parent == new_parent(ed0));
    let idx = new_bone(&mut ed.armature, parent);
    let ghost ed1 = ed@;
    assert(ed1 == EditorView {
        armature: ArmatureView { bones: with_new_bone(ed0.armature.bones, parent), ..ed0.armature },
        ..ed0
    });
    if ed.ui.selected_bone_first_time {
        let _ = select_bone(&mut ed.selections, &mut ed.ui, &mut ed.armature, &mut ed.edit_mode, &ed.input, idx, false);
    }
    ed.ui.rename_id = bone_field_name(idx);
    ed.ui.window.prev_selected_bone_idx = idx;
}

/// The bones that get a new parent: the selected bones when there are
/// several, and bone `i` otherwise.
pub open spec fn parent_targets(ed: EditorView, i: int) -> Seq<i32> {
    if ed.selections.bone_ids.len() > 1 {
        ed.selections.bone_ids
    } else {
        seq![ed.armature.bones[i].id]
    }
}

/// The bones once the first bone with id `id` takes `pid` as its parent,
/// unless its parent is itself one of `ids` (or there is no such bone).
pub open spec fn reparent_step(bones: Seq<BoneView>, ids: Seq<i32>, id: i32, pid: i32) -> Seq<BoneView> {
    let k = bone_index(bones, id);
    if k < 0 || ids.contains(bones[k].parent_id) {
        bones
    } else {
        bones.update(k, BoneView { parent_id: pid, ..bones[k] })
    }
}

/// The bones once each of the first `n` ids, in order, has taken `pid` as
/// its parent (see `reparent_step`).
pub open spec fn reparented(bones: Seq<BoneView>, ids: Seq<i32>, pid: i32, n: int) -> Seq<BoneView>
    decreases n,
{
    if n <= 0 {
        bones
    } else {
        reparent_step(reparented(bones, ids, pid, n - 1), ids, ids[n - 1], pid)
    }
}

/// The bones after a new parent is made for bone `i` (or the selected bones).
pub open spec fn with_new_parent(ed: EditorView, i: int) -> Seq<BoneView> {
    parent_made(ed.armature.bones, parent_targets(ed, i))
}

/// Whether the new parent of the bones `ids` can be dropped above the first of them.
#[verifier::opaque]
pub open spec fn can_make_parent(bones: Seq<BoneView>, ids: Seq<i32>) -> bool {
    can_drag(with_new_bone(bones, ids[0]), ids[0], seq![fresh_id(bone_ids(bones))], true)
}

/// The bones after a new parent is made for the bones `ids`: a new bone goes
/// above the first of them, and each of them whose parent is not among them
/// takes the new bone as parent.
#[verifier::opaque]
pub open spec fn parent_made(bones: Seq<BoneView>, ids: Seq<i32>) -> Seq<BoneView> {
    let target = ids[0];
    let bones1 = with_new_bone(bones, target);
    let pid = fresh_id(bone_ids(bones));
    let bones2 = if drop_refused(bones1, target, seq![pid]) {
        bones1
    } else {
        dragged_all(bones1, drag_order(bones1, seq![pid], true), target, true)
    };
    reparented(bones2, ids, pid, ids.len() as int)
}

/// Whether a new parent can be made for bone `v[0]` (or the selected
/// bones): the bone exists, an id is left, the new bone can be dropped above
/// the first target, and it is still there afterwards.
#[verifier::opaque]
pub open spec fn new_parent_allowed(v: Seq<i64>, ed: EditorView) -> bool {
    let i = index_of(v[0]) as int;
    let pid = fresh_id(bone_ids(ed.armature.bones));
    &&& i < ed.armature.bones.len()
    &&& ed.armature.bones.len() < i32::MAX
    &&& can_make_parent(ed.armature.bones, parent_targets(ed, i))
    &&& bone_index(with_new_parent(ed, i), pid) >= 0
}

/// Making a new parent for bone `v[0]` (or the selected bones): the new
/// bone becomes the selection and its name field is opened for renaming.
#[verifier::opaque]
pub open spec fn new_parent_effect(v: Seq<i64>, ed: EditorView, after: EditorView) -> bool {
    let i = index_of(v[0]) as int;
    let pid = fresh_id(bone_ids(ed.armature.bones));
    let bones = with_new_parent(ed, i);
    let idx = bone_index(bones, pid);
    after == EditorView {
        armature: ArmatureView { bones, ..ed.armature },
        ui: UiView { rename_id: seq!['b', 'o', 'n', 'e', '_'] + decimal(idx as nat), ..ed.ui },
        selections: SelectionView { bone_ids: seq![pid], bone_idx: idx as usize, ..ed.selections },
        ..ed
    }
}

fn reparent(bones: &mut Vec<Bone>, ids: &Vec<i32>, pid: i32)
    ensures
        views(final(bones)@) == reparented(views(old(bones)@), ids@, pid, ids@.len() as int),
{
    let ghost b0 = views(bones@);
    let mut t: usize = 0;
    while t < ids.len()
        invariant
            t <= ids.len(),
            views(bones@) == reparented(b0, ids@, pid, t as int),
        decreases ids.len() - t,
    {
        let ghost before = views(bones@);
        match find_bone(bones, ids[t]) {
            Some(k) => {
                if !crate::seqs::contains_i32(ids, bones[k].parent_id) {
                    let mut b = crate::model::Duplicate::duplicate(&bones[k]);
                    b.parent_id = pid;
                    bones.set(k, b);
                    assert(views(bones@) =~= before.update(k as int, BoneView { parent_id: pid, ..before[k as int] }));
                }
            },
            None => {},
        }
        t = t + 1;
    }
}

/// Makes a new parent for the bones `ids` (see `parent_made`) and returns its id.
#[verifier::rlimit(60)]
fn make_parent(armature: &mut Armature, ids: &Vec<i32>) -> (pid: i32)
    requires
        ids.len() >= 1,
        old(armature).bones.len() < i32::MAX,
        can_make_parent(views(old(armature).bones@), ids@),
    ensures
        pid == fresh_id(bone_ids(views(old(armature).bones@))),
        views(final(armature).bones@) == parent_made(views(old(armature).bones@), ids@),
        final(armature)@.animations == old(armature)@.animations,
        final(armature)@.styles == old(armature)@.styles,
{
    reveal(can_make_parent);
    reveal(parent_made);
    let ghost b0 = views(armature.bones@);
    let target = ids[0];
    let k = new_bone(armature, target);
    let pid = armature.bones[k].id;
    assert(views(armature.bones@)[k as int] == blank_bone(fresh_id(bone_ids(b0)), target));
    let ghost bones1 = views(armature.bones@);
    let mut pids: Vec<i32> = Vec::new();
    pids.push(pid);
    assert(pids@ =~= seq![pid]);
    let _ = drag_bone(armature, target, &pids, true);
    reparent(&mut armature.bones, ids, pid);
    pid
}

/// Makes a new parent (see `new_parent_effect`).
#[verifier::rlimit(100)]
#[verifier::spinoff_prover]
pub fn apply_new_parent(ed: &mut Editor, values: &Vec<i64>)
    requires
        values.len() >= 1,
        new_parent_allowed(values@, old(ed)@),
    ensures
        new_parent_effect(values@, old(ed)@, final(ed)@),
{
    proof {
        reveal(new_parent_allowed);
        reveal(new_parent_effect);
    }
    let ghost ed0 = ed@;
    let i = to_index(values[0]);
    let ids = if ed.selections.bone_ids.len() > 1 {
        copy_vec(&ed.selections.bone_ids)
    } else {
        let mut one: Vec<i32> = Vec::new();
        one.push(ed.armature.bones[i].id);
        one
    };
    assert(ids@ == parent_targets(ed0, i as int));
    let pid = make_parent(&mut ed.armature, &ids);
    let idx = find_bone(&ed.armature.bones, pid).unwrap();
    select_new_parent(ed, pid, idx);
}

/// Selects the new parent `pid` at `idx` and opens its name field.
fn select_new_parent(ed: &mut Editor, pid: i32, idx: usize)
    ensures
        final(ed)@ == (EditorView {
            ui: UiView { rename_id: seq!['b', 'o', 'n', 'e', '_'] + decimal(idx as nat), ..old(ed)@.ui },
            selections: SelectionView { bone_ids: seq![pid], bone_idx: idx, ..old(ed)@.selections },
            ..old(ed)@
        }),
{
    let mut pids: Vec<i32> = Vec::new();
    pids.push(pid);
    assert(pids@ =~= seq![pid]);
    ed.ui.rename_id = bone_field_name(idx);
    ed.selections.bone_ids = pids;
    ed.selections.bone_idx = idx;
}

/// A new bone has an id that no other bone has, hangs from `parent_id`, and
/// goes just below its parent when that bone exists (else at the end); the
/// bones that were there keep their order around it.
pub proof fn lemma_new_bone_placed(bones: Seq<BoneView>, parent_id: i32)
    requires
        bones.len() < i32::MAX,
    ensures
        ({
            let r = with_new_bone(bones, parent_id);
            let i = new_bone_index(bones, parent_id);
            &&& r.len() == bones.len() + 1
            &&& 0 <= i < r.len()
            &&& r[i].parent_id == parent_id
            &&& r[i].id >= 0
            &&& forall|j: int| 0 <= j < r.len() && j != i ==> #[trigger] r[j].id != r[i].id
            &&& r.remove(i) == bones
            &&& (parent_id != -1 && bone_index(bones, parent_id) >= 0) ==> r[i - 1].id == parent_id
            &&& (parent_id == -1 || bone_index(bones, parent_id) < 0) ==> i == bones.len()
        }),
{
    let ids = bone_ids(bones);
    crate::model::lemma_fresh_id_exists(ids);
    let r = with_new_bone(bones, parent_id);
    let i = new_bone_index(bones, parent_id);
    let x = fresh_id(ids);
    assert forall|j: int| 0 <= j < r.len() && j != i implies #[trigger] r[j].id != r[i].id by {
        let k = if j < i { j } else { j - 1 };
        assert(r[j] == bones[k]);
        assert(ids[k] == bones[k].id);
    }
    assert(r.remove(i) =~= bones);
    if parent_id != -1 && bone_index(bones, parent_id) >= 0 {
        assert(crate::model::is_first_bone(bones, parent_id, bone_index(bones, parent_id)));
    }
}

} // verus!
