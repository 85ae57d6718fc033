use skelform_editor::arrange::{drag_bone_order, drag_bone_step, move_bone};
use skelform_editor::clipboard::{copy_bone, paste_bone};
use skelform_editor::deletion::{can_delete, delete_bone, delete_triangle, forget_vertex};
use skelform_editor::hierarchy::{get_all_children, get_all_parents, order_by_hierarchy};
use skelform_editor::model::{
    BoneProps,
    AnimElement, Animation, Armature, Bone, BoneBind, BoneBindVert, CopyBuffer, Keyframe, SelectionState,
    Transform, Vec2, Vertex,
};

fn bone(id: i32, parent_id: i32) -> Bone {
    Bone {
        id,
        parent_id,
        name: format!("b{}", id),
        tex: String::new(),
        zindex: 0,
        ik_family_id: -1,
        ik_target_id: -1,
        ik_disabled: false,
        folded: true,
        anim_folded: false,
        locked: false,
        verts_edited: false,
        transform: Transform::default(),
        vertices: vec![],
        indices: vec![],
        blacklist: vec![],
        binds: vec![],
        ik_constraint: String::new(),
        ik_mode: String::new(),
        props: BoneProps::default(),
    }
}

fn bind(bone_id: i32, ids: &[i32]) -> BoneBind {
    BoneBind { bone_id, is_path: false, verts: ids.iter().map(|i| BoneBindVert { id: *i, weight: 0 }).collect() }
}

fn kf(frame: i32, bone_id: i32) -> Keyframe {
    Keyframe {
        frame,
        bone_id,
        element: AnimElement::Rotation,
        value: 0,
        value_str: String::new(),
        start_handle: Vec2::default(),
        end_handle: Vec2::default(),
        handle_preset: 0,
    }
}

fn ids(bones: &Vec<Bone>) -> Vec<i32> {
    bones.iter().map(|b| b.id).collect()
}

fn selection(bone_idx: usize, bone_ids: Vec<i32>) -> SelectionState {
    SelectionState {
        bone_idx,
        bone_ids,
        vert_ids: vec![],
        anim: usize::MAX,
        anim_frame: -1,
        bind: -1,
        style_id: -1,
        tex_ids: vec![],
        hovering_vert_id: -1,
        hovering_bone_id: -1,
        hovering_tri_dur: 0,
        hovering_line_dur: 0,
    }
}

fn armature(bones: Vec<Bone>) -> Armature {
    Armature { bones, animations: vec![], styles: vec![] }
}

/// 1 with children 2 (which has child 3) and 4; 5 is another root.
fn family() -> Vec<Bone> {
    vec![bone(1, -1), bone(2, 1), bone(3, 2), bone(4, 1), bone(5, -1)]
}

#[test]
fn children_come_depth_first() {
    let bones = family();
    let mut out = vec![bone(9, -1)];
    get_all_children(&bones, &mut out, &bones[0]);
    assert_eq!(ids(&out), vec![9, 2, 3, 4]);
    let mut none = vec![];
    get_all_children(&bones, &mut none, &bones[4]);
    assert!(none.is_empty());
}

#[test]
fn parents_come_nearest_first() {
    let bones = family();
    assert_eq!(get_all_parents(&bones, 3), vec![2, 1]);
    assert!(get_all_parents(&bones, 5).is_empty());
}

#[test]
fn hierarchy_order_sorts_by_position_without_repeats() {
    let bones = family();
    assert_eq!(order_by_hierarchy(&bones, &vec![4, 1, 1, 3]), vec![1, 3, 4]);
}

#[test]
fn move_bone_moves_it_with_its_children() {
    let mut bones = vec![bone(1, -1), bone(2, 1), bone(3, -1), bone(4, -1)];
    move_bone(&mut bones, 0, 3, false);
    assert_eq!(ids(&bones), vec![3, 1, 2, 4]);
    let mut bones = vec![bone(1, -1), bone(2, 1), bone(3, -1), bone(4, -1)];
    move_bone(&mut bones, 0, 3, true);
    assert_eq!(ids(&bones), vec![3, 4, 1, 2]);
}

#[test]
fn drop_on_own_child_is_refused() {
    let arm = armature(family());
    assert!(drag_bone_order(&arm, 3, &vec![1], true).is_none());
    assert!(drag_bone_order(&arm, 1, &vec![1], false).is_none());
}

#[test]
fn drop_order_follows_positions() {
    let arm = armature(family());
    assert_eq!(drag_bone_order(&arm, 2, &vec![5, 4], true), Some(vec![4, 5]));
    assert_eq!(drag_bone_order(&arm, 2, &vec![4, 5], false), Some(vec![5, 4]));
}

#[test]
fn drop_below_makes_target_the_parent() {
    let mut arm = armature(vec![bone(1, -1), bone(2, -1), bone(3, -1)]);
    drag_bone_step(&mut arm, 3, 1, false);
    assert_eq!(ids(&arm.bones), vec![1, 3, 2]);
    assert_eq!(arm.bones[1].parent_id, 1);
    assert!(!arm.bones[0].folded);
}

#[test]
fn drop_above_takes_the_target_parent() {
    let mut arm = armature(vec![bone(1, -1), bone(2, 1), bone(3, -1)]);
    drag_bone_step(&mut arm, 3, 2, true);
    assert_eq!(ids(&arm.bones), vec![1, 3, 2]);
    assert_eq!(arm.bones[1].parent_id, 1);
}

#[test]
fn copy_bone_takes_the_bone_and_its_children() {
    let mut arm = armature(family());
    let mut sel = selection(0, vec![1]);
    let mut buf = CopyBuffer { bones: vec![], keyframes: vec![kf(1, 1)] };
    copy_bone(&mut buf, &mut sel, &mut arm, 0);
    assert_eq!(ids(&buf.bones), vec![1, 2, 3, 4]);
    assert_eq!(buf.keyframes.len(), 1);
}

#[test]
fn copy_bone_takes_roots_of_the_selection() {
    let mut arm = armature(family());
    let mut sel = selection(1, vec![2, 3, 4]);
    let mut buf = CopyBuffer { bones: vec![], keyframes: vec![] };
    copy_bone(&mut buf, &mut sel, &mut arm, 1);
    assert_eq!(ids(&buf.bones), vec![2, 3, 4]);
}

#[test]
fn copy_without_a_bone_empties_the_buffer() {
    let mut arm = armature(family());
    let mut sel = selection(usize::MAX, vec![]);
    let mut buf = CopyBuffer { bones: vec![bone(8, -1)], keyframes: vec![] };
    copy_bone(&mut buf, &mut sel, &mut arm, usize::MAX);
    assert!(buf.bones.is_empty());
}

#[test]
fn pasted_bones_get_fresh_ids_and_keep_their_links() {
    let mut arm = armature(vec![bone(1, -1), bone(2, 1)]);
    let a = bone(5, 9);
    let mut b = bone(6, 5);
    b.ik_family_id = 0;
    b.binds = vec![bind(5, &[]), bind(1, &[])];
    let mut buf = CopyBuffer { bones: vec![a, b], keyframes: vec![] };
    let mut sel = selection(usize::MAX, vec![]);
    paste_bone(&mut buf, &mut sel, &mut arm, usize::MAX);
    assert_eq!(ids(&arm.bones), vec![1, 2, 4, 5]);
    assert_eq!(arm.bones[2].parent_id, -1);
    assert_eq!(arm.bones[3].parent_id, 4);
    assert_eq!(arm.bones[3].ik_family_id, 1);
    assert_eq!(arm.bones[3].binds[0].bone_id, 4);
    assert_eq!(arm.bones[3].binds[1].bone_id, 1);
    let mut picked = sel.bone_ids.clone();
    picked.sort();
    assert_eq!(picked, vec![4, 5]);
    assert_eq!(arm.bones[sel.bone_idx].id, sel.bone_ids[0]);
}

#[test]
fn paste_onto_a_bone_inserts_there_under_its_parent() {
    let mut arm = armature(vec![bone(1, -1), bone(2, 1), bone(3, -1)]);
    let mut buf = CopyBuffer { bones: vec![bone(8, -1)], keyframes: vec![] };
    let mut sel = selection(usize::MAX, vec![]);
    paste_bone(&mut buf, &mut sel, &mut arm, 1);
    // the highest id is 3, and the first pasted bone skips one id past it
    assert_eq!(ids(&arm.bones), vec![1, 5, 2, 3]);
    assert_eq!(arm.bones[1].parent_id, 1);
    assert_eq!(sel.bone_ids, vec![5]);
    assert_eq!(sel.bone_idx, 1);
}

#[test]
fn deleting_a_bone_removes_its_children_and_references() {
    let mut bones = family();
    bones[4].binds = vec![bind(2, &[]), bind(5, &[])];
    bones[4].ik_target_id = 0;
    let mut arm = armature(bones);
    arm.animations = vec![Animation {
        id: 1,
        name: String::new(),
        fps: 60,
        keyframes: vec![kf(0, 1), kf(1, 3), kf(2, 5), kf(3, 4)],
        playing: false,
    }];
    let mut sel = selection(4, vec![5]);
    assert!(can_delete(&arm, &sel, 0));
    delete_bone(&mut arm, &mut sel, 0);
    assert_eq!(ids(&arm.bones), vec![5]);
    assert_eq!(arm.bones[0].binds.len(), 1);
    assert_eq!(arm.bones[0].binds[0].bone_id, 5);
    assert_eq!(arm.bones[0].ik_target_id, -1);
    let left: Vec<i32> = arm.animations[0].keyframes.iter().map(|k| k.bone_id).collect();
    assert_eq!(left, vec![5]);
    assert_eq!(sel.bone_idx, 4);
    assert_eq!(sel.bone_ids, vec![5]);
}

#[test]
fn deleting_a_selected_bone_deletes_the_whole_selection() {
    let mut arm = armature(family());
    let mut sel = selection(1, vec![2, 5]);
    delete_bone(&mut arm, &mut sel, 1);
    assert_eq!(ids(&arm.bones), vec![1, 4]);
    assert_eq!(sel.bone_idx, usize::MAX);
    assert!(sel.bone_ids.is_empty());
}

#[test]
fn can_delete_refuses_bad_input() {
    let arm = armature(family());
    assert!(!can_delete(&arm, &selection(0, vec![]), 9));
    // two bones share id 2, so bone 3 is found twice below bone 1 and its
    // second removal finds nothing
    let dup = armature(vec![bone(1, -1), bone(2, 1), bone(2, 1), bone(3, 2)]);
    assert!(!can_delete(&dup, &selection(0, vec![]), 0));
    // 1 and 2 are each other's parent
    let cycle = armature(vec![bone(1, 2), bone(2, 1)]);
    assert!(!can_delete(&cycle, &selection(0, vec![]), 0));
    assert!(can_delete(&arm, &selection(0, vec![3, 5]), 2));
}

fn mesh_bone() -> Bone {
    let mut b = bone(1, -1);
    b.vertices = vec![1, 2, 3, 4].into_iter().map(|id| Vertex { id, ..Vertex::default() }).collect();
    b.indices = vec![0, 1, 2, 1, 2, 3];
    b
}

#[test]
fn deleting_a_triangle_blacklists_it() {
    let mut b = mesh_bone();
    delete_triangle(&mut b, 3);
    assert_eq!(b.blacklist, vec![2, 3, 4]);
    assert_eq!(b.indices, vec![0, 1, 2]);
    assert_eq!(b.vertices.len(), 4);
}

#[test]
fn forgetting_a_vertex_drops_it_from_selection_and_binds() {
    let mut b = mesh_bone();
    b.binds = vec![bind(2, &[3, 5, 3]), bind(4, &[7])];
    let mut sel = selection(0, vec![1]);
    sel.vert_ids = vec![3, 7, 3];
    forget_vertex(&mut b, &mut sel, 3);
    assert_eq!(sel.vert_ids, vec![7, 3]);
    let first: Vec<i32> = b.binds[0].verts.iter().map(|v| v.id).collect();
    assert_eq!(first, vec![5, 3]);
    assert_eq!(b.binds[1].verts.len(), 1);
}

#[test]
fn only_roots_of_the_selection_move() {
    let bones = family();
    assert_eq!(skelform_editor::arrange::only_root_bones(&bones, &vec![3, 2, 5, 9]), vec![2, 5]);
    assert_eq!(skelform_editor::arrange::only_root_bones(&bones, &vec![3, 4]), vec![3, 4]);
}

#[test]
fn deleting_removes_only_the_first_bone_with_an_id() {
    let mut arm = armature(vec![bone(1, -1), bone(1, -1), bone(2, -1)]);
    let mut sel = selection(2, vec![]);
    assert!(can_delete(&arm, &sel, 0));
    delete_bone(&mut arm, &mut sel, 0);
    assert_eq!(ids(&arm.bones), vec![1, 2]);
}
