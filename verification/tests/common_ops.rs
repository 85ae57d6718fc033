use skelform_editor::mesh::{cleanup_vertices, remove_blacklisted_tris, vert};
use skelform_editor::model::{
    BoneProps,
    find_anim, find_bone, find_style, Animation, Bone, BoneBind, BoneBindVert, Color, Keyframe, Style,
    Transform, Vec2, Vertex, AnimElement,
};
use skelform_editor::seqs::{contains_i32, contains_u32, contains_usize};
use skelform_editor::state::{ExportOptions, WindowState, open_modal, unselect_all, EditMode, EditModes, Ui};
use skelform_editor::model::SelectionState;
use skelform_editor::text::{push_decimal, replace_all, str_equal};

fn bone(id: i32, parent_id: i32) -> Bone {
    Bone {
        id,
        parent_id,
        name: format!("b{}", id),
        tex: String::new(),
        zindex: 0,
        ik_family_id: -1,
        ik_target_id: -1,
        ik_disabled: false,
        folded: false,
        anim_folded: false,
        locked: false,
        verts_edited: false,
        transform: Transform::default(),
        vertices: vec![],
        indices: vec![],
        blacklist: vec![],
        binds: vec![],
        ik_constraint: String::new(),
        ik_mode: String::new(),
        props: BoneProps::default(),
    }
}

fn vx(id: u32) -> Vertex {
    Vertex { id, ..Vertex::default() }
}

fn keyframe(frame: i32, bone_id: i32) -> Keyframe {
    Keyframe {
        frame,
        bone_id,
        element: AnimElement::Rotation,
        value: 0,
        value_str: String::new(),
        start_handle: Vec2::default(),
        end_handle: Vec2::default(),
        handle_preset: 0,
    }
}

fn selection() -> SelectionState {
    SelectionState {
        bone_idx: 2,
        bone_ids: vec![5, 6],
        vert_ids: vec![1],
        anim: 0,
        anim_frame: 4,
        bind: 1,
        style_id: 3,
        tex_ids: vec![0],
        hovering_vert_id: -1,
        hovering_bone_id: -1,
        hovering_tri_dur: 0,
        hovering_line_dur: 0,
    }
}

fn edit_mode() -> EditMode {
    EditMode {
        current: EditModes::Move,
        temporary: None,
        showing_mesh: true,
        editing_mesh: true,
        editing_pivot: true,
        setting_ik_target: true,
        setting_bind_bone: true,
        anim_open: true,
        onion_layers: false,
        sel_time: 7,
        holding_edit_mod: false,
        holding_edit_snap: false,
        export: ExportOptions::default(),
    }
}

fn ui() -> Ui {
    Ui {
        modal: false,
        forced_modal: false,
        headline: String::new(),
        custom_error: String::from("disk full"),
        last_selected: String::from("bone"),
        rename_id: String::new(),
        edit_value: None,
        selected_bone_first_time: false,
        selected_keyframes: vec![],
        last_selected_frame: 0,
        just_made_style: false,
        just_made_anim: false,
        dragged_keyframe: keyframe(-1, -1),
        tracing: false,
        polar_modal: false,
        polar_id: 0,
        dragging_tex: false,
        window: WindowState {
            export_modal: false,
            exporting_anims: vec![],
            edited_dragging: false,
            autosaving: false,
            changed_window_name: true,
            prev_selected_bone_idx: usize::MAX,
        },
    }
}

#[test]
fn vert_fills_missing_values_with_zero() {
    let v = vert(Some(Vec2 { x: 3, y: 4 }), None, None);
    assert_eq!(v.pos, Vec2 { x: 3, y: 4 });
    assert_eq!(v.uv, Vec2 { x: 0, y: 0 });
    assert_eq!(v.color, Color { r: 0, g: 0, b: 0, a: 0 });
    assert_eq!(v.id, 0);
    assert_eq!(v.offset_rot, 0);
}

#[test]
fn vert_keeps_given_values() {
    let c = Color { r: 1, g: 2, b: 3, a: 4 };
    let v = vert(None, Some(c), Some(Vec2 { x: 9, y: 8 }));
    assert_eq!(v.pos, Vec2 { x: 0, y: 0 });
    assert_eq!(v.uv, Vec2 { x: 9, y: 8 });
    assert_eq!(v.color, c);
}

#[test]
fn find_bone_gives_first_match() {
    let bones = vec![bone(1, -1), bone(2, 1), bone(2, -1)];
    assert_eq!(find_bone(&bones, 2), Some(1));
    assert_eq!(find_bone(&bones, 1), Some(0));
    assert_eq!(find_bone(&bones, 9), None);
}

#[test]
fn find_anim_and_style_by_id() {
    let anims = vec![
        Animation { id: 4, name: String::new(), fps: 60, keyframes: vec![], playing: false },
        Animation { id: 7, name: String::new(), fps: 60, keyframes: vec![], playing: false },
    ];
    assert_eq!(find_anim(&anims, 7), Some(1));
    assert_eq!(find_anim(&anims, 5), None);
    let styles = vec![Style { id: 3, name: String::new(), textures: vec![], active: true }];
    assert_eq!(find_style(&styles, 3), Some(0));
    assert_eq!(find_style(&styles, -1), None);
}

#[test]
fn contains_finds_values() {
    assert!(contains_u32(&vec![1, 2, 3], 3));
    assert!(!contains_u32(&vec![], 3));
    assert!(contains_i32(&vec![-1, 5], -1));
    assert!(!contains_i32(&vec![-1, 5], 4));
    assert!(contains_usize(&vec![0], 0));
}

#[test]
fn replace_all_replaces_each_occurrence() {
    assert_eq!(replace_all("a$errb$err", "$err", "X"), "aXbX");
    assert_eq!(replace_all("nothing here", "$err", "X"), "nothing here");
    assert_eq!(replace_all("$e$err", "$err", "12"), "$e12");
}

#[test]
fn push_decimal_writes_digits() {
    let mut s = String::from("bone_");
    push_decimal(&mut s, 0);
    assert_eq!(s, "bone_0");
    let mut t = String::new();
    push_decimal(&mut t, 1203);
    assert_eq!(t, "1203");
}

#[test]
fn str_equal_compares_characters() {
    assert!(str_equal("bone", "bone"));
    assert!(!str_equal("bone", "bones"));
    assert!(!str_equal("bone", "bond"));
}

#[test]
fn open_modal_puts_error_in_headline() {
    let mut u = ui();
    open_modal(&mut u, true, String::from("Could not save: $err"));
    assert!(u.modal);
    assert!(u.forced_modal);
    assert_eq!(u.headline, "Could not save: disk full");
}

#[test]
fn unselect_all_clears_every_selection() {
    let mut s = selection();
    let mut em = edit_mode();
    let mut u = ui();
    unselect_all(&mut s, &mut em, &mut u);
    assert_eq!(s.bone_idx, usize::MAX);
    assert!(s.bone_ids.is_empty());
    assert_eq!(s.anim_frame, -1);
    assert_eq!(s.anim, usize::MAX);
    assert_eq!(s.bind, -1);
    assert_eq!(s.style_id, -1);
    assert_eq!(s.vert_ids, vec![1]);
    assert!(!em.showing_mesh && !em.setting_ik_target && !em.setting_bind_bone);
    assert!(em.editing_mesh);
    assert_eq!(u.last_selected, "");
}

#[test]
fn cleanup_removes_unused_vertices_and_shifts_indices() {
    let mut b = bone(1, -1);
    b.vertices = vec![vx(10), vx(11), vx(12), vx(13)];
    b.indices = vec![0, 2, 3];
    b.binds = vec![BoneBind {
        bone_id: 2,
        is_path: false,
        verts: vec![BoneBindVert { id: 11, weight: 5 }, BoneBindVert { id: 12, weight: 6 }],
    }];
    cleanup_vertices(&mut b);
    let ids: Vec<u32> = b.vertices.iter().map(|v| v.id).collect();
    assert_eq!(ids, vec![10, 12, 13]);
    assert_eq!(b.indices, vec![0, 1, 2]);
    assert_eq!(b.binds[0].verts.len(), 1);
    assert_eq!(b.binds[0].verts[0].id, 12);
}

#[test]
fn cleanup_keeps_indices_on_the_same_vertices() {
    let mut b = bone(1, -1);
    b.vertices = vec![vx(20), vx(21), vx(22), vx(23), vx(24)];
    b.indices = vec![4, 1, 3, 3, 1, 4];
    let before: Vec<u32> = b.indices.iter().map(|i| b.vertices[*i as usize].id).collect();
    cleanup_vertices(&mut b);
    let after: Vec<u32> = b.indices.iter().map(|i| b.vertices[*i as usize].id).collect();
    assert_eq!(before, after);
    assert_eq!(b.vertices.len(), 3);
}

#[test]
fn blacklisted_triangle_is_removed() {
    let verts = vec![vx(1), vx(2), vx(3), vx(4)];
    let mut indices = vec![0, 1, 2, 1, 2, 3];
    let mut blacklist = vec![4, 3, 2];
    remove_blacklisted_tris(&mut indices, &verts, &mut blacklist);
    assert_eq!(indices, vec![0, 1, 2]);
    assert_eq!(blacklist, vec![4, 3, 2]);
}

#[test]
fn stale_blacklist_entries_are_dropped() {
    let verts = vec![vx(1), vx(2), vx(3)];
    let mut indices = vec![0, 1, 2];
    let mut blacklist = vec![7, 8, 9, 1, 2, 3];
    remove_blacklisted_tris(&mut indices, &verts, &mut blacklist);
    assert_eq!(blacklist, vec![1, 2, 3]);
    assert!(indices.is_empty());
}
