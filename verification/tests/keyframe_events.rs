use skelform_editor::events::{
    delete_keyframe_line, delete_keyframes_by_frame, delete_selected_keyframes, delete_selected_textures,
    delete_style, migrate_texture, move_animation, move_style, move_texture, raise_global_zindex,
    reduce_global_ik_family_ids, select_bind, select_vertex, toggle_selected_texture,
};
use skelform_editor::keyframes::{
    copy_selected_keyframes, move_selected_keyframes, paste_keyframes_on_frame, same_keyframe,
    select_anim_frame, sort_keyframes,
};
use skelform_editor::model::{
    BoneProps,
    AnimElement, Animation, Armature, Bone, CopyBuffer, Keyframe, SelectionState, Style, Texture,
    Transform, Vec2,
};
use skelform_editor::state::{ExportOptions, WindowState, EditMode, EditModes, InputStates, Ui};

fn kf(frame: i32, bone_id: i32, element: AnimElement) -> Keyframe {
    Keyframe {
        frame,
        bone_id,
        element,
        value: 0,
        value_str: String::new(),
        start_handle: Vec2::default(),
        end_handle: Vec2::default(),
        handle_preset: 0,
    }
}

fn frames(kfs: &Vec<Keyframe>) -> Vec<(i32, i32, AnimElement)> {
    kfs.iter().map(|k| (k.frame, k.bone_id, k.element)).collect()
}

fn anim(id: i32, keyframes: Vec<Keyframe>) -> Animation {
    Animation { id, name: format!("a{}", id), fps: 60, keyframes, playing: false }
}

fn bone(id: i32, parent_id: i32) -> Bone {
    Bone {
        id,
        parent_id,
        name: format!("b{}", id),
        tex: String::new(),
        zindex: 0,
        ik_family_id: -1,
        ik_target_id: -1,
        ik_disabled: false,
        folded: false,
        anim_folded: false,
        locked: false,
        verts_edited: false,
        transform: Transform::default(),
        vertices: vec![],
        indices: vec![],
        blacklist: vec![],
        binds: vec![],
        ik_constraint: String::new(),
        ik_mode: String::new(),
        props: BoneProps::default(),
    }
}

fn tex(name: &str) -> Texture {
    Texture { name: name.to_string(), data_id: 0, size: Vec2::default() }
}

fn style(id: i32, names: &[&str]) -> Style {
    Style { id, name: format!("s{}", id), textures: names.iter().map(|n| tex(n)).collect(), active: true }
}

fn tex_names(s: &Style) -> Vec<String> {
    s.textures.iter().map(|t| t.name.clone()).collect()
}

fn selection() -> SelectionState {
    SelectionState {
        bone_idx: 1,
        bone_ids: vec![7],
        vert_ids: vec![],
        anim: 0,
        anim_frame: 0,
        bind: 3,
        style_id: 10,
        tex_ids: vec![],
        hovering_vert_id: -1,
        hovering_bone_id: -1,
        hovering_tri_dur: 0,
        hovering_line_dur: 0,
    }
}

fn ui() -> Ui {
    Ui {
        modal: false,
        forced_modal: false,
        headline: String::new(),
        custom_error: String::new(),
        last_selected: String::new(),
        rename_id: String::new(),
        edit_value: None,
        selected_bone_first_time: false,
        selected_keyframes: vec![],
        last_selected_frame: 0,
        just_made_style: false,
        just_made_anim: false,
        dragged_keyframe: kf(-1, -1, AnimElement::PositionX),
        tracing: false,
        polar_modal: false,
        polar_id: 0,
        dragging_tex: false,
        window: WindowState {
            export_modal: false,
            exporting_anims: vec![],
            edited_dragging: false,
            autosaving: false,
            changed_window_name: true,
            prev_selected_bone_idx: usize::MAX,
        },
    }
}

fn edit_mode() -> EditMode {
    EditMode {
        current: EditModes::Rotate,
        temporary: None,
        showing_mesh: true,
        editing_mesh: false,
        editing_pivot: false,
        setting_ik_target: true,
        setting_bind_bone: false,
        anim_open: true,
        onion_layers: false,
        sel_time: 0,
        holding_edit_mod: false,
        holding_edit_snap: false,
        export: ExportOptions::default(),
    }
}

fn with_anim(kfs: Vec<Keyframe>) -> Armature {
    Armature { bones: vec![], animations: vec![anim(1, kfs)], styles: vec![] }
}

use AnimElement::{PositionX, Rotation, ScaleX};

#[test]
fn sort_keyframes_is_stable_by_frame() {
    let mut kfs = vec![kf(5, 1, Rotation), kf(2, 1, Rotation), kf(5, 2, ScaleX), kf(0, 3, PositionX)];
    sort_keyframes(&mut kfs);
    assert_eq!(
        frames(&kfs),
        vec![(0, 3, PositionX), (2, 1, Rotation), (5, 1, Rotation), (5, 2, ScaleX)]
    );
}

#[test]
fn same_keyframe_compares_every_field() {
    let a = kf(1, 2, Rotation);
    let mut b = kf(1, 2, Rotation);
    assert!(same_keyframe(&a, &b));
    b.value_str = String::from("x");
    assert!(!same_keyframe(&a, &b));
    let mut c = kf(1, 2, Rotation);
    c.value = 1;
    assert!(!same_keyframe(&a, &c));
}

#[test]
fn copy_selected_keyframes_fills_buffer() {
    let mut u = ui();
    u.selected_keyframes = vec![kf(3, 1, Rotation), kf(1, 1, ScaleX)];
    let mut buf = CopyBuffer { bones: vec![bone(1, -1)], keyframes: vec![kf(9, 9, Rotation)] };
    copy_selected_keyframes(&mut buf, &u);
    assert!(buf.bones.is_empty());
    assert_eq!(frames(&buf.keyframes), vec![(3, 1, Rotation), (1, 1, ScaleX)]);
}

#[test]
fn paste_keyframes_shifts_and_replaces_clashing_ones() {
    let mut arm = with_anim(vec![kf(12, 2, Rotation), kf(10, 2, Rotation), kf(7, 2, ScaleX)]);
    let mut buf = CopyBuffer { bones: vec![], keyframes: vec![kf(5, 1, Rotation), kf(3, 1, PositionX)] };
    paste_keyframes_on_frame(&mut buf, &mut arm, &selection(), 10);
    assert_eq!(
        frames(&arm.animations[0].keyframes),
        vec![(7, 2, ScaleX), (10, 2, Rotation), (10, 1, PositionX), (12, 1, Rotation)]
    );
    assert_eq!(frames(&buf.keyframes), vec![(3, 1, PositionX), (5, 1, Rotation)]);
}

#[test]
fn paste_with_empty_buffer_does_nothing() {
    let mut arm = with_anim(vec![kf(1, 2, Rotation)]);
    let mut buf = CopyBuffer { bones: vec![], keyframes: vec![] };
    paste_keyframes_on_frame(&mut buf, &mut arm, &selection(), 4);
    assert_eq!(frames(&arm.animations[0].keyframes), vec![(1, 2, Rotation)]);
}

#[test]
fn dropping_on_the_start_frame_moves_nothing() {
    let mut arm = with_anim(vec![kf(5, 1, Rotation)]);
    let mut u = ui();
    u.selected_keyframes = vec![kf(5, 1, Rotation)];
    u.dragged_keyframe.frame = 5;
    let moved = move_selected_keyframes(&mut arm, &selection(), &mut u, 5);
    assert!(!moved);
    assert_eq!(u.dragged_keyframe.frame, -1);
    assert_eq!(frames(&arm.animations[0].keyframes), vec![(5, 1, Rotation)]);
}

#[test]
fn moved_keyframe_replaces_the_one_it_lands_on() {
    let mut arm = with_anim(vec![kf(0, 1, Rotation), kf(5, 1, Rotation), kf(8, 1, Rotation)]);
    let mut u = ui();
    u.selected_keyframes = vec![kf(5, 1, Rotation)];
    u.dragged_keyframe.frame = 5;
    let moved = move_selected_keyframes(&mut arm, &selection(), &mut u, 8);
    assert!(moved);
    assert_eq!(frames(&arm.animations[0].keyframes), vec![(0, 1, Rotation), (8, 1, Rotation)]);
    assert_eq!(u.selected_keyframes[0].frame, 8);
    assert_eq!(u.dragged_keyframe.frame, -1);
}

#[test]
fn moved_keyframes_keep_spacing_but_stop_at_zero() {
    let mut arm = with_anim(vec![kf(1, 1, Rotation), kf(3, 1, ScaleX), kf(6, 2, Rotation)]);
    let mut u = ui();
    u.selected_keyframes = vec![kf(1, 1, Rotation), kf(3, 1, ScaleX)];
    u.dragged_keyframe.frame = 3;
    assert!(move_selected_keyframes(&mut arm, &selection(), &mut u, 0));
    assert_eq!(
        frames(&arm.animations[0].keyframes),
        vec![(0, 1, Rotation), (0, 1, ScaleX), (6, 2, Rotation)]
    );
    assert_eq!(u.selected_keyframes[0].frame, 0);
    assert_eq!(u.selected_keyframes[1].frame, 0);
}

#[test]
fn clicking_a_frame_selects_its_keyframes() {
    let arm = with_anim(vec![kf(2, 1, Rotation), kf(2, 1, PositionX), kf(4, 1, Rotation)]);
    let mut sel = selection();
    let mut em = edit_mode();
    let mut u = ui();
    u.selected_keyframes = vec![kf(4, 1, Rotation)];
    let keys = InputStates { holding_mod: false, holding_shift: false };
    select_anim_frame(&arm, &mut sel, &mut em, &mut u, &keys, 2, true, false);
    assert_eq!(frames(&u.selected_keyframes), vec![(2, 1, Rotation), (2, 1, PositionX)]);
    assert_eq!(sel.anim, 0);
    assert_eq!(sel.anim_frame, 2);
    assert_eq!(sel.bone_idx, 1);
    assert_eq!(sel.bone_ids, vec![7]);
    assert_eq!(sel.bind, -1);
    assert_eq!(sel.style_id, -1);
    assert_eq!(u.last_selected, "keyframe");
    assert_eq!(u.last_selected_frame, 2);
    assert!(!em.setting_ik_target && !em.showing_mesh);
}

#[test]
fn shift_click_selects_the_frames_in_between_once() {
    let arm = with_anim(vec![kf(2, 1, Rotation), kf(2, 1, PositionX), kf(4, 1, Rotation), kf(9, 1, Rotation)]);
    let mut sel = selection();
    let mut em = edit_mode();
    let mut u = ui();
    u.selected_keyframes = vec![kf(4, 1, Rotation)];
    u.last_selected_frame = 4;
    let shift = InputStates { holding_mod: false, holding_shift: true };
    select_anim_frame(&arm, &mut sel, &mut em, &mut u, &shift, 2, true, false);
    assert_eq!(
        frames(&u.selected_keyframes),
        vec![(4, 1, Rotation), (2, 1, Rotation), (2, 1, PositionX)]
    );
}

#[test]
fn delete_keyframes_on_a_frame() {
    let mut arm = with_anim(vec![kf(1, 1, Rotation), kf(2, 1, Rotation), kf(1, 2, ScaleX)]);
    delete_keyframes_by_frame(&mut arm, &selection(), 1);
    assert_eq!(frames(&arm.animations[0].keyframes), vec![(2, 1, Rotation)]);
}

#[test]
fn delete_a_keyframe_line() {
    let mut arm = with_anim(vec![kf(1, 1, Rotation), kf(2, 1, Rotation), kf(1, 1, ScaleX), kf(3, 2, Rotation)]);
    delete_keyframe_line(&mut arm, &selection(), 1, Rotation);
    assert_eq!(frames(&arm.animations[0].keyframes), vec![(1, 1, ScaleX), (3, 2, Rotation)]);
}

#[test]
fn delete_selected_keyframes_removes_matching_ones() {
    let mut arm = with_anim(vec![kf(1, 1, Rotation), kf(1, 2, Rotation), kf(1, 1, ScaleX), kf(4, 1, Rotation)]);
    let mut u = ui();
    u.selected_keyframes = vec![kf(1, 1, Rotation), kf(4, 1, Rotation)];
    delete_selected_keyframes(&mut arm, &selection(), &u);
    assert_eq!(frames(&arm.animations[0].keyframes), vec![(1, 2, Rotation), (1, 1, ScaleX)]);
}

#[test]
fn raise_zindex_pushes_textured_bones_above_it() {
    let mut a = bone(1, -1);
    a.tex = String::from("a");
    let mut b = bone(2, -1);
    b.tex = String::from("b");
    b.zindex = 1;
    let mut c = bone(3, -1);
    c.zindex = 2;
    let mut d = bone(4, -1);
    d.tex = String::from("d");
    d.zindex = -1;
    let mut arm = Armature { bones: vec![a, b, c, d], animations: vec![], styles: vec![] };
    raise_global_zindex(&mut arm, 1);
    let z: Vec<i32> = arm.bones.iter().map(|b| b.zindex).collect();
    assert_eq!(z, vec![1, 2, 2, -1]);
}

#[test]
fn reduce_ik_family_ids_above_a_value() {
    let mut bones = vec![bone(1, -1), bone(2, -1), bone(3, -1), bone(4, -1)];
    bones[0].ik_family_id = 3;
    bones[1].ik_family_id = 1;
    bones[3].ik_family_id = 2;
    let mut arm = Armature { bones, animations: vec![], styles: vec![] };
    reduce_global_ik_family_ids(&mut arm, 1);
    let f: Vec<i32> = arm.bones.iter().map(|b| b.ik_family_id).collect();
    assert_eq!(f, vec![2, 1, -1, 1]);
}

#[test]
fn move_animation_lands_on_hovered_slot() {
    let mut arm = Armature { bones: vec![], animations: vec![anim(1, vec![]), anim(2, vec![]), anim(3, vec![])], styles: vec![] };
    let mut sel = selection();
    move_animation(&mut arm, &mut sel, 0, 2);
    let ids: Vec<i32> = arm.animations.iter().map(|a| a.id).collect();
    assert_eq!(ids, vec![2, 1, 3]);
    assert_eq!(sel.anim, 1);
    move_animation(&mut arm, &mut sel, 2, 0);
    let ids: Vec<i32> = arm.animations.iter().map(|a| a.id).collect();
    assert_eq!(ids, vec![3, 2, 1]);
    assert_eq!(sel.anim, 0);
}

#[test]
fn move_texture_within_the_selected_style() {
    let mut arm = Armature { bones: vec![], animations: vec![], styles: vec![style(4, &["x"]), style(10, &["t0", "t1", "t2"])] };
    move_texture(&mut arm, &selection(), 2, 0);
    assert_eq!(tex_names(&arm.styles[1]), vec!["t1", "t2", "t0"]);
    assert_eq!(tex_names(&arm.styles[0]), vec!["x"]);
}

#[test]
fn migrate_texture_to_another_style() {
    let mut arm = Armature { bones: vec![], animations: vec![], styles: vec![style(10, &["x", "y"]), style(11, &["z"])] };
    migrate_texture(&mut arm, &selection(), 1, 1);
    assert_eq!(tex_names(&arm.styles[0]), vec!["x"]);
    assert_eq!(tex_names(&arm.styles[1]), vec!["z", "y"]);
}

#[test]
fn move_style_swaps_two_styles() {
    let mut arm = Armature { bones: vec![], animations: vec![], styles: vec![style(1, &[]), style(2, &[]), style(3, &[])] };
    move_style(&mut arm, 0, 2);
    let ids: Vec<i32> = arm.styles.iter().map(|s| s.id).collect();
    assert_eq!(ids, vec![3, 2, 1]);
}

#[test]
fn toggling_textures_keeps_the_selection_sorted() {
    let mut sel = selection();
    sel.tex_ids = vec![5, 1];
    let mut u = ui();
    toggle_selected_texture(&mut sel, &mut u, 3, true);
    assert_eq!(sel.tex_ids, vec![1, 3, 5]);
    toggle_selected_texture(&mut sel, &mut u, 3, true);
    assert_eq!(sel.tex_ids, vec![1, 3, 5]);
    toggle_selected_texture(&mut sel, &mut u, 1, false);
    assert_eq!(sel.tex_ids, vec![3, 5]);
    assert_eq!(u.last_selected, "texture");
}

#[test]
fn delete_selected_textures_of_the_style() {
    let mut arm = Armature { bones: vec![], animations: vec![], styles: vec![style(10, &["a", "b", "c"])] };
    let mut sel = selection();
    sel.tex_ids = vec![0, 2];
    delete_selected_textures(&mut arm, &mut sel);
    assert_eq!(tex_names(&arm.styles[0]), vec!["b"]);
    assert!(sel.tex_ids.is_empty());
}

#[test]
fn delete_style_unselects_it() {
    let mut arm = Armature { bones: vec![], animations: vec![], styles: vec![style(10, &[]), style(2, &[])] };
    let mut sel = selection();
    delete_style(&mut arm, &mut sel, 10);
    assert_eq!(arm.styles.len(), 1);
    assert_eq!(arm.styles[0].id, 2);
    assert_eq!(sel.style_id, -1);
    delete_style(&mut arm, &mut sel, 2);
    assert!(arm.styles.is_empty());
}

#[test]
fn select_vertex_replaces_appends_or_clears() {
    let mut sel = selection();
    let none = InputStates { holding_mod: false, holding_shift: false };
    let shift = InputStates { holding_mod: false, holding_shift: true };
    select_vertex(&mut sel, &none, 4, false);
    assert_eq!(sel.vert_ids, vec![4]);
    select_vertex(&mut sel, &none, 6, true);
    assert_eq!(sel.vert_ids, vec![4, 6]);
    select_vertex(&mut sel, &shift, 2, false);
    assert_eq!(sel.vert_ids, vec![4, 6, 2]);
    select_vertex(&mut sel, &none, 5, false);
    assert_eq!(sel.vert_ids, vec![5]);
    select_vertex(&mut sel, &none, -1, true);
    assert!(sel.vert_ids.is_empty());
}

#[test]
fn select_bind_chooses_adds_or_clears() {
    let mut arm = Armature { bones: vec![bone(1, -1), bone(7, -1)], animations: vec![], styles: vec![] };
    let mut sel = selection();
    select_bind(&mut arm, &mut sel, -2);
    assert_eq!(arm.bones[1].binds.len(), 1);
    assert_eq!(arm.bones[1].binds[0].bone_id, -1);
    assert_eq!(sel.bind, 0);
    select_bind(&mut arm, &mut sel, -1);
    assert_eq!(sel.bind, 0);
    select_bind(&mut arm, &mut sel, -3);
    assert_eq!(sel.bind, -1);
    select_bind(&mut arm, &mut sel, 5);
    assert_eq!(sel.bind, 5);
}

#[test]
fn renaming_a_texture_trims_and_follows_bones() {
    let mut b1 = bone(1, -1);
    b1.tex = String::from("t1");
    let b2 = bone(2, -1);
    let mut arm = Armature { bones: vec![b1, b2], animations: vec![], styles: vec![style(10, &["t0", "t1"])] };
    let mut u = ui();
    skelform_editor::events::rename_texture(&mut arm, &selection(), &mut u, 1, "  arm\t\n", false, String::from("taken"));
    assert_eq!(tex_names(&arm.styles[0]), vec!["t0", "arm"]);
    assert_eq!(arm.bones[0].tex, "arm");
    assert_eq!(arm.bones[1].tex, "");
    assert!(!u.modal);
}

#[test]
fn renaming_to_a_taken_name_is_refused() {
    let mut b1 = bone(1, -1);
    b1.tex = String::from("t1");
    let mut arm = Armature { bones: vec![b1], animations: vec![], styles: vec![style(10, &["t0", "t1"])] };
    let mut u = ui();
    u.custom_error = String::from("!");
    skelform_editor::events::rename_texture(&mut arm, &selection(), &mut u, 1, " t0", false, String::from("taken$err"));
    assert_eq!(tex_names(&arm.styles[0]), vec!["t0", "t1"]);
    assert!(u.modal);
    assert!(!u.forced_modal);
    assert_eq!(u.headline, "taken!");
    // bones follow the new name even though the rename was refused
    assert_eq!(arm.bones[0].tex, "t0");
}

#[test]
fn renaming_with_kept_texture_names_leaves_bones() {
    let mut b1 = bone(1, -1);
    b1.tex = String::from("t1");
    let mut arm = Armature { bones: vec![b1], animations: vec![], styles: vec![style(10, &["t1"])] };
    let mut u = ui();
    skelform_editor::events::rename_texture(&mut arm, &selection(), &mut u, 0, "leg", true, String::new());
    assert_eq!(tex_names(&arm.styles[0]), vec!["leg"]);
    assert_eq!(arm.bones[0].tex, "t1");
}

fn square_mesh() -> (Vec<skelform_editor::model::Vertex>, Vec<u32>) {
    let verts = (1..=5).map(|id| skelform_editor::model::Vertex { id, ..Default::default() }).collect();
    (verts, vec![0, 1, 2, 0, 2, 3])
}

#[test]
fn traced_mesh_replaces_the_bone_mesh() {
    let mut b = bone(1, -1);
    b.blacklist = vec![1, 2, 3];
    b.binds = vec![skelform_editor::model::BoneBind { bone_id: 4, is_path: false, verts: vec![] }];
    let mut arm = Armature { bones: vec![bone(0, -1), b], animations: vec![], styles: vec![] };
    let mut sel = selection();
    sel.vert_ids = vec![2];
    let mut u = ui();
    let (verts, indices) = square_mesh();
    assert!(skelform_editor::events::set_traced_mesh(&mut arm, &mut sel, &mut u, verts, indices, String::new()));
    let ids: Vec<u32> = arm.bones[1].vertices.iter().map(|v| v.id).collect();
    assert_eq!(ids, vec![1, 2, 3, 4]);
    assert_eq!(arm.bones[1].indices, vec![0, 1, 2, 0, 2, 3]);
    assert!(arm.bones[1].binds.is_empty() && arm.bones[1].blacklist.is_empty());
    assert!(arm.bones[1].verts_edited);
    assert!(sel.vert_ids.is_empty());
    assert_eq!(sel.bind, -1);
    assert!(!u.modal);
}

#[test]
fn too_coarse_trace_opens_a_modal() {
    let mut arm = Armature { bones: vec![bone(0, -1), bone(1, -1)], animations: vec![], styles: vec![] };
    let mut sel = selection();
    let mut u = ui();
    let (verts, _) = square_mesh();
    let taken = skelform_editor::events::set_traced_mesh(&mut arm, &mut sel, &mut u, verts, vec![0, 1, 2], String::from("gap too high"));
    assert!(!taken);
    assert!(arm.bones[1].vertices.is_empty());
    assert!(u.modal);
    assert_eq!(u.headline, "gap too high");
    assert_eq!(sel.bind, 3);
}

#[test]
fn fps_change_moves_keyframes() {
    let mut arm = with_anim(vec![kf(0, 1, Rotation), kf(0, 2, Rotation), kf(6, 1, Rotation)]);
    let mut u = ui();
    let changed = skelform_editor::keyframes::change_fps(&mut arm, &selection(), &mut u, &vec![0, 0, 3], 30, false, String::new());
    assert!(changed);
    assert_eq!(arm.animations[0].fps, 30);
    assert_eq!(frames(&arm.animations[0].keyframes), vec![(0, 1, Rotation), (0, 2, Rotation), (3, 1, Rotation)]);
    assert!(!u.modal);
}

#[test]
fn fps_change_that_merges_frames_is_refused() {
    let mut arm = with_anim(vec![kf(0, 1, Rotation), kf(1, 1, Rotation), kf(2, 1, Rotation)]);
    let mut u = ui();
    let changed = skelform_editor::keyframes::change_fps(&mut arm, &selection(), &mut u, &vec![0, 0, 1], 1, true, String::from("bad fps"));
    assert!(!changed);
    assert_eq!(arm.animations[0].fps, 60);
    assert_eq!(frames(&arm.animations[0].keyframes), vec![(0, 1, Rotation), (1, 1, Rotation), (2, 1, Rotation)]);
    assert!(u.modal && u.forced_modal);
    assert_eq!(u.headline, "bad fps");
}
