use skelform_editor::dispatch::{apply_event, Editor, Events};
use skelform_editor::mesh_events::{click_vertex, reset_vertices, set_bind_pathing, update_keyframe_transition};
use skelform_editor::model::{
    generate_id, ActionType, AnimElement, Animation, Armature, BindView, Bone, BoneBind, BoneBindVert, BoneProps,
    CopyBuffer, Keyframe, SelectionState, Style, Transform, UndoStates, Vec2, Vertex,
};
use skelform_editor::recording::edit_bone;
use skelform_editor::state::{ExportOptions, WindowState, EditMode, EditModes, InputStates, Ui};

fn bone(id: i32, parent_id: i32) -> Bone {
    Bone {
        id,
        parent_id,
        name: format!("b{}", id),
        tex: String::new(),
        zindex: 0,
        ik_family_id: -1,
        ik_target_id: -1,
        ik_disabled: false,
        folded: true,
        anim_folded: false,
        locked: false,
        verts_edited: false,
        transform: Transform::default(),
        vertices: vec![],
        indices: vec![],
        blacklist: vec![],
        binds: vec![],
        ik_constraint: String::new(),
        ik_mode: String::new(),
        props: BoneProps::default(),
    }
}

fn kf(frame: i32, bone_id: i32, element: AnimElement, value: u32) -> Keyframe {
    Keyframe {
        frame,
        bone_id,
        element,
        value,
        value_str: String::new(),
        start_handle: Vec2::default(),
        end_handle: Vec2::default(),
        handle_preset: 0,
    }
}

fn anim(id: i32, keyframes: Vec<Keyframe>) -> Animation {
    Animation { id, name: format!("a{}", id), fps: 60, keyframes, playing: false }
}

fn editor(bones: Vec<Bone>, animations: Vec<Animation>) -> Editor {
    Editor {
        armature: Armature { bones, animations, styles: vec![] },
        selections: SelectionState {
            bone_idx: usize::MAX,
            bone_ids: vec![],
            vert_ids: vec![],
            anim: usize::MAX,
            anim_frame: -1,
            bind: -1,
            style_id: -1,
            tex_ids: vec![],
            hovering_vert_id: -1,
            hovering_bone_id: -1,
            hovering_tri_dur: 0,
            hovering_line_dur: 0,
        },
        ui: Ui {
            modal: false,
            forced_modal: false,
            headline: String::new(),
            custom_error: String::new(),
            last_selected: String::new(),
            rename_id: String::new(),
            edit_value: None,
            selected_bone_first_time: false,
            selected_keyframes: vec![],
            last_selected_frame: 0,
            just_made_style: false,
            just_made_anim: false,
            dragged_keyframe: kf(-1, -1, AnimElement::PositionX, 0),
            tracing: false,
            polar_modal: false,
            polar_id: 0,
            dragging_tex: true,
            window: WindowState {
                export_modal: false,
                exporting_anims: vec![],
                edited_dragging: false,
                autosaving: false,
                changed_window_name: true,
                prev_selected_bone_idx: usize::MAX,
            },
        },
        edit_mode: EditMode {
            current: EditModes::Rotate,
            temporary: None,
            showing_mesh: true,
            editing_mesh: false,
            editing_pivot: false,
            setting_ik_target: false,
            setting_bind_bone: false,
            anim_open: true,
            onion_layers: false,
            sel_time: 0,
            holding_edit_mod: false,
            holding_edit_snap: false,
            export: ExportOptions::default(),
        },
        undo_states: UndoStates {
            undo_actions: vec![],
            redo_actions: vec![],
            temp_actions: vec![],
            prev_undo_actions: 0,
            unsaved_undo_actions: 0,
        },
        copy_buffer: CopyBuffer { bones: vec![], keyframes: vec![] },
        input: InputStates { holding_mod: false, holding_shift: false },
        psd_armature: Armature { bones: vec![], animations: vec![], styles: vec![] },
    }
}

fn slots(kfs: &Vec<Keyframe>) -> Vec<(i32, i32, AnimElement, u32, String)> {
    kfs.iter().map(|k| (k.frame, k.bone_id, k.element, k.value, k.value_str.clone())).collect()
}

const ONE: u32 = 0x3f80_0000;

fn style(id: i32) -> Style {
    Style { id, name: format!("s{}", id), textures: vec![], active: true }
}

#[test]
fn generate_id_takes_the_smallest_free_id() {
    assert_eq!(generate_id(&vec![0, 1, 3]), 2);
    assert_eq!(generate_id(&vec![]), 0);
    assert_eq!(generate_id(&vec![5, 2]), 0);
}

#[test]
fn edit_bone_sets_the_field_outside_an_animation() {
    let mut arm = Armature { bones: vec![bone(4, -1)], animations: vec![anim(1, vec![])], styles: vec![] };
    edit_bone(&mut arm, false, 4, AnimElement::PositionX, 77, 0, 0, false, false, String::new(), 0, 0, -1);
    assert_eq!(arm.bones[0].transform.pos.x, 77);
    edit_bone(&mut arm, false, 4, AnimElement::Zindex, 0, 9, 9, false, false, String::new(), 0, 0, -1);
    assert_eq!(arm.bones[0].zindex, 9);
    edit_bone(&mut arm, false, 4, AnimElement::IkMode, 0, 0, 0, false, false, String::from("Arc"), 0, 0, -1);
    assert_eq!(arm.bones[0].ik_mode, "Arc");
    assert!(arm.animations[0].keyframes.is_empty());
}

#[test]
fn edit_bone_records_into_the_animation() {
    let mut b = bone(4, -1);
    b.transform.rot = 5;
    let mut arm = Armature { bones: vec![b], animations: vec![anim(1, vec![])], styles: vec![] };
    edit_bone(&mut arm, false, 4, AnimElement::Rotation, 9, 0, 0, false, false, String::new(), 0, 0, 3);
    // the bone keeps its value; frame 0 keeps the old one and frame 3 the new one
    assert_eq!(arm.bones[0].transform.rot, 5);
    let kfs: Vec<(i32, u32)> = arm.animations[0].keyframes.iter().map(|k| (k.frame, k.value)).collect();
    assert_eq!(kfs, vec![(0, 5), (3, 9)]);
}

#[test]
fn edit_bone_of_a_locked_bone_is_not_recorded() {
    let mut b = bone(4, -1);
    b.locked = true;
    let mut arm = Armature { bones: vec![b], animations: vec![anim(1, vec![])], styles: vec![] };
    edit_bone(&mut arm, false, 4, AnimElement::ScaleY, 9, 0, 0, false, false, String::new(), 0, 0, 3);
    assert_eq!(arm.bones[0].transform.scale.y, 9);
    assert!(arm.animations[0].keyframes.is_empty());
}

#[test]
fn edit_bone_zeroes_the_rotation_inside_an_ik_chain() {
    let mut b = bone(4, -1);
    b.ik_family_id = 2;
    let mut arm = Armature { bones: vec![b], animations: vec![], styles: vec![] };
    edit_bone(&mut arm, false, 4, AnimElement::Rotation, 9, 0, 0, false, false, String::new(), 0, 0, -1);
    assert_eq!(arm.bones[0].transform.rot, 0);
    edit_bone(&mut arm, false, 4, AnimElement::Rotation, 9, 0, 0, false, true, String::new(), 0, 0, -1);
    assert_eq!(arm.bones[0].transform.rot, 9);
}

#[test]
fn edit_bone_waits_while_an_animation_plays() {
    let mut a = anim(1, vec![]);
    a.playing = true;
    let mut arm = Armature { bones: vec![bone(4, -1)], animations: vec![a], styles: vec![] };
    edit_bone(&mut arm, false, 4, AnimElement::PositionY, 9, 0, 0, false, false, String::new(), 0, 0, -1);
    assert_eq!(arm.bones[0].transform.pos.y, 0);
    edit_bone(&mut arm, true, 4, AnimElement::PositionY, 9, 0, 0, false, false, String::new(), 0, 0, -1);
    assert_eq!(arm.bones[0].transform.pos.y, 9);
}

#[test]
fn flag_events_set_the_edit_mode() {
    let mut ed = editor(vec![], vec![]);
    apply_event(&mut ed, Events::ToggleEditAlt, &vec![1], String::new());
    assert!(ed.edit_mode.editing_pivot);
    apply_event(&mut ed, Events::ToggleEditSnapping, &vec![1], String::new());
    assert!(ed.edit_mode.holding_edit_snap);
    apply_event(&mut ed, Events::ToggleBakingIk, &vec![1], String::new());
    assert!(ed.edit_mode.export.bake_ik);
    apply_event(&mut ed, Events::SetExportImgFormat, &vec![2], String::new());
    assert_eq!(ed.edit_mode.export.img_format, 2);
    apply_event(&mut ed, Events::SetHoveringTri, &vec![7], String::new());
    assert_eq!(ed.selections.hovering_tri_dur, 7);
}

#[test]
fn toggle_anim_playing_starts_and_stops() {
    let mut ed = editor(vec![], vec![anim(1, vec![]), anim(2, vec![])]);
    apply_event(&mut ed, Events::ToggleAnimPlaying, &vec![1, 1], String::new());
    assert!(!ed.armature.animations[0].playing && ed.armature.animations[1].playing);
    apply_event(&mut ed, Events::ToggleAnimPlaying, &vec![1, 0], String::new());
    assert!(!ed.armature.animations[1].playing);
}

#[test]
fn new_style_gets_a_fresh_id_and_is_renamed() {
    let mut ed = editor(vec![], vec![]);
    ed.armature.styles = vec![style(0), style(2)];
    apply_event(&mut ed, Events::NewStyle, &vec![0], String::new());
    let s = &ed.armature.styles[2];
    assert_eq!((s.id, s.name.as_str(), s.active), (1, "", true));
    assert_eq!(ed.ui.rename_id, "style_2");
    assert!(ed.ui.just_made_style);
    apply_event(&mut ed, Events::ToggleStyleActive, &vec![2], String::new());
    assert!(!ed.armature.styles[2].active);
}

#[test]
fn new_and_duplicated_animations() {
    let mut ed = editor(vec![], vec![anim(0, vec![kf(3, 1, AnimElement::Rotation, 5)])]);
    apply_event(&mut ed, Events::NewAnimation, &vec![0], String::new());
    let a = &ed.armature.animations[1];
    assert_eq!((a.id, a.fps, a.keyframes.len()), (1, 60, 0));
    assert_eq!(ed.ui.rename_id, "anim_1");
    assert_eq!(ed.ui.edit_value, Some(String::new()));
    apply_event(&mut ed, Events::DuplicateAnim, &vec![0], String::new());
    let d = &ed.armature.animations[2];
    assert_eq!((d.id, d.name.as_str(), d.keyframes.len()), (2, "a0", 1));
}

#[test]
fn new_bone_goes_below_the_selected_bone() {
    let mut ed = editor(vec![bone(0, -1), bone(1, -1)], vec![]);
    ed.selections.bone_idx = 0;
    apply_event(&mut ed, Events::NewBone, &vec![0], String::new());
    let ids: Vec<(i32, i32)> = ed.armature.bones.iter().map(|b| (b.id, b.parent_id)).collect();
    assert_eq!(ids, vec![(0, -1), (2, 0), (1, -1)]);
    assert_eq!(ed.armature.bones[1].name, "");
    assert_eq!(ed.armature.bones[1].transform.scale, Vec2 { x: ONE, y: ONE });
    assert_eq!(ed.ui.rename_id, "bone_1");
    assert_eq!(ed.ui.window.prev_selected_bone_idx, 1);
    // not selected until a bone has been selected this session
    assert_eq!(ed.selections.bone_idx, 0);
}

#[test]
fn new_bone_is_selected_after_a_first_selection() {
    let mut ed = editor(vec![bone(0, -1)], vec![]);
    ed.ui.selected_bone_first_time = true;
    apply_event(&mut ed, Events::NewBone, &vec![0], String::new());
    assert_eq!(ed.armature.bones[1].id, 1);
    assert_eq!(ed.armature.bones[1].parent_id, -1);
    assert_eq!(ed.selections.bone_idx, 1);
    assert_eq!(ed.selections.bone_ids, vec![1]);
}

#[test]
fn create_parent_bone_puts_a_new_bone_above() {
    let mut ed = editor(vec![bone(0, -1), bone(1, -1)], vec![]);
    apply_event(&mut ed, Events::CreateParentBone, &vec![1], String::new());
    let ids: Vec<(i32, i32)> = ed.armature.bones.iter().map(|b| (b.id, b.parent_id)).collect();
    assert_eq!(ids, vec![(0, -1), (2, -1), (1, 2)]);
    assert_eq!(ed.selections.bone_ids, vec![2]);
    assert_eq!(ed.selections.bone_idx, 1);
    assert_eq!(ed.ui.rename_id, "bone_1");
}

#[test]
fn new_armature_and_psd_import() {
    let mut ed = editor(vec![bone(0, -1)], vec![anim(1, vec![])]);
    ed.psd_armature.bones = vec![bone(5, -1), bone(6, 5)];
    ed.edit_mode.anim_open = true;
    apply_event(&mut ed, Events::ImportPsdArmature, &vec![0], String::new());
    assert_eq!(ed.armature.bones.iter().map(|b| b.id).collect::<Vec<_>>(), vec![5, 6]);
    assert_eq!(ed.armature.animations.len(), 1);
    assert!(ed.psd_armature.bones.is_empty());
    apply_event(&mut ed, Events::NewArmature, &vec![0], String::new());
    assert!(ed.armature.bones.is_empty() && ed.armature.animations.is_empty());
    assert!(!ed.edit_mode.anim_open);
    assert!(!ed.ui.window.changed_window_name);
}

#[test]
fn save_edited_bone_saves_what_was_edited() {
    let mut ed = editor(vec![bone(0, -1), bone(1, -1)], vec![anim(3, vec![])]);
    apply_event(&mut ed, Events::SaveEditedBone, &vec![1], String::new());
    assert_eq!(ed.undo_states.undo_actions[0].action, ActionType::Bone);
    assert_eq!(ed.undo_states.undo_actions[0].bones[0].id, 1);
    assert!(ed.ui.window.autosaving);
    ed.selections.anim = 0;
    apply_event(&mut ed, Events::SaveEditedBone, &vec![1], String::new());
    assert_eq!(ed.undo_states.undo_actions[1].action, ActionType::Animation);
    ed.ui.window.edited_dragging = true;
    apply_event(&mut ed, Events::SaveEditedBone, &vec![1], String::new());
    assert_eq!(ed.undo_states.undo_actions.len(), 2);
}

#[test]
fn export_modal_lists_every_animation() {
    let mut ed = editor(vec![], vec![anim(1, vec![]), anim(2, vec![])]);
    apply_event(&mut ed, Events::OpenExportModal, &vec![0], String::new());
    assert!(ed.ui.window.export_modal);
    assert_eq!(ed.ui.window.exporting_anims, vec![true, true]);
}

#[test]
fn undo_marks_the_window_unchanged() {
    let mut ed = editor(vec![bone(0, -1)], vec![]);
    apply_event(&mut ed, Events::Undo, &vec![0], String::new());
    assert!(!ed.ui.window.changed_window_name);
}

#[test]
fn keyframe_transition_sets_the_frames_handles() {
    let mut arm = Armature {
        bones: vec![],
        animations: vec![anim(1, vec![kf(2, 1, AnimElement::Rotation, 0), kf(3, 1, AnimElement::Rotation, 0)])],
        styles: vec![],
    };
    let mut sel = editor(vec![], vec![]).selections;
    sel.anim = 0;
    update_keyframe_transition(&mut arm, &sel, 2, true, Vec2 { x: 4, y: 5 }, 7);
    let k = &arm.animations[0].keyframes;
    assert_eq!((k[0].start_handle, k[0].handle_preset), (Vec2 { x: 4, y: 5 }, 7));
    assert_eq!((k[1].start_handle, k[1].handle_preset), (Vec2::default(), 0));
}

#[test]
fn clicking_a_vertex_binds_and_unbinds_it() {
    let mut b = bone(1, -1);
    b.vertices = vec![Vertex { id: 8, ..Vertex::default() }];
    b.binds = vec![BoneBind { bone_id: 2, is_path: false, verts: vec![] }];
    let mut arm = Armature { bones: vec![b], animations: vec![], styles: vec![] };
    let mut sel = editor(vec![], vec![]).selections;
    sel.bone_idx = 0;
    sel.bind = 0;
    assert!(click_vertex(&mut arm, &sel, 0));
    assert_eq!(arm.bones[0].binds[0].verts, vec![BoneBindVert { id: 8, weight: ONE }]);
    assert!(!click_vertex(&mut arm, &sel, 0));
    assert!(arm.bones[0].binds[0].verts.is_empty());
    set_bind_pathing(&mut arm, &sel, 0, true);
    assert!(arm.bones[0].binds[0].is_path);
}

#[test]
fn reset_vertices_drops_binds_and_selection() {
    let mut b = bone(1, -1);
    b.binds = vec![BoneBind { bone_id: 2, is_path: false, verts: vec![] }];
    b.verts_edited = true;
    let mut arm = Armature { bones: vec![b], animations: vec![], styles: vec![] };
    let mut sel = editor(vec![], vec![]).selections;
    sel.bone_idx = 0;
    sel.bind = 0;
    sel.vert_ids = vec![1];
    reset_vertices(&mut arm, &mut sel, vec![Vertex::default(); 4], vec![0, 1, 2, 0, 2, 3]);
    assert_eq!(arm.bones[0].vertices.len(), 4);
    assert!(arm.bones[0].binds.is_empty() && !arm.bones[0].verts_edited);
    assert!(sel.vert_ids.is_empty());
    assert_eq!(sel.bind, -1);
}
