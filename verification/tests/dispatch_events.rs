use skelform_editor::arrange::drag_bone;
use skelform_editor::dispatch::{apply_event, record_undo, undo_snapshot, value_count, Editor, Events};
use skelform_editor::mesh::{cleanup_vertices, remove_blacklisted_tris};
use skelform_editor::model::{
    ActionType, AnimElement, Animation, Armature, Bone, BoneProps, CopyBuffer, Keyframe, SelectionState,
    Transform, UndoStates, Vec2, Vertex,
};
use skelform_editor::recording::{keyframe_slot, record_keyframe};
use skelform_editor::state::{ExportOptions, WindowState, EditMode, EditModes, InputStates, Ui};

fn bone(id: i32, parent_id: i32) -> Bone {
    Bone {
        id,
        parent_id,
        name: format!("b{}", id),
        tex: String::new(),
        zindex: 0,
        ik_family_id: -1,
        ik_target_id: -1,
        ik_disabled: false,
        folded: true,
        anim_folded: false,
        locked: false,
        verts_edited: false,
        transform: Transform::default(),
        vertices: vec![],
        indices: vec![],
        blacklist: vec![],
        binds: vec![],
        ik_constraint: String::new(),
        ik_mode: String::new(),
        props: BoneProps::default(),
    }
}

fn kf(frame: i32, bone_id: i32, element: AnimElement, value: u32) -> Keyframe {
    Keyframe {
        frame,
        bone_id,
        element,
        value,
        value_str: String::new(),
        start_handle: Vec2::default(),
        end_handle: Vec2::default(),
        handle_preset: 0,
    }
}

fn anim(id: i32, keyframes: Vec<Keyframe>) -> Animation {
    Animation { id, name: format!("a{}", id), fps: 60, keyframes, playing: false }
}

fn editor(bones: Vec<Bone>, animations: Vec<Animation>) -> Editor {
    Editor {
        armature: Armature { bones, animations, styles: vec![] },
        selections: SelectionState {
            bone_idx: usize::MAX,
            bone_ids: vec![],
            vert_ids: vec![],
            anim: usize::MAX,
            anim_frame: -1,
            bind: -1,
            style_id: -1,
            tex_ids: vec![],
            hovering_vert_id: -1,
            hovering_bone_id: -1,
            hovering_tri_dur: 0,
            hovering_line_dur: 0,
        },
        ui: Ui {
            modal: false,
            forced_modal: false,
            headline: String::new(),
            custom_error: String::new(),
            last_selected: String::new(),
            rename_id: String::new(),
            edit_value: None,
            selected_bone_first_time: false,
            selected_keyframes: vec![],
            last_selected_frame: 0,
            just_made_style: false,
            just_made_anim: false,
            dragged_keyframe: kf(-1, -1, AnimElement::PositionX, 0),
            tracing: false,
            polar_modal: false,
            polar_id: 0,
            dragging_tex: true,
            window: WindowState {
                export_modal: false,
                exporting_anims: vec![],
                edited_dragging: false,
                autosaving: false,
                changed_window_name: true,
                prev_selected_bone_idx: usize::MAX,
            },
        },
        edit_mode: EditMode {
            current: EditModes::Rotate,
            temporary: None,
            showing_mesh: true,
            editing_mesh: false,
            editing_pivot: false,
            setting_ik_target: false,
            setting_bind_bone: false,
            anim_open: true,
            onion_layers: false,
            sel_time: 0,
            holding_edit_mod: false,
            holding_edit_snap: false,
            export: ExportOptions::default(),
        },
        undo_states: UndoStates {
            undo_actions: vec![],
            redo_actions: vec![],
            temp_actions: vec![],
            prev_undo_actions: 0,
            unsaved_undo_actions: 0,
        },
        copy_buffer: CopyBuffer { bones: vec![], keyframes: vec![] },
        input: InputStates { holding_mod: false, holding_shift: false },
        psd_armature: Armature { bones: vec![], animations: vec![], styles: vec![] },
    }
}

fn slots(kfs: &Vec<Keyframe>) -> Vec<(i32, i32, AnimElement, u32, String)> {
    kfs.iter().map(|k| (k.frame, k.bone_id, k.element, k.value, k.value_str.clone())).collect()
}

#[test]
fn value_count_follows_the_queue_layout() {
    assert_eq!(value_count(Events::DragBone), (3, 0));
    assert_eq!(value_count(Events::EditBone), (5, 1));
    assert_eq!(value_count(Events::UpdateKeyframeTransition), (5, 0));
    assert_eq!(value_count(Events::MoveAnimation), (2, 0));
    assert_eq!(value_count(Events::RenameBone), (1, 1));
}

#[test]
fn dragging_a_bone_saves_all_bones_for_undo() {
    let ed = editor(vec![bone(1, -1), bone(2, -1)], vec![]);
    let a = undo_snapshot(Events::DragBone, &ed.armature, &ed.selections, &ed.ui).unwrap();
    assert_eq!(a.action, ActionType::Bones);
    assert_eq!(a.bones.iter().map(|b| b.id).collect::<Vec<_>>(), vec![1, 2]);
    assert!(a.animations.is_empty() && a.styles.is_empty() && !a.continued);
    assert!(undo_snapshot(Events::EditModeMove, &ed.armature, &ed.selections, &ed.ui).is_none());
}

#[test]
fn record_undo_pushes_the_snapshot_only_when_there_is_one() {
    let mut ed = editor(vec![bone(1, -1)], vec![anim(7, vec![])]);
    record_undo(&mut ed.undo_states, Events::EditModeScale, &ed.armature, &ed.selections, &ed.ui);
    assert!(ed.undo_states.undo_actions.is_empty());
    record_undo(&mut ed.undo_states, Events::DeleteAnim, &ed.armature, &ed.selections, &ed.ui);
    assert_eq!(ed.undo_states.undo_actions.len(), 1);
    assert_eq!(ed.undo_states.undo_actions[0].action, ActionType::Animations);
    assert_eq!(ed.undo_states.undo_actions[0].animations[0].id, 7);
}

#[test]
fn rename_bone_event_sets_the_name() {
    let mut ed = editor(vec![bone(1, -1), bone(2, -1)], vec![]);
    let r = apply_event(&mut ed, Events::RenameBone, &vec![1], String::from("arm"));
    assert_eq!(r, None);
    assert_eq!(ed.armature.bones[1].name, "arm");
    assert_eq!(ed.armature.bones[0].name, "b1");
}

#[test]
fn select_bone_event_returns_the_row_to_scroll_to() {
    let mut ed = editor(vec![bone(1, -1), bone(2, 1)], vec![]);
    let r = apply_event(&mut ed, Events::SelectBone, &vec![1], String::new());
    assert_eq!(r, Some(2));
    assert_eq!(ed.selections.bone_idx, 1);
    assert_eq!(ed.selections.bone_ids, vec![2]);
    assert!(!ed.armature.bones[0].folded);
}

#[test]
fn delete_anim_event_unselects_the_animation() {
    let mut ed = editor(vec![], vec![anim(1, vec![]), anim(2, vec![])]);
    ed.selections.anim = 1;
    apply_event(&mut ed, Events::DeleteAnim, &vec![0], String::new());
    assert_eq!(ed.armature.animations.iter().map(|a| a.id).collect::<Vec<_>>(), vec![2]);
    assert_eq!(ed.selections.anim, usize::MAX);
}

#[test]
fn onion_layers_event_touches_nothing_else() {
    let mut ed = editor(vec![], vec![]);
    let r = apply_event(&mut ed, Events::ToggleOnionLayers, &vec![1], String::new());
    assert_eq!(r, None);
    assert!(ed.edit_mode.onion_layers);
    assert!(ed.ui.dragging_tex);
}

#[test]
fn drag_bone_event_moves_the_bone_into_the_target() {
    let mut ed = editor(vec![bone(1, -1), bone(2, -1), bone(3, -1)], vec![]);
    // drop bone 3 into bone 1
    apply_event(&mut ed, Events::DragBone, &vec![0, 1, 3], String::new());
    assert_eq!(ed.selections.bone_ids, vec![3]);
    let ids: Vec<i32> = ed.armature.bones.iter().map(|b| b.id).collect();
    assert_eq!(ids, vec![1, 3, 2]);
    assert_eq!(ed.armature.bones[1].parent_id, 1);
    assert_eq!(ed.selections.bone_idx, 1);
}

#[test]
fn drag_bone_refuses_a_drop_on_itself() {
    let mut arm = Armature { bones: vec![bone(1, -1), bone(2, -1)], animations: vec![], styles: vec![] };
    let r = drag_bone(&mut arm, 1, &vec![1], false);
    assert_eq!(r, usize::MAX);
    assert_eq!(arm.bones.iter().map(|b| (b.id, b.parent_id)).collect::<Vec<_>>(), vec![(1, -1), (2, -1)]);
}

#[test]
fn keyframe_slot_finds_or_appends() {
    let mut a = anim(1, vec![kf(0, 4, AnimElement::Rotation, 9), kf(3, 4, AnimElement::Rotation, 5)]);
    assert_eq!(keyframe_slot(&mut a, 4, 3, AnimElement::Rotation), 1);
    assert_eq!(a.keyframes.len(), 2);
    assert_eq!(keyframe_slot(&mut a, 4, 8, AnimElement::Rotation), 2);
    assert_eq!(slots(&a.keyframes)[2], (8, 4, AnimElement::Rotation, 0, String::new()));
}

#[test]
fn recording_keeps_the_old_value_at_frame_zero() {
    let mut a = anim(1, vec![]);
    record_keyframe(&mut a, 4, AnimElement::PositionX, 6, 11, String::from("a"), 22, String::from("b"));
    assert_eq!(
        slots(&a.keyframes),
        vec![
            (0, 4, AnimElement::PositionX, 11, String::from("a")),
            (6, 4, AnimElement::PositionX, 22, String::from("b")),
        ]
    );
    // a second edit at the same frame only changes that keyframe
    record_keyframe(&mut a, 4, AnimElement::PositionX, 6, 0, String::new(), 33, String::new());
    assert_eq!(
        slots(&a.keyframes),
        vec![
            (0, 4, AnimElement::PositionX, 11, String::from("a")),
            (6, 4, AnimElement::PositionX, 33, String::new()),
        ]
    );
}

#[test]
fn recording_at_frame_zero_or_off_the_timeline() {
    let mut a = anim(1, vec![]);
    record_keyframe(&mut a, 4, AnimElement::Zindex, -1, 1, String::new(), 2, String::new());
    assert!(a.keyframes.is_empty());
    record_keyframe(&mut a, 4, AnimElement::Zindex, 0, 1, String::new(), 2, String::new());
    assert_eq!(slots(&a.keyframes), vec![(0, 4, AnimElement::Zindex, 2, String::new())]);
}

#[test]
fn cleanup_twice_changes_nothing_more() {
    let mut b = bone(1, -1);
    b.vertices = (1..=5).map(|id| Vertex { id, ..Vertex::default() }).collect();
    b.indices = vec![0, 2, 4];
    cleanup_vertices(&mut b);
    let once = (b.vertices.clone(), b.indices.clone());
    cleanup_vertices(&mut b);
    assert_eq!((b.vertices.clone(), b.indices.clone()), once);
    assert_eq!(b.indices, vec![0, 1, 2]);
}

#[test]
fn blacklist_removal_twice_changes_nothing_more() {
    let verts: Vec<Vertex> = (1..=4).map(|id| Vertex { id, ..Vertex::default() }).collect();
    let mut indices = vec![0, 1, 2, 1, 2, 3];
    let mut blacklist = vec![3, 2, 4, 9, 9, 9];
    remove_blacklisted_tris(&mut indices, &verts, &mut blacklist);
    assert_eq!(indices, vec![0, 1, 2]);
    assert_eq!(blacklist, vec![3, 2, 4]);
    remove_blacklisted_tris(&mut indices, &verts, &mut blacklist);
    assert_eq!(indices, vec![0, 1, 2]);
    assert_eq!(blacklist, vec![3, 2, 4]);
}

#[test]
fn delete_keyframe_line_event_removes_the_elements_keyframes() {
    let (px, rot) = (AnimElement::PositionX, AnimElement::Rotation);
    let kfs = vec![kf(0, 4, rot, 0), kf(2, 4, rot, 0), kf(1, 4, px, 0), kf(3, 5, rot, 0)];
    let mut ed = editor(vec![], vec![anim(1, kfs)]);
    ed.selections.anim = 0;
    apply_event(&mut ed, Events::DeleteKeyframeLine, &vec![4, 2], String::new());
    let left: Vec<(i32, i32, AnimElement)> =
        ed.armature.animations[0].keyframes.iter().map(|k| (k.frame, k.bone_id, k.element)).collect();
    assert_eq!(left, vec![(1, 4, px), (3, 5, rot)]);
}

#[test]
fn move_selected_keyframes_event_saves_the_animation_first() {
    let k = kf(1, 4, AnimElement::Rotation, 7);
    let mut ed = editor(vec![], vec![anim(1, vec![k.clone(), kf(2, 4, AnimElement::ScaleX, 1)])]);
    ed.selections.anim = 0;
    ed.ui.selected_keyframes = vec![k.clone()];
    ed.ui.dragged_keyframe = k.clone();
    apply_event(&mut ed, Events::MoveSelectedKeyframes, &vec![5], String::new());
    let frames: Vec<(i32, AnimElement)> =
        ed.armature.animations[0].keyframes.iter().map(|k| (k.frame, k.element)).collect();
    assert_eq!(frames, vec![(2, AnimElement::ScaleX), (5, AnimElement::Rotation)]);
    assert_eq!(ed.ui.dragged_keyframe.frame, -1);
    assert_eq!(ed.undo_states.undo_actions.len(), 1);
    assert_eq!(ed.undo_states.undo_actions[0].action, ActionType::Animation);
    assert_eq!(ed.undo_states.undo_actions[0].animations[0].keyframes[0].frame, 1);
}

#[test]
fn dropping_keyframes_where_they_were_saves_nothing() {
    let k = kf(1, 4, AnimElement::Rotation, 7);
    let mut ed = editor(vec![], vec![anim(1, vec![k.clone()])]);
    ed.selections.anim = 0;
    ed.ui.selected_keyframes = vec![k.clone()];
    ed.ui.dragged_keyframe = k.clone();
    apply_event(&mut ed, Events::MoveSelectedKeyframes, &vec![1], String::new());
    assert_eq!(ed.armature.animations[0].keyframes[0].frame, 1);
    assert_eq!(ed.ui.dragged_keyframe.frame, -1);
    assert!(ed.undo_states.undo_actions.is_empty());
}

#[test]
fn copy_bone_event_fills_the_copy_buffer() {
    let mut ed = editor(vec![bone(1, -1), bone(2, 1), bone(3, -1)], vec![]);
    apply_event(&mut ed, Events::CopyBone, &vec![0], String::new());
    let ids: Vec<i32> = ed.copy_buffer.bones.iter().map(|b| b.id).collect();
    assert_eq!(ids, vec![1, 2]);
}

#[test]
fn global_copy_takes_what_was_selected_last() {
    let mut ed = editor(vec![bone(1, -1)], vec![]);
    ed.ui.last_selected = String::from("keyframe");
    ed.ui.selected_keyframes = vec![kf(3, 1, AnimElement::ScaleY, 2)];
    ed.copy_buffer.bones = vec![bone(9, -1)];
    apply_event(&mut ed, Events::GlobalCopy, &vec![0], String::new());
    assert!(ed.copy_buffer.bones.is_empty());
    assert_eq!(slots(&ed.copy_buffer.keyframes), vec![(3, 1, AnimElement::ScaleY, 2, String::new())]);
}

#[test]
fn global_paste_of_bones_saves_the_bones_first() {
    let mut ed = editor(vec![bone(1, -1)], vec![]);
    ed.ui.last_selected = String::from("bone");
    ed.copy_buffer.bones = vec![bone(5, -1)];
    apply_event(&mut ed, Events::GlobalPaste, &vec![0], String::new());
    assert_eq!(ed.undo_states.undo_actions.len(), 1);
    assert_eq!(ed.undo_states.undo_actions[0].action, ActionType::Bones);
    assert_eq!(ed.undo_states.undo_actions[0].bones.len(), 1);
    assert_eq!(ed.armature.bones.len(), 2);
    // new ids start two past the highest id
    assert_eq!(ed.armature.bones[1].id, 3);
    assert_eq!(ed.selections.bone_ids, vec![3]);
}
