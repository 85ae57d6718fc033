use skelform_editor::model::{
    BoneProps,
    Action, ActionType, Animation, Armature, Bone, BoneBind, SelectionState, Style, Transform,
    UndoStates, Vertex,
};
use skelform_editor::state::{ExportOptions, WindowState, select_bone, EditMode, EditModes, InputStates, Ui};
use skelform_editor::model::{AnimElement, Keyframe, Vec2};
use skelform_editor::undo::undo_redo;

fn bone(id: i32, parent_id: i32) -> Bone {
    Bone {
        id,
        parent_id,
        name: format!("b{}", id),
        tex: String::new(),
        zindex: 0,
        ik_family_id: -1,
        ik_target_id: -1,
        ik_disabled: false,
        folded: true,
        anim_folded: false,
        locked: false,
        verts_edited: false,
        transform: Transform::default(),
        vertices: vec![],
        indices: vec![],
        blacklist: vec![],
        binds: vec![],
        ik_constraint: String::new(),
        ik_mode: String::new(),
        props: BoneProps::default(),
    }
}

fn armature(bones: Vec<Bone>) -> Armature {
    Armature { bones, animations: vec![], styles: vec![] }
}

fn empty_selection() -> SelectionState {
    SelectionState {
        bone_idx: usize::MAX,
        bone_ids: vec![],
        vert_ids: vec![3],
        anim: usize::MAX,
        anim_frame: -1,
        bind: 2,
        style_id: -1,
        tex_ids: vec![],
        hovering_vert_id: -1,
        hovering_bone_id: -1,
        hovering_tri_dur: 0,
        hovering_line_dur: 0,
    }
}

fn edit_mode() -> EditMode {
    EditMode {
        current: EditModes::Move,
        temporary: Some(EditModes::Rotate),
        showing_mesh: true,
        editing_mesh: true,
        editing_pivot: true,
        setting_ik_target: false,
        setting_bind_bone: false,
        anim_open: false,
        onion_layers: false,
        sel_time: 99,
        holding_edit_mod: false,
        holding_edit_snap: false,
        export: ExportOptions::default(),
    }
}

fn ui() -> Ui {
    Ui {
        modal: false,
        forced_modal: false,
        headline: String::new(),
        custom_error: String::new(),
        last_selected: String::new(),
        rename_id: String::new(),
        edit_value: None,
        selected_bone_first_time: false,
        selected_keyframes: vec![],
        last_selected_frame: 0,
        just_made_style: false,
        just_made_anim: false,
        dragged_keyframe: Keyframe {
            frame: -1,
            bone_id: -1,
            element: AnimElement::PositionX,
            value: 0,
            value_str: String::new(),
            start_handle: Vec2::default(),
            end_handle: Vec2::default(),
            handle_preset: 0,
        },
        tracing: false,
        polar_modal: false,
        polar_id: 0,
        dragging_tex: false,
        window: WindowState {
            export_modal: false,
            exporting_anims: vec![],
            edited_dragging: false,
            autosaving: false,
            changed_window_name: true,
            prev_selected_bone_idx: usize::MAX,
        },
    }
}

fn no_keys() -> InputStates {
    InputStates { holding_mod: false, holding_shift: false }
}

fn tree() -> Armature {
    // 1 is the root; 2 hangs from 1; 3 hangs from 2; 4 is another root
    armature(vec![bone(1, -1), bone(2, 1), bone(3, 2), bone(4, -1)])
}

#[test]
fn select_bone_alone_unfolds_its_parents() {
    let mut arm = tree();
    let mut sel = empty_selection();
    let mut em = edit_mode();
    let mut u = ui();
    let scroll = select_bone(&mut sel, &mut u, &mut arm, &mut em, &no_keys(), 2, false);
    assert_eq!(scroll, Some(3));
    assert_eq!(sel.bone_idx, 2);
    assert_eq!(sel.bone_ids, vec![3]);
    assert_eq!(sel.bind, -1);
    assert!(sel.vert_ids.is_empty());
    assert!(!arm.bones[0].folded);
    assert!(!arm.bones[1].folded);
    assert!(arm.bones[2].folded);
    assert!(arm.bones[3].folded);
    assert_eq!(u.last_selected, "bone");
    assert!(u.selected_bone_first_time);
    assert!(!em.showing_mesh && !em.editing_mesh && !em.editing_pivot);
    assert_eq!(em.temporary, None);
    assert_eq!(em.sel_time, 0);
}

#[test]
fn select_bone_none_clears_the_selection() {
    let mut arm = tree();
    let mut sel = empty_selection();
    sel.bone_idx = 1;
    sel.bone_ids = vec![2];
    let mut em = edit_mode();
    em.setting_ik_target = true;
    let mut u = ui();
    let scroll = select_bone(&mut sel, &mut u, &mut arm, &mut em, &no_keys(), usize::MAX, false);
    assert_eq!(scroll, None);
    assert_eq!(sel.bone_idx, usize::MAX);
    assert!(sel.bone_ids.is_empty());
    assert_eq!(sel.bind, -1);
    assert!(!em.setting_ik_target);
}

#[test]
fn select_bone_again_from_panel_starts_renaming() {
    let mut arm = tree();
    let mut sel = empty_selection();
    sel.bone_idx = 3;
    sel.bone_ids = vec![4];
    let mut em = edit_mode();
    let mut u = ui();
    u.last_selected = String::from("bone");
    let scroll = select_bone(&mut sel, &mut u, &mut arm, &mut em, &no_keys(), 3, false);
    assert_eq!(scroll, None);
    assert_eq!(u.rename_id, "bone_3");
    assert_eq!(u.edit_value, Some(String::from("b4")));
    assert_eq!(sel.bone_idx, 3);
}

#[test]
fn select_bone_sets_ik_target_when_choosing_one() {
    let mut arm = tree();
    let mut sel = empty_selection();
    sel.bone_idx = 0;
    sel.bone_ids = vec![1];
    let mut em = edit_mode();
    em.setting_ik_target = true;
    let mut u = ui();
    select_bone(&mut sel, &mut u, &mut arm, &mut em, &no_keys(), 3, false);
    assert_eq!(arm.bones[0].ik_target_id, 4);
    assert!(!em.setting_ik_target);
    assert_eq!(sel.bone_idx, 0);
}

#[test]
fn select_bone_sets_bind_bone_when_choosing_one() {
    let mut arm = tree();
    arm.bones[0].binds = vec![BoneBind { bone_id: -1, is_path: false, verts: vec![] }];
    let mut sel = empty_selection();
    sel.bone_idx = 0;
    sel.bind = 0;
    let mut em = edit_mode();
    em.setting_bind_bone = true;
    let mut u = ui();
    select_bone(&mut sel, &mut u, &mut arm, &mut em, &no_keys(), 2, false);
    assert_eq!(arm.bones[0].binds[0].bone_id, 3);
    assert!(!em.setting_bind_bone);
}

#[test]
fn shift_selects_the_range_in_hierarchy_order() {
    let mut arm = tree();
    let mut sel = empty_selection();
    sel.bone_idx = 3;
    sel.bone_ids = vec![4];
    let mut em = edit_mode();
    let mut u = ui();
    let shift = InputStates { holding_mod: false, holding_shift: true };
    let scroll = select_bone(&mut sel, &mut u, &mut arm, &mut em, &shift, 1, false);
    assert_eq!(scroll, Some(2));
    assert_eq!(sel.bone_idx, 3);
    assert_eq!(sel.bone_ids, vec![2, 3, 4]);
}

#[test]
fn modifier_adds_one_bone_without_repeats() {
    let mut arm = tree();
    let mut sel = empty_selection();
    sel.bone_idx = 2;
    sel.bone_ids = vec![3, 1];
    let mut em = edit_mode();
    let mut u = ui();
    let ctrl = InputStates { holding_mod: true, holding_shift: false };
    select_bone(&mut sel, &mut u, &mut arm, &mut em, &ctrl, 0, false);
    assert_eq!(sel.bone_ids, vec![1, 3]);
    assert_eq!(sel.bone_idx, 2);
}

fn action(kind: ActionType, bones: Vec<Bone>, continued: bool) -> Action {
    Action { action: kind, bones, animations: vec![], styles: vec![], continued }
}

fn undo_states(undo: Vec<Action>) -> UndoStates {
    UndoStates {
        undo_actions: undo,
        redo_actions: vec![],
        temp_actions: vec![],
        prev_undo_actions: 0,
        unsaved_undo_actions: 0,
    }
}

#[test]
fn undo_then_redo_restores_an_edited_bone() {
    let mut arm = tree();
    let saved = arm.bones[1].clone();
    arm.bones[1].name = String::from("renamed");
    arm.bones[1].zindex = 8;
    let mut us = undo_states(vec![action(ActionType::Bone, vec![saved], false)]);
    let mut sel = empty_selection();
    undo_redo(true, &mut us, &mut arm, &mut sel);
    assert_eq!(arm.bones[1].name, "b2");
    assert_eq!(arm.bones[1].zindex, 0);
    assert!(us.undo_actions.is_empty());
    assert_eq!(us.redo_actions.len(), 1);
    assert_eq!(us.redo_actions[0].bones[0].name, "renamed");
    assert_eq!(us.prev_undo_actions, 0);
    undo_redo(false, &mut us, &mut arm, &mut sel);
    assert_eq!(arm.bones[1].name, "renamed");
    assert_eq!(arm.bones[1].zindex, 8);
    assert_eq!(us.undo_actions.len(), 1);
    assert!(us.redo_actions.is_empty());
    assert_eq!(us.unsaved_undo_actions, 1);
}

#[test]
fn undo_with_empty_stack_changes_nothing() {
    let mut arm = tree();
    let mut us = undo_states(vec![]);
    let mut sel = empty_selection();
    undo_redo(true, &mut us, &mut arm, &mut sel);
    undo_redo(false, &mut us, &mut arm, &mut sel);
    assert_eq!(arm.bones.len(), 4);
    assert!(us.undo_actions.is_empty() && us.redo_actions.is_empty());
    assert_eq!(sel.bone_idx, usize::MAX);
}

#[test]
fn undo_bone_drops_selected_vertices_that_are_gone() {
    let mut arm = tree();
    let mut saved = arm.bones[0].clone();
    saved.vertices = vec![Vertex { id: 5, ..Vertex::default() }];
    let mut us = undo_states(vec![action(ActionType::Bone, vec![saved], false)]);
    let mut sel = empty_selection();
    sel.vert_ids = vec![3, 5, 7];
    undo_redo(true, &mut us, &mut arm, &mut sel);
    assert_eq!(sel.vert_ids, vec![5]);
}

#[test]
fn undo_runs_a_continued_chain_and_redo_replays_it() {
    let mut arm = tree();
    let first = arm.bones.clone();
    arm.bones.remove(3);
    let second = arm.bones.clone();
    arm.bones.remove(2);
    // the older action is continued by the newer one on top of it
    let mut us = undo_states(vec![
        action(ActionType::Bones, first, false),
        action(ActionType::Bones, second, true),
    ]);
    let mut sel = empty_selection();
    sel.bone_ids = vec![4];
    undo_redo(true, &mut us, &mut arm, &mut sel);
    assert_eq!(arm.bones.len(), 4);
    assert_eq!(sel.bone_idx, 3);
    assert!(us.undo_actions.is_empty());
    assert_eq!(us.redo_actions.len(), 2);
    assert!(us.redo_actions[1].continued);
    assert_eq!(us.redo_actions[1].bones.len(), 2);
    assert_eq!(us.redo_actions[0].bones.len(), 3);
    // the chain is replayed newest state first, so the older state wins
    undo_redo(false, &mut us, &mut arm, &mut sel);
    assert_eq!(arm.bones.len(), 3);
    assert_eq!(sel.bone_idx, usize::MAX);
    assert_eq!(us.undo_actions.len(), 2);
    assert!(us.redo_actions.is_empty());
}

#[test]
fn undo_animations_drops_a_missing_selected_animation() {
    let mut arm = tree();
    arm.animations = vec![
        Animation { id: 1, name: String::new(), fps: 60, keyframes: vec![], playing: false },
        Animation { id: 2, name: String::new(), fps: 60, keyframes: vec![], playing: false },
    ];
    let mut us = undo_states(vec![Action {
        action: ActionType::Animations,
        bones: vec![],
        animations: vec![Animation { id: 1, name: String::new(), fps: 30, keyframes: vec![], playing: false }],
        styles: vec![],
        continued: false,
    }]);
    let mut sel = empty_selection();
    sel.anim = 1;
    undo_redo(true, &mut us, &mut arm, &mut sel);
    assert_eq!(arm.animations.len(), 1);
    assert_eq!(arm.animations[0].fps, 30);
    assert_eq!(sel.anim, usize::MAX);
    assert_eq!(us.redo_actions[0].animations.len(), 2);
}

#[test]
fn undo_styles_drops_a_missing_selected_style() {
    let mut arm = tree();
    arm.styles = vec![Style { id: 9, name: String::new(), textures: vec![], active: true }];
    let mut us = undo_states(vec![Action {
        action: ActionType::Styles,
        bones: vec![],
        animations: vec![],
        styles: vec![Style { id: 3, name: String::new(), textures: vec![], active: false }],
        continued: false,
    }]);
    let mut sel = empty_selection();
    sel.style_id = 9;
    undo_redo(true, &mut us, &mut arm, &mut sel);
    assert_eq!(arm.styles[0].id, 3);
    assert_eq!(sel.style_id, -1);
}

#[test]
fn undo_and_redo_of_a_bone_deletion_chain() {
    // a deletion records the bones, then the animations continuing it
    let mut arm = tree();
    arm.animations = vec![Animation { id: 1, name: String::new(), fps: 60, keyframes: vec![], playing: false }];
    let bones_before = arm.bones.clone();
    let anims_before = arm.animations.clone();
    let mut us = undo_states(vec![
        action(ActionType::Bones, bones_before, false),
        Action { action: ActionType::Animations, bones: vec![], animations: anims_before, styles: vec![], continued: true },
    ]);
    arm.bones.truncate(1);
    arm.animations.clear();
    let mut sel = empty_selection();
    undo_redo(true, &mut us, &mut arm, &mut sel);
    assert_eq!(arm.bones.len(), 4);
    assert_eq!(arm.animations.len(), 1);
    undo_redo(false, &mut us, &mut arm, &mut sel);
    assert_eq!(arm.bones.len(), 1);
    assert!(arm.animations.is_empty());
    assert_eq!(us.undo_actions.len(), 2);
    assert_eq!(us.undo_actions[0].action, ActionType::Bones);
    assert_eq!(us.undo_actions[0].bones.len(), 4);
    assert!(us.undo_actions[1].continued);
    assert!(us.redo_actions.is_empty());
}

#[test]
fn redo_then_undo_restores_an_edited_style() {
    let mut arm = tree();
    arm.styles = vec![Style { id: 4, name: String::from("new"), textures: vec![], active: true }];
    let mut us = undo_states(vec![]);
    us.redo_actions = vec![Action {
        action: ActionType::Style,
        bones: vec![],
        animations: vec![],
        styles: vec![Style { id: 4, name: String::from("redone"), textures: vec![], active: false }],
        continued: false,
    }];
    let mut sel = empty_selection();
    undo_redo(false, &mut us, &mut arm, &mut sel);
    assert_eq!(arm.styles[0].name, "redone");
    assert_eq!(us.undo_actions.len(), 1);
    undo_redo(true, &mut us, &mut arm, &mut sel);
    assert_eq!(arm.styles[0].name, "new");
    assert!(arm.styles[0].active);
    assert!(us.undo_actions.is_empty());
    assert_eq!(us.redo_actions.len(), 1);
    assert_eq!(us.redo_actions[0].styles[0].name, "redone");
}
