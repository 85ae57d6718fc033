//! The editor's events: how many values each takes from the queue, what it
//! saves for undo, and what it does to the editor's state.
use vstd::prelude::*;
use vstd::string::StringExecFns;
use crate::clipboard::{
    can_copy_bone, can_paste_bone, copied_bones, copy_bone, highest_id, id_map, ids_to_copy, inserts_at_target, paste_bone,
    pasted_bones,
};
use crate::keyframes::{
    clicked_selection, drop_is_idle, landings_fit, move_selected_keyframes, moved_all, paste_fits,
    paste_keyframes_on_frame, select_anim_frame, shifted_to, sorted_by_frame, without_clashes,
};
use crate::arrange::{can_drag, drag_bone, drag_order, dragged_all, drop_refused, only_root_bones, root_ids};
use crate::deletion::{can_delete_bone, can_delete_triangle, delete_bone, delete_triangle, deleted_all, ids_to_delete, triangle_ids};
use crate::events::{
    delete_keyframe_line, delete_selected_keyframes, delete_selected_textures, select_bind, unselected_textures, without_selected,
    delete_keyframes_by_frame, delete_style, migrate_texture, move_animation, move_style, move_texture,
    raise_global_zindex, reduce_global_ik_family_ids, sel_style_index, select_vertex, sorted_ascending,
    toggle_selected_texture, with_keyframes, with_textures, without_matching, without_value, KeyframePattern,
};
use crate::mesh::{apply_blacklist, pruned_blacklist};
use crate::model::{
    bone_index, find_style, style_index, views, Action, ActionType, AnimElement, KeyframeView, ActionView, AnimationView, Armature,
    ArmatureView, BoneProps, BoneView, CopyBuffer, CopyBufferView, Duplicate, SelectionState, SelectionView,
    StyleView, UndoStates, UndoView,
};
use crate::state::{
    can_select_bone, select_bone, select_bone_result, unselect_all, EditMode, EditModes, InputStates, Ui,
    UiView, WindowView,
};
use crate::undo::{can_chain, undo_redo, undo_redo_result};
use crate::new_bones::{apply_new_bone, apply_new_parent, new_bone_allowed, new_bone_effect, new_parent_allowed, new_parent_effect};
use crate::document_events::{apply_document_event, document_allowed, document_effect, document_event, is_document_event};

verus! {

/// The events the editor's interface sends.
#[derive(Clone, Copy, Debug, PartialEq, Eq, Structural)]
pub enum Events {
    Nothing,
    AdjustKeyframesByFPS,
    ApplySettings,
    CamZoomIn,
    CamZoomOut,
    CamZoomScroll,
    CancelPendingTexture,
    CenterBoneVerts,
    ClickVertex,
    CopyBone,
    CopySelectedKeyframes,
    CreateParentBone,
    DeleteAnim,
    DeleteBone,
    DeleteIkTarget,
    DeleteKeyframeLine,
    DeleteKeyframesByFrame,
    DeleteSelectedKeyframes,
    DeleteSelectedTextures,
    DeleteStyle,
    DeleteTriangle,
    DeleteVertex,
    DragBone,
    DragVertex,
    DuplicateAnim,
    EditBone,
    EditCamera,
    EditModeMove,
    EditModeRotate,
    EditModeScale,
    EditVertexPos,
    EditVertexUV,
    GlobalCopy,
    GlobalPaste,
    ImportPsdArmature,
    MigrateTexture,
    MoveAnimation,
    MoveSelectedKeyframes,
    MoveStyle,
    MoveTexture,
    NewAnimation,
    NewArmature,
    NewBone,
    NewStyle,
    NewVertex,
    OpenExportModal,
    OpenFileErrModal,
    OpenModal,
    OpenPolarModal,
    PasteBone,
    PasteKeyframesOnFrame,
    PointerOnUi,
    RaiseGlobalZindex,
    Redo,
    ReduceGlobalIkFamilyIds,
    RenameAnim,
    RenameBone,
    RenameStyle,
    RenameTex,
    ResetConfig,
    ResetVertices,
    SaveAnimation,
    SaveBone,
    SaveEditedBone,
    SelectAnim,
    SelectAnimFrame,
    SelectBind,
    SelectBone,
    SelectStyle,
    SelectVertex,
    SetBindWeight,
    SetBoneTexture,
    SetExportClearColor,
    SetExportImgFormat,
    SetExportTexPadding,
    SetHoveringBoneId,
    SetHoveringLine,
    SetHoveringTri,
    SetHoveringVertId,
    SetPosDamping,
    SetPosRatio,
    SetRotBounce,
    SetRotDamping,
    SetRotResistance,
    SetScaleDamping,
    SetScaleRatio,
    SetTemporaryEditMode,
    ToggleAnimPanelOpen,
    ToggleAnimPlaying,
    ToggleBakingIk,
    ToggleBindPathing,
    ToggleBoneAnimFolded,
    ToggleBoneFolded,
    ToggleEditAlt,
    ToggleEditModifying,
    ToggleEditSnapping,
    ToggleEditingMesh,
    ToggleEditingPivot,
    ToggleEffectsFolded,
    ToggleExcludeIk,
    ToggleIkDisabled,
    ToggleIkFolded,
    ToggleMeshdefFolded,
    ToggleOnionLayers,
    TogglePhysFolded,
    ToggleSelectedTexture,
    ToggleSettingBindBone,
    ToggleSettingIkTarget,
    ToggleShowingMesh,
    ToggleStyleActive,
    TraceBoneVerts,
    TrimTexture,
    Undo,
    UnselectAll,
    UpdateConfig,
    UpdateCurrentEditing,
    UpdateKeyframeTransition,
    UpdateRenderOptions,
}

/// How many numbers an event takes from the queue, and how many strings.
pub open spec fn values_taken(e: Events) -> (nat, nat) {
    match e {
        Events::UpdateKeyframeTransition => (5, 0),
        Events::EditBone => (5, 1),
        Events::EditVertexUV | Events::EditVertexPos | Events::SetExportClearColor | Events::SelectAnimFrame
        | Events::SetBindWeight | Events::EditCamera | Events::DragBone => (3, 0),
        Events::MoveAnimation | Events::ToggleSelectedTexture | Events::TrimTexture
        | Events::SetExportTexPadding | Events::SelectVertex | Events::DeleteKeyframeLine
        | Events::ToggleIkDisabled | Events::ToggleBindPathing | Events::ToggleBoneFolded
        | Events::ToggleBoneAnimFolded | Events::MoveTexture | Events::MigrateTexture | Events::MoveStyle
        | Events::ToggleStyleActive | Events::ToggleAnimPlaying => (2, 0),
        _ => (1, 1),
    }
}

/// How many numbers and strings event `e` takes from the queue.
pub fn value_count(e: Events) -> (r: (usize, usize))
    ensures
        r.0 == values_taken(e).0,
        r.1 == values_taken(e).1,
{
    match e {
        Events::UpdateKeyframeTransition => (5, 0),
        Events::EditBone => (5, 1),
        Events::EditVertexUV | Events::EditVertexPos | Events::SetExportClearColor | Events::SelectAnimFrame
        | Events::SetBindWeight | Events::EditCamera | Events::DragBone => (3, 0),
        Events::MoveAnimation | Events::ToggleSelectedTexture | Events::TrimTexture
        | Events::SetExportTexPadding | Events::SelectVertex | Events::DeleteKeyframeLine
        | Events::ToggleIkDisabled | Events::ToggleBindPathing | Events::ToggleBoneFolded
        | Events::ToggleBoneAnimFolded | Events::MoveTexture | Events::MigrateTexture | Events::MoveStyle
        | Events::ToggleStyleActive | Events::ToggleAnimPlaying => (2, 0),
        _ => (1, 1),
    }
}

/// An action that saves `bones`, `animations` or `styles` (per `kind`).
pub open spec fn saved(kind: ActionType, b: Seq<BoneView>, a: Seq<AnimationView>, s: Seq<StyleView>) -> ActionView {
    ActionView { action: kind, bones: b, animations: a, styles: s, continued: false }
}

/// What event `e` saves for undo before it is carried out, if anything.
pub open spec fn snapshot_for(e: Events, arm: ArmatureView, sel: SelectionView, ui: UiView) -> Option<ActionView> {
    match e {
        Events::NewBone | Events::DragBone | Events::DeleteBone | Events::PasteBone
        | Events::RaiseGlobalZindex => Some(saved(ActionType::Bones, arm.bones, Seq::empty(), Seq::empty())),
        Events::NewAnimation | Events::DeleteAnim => Some(
            saved(ActionType::Animations, Seq::empty(), arm.animations, Seq::empty()),
        ),
        Events::DeleteSelectedTextures => Some(
            saved(ActionType::Style, Seq::empty(), Seq::empty(), seq![arm.styles[style_index(arm.styles, sel.style_id)]]),
        ),
        Events::RenameStyle => if ui.just_made_style {
            None
        } else {
            Some(saved(ActionType::Style, Seq::empty(), Seq::empty(), seq![arm.styles[style_index(arm.styles, sel.style_id)]]))
        },
        Events::DeleteStyle | Events::NewStyle => Some(
            saved(ActionType::Styles, Seq::empty(), Seq::empty(), arm.styles),
        ),
        Events::DeleteSelectedKeyframes | Events::DeleteKeyframeLine | Events::PasteKeyframesOnFrame => Some(
            saved(ActionType::Animation, Seq::empty(), seq![arm.animations[sel.anim as int]], Seq::empty()),
        ),
        Events::ResetVertices | Events::CenterBoneVerts | Events::DeleteVertex | Events::TraceBoneVerts
        | Events::NewVertex | Events::DeleteTriangle => Some(
            saved(ActionType::Bone, seq![arm.bones[sel.bone_idx as int]], Seq::empty(), Seq::empty()),
        ),
        _ => None,
    }
}

/// Whether the snapshot of event `e` can be taken: the style, animation or
/// bone it saves is there.
pub open spec fn can_snapshot(e: Events, arm: ArmatureView, sel: SelectionView, ui: UiView) -> bool {
    match e {
        Events::DeleteSelectedTextures => style_index(arm.styles, sel.style_id) >= 0,
        Events::RenameStyle => !ui.just_made_style ==> style_index(arm.styles, sel.style_id) >= 0,
        Events::DeleteSelectedKeyframes | Events::DeleteKeyframeLine | Events::PasteKeyframesOnFrame =>
            sel.anim < arm.animations.len(),
        Events::ResetVertices | Events::CenterBoneVerts | Events::DeleteVertex | Events::TraceBoneVerts
        | Events::NewVertex | Events::DeleteTriangle => sel.bone_idx < arm.bones.len(),
        _ => true,
    }
}

/// The state event `e` saves for undo before it is carried out, if anything.
pub fn undo_snapshot(e: Events, armature: &Armature, selections: &SelectionState, ui: &Ui) -> (a: Option<Action>)
    requires
        can_snapshot(e, armature@, selections@, ui@),
    ensures
        match a {
            Some(x) => snapshot_for(e, armature@, selections@, ui@) == Some(x@),
            None => snapshot_for(e, armature@, selections@, ui@) is None,
        },
{
    let none_b: Vec<crate::model::Bone> = Vec::new();
    let none_a: Vec<crate::model::Animation> = Vec::new();
    let none_s: Vec<crate::model::Style> = Vec::new();
    proof {
        assert(views(none_b@) =~= Seq::<BoneView>::empty());
        assert(views(none_a@) =~= Seq::<AnimationView>::empty());
        assert(views(none_s@) =~= Seq::<StyleView>::empty());
    }
    match e {
        Events::NewBone | Events::DragBone | Events::DeleteBone | Events::PasteBone | Events::RaiseGlobalZindex => {
            Some(Action { action: ActionType::Bones, bones: crate::model::duplicate_vec(&armature.bones), animations: none_a, styles: none_s, continued: false })
        },
        Events::NewAnimation | Events::DeleteAnim => {
            Some(Action { action: ActionType::Animations, bones: none_b, animations: crate::model::duplicate_vec(&armature.animations), styles: none_s, continued: false })
        },
        Events::DeleteSelectedTextures | Events::RenameStyle => {
            if e == Events::RenameStyle && ui.just_made_style {
                return None;
            }
            let si = find_style(&armature.styles, selections.style_id).unwrap();
            let mut st: Vec<crate::model::Style> = Vec::new();
            st.push(armature.styles[si].duplicate());
            assert(views(st@) =~= seq![armature@.styles[si as int]]);
            Some(Action { action: ActionType::Style, bones: none_b, animations: none_a, styles: st, continued: false })
        },
        Events::DeleteStyle | Events::NewStyle => {
            Some(Action { action: ActionType::Styles, bones: none_b, animations: none_a, styles: crate::model::duplicate_vec(&armature.styles), continued: false })
        },
        Events::DeleteSelectedKeyframes | Events::DeleteKeyframeLine | Events::PasteKeyframesOnFrame => {
            let mut an: Vec<crate::model::Animation> = Vec::new();
            an.push(armature.animations[selections.anim].duplicate());
            assert(views(an@) =~= seq![armature@.animations[selections.anim as int]]);
            Some(Action { action: ActionType::Animation, bones: none_b, animations: an, styles: none_s, continued: false })
        },
        Events::ResetVertices | Events::CenterBoneVerts | Events::DeleteVertex | Events::TraceBoneVerts
        | Events::NewVertex | Events::DeleteTriangle => {
            let mut bo: Vec<crate::model::Bone> = Vec::new();
            bo.push(armature.bones[selections.bone_idx].duplicate());
            assert(views(bo@) =~= seq![armature@.bones[selections.bone_idx as int]]);
            Some(Action { action: ActionType::Bone, bones: bo, animations: none_a, styles: none_s, continued: false })
        },
        _ => None,
    }
}

/// Saves for undo what event `e` is about to change.
pub fn record_undo(undo_states: &mut UndoStates, e: Events, armature: &Armature, selections: &SelectionState, ui: &Ui)
    requires
        can_snapshot(e, armature@, selections@, ui@),
    ensures
        final(undo_states)@ == match snapshot_for(e, armature@, selections@, ui@) {
            Some(a) => UndoView { undo_actions: old(undo_states)@.undo_actions.push(a), ..old(undo_states)@ },
            None => old(undo_states)@,
        },
{
    match undo_snapshot(e, armature, selections, ui) {
        Some(a) => {
            let ghost u0 = views(undo_states.undo_actions@);
            undo_states.undo_actions.push(a);
            assert(views(undo_states.undo_actions@) =~= u0.push(a@));
        },
        None => {},
    }
}

/// Everything the editor's events act on.
pub struct Editor {
    pub armature: Armature,
    pub selections: SelectionState,
    pub ui: Ui,
    pub edit_mode: EditMode,
    pub undo_states: UndoStates,
    pub copy_buffer: CopyBuffer,
    pub input: InputStates,
    /// An armature read from a layered image, waiting to be imported.
    pub psd_armature: Armature,
}

pub struct EditorView {
    pub armature: ArmatureView,
    pub selections: SelectionView,
    pub ui: UiView,
    pub edit_mode: EditMode,
    pub undo: UndoView,
    pub copy_buffer: CopyBufferView,
    pub input: InputStates,
    pub psd_armature: ArmatureView,
}

impl View for Editor {
    type V = EditorView;

    open spec fn view(&self) -> EditorView {
        EditorView {
            armature: self.armature@,
            selections: self.selections@,
            ui: self.ui@,
            edit_mode: self.edit_mode,
            undo: self.undo_states@,
            copy_buffer: self.copy_buffer@,
            input: self.input,
            psd_armature: self.psd_armature@,
        }
    }
}

/// A number from the queue used as a position: negative numbers count as
/// 0, and numbers past the range of `usize` as its largest value.
pub open spec fn index_of(v: i64) -> usize {
    if v < 0 {
        0
    } else if v > usize::MAX {
        usize::MAX
    } else {
        v as usize
    }
}

/// A number from the queue used as a position, where the largest number
/// means "none".
pub open spec fn index_or_none(v: i64) -> usize {
    if v == i64::MAX {
        usize::MAX
    } else {
        index_of(v)
    }
}

/// A number from the queue used as an id, held within the range of `i32`.
pub open spec fn id_of(v: i64) -> i32 {
    if v < i32::MIN {
        i32::MIN
    } else if v > i32::MAX {
        i32::MAX
    } else {
        v as i32
    }
}

pub(crate) fn to_index(v: i64) -> (r: usize)
    ensures
        r == index_of(v),
{
    if v < 0 {
        0
    } else if v as u64 > usize::MAX as u64 {
        usize::MAX
    } else {
        v as usize
    }
}

pub(crate) fn to_index_or_none(v: i64) -> (r: usize)
    ensures
        r == index_or_none(v),
{
    if v == i64::MAX {
        usize::MAX
    } else {
        to_index(v)
    }
}

pub(crate) fn to_id(v: i64) -> (r: i32)
    ensures
        r == id_of(v),
{
    if v < i32::MIN as i64 {
        i32::MIN
    } else if v > i32::MAX as i64 {
        i32::MAX
    } else {
        v as i32
    }
}

/// The editor with bone `b` replaced.
pub open spec fn with_bone(ed: EditorView, b: int, bone: BoneView) -> EditorView {
    EditorView { armature: ArmatureView { bones: ed.armature.bones.update(b, bone), ..ed.armature }, ..ed }
}

/// The editor with the selected bone's panel flags `props` replaced.
pub open spec fn with_props(ed: EditorView, props: BoneProps) -> EditorView {
    let b = ed.selections.bone_idx as int;
    with_bone(ed, b, BoneView { props: props, ..ed.armature.bones[b] })
}

/// The editor with one more saved action on the undo stack.
pub open spec fn pushed(ed: EditorView, a: ActionView) -> EditorView {
    EditorView { undo: UndoView { undo_actions: ed.undo.undo_actions.push(a), ..ed.undo }, ..ed }
}

/// The bones to drop for a drag of bone `dragging_id`: that bone alone, or
/// the roots of the selection when several bones are selected.
pub open spec fn drag_ids(ed: EditorView, dragging_id: i32) -> Seq<i32> {
    if ed.selections.bone_ids.len() < 2 {
        seq![dragging_id]
    } else {
        root_ids(ed.armature.bones, ed.selections.bone_ids, ed.selections.bone_ids)
    }
}

/// Whether event `e` with numbers `v` can be carried out on `ed`: the numbers
/// are there, and what the event reads exists.
pub open spec fn event_allowed(e: Events, v: Seq<i64>, s: Seq<char>, ed: EditorView) -> bool {
    let arm = ed.armature;
    let sel = ed.selections;
    let b = sel.bone_idx as int;
    let i = index_of(v[0]);
    &&& v.len() >= values_taken(e).0
    &&& match e {
        Events::Undo => can_chain(ed.undo.undo_actions, arm),
        Events::Redo => can_chain(ed.undo.redo_actions, arm),
        Events::RenameBone | Events::SaveBone | Events::ToggleBoneFolded | Events::ToggleBoneAnimFolded
        | Events::ToggleIkDisabled => i < arm.bones.len(),
        Events::RenameAnim | Events::DeleteAnim => i < arm.animations.len(),
        Events::DeleteIkTarget | Events::ToggleIkFolded | Events::TogglePhysFolded | Events::ToggleMeshdefFolded
        | Events::ToggleEffectsFolded => b < arm.bones.len(),
        Events::CancelPendingTexture | Events::RenameStyle => sel_style_index(arm, sel) >= 0,
        Events::SelectBone => can_select_bone(
            sel,
            ed.ui,
            arm.bones,
            ed.edit_mode,
            ed.input,
            index_or_none(v[0]),
            s == seq!['t'],
        ),
        Events::DeleteBone => can_delete_bone(arm, sel, i as int),
        Events::SaveAnimation => sel.anim < arm.animations.len(),
        Events::RaiseGlobalZindex => {
            let k = bone_index(arm.bones, id_of(v[0]));
            &&& k >= 0
            &&& forall|j: int|
                0 <= j < arm.bones.len() && (j == k || (#[trigger] arm.bones[j].zindex > arm.bones[k].zindex
                    && arm.bones[j].tex.len() != 0)) ==> arm.bones[j].zindex < i32::MAX
        },
        Events::DeleteKeyframesByFrame => sel.anim < arm.animations.len(),
        Events::DeleteTriangle => b < arm.bones.len() && can_delete_triangle(arm.bones[b], i as int),
        Events::DeleteStyle => style_index(arm.styles, id_of(v[0])) >= 0,
        Events::MoveAnimation => {
            let drag = i;
            let hov = index_of(v[1]);
            &&& drag < arm.animations.len()
            &&& (if hov > drag { hov - 1 } else { hov as int }) < arm.animations.len()
        },
        Events::MoveTexture => {
            &&& sel_style_index(arm, sel) >= 0
            &&& index_of(v[1]) < arm.styles[sel_style_index(arm, sel)].textures.len()
            &&& i < arm.styles[sel_style_index(arm, sel)].textures.len()
        },
        Events::MigrateTexture => {
            &&& sel_style_index(arm, sel) >= 0
            &&& i < arm.styles[sel_style_index(arm, sel)].textures.len()
            &&& index_of(v[1]) < arm.styles.len()
        },
        Events::MoveStyle => i < arm.styles.len() && index_of(v[1]) < arm.styles.len(),
        Events::DragBone => can_drag(arm.bones, id_of(v[1]), drag_ids(ed, id_of(v[2])), v[0] == 1),
        Events::CopyBone => can_copy_bone(arm.bones, sel, index_or_none(v[0])),
        Events::DeleteSelectedKeyframes => ed.ui.selected_keyframes.len() > 0 ==> sel.anim < arm.animations.len(),
        Events::DeleteSelectedTextures => {
            &&& sel_style_index(arm, sel) >= 0
            &&& arm.styles[sel_style_index(arm, sel)].textures.len() <= i32::MAX + 1
        },
        Events::PasteKeyframesOnFrame => {
            &&& ed.copy_buffer.keyframes.len() > 0 ==> sel.anim < arm.animations.len()
            &&& paste_fits(ed.copy_buffer.keyframes, id_of(v[0]))
        },
        Events::SelectBind => id_of(v[0]) == -2 ==> b < arm.bones.len() && arm.bones[b].binds.len() < i32::MAX,
        Events::PasteBone => can_paste_bone(ed.copy_buffer.bones, arm.bones, index_or_none(v[0])),
        Events::SelectAnimFrame => v[1] == 1 ==> sel.anim < arm.animations.len(),
        Events::MoveSelectedKeyframes => !drop_is_idle(id_of(v[0]), ed.ui.dragged_keyframe.frame) ==> {
            &&& sel.anim < arm.animations.len()
            &&& landings_fit(ed.ui.selected_keyframes, id_of(v[0]), ed.ui.dragged_keyframe.frame)
        },
        Events::DeleteKeyframeLine => sel.anim < arm.animations.len() && element_of(index_of(v[1])) is Some,
        Events::GlobalCopy => ed.ui.last_selected == bone_label() ==> can_copy_bone(arm.bones, sel, sel.bone_idx),
        Events::GlobalPaste => {
            &&& ed.ui.last_selected == keyframe_label() ==> sel.anim < arm.animations.len() && paste_fits(
                ed.copy_buffer.keyframes,
                id_of(v[0]),
            )
            &&& ed.ui.last_selected == bone_label() ==> can_paste_bone(ed.copy_buffer.bones, arm.bones, sel.bone_idx)
        },
        Events::NewBone => new_bone_allowed(ed),
        Events::CreateParentBone => new_parent_allowed(v, ed),
        _ => is_document_event(e) ==> document_allowed(e, v, ed),
    }
}

/// What event `e` with numbers `v` and text `s` does to the editor, as the
/// relation between the state before and after. The events that need `f32`
/// arithmetic, texture pixels, the camera, the configuration or interface
/// texts (the camera and physics setters, vertex and texture edits, the
/// export colour and padding, keyframe curves, path binds, bone edits, file
/// error messages) change nothing here: the caller carries them out with the
/// library functions named at `apply_event`.
pub open spec fn event_effect(e: Events, v: Seq<i64>, s: Seq<char>, ed: EditorView, after: EditorView) -> bool {
    match e {
        Events::EditModeMove => edit_mode_move_effect(e, v, s, ed, after),
        Events::EditModeRotate => edit_mode_rotate_effect(e, v, s, ed, after),
        Events::EditModeScale => edit_mode_scale_effect(e, v, s, ed, after),
        Events::UnselectAll => unselect_all_effect(e, v, s, ed, after),
        Events::Undo | Events::Redo => undo_redo_effect(e, v, s, ed, after),
        Events::RenameBone => rename_bone_effect(e, v, s, ed, after),
        Events::RenameAnim => rename_anim_effect(e, v, s, ed, after),
        Events::ToggleShowingMesh => toggle_showing_mesh_effect(e, v, s, ed, after),
        Events::ToggleEditingMesh => toggle_editing_mesh_effect(e, v, s, ed, after),
        Events::ToggleSettingIkTarget => toggle_setting_ik_target_effect(e, v, s, ed, after),
        Events::ToggleSettingBindBone => toggle_setting_bind_bone_effect(e, v, s, ed, after),
        Events::ToggleOnionLayers => toggle_onion_layers_effect(e, v, s, ed, after),
        Events::DeleteIkTarget => delete_ik_target_effect(e, v, s, ed, after),
        Events::ToggleIkFolded => toggle_ik_folded_effect(e, v, s, ed, after),
        Events::TogglePhysFolded => toggle_phys_folded_effect(e, v, s, ed, after),
        Events::ToggleMeshdefFolded => toggle_meshdef_folded_effect(e, v, s, ed, after),
        Events::ToggleEffectsFolded => toggle_effects_folded_effect(e, v, s, ed, after),
        Events::ToggleAnimPanelOpen => toggle_anim_panel_open_effect(e, v, s, ed, after),
        Events::CancelPendingTexture => cancel_pending_texture_effect(e, v, s, ed, after),
        Events::DeleteAnim => delete_anim_effect(e, v, s, ed, after),
        Events::RenameStyle => rename_style_effect(e, v, s, ed, after),
        Events::SelectBone => select_bone_effect(e, v, s, ed, after),
        Events::SelectAnim => select_anim_effect(e, v, s, ed, after),
        Events::SelectStyle => select_style_effect(e, v, s, ed, after),
        Events::OpenPolarModal => open_polar_modal_effect(e, v, s, ed, after),
        Events::DeleteBone => delete_bone_effect(e, v, s, ed, after),
        Events::SaveBone => save_bone_effect(e, v, s, ed, after),
        Events::SaveAnimation => save_animation_effect(e, v, s, ed, after),
        Events::SetHoveringVertId => set_hovering_vert_id_effect(e, v, s, ed, after),
        Events::SetHoveringBoneId => set_hovering_bone_id_effect(e, v, s, ed, after),
        Events::ToggleEditingPivot => toggle_editing_pivot_effect(e, v, s, ed, after),
        Events::SetTemporaryEditMode => set_temporary_edit_mode_effect(e, v, s, ed, after),
        Events::RaiseGlobalZindex => raise_global_zindex_effect(e, v, s, ed, after),
        Events::ReduceGlobalIkFamilyIds => reduce_global_ik_family_ids_effect(e, v, s, ed, after),
        Events::DeleteKeyframesByFrame => delete_keyframes_by_frame_effect(e, v, s, ed, after),
        Events::DeleteTriangle => delete_triangle_effect(e, v, s, ed, after),
        Events::CopySelectedKeyframes => copy_selected_keyframes_effect(e, v, s, ed, after),
        Events::DeleteStyle => delete_style_effect(e, v, s, ed, after),
        Events::MoveAnimation => move_animation_effect(e, v, s, ed, after),
        Events::ToggleSelectedTexture => toggle_selected_texture_effect(e, v, s, ed, after),
        Events::SelectVertex => select_vertex_effect(e, v, s, ed, after),
        Events::ToggleIkDisabled => toggle_ik_disabled_effect(e, v, s, ed, after),
        Events::ToggleBoneFolded => toggle_bone_folded_effect(e, v, s, ed, after),
        Events::ToggleBoneAnimFolded => toggle_bone_anim_folded_effect(e, v, s, ed, after),
        Events::MoveTexture => move_texture_effect(e, v, s, ed, after),
        Events::MigrateTexture => migrate_texture_effect(e, v, s, ed, after),
        Events::MoveStyle => move_style_effect(e, v, s, ed, after),
        Events::DragBone => drag_bone_effect(e, v, s, ed, after),
        Events::CopyBone => copied_effect(v, ed, after),
        Events::DeleteSelectedKeyframes => selected_keyframes_deleted(ed, after),
        Events::DeleteSelectedTextures => selected_textures_deleted(ed, after),
        Events::PasteKeyframesOnFrame => keyframes_pasted(v, ed, after),
        Events::SelectBind => bind_selected(v, ed, after),
        Events::PasteBone => bones_pasted(v, ed, after),
        Events::SelectAnimFrame => anim_frame_selected(v, ed, after),
        Events::MoveSelectedKeyframes => keyframes_moved(v, ed, after),
        Events::DeleteKeyframeLine => keyframe_line_deleted(v, ed, after),
        Events::GlobalCopy => globally_copied(ed, after),
        Events::GlobalPaste => globally_pasted(v, ed, after),
        Events::NewBone => new_bone_effect(ed, after),
        Events::CreateParentBone => new_parent_effect(v, ed, after),
        _ => if is_document_event(e) {
            document_effect(e, v, ed, after)
        } else {
            after == ed
        },
    }
}

pub open spec fn edit_mode_move_effect(e: Events, v: Seq<i64>, s: Seq<char>, ed: EditorView, after: EditorView) -> bool {
    let em = ed.edit_mode;
    after == EditorView { edit_mode: EditMode { current: EditModes::Move, ..em }, ..ed }
}

pub open spec fn edit_mode_rotate_effect(e: Events, v: Seq<i64>, s: Seq<char>, ed: EditorView, after: EditorView) -> bool {
    let em = ed.edit_mode;
    after == EditorView { edit_mode: EditMode { current: EditModes::Rotate, ..em }, ..ed }
}

pub open spec fn edit_mode_scale_effect(e: Events, v: Seq<i64>, s: Seq<char>, ed: EditorView, after: EditorView) -> bool {
    let em = ed.edit_mode;
    after == EditorView { edit_mode: EditMode { current: EditModes::Scale, ..em }, ..ed }
}

pub open spec fn unselect_all_effect(e: Events, v: Seq<i64>, s: Seq<char>, ed: EditorView, after: EditorView) -> bool {
    let sel = ed.selections;
    let ui = ed.ui;
    let em = ed.edit_mode;
    after == EditorView {
        selections: SelectionView {
            bone_idx: usize::MAX,
            bone_ids: Seq::empty(),
            anim_frame: -1i32,
            anim: usize::MAX,
            bind: -1i32,
            style_id: -1i32,
            ..sel
        },
        edit_mode: EditMode { showing_mesh: false, setting_ik_target: false, setting_bind_bone: false, ..em },
        ui: UiView { last_selected: Seq::empty(), ..ui },
        ..ed
    }
}

pub open spec fn undo_redo_effect(e: Events, v: Seq<i64>, s: Seq<char>, ed: EditorView, after: EditorView) -> bool {
    let arm = ed.armature;
    let sel = ed.selections;
    {
        let r = undo_redo_result(e == Events::Undo, ed.undo, arm, sel);
        after == EditorView {
            undo: r.0,
            armature: r.1,
            selections: r.2,
            ui: UiView { window: WindowView { changed_window_name: false, ..ed.ui.window }, ..ed.ui },
            ..ed
        }
    }
}

pub open spec fn rename_bone_effect(e: Events, v: Seq<i64>, s: Seq<char>, ed: EditorView, after: EditorView) -> bool {
    let arm = ed.armature;
    let i = index_of(v[0]);
    after == with_bone(ed, i as int, BoneView { name: s, ..arm.bones[i as int] })
}

pub open spec fn rename_anim_effect(e: Events, v: Seq<i64>, s: Seq<char>, ed: EditorView, after: EditorView) -> bool {
    let arm = ed.armature;
    let ui = ed.ui;
    let i = index_of(v[0]);
    {
        let ed1 = if ui.just_made_anim {
            ed
        } else {
            pushed(ed, ActionView { action: ActionType::Animation, bones: Seq::empty(), animations: seq![arm.animations[i as int]], styles: Seq::empty(), continued: false })
        };
        after == EditorView {
            armature: ArmatureView {
                animations: arm.animations.update(i as int, AnimationView { name: s, ..arm.animations[i as int] }),
                ..arm
            },
            ui: UiView { just_made_anim: false, ..ui },
            ..ed1
        }
    }
}

pub open spec fn toggle_showing_mesh_effect(e: Events, v: Seq<i64>, s: Seq<char>, ed: EditorView, after: EditorView) -> bool {
    let sel = ed.selections;
    let ui = ed.ui;
    let em = ed.edit_mode;
    let on = v[0] == 1;
    if on {
        after == EditorView { edit_mode: EditMode { showing_mesh: true, ..em }, ..ed }
    } else {
        after == EditorView {
            edit_mode: EditMode { showing_mesh: false, ..em },
            ui: UiView { tracing: false, ..ui },
            selections: SelectionView { hovering_vert_id: -1i32, vert_ids: Seq::empty(), ..sel },
            ..ed
        }
    }
}

pub open spec fn toggle_editing_mesh_effect(e: Events, v: Seq<i64>, s: Seq<char>, ed: EditorView, after: EditorView) -> bool {
    let sel = ed.selections;
    let em = ed.edit_mode;
    after == EditorView {
        edit_mode: EditMode { editing_mesh: !em.editing_mesh, ..em },
        selections: SelectionView { vert_ids: Seq::empty(), ..sel },
        ..ed
    }
}

pub open spec fn toggle_setting_ik_target_effect(e: Events, v: Seq<i64>, s: Seq<char>, ed: EditorView, after: EditorView) -> bool {
    let em = ed.edit_mode;
    let on = v[0] == 1;
    after == EditorView { edit_mode: EditMode { setting_ik_target: on, ..em }, ..ed }
}

pub open spec fn toggle_setting_bind_bone_effect(e: Events, v: Seq<i64>, s: Seq<char>, ed: EditorView, after: EditorView) -> bool {
    let em = ed.edit_mode;
    let on = v[0] == 1;
    after == EditorView { edit_mode: EditMode { setting_bind_bone: on, ..em }, ..ed }
}

pub open spec fn toggle_onion_layers_effect(e: Events, v: Seq<i64>, s: Seq<char>, ed: EditorView, after: EditorView) -> bool {
    let em = ed.edit_mode;
    let on = v[0] == 1;
    after == EditorView { edit_mode: EditMode { onion_layers: on, ..em }, ..ed }
}

pub open spec fn delete_ik_target_effect(e: Events, v: Seq<i64>, s: Seq<char>, ed: EditorView, after: EditorView) -> bool {
    let arm = ed.armature;
    let sel = ed.selections;
    let b = sel.bone_idx as int;
    after == with_bone(ed, b, BoneView { ik_target_id: -1i32, ..arm.bones[b] })
}

pub open spec fn toggle_ik_folded_effect(e: Events, v: Seq<i64>, s: Seq<char>, ed: EditorView, after: EditorView) -> bool {
    let arm = ed.armature;
    let sel = ed.selections;
    let b = sel.bone_idx as int;
    let on = v[0] == 1;
    after == with_props(ed, BoneProps { ik_folded: on, ..arm.bones[b].props })
}

pub open spec fn toggle_phys_folded_effect(e: Events, v: Seq<i64>, s: Seq<char>, ed: EditorView, after: EditorView) -> bool {
    let arm = ed.armature;
    let sel = ed.selections;
    let b = sel.bone_idx as int;
    let on = v[0] == 1;
    after == with_props(ed, BoneProps { phys_folded: on, ..arm.bones[b].props })
}

pub open spec fn toggle_meshdef_folded_effect(e: Events, v: Seq<i64>, s: Seq<char>, ed: EditorView, after: EditorView) -> bool {
    let arm = ed.armature;
    let sel = ed.selections;
    let b = sel.bone_idx as int;
    let on = v[0] == 1;
    after == with_props(ed, BoneProps { meshdef_folded: on, ..arm.bones[b].props })
}

pub open spec fn toggle_effects_folded_effect(e: Events, v: Seq<i64>, s: Seq<char>, ed: EditorView, after: EditorView) -> bool {
    let arm = ed.armature;
    let sel = ed.selections;
    let b = sel.bone_idx as int;
    let on = v[0] == 1;
    after == with_props(ed, BoneProps { effects_folded: on, ..arm.bones[b].props })
}

pub open spec fn toggle_anim_panel_open_effect(e: Events, v: Seq<i64>, s: Seq<char>, ed: EditorView, after: EditorView) -> bool {
    let arm = ed.armature;
    let sel = ed.selections;
    let em = ed.edit_mode;
    let on = v[0] == 1;
    after == EditorView {
        edit_mode: EditMode { anim_open: on, ..em },
        selections: if on { sel } else { SelectionView { anim_frame: -1i32, ..sel } },
        armature: ArmatureView {
            animations: arm.animations.map_values(|a: AnimationView| AnimationView { playing: false, ..a }),
            ..arm
        },
        ..ed
    }
}

pub open spec fn cancel_pending_texture_effect(e: Events, v: Seq<i64>, s: Seq<char>, ed: EditorView, after: EditorView) -> bool {
    let arm = ed.armature;
    let sel = ed.selections;
    {
        let si = sel_style_index(arm, sel);
        let t = arm.styles[si].textures;
        after == EditorView {
            armature: with_textures(arm, si, if t.len() == 0 { t } else { t.drop_last() }),
            ..ed
        }
    }
}

pub open spec fn delete_anim_effect(e: Events, v: Seq<i64>, s: Seq<char>, ed: EditorView, after: EditorView) -> bool {
    let arm = ed.armature;
    let sel = ed.selections;
    let i = index_of(v[0]);
    after == EditorView {
        armature: ArmatureView { animations: arm.animations.remove(i as int), ..arm },
        selections: SelectionView { anim: usize::MAX, ..sel },
        ..ed
    }
}

pub open spec fn rename_style_effect(e: Events, v: Seq<i64>, s: Seq<char>, ed: EditorView, after: EditorView) -> bool {
    let arm = ed.armature;
    let sel = ed.selections;
    let ui = ed.ui;
    {
        let si = sel_style_index(arm, sel);
        after == EditorView {
            armature: ArmatureView { styles: arm.styles.update(si, StyleView { name: s, ..arm.styles[si] }), ..arm },
            ui: UiView { just_made_style: false, ..ui },
            ..ed
        }
    }
}

pub open spec fn select_bone_effect(e: Events, v: Seq<i64>, s: Seq<char>, ed: EditorView, after: EditorView) -> bool {
    let arm = ed.armature;
    let sel = ed.selections;
    let ui = ed.ui;
    let em = ed.edit_mode;
    {
        let r = select_bone_result(sel, ui, arm.bones, em, ed.input, index_or_none(v[0]), s == seq!['t']);
        after == EditorView {
            selections: r.0,
            ui: r.1,
            armature: ArmatureView { bones: r.2, ..arm },
            edit_mode: r.3,
            ..ed
        }
    }
}

pub open spec fn select_anim_effect(e: Events, v: Seq<i64>, s: Seq<char>, ed: EditorView, after: EditorView) -> bool {
    let sel = ed.selections;
    after == EditorView {
        selections: SelectionView { anim: index_or_none(v[0]), anim_frame: 0i32, ..sel },
        ..ed
    }
}

pub open spec fn select_style_effect(e: Events, v: Seq<i64>, s: Seq<char>, ed: EditorView, after: EditorView) -> bool {
    let sel = ed.selections;
    let ui = ed.ui;
    after == EditorView {
        selections: SelectionView { style_id: id_of(v[0]), tex_ids: Seq::empty(), ..sel },
        ui: UiView {
            last_selected: if id_of(v[0]) == -1 { Seq::empty() } else { seq!['s', 't', 'y', 'l', 'e'] },
            ..ui
        },
        ..ed
    }
}

pub open spec fn open_polar_modal_effect(e: Events, v: Seq<i64>, s: Seq<char>, ed: EditorView, after: EditorView) -> bool {
    let ui = ed.ui;
    after == EditorView {
        ui: UiView { polar_id: v[0], polar_modal: true, headline: s, ..ui },
        ..ed
    }
}

pub open spec fn delete_bone_effect(e: Events, v: Seq<i64>, s: Seq<char>, ed: EditorView, after: EditorView) -> bool {
    let arm = ed.armature;
    let sel = ed.selections;
    let i = index_of(v[0]);
    {
        let ed1 = pushed(ed, ActionView { action: ActionType::Animations, bones: Seq::empty(), animations: arm.animations, styles: Seq::empty(), continued: true });
        after == EditorView {
            armature: deleted_all(arm, ids_to_delete(arm.bones, sel, i as int), i as i32, (arm.bones.len() + 1) as nat),
            selections: if sel.bone_idx == i || sel.bone_ids.len() > 1 {
                SelectionView { bone_idx: usize::MAX, bone_ids: Seq::empty(), ..sel }
            } else {
                sel
            },
            ..ed1
        }
    }
}

pub open spec fn save_bone_effect(e: Events, v: Seq<i64>, s: Seq<char>, ed: EditorView, after: EditorView) -> bool {
    let arm = ed.armature;
    let i = index_of(v[0]);
    after == pushed(
        EditorView { ui: UiView { window: WindowView { autosaving: true, ..ed.ui.window }, ..ed.ui }, ..ed },
        ActionView { action: ActionType::Bone, bones: seq![arm.bones[i as int]], animations: Seq::empty(), styles: Seq::empty(), continued: false },
    )
}

pub open spec fn save_animation_effect(e: Events, v: Seq<i64>, s: Seq<char>, ed: EditorView, after: EditorView) -> bool {
    let arm = ed.armature;
    let sel = ed.selections;
    after == pushed(ed, ActionView { action: ActionType::Animation, bones: Seq::empty(), animations: seq![arm.animations[sel.anim as int]], styles: Seq::empty(), continued: false })
}

pub open spec fn set_hovering_vert_id_effect(e: Events, v: Seq<i64>, s: Seq<char>, ed: EditorView, after: EditorView) -> bool {
    let sel = ed.selections;
    after == EditorView { selections: SelectionView { hovering_vert_id: id_of(v[0]), ..sel }, ..ed }
}

pub open spec fn set_hovering_bone_id_effect(e: Events, v: Seq<i64>, s: Seq<char>, ed: EditorView, after: EditorView) -> bool {
    let sel = ed.selections;
    after == EditorView { selections: SelectionView { hovering_bone_id: id_of(v[0]), ..sel }, ..ed }
}

pub open spec fn toggle_editing_pivot_effect(e: Events, v: Seq<i64>, s: Seq<char>, ed: EditorView, after: EditorView) -> bool {
    let em = ed.edit_mode;
    after == EditorView { edit_mode: EditMode { editing_pivot: !em.editing_pivot, ..em }, ..ed }
}

pub open spec fn set_temporary_edit_mode_effect(e: Events, v: Seq<i64>, s: Seq<char>, ed: EditorView, after: EditorView) -> bool {
    let em = ed.edit_mode;
    after == EditorView {
        edit_mode: EditMode {
            temporary: if v[0] == 0 {
                Some(EditModes::Move)
            } else if v[0] == 1 {
                Some(EditModes::Rotate)
            } else if v[0] == 2 {
                Some(EditModes::Scale)
            } else {
                None
            },
            ..em
        },
        ..ed
    }
}

pub open spec fn raise_global_zindex_effect(e: Events, v: Seq<i64>, s: Seq<char>, ed: EditorView, after: EditorView) -> bool {
    let arm = ed.armature;
    {
        let k = bone_index(arm.bones, id_of(v[0]));
        let z = arm.bones[k].zindex;
        after == EditorView {
            armature: ArmatureView {
                bones: Seq::new(
                    arm.bones.len(),
                    |j: int|
                        if j == k || (arm.bones[j].zindex > z && arm.bones[j].tex.len() != 0) {
                            BoneView { zindex: (arm.bones[j].zindex + 1) as i32, ..arm.bones[j] }
                        } else {
                            arm.bones[j]
                        },
                ),
                ..arm
            },
            ..ed
        }
    }
}

pub open spec fn reduce_global_ik_family_ids_effect(e: Events, v: Seq<i64>, s: Seq<char>, ed: EditorView, after: EditorView) -> bool {
    let arm = ed.armature;
    after == EditorView {
        armature: ArmatureView {
            bones: arm.bones.map_values(
                |bn: BoneView|
                    if bn.ik_family_id > id_of(v[0]) {
                        BoneView { ik_family_id: (bn.ik_family_id - 1) as i32, ..bn }
                    } else {
                        bn
                    },
            ),
            ..arm
        },
        ..ed
    }
}

pub open spec fn delete_keyframes_by_frame_effect(e: Events, v: Seq<i64>, s: Seq<char>, ed: EditorView, after: EditorView) -> bool {
    let arm = ed.armature;
    let sel = ed.selections;
    after == EditorView {
        armature: with_keyframes(
            arm,
            sel.anim as int,
            without_matching(
                arm.animations[sel.anim as int].keyframes,
                KeyframePattern { frame: Some(id_of(v[0])), bone_id: None, element: None },
            ),
        ),
        ..ed
    }
}

pub open spec fn delete_triangle_effect(e: Events, v: Seq<i64>, s: Seq<char>, ed: EditorView, after: EditorView) -> bool {
    let arm = ed.armature;
    let sel = ed.selections;
    let b = sel.bone_idx as int;
    let i = index_of(v[0]);
    {
        let bone = arm.bones[b];
        let bl = pruned_blacklist(bone.blacklist + triangle_ids(bone, i as int), bone.vertices);
        after == with_bone(
            ed,
            b,
            BoneView { blacklist: bl, indices: apply_blacklist(bone.indices, bone.vertices, bl, (bl.len() / 3) as int), ..bone },
        )
    }
}

pub open spec fn copy_selected_keyframes_effect(e: Events, v: Seq<i64>, s: Seq<char>, ed: EditorView, after: EditorView) -> bool {
    let ui = ed.ui;
    after == EditorView {
        copy_buffer: CopyBufferView { bones: Seq::empty(), keyframes: ui.selected_keyframes },
        ..ed
    }
}

pub open spec fn delete_style_effect(e: Events, v: Seq<i64>, s: Seq<char>, ed: EditorView, after: EditorView) -> bool {
    let arm = ed.armature;
    let sel = ed.selections;
    after == EditorView {
        armature: ArmatureView { styles: arm.styles.remove(style_index(arm.styles, id_of(v[0]))), ..arm },
        selections: SelectionView {
            style_id: if sel.style_id == id_of(v[0]) { -1i32 } else { sel.style_id },
            ..sel
        },
        ..ed
    }
}

pub open spec fn move_animation_effect(e: Events, v: Seq<i64>, s: Seq<char>, ed: EditorView, after: EditorView) -> bool {
    let arm = ed.armature;
    let sel = ed.selections;
    let i = index_of(v[0]);
    {
        let drag = i;
        let hov = index_of(v[1]);
        let h = if hov > drag { (hov - 1) as usize } else { hov };
        after == EditorView {
            armature: ArmatureView { animations: arm.animations.remove(drag as int).insert(h as int, arm.animations[drag as int]), ..arm },
            selections: SelectionView { anim: h, ..sel },
            ..ed
        }
    }
}

pub open spec fn toggle_selected_texture_effect(e: Events, v: Seq<i64>, s: Seq<char>, ed: EditorView, after: EditorView) -> bool {
    let sel = ed.selections;
    let ui = ed.ui;
    {
        let tex_id = id_of(v[0]);
        after == EditorView {
            selections: SelectionView {
                tex_ids: sorted_ascending(
                    if v[1] == 1 {
                        if sel.tex_ids.contains(tex_id) { sel.tex_ids } else { sel.tex_ids.push(tex_id) }
                    } else {
                        without_value(sel.tex_ids, tex_id)
                    },
                ),
                ..sel
            },
            ui: UiView { last_selected: seq!['t', 'e', 'x', 't', 'u', 'r', 'e'], ..ui },
            ..ed
        }
    }
}

pub open spec fn select_vertex_effect(e: Events, v: Seq<i64>, s: Seq<char>, ed: EditorView, after: EditorView) -> bool {
    let sel = ed.selections;
    {
        let vid = id_of(v[0]);
        after == EditorView {
            selections: SelectionView {
                vert_ids: if vid == -1 {
                    Seq::empty()
                } else if ed.input.holding_mod || ed.input.holding_shift || v[1] == 1 {
                    sel.vert_ids.push(vid as usize)
                } else {
                    seq![vid as usize]
                },
                ..sel
            },
            ..ed
        }
    }
}

pub open spec fn toggle_ik_disabled_effect(e: Events, v: Seq<i64>, s: Seq<char>, ed: EditorView, after: EditorView) -> bool {
    let arm = ed.armature;
    let i = index_of(v[0]);
    after == with_bone(ed, i as int, BoneView { ik_disabled: v[1] == 1, ..arm.bones[i as int] })
}

pub open spec fn toggle_bone_folded_effect(e: Events, v: Seq<i64>, s: Seq<char>, ed: EditorView, after: EditorView) -> bool {
    let arm = ed.armature;
    let i = index_of(v[0]);
    after == with_bone(ed, i as int, BoneView { folded: v[1] == 1, ..arm.bones[i as int] })
}

pub open spec fn toggle_bone_anim_folded_effect(e: Events, v: Seq<i64>, s: Seq<char>, ed: EditorView, after: EditorView) -> bool {
    let arm = ed.armature;
    let i = index_of(v[0]);
    after == with_bone(ed, i as int, BoneView { anim_folded: v[1] == 1, ..arm.bones[i as int] })
}

pub open spec fn move_texture_effect(e: Events, v: Seq<i64>, s: Seq<char>, ed: EditorView, after: EditorView) -> bool {
    let arm = ed.armature;
    let sel = ed.selections;
    let i = index_of(v[0]);
    {
        let si = sel_style_index(arm, sel);
        let t = arm.styles[si].textures;
        let from = index_of(v[1]);
        after == EditorView { armature: with_textures(arm, si, t.remove(from as int).insert(i as int, t[from as int])), ..ed }
    }
}

pub open spec fn migrate_texture_effect(e: Events, v: Seq<i64>, s: Seq<char>, ed: EditorView, after: EditorView) -> bool {
    let arm = ed.armature;
    let sel = ed.selections;
    let ui = ed.ui;
    let i = index_of(v[0]);
    {
        let si = sel_style_index(arm, sel);
        let t = arm.styles[si].textures;
        let to = index_of(v[1]) as int;
        let a1 = with_textures(arm, si, t.remove(i as int));
        after == EditorView {
            armature: with_textures(a1, to, a1.styles[to].textures.push(t[i as int])),
            ui: UiView { dragging_tex: false, ..ui },
            ..ed
        }
    }
}

pub open spec fn move_style_effect(e: Events, v: Seq<i64>, s: Seq<char>, ed: EditorView, after: EditorView) -> bool {
    let arm = ed.armature;
    let i = index_of(v[0]);
    {
        let j = index_of(v[1]) as int;
        after == EditorView {
            armature: ArmatureView { styles: arm.styles.update(i as int, arm.styles[j]).update(j, arm.styles[i as int]), ..arm },
            ..ed
        }
    }
}

pub open spec fn drag_bone_effect(e: Events, v: Seq<i64>, s: Seq<char>, ed: EditorView, after: EditorView) -> bool {
    let arm = ed.armature;
    let sel = ed.selections;
    let is_above = v[0] == 1;
    let pointing = id_of(v[1]);
    let ids = drag_ids(ed, id_of(v[2]));
    let sel1 = SelectionView { bone_ids: ids, ..sel };
    let em1 = if sel.bone_ids.len() < 2 && !bone_has_tex(arm.bones, id_of(v[2])) {
        EditMode { showing_mesh: false, ..ed.edit_mode }
    } else {
        ed.edit_mode
    };
    if drop_refused(arm.bones, pointing, ids) {
        after == EditorView { selections: sel1, edit_mode: em1, ..ed }
    } else {
        let bones2 = dragged_all(arm.bones, drag_order(arm.bones, ids, is_above), pointing, is_above);
        after == EditorView {
            armature: ArmatureView { bones: bones2, ..arm },
            selections: SelectionView { bone_idx: bone_index(bones2, ids[0]) as usize, ..sel1 },
            edit_mode: em1,
            ..ed
        }
    }
}

/// Whether bone `id` exists and shows a texture.
pub open spec fn bone_has_tex(bones: Seq<BoneView>, id: i32) -> bool {
    bone_index(bones, id) >= 0 && bones[bone_index(bones, id)].tex.len() > 0
}

fn has_tex(bones: &Vec<crate::model::Bone>, id: i32) -> (r: bool)
    ensures
        r == bone_has_tex(views(bones@), id),
{
    match crate::model::find_bone(bones, id) {
        Some(k) => bones[k].tex.as_str().unicode_len() > 0,
        None => false,
    }
}

/// Copying bone `v[0]` (the largest number: none) and, when several bones
/// are selected, the others with it.
pub open spec fn copied_effect(v: Seq<i64>, ed: EditorView, after: EditorView) -> bool {
    bones_copied(index_or_none(v[0]), ed, after)
}

/// Copying bone `idx` (`usize::MAX`: none) and, when several bones are
/// selected, the others with it.
pub open spec fn bones_copied(idx: usize, ed: EditorView, after: EditorView) -> bool {
    after == EditorView {
        copy_buffer: CopyBufferView {
            bones: if idx == usize::MAX {
                Seq::empty()
            } else {
                let ids = ids_to_copy(ed.armature.bones, ed.selections, idx);
                copied_bones(ed.armature.bones, ids, ids.len() as int)
            },
            ..ed.copy_buffer
        },
        ..ed
    }
}

/// Deleting the selected keyframes from the selected animation.
pub open spec fn selected_keyframes_deleted(ed: EditorView, after: EditorView) -> bool {
    let a = ed.selections.anim as int;
    after == if ed.ui.selected_keyframes.len() == 0 {
        ed
    } else {
        EditorView {
            armature: with_keyframes(
                ed.armature,
                a,
                without_selected(ed.armature.animations[a].keyframes, ed.ui.selected_keyframes),
            ),
            ..ed
        }
    }
}

/// Deleting the selected textures of the selected style.
pub open spec fn selected_textures_deleted(ed: EditorView, after: EditorView) -> bool {
    let si = sel_style_index(ed.armature, ed.selections);
    after == EditorView {
        armature: with_textures(
            ed.armature,
            si,
            unselected_textures(ed.armature.styles[si].textures, ed.selections.tex_ids),
        ),
        selections: SelectionView { tex_ids: Seq::empty(), ..ed.selections },
        ..ed
    }
}

/// Pasting the copied keyframes, in frame order, from frame `v[0]` on; the
/// keyframes they land on are replaced.
pub open spec fn keyframes_pasted(v: Seq<i64>, ed: EditorView, after: EditorView) -> bool {
    keyframes_pasted_on(id_of(v[0]), ed, after)
}

/// Pasting the copied keyframes, in frame order, from `frame` on.
pub open spec fn keyframes_pasted_on(frame: i32, ed: EditorView, after: EditorView) -> bool {
    let buf = ed.copy_buffer.keyframes;
    let sorted = sorted_by_frame(buf);
    let pasted = shifted_to(sorted, frame);
    let a = ed.selections.anim as int;
    let anim = ed.armature.animations[a];
    after == if buf.len() == 0 {
        ed
    } else {
        EditorView {
            copy_buffer: CopyBufferView { keyframes: sorted, ..ed.copy_buffer },
            armature: ArmatureView {
                animations: ed.armature.animations.update(
                    a,
                    AnimationView { keyframes: sorted_by_frame(without_clashes(anim.keyframes, pasted) + pasted), ..anim },
                ),
                ..ed.armature
            },
            ..ed
        }
    }
}

/// Selecting bind `v[0]`: -3 unselects, -2 adds an empty bind to the
/// selected bone and selects it, -1 changes nothing.
pub open spec fn bind_selected(v: Seq<i64>, ed: EditorView, after: EditorView) -> bool {
    let value = id_of(v[0]);
    let sel = ed.selections;
    let b = sel.bone_idx as int;
    after == if value == -3 {
        EditorView { selections: SelectionView { bind: -1i32, ..sel }, ..ed }
    } else if value == -2 {
        let bone = ed.armature.bones[b];
        EditorView {
            armature: ArmatureView {
                bones: ed.armature.bones.update(
                    b,
                    BoneView {
                        binds: bone.binds.push(crate::model::BindView { bone_id: -1i32, is_path: false, verts: Seq::empty() }),
                        ..bone
                    },
                ),
                ..ed.armature
            },
            selections: SelectionView { bind: bone.binds.len() as i32, ..sel },
            ..ed
        }
    } else if value == -1 {
        ed
    } else {
        EditorView { selections: SelectionView { bind: value, ..sel }, ..ed }
    }
}

/// Pasting the copied bones under fresh ids at bone `v[0]`: they go in at
/// that position when it holds a bone (at the end otherwise), the copy buffer
/// keeps them as pasted, and they become the selection, in an order that
/// the pasting leaves open.
pub open spec fn bones_pasted(v: Seq<i64>, ed: EditorView, after: EditorView) -> bool {
    bones_pasted_at(index_or_none(v[0]), ed, after)
}

/// Pasting the copied bones under fresh ids at bone `idx`.
pub open spec fn bones_pasted_at(idx: usize, ed: EditorView, after: EditorView) -> bool {
    let buf = ed.copy_buffer.bones;
    let bones = ed.armature.bones;
    let pasted = pasted_bones(buf, bones, idx);
    let refs = id_map(buf, highest_id(bones, bones.len() as int) + 1, buf.len() as int);
    let new_bones = after.armature.bones;
    &&& after.copy_buffer == (CopyBufferView { bones: pasted, ..ed.copy_buffer })
    &&& new_bones == if inserts_at_target(buf, bones, idx) {
        bones.subrange(0, idx as int) + pasted + bones.subrange(idx as int, bones.len() as int)
    } else {
        bones + pasted
    }
    &&& after.armature == (ArmatureView { bones: new_bones, ..ed.armature })
    &&& after.selections.bone_ids.to_set() == refs.values()
    &&& after.selections.bone_ids.len() == refs.dom().len()
    &&& after.selections.bone_idx as int == bone_index(new_bones, after.selections.bone_ids[0])
    &&& after.selections == (SelectionView {
        bone_ids: after.selections.bone_ids,
        bone_idx: after.selections.bone_idx,
        ..ed.selections
    })
    &&& after == (EditorView { armature: after.armature, copy_buffer: after.copy_buffer, selections: after.selections, ..ed })
}

/// Clicking frame `v[0]` of the timeline; with `v[1]` 1 the keyframes there
/// are selected too (added to the selection when `v[2]` is not 0).
pub open spec fn anim_frame_selected(v: Seq<i64>, ed: EditorView, after: EditorView) -> bool {
    let frame = id_of(v[0]);
    let select_keyframes = v[1] == 1;
    after == EditorView {
        selections: SelectionView { anim_frame: frame, bind: -1i32, style_id: -1i32, ..ed.selections },
        edit_mode: EditMode { showing_mesh: false, setting_ik_target: false, setting_bind_bone: false, ..ed.edit_mode },
        ui: UiView {
            last_selected: seq!['k', 'e', 'y', 'f', 'r', 'a', 'm', 'e'],
            last_selected_frame: frame,
            selected_keyframes: if select_keyframes {
                clicked_selection(
                    ed.ui,
                    ed.armature.animations[ed.selections.anim as int].keyframes,
                    ed.input,
                    frame,
                    v[2] != 0,
                )
            } else {
                ed.ui.selected_keyframes
            },
            ..ed.ui
        },
        ..ed
    }
}

/// The animated element with number `n`, in the order the elements are
/// declared; none past the last.
pub open spec fn element_of(n: usize) -> Option<AnimElement> {
    match n {
        0usize => Some(AnimElement::PositionX),
        1usize => Some(AnimElement::PositionY),
        2usize => Some(AnimElement::Rotation),
        3usize => Some(AnimElement::ScaleX),
        4usize => Some(AnimElement::ScaleY),
        5usize => Some(AnimElement::Zindex),
        6usize => Some(AnimElement::IkFamilyId),
        7usize => Some(AnimElement::TintR),
        8usize => Some(AnimElement::TintG),
        9usize => Some(AnimElement::TintB),
        10usize => Some(AnimElement::TintA),
        11usize => Some(AnimElement::Texture),
        12usize => Some(AnimElement::IkConstraint),
        13usize => Some(AnimElement::Hidden),
        14usize => Some(AnimElement::Locked),
        15usize => Some(AnimElement::IkMode),
        16usize => Some(AnimElement::GroupColorR),
        17usize => Some(AnimElement::GroupColorG),
        18usize => Some(AnimElement::GroupColorB),
        19usize => Some(AnimElement::GroupColorA),
        20usize => Some(AnimElement::MimicTarget),
        21usize => Some(AnimElement::PivotX),
        22usize => Some(AnimElement::PivotY),
        23usize => Some(AnimElement::PivotRot),
        24usize => Some(AnimElement::PivotScaleX),
        25usize => Some(AnimElement::PivotScaleY),
        _ => None,
    }
}

fn to_element(n: usize) -> (r: Option<AnimElement>)
    ensures
        r == element_of(n),
{
    match n {
        0usize => Some(AnimElement::PositionX),
        1usize => Some(AnimElement::PositionY),
        2usize => Some(AnimElement::Rotation),
        3usize => Some(AnimElement::ScaleX),
        4usize => Some(AnimElement::ScaleY),
        5usize => Some(AnimElement::Zindex),
        6usize => Some(AnimElement::IkFamilyId),
        7usize => Some(AnimElement::TintR),
        8usize => Some(AnimElement::TintG),
        9usize => Some(AnimElement::TintB),
        10usize => Some(AnimElement::TintA),
        11usize => Some(AnimElement::Texture),
        12usize => Some(AnimElement::IkConstraint),
        13usize => Some(AnimElement::Hidden),
        14usize => Some(AnimElement::Locked),
        15usize => Some(AnimElement::IkMode),
        16usize => Some(AnimElement::GroupColorR),
        17usize => Some(AnimElement::GroupColorG),
        18usize => Some(AnimElement::GroupColorB),
        19usize => Some(AnimElement::GroupColorA),
        20usize => Some(AnimElement::MimicTarget),
        21usize => Some(AnimElement::PivotX),
        22usize => Some(AnimElement::PivotY),
        23usize => Some(AnimElement::PivotRot),
        24usize => Some(AnimElement::PivotScaleX),
        25usize => Some(AnimElement::PivotScaleY),
        _ => None,
    }
}

/// Deleting every keyframe of bone `v[0]`'s element number `v[1]` from the
/// selected animation.
pub open spec fn keyframe_line_deleted(v: Seq<i64>, ed: EditorView, after: EditorView) -> bool {
    let a = ed.selections.anim as int;
    let pattern = KeyframePattern { frame: None, bone_id: Some(id_of(v[0])), element: element_of(index_of(v[1])) };
    after == EditorView {
        armature: with_keyframes(ed.armature, a, without_matching(ed.armature.animations[a].keyframes, pattern)),
        ..ed
    }
}

/// Dropping the dragged keyframes on frame `v[0]`: unless the drop changes
/// nothing, the selected animation is saved for undo and the selected
/// keyframes move by the distance of the drop; the drag ends either way.
pub open spec fn keyframes_moved(v: Seq<i64>, ed: EditorView, after: EditorView) -> bool {
    let frame = id_of(v[0]);
    let dragged = ed.ui.dragged_keyframe.frame;
    let a = ed.selections.anim as int;
    let done = KeyframeView { frame: -1i32, ..ed.ui.dragged_keyframe };
    if drop_is_idle(frame, dragged) {
        after == EditorView { ui: UiView { dragged_keyframe: done, ..ed.ui }, ..ed }
    } else {
        let r = moved_all(ed.armature.animations[a].keyframes, ed.ui.selected_keyframes, frame, dragged);
        let snapshot = saved(ActionType::Animation, Seq::empty(), seq![ed.armature.animations[a]], Seq::empty());
        after == EditorView {
            armature: with_keyframes(ed.armature, a, sorted_by_frame(r.0)),
            ui: UiView { selected_keyframes: r.1, dragged_keyframe: done, ..ed.ui },
            undo: UndoView { undo_actions: ed.undo.undo_actions.push(snapshot), ..ed.undo },
            ..ed
        }
    }
}

/// Saves animation `a` for undo.
fn save_animation(undo_states: &mut UndoStates, armature: &Armature, a: usize)
    requires
        a < armature.animations.len(),
    ensures
        final(undo_states)@ == (UndoView {
            undo_actions: old(undo_states)@.undo_actions.push(
                saved(ActionType::Animation, Seq::empty(), seq![armature@.animations[a as int]], Seq::empty()),
            ),
            ..old(undo_states)@
        }),
{
    let none_b: Vec<crate::model::Bone> = Vec::new();
    let none_s: Vec<crate::model::Style> = Vec::new();
    let mut an: Vec<crate::model::Animation> = Vec::new();
    an.push(armature.animations[a].duplicate());
    proof {
        assert(views(none_b@) =~= Seq::<BoneView>::empty());
        assert(views(none_s@) =~= Seq::<StyleView>::empty());
        assert(views(an@) =~= seq![armature@.animations[a as int]]);
    }
    let ghost u0 = views(undo_states.undo_actions@);
    undo_states.undo_actions.push(
        Action { action: ActionType::Animation, bones: none_b, animations: an, styles: none_s, continued: false },
    );
    assert(views(undo_states.undo_actions@) =~= u0.push(
        saved(ActionType::Animation, Seq::empty(), seq![armature@.animations[a as int]], Seq::empty()),
    ));
}

/// The label of the keyframe panel.
pub open spec fn keyframe_label() -> Seq<char> {
    seq!['k', 'e', 'y', 'f', 'r', 'a', 'm', 'e']
}

/// The label of the bone panel.
pub open spec fn bone_label() -> Seq<char> {
    seq!['b', 'o', 'n', 'e']
}

/// Copying what was selected last: the selected keyframes, or the selected
/// bone (with the others selected with it); nothing otherwise.
pub open spec fn globally_copied(ed: EditorView, after: EditorView) -> bool {
    if ed.ui.last_selected == keyframe_label() {
        after == EditorView {
            copy_buffer: CopyBufferView { bones: Seq::empty(), keyframes: ed.ui.selected_keyframes },
            ..ed
        }
    } else if ed.ui.last_selected == bone_label() {
        bones_copied(ed.selections.bone_idx, ed, after)
    } else {
        after == ed
    }
}

/// Pasting where the last selection was: keyframes from frame `v[0]` on, the
/// selected animation saved for undo first; or bones at the selected bone,
/// all bones saved for undo first; nothing otherwise.
pub open spec fn globally_pasted(v: Seq<i64>, ed: EditorView, after: EditorView) -> bool {
    let arm = ed.armature;
    if ed.ui.last_selected == keyframe_label() {
        let snapshot = saved(ActionType::Animation, Seq::empty(),
            seq![arm.animations[ed.selections.anim as int]],
            Seq::empty(),
        );
        keyframes_pasted_on(id_of(v[0]), pushed(ed, snapshot), after)
    } else if ed.ui.last_selected == bone_label() {
        let snapshot = saved(ActionType::Bones, arm.bones, Seq::empty(), Seq::empty());
        bones_pasted_at(ed.selections.bone_idx, pushed(ed, snapshot), after)
    } else {
        after == ed
    }
}

fn is_label(s: &String, label: &str) -> (r: bool)
    ensures
        r == (s@ == label@),
{
    crate::text::str_equal(s.as_str(), label)
}

/// The bone whose timeline row an event brings into view: that of a bone
/// picked by a selection, and none for any other event.
pub open spec fn scroll_target(e: Events, v: Seq<i64>, s: Seq<char>, ed: EditorView) -> Option<i32> {
    if e == Events::SelectBone {
        select_bone_result(
            ed.selections,
            ed.ui,
            ed.armature.bones,
            ed.edit_mode,
            ed.input,
            index_or_none(v[0]),
            s == seq!['t'],
        ).4
    } else {
        None
    }
}

/// Carries out event `e` with numbers `values` and text `s`, and returns the
/// bone whose timeline row comes into view. The events whose values are
/// `f32` arithmetic, image pixels, the camera, the configuration or
/// interface texts (`event_effect` lists them as changing nothing here) are
/// carried out by the caller, with the library functions that do their part:
/// `edit_bone`, `update_keyframe_transition`, `set_bind_pathing`,
/// `click_vertex`, `reset_vertices`, `set_traced_mesh`, `change_fps`,
/// `rename_texture`, `open_modal` and the mesh functions.
pub fn apply_event(ed: &mut Editor, e: Events, values: &Vec<i64>, s: String) -> (scroll_to: Option<i32>)
    requires
        event_allowed(e, values@, s@, old(ed)@),
    ensures
        event_effect(e, values@, s@, old(ed)@, final(ed)@),
        scroll_to == scroll_target(e, values@, s@, old(ed)@),
{
    if e == Events::SelectBone {
        return apply_select_bone(ed, e, values, s);
    }
    match e {
        Events::EditModeMove => apply_edit_mode_move(ed, e, values, s),
        Events::EditModeRotate => apply_edit_mode_rotate(ed, e, values, s),
        Events::EditModeScale => apply_edit_mode_scale(ed, e, values, s),
        Events::UnselectAll => apply_unselect_all(ed, e, values, s),
        Events::Undo => apply_undo(ed, e, values, s),
        Events::Redo => apply_redo(ed, e, values, s),
        Events::RenameBone => apply_rename_bone(ed, e, values, s),
        Events::RenameAnim => apply_rename_anim(ed, e, values, s),
        Events::ToggleShowingMesh => apply_toggle_showing_mesh(ed, e, values, s),
        Events::ToggleEditingMesh => apply_toggle_editing_mesh(ed, e, values, s),
        Events::ToggleSettingIkTarget => apply_toggle_setting_ik_target(ed, e, values, s),
        Events::ToggleSettingBindBone => apply_toggle_setting_bind_bone(ed, e, values, s),
        Events::ToggleOnionLayers => apply_toggle_onion_layers(ed, e, values, s),
        Events::DeleteIkTarget | Events::ToggleIkFolded | Events::TogglePhysFolded | Events::ToggleMeshdefFolded | Events::ToggleEffectsFolded => apply_selected_bone_flag(ed, e, values, s),
        Events::ToggleAnimPanelOpen => apply_toggle_anim_panel_open(ed, e, values, s),
        Events::CancelPendingTexture => apply_cancel_pending_texture(ed, e, values, s),
        Events::DeleteAnim => apply_delete_anim(ed, e, values, s),
        Events::RenameStyle => apply_rename_style(ed, e, values, s),
        Events::SelectAnim => apply_select_anim(ed, e, values, s),
        Events::SelectStyle => apply_select_style(ed, e, values, s),
        Events::OpenPolarModal => apply_open_polar_modal(ed, e, values, s),
        Events::DeleteBone => apply_delete_bone(ed, e, values, s),
        Events::SaveBone | Events::SaveAnimation => apply_save(ed, e, values, s),
        Events::SetHoveringVertId => apply_set_hovering_vert_id(ed, e, values, s),
        Events::SetHoveringBoneId => apply_set_hovering_bone_id(ed, e, values, s),
        Events::ToggleEditingPivot => apply_toggle_editing_pivot(ed, e, values, s),
        Events::SetTemporaryEditMode => apply_set_temporary_edit_mode(ed, e, values, s),
        Events::RaiseGlobalZindex => apply_raise_global_zindex(ed, e, values, s),
        Events::ReduceGlobalIkFamilyIds => apply_reduce_global_ik_family_ids(ed, e, values, s),
        Events::DeleteKeyframesByFrame => apply_delete_keyframes_by_frame(ed, e, values, s),
        Events::DeleteTriangle => apply_delete_triangle(ed, e, values, s),
        Events::CopySelectedKeyframes => apply_copy_selected_keyframes(ed, e, values, s),
        Events::DeleteStyle => apply_delete_style(ed, e, values, s),
        Events::MoveAnimation => apply_move_animation(ed, e, values, s),
        Events::ToggleSelectedTexture => apply_toggle_selected_texture(ed, e, values, s),
        Events::SelectVertex => apply_select_vertex(ed, e, values, s),
        Events::ToggleIkDisabled | Events::ToggleBoneFolded | Events::ToggleBoneAnimFolded => apply_bone_flag(ed, e, values, s),
        Events::MoveTexture => apply_move_texture(ed, e, values, s),
        Events::MigrateTexture => apply_migrate_texture(ed, e, values, s),
        Events::MoveStyle => apply_move_style(ed, e, values, s),
        Events::DragBone => apply_drag_bone(ed, e, values, s),
        Events::CopyBone => apply_copy_bone(ed, e, values, s),
        Events::DeleteSelectedKeyframes => apply_delete_selected_keyframes(ed, e, values, s),
        Events::DeleteSelectedTextures => apply_delete_selected_textures(ed, e, values, s),
        Events::PasteKeyframesOnFrame => apply_paste_keyframes_on_frame(ed, e, values, s),
        Events::SelectBind => apply_select_bind(ed, e, values, s),
        Events::PasteBone => apply_paste_bone(ed, e, values, s),
        Events::MoveSelectedKeyframes => apply_move_selected_keyframes(ed, e, values, s),
        Events::DeleteKeyframeLine => apply_delete_keyframe_line(ed, e, values, s),
        Events::GlobalCopy => apply_global_copy(ed, e, values, s),
        Events::GlobalPaste => apply_global_paste(ed, e, values, s),
        Events::SelectAnimFrame => apply_select_anim_frame(ed, e, values, s),
        Events::NewBone => apply_new_bone(ed),
        Events::CreateParentBone => apply_new_parent(ed, values),
        _ => {
            if document_event(e) {
                apply_document_event(ed, e, values);
            }
        },
    }
    None
}

#[verifier::rlimit(80)]
fn apply_edit_mode_move(ed: &mut Editor, e: Events, values: &Vec<i64>, s: String)
    requires
        e == Events::EditModeMove,
        event_allowed(e, values@, s@, old(ed)@),
    ensures
        event_effect(e, values@, s@, old(ed)@, final(ed)@),
{
    ed.edit_mode.current = EditModes::Move;
}

#[verifier::rlimit(80)]
fn apply_edit_mode_rotate(ed: &mut Editor, e: Events, values: &Vec<i64>, s: String)
    requires
        e == Events::EditModeRotate,
        event_allowed(e, values@, s@, old(ed)@),
    ensures
        event_effect(e, values@, s@, old(ed)@, final(ed)@),
{
    ed.edit_mode.current = EditModes::Rotate;
}

#[verifier::rlimit(80)]
fn apply_edit_mode_scale(ed: &mut Editor, e: Events, values: &Vec<i64>, s: String)
    requires
        e == Events::EditModeScale,
        event_allowed(e, values@, s@, old(ed)@),
    ensures
        event_effect(e, values@, s@, old(ed)@, final(ed)@),
{
    ed.edit_mode.current = EditModes::Scale;
}

#[verifier::rlimit(80)]
fn apply_unselect_all(ed: &mut Editor, e: Events, values: &Vec<i64>, s: String)
    requires
        e == Events::UnselectAll,
        event_allowed(e, values@, s@, old(ed)@),
    ensures
        event_effect(e, values@, s@, old(ed)@, final(ed)@),
{
    unselect_all(&mut ed.selections, &mut ed.edit_mode, &mut ed.ui);
}

#[verifier::rlimit(80)]
fn apply_undo(ed: &mut Editor, e: Events, values: &Vec<i64>, s: String)
    requires
        e == Events::Undo,
        event_allowed(e, values@, s@, old(ed)@),
    ensures
        event_effect(e, values@, s@, old(ed)@, final(ed)@),
{
    undo_redo(true, &mut ed.undo_states, &mut ed.armature, &mut ed.selections);
    ed.ui.window.changed_window_name = false;
}

#[verifier::rlimit(80)]
fn apply_redo(ed: &mut Editor, e: Events, values: &Vec<i64>, s: String)
    requires
        e == Events::Redo,
        event_allowed(e, values@, s@, old(ed)@),
    ensures
        event_effect(e, values@, s@, old(ed)@, final(ed)@),
{
    undo_redo(false, &mut ed.undo_states, &mut ed.armature, &mut ed.selections);
    ed.ui.window.changed_window_name = false;
}

#[verifier::rlimit(80)]
fn apply_rename_bone(ed: &mut Editor, e: Events, values: &Vec<i64>, s: String)
    requires
        e == Events::RenameBone,
        event_allowed(e, values@, s@, old(ed)@),
    ensures
        event_effect(e, values@, s@, old(ed)@, final(ed)@),
{
    let v0 = values[0];
    let i = to_index(v0);
    let ghost b0 = views(ed.armature.bones@);
    ed.armature.bones[i].name = s;
    assert(views(ed.armature.bones@) =~= b0.update(i as int, BoneView { name: s@, ..b0[i as int] }));
}

#[verifier::rlimit(80)]
fn apply_rename_anim(ed: &mut Editor, e: Events, values: &Vec<i64>, s: String)
    requires
        e == Events::RenameAnim,
        event_allowed(e, values@, s@, old(ed)@),
    ensures
        event_effect(e, values@, s@, old(ed)@, final(ed)@),
{
    let v0 = values[0];
    let ghost e0 = ed@;
    let i = to_index(v0);
    if !ed.ui.just_made_anim {
        let mut an: Vec<crate::model::Animation> = Vec::new();
        an.push(ed.armature.animations[i].duplicate());
        assert(views(an@) =~= seq![e0.armature.animations[i as int]]);
        let ghost u0 = views(ed.undo_states.undo_actions@);
        let nb: Vec<crate::model::Bone> = Vec::new();
        let ns: Vec<crate::model::Style> = Vec::new();
        assert(views(nb@) =~= Seq::<BoneView>::empty());
        assert(views(ns@) =~= Seq::<StyleView>::empty());
        let a = Action { action: ActionType::Animation, bones: nb, animations: an, styles: ns, continued: false };
        assert(a@ == ActionView { action: ActionType::Animation, bones: Seq::empty(), animations: seq![e0.armature.animations[i as int]], styles: Seq::empty(), continued: false });
        ed.undo_states.undo_actions.push(a);
        assert(views(ed.undo_states.undo_actions@) =~= u0.push(a@));
    }
    let ghost a0 = views(ed.armature.animations@);
    ed.armature.animations[i].name = s;
    assert(views(ed.armature.animations@) =~= a0.update(i as int, AnimationView { name: s@, ..a0[i as int] }));
    ed.ui.just_made_anim = false;
}

#[verifier::rlimit(100)]
#[verifier::spinoff_prover]
fn apply_toggle_showing_mesh(ed: &mut Editor, e: Events, values: &Vec<i64>, s: String)
    requires
        values.len() >= 1,
    ensures
        toggle_showing_mesh_effect(e, values@, s@, old(ed)@, final(ed)@),
{
    if values[0] == 1 {
        show_mesh(ed);
    } else {
        hide_mesh_of(ed);
    }
}

fn show_mesh(ed: &mut Editor)
    ensures
        final(ed)@ == (EditorView { edit_mode: EditMode { showing_mesh: true, ..old(ed)@.edit_mode }, ..old(ed)@ }),
{
    ed.edit_mode.showing_mesh = true;
}

fn hide_mesh_of(ed: &mut Editor)
    ensures
        final(ed)@ == (EditorView {
            edit_mode: EditMode { showing_mesh: false, ..old(ed)@.edit_mode },
            ui: UiView { tracing: false, ..old(ed)@.ui },
            selections: SelectionView { hovering_vert_id: -1i32, vert_ids: Seq::empty(), ..old(ed)@.selections },
            ..old(ed)@
        }),
{
    ed.edit_mode.showing_mesh = false;
    hide_mesh(&mut ed.ui, &mut ed.selections);
}

/// Stops tracing and hovering, and unselects the vertices, once the mesh is hidden.
fn hide_mesh(ui: &mut Ui, selections: &mut SelectionState)
    ensures
        final(ui)@ == (UiView { tracing: false, ..old(ui)@ }),
        final(selections)@ == (SelectionView { hovering_vert_id: -1i32, vert_ids: Seq::empty(), ..old(selections)@ }),
{
    ui.tracing = false;
    selections.hovering_vert_id = -1;
    selections.vert_ids = Vec::new();
    assert(selections@.vert_ids =~= Seq::<usize>::empty());
}

#[verifier::rlimit(80)]
fn apply_toggle_editing_mesh(ed: &mut Editor, e: Events, values: &Vec<i64>, s: String)
    requires
        e == Events::ToggleEditingMesh,
        event_allowed(e, values@, s@, old(ed)@),
    ensures
        event_effect(e, values@, s@, old(ed)@, final(ed)@),
{
    ed.edit_mode.editing_mesh = !ed.edit_mode.editing_mesh;
    ed.selections.vert_ids = Vec::new();
}

#[verifier::rlimit(80)]
fn apply_toggle_setting_ik_target(ed: &mut Editor, e: Events, values: &Vec<i64>, s: String)
    requires
        e == Events::ToggleSettingIkTarget,
        event_allowed(e, values@, s@, old(ed)@),
    ensures
        event_effect(e, values@, s@, old(ed)@, final(ed)@),
{
    let v0 = values[0];
    ed.edit_mode.setting_ik_target = v0 == 1;
}

#[verifier::rlimit(80)]
fn apply_toggle_setting_bind_bone(ed: &mut Editor, e: Events, values: &Vec<i64>, s: String)
    requires
        e == Events::ToggleSettingBindBone,
        event_allowed(e, values@, s@, old(ed)@),
    ensures
        event_effect(e, values@, s@, old(ed)@, final(ed)@),
{
    let v0 = values[0];
    ed.edit_mode.setting_bind_bone = v0 == 1;
}

#[verifier::rlimit(80)]
fn apply_toggle_onion_layers(ed: &mut Editor, e: Events, values: &Vec<i64>, s: String)
    requires
        e == Events::ToggleOnionLayers,
        event_allowed(e, values@, s@, old(ed)@),
    ensures
        event_effect(e, values@, s@, old(ed)@, final(ed)@),
{
    let v0 = values[0];
    ed.edit_mode.onion_layers = v0 == 1;
}

#[verifier::rlimit(80)]
fn apply_selected_bone_flag(ed: &mut Editor, e: Events, values: &Vec<i64>, s: String)
    requires
        e == Events::DeleteIkTarget || e == Events::ToggleIkFolded || e == Events::TogglePhysFolded || e == Events::ToggleMeshdefFolded || e == Events::ToggleEffectsFolded,
        event_allowed(e, values@, s@, old(ed)@),
    ensures
        event_effect(e, values@, s@, old(ed)@, final(ed)@),
{
    let v0 = values[0];
    let b = ed.selections.bone_idx;
    let ghost b0 = views(ed.armature.bones@);
    match e {
        Events::DeleteIkTarget => ed.armature.bones[b].ik_target_id = -1,
        Events::ToggleIkFolded => ed.armature.bones[b].props.ik_folded = v0 == 1,
        Events::TogglePhysFolded => ed.armature.bones[b].props.phys_folded = v0 == 1,
        Events::ToggleMeshdefFolded => ed.armature.bones[b].props.meshdef_folded = v0 == 1,
        _ => ed.armature.bones[b].props.effects_folded = v0 == 1,
    }
    assert(views(ed.armature.bones@) =~= b0.update(b as int, ed.armature.bones@[b as int]@));
}

#[verifier::rlimit(80)]
fn apply_toggle_anim_panel_open(ed: &mut Editor, e: Events, values: &Vec<i64>, s: String)
    requires
        e == Events::ToggleAnimPanelOpen,
        event_allowed(e, values@, s@, old(ed)@),
    ensures
        event_effect(e, values@, s@, old(ed)@, final(ed)@),
{
    let v0 = values[0];
    ed.edit_mode.anim_open = v0 == 1;
    if !ed.edit_mode.anim_open {
        ed.selections.anim_frame = -1;
    }
    let ghost a0 = views(ed.armature.animations@);
    let ghost e1 = ed@;
    let mut k: usize = 0;
    while k < ed.armature.animations.len()
        invariant
            k <= a0.len(),
            a0 == e1.armature.animations,
            ed@ == (EditorView { armature: ArmatureView { animations: views(ed.armature.animations@), ..e1.armature }, ..e1 }),
            ed.armature.animations@.len() == a0.len(),
            forall|m: int| 0 <= m < k ==> #[trigger] views(ed.armature.animations@)[m] == (AnimationView { playing: false, ..a0[m] }),
            forall|m: int| k <= m < a0.len() ==> #[trigger] views(ed.armature.animations@)[m] == a0[m],
        decreases a0.len() - k,
    {
        let ghost raw = ed.armature.animations@;
        assert(views(raw)[k as int] == a0[k as int]);
        assert(raw[k as int]@ == a0[k as int]);
        ed.armature.animations[k].playing = false;
        assert(forall|m: int| 0 <= m < raw.len() && m != k ==> ed.armature.animations@[m] == raw[m]);
        assert(ed.armature.animations@[k as int]@ == (AnimationView { playing: false, ..a0[k as int] }));
        assert(views(ed.armature.animations@) =~= views(raw).update(k as int, AnimationView { playing: false, ..a0[k as int] }));
        k = k + 1;
    }
    assert(views(ed.armature.animations@) =~= a0.map_values(|a: AnimationView| AnimationView { playing: false, ..a }));
}

#[verifier::rlimit(80)]
fn apply_cancel_pending_texture(ed: &mut Editor, e: Events, values: &Vec<i64>, s: String)
    requires
        e == Events::CancelPendingTexture,
        event_allowed(e, values@, s@, old(ed)@),
    ensures
        event_effect(e, values@, s@, old(ed)@, final(ed)@),
{
    let ghost e0 = ed@;
    let si = find_style(&ed.armature.styles, ed.selections.style_id).unwrap();
    let ghost s0 = views(ed.armature.styles@);
    let ghost t0 = s0[si as int].textures;
    let mut t: Vec<crate::model::Texture> = Vec::new();
    std::mem::swap(&mut t, &mut ed.armature.styles[si].textures);
    assert(views(t@) == t0);
    let _ = t.pop();
    assert(views(t@) =~= (if t0.len() == 0 { t0 } else { t0.drop_last() }));
    ed.armature.styles[si].textures = t;
    assert(views(ed.armature.styles@) =~= with_textures(e0.armature, si as int, if t0.len() == 0 { t0 } else { t0.drop_last() }).styles);
}

#[verifier::rlimit(80)]
fn apply_delete_anim(ed: &mut Editor, e: Events, values: &Vec<i64>, s: String)
    requires
        e == Events::DeleteAnim,
        event_allowed(e, values@, s@, old(ed)@),
    ensures
        event_effect(e, values@, s@, old(ed)@, final(ed)@),
{
    let v0 = values[0];
    let i = to_index(v0);
    let ghost a0 = views(ed.armature.animations@);
    ed.armature.animations.remove(i);
    assert(views(ed.armature.animations@) =~= a0.remove(i as int));
    ed.selections.anim = usize::MAX;
}

#[verifier::rlimit(80)]
fn apply_rename_style(ed: &mut Editor, e: Events, values: &Vec<i64>, s: String)
    requires
        e == Events::RenameStyle,
        event_allowed(e, values@, s@, old(ed)@),
    ensures
        event_effect(e, values@, s@, old(ed)@, final(ed)@),
{
    let si = find_style(&ed.armature.styles, ed.selections.style_id).unwrap();
    let ghost s0 = views(ed.armature.styles@);
    ed.armature.styles[si].name = s;
    assert(views(ed.armature.styles@) =~= s0.update(si as int, StyleView { name: s@, ..s0[si as int] }));
    ed.ui.just_made_style = false;
}

#[verifier::rlimit(80)]
fn apply_select_bone(ed: &mut Editor, e: Events, values: &Vec<i64>, s: String) -> (scroll_to: Option<i32>)
    requires
        e == Events::SelectBone,
        event_allowed(e, values@, s@, old(ed)@),
    ensures
        event_effect(e, values@, s@, old(ed)@, final(ed)@),
        scroll_to == scroll_target(e, values@, s@, old(ed)@),
{
    let v0 = values[0];
    let ghost e0 = ed@;
    let idx = to_index_or_none(v0);
    proof {
        reveal_strlit("t");
    }
    let t = "t";
    assert(t@ =~= seq!['t']);
    let from_renderer = crate::text::str_equal(s.as_str(), t);
    assert(from_renderer == (s@ == seq!['t']));
    assert(can_select_bone(e0.selections, e0.ui, e0.armature.bones, e0.edit_mode, e0.input, idx, from_renderer));
    select_bone(&mut ed.selections, &mut ed.ui, &mut ed.armature, &mut ed.edit_mode, &ed.input, idx, from_renderer)
}

#[verifier::rlimit(80)]
fn apply_select_anim(ed: &mut Editor, e: Events, values: &Vec<i64>, s: String)
    requires
        e == Events::SelectAnim,
        event_allowed(e, values@, s@, old(ed)@),
    ensures
        event_effect(e, values@, s@, old(ed)@, final(ed)@),
{
    let v0 = values[0];
    ed.selections.anim = to_index_or_none(v0);
    ed.selections.anim_frame = 0;
}

#[verifier::rlimit(80)]
fn apply_select_style(ed: &mut Editor, e: Events, values: &Vec<i64>, s: String)
    requires
        e == Events::SelectStyle,
        event_allowed(e, values@, s@, old(ed)@),
    ensures
        event_effect(e, values@, s@, old(ed)@, final(ed)@),
{
    let v0 = values[0];
    let id = to_id(v0);
    ed.selections.style_id = id;
    ed.ui.last_selected = if id == -1 { String::new() } else { String::from_str("style") };
    proof {
        reveal_strlit("style");
    }
    assert(ed.ui@.last_selected =~= (if id == -1 { Seq::<char>::empty() } else { seq!['s', 't', 'y', 'l', 'e'] }));
    ed.selections.tex_ids = Vec::new();
}

#[verifier::rlimit(80)]
fn apply_open_polar_modal(ed: &mut Editor, e: Events, values: &Vec<i64>, s: String)
    requires
        e == Events::OpenPolarModal,
        event_allowed(e, values@, s@, old(ed)@),
    ensures
        event_effect(e, values@, s@, old(ed)@, final(ed)@),
{
    let v0 = values[0];
    ed.ui.polar_id = v0;
    ed.ui.polar_modal = true;
    ed.ui.headline = s;
}

#[verifier::rlimit(80)]
fn apply_delete_bone(ed: &mut Editor, e: Events, values: &Vec<i64>, s: String)
    requires
        e == Events::DeleteBone,
        event_allowed(e, values@, s@, old(ed)@),
    ensures
        event_effect(e, values@, s@, old(ed)@, final(ed)@),
{
    let v0 = values[0];
    let i = to_index(v0);
    let ghost u0 = views(ed.undo_states.undo_actions@);
    let nb: Vec<crate::model::Bone> = Vec::new();
    let ns: Vec<crate::model::Style> = Vec::new();
    let a = Action {
        action: ActionType::Animations,
        bones: nb,
        animations: crate::model::duplicate_vec(&ed.armature.animations),
        styles: ns,
        continued: true,
    };
    assert(views(a.bones@) =~= Seq::<BoneView>::empty());
    assert(views(a.styles@) =~= Seq::<StyleView>::empty());
    ed.undo_states.undo_actions.push(a);
    assert(views(ed.undo_states.undo_actions@) =~= u0.push(a@));
    delete_bone(&mut ed.armature, &mut ed.selections, i);
}

#[verifier::rlimit(80)]
fn apply_save(ed: &mut Editor, e: Events, values: &Vec<i64>, s: String)
    requires
        e == Events::SaveBone || e == Events::SaveAnimation,
        event_allowed(e, values@, s@, old(ed)@),
    ensures
        event_effect(e, values@, s@, old(ed)@, final(ed)@),
{
    if e == Events::SaveBone {
        ed.ui.window.autosaving = true;
    }
    let v0 = values[0];
    let ghost e0 = ed@;
    let ghost u0 = views(ed.undo_states.undo_actions@);
    let a = if e == Events::SaveBone {
        let i = to_index(v0);
        let mut bo: Vec<crate::model::Bone> = Vec::new();
        bo.push(ed.armature.bones[i].duplicate());
        assert(views(bo@) =~= seq![e0.armature.bones[i as int]]);
        let na: Vec<crate::model::Animation> = Vec::new();
        let ns: Vec<crate::model::Style> = Vec::new();
        assert(views(na@) =~= Seq::<AnimationView>::empty());
        assert(views(ns@) =~= Seq::<StyleView>::empty());
        Action { action: ActionType::Bone, bones: bo, animations: na, styles: ns, continued: false }
    } else {
        let mut an: Vec<crate::model::Animation> = Vec::new();
        an.push(ed.armature.animations[ed.selections.anim].duplicate());
        assert(views(an@) =~= seq![e0.armature.animations[e0.selections.anim as int]]);
        let nb: Vec<crate::model::Bone> = Vec::new();
        let ns: Vec<crate::model::Style> = Vec::new();
        assert(views(nb@) =~= Seq::<BoneView>::empty());
        assert(views(ns@) =~= Seq::<StyleView>::empty());
        Action { action: ActionType::Animation, bones: nb, animations: an, styles: ns, continued: false }
    };
    ed.undo_states.undo_actions.push(a);
    assert(views(ed.undo_states.undo_actions@) =~= u0.push(a@));
}

#[verifier::rlimit(80)]
fn apply_set_hovering_vert_id(ed: &mut Editor, e: Events, values: &Vec<i64>, s: String)
    requires
        e == Events::SetHoveringVertId,
        event_allowed(e, values@, s@, old(ed)@),
    ensures
        event_effect(e, values@, s@, old(ed)@, final(ed)@),
{
    let v0 = values[0];
    ed.selections.hovering_vert_id = to_id(v0);
}

#[verifier::rlimit(80)]
fn apply_set_hovering_bone_id(ed: &mut Editor, e: Events, values: &Vec<i64>, s: String)
    requires
        e == Events::SetHoveringBoneId,
        event_allowed(e, values@, s@, old(ed)@),
    ensures
        event_effect(e, values@, s@, old(ed)@, final(ed)@),
{
    let v0 = values[0];
    ed.selections.hovering_bone_id = to_id(v0);
}

#[verifier::rlimit(80)]
fn apply_toggle_editing_pivot(ed: &mut Editor, e: Events, values: &Vec<i64>, s: String)
    requires
        e == Events::ToggleEditingPivot,
        event_allowed(e, values@, s@, old(ed)@),
    ensures
        event_effect(e, values@, s@, old(ed)@, final(ed)@),
{
    ed.edit_mode.editing_pivot = !ed.edit_mode.editing_pivot;
}

#[verifier::rlimit(80)]
fn apply_set_temporary_edit_mode(ed: &mut Editor, e: Events, values: &Vec<i64>, s: String)
    requires
        e == Events::SetTemporaryEditMode,
        event_allowed(e, values@, s@, old(ed)@),
    ensures
        event_effect(e, values@, s@, old(ed)@, final(ed)@),
{
    let v0 = values[0];
    ed.edit_mode.temporary = if v0 == 0 {
        Some(EditModes::Move)
    } else if v0 == 1 {
        Some(EditModes::Rotate)
    } else if v0 == 2 {
        Some(EditModes::Scale)
    } else {
        None
    };
}

#[verifier::rlimit(80)]
fn apply_raise_global_zindex(ed: &mut Editor, e: Events, values: &Vec<i64>, s: String)
    requires
        e == Events::RaiseGlobalZindex,
        event_allowed(e, values@, s@, old(ed)@),
    ensures
        event_effect(e, values@, s@, old(ed)@, final(ed)@),
{
    let v0 = values[0];
    let id = to_id(v0);
    assert(forall|j: int| 0 <= j < ed.armature.bones@.len() ==> #[trigger] ed.armature.bones@[j].zindex == views(ed.armature.bones@)[j].zindex && ed.armature.bones@[j].tex@ == views(ed.armature.bones@)[j].tex);
    raise_global_zindex(&mut ed.armature, id);
}

#[verifier::rlimit(80)]
fn apply_reduce_global_ik_family_ids(ed: &mut Editor, e: Events, values: &Vec<i64>, s: String)
    requires
        e == Events::ReduceGlobalIkFamilyIds,
        event_allowed(e, values@, s@, old(ed)@),
    ensures
        event_effect(e, values@, s@, old(ed)@, final(ed)@),
{
    let v0 = values[0];
    reduce_global_ik_family_ids(&mut ed.armature, to_id(v0));
}

#[verifier::rlimit(80)]
fn apply_delete_keyframes_by_frame(ed: &mut Editor, e: Events, values: &Vec<i64>, s: String)
    requires
        e == Events::DeleteKeyframesByFrame,
        event_allowed(e, values@, s@, old(ed)@),
    ensures
        event_effect(e, values@, s@, old(ed)@, final(ed)@),
{
    let v0 = values[0];
    delete_keyframes_by_frame(&mut ed.armature, &ed.selections, to_id(v0));
}

#[verifier::rlimit(80)]
fn apply_delete_triangle(ed: &mut Editor, e: Events, values: &Vec<i64>, s: String)
    requires
        e == Events::DeleteTriangle,
        event_allowed(e, values@, s@, old(ed)@),
    ensures
        event_effect(e, values@, s@, old(ed)@, final(ed)@),
{
    let v0 = values[0];
    let b = ed.selections.bone_idx;
    let ghost b0 = views(ed.armature.bones@);
    let mut bone = ed.armature.bones[b].duplicate();
    delete_triangle(&mut bone, to_index(v0));
    ed.armature.bones.set(b, bone);
    assert(views(ed.armature.bones@) =~= b0.update(b as int, ed.armature.bones@[b as int]@));
}

#[verifier::rlimit(80)]
fn apply_copy_selected_keyframes(ed: &mut Editor, e: Events, values: &Vec<i64>, s: String)
    requires
        e == Events::CopySelectedKeyframes,
        event_allowed(e, values@, s@, old(ed)@),
    ensures
        event_effect(e, values@, s@, old(ed)@, final(ed)@),
{
    crate::keyframes::copy_selected_keyframes(&mut ed.copy_buffer, &ed.ui);
}

#[verifier::rlimit(80)]
fn apply_delete_style(ed: &mut Editor, e: Events, values: &Vec<i64>, s: String)
    requires
        e == Events::DeleteStyle,
        event_allowed(e, values@, s@, old(ed)@),
    ensures
        event_effect(e, values@, s@, old(ed)@, final(ed)@),
{
    let v0 = values[0];
    delete_style(&mut ed.armature, &mut ed.selections, to_id(v0));
}

#[verifier::rlimit(80)]
fn apply_move_animation(ed: &mut Editor, e: Events, values: &Vec<i64>, s: String)
    requires
        e == Events::MoveAnimation,
        event_allowed(e, values@, s@, old(ed)@),
    ensures
        event_effect(e, values@, s@, old(ed)@, final(ed)@),
{
    let v0 = values[0];
    move_animation(&mut ed.armature, &mut ed.selections, to_index(v0), to_index(values[1]));
}

#[verifier::rlimit(80)]
fn apply_toggle_selected_texture(ed: &mut Editor, e: Events, values: &Vec<i64>, s: String)
    requires
        e == Events::ToggleSelectedTexture,
        event_allowed(e, values@, s@, old(ed)@),
    ensures
        event_effect(e, values@, s@, old(ed)@, final(ed)@),
{
    let v0 = values[0];
    toggle_selected_texture(&mut ed.selections, &mut ed.ui, to_id(v0), values[1] == 1);
}

#[verifier::rlimit(80)]
fn apply_select_vertex(ed: &mut Editor, e: Events, values: &Vec<i64>, s: String)
    requires
        e == Events::SelectVertex,
        event_allowed(e, values@, s@, old(ed)@),
    ensures
        event_effect(e, values@, s@, old(ed)@, final(ed)@),
{
    let v0 = values[0];
    select_vertex(&mut ed.selections, &ed.input, to_id(v0), values[1] == 1);
}

#[verifier::rlimit(80)]
fn apply_bone_flag(ed: &mut Editor, e: Events, values: &Vec<i64>, s: String)
    requires
        e == Events::ToggleIkDisabled || e == Events::ToggleBoneFolded || e == Events::ToggleBoneAnimFolded,
        event_allowed(e, values@, s@, old(ed)@),
    ensures
        event_effect(e, values@, s@, old(ed)@, final(ed)@),
{
    let v0 = values[0];
    let i = to_index(v0);
    let flag = values[1] == 1;
    let ghost b0 = views(ed.armature.bones@);
    match e {
        Events::ToggleIkDisabled => ed.armature.bones[i].ik_disabled = flag,
        Events::ToggleBoneFolded => ed.armature.bones[i].folded = flag,
        _ => ed.armature.bones[i].anim_folded = flag,
    }
    assert(views(ed.armature.bones@) =~= b0.update(i as int, ed.armature.bones@[i as int]@));
}

#[verifier::rlimit(80)]
fn apply_move_texture(ed: &mut Editor, e: Events, values: &Vec<i64>, s: String)
    requires
        e == Events::MoveTexture,
        event_allowed(e, values@, s@, old(ed)@),
    ensures
        event_effect(e, values@, s@, old(ed)@, final(ed)@),
{
    let v0 = values[0];
    move_texture(&mut ed.armature, &ed.selections, to_index(v0), to_index(values[1]));
}

#[verifier::rlimit(80)]
fn apply_migrate_texture(ed: &mut Editor, e: Events, values: &Vec<i64>, s: String)
    requires
        e == Events::MigrateTexture,
        event_allowed(e, values@, s@, old(ed)@),
    ensures
        event_effect(e, values@, s@, old(ed)@, final(ed)@),
{
    let v0 = values[0];
    migrate_texture(&mut ed.armature, &ed.selections, to_index(v0), to_index(values[1]));
    ed.ui.dragging_tex = false;
}

#[verifier::rlimit(80)]
fn apply_move_style(ed: &mut Editor, e: Events, values: &Vec<i64>, s: String)
    requires
        e == Events::MoveStyle,
        event_allowed(e, values@, s@, old(ed)@),
    ensures
        event_effect(e, values@, s@, old(ed)@, final(ed)@),
{
    let v0 = values[0];
    move_style(&mut ed.armature, to_index(v0), to_index(values[1]));
}

#[verifier::rlimit(100)]
#[verifier::spinoff_prover]
fn apply_drag_bone(ed: &mut Editor, e: Events, values: &Vec<i64>, s: String)
    requires
        values.len() >= 3,
        can_drag(old(ed)@.armature.bones, id_of(values@[1]), drag_ids(old(ed)@, id_of(values@[2])), values@[0] == 1),
    ensures
        drag_bone_effect(e, values@, s@, old(ed)@, final(ed)@),
{
    let v0 = values[0];
    let ghost e0 = ed@;
    let is_above = v0 == 1;
    let pointing_id = to_id(values[1]);
    let dragging_id = to_id(values[2]);
    if ed.selections.bone_ids.len() < 2 {
        let mut ids: Vec<i32> = Vec::new();
        ids.push(dragging_id);
        ed.selections.bone_ids = ids;
        if !has_tex(&ed.armature.bones, dragging_id) {
            ed.edit_mode.showing_mesh = false;
        }
    } else {
        ed.selections.bone_ids = only_root_bones(&ed.armature.bones, &ed.selections.bone_ids);
    }
    assert(ed.selections.bone_ids@ =~= drag_ids(e0, dragging_id));
    let ghost e1 = ed@;
    let r = drag_bone(&mut ed.armature, pointing_id, &ed.selections.bone_ids, is_above);
    if r != usize::MAX {
        ed.selections.bone_idx = r;
    }
    assert(ed@.armature == ArmatureView { bones: ed@.armature.bones, ..e1.armature });
}

#[verifier::rlimit(80)]
fn apply_copy_bone(ed: &mut Editor, e: Events, values: &Vec<i64>, s: String)
    requires
        e == Events::CopyBone,
        event_allowed(e, values@, s@, old(ed)@),
    ensures
        event_effect(e, values@, s@, old(ed)@, final(ed)@),
{
    copy_bone(&mut ed.copy_buffer, &mut ed.selections, &mut ed.armature, to_index_or_none(values[0]));
}

#[verifier::rlimit(80)]
fn apply_delete_selected_keyframes(ed: &mut Editor, e: Events, values: &Vec<i64>, s: String)
    requires
        e == Events::DeleteSelectedKeyframes,
        event_allowed(e, values@, s@, old(ed)@),
    ensures
        event_effect(e, values@, s@, old(ed)@, final(ed)@),
{
    delete_selected_keyframes(&mut ed.armature, &ed.selections, &ed.ui);
}

#[verifier::rlimit(80)]
fn apply_delete_selected_textures(ed: &mut Editor, e: Events, values: &Vec<i64>, s: String)
    requires
        e == Events::DeleteSelectedTextures,
        event_allowed(e, values@, s@, old(ed)@),
    ensures
        event_effect(e, values@, s@, old(ed)@, final(ed)@),
{
    delete_selected_textures(&mut ed.armature, &mut ed.selections);
}

#[verifier::rlimit(80)]
fn apply_paste_keyframes_on_frame(ed: &mut Editor, e: Events, values: &Vec<i64>, s: String)
    requires
        e == Events::PasteKeyframesOnFrame,
        event_allowed(e, values@, s@, old(ed)@),
    ensures
        event_effect(e, values@, s@, old(ed)@, final(ed)@),
{
    paste_keyframes_on_frame(&mut ed.copy_buffer, &mut ed.armature, &ed.selections, to_id(values[0]));
}

#[verifier::rlimit(80)]
fn apply_select_bind(ed: &mut Editor, e: Events, values: &Vec<i64>, s: String)
    requires
        e == Events::SelectBind,
        event_allowed(e, values@, s@, old(ed)@),
    ensures
        event_effect(e, values@, s@, old(ed)@, final(ed)@),
{
    select_bind(&mut ed.armature, &mut ed.selections, to_id(values[0]));
}

#[verifier::rlimit(80)]
fn apply_paste_bone(ed: &mut Editor, e: Events, values: &Vec<i64>, s: String)
    requires
        e == Events::PasteBone,
        event_allowed(e, values@, s@, old(ed)@),
    ensures
        event_effect(e, values@, s@, old(ed)@, final(ed)@),
{
    paste_bone(&mut ed.copy_buffer, &mut ed.selections, &mut ed.armature, to_index_or_none(values[0]));
}

#[verifier::rlimit(100)]
#[verifier::spinoff_prover]
fn apply_move_selected_keyframes(ed: &mut Editor, e: Events, values: &Vec<i64>, s: String)
    requires
        values.len() >= 1,
        !drop_is_idle(id_of(values@[0]), old(ed).ui.dragged_keyframe.frame) ==> {
            &&& old(ed).selections.anim < old(ed).armature.animations.len()
            &&& landings_fit(old(ed)@.ui.selected_keyframes, id_of(values@[0]), old(ed).ui.dragged_keyframe.frame)
        },
    ensures
        keyframes_moved(values@, old(ed)@, final(ed)@),
{
    let frame = to_id(values[0]);
    let dragged = ed.ui.dragged_keyframe.frame;
    if !(frame == dragged || dragged == -1 || frame == -1) {
        save_animation(&mut ed.undo_states, &ed.armature, ed.selections.anim);
    }
    move_selected_keyframes(&mut ed.armature, &ed.selections, &mut ed.ui, frame);
}

#[verifier::rlimit(80)]
fn apply_delete_keyframe_line(ed: &mut Editor, e: Events, values: &Vec<i64>, s: String)
    requires
        e == Events::DeleteKeyframeLine,
        event_allowed(e, values@, s@, old(ed)@),
    ensures
        event_effect(e, values@, s@, old(ed)@, final(ed)@),
{
    let element = to_element(to_index(values[1])).unwrap();
    delete_keyframe_line(&mut ed.armature, &ed.selections, to_id(values[0]), element);
}

#[verifier::rlimit(80)]
fn apply_select_anim_frame(ed: &mut Editor, e: Events, values: &Vec<i64>, s: String)
    requires
        e == Events::SelectAnimFrame,
        event_allowed(e, values@, s@, old(ed)@),
    ensures
        event_effect(e, values@, s@, old(ed)@, final(ed)@),
{
    let select_keyframes = values[1] == 1;
    let keep_selection = values[2] != 0;
    select_anim_frame(
        &ed.armature,
        &mut ed.selections,
        &mut ed.edit_mode,
        &mut ed.ui,
        &ed.input,
        to_id(values[0]),
        select_keyframes,
        keep_selection,
    );
}

#[verifier::rlimit(80)]
fn apply_global_copy(ed: &mut Editor, e: Events, values: &Vec<i64>, s: String)
    requires
        e == Events::GlobalCopy,
        event_allowed(e, values@, s@, old(ed)@),
    ensures
        event_effect(e, values@, s@, old(ed)@, final(ed)@),
{
    proof {
        reveal_strlit("keyframe");
        reveal_strlit("bone");
    }
    assert("keyframe"@ =~= keyframe_label());
    assert("bone"@ =~= bone_label());
    if is_label(&ed.ui.last_selected, "keyframe") {
        crate::keyframes::copy_selected_keyframes(&mut ed.copy_buffer, &ed.ui);
    } else if is_label(&ed.ui.last_selected, "bone") {
        let idx = ed.selections.bone_idx;
        copy_bone(&mut ed.copy_buffer, &mut ed.selections, &mut ed.armature, idx);
    }
}

#[verifier::rlimit(80)]
fn apply_global_paste(ed: &mut Editor, e: Events, values: &Vec<i64>, s: String)
    requires
        e == Events::GlobalPaste,
        event_allowed(e, values@, s@, old(ed)@),
    ensures
        event_effect(e, values@, s@, old(ed)@, final(ed)@),
{
    proof {
        reveal_strlit("keyframe");
        reveal_strlit("bone");
    }
    assert("keyframe"@ =~= keyframe_label());
    assert("bone"@ =~= bone_label());
    if is_label(&ed.ui.last_selected, "keyframe") {
        save_animation(&mut ed.undo_states, &ed.armature, ed.selections.anim);
        paste_keyframes_on_frame(&mut ed.copy_buffer, &mut ed.armature, &ed.selections, to_id(values[0]));
    } else if is_label(&ed.ui.last_selected, "bone") {
        record_undo(&mut ed.undo_states, Events::PasteBone, &ed.armature, &ed.selections, &ed.ui);
        let idx = ed.selections.bone_idx;
        paste_bone(&mut ed.copy_buffer, &mut ed.selections, &mut ed.armature, idx);
    }
}

} // verus!
