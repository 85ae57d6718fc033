//! The editor's events that make new documents, styles and animations,
//! import an armature, save a bone after an edit, and set the flags of the
//! edit tools, the export and the animations.
use vstd::prelude::*;
use vstd::string::StringExecFns;
use crate::dispatch::{index_of, id_of, pushed, saved, to_id, to_index, Editor, EditorView, Events};
use crate::model::{
    anim_index, find_anim, fresh_id, generate_id, views, Action, ActionType, Animation, AnimationView, Armature,
    ArmatureView, Bone, BoneView, Duplicate, Keyframe, KeyframeView, SelectionView, Style, StyleView, Texture, TextureView, UndoStates,
    UndoView,
};
use crate::state::{unselect_all, EditMode, ExportOptions, UiView, WindowView};
use crate::text::{decimal, push_decimal};

verus! {

/// Whether `e` is one of the events of this module.
pub open spec fn is_document_event(e: Events) -> bool {
    match e {
        Events::ToggleEditAlt | Events::ToggleEditModifying | Events::ToggleEditSnapping | Events::ToggleBakingIk
        | Events::ToggleExcludeIk | Events::SetExportImgFormat | Events::SetHoveringTri | Events::SetHoveringLine
        | Events::ToggleAnimPlaying | Events::ToggleStyleActive | Events::OpenExportModal | Events::NewArmature
        | Events::ImportPsdArmature | Events::SaveEditedBone | Events::NewStyle | Events::NewAnimation
        | Events::DuplicateAnim => true,
        _ => false,
    }
}

/// Whether `e` is one of the events of this module.
pub fn document_event(e: Events) -> (r: bool)
    ensures
        r == is_document_event(e),
{
    match e {
        Events::ToggleEditAlt | Events::ToggleEditModifying | Events::ToggleEditSnapping | Events::ToggleBakingIk
        | Events::ToggleExcludeIk | Events::SetExportImgFormat | Events::SetHoveringTri | Events::SetHoveringLine
        | Events::ToggleAnimPlaying | Events::ToggleStyleActive | Events::OpenExportModal | Events::NewArmature
        | Events::ImportPsdArmature | Events::SaveEditedBone | Events::NewStyle | Events::NewAnimation
        | Events::DuplicateAnim => true,
        _ => false,
    }
}

/// Whether the editor is recording edits into an animation: the animation
/// panel is open and an animation is selected.
pub open spec fn is_animating(em: EditMode, sel: SelectionView) -> bool {
    em.anim_open && sel.anim != usize::MAX
}

/// The ids of a list of styles, in order.
pub open spec fn style_ids(styles: Seq<StyleView>) -> Seq<i32> {
    styles.map_values(|st: StyleView| st.id)
}

/// The ids of a list of animations, in order.
pub open spec fn anim_ids(anims: Seq<AnimationView>) -> Seq<i32> {
    anims.map_values(|a: AnimationView| a.id)
}

/// An armature with nothing in it.
pub open spec fn empty_armature() -> ArmatureView {
    ArmatureView { bones: Seq::empty(), animations: Seq::empty(), styles: Seq::empty() }
}

/// Whether event `e` of this module, with numbers `v`, can be carried out:
/// what it reads exists, and a new id can still be made.
#[verifier::opaque]
pub open spec fn document_allowed(e: Events, v: Seq<i64>, ed: EditorView) -> bool {
    let arm = ed.armature;
    let sel = ed.selections;
    let i = index_of(v[0]);
    match e {
        Events::SetExportImgFormat => i <= u32::MAX,
        Events::ToggleAnimPlaying => i < arm.animations.len(),
        Events::ToggleStyleActive => i < arm.styles.len(),
        Events::SaveEditedBone => !ed.ui.window.edited_dragging ==> {
            &&& i < arm.bones.len()
            &&& is_animating(ed.edit_mode, sel) && !arm.bones[i as int].locked ==> sel.anim < arm.animations.len()
        },
        Events::NewStyle => arm.styles.len() < i32::MAX,
        Events::NewAnimation => arm.animations.len() < i32::MAX,
        Events::DuplicateAnim => anim_index(arm.animations, id_of(v[0])) >= 0 && arm.animations.len() < i32::MAX,
        _ => true,
    }
}

/// The editor with edit mode `em`.
pub open spec fn with_mode(ed: EditorView, em: EditMode) -> EditorView {
    EditorView { edit_mode: em, ..ed }
}

/// The editor with export options `x`.
pub open spec fn with_export(ed: EditorView, x: ExportOptions) -> EditorView {
    with_mode(ed, EditMode { export: x, ..ed.edit_mode })
}

/// What event `e` of this module, with numbers `v`, does to the editor.
#[verifier::opaque]
pub open spec fn document_effect(e: Events, v: Seq<i64>, ed: EditorView, after: EditorView) -> bool {
    let arm = ed.armature;
    let sel = ed.selections;
    let em = ed.edit_mode;
    let on = v[0] == 1;
    let i = index_of(v[0]);
    match e {
        Events::ToggleEditAlt => after == with_mode(ed, EditMode { editing_pivot: on, ..em }),
        Events::ToggleEditModifying => after == with_mode(ed, EditMode { holding_edit_mod: on, ..em }),
        Events::ToggleEditSnapping => after == with_mode(ed, EditMode { holding_edit_snap: on, ..em }),
        Events::ToggleBakingIk => after == with_export(ed, ExportOptions { bake_ik: on, ..em.export }),
        Events::ToggleExcludeIk => after == with_export(ed, ExportOptions { exclude_ik: on, ..em.export }),
        Events::SetExportImgFormat => after == with_export(ed, ExportOptions { img_format: i as u32, ..em.export }),
        Events::SetHoveringTri => after == EditorView {
            selections: SelectionView { hovering_tri_dur: id_of(v[0]), ..sel },
            ..ed
        },
        Events::SetHoveringLine => after == EditorView {
            selections: SelectionView { hovering_line_dur: id_of(v[0]), ..sel },
            ..ed
        },
        Events::ToggleAnimPlaying => after == EditorView {
            armature: ArmatureView {
                animations: arm.animations.update(
                    i as int,
                    AnimationView { playing: v[1] == 1, ..arm.animations[i as int] },
                ),
                ..arm
            },
            ..ed
        },
        Events::ToggleStyleActive => after == EditorView {
            armature: ArmatureView {
                styles: arm.styles.update(i as int, StyleView { active: !arm.styles[i as int].active, ..arm.styles[i as int] }),
                ..arm
            },
            ..ed
        },
        Events::OpenExportModal => after == EditorView {
            ui: UiView {
                window: WindowView {
                    export_modal: true,
                    exporting_anims: ed.ui.window.exporting_anims + Seq::new(arm.animations.len(), |k: int| true),
                    ..ed.ui.window
                },
                ..ed.ui
            },
            ..ed
        },
        Events::NewArmature => after == EditorView {
            armature: empty_armature(),
            selections: SelectionView {
                bone_idx: usize::MAX,
                bone_ids: Seq::empty(),
                anim_frame: -1i32,
                anim: usize::MAX,
                bind: -1i32,
                style_id: -1i32,
                ..sel
            },
            edit_mode: EditMode {
                showing_mesh: false,
                setting_ik_target: false,
                setting_bind_bone: false,
                anim_open: false,
                ..em
            },
            ui: UiView { last_selected: Seq::empty(), window: WindowView { changed_window_name: false, ..ed.ui.window }, ..ed.ui },
            ..ed
        },
        Events::ImportPsdArmature => after == EditorView {
            armature: ArmatureView { bones: ed.psd_armature.bones, styles: ed.psd_armature.styles, ..arm },
            psd_armature: empty_armature(),
            ..ed
        },
        Events::SaveEditedBone => if ed.ui.window.edited_dragging {
            after == ed
        } else {
            let bone = arm.bones[i as int];
            let snapshot = if is_animating(em, sel) && !bone.locked {
                saved(ActionType::Animation, Seq::empty(), seq![arm.animations[sel.anim as int]], Seq::empty())
            } else if sel.bone_ids.len() > 0 {
                saved(ActionType::Bones, arm.bones, Seq::empty(), Seq::empty())
            } else {
                saved(ActionType::Bone, seq![bone], Seq::empty(), Seq::empty())
            };
            after == pushed(EditorView { ui: UiView { window: WindowView { autosaving: true, ..ed.ui.window }, ..ed.ui }, ..ed }, snapshot)
        },
        Events::NewStyle => after == EditorView {
            armature: ArmatureView {
                styles: arm.styles.push(
                    StyleView { id: fresh_id(style_ids(arm.styles)), name: Seq::empty(), textures: Seq::empty(), active: true },
                ),
                ..arm
            },
            ui: UiView {
                rename_id: seq!['s', 't', 'y', 'l', 'e', '_'] + decimal(arm.styles.len()),
                just_made_style: true,
                ..ed.ui
            },
            ..ed
        },
        Events::NewAnimation => after == EditorView {
            armature: ArmatureView {
                animations: arm.animations.push(
                    AnimationView {
                        id: fresh_id(anim_ids(arm.animations)),
                        name: Seq::empty(),
                        fps: 60,
                        keyframes: Seq::empty(),
                        playing: false,
                    },
                ),
                ..arm
            },
            ui: UiView {
                rename_id: seq!['a', 'n', 'i', 'm', '_'] + decimal(arm.animations.len()),
                edit_value: Some(Seq::empty()),
                ..ed.ui
            },
            ..ed
        },
        Events::DuplicateAnim => after == EditorView {
            armature: ArmatureView {
                animations: arm.animations.push(
                    AnimationView {
                        id: fresh_id(anim_ids(arm.animations)),
                        ..arm.animations[anim_index(arm.animations, id_of(v[0]))]
                    },
                ),
                ..arm
            },
            ..ed
        },
        _ => after == ed,
    }
}

fn ids_of_styles(styles: &Vec<Style>) -> (r: Vec<i32>)
    ensures
        r@ == style_ids(views(styles@)),
{
    let mut r: Vec<i32> = Vec::new();
    let mut k: usize = 0;
    while k < styles.len()
        invariant
            k <= styles.len(),
            r@ == style_ids(views(styles@)).take(k as int),
        decreases styles.len() - k,
    {
        r.push(styles[k].id);
        k = k + 1;
        assert(r@ =~= style_ids(views(styles@)).take(k as int));
    }
    assert(r@ =~= style_ids(views(styles@)));
    r
}

fn ids_of_anims(anims: &Vec<Animation>) -> (r: Vec<i32>)
    ensures
        r@ == anim_ids(views(anims@)),
{
    let mut r: Vec<i32> = Vec::new();
    let mut k: usize = 0;
    while k < anims.len()
        invariant
            k <= anims.len(),
            r@ == anim_ids(views(anims@)).take(k as int),
        decreases anims.len() - k,
    {
        r.push(anims[k].id);
        k = k + 1;
        assert(r@ =~= anim_ids(views(anims@)).take(k as int));
    }
    assert(r@ =~= anim_ids(views(anims@)));
    r
}

/// `prefix` followed by the decimal digits of `n`.
fn numbered(prefix: &str, n: usize) -> (r: String)
    ensures
        r@ == prefix@ + decimal(n as nat),
{
    let mut r = String::from_str(prefix);
    push_decimal(&mut r, n);
    r
}

/// Saves for undo the snapshot that saving bone `i` after an edit takes.
fn save_edited(ed: &mut Editor, i: usize)
    requires
        i < old(ed).armature.bones.len(),
        is_animating(old(ed).edit_mode, old(ed).selections@) && !old(ed).armature.bones@[i as int].locked
            ==> old(ed).selections.anim < old(ed).armature.animations.len(),
    ensures
        ({
            let ed0 = old(ed)@;
            let bone = ed0.armature.bones[i as int];
            let snapshot = if is_animating(ed0.edit_mode, ed0.selections) && !bone.locked {
                saved(ActionType::Animation, Seq::empty(), seq![ed0.armature.animations[ed0.selections.anim as int]], Seq::empty())
            } else if ed0.selections.bone_ids.len() > 0 {
                saved(ActionType::Bones, ed0.armature.bones, Seq::empty(), Seq::empty())
            } else {
                saved(ActionType::Bone, seq![bone], Seq::empty(), Seq::empty())
            };
            final(ed)@ == pushed(ed0, snapshot)
        }),
{
    let ghost ed0 = ed@;
    let mut bones: Vec<Bone> = Vec::new();
    let mut anims: Vec<Animation> = Vec::new();
    let styles: Vec<Style> = Vec::new();
    let kind;
    if ed.edit_mode.anim_open && ed.selections.anim != usize::MAX && !ed.armature.bones[i].locked {
        anims.push(ed.armature.animations[ed.selections.anim].duplicate());
        kind = ActionType::Animation;
    } else if ed.selections.bone_ids.len() > 0 {
        bones = crate::model::duplicate_vec(&ed.armature.bones);
        kind = ActionType::Bones;
    } else {
        bones.push(ed.armature.bones[i].duplicate());
        kind = ActionType::Bone;
    }
    proof {
        if kind == ActionType::Animation {
            assert(views(anims@) =~= seq![ed0.armature.animations[ed0.selections.anim as int]]);
            assert(views(bones@) =~= Seq::<BoneView>::empty());
        } else if kind == ActionType::Bone {
            assert(views(bones@) =~= seq![ed0.armature.bones[i as int]]);
            assert(views(anims@) =~= Seq::<AnimationView>::empty());
        } else {
            assert(views(anims@) =~= Seq::<AnimationView>::empty());
        }
        assert(views(styles@) =~= Seq::<StyleView>::empty());
    }
    let ghost u0 = views(ed.undo_states.undo_actions@);
    ed.undo_states.undo_actions.push(Action { action: kind, bones, animations: anims, styles, continued: false });
    assert(views(ed.undo_states.undo_actions@) =~= u0.push(ed.undo_states.undo_actions@.last()@));
}

/// An armature with nothing in it.
fn new_armature() -> (a: Armature)
    ensures
        a@ == empty_armature(),
{
    let a = Armature { bones: Vec::new(), animations: Vec::new(), styles: Vec::new() };
    assert(views(a.bones@) =~= Seq::<BoneView>::empty());
    assert(views(a.animations@) =~= Seq::<AnimationView>::empty());
    assert(views(a.styles@) =~= Seq::<StyleView>::empty());
    a
}

/// Carries out event `e` of this module with numbers `values`.
pub fn apply_document_event(ed: &mut Editor, e: Events, values: &Vec<i64>)
    requires
        is_document_event(e),
        values.len() >= 1,
        e == Events::ToggleAnimPlaying ==> values.len() >= 2,
        document_allowed(e, values@, old(ed)@),
    ensures
        document_effect(e, values@, old(ed)@, final(ed)@),
{
    match e {
        Events::ToggleEditAlt => apply_toggle_edit_alt(ed, values),
        Events::ToggleEditModifying => apply_toggle_edit_modifying(ed, values),
        Events::ToggleEditSnapping => apply_toggle_edit_snapping(ed, values),
        Events::ToggleBakingIk => apply_toggle_baking_ik(ed, values),
        Events::ToggleExcludeIk => apply_toggle_exclude_ik(ed, values),
        Events::SetExportImgFormat => apply_set_export_img_format(ed, values),
        Events::SetHoveringTri => apply_set_hovering_tri(ed, values),
        Events::SetHoveringLine => apply_set_hovering_line(ed, values),
        Events::ToggleAnimPlaying => apply_toggle_anim_playing(ed, values),
        Events::ToggleStyleActive => apply_toggle_style_active(ed, values),
        Events::OpenExportModal => apply_open_export_modal(ed, values),
        Events::NewArmature => apply_new_armature(ed, values),
        Events::ImportPsdArmature => apply_import_psd_armature(ed, values),
        Events::SaveEditedBone => apply_save_edited_bone(ed, values),
        Events::NewStyle => apply_new_style(ed, values),
        Events::NewAnimation => apply_new_animation(ed, values),
        Events::DuplicateAnim => apply_duplicate_anim(ed, values),
        _ => {},
    }
}

fn apply_toggle_edit_alt(ed: &mut Editor, values: &Vec<i64>)
    requires
        values.len() >= 1,
        document_allowed(Events::ToggleEditAlt, values@, old(ed)@),
    ensures
        document_effect(Events::ToggleEditAlt, values@, old(ed)@, final(ed)@),
{
    proof {
        reveal(document_allowed);
        reveal(document_effect);
    }
    let v0 = values[0];
    let on = v0 == 1;
    ed.edit_mode.editing_pivot = on;
}

fn apply_toggle_edit_modifying(ed: &mut Editor, values: &Vec<i64>)
    requires
        values.len() >= 1,
        document_allowed(Events::ToggleEditModifying, values@, old(ed)@),
    ensures
        document_effect(Events::ToggleEditModifying, values@, old(ed)@, final(ed)@),
{
    proof {
        reveal(document_allowed);
        reveal(document_effect);
    }
    let v0 = values[0];
    let on = v0 == 1;
    ed.edit_mode.holding_edit_mod = on;
}

fn apply_toggle_edit_snapping(ed: &mut Editor, values: &Vec<i64>)
    requires
        values.len() >= 1,
        document_allowed(Events::ToggleEditSnapping, values@, old(ed)@),
    ensures
        document_effect(Events::ToggleEditSnapping, values@, old(ed)@, final(ed)@),
{
    proof {
        reveal(document_allowed);
        reveal(document_effect);
    }
    let v0 = values[0];
    let on = v0 == 1;
    ed.edit_mode.holding_edit_snap = on;
}

fn apply_toggle_baking_ik(ed: &mut Editor, values: &Vec<i64>)
    requires
        values.len() >= 1,
        document_allowed(Events::ToggleBakingIk, values@, old(ed)@),
    ensures
        document_effect(Events::ToggleBakingIk, values@, old(ed)@, final(ed)@),
{
    proof {
        reveal(document_allowed);
        reveal(document_effect);
    }
    let v0 = values[0];
    let on = v0 == 1;
    ed.edit_mode.export.bake_ik = on;
}

fn apply_toggle_exclude_ik(ed: &mut Editor, values: &Vec<i64>)
    requires
        values.len() >= 1,
        document_allowed(Events::ToggleExcludeIk, values@, old(ed)@),
    ensures
        document_effect(Events::ToggleExcludeIk, values@, old(ed)@, final(ed)@),
{
    proof {
        reveal(document_allowed);
        reveal(document_effect);
    }
    let v0 = values[0];
    let on = v0 == 1;
    ed.edit_mode.export.exclude_ik = on;
}

fn apply_set_export_img_format(ed: &mut Editor, values: &Vec<i64>)
    requires
        values.len() >= 1,
        document_allowed(Events::SetExportImgFormat, values@, old(ed)@),
    ensures
        document_effect(Events::SetExportImgFormat, values@, old(ed)@, final(ed)@),
{
    proof {
        reveal(document_allowed);
        reveal(document_effect);
    }
    let v0 = values[0];
    ed.edit_mode.export.img_format = to_index(v0) as u32;
}

fn apply_set_hovering_tri(ed: &mut Editor, values: &Vec<i64>)
    requires
        values.len() >= 1,
        document_allowed(Events::SetHoveringTri, values@, old(ed)@),
    ensures
        document_effect(Events::SetHoveringTri, values@, old(ed)@, final(ed)@),
{
    proof {
        reveal(document_allowed);
        reveal(document_effect);
    }
    let v0 = values[0];
    ed.selections.hovering_tri_dur = to_id(v0);
}

fn apply_set_hovering_line(ed: &mut Editor, values: &Vec<i64>)
    requires
        values.len() >= 1,
        document_allowed(Events::SetHoveringLine, values@, old(ed)@),
    ensures
        document_effect(Events::SetHoveringLine, values@, old(ed)@, final(ed)@),
{
    proof {
        reveal(document_allowed);
        reveal(document_effect);
    }
    let v0 = values[0];
    ed.selections.hovering_line_dur = to_id(v0);
}

fn apply_toggle_anim_playing(ed: &mut Editor, values: &Vec<i64>)
    requires
        values.len() >= 2,
        document_allowed(Events::ToggleAnimPlaying, values@, old(ed)@),
    ensures
        document_effect(Events::ToggleAnimPlaying, values@, old(ed)@, final(ed)@),
{
    proof {
        reveal(document_allowed);
        reveal(document_effect);
    }
    let ghost ed0 = ed@;
    let v0 = values[0];
    let i = to_index(v0);
    let mut a = ed.armature.animations[i].duplicate();
    a.playing = values[1] == 1;
    ed.armature.animations.set(i, a);
    assert(views(ed.armature.animations@) =~= ed0.armature.animations.update(
        i as int,
        AnimationView { playing: values@[1] == 1, ..ed0.armature.animations[i as int] },
    ));
}

fn apply_toggle_style_active(ed: &mut Editor, values: &Vec<i64>)
    requires
        values.len() >= 1,
        document_allowed(Events::ToggleStyleActive, values@, old(ed)@),
    ensures
        document_effect(Events::ToggleStyleActive, values@, old(ed)@, final(ed)@),
{
    proof {
        reveal(document_allowed);
        reveal(document_effect);
    }
    let ghost ed0 = ed@;
    let v0 = values[0];
    let i = to_index(v0);
    let mut st = ed.armature.styles[i].duplicate();
    st.active = !st.active;
    ed.armature.styles.set(i, st);
    assert(views(ed.armature.styles@) =~= ed0.armature.styles.update(
        i as int,
        StyleView { active: !ed0.armature.styles[i as int].active, ..ed0.armature.styles[i as int] },
    ));
}

fn apply_open_export_modal(ed: &mut Editor, values: &Vec<i64>)
    requires
        values.len() >= 1,
        document_allowed(Events::OpenExportModal, values@, old(ed)@),
    ensures
        document_effect(Events::OpenExportModal, values@, old(ed)@, final(ed)@),
{
    proof {
        reveal(document_allowed);
        reveal(document_effect);
    }
    let ghost ed0 = ed@;
    ed.ui.window.export_modal = true;
    let n = ed.armature.animations.len();
    let ghost x0 = ed.ui.window.exporting_anims@;
    let mut k: usize = 0;
    while k < n
        invariant
            k <= n,
            n == ed0.armature.animations.len(),
            ed.ui.window.exporting_anims@ == x0 + Seq::new(k as nat, |j: int| true),
            ed@ == (EditorView {
                ui: UiView { window: WindowView { export_modal: true, exporting_anims: ed.ui.window.exporting_anims@, ..ed0.ui.window }, ..ed0.ui },
                ..ed0
            }),
        decreases n - k,
    {
        ed.ui.window.exporting_anims.push(true);
        k = k + 1;
        assert(ed.ui.window.exporting_anims@ =~= x0 + Seq::new(k as nat, |j: int| true));
    }
}

#[verifier::rlimit(100)]
fn apply_new_armature(ed: &mut Editor, values: &Vec<i64>)
    requires
        values.len() >= 1,
        document_allowed(Events::NewArmature, values@, old(ed)@),
    ensures
        document_effect(Events::NewArmature, values@, old(ed)@, final(ed)@),
{
    proof {
        reveal(document_allowed);
        reveal(document_effect);
    }
    unselect_all(&mut ed.selections, &mut ed.edit_mode, &mut ed.ui);
    ed.edit_mode.anim_open = false;
    ed.ui.window.changed_window_name = false;
    ed.armature = new_armature();
}

fn apply_import_psd_armature(ed: &mut Editor, values: &Vec<i64>)
    requires
        values.len() >= 1,
        document_allowed(Events::ImportPsdArmature, values@, old(ed)@),
    ensures
        document_effect(Events::ImportPsdArmature, values@, old(ed)@, final(ed)@),
{
    proof {
        reveal(document_allowed);
        reveal(document_effect);
    }
    std::mem::swap(&mut ed.armature.bones, &mut ed.psd_armature.bones);
    std::mem::swap(&mut ed.armature.styles, &mut ed.psd_armature.styles);
    ed.psd_armature = new_armature();
}

fn apply_save_edited_bone(ed: &mut Editor, values: &Vec<i64>)
    requires
        values.len() >= 1,
        document_allowed(Events::SaveEditedBone, values@, old(ed)@),
    ensures
        document_effect(Events::SaveEditedBone, values@, old(ed)@, final(ed)@),
{
    proof {
        reveal(document_allowed);
        reveal(document_effect);
    }
    let v0 = values[0];
    if !ed.ui.window.edited_dragging {
        ed.ui.window.autosaving = true;
        save_edited(ed, to_index(v0));
    }
}

fn apply_new_style(ed: &mut Editor, values: &Vec<i64>)
    requires
        values.len() >= 1,
        document_allowed(Events::NewStyle, values@, old(ed)@),
    ensures
        document_effect(Events::NewStyle, values@, old(ed)@, final(ed)@),
{
    proof {
        reveal(document_allowed);
        reveal(document_effect);
    }
    let ghost ed0 = ed@;
    let ids = ids_of_styles(&ed.armature.styles);
    let id = generate_id(&ids);
    let n = ed.armature.styles.len();
    let textures: Vec<Texture> = Vec::new();
    assert(views(textures@) =~= Seq::<TextureView>::empty());
    ed.armature.styles.push(Style { id, name: String::new(), textures, active: true });
    proof {
        reveal_strlit("style_");
    }
    ed.ui.rename_id = numbered("style_", n);
    ed.ui.just_made_style = true;
    assert(views(ed.armature.styles@) =~= ed0.armature.styles.push(
        StyleView { id: fresh_id(style_ids(ed0.armature.styles)), name: Seq::empty(), textures: Seq::empty(), active: true },
    ));
    assert("style_"@ =~= seq!['s', 't', 'y', 'l', 'e', '_']);
}

fn apply_new_animation(ed: &mut Editor, values: &Vec<i64>)
    requires
        values.len() >= 1,
        document_allowed(Events::NewAnimation, values@, old(ed)@),
    ensures
        document_effect(Events::NewAnimation, values@, old(ed)@, final(ed)@),
{
    proof {
        reveal(document_allowed);
        reveal(document_effect);
    }
    let ghost ed0 = ed@;
    let ids = ids_of_anims(&ed.armature.animations);
    let id = generate_id(&ids);
    let n = ed.armature.animations.len();
    let keyframes: Vec<Keyframe> = Vec::new();
    assert(views(keyframes@) =~= Seq::<KeyframeView>::empty());
    ed.armature.animations.push(Animation { id, name: String::new(), fps: 60, keyframes, playing: false });
    proof {
        reveal_strlit("anim_");
    }
    ed.ui.rename_id = numbered("anim_", n);
    ed.ui.edit_value = Some(String::new());
    assert(views(ed.armature.animations@) =~= ed0.armature.animations.push(
        AnimationView {
            id: fresh_id(anim_ids(ed0.armature.animations)),
            name: Seq::empty(),
            fps: 60,
            keyframes: Seq::empty(),
            playing: false,
        },
    ));
    assert("anim_"@ =~= seq!['a', 'n', 'i', 'm', '_']);
}

fn apply_duplicate_anim(ed: &mut Editor, values: &Vec<i64>)
    requires
        values.len() >= 1,
        document_allowed(Events::DuplicateAnim, values@, old(ed)@),
    ensures
        document_effect(Events::DuplicateAnim, values@, old(ed)@, final(ed)@),
{
    proof {
        reveal(document_allowed);
        reveal(document_effect);
    }
    let ghost ed0 = ed@;
    let v0 = values[0];
    let k = find_anim(&ed.armature.animations, to_id(v0)).unwrap();
    let ids = ids_of_anims(&ed.armature.animations);
    let mut a = ed.armature.animations[k].duplicate();
    a.id = generate_id(&ids);
    ed.armature.animations.push(a);
    assert(views(ed.armature.animations@) =~= ed0.armature.animations.push(
        AnimationView {
            id: fresh_id(anim_ids(ed0.armature.animations)),
            ..ed0.armature.animations[anim_index(ed0.armature.animations, id_of(v0))]
        },
    ));
}

/// A new style, a new animation or a duplicated one is added at the end of
/// its list with an id that no style (animation) had before, and the ones
/// there before stay as they were; a duplicate has the keyframes, name and
/// frame rate of the animation it copies.
pub proof fn lemma_new_items_fresh(e: Events, v: Seq<i64>, ed: EditorView, after: EditorView)
    requires
        e == Events::NewStyle || e == Events::NewAnimation || e == Events::DuplicateAnim,
        document_allowed(e, v, ed),
        document_effect(e, v, ed, after),
    ensures
        ({
            let old_s = ed.armature.styles;
            let new_s = after.armature.styles;
            let old_a = ed.armature.animations;
            let new_a = after.armature.animations;
            &&& e == Events::NewStyle ==> {
                &&& new_s.len() == old_s.len() + 1
                &&& forall|j: int| 0 <= j < old_s.len() ==> #[trigger] new_s[j] == old_s[j] && new_s.last().id != old_s[j].id
                &&& new_s.last().id >= 0
                &&& new_s.last().textures.len() == 0
            }
            &&& e != Events::NewStyle ==> {
                &&& new_a.len() == old_a.len() + 1
                &&& forall|j: int| 0 <= j < old_a.len() ==> #[trigger] new_a[j] == old_a[j] && new_a.last().id != old_a[j].id
                &&& new_a.last().id >= 0
            }
            &&& e == Events::NewAnimation ==> new_a.last().keyframes.len() == 0
            &&& e == Events::DuplicateAnim ==> {
                let src = old_a[anim_index(old_a, id_of(v[0]))];
                &&& new_a.last().keyframes == src.keyframes
                &&& new_a.last().name == src.name
                &&& new_a.last().fps == src.fps
            }
        }),
{
    reveal(document_allowed);
    reveal(document_effect);
    let old_s = ed.armature.styles;
    let old_a = ed.armature.animations;
    if e == Events::NewStyle {
        let ids = style_ids(old_s);
        crate::model::lemma_fresh_id_exists(ids);
        assert forall|j: int| 0 <= j < old_s.len() implies fresh_id(ids) != old_s[j].id by {
            assert(ids[j] == old_s[j].id);
        }
    } else {
        let ids = anim_ids(old_a);
        crate::model::lemma_fresh_id_exists(ids);
        assert forall|j: int| 0 <= j < old_a.len() implies fresh_id(ids) != old_a[j].id by {
            assert(ids[j] == old_a[j].id);
        }
    }
}

} // verus!
