//! Editor state around the armature (interface flags, edit modes, held
//! modifier keys) and the selection logic that updates it.
use vstd::prelude::*;
use vstd::string::StringExecFns;
use crate::hierarchy::{ancestors, get_all_parents, has_root_chain, hierarchy_order, order_by_hierarchy};
use crate::model::{
    bone_index, find_bone, lemma_bone_index_same_ids, views, Armature, BoneView, Color, Duplicate,
    Keyframe, KeyframeView, SelectionState, SelectionView, Vec2,
};
use crate::text::{decimal, push_decimal, replace_all, replaced, str_equal};

verus! {

/// The transform tool in use.
#[derive(Clone, Copy, Debug, PartialEq, Eq, Structural)]
pub enum EditModes {
    Move,
    Rotate,
    Scale,
    Other,
}

/// How the armature is being edited.
#[derive(Clone, Copy, Debug, PartialEq, Eq, Structural)]
pub struct EditMode {
    pub current: EditModes,
    /// A tool chosen for as long as a key is held.
    pub temporary: Option<EditModes>,
    pub showing_mesh: bool,
    pub editing_mesh: bool,
    pub editing_pivot: bool,
    pub setting_ik_target: bool,
    pub setting_bind_bone: bool,
    pub anim_open: bool,
    pub onion_layers: bool,
    /// Bit pattern of the `f32` time since the last selection.
    pub sel_time: u32,
    /// Whether the modifier and snapping keys of the transform tools are held.
    pub holding_edit_mod: bool,
    pub holding_edit_snap: bool,
    pub export: ExportOptions,
}

/// How the armature is exported.
#[derive(Clone, Copy, Debug, PartialEq, Eq, Structural, Default)]
pub struct ExportOptions {
    pub bake_ik: bool,
    pub exclude_ik: bool,
    /// Number of the image format, in the order the formats are listed.
    pub img_format: u32,
    /// Bit patterns of the `f32` padding around each texture.
    pub tex_padding: Vec2,
    pub clear_color: Color,
}

/// The modifier keys held down.
#[derive(Clone, Copy, Debug, PartialEq, Eq, Structural)]
pub struct InputStates {
    pub holding_mod: bool,
    pub holding_shift: bool,
}

/// Interface state that the editing logic reads and writes.
#[derive(Clone, Debug)]
pub struct Ui {
    pub modal: bool,
    pub forced_modal: bool,
    pub headline: String,
    /// Text put in place of `$err` in a modal's headline.
    pub custom_error: String,
    /// What was selected last: "bone", "keyframe", "texture", "style" or "".
    pub last_selected: String,
    /// Id of the field being renamed, such as "bone_3".
    pub rename_id: String,
    pub edit_value: Option<String>,
    pub selected_bone_first_time: bool,
    pub selected_keyframes: Vec<Keyframe>,
    pub last_selected_frame: i32,
    pub just_made_style: bool,
    pub just_made_anim: bool,
    /// The keyframe being dragged in the timeline; frame -1 when none is.
    pub dragged_keyframe: Keyframe,
    /// Whether a mesh is being traced around the selected bone's texture.
    pub tracing: bool,
    /// Whether a yes/no modal is open, and which question it asks.
    pub polar_modal: bool,
    pub polar_id: i64,
    /// Whether a texture is being dragged between styles.
    pub dragging_tex: bool,
    pub window: WindowState,
}

/// The state of the editor's window around the panels.
#[derive(Clone, Debug)]
pub struct WindowState {
    /// Whether the export modal is open, and which animations it exports.
    pub export_modal: bool,
    pub exporting_anims: Vec<bool>,
    /// Whether a value is being changed by dragging its input.
    pub edited_dragging: bool,
    /// Whether the document is due to be saved automatically.
    pub autosaving: bool,
    /// Whether the window's title shows the document as changed.
    pub changed_window_name: bool,
    /// The bone last selected from the bone panel, whose name field keeps focus.
    pub prev_selected_bone_idx: usize,
}

pub struct WindowView {
    pub export_modal: bool,
    pub exporting_anims: Seq<bool>,
    pub edited_dragging: bool,
    pub autosaving: bool,
    pub changed_window_name: bool,
    pub prev_selected_bone_idx: usize,
}

impl View for WindowState {
    type V = WindowView;

    open spec fn view(&self) -> WindowView {
        WindowView {
            export_modal: self.export_modal,
            exporting_anims: self.exporting_anims@,
            edited_dragging: self.edited_dragging,
            autosaving: self.autosaving,
            changed_window_name: self.changed_window_name,
            prev_selected_bone_idx: self.prev_selected_bone_idx,
        }
    }
}

pub struct UiView {
    pub modal: bool,
    pub forced_modal: bool,
    pub headline: Seq<char>,
    pub custom_error: Seq<char>,
    pub last_selected: Seq<char>,
    pub rename_id: Seq<char>,
    pub edit_value: Option<Seq<char>>,
    pub selected_bone_first_time: bool,
    pub selected_keyframes: Seq<KeyframeView>,
    pub last_selected_frame: i32,
    pub just_made_style: bool,
    pub just_made_anim: bool,
    pub dragged_keyframe: KeyframeView,
    pub tracing: bool,
    pub polar_modal: bool,
    pub polar_id: i64,
    pub dragging_tex: bool,
    pub window: WindowView,
}

impl View for Ui {
    type V = UiView;

    open spec fn view(&self) -> UiView {
        UiView {
            modal: self.modal,
            forced_modal: self.forced_modal,
            headline: self.headline@,
            custom_error: self.custom_error@,
            last_selected: self.last_selected@,
            rename_id: self.rename_id@,
            edit_value: match self.edit_value {
                Some(s) => Some(s@),
                None => None,
            },
            selected_bone_first_time: self.selected_bone_first_time,
            selected_keyframes: views(self.selected_keyframes@),
            last_selected_frame: self.last_selected_frame,
            just_made_style: self.just_made_style,
            just_made_anim: self.just_made_anim,
            dragged_keyframe: self.dragged_keyframe@,
            tracing: self.tracing,
            polar_modal: self.polar_modal,
            polar_id: self.polar_id,
            dragging_tex: self.dragging_tex,
            window: self.window@,
        }
    }
}

/// Clears every selection.
pub fn unselect_all(selections: &mut SelectionState, edit_mode: &mut EditMode, ui: &mut Ui)
    ensures
        final(selections)@ == (SelectionView {
            bone_idx: usize::MAX,
            bone_ids: Seq::empty(),
            anim_frame: -1i32,
            anim: usize::MAX,
            bind: -1i32,
            style_id: -1i32,
            ..old(selections)@
        }),
        *final(edit_mode) == (EditMode {
            showing_mesh: false,
            setting_ik_target: false,
            setting_bind_bone: false,
            ..*old(edit_mode)
        }),
        final(ui)@ == (UiView { last_selected: Seq::empty(), ..old(ui)@ }),
{
    selections.bone_idx = usize::MAX;
    selections.bone_ids = Vec::new();
    selections.anim_frame = -1;
    selections.anim = usize::MAX;
    selections.bind = -1;
    selections.style_id = -1;
    edit_mode.showing_mesh = false;
    edit_mode.setting_ik_target = false;
    edit_mode.setting_bind_bone = false;
    ui.last_selected = String::new();
}

/// Opens a modal with `headline`, in which `$err` stands for the current
/// custom error text.
pub fn open_modal(ui: &mut Ui, forced: bool, headline: String)
    ensures
        final(ui)@ == (UiView {
            modal: true,
            forced_modal: forced,
            headline: replaced(headline@, seq!['$', 'e', 'r', 'r'], old(ui)@.custom_error),
            ..old(ui)@
        }),
{
    ui.modal = true;
    ui.forced_modal = forced;
    let pat = "$err";
    proof {
        reveal_strlit("$err");
    }
    assert(pat@ =~= seq!['$', 'e', 'r', 'r']);
    ui.headline = replace_all(headline.as_str(), pat, ui.custom_error.as_str());
}

/// The bones with every bone named by `ids` unfolded (looked up in turn).
pub open spec fn unfolded(bones: Seq<BoneView>, ids: Seq<i32>) -> Seq<BoneView>
    decreases ids.len(),
{
    if ids.len() == 0 {
        bones
    } else {
        let b = unfolded(bones, ids.drop_last());
        let i = bone_index(b, ids.last());
        b.update(i, BoneView { folded: false, ..b[i] })
    }
}

/// The ids of the bones at positions `lo` to `hi`, both included.
pub open spec fn ids_between(bones: Seq<BoneView>, lo: int, hi: int) -> Seq<i32> {
    Seq::new((hi - lo + 1) as nat, |k: int| bones[lo + k].id)
}

/// Whether each id of `ids` names a bone.
pub open spec fn all_exist(bones: Seq<BoneView>, ids: Seq<i32>) -> bool {
    forall|k: int| 0 <= k < ids.len() ==> bone_index(bones, #[trigger] ids[k]) >= 0
}

/// The selection that an added bone joins when a modifier key is held:
/// what was selected (or the bone alone, if nothing was), with the bone
/// itself (modifier key) or the bones between it and the selected one (shift).
pub open spec fn extended_ids(bones: Seq<BoneView>, sel: SelectionView, input: InputStates, idx: int) -> Seq<i32> {
    let ids0 = if sel.bone_idx == usize::MAX {
        seq![bones[idx].id]
    } else {
        sel.bone_ids
    };
    let b0: int = if sel.bone_idx == usize::MAX {
        idx
    } else {
        sel.bone_idx as int
    };
    if input.holding_mod {
        ids0.push(bones[idx].id)
    } else {
        ids0 + ids_between(bones, if b0 <= idx { b0 } else { idx }, if b0 <= idx { idx } else { b0 })
    }
}

/// Whether picking bone `idx` can go through: every bone it looks at exists.
pub open spec fn can_pick(sel: SelectionView, bones: Seq<BoneView>, em: EditMode, input: InputStates, idx: usize) -> bool {
    if em.setting_ik_target {
        sel.bone_idx < bones.len()
    } else if em.setting_bind_bone {
        true
    } else if !input.holding_mod && !input.holding_shift {
        has_root_chain(bones, bones[idx as int].id)
    } else {
        &&& (!input.holding_mod && sel.bone_idx != usize::MAX) ==> sel.bone_idx < bones.len()
        &&& extended_ids(bones, sel, input, idx as int).len() >= 2 ==> all_exist(
            bones,
            extended_ids(bones, sel, input, idx as int),
        )
    }
}

/// What picking bone `idx` does once it is not a rename: it becomes the IK
/// target or the bind bone when one is being chosen, and otherwise the
/// selection (alone, or added to it with a modifier key, or with the bones in
/// between with shift).
pub open spec fn picked_result(
    sel: SelectionView,
    bones: Seq<BoneView>,
    em: EditMode,
    input: InputStates,
    idx: usize,
) -> (SelectionView, Seq<BoneView>, EditMode, Option<i32>) {
    let id = bones[idx as int].id;
    if em.setting_ik_target {
        let s = sel.bone_idx as int;
        (
            sel,
            bones.update(s, BoneView { ik_target_id: id, ..bones[s] }),
            EditMode { setting_ik_target: false, ..em },
            None,
        )
    } else if em.setting_bind_bone {
        let s = sel.bone_idx as int;
        let b = sel.bind as usize as int;
        (
            sel,
            if s < bones.len() && b < bones[s].binds.len() {
                bones.update(
                    s,
                    BoneView {
                        binds: bones[s].binds.update(
                            b,
                            crate::model::BindView { bone_id: id, ..bones[s].binds[b] },
                        ),
                        ..bones[s]
                    },
                )
            } else {
                bones
            },
            EditMode { setting_bind_bone: false, ..em },
            None,
        )
    } else if !input.holding_mod && !input.holding_shift {
        (
            SelectionView { bind: -1i32, bone_idx: idx, bone_ids: seq![id], ..sel },
            unfolded(bones, ancestors(bones, id)),
            EditMode { showing_mesh: false, ..em },
            Some(id),
        )
    } else {
        let ids = extended_ids(bones, sel, input, idx as int);
        (
            SelectionView {
                bind: -1i32,
                bone_idx: if sel.bone_idx == usize::MAX {
                    idx
                } else {
                    sel.bone_idx
                },
                bone_ids: if ids.len() < 2 {
                    ids
                } else {
                    hierarchy_order(bones, ids)
                },
                ..sel
            },
            bones,
            em,
            Some(id),
        )
    }
}

/// Whether selecting bone `idx` can go through: every bone it looks at exists.
pub open spec fn can_select_bone(
    sel: SelectionView,
    ui: UiView,
    bones: Seq<BoneView>,
    em: EditMode,
    input: InputStates,
    idx: usize,
    from_renderer: bool,
) -> bool {
    idx == usize::MAX || {
        &&& idx < bones.len()
        &&& !(sel.bone_idx == idx && !from_renderer && ui.last_selected == seq!['b', 'o', 'n', 'e']) ==> {
            can_pick(sel, bones, em, input, idx)
        }
    }
}

/// The edit mode as any selection of a bone leaves it: no mesh shown or
/// edited, no timeline selection, nothing temporary, no pivot editing.
pub open spec fn cleared_edit_mode(em: EditMode) -> EditMode {
    EditMode {
        showing_mesh: false,
        editing_mesh: false,
        sel_time: 0,
        temporary: None,
        editing_pivot: false,
        ..em
    }
}

/// What selecting bone `idx` does: the selection, the interface, the bones,
/// the edit mode, and the id of the bone whose timeline row is to be brought
/// into view (if any).
#[verifier::opaque]
pub open spec fn select_bone_result(
    sel: SelectionView,
    ui: UiView,
    bones: Seq<BoneView>,
    em: EditMode,
    input: InputStates,
    idx: usize,
    from_renderer: bool,
) -> (SelectionView, UiView, Seq<BoneView>, EditMode, Option<i32>) {
    let em1 = cleared_edit_mode(em);
    let sel1 = SelectionView { vert_ids: Seq::empty(), ..sel };
    let ui1 = UiView { selected_bone_first_time: true, ..ui };
    if idx == usize::MAX {
        (
            SelectionView { bone_idx: usize::MAX, bone_ids: Seq::empty(), bind: -1i32, ..sel1 },
            ui1,
            bones,
            EditMode { setting_ik_target: false, setting_bind_bone: false, ..em1 },
            None,
        )
    } else if sel.bone_idx == idx && !from_renderer && ui.last_selected == seq!['b', 'o', 'n', 'e'] {
        // rename the bone if it was already selected in the side panel
        (
            sel1,
            UiView {
                rename_id: seq!['b', 'o', 'n', 'e', '_'] + decimal(idx as nat),
                edit_value: Some(bones[idx as int].name),
                ..ui1
            },
            bones,
            em1,
            None,
        )
    } else {
        let ui2 = UiView { last_selected: seq!['b', 'o', 'n', 'e'], ..ui1 };
        let r = picked_result(sel1, bones, em1, input, idx);
        (r.0, ui2, r.1, r.2, r.3)
    }
}

/// Unfolds, in turn, the first bone with each of the given ids.
fn unfold_bones(arm: &mut Armature, ids: &Vec<i32>)
    requires
        all_exist(views(old(arm).bones@), ids@),
    ensures
        views(final(arm).bones@) == unfolded(views(old(arm).bones@), ids@),
        final(arm).animations == old(arm).animations,
        final(arm).styles == old(arm).styles,
{
    let ghost b0 = views(arm.bones@);
    let mut k: usize = 0;
    while k < ids.len()
        invariant
            k <= ids.len(),
            all_exist(b0, ids@),
            views(arm.bones@) == unfolded(b0, ids@.subrange(0, k as int)),
            views(arm.bones@).len() == b0.len(),
            forall|j: int| 0 <= j < b0.len() ==> views(arm.bones@)[j].id == b0[j].id,
            arm.animations == old(arm).animations,
            arm.styles == old(arm).styles,
        decreases ids.len() - k,
    {
        let ghost cur = views(arm.bones@);
        proof {
            lemma_bone_index_same_ids(cur, b0, ids@[k as int]);
        }
        let i = find_bone(&arm.bones, ids[k]).unwrap();
        arm.bones[i].folded = false;
        assert(ids@.subrange(0, k + 1).drop_last() =~= ids@.subrange(0, k as int));
        assert(views(arm.bones@) =~= cur.update(i as int, BoneView { folded: false, ..cur[i as int] }));
        k = k + 1;
    }
    assert(ids@.subrange(0, ids@.len() as int) =~= ids@);
}

/// Points bind `b` of bone `s` at bone `id`, if both exist.
fn set_bind_bone(armature: &mut Armature, s: usize, b: usize, id: i32)
    ensures
        views(final(armature).bones@) == (if s < old(armature).bones@.len() && b < old(armature).bones@[s as int].binds@.len() {
            views(old(armature).bones@).update(
                s as int,
                BoneView {
                    binds: views(old(armature).bones@)[s as int].binds.update(
                        b as int,
                        crate::model::BindView { bone_id: id, ..views(old(armature).bones@)[s as int].binds[b as int] },
                    ),
                    ..views(old(armature).bones@)[s as int]
                },
            )
        } else {
            views(old(armature).bones@)
        }),
        final(armature).animations == old(armature).animations,
        final(armature).styles == old(armature).styles,
{
    let ghost b0 = views(armature.bones@);
    if s < armature.bones.len() && b < armature.bones[s].binds.len() {
        armature.bones[s].binds[b].bone_id = id;
        assert(views(armature.bones@[s as int].binds@) =~= b0[s as int].binds.update(
            b as int,
            crate::model::BindView { bone_id: id, ..b0[s as int].binds[b as int] },
        ));
        assert(views(armature.bones@) =~= b0.update(
            s as int,
            BoneView {
                binds: b0[s as int].binds.update(
                    b as int,
                    crate::model::BindView { bone_id: id, ..b0[s as int].binds[b as int] },
                ),
                ..b0[s as int]
            },
        ));
    }
}

/// Makes bone `idx` the only selected bone and unfolds its parents.
fn select_alone(sel: &mut SelectionState, armature: &mut Armature, idx: usize)
    requires
        idx < old(armature).bones.len(),
        has_root_chain(views(old(armature).bones@), old(armature).bones@[idx as int].id),
    ensures
        final(sel)@ == (SelectionView {
            bone_idx: idx,
            bone_ids: seq![old(armature).bones@[idx as int].id],
            ..old(sel)@
        }),
        views(final(armature).bones@) == unfolded(
            views(old(armature).bones@),
            ancestors(views(old(armature).bones@), old(armature).bones@[idx as int].id),
        ),
        final(armature).animations == old(armature).animations,
        final(armature).styles == old(armature).styles,
{
    let bone_id = armature.bones[idx].id;
    sel.bone_idx = idx;
    let mut ids: Vec<i32> = Vec::new();
    ids.push(bone_id);
    sel.bone_ids = ids;
    let parents = get_all_parents(&armature.bones, bone_id);
    proof {
        lemma_ancestors_exist(views(armature.bones@), bone_id);
    }
    unfold_bones(armature, &parents);
}

/// Adds bone `idx` (modifier key) or the bones between it and the selected
/// one (shift) to the selection, then orders the selection by the hierarchy.
fn select_extend(sel: &mut SelectionState, armature: &Armature, input: &InputStates, idx: usize)
    requires
        idx < armature.bones.len(),
        (!input.holding_mod && old(sel).bone_idx != usize::MAX) ==> old(sel).bone_idx
            < armature.bones.len(),
        extended_ids(views(armature.bones@), old(sel)@, *input, idx as int).len() >= 2 ==> all_exist(
            views(armature.bones@),
            extended_ids(views(armature.bones@), old(sel)@, *input, idx as int),
        ),
    ensures
        ({
            let ids = extended_ids(views(armature.bones@), old(sel)@, *input, idx as int);
            final(sel)@ == (SelectionView {
                bone_idx: if old(sel).bone_idx == usize::MAX {
                    idx
                } else {
                    old(sel).bone_idx
                },
                bone_ids: if ids.len() < 2 {
                    ids
                } else {
                    hierarchy_order(views(armature.bones@), ids)
                },
                ..old(sel)@
            })
        }),
{
    let ghost b0 = views(armature.bones@);
    let ghost sel0 = sel@;
    let bone_id = armature.bones[idx].id;
    if sel.bone_idx == usize::MAX {
        sel.bone_idx = idx;
        let mut ids: Vec<i32> = Vec::new();
        ids.push(bone_id);
        sel.bone_ids = ids;
    }
    let ghost ids0 = sel.bone_ids@;
    if input.holding_mod {
        sel.bone_ids.push(bone_id);
    } else {
        let mut first = sel.bone_idx;
        let mut second = idx;
        if first > second {
            first = idx;
            second = sel.bone_idx;
        }
        let mut i = first;
        while i <= second
            invariant
                first <= i <= second + 1,
                second < armature.bones.len(),
                b0 == views(armature.bones@),
                sel.bone_ids@ == ids0 + ids_between(b0, first as int, i - 1),
                sel.bone_idx == (if sel0.bone_idx == usize::MAX {
                    idx
                } else {
                    sel0.bone_idx
                }),
                sel@ == (SelectionView { bone_ids: sel.bone_ids@, bone_idx: sel.bone_idx, ..sel0 }),
            decreases second + 1 - i,
        {
            sel.bone_ids.push(armature.bones[i].id);
            assert(ids_between(b0, first as int, i as int) =~= ids_between(
                b0,
                first as int,
                i - 1,
            ).push(b0[i as int].id));
            i = i + 1;
        }
    }
    assert(sel.bone_ids@ =~= extended_ids(b0, sel0, *input, idx as int));
    assert(sel.bone_idx == (if sel0.bone_idx == usize::MAX {
        idx
    } else {
        sel0.bone_idx
    }));
    assert(sel@ == (SelectionView { bone_ids: sel.bone_ids@, bone_idx: sel.bone_idx, ..sel0 }));
    // sort bone IDs by their order in the hierarchy, without repeats
    if sel.bone_ids.len() >= 2 {
        let ordered = order_by_hierarchy(&armature.bones, &sel.bone_ids);
        sel.bone_ids = ordered;
    }
}

/// Picks bone `idx` once it is not a rename: as the IK target or bind bone
/// when one is being chosen, and otherwise as the selection.
fn pick_bone(
    sel: &mut SelectionState,
    armature: &mut Armature,
    edit_mode: &mut EditMode,
    input: &InputStates,
    idx: usize,
) -> (scroll_to: Option<i32>)
    requires
        idx < old(armature).bones.len(),
        can_pick(old(sel)@, views(old(armature).bones@), *old(edit_mode), *input, idx),
    ensures
        (final(sel)@, views(final(armature).bones@), *final(edit_mode), scroll_to)
            == picked_result(old(sel)@, views(old(armature).bones@), *old(edit_mode), *input, idx),
        final(armature).animations == old(armature).animations,
        final(armature).styles == old(armature).styles,
{
    let ghost sel0 = sel@;
    let ghost b0 = views(armature.bones@);
    // set this bone as IK target if in IK target mode
    if edit_mode.setting_ik_target {
        let target = armature.bones[idx].id;
        armature.bones[sel.bone_idx].ik_target_id = target;
        edit_mode.setting_ik_target = false;
        assert(views(armature.bones@) =~= b0.update(
            sel0.bone_idx as int,
            BoneView { ik_target_id: target, ..b0[sel0.bone_idx as int] },
        ));
        return None;
    }
    // set this bone as bind if in bind mode
    if edit_mode.setting_bind_bone {
        let id = armature.bones[idx].id;
        set_bind_bone(armature, sel.bone_idx, sel.bind as usize, id);
        edit_mode.setting_bind_bone = false;
        return None;
    }
    sel.bind = -1;
    let bone_id = armature.bones[idx].id;
    if !input.holding_mod && !input.holding_shift {
        // select only this bone
        select_alone(sel, armature, idx);
        edit_mode.showing_mesh = false;
    } else {
        select_extend(sel, armature, input, idx);
    }
    Some(bone_id)
}

/// Whether `s` is the label of the bone panel, "bone".
fn is_bone_label(s: &String) -> (r: bool)
    ensures
        r == (s@ == seq!['b', 'o', 'n', 'e']),
{
    proof {
        reveal_strlit("bone");
    }
    assert("bone"@ =~= seq!['b', 'o', 'n', 'e']);
    str_equal(s.as_str(), "bone")
}

/// The label of the bone panel, "bone".
fn bone_label() -> (s: String)
    ensures
        s@ == seq!['b', 'o', 'n', 'e'],
{
    proof {
        reveal_strlit("bone");
    }
    assert("bone"@ =~= seq!['b', 'o', 'n', 'e']);
    String::from_str("bone")
}

/// Starts renaming bone `idx`, whose name is `name`.
fn start_bone_rename(ui: &mut Ui, name: &String, idx: usize)
    ensures
        final(ui)@ == (UiView {
            rename_id: seq!['b', 'o', 'n', 'e', '_'] + decimal(idx as nat),
            edit_value: Some(name@),
            ..old(ui)@
        }),
{
    let mut rename = String::from_str("bone_");
    proof {
        reveal_strlit("bone_");
    }
    push_decimal(&mut rename, idx);
    assert(rename@ =~= seq!['b', 'o', 'n', 'e', '_'] + decimal(idx as nat));
    ui.rename_id = rename;
    ui.edit_value = Some(name.clone());
}

/// Selects bone `idx` (`usize::MAX` unselects): renames it if it was already
/// selected from the side panel, sets it as the IK target or bind bone when
/// one is being chosen, and otherwise makes it the selection (alone, or added
/// to it with a modifier key, or with the bones in between with shift). The
/// result is the id of the bone whose timeline row should be brought into view.
#[verifier::rlimit(100)]
#[verifier::spinoff_prover]
pub fn select_bone(
    sel: &mut SelectionState,
    ui: &mut Ui,
    armature: &mut Armature,
    edit_mode: &mut EditMode,
    input: &InputStates,
    idx: usize,
    from_renderer: bool,
) -> (scroll_to: Option<i32>)
    requires
        can_select_bone(
            old(sel)@,
            old(ui)@,
            views(old(armature).bones@),
            *old(edit_mode),
            *input,
            idx,
            from_renderer,
        ),
    ensures
        final(sel)@ == select_bone_result(old(sel)@, old(ui)@, views(old(armature).bones@), *old(edit_mode), *input, idx, from_renderer).0,
        final(ui)@ == select_bone_result(old(sel)@, old(ui)@, views(old(armature).bones@), *old(edit_mode), *input, idx, from_renderer).1,
        views(final(armature).bones@) == select_bone_result(old(sel)@, old(ui)@, views(old(armature).bones@), *old(edit_mode), *input, idx, from_renderer).2,
        *final(edit_mode) == select_bone_result(old(sel)@, old(ui)@, views(old(armature).bones@), *old(edit_mode), *input, idx, from_renderer).3,
        scroll_to == select_bone_result(old(sel)@, old(ui)@, views(old(armature).bones@), *old(edit_mode), *input, idx, from_renderer).4,
        final(armature).animations == old(armature).animations,
        final(armature).styles == old(armature).styles,
{
    let ghost sel0 = sel@;
    let ghost ui0 = ui@;
    let ghost em0 = *edit_mode;
    clear_for_selection(sel, ui, edit_mode);
    if idx == usize::MAX {
        sel.bone_idx = usize::MAX;
        sel.bone_ids = Vec::new();
        sel.bind = -1;
        edit_mode.setting_ik_target = false;
        edit_mode.setting_bind_bone = false;
        proof {
            reveal(select_bone_result);
        }
        return None;
    }
    // rename bone if already selected and in right-side panel
    if sel.bone_idx == idx && !from_renderer && is_bone_label(&ui.last_selected) {
        start_bone_rename(ui, &armature.bones[idx].name, idx);
        proof {
            reveal(select_bone_result);
        }
        return None;
    }
    ui.last_selected = bone_label();
    proof {
        reveal(select_bone_result);
        assert(sel@ == SelectionView { vert_ids: Seq::empty(), ..sel0 });
    }
    pick_bone(sel, armature, edit_mode, input, idx)
}

/// Clears what any selection of a bone clears.
fn clear_for_selection(sel: &mut SelectionState, ui: &mut Ui, edit_mode: &mut EditMode)
    ensures
        final(sel)@ == (SelectionView { vert_ids: Seq::empty(), ..old(sel)@ }),
        final(ui)@ == (UiView { selected_bone_first_time: true, ..old(ui)@ }),
        *final(edit_mode) == cleared_edit_mode(*old(edit_mode)),
{
    edit_mode.showing_mesh = false;
    edit_mode.editing_mesh = false;
    edit_mode.sel_time = 0;
    edit_mode.temporary = None;
    edit_mode.editing_pivot = false;
    sel.vert_ids = Vec::new();
    assert(sel.vert_ids@ =~= Seq::<usize>::empty());
    ui.selected_bone_first_time = true;
}

/// The ancestors of a bone with a root chain all exist.
proof fn lemma_ancestors_exist(bones: Seq<BoneView>, id: i32)
    requires
        has_root_chain(bones, id),
    ensures
        all_exist(bones, ancestors(bones, id)),
{
    lemma_ancestors_within_exist(bones, id, bones.len());
}

proof fn lemma_ancestors_within_exist(bones: Seq<BoneView>, id: i32, fuel: nat)
    requires
        crate::hierarchy::parent_chain_ok(bones, id, fuel),
    ensures
        all_exist(bones, crate::hierarchy::ancestors_within(bones, id, fuel)),
    decreases fuel,
{
    let p = bones[bone_index(bones, id)].parent_id;
    if fuel > 0 && p != -1 {
        lemma_ancestors_within_exist(bones, p, (fuel - 1) as nat);
        let rest = crate::hierarchy::ancestors_within(bones, p, (fuel - 1) as nat);
        let a = crate::hierarchy::ancestors_within(bones, id, fuel);
        assert(a == seq![p] + rest);
        assert forall|k: int| 0 <= k < a.len() implies bone_index(bones, #[trigger] a[k]) >= 0 by {
            if k > 0 {
                assert(a[k] == rest[k - 1]);
            }
        }
    }
}

/// Selecting bone `idx` (when it is not a rename, and no IK target or bind
/// bone is being chosen) clears the chosen bind and brings the bone's row
/// into view, and the bone is then selected. A plain click selects it alone;
/// with the modifier key it is added, and every existing bone that was
/// selected stays selected; with shift, every bone between the selected one
/// and it is selected too.
pub proof fn lemma_select_bone_selects(
    sel: SelectionView,
    ui: UiView,
    bones: Seq<BoneView>,
    em: EditMode,
    input: InputStates,
    idx: usize,
    from_renderer: bool,
)
    requires
        can_select_bone(sel, ui, bones, em, input, idx, from_renderer),
        idx != usize::MAX,
        !(sel.bone_idx == idx && !from_renderer && ui.last_selected == seq!['b', 'o', 'n', 'e']),
        !em.setting_ik_target,
        !em.setting_bind_bone,
    ensures
        ({
            let r = select_bone_result(sel, ui, bones, em, input, idx, from_renderer);
            let id = bones[idx as int].id;
            let ids = r.0.bone_ids;
            let b0: int = if sel.bone_idx == usize::MAX { idx as int } else { sel.bone_idx as int };
            &&& r.4 == Some(id)
            &&& r.0.bind == -1
            &&& ids.contains(id)
            &&& !input.holding_mod && !input.holding_shift ==> ids == seq![id] && r.0.bone_idx == idx
            &&& input.holding_mod ==> forall|x: i32|
                sel.bone_idx != usize::MAX && #[trigger] sel.bone_ids.contains(x) && bone_index(bones, x) >= 0
                    ==> ids.contains(x)
            &&& !input.holding_mod && input.holding_shift ==> forall|j: int|
                (b0 <= j <= idx || idx <= j <= b0) ==> ids.contains(#[trigger] bones[j].id)
        }),
{
    reveal(select_bone_result);
    let id = bones[idx as int].id;
    let sel1 = SelectionView { vert_ids: Seq::empty(), ..sel };
    let r = select_bone_result(sel, ui, bones, em, input, idx, from_renderer);
    assert(r.0 == picked_result(sel1, bones, cleared_edit_mode(em), input, idx).0);
    assert(extended_ids(bones, sel1, input, idx as int) == extended_ids(bones, sel, input, idx as int));
    crate::model::lemma_bone_index_found(bones, id, idx as int);
    if input.holding_mod || input.holding_shift {
        let e = extended_ids(bones, sel, input, idx as int);
        assert(r.0.bone_ids == if e.len() < 2 { e } else { hierarchy_order(bones, e) });
        crate::hierarchy::lemma_hierarchy_order(bones, e);
        let b0: int = if sel.bone_idx == usize::MAX { idx as int } else { sel.bone_idx as int };
        let ids0 = if sel.bone_idx == usize::MAX { seq![id] } else { sel.bone_ids };
        if input.holding_mod {
            assert(e == ids0.push(id));
            assert(e[ids0.len() as int] == id);
            assert forall|x: i32|
                sel.bone_idx != usize::MAX && #[trigger] sel.bone_ids.contains(x) && bone_index(bones, x) >= 0
                    implies e.contains(x) by {
                let w = choose|w: int| 0 <= w < sel.bone_ids.len() && sel.bone_ids[w] == x;
                assert(e[w] == x);
            }
            assert forall|x: i32|
                sel.bone_idx != usize::MAX && #[trigger] sel.bone_ids.contains(x) && bone_index(bones, x) >= 0
                    implies r.0.bone_ids.contains(x) by {
                assert(e.contains(x));
                if e.len() >= 2 {
                    assert(hierarchy_order(bones, e).contains(x));
                }
            }
            assert(r.0.bone_ids.contains(id)) by {
                assert(e.contains(id));
                if e.len() >= 2 {
                    assert(hierarchy_order(bones, e).contains(id));
                }
            }
        } else {
            let lo = if b0 <= idx { b0 } else { idx as int };
            let hi = if b0 <= idx { idx as int } else { b0 };
            let between = ids_between(bones, lo, hi);
            assert(e == ids0 + between);
            assert forall|j: int| (b0 <= j <= idx || idx <= j <= b0) implies e.contains(#[trigger] bones[j].id) by {
                assert(between[j - lo] == bones[j].id);
                assert(e[ids0.len() + j - lo] == bones[j].id);
                crate::model::lemma_bone_index_found(bones, bones[j].id, j);
            }
            assert(e[ids0.len() + idx - lo] == id);
            assert forall|j: int| (b0 <= j <= idx || idx <= j <= b0) implies r.0.bone_ids.contains(#[trigger] bones[j].id) by {
                assert(e.contains(bones[j].id));
                crate::model::lemma_bone_index_found(bones, bones[j].id, j);
                if e.len() >= 2 {
                    assert(hierarchy_order(bones, e).contains(bones[j].id));
                }
            }
            assert(r.0.bone_ids.contains(id)) by {
                assert(e.contains(id));
                if e.len() >= 2 {
                    assert(hierarchy_order(bones, e).contains(id));
                }
            }
        }
    }
    if !input.holding_mod && !input.holding_shift {
        assert(r.0.bone_ids[0] == id);
    }
}

} // verus!
