//! What the editor's events do to the armature and the selection, for the
//! events whose arguments are ids, indices and flags.
use vstd::prelude::*;
use vstd::string::StringExecFns;
use crate::model::{
    views, AnimElement, AnimationView, Armature, ArmatureView, BoneView, Duplicate, Keyframe,
    KeyframeView, SelectionState, SelectionView, Style, StyleView, TextureView, find_bone,
    bone_index, style_index, find_style,
};
use crate::state::{open_modal, InputStates, Ui, UiView};
use crate::text::{replaced, str_equal, trim, trimmed_end, trimmed_start};

verus! {

/// A pattern of keyframes: each field given must match.
pub struct KeyframePattern {
    pub frame: Option<i32>,
    pub bone_id: Option<i32>,
    pub element: Option<AnimElement>,
}

pub open spec fn matches_pattern(kf: KeyframeView, pat: KeyframePattern) -> bool {
    &&& (pat.frame matches Some(f) ==> kf.frame == f)
    &&& (pat.bone_id matches Some(b) ==> kf.bone_id == b)
    &&& (pat.element matches Some(e) ==> kf.element == e)
}

/// The keyframes that do not match the pattern, in order.
pub open spec fn without_matching(s: Seq<KeyframeView>, pat: KeyframePattern) -> Seq<KeyframeView>
    decreases s.len(),
{
    if s.len() == 0 {
        s
    } else {
        let r = without_matching(s.drop_last(), pat);
        if matches_pattern(s.last(), pat) {
            r
        } else {
            r.push(s.last())
        }
    }
}

/// Removes the keyframes that match the pattern.
pub fn remove_matching(kfs: &mut Vec<Keyframe>, pat: &KeyframePattern)
    ensures
        views(final(kfs)@) == without_matching(views(old(kfs)@), *pat),
{
    let mut all: Vec<Keyframe> = Vec::new();
    std::mem::swap(&mut all, kfs);
    let ghost a = views(all@);
    let mut i: usize = 0;
    while i < all.len()
        invariant
            i <= all@.len(),
            a == views(all@),
            views(kfs@) == without_matching(a.subrange(0, i as int), *pat),
        decreases all@.len() - i,
    {
        let kf = &all[i];
        let m = (match pat.frame {
            Some(f) => kf.frame == f,
            None => true,
        }) && (match pat.bone_id {
            Some(b) => kf.bone_id == b,
            None => true,
        }) && (match pat.element {
            Some(e) => kf.element == e,
            None => true,
        });
        assert(m == matches_pattern(a[i as int], *pat));
        if !m {
            kfs.push(all[i].duplicate());
        }
        assert(a.subrange(0, i + 1).drop_last() =~= a.subrange(0, i as int));
        i = i + 1;
    }
    assert(a.subrange(0, a.len() as int) =~= a);
}

/// The armature with the keyframes of animation `a` replaced.
pub open spec fn with_keyframes(arm: ArmatureView, a: int, kfs: Seq<KeyframeView>) -> ArmatureView {
    ArmatureView {
        animations: arm.animations.update(a, AnimationView { keyframes: kfs, ..arm.animations[a] }),
        ..arm
    }
}

/// Removes from the selected animation the keyframes that match the pattern.
fn remove_matching_in_selected(armature: &mut Armature, selections: &SelectionState, pat: &KeyframePattern)
    requires
        selections.anim < old(armature).animations.len(),
    ensures
        final(armature)@ == with_keyframes(
            old(armature)@,
            selections.anim as int,
            without_matching(old(armature)@.animations[selections.anim as int].keyframes, *pat),
        ),
        final(armature).animations@.len() == old(armature).animations@.len(),
{
    let a = selections.anim;
    let ghost arm0 = armature@;
    remove_matching(&mut armature.animations[a].keyframes, pat);
    assert(views(armature.animations@) =~= with_keyframes(
        arm0,
        a as int,
        without_matching(arm0.animations[a as int].keyframes, *pat),
    ).animations);
}

/// Deletes the keyframes of the selected animation on frame `frame`.
pub fn delete_keyframes_by_frame(armature: &mut Armature, selections: &SelectionState, frame: i32)
    requires
        selections.anim < old(armature).animations.len(),
    ensures
        final(armature)@ == with_keyframes(
            old(armature)@,
            selections.anim as int,
            without_matching(
                old(armature)@.animations[selections.anim as int].keyframes,
                KeyframePattern { frame: Some(frame), bone_id: None, element: None },
            ),
        ),
{
    let pat = KeyframePattern { frame: Some(frame), bone_id: None, element: None };
    remove_matching_in_selected(armature, selections, &pat);
}

/// Deletes the keyframes of the selected animation for one bone and element
/// (a line of the keyframe editor).
pub fn delete_keyframe_line(
    armature: &mut Armature,
    selections: &SelectionState,
    bone_id: i32,
    element: AnimElement,
)
    requires
        selections.anim < old(armature).animations.len(),
    ensures
        final(armature)@ == with_keyframes(
            old(armature)@,
            selections.anim as int,
            without_matching(
                old(armature)@.animations[selections.anim as int].keyframes,
                KeyframePattern { frame: None, bone_id: Some(bone_id), element: Some(element) },
            ),
        ),
{
    let pat = KeyframePattern { frame: None, bone_id: Some(bone_id), element: Some(element) };
    remove_matching_in_selected(armature, selections, &pat);
}

/// The keyframes left once, for each selected keyframe in turn, those on its
/// frame, element and bone are removed.
pub open spec fn without_selected(s: Seq<KeyframeView>, selected: Seq<KeyframeView>) -> Seq<KeyframeView>
    decreases selected.len(),
{
    if selected.len() == 0 {
        s
    } else {
        let skf = selected.last();
        without_matching(
            without_selected(s, selected.drop_last()),
            KeyframePattern {
                frame: Some(skf.frame),
                bone_id: Some(skf.bone_id),
                element: Some(skf.element),
            },
        )
    }
}

/// Deletes from the selected animation every keyframe on the frame, element
/// and bone of a selected keyframe.
pub fn delete_selected_keyframes(armature: &mut Armature, selections: &SelectionState, ui: &Ui)
    requires
        ui.selected_keyframes.len() > 0 ==> selections.anim < old(armature).animations.len(),
    ensures
        ui.selected_keyframes.len() == 0 ==> final(armature)@ == old(armature)@,
        ui.selected_keyframes.len() > 0 ==> final(armature)@ == with_keyframes(
            old(armature)@,
            selections.anim as int,
            without_selected(
                old(armature)@.animations[selections.anim as int].keyframes,
                ui@.selected_keyframes,
            ),
        ),
{
    let ghost arm0 = armature@;
    let ghost sel = ui@.selected_keyframes;
    let mut k: usize = 0;
    while k < ui.selected_keyframes.len()
        invariant
            k <= sel.len(),
            sel == views(ui.selected_keyframes@),
            sel.len() > 0 ==> selections.anim < arm0.animations.len(),
            sel.len() > 0 ==> selections.anim < armature.animations@.len(),
            k == 0 ==> armature@ == arm0,
            k > 0 ==> armature@ == with_keyframes(
                arm0,
                selections.anim as int,
                without_selected(arm0.animations[selections.anim as int].keyframes, sel.subrange(0, k as int)),
            ),
        decreases sel.len() - k,
    {
        let skf = &ui.selected_keyframes[k];
        let pat = KeyframePattern {
            frame: Some(skf.frame),
            bone_id: Some(skf.bone_id),
            element: Some(skf.element),
        };
        let ghost before = armature@;
        remove_matching_in_selected(armature, selections, &pat);
        proof {
            let a = selections.anim as int;
            let s1 = sel.subrange(0, k + 1);
            assert(s1.drop_last() =~= sel.subrange(0, k as int));
            if k == 0 {
                assert(sel.subrange(0, 0) =~= Seq::<KeyframeView>::empty());
            }
            assert(armature@.animations =~= with_keyframes(
                arm0,
                a,
                without_selected(arm0.animations[a].keyframes, s1),
            ).animations);
        }
        k = k + 1;
    }
    proof {
        if sel.len() > 0 {
            assert(sel.subrange(0, sel.len() as int) =~= sel);
        }
    }
}

/// Raises bone `bone_id` one step in the drawing order: it, and every
/// textured bone drawn above it, move up by one.
pub fn raise_global_zindex(armature: &mut Armature, bone_id: i32)
    requires
        bone_index(views(old(armature).bones@), bone_id) >= 0,
        forall|j: int|
            0 <= j < old(armature).bones@.len() && (j == bone_index(views(old(armature).bones@), bone_id) || (
            #[trigger] old(armature).bones@[j].zindex > old(armature).bones@[bone_index(
                views(old(armature).bones@),
                bone_id,
            )].zindex && old(armature).bones@[j].tex@.len() != 0)) ==> old(armature).bones@[j].zindex < i32::MAX,
    ensures
        ({
            let b0 = views(old(armature).bones@);
            let i = bone_index(b0, bone_id);
            let z = b0[i].zindex;
            &&& views(final(armature).bones@) == Seq::new(
                b0.len(),
                |j: int|
                    if j == i || (b0[j].zindex > z && b0[j].tex.len() != 0) {
                        BoneView { zindex: (b0[j].zindex + 1) as i32, ..b0[j] }
                    } else {
                        b0[j]
                    },
            )
            &&& final(armature).animations == old(armature).animations
            &&& final(armature).styles == old(armature).styles
        }),
{
    let ghost b0 = views(armature.bones@);
    let i = find_bone(&armature.bones, bone_id).unwrap();
    let z = armature.bones[i].zindex;
    let mut j: usize = 0;
    while j < armature.bones.len()
        invariant
            j <= armature.bones@.len(),
            armature.bones@.len() == b0.len(),
            i < b0.len(),
            z == b0[i as int].zindex,
            forall|k: int|
                0 <= k < b0.len() && (k == i || (#[trigger] b0[k].zindex > z && b0[k].tex.len() != 0))
                    ==> b0[k].zindex < i32::MAX,
            forall|k: int|
                0 <= k < j ==> #[trigger] views(armature.bones@)[k] == if b0[k].zindex > z
                    && b0[k].tex.len() != 0 {
                    BoneView { zindex: (b0[k].zindex + 1) as i32, ..b0[k] }
                } else {
                    b0[k]
                },
            forall|k: int| j <= k < b0.len() ==> #[trigger] views(armature.bones@)[k] == b0[k],
            armature.animations == old(armature).animations,
            armature.styles == old(armature).styles,
        decreases armature.bones@.len() - j,
    {
        assert(views(armature.bones@)[j as int] == b0[j as int]);
        if armature.bones[j].zindex > z && !armature.bones[j].tex.as_str().is_empty() {
            assert(b0[j as int].zindex < i32::MAX);
            let ghost before = views(armature.bones@);
            armature.bones[j].zindex = armature.bones[j].zindex + 1;
            assert forall|k: int| 0 <= k < b0.len() && k != j implies #[trigger] views(armature.bones@)[k] == before[k] by {}
        }
        j = j + 1;
    }
    assert(views(armature.bones@)[i as int] == b0[i as int]);
    let ghost before = views(armature.bones@);
    proof {
        assert forall|j: int| 0 <= j < before.len() implies before[j].id == b0[j].id by {
            assert(before[j] == views(armature.bones@)[j]);
        }
        lemma_bone_index_same_ids_zindex(before, b0, bone_id);
    }
    let k = find_bone(&armature.bones, bone_id).unwrap();
    assert(k == i);
    assert(before[i as int] == b0[i as int]);
    assert(b0[i as int].zindex < i32::MAX);
    armature.bones[k].zindex = armature.bones[k].zindex + 1;
    assert(views(armature.bones@) =~= Seq::new(
        b0.len(),
        |j: int|
            if j == i || (b0[j].zindex > z && b0[j].tex.len() != 0) {
                BoneView { zindex: (b0[j].zindex + 1) as i32, ..b0[j] }
            } else {
                b0[j]
            },
    ));
}

proof fn lemma_bone_index_same_ids_zindex(b1: Seq<BoneView>, b2: Seq<BoneView>, id: i32)
    requires
        b1.len() == b2.len(),
        forall|j: int| 0 <= j < b1.len() ==> b1[j].id == b2[j].id,
    ensures
        bone_index(b1, id) == bone_index(b2, id),
{
    crate::model::lemma_bone_index_same_ids(b1, b2, id);
}

/// Moves every IK family id above `value` down by one.
pub fn reduce_global_ik_family_ids(armature: &mut Armature, value: i32)
    ensures
        views(final(armature).bones@) == views(old(armature).bones@).map_values(
            |b: BoneView|
                if b.ik_family_id > value {
                    BoneView { ik_family_id: (b.ik_family_id - 1) as i32, ..b }
                } else {
                    b
                },
        ),
        final(armature).animations == old(armature).animations,
        final(armature).styles == old(armature).styles,
{
    let ghost b0 = views(armature.bones@);
    let mut j: usize = 0;
    while j < armature.bones.len()
        invariant
            j <= armature.bones@.len(),
            armature.bones@.len() == b0.len(),
            forall|k: int|
                0 <= k < j ==> #[trigger] views(armature.bones@)[k] == if b0[k].ik_family_id > value {
                    BoneView { ik_family_id: (b0[k].ik_family_id - 1) as i32, ..b0[k] }
                } else {
                    b0[k]
                },
            forall|k: int| j <= k < b0.len() ==> #[trigger] views(armature.bones@)[k] == b0[k],
            armature.animations == old(armature).animations,
            armature.styles == old(armature).styles,
        decreases armature.bones@.len() - j,
    {
        assert(views(armature.bones@)[j as int] == b0[j as int]);
        if armature.bones[j].ik_family_id > value {
            let ghost before = views(armature.bones@);
            armature.bones[j].ik_family_id = armature.bones[j].ik_family_id - 1;
            assert forall|k: int| 0 <= k < b0.len() && k != j implies #[trigger] views(armature.bones@)[k] == before[k] by {}
        }
        j = j + 1;
    }
    assert(views(armature.bones@) =~= b0.map_values(
        |b: BoneView|
            if b.ik_family_id > value {
                BoneView { ik_family_id: (b.ik_family_id - 1) as i32, ..b }
            } else {
                b
            },
    ));
}

/// Moves animation `drag` to where animation `hov` is (the list being one
/// shorter once it is taken out) and selects it there.
pub fn move_animation(armature: &mut Armature, selections: &mut SelectionState, drag: usize, hov: usize)
    requires
        drag < old(armature).animations.len(),
        (if hov > drag { hov - 1 } else { hov as int }) < old(armature).animations.len(),
    ensures
        ({
            let anims = old(armature)@.animations;
            let h = if hov > drag { (hov - 1) as usize } else { hov };
            &&& final(armature)@ == (ArmatureView {
                animations: anims.remove(drag as int).insert(h as int, anims[drag as int]),
                ..old(armature)@
            })
            &&& final(selections)@ == (SelectionView { anim: h, ..old(selections)@ })
        }),
{
    let ghost a0 = views(armature.animations@);
    let anim = armature.animations[drag].duplicate();
    armature.animations.remove(drag);
    let mut h = hov;
    // the animation ends up below the target if the target index isn't adjusted
    if h > drag {
        h = h - 1;
    }
    armature.animations.insert(h, anim);
    assert(views(armature.animations@) =~= a0.remove(drag as int).insert(h as int, a0[drag as int]));
    selections.anim = h;
}

/// The position of the selected style (the first with the selected id).
pub open spec fn sel_style_index(arm: ArmatureView, sel: SelectionView) -> int {
    style_index(arm.styles, sel.style_id)
}

/// The armature with the textures of style `si` replaced.
pub open spec fn with_textures(arm: ArmatureView, si: int, t: Seq<TextureView>) -> ArmatureView {
    ArmatureView { styles: arm.styles.update(si, StyleView { textures: t, ..arm.styles[si] }), ..arm }
}

/// Moves texture `from` of the selected style to position `to`.
pub fn move_texture(armature: &mut Armature, selections: &SelectionState, to: usize, from: usize)
    requires
        sel_style_index(old(armature)@, selections@) >= 0,
        from < old(armature)@.styles[sel_style_index(old(armature)@, selections@)].textures.len(),
        to < old(armature)@.styles[sel_style_index(old(armature)@, selections@)].textures.len(),
    ensures
        ({
            let si = sel_style_index(old(armature)@, selections@);
            let t = old(armature)@.styles[si].textures;
            final(armature)@ == with_textures(old(armature)@, si, t.remove(from as int).insert(to as int, t[from as int]))
        }),
{
    let ghost arm0 = armature@;
    let si = find_style(&armature.styles, selections.style_id).unwrap();
    let ghost t0 = arm0.styles[si as int].textures;
    let tex = armature.styles[si].textures[from].duplicate();
    armature.styles[si].textures.remove(from);
    armature.styles[si].textures.insert(to, tex);
    assert(views(armature.styles@[si as int].textures@) =~= t0.remove(from as int).insert(to as int, t0[from as int]));
    assert(views(armature.styles@) =~= with_textures(arm0, si as int, t0.remove(from as int).insert(to as int, t0[from as int])).styles);
}

/// Moves texture `from` of the selected style to the end of style `to_style`.
pub fn migrate_texture(armature: &mut Armature, selections: &SelectionState, from: usize, to_style: usize)
    requires
        sel_style_index(old(armature)@, selections@) >= 0,
        from < old(armature)@.styles[sel_style_index(old(armature)@, selections@)].textures.len(),
        to_style < old(armature)@.styles.len(),
    ensures
        ({
            let si = sel_style_index(old(armature)@, selections@);
            let t = old(armature)@.styles[si].textures;
            let a1 = with_textures(old(armature)@, si, t.remove(from as int));
            final(armature)@ == with_textures(a1, to_style as int, a1.styles[to_style as int].textures.push(t[from as int]))
        }),
{
    let ghost arm0 = armature@;
    let si = find_style(&armature.styles, selections.style_id).unwrap();
    let ghost t0 = arm0.styles[si as int].textures;
    let tex = armature.styles[si].textures[from].duplicate();
    armature.styles[si].textures.remove(from);
    assert(views(armature.styles@[si as int].textures@) =~= t0.remove(from as int));
    assert(views(armature.styles@) =~= with_textures(arm0, si as int, t0.remove(from as int)).styles);
    let ghost a1 = armature@;
    let ghost t1 = a1.styles[to_style as int].textures;
    armature.styles[to_style].textures.push(tex);
    assert(views(armature.styles@[to_style as int].textures@) =~= t1.push(t0[from as int]));
    assert(views(armature.styles@) =~= with_textures(a1, to_style as int, t1.push(t0[from as int])).styles);
}

/// Swaps styles `a` and `b`.
pub fn move_style(armature: &mut Armature, a: usize, b: usize)
    requires
        a < old(armature).styles.len(),
        b < old(armature).styles.len(),
    ensures
        final(armature)@ == (ArmatureView {
            styles: old(armature)@.styles.update(a as int, old(armature)@.styles[b as int]).update(
                b as int,
                old(armature)@.styles[a as int],
            ),
            ..old(armature)@
        }),
{
    let ghost s0 = views(armature.styles@);
    let sa = armature.styles[a].duplicate();
    let sb = armature.styles[b].duplicate();
    armature.styles.set(a, sb);
    armature.styles.set(b, sa);
    assert(views(armature.styles@) =~= s0.update(a as int, s0[b as int]).update(b as int, s0[a as int]));
}

/// `s` without the values equal to `x`, in order.
pub open spec fn without_value(s: Seq<i32>, x: i32) -> Seq<i32>
    decreases s.len(),
{
    if s.len() == 0 {
        s
    } else {
        let r = without_value(s.drop_last(), x);
        if s.last() == x {
            r
        } else {
            r.push(s.last())
        }
    }
}

/// `s` (ascending) with `x` put after the values not greater than it.
pub open spec fn insert_ascending(s: Seq<i32>, x: i32) -> Seq<i32>
    decreases s.len(),
{
    if s.len() == 0 {
        seq![x]
    } else if s.last() <= x {
        s.push(x)
    } else {
        insert_ascending(s.drop_last(), x).push(s.last())
    }
}

/// The values sorted in ascending order.
pub open spec fn sorted_ascending(s: Seq<i32>) -> Seq<i32>
    decreases s.len(),
{
    if s.len() == 0 {
        s
    } else {
        insert_ascending(sorted_ascending(s.drop_last()), s.last())
    }
}

fn insert_id_ascending(res: &mut Vec<i32>, x: i32)
    ensures
        final(res)@ == insert_ascending(old(res)@, x),
{
    let ghost r0 = res@;
    let mut j = res.len();
    assert(r0.subrange(0, j as int) =~= r0);
    assert(r0.subrange(j as int, r0.len() as int) =~= Seq::<i32>::empty());
    assert(insert_ascending(r0, x) + Seq::<i32>::empty() =~= insert_ascending(r0, x));
    while j > 0 && res[j - 1] > x
        invariant
            j <= res@.len(),
            res@ == r0,
            insert_ascending(r0, x) == insert_ascending(r0.subrange(0, j as int), x) + r0.subrange(
                j as int,
                r0.len() as int,
            ),
        decreases j,
    {
        let ghost pre = r0.subrange(0, j as int);
        assert(pre.drop_last() =~= r0.subrange(0, j - 1));
        assert(insert_ascending(pre.drop_last(), x).push(pre.last()) + r0.subrange(j as int, r0.len() as int)
            =~= insert_ascending(r0.subrange(0, j - 1), x) + r0.subrange(j - 1, r0.len() as int));
        j = j - 1;
    }
    let ghost pre = r0.subrange(0, j as int);
    assert(insert_ascending(pre, x) =~= pre.push(x));
    res.insert(j, x);
    assert(res@ =~= pre.push(x) + r0.subrange(j as int, r0.len() as int));
}

/// Sorts ids in ascending order.
pub fn sort_ids(ids: &mut Vec<i32>)
    ensures
        final(ids)@ == sorted_ascending(old(ids)@),
{
    let mut unsorted: Vec<i32> = Vec::new();
    std::mem::swap(&mut unsorted, ids);
    let ghost u = unsorted@;
    let mut i: usize = 0;
    while i < unsorted.len()
        invariant
            i <= unsorted@.len(),
            u == unsorted@,
            ids@ == sorted_ascending(u.subrange(0, i as int)),
        decreases unsorted@.len() - i,
    {
        insert_id_ascending(ids, unsorted[i]);
        assert(u.subrange(0, i + 1).drop_last() =~= u.subrange(0, i as int));
        i = i + 1;
    }
    assert(u.subrange(0, u.len() as int) =~= u);
}

/// Selects or unselects texture `tex_id` of the selected style; the selected
/// textures stay sorted.
pub fn toggle_selected_texture(selections: &mut SelectionState, ui: &mut Ui, tex_id: i32, select: bool)
    ensures
        final(selections)@ == (SelectionView {
            tex_ids: sorted_ascending(
                if select {
                    if old(selections)@.tex_ids.contains(tex_id) {
                        old(selections)@.tex_ids
                    } else {
                        old(selections)@.tex_ids.push(tex_id)
                    }
                } else {
                    without_value(old(selections)@.tex_ids, tex_id)
                },
            ),
            ..old(selections)@
        }),
        final(ui)@ == (UiView { last_selected: seq!['t', 'e', 'x', 't', 'u', 'r', 'e'], ..old(ui)@ }),
{
    if select {
        if !crate::seqs::contains_i32(&selections.tex_ids, tex_id) {
            selections.tex_ids.push(tex_id);
        }
    } else {
        let ghost t0 = selections.tex_ids@;
        let mut kept: Vec<i32> = Vec::new();
        let mut i: usize = 0;
        while i < selections.tex_ids.len()
            invariant
                i <= t0.len(),
                selections.tex_ids@ == t0,
                kept@ == without_value(t0.subrange(0, i as int), tex_id),
            decreases t0.len() - i,
        {
            if selections.tex_ids[i] != tex_id {
                kept.push(selections.tex_ids[i]);
            }
            assert(t0.subrange(0, i + 1).drop_last() =~= t0.subrange(0, i as int));
            i = i + 1;
        }
        assert(t0.subrange(0, t0.len() as int) =~= t0);
        selections.tex_ids = kept;
    }
    sort_ids(&mut selections.tex_ids);
    ui.last_selected = String::from_str("texture");
    proof {
        reveal_strlit("texture");
    }
    assert(ui.last_selected@ =~= seq!['t', 'e', 'x', 't', 'u', 'r', 'e']);
}

/// The textures whose positions are not selected, in order.
pub open spec fn unselected_textures(t: Seq<TextureView>, tex_ids: Seq<i32>) -> Seq<TextureView>
    decreases t.len(),
{
    if t.len() == 0 {
        t
    } else {
        let r = unselected_textures(t.drop_last(), tex_ids);
        if tex_ids.contains((t.len() - 1) as i32) {
            r
        } else {
            r.push(t.last())
        }
    }
}

/// Deletes the selected textures of the selected style and clears the texture selection.
pub fn delete_selected_textures(armature: &mut Armature, selections: &mut SelectionState)
    requires
        sel_style_index(old(armature)@, old(selections)@) >= 0,
        old(armature)@.styles[sel_style_index(old(armature)@, old(selections)@)].textures.len() <= i32::MAX + 1,
    ensures
        ({
            let si = sel_style_index(old(armature)@, old(selections)@);
            let t = old(armature)@.styles[si].textures;
            &&& final(armature)@ == with_textures(old(armature)@, si, unselected_textures(t, old(selections)@.tex_ids))
            &&& final(selections)@ == (SelectionView { tex_ids: Seq::empty(), ..old(selections)@ })
        }),
{
    let ghost arm0 = armature@;
    let si = find_style(&armature.styles, selections.style_id).unwrap();
    let ghost t0 = arm0.styles[si as int].textures;
    let mut all: Vec<crate::model::Texture> = Vec::new();
    std::mem::swap(&mut all, &mut armature.styles[si].textures);
    assert(views(all@) == t0);
    let mut kept: Vec<crate::model::Texture> = Vec::new();
    let mut t: usize = 0;
    while t < all.len()
        invariant
            t <= all@.len(),
            views(all@) == t0,
            t0.len() <= i32::MAX + 1,
            views(kept@) == unselected_textures(t0.subrange(0, t as int), selections@.tex_ids),
        decreases all@.len() - t,
    {
        let ghost pre = t0.subrange(0, t + 1);
        assert(pre.drop_last() =~= t0.subrange(0, t as int));
        assert(pre.len() - 1 == t);
        if !crate::seqs::contains_i32(&selections.tex_ids, t as i32) {
            let ghost before = views(kept@);
            kept.push(all[t].duplicate());
            assert(views(kept@) =~= before.push(t0[t as int]));
        }
        t = t + 1;
    }
    assert(t0.subrange(0, t0.len() as int) =~= t0);
    armature.styles[si].textures = kept;
    assert(views(armature.styles@) =~= with_textures(arm0, si as int, unselected_textures(t0, selections@.tex_ids)).styles);
    selections.tex_ids = Vec::new();
}

/// Deletes the first style with id `style_id`, unselecting it if selected.
pub fn delete_style(armature: &mut Armature, selections: &mut SelectionState, style_id: i32)
    requires
        style_index(old(armature)@.styles, style_id) >= 0,
    ensures
        final(armature)@ == (ArmatureView {
            styles: old(armature)@.styles.remove(style_index(old(armature)@.styles, style_id)),
            ..old(armature)@
        }),
        final(selections)@ == (SelectionView {
            style_id: if old(selections).style_id == style_id {
                -1i32
            } else {
                old(selections).style_id
            },
            ..old(selections)@
        }),
{
    let ghost s0 = views(armature.styles@);
    let idx = find_style(&armature.styles, style_id).unwrap();
    if selections.style_id == style_id {
        selections.style_id = -1;
    }
    armature.styles.remove(idx);
    assert(views(armature.styles@) =~= s0.remove(idx as int));
}

/// Selects vertex `vert_id`: -1 clears the selection; otherwise it joins the
/// selection when a modifier key is held or `force_append` is set, or
/// becomes the only selected vertex.
pub fn select_vertex(selections: &mut SelectionState, input: &InputStates, vert_id: i32, force_append: bool)
    ensures
        final(selections)@ == (SelectionView {
            vert_ids: if vert_id == -1 {
                Seq::empty()
            } else if input.holding_mod || input.holding_shift || force_append {
                old(selections)@.vert_ids.push(vert_id as usize)
            } else {
                seq![vert_id as usize]
            },
            ..old(selections)@
        }),
{
    if vert_id == -1 {
        selections.vert_ids = Vec::new();
    } else if input.holding_mod || input.holding_shift || force_append {
        selections.vert_ids.push(vert_id as usize);
    } else {
        let mut v: Vec<usize> = Vec::new();
        v.push(vert_id as usize);
        selections.vert_ids = v;
    }
}

/// Chooses the bind being edited on the selected bone: -3 chooses none, -2
/// adds a new empty bind and chooses it, -1 changes nothing, and any other
/// value chooses that bind.
pub fn select_bind(armature: &mut Armature, selections: &mut SelectionState, value: i32)
    requires
        value == -2 ==> old(selections).bone_idx < old(armature).bones.len() && old(armature).bones@[old(
            selections,
        ).bone_idx as int].binds.len() < i32::MAX,
    ensures
        value == -3 ==> final(selections)@ == (SelectionView { bind: -1i32, ..old(selections)@ })
            && final(armature)@ == old(armature)@,
        value == -2 ==> ({
            let b = old(selections).bone_idx as int;
            let bone = old(armature)@.bones[b];
            &&& final(armature)@ == (ArmatureView {
                bones: old(armature)@.bones.update(
                    b,
                    BoneView {
                        binds: bone.binds.push(
                            crate::model::BindView { bone_id: -1i32, is_path: false, verts: Seq::empty() },
                        ),
                        ..bone
                    },
                ),
                ..old(armature)@
            })
            &&& final(selections)@ == (SelectionView { bind: bone.binds.len() as i32, ..old(selections)@ })
        }),
        value == -1 ==> final(selections)@ == old(selections)@ && final(armature)@ == old(armature)@,
        value != -1 && value != -2 && value != -3 ==> final(selections)@ == (SelectionView {
            bind: value,
            ..old(selections)@
        }) && final(armature)@ == old(armature)@,
{
    if value == -3 {
        selections.bind = -1;
    } else if value == -2 {
        let b = selections.bone_idx;
        let ghost bones0 = views(armature.bones@);
        let ghost binds0 = bones0[b as int].binds;
        armature.bones[b].binds.push(crate::model::BoneBind { bone_id: -1, is_path: false, verts: Vec::new() });
        assert(views(armature.bones@[b as int].binds@) =~= binds0.push(
            crate::model::BindView { bone_id: -1i32, is_path: false, verts: Seq::empty() },
        ));
        assert(views(armature.bones@) =~= bones0.update(
            b as int,
            BoneView {
                binds: binds0.push(crate::model::BindView { bone_id: -1i32, is_path: false, verts: Seq::empty() }),
                ..bones0[b as int]
            },
        ));
        selections.bind = (armature.bones[b].binds.len() - 1) as i32;
    } else if value != -1 {
        selections.bind = value;
    }
}

/// Whether a texture other than the `t`-th is named `name`.
pub open spec fn name_taken(textures: Seq<TextureView>, t: int, name: Seq<char>) -> bool {
    exists|j: int| 0 <= j < textures.len() && j != t && textures[j].name == name
}

/// The bones whose texture is `from`, now showing `to`.
pub open spec fn retextured(bones: Seq<BoneView>, from: Seq<char>, to: Seq<char>) -> Seq<BoneView> {
    Seq::new(
        bones.len(),
        |j: int|
            if bones[j].tex.len() != 0 && bones[j].tex == from {
                BoneView { tex: to, ..bones[j] }
            } else {
                bones[j]
            },
    )
}

/// Renames texture `t` of the selected style to `name` without its leading
/// and trailing white space. When another texture of the style already has
/// that name, the old name stays and a modal opens with `same_name_headline`.
/// Unless `keep_tex_str` is set, bones showing the texture by its old name
/// are switched to the new one.
pub fn rename_texture(
    armature: &mut Armature,
    selections: &SelectionState,
    ui: &mut Ui,
    t: usize,
    name: &str,
    keep_tex_str: bool,
    same_name_headline: String,
)
    requires
        sel_style_index(old(armature)@, selections@) >= 0,
        t < old(armature)@.styles[sel_style_index(old(armature)@, selections@)].textures.len(),
    ensures
        ({
            let si = sel_style_index(old(armature)@, selections@);
            let textures = old(armature)@.styles[si].textures;
            let old_name = textures[t as int].name;
            let new_name = trimmed_end(trimmed_start(name@));
            let taken = name_taken(textures, t as int, new_name);
            let renamed = if taken {
                old(armature)@
            } else {
                with_textures(
                    old(armature)@,
                    si,
                    textures.update(t as int, TextureView { name: new_name, ..textures[t as int] }),
                )
            };
            &&& final(armature)@ == (ArmatureView {
                bones: if keep_tex_str {
                    renamed.bones
                } else {
                    retextured(renamed.bones, old_name, new_name)
                },
                ..renamed
            })
            &&& final(ui)@ == if taken {
                UiView {
                    modal: true,
                    forced_modal: false,
                    headline: replaced(same_name_headline@, seq!['$', 'e', 'r', 'r'], old(ui)@.custom_error),
                    ..old(ui)@
                }
            } else {
                old(ui)@
            }
        }),
{
    let ghost arm0 = armature@;
    let si = find_style(&armature.styles, selections.style_id).unwrap();
    let ghost textures = arm0.styles[si as int].textures;
    let old_name = armature.styles[si].textures[t].name.clone();
    let new_name = trim(name);
    let ghost new_seq = trimmed_end(trimmed_start(name@));
    assert(new_name@ == new_seq);
    let mut taken = false;
    let mut j: usize = 0;
    while j < armature.styles[si].textures.len()
        invariant
            si < armature.styles@.len(),
            armature@ == arm0,
            textures == arm0.styles[si as int].textures,
            j <= textures.len(),
            new_name@ == new_seq,
            taken == exists|k: int| 0 <= k < j && k != t && textures[k].name == new_seq,
        decreases textures.len() - j,
    {
        if j != t && str_equal(armature.styles[si].textures[j].name.as_str(), new_name.as_str()) {
            assert(textures[j as int].name == new_seq);
            taken = true;
        }
        j = j + 1;
    }
    assert(taken == name_taken(textures, t as int, new_seq));
    if taken {
        open_modal(ui, false, same_name_headline);
    } else {
        let n = new_name.clone();
        armature.styles[si].textures[t].name = n;
        assert(views(armature.styles@[si as int].textures@) =~= textures.update(
            t as int,
            TextureView { name: new_seq, ..textures[t as int] },
        ));
        assert(views(armature.styles@) =~= with_textures(
            arm0,
            si as int,
            textures.update(t as int, TextureView { name: new_seq, ..textures[t as int] }),
        ).styles);
    }
    if !keep_tex_str {
        let ghost b0 = views(armature.bones@);
        let ghost a1 = armature@;
        let mut b: usize = 0;
        while b < armature.bones.len()
            invariant
                b <= b0.len(),
                armature.bones@.len() == b0.len(),
                a1.bones == b0,
                armature@.animations == a1.animations,
                armature@.styles == a1.styles,
                new_name@ == new_seq,
                old_name@ == textures[t as int].name,
                forall|k: int| 0 <= k < b ==> #[trigger] views(armature.bones@)[k] == retextured(
                    b0,
                    old_name@,
                    new_seq,
                )[k],
                forall|k: int| b <= k < b0.len() ==> #[trigger] views(armature.bones@)[k] == b0[k],
            decreases b0.len() - b,
        {
            let ghost before = views(armature.bones@);
            if !armature.bones[b].tex.as_str().is_empty() && str_equal(
                armature.bones[b].tex.as_str(),
                old_name.as_str(),
            ) {
                let ghost raw = armature.bones@;
                let n = new_name.clone();
                assert(n@ == new_seq);
                armature.bones[b].tex = n;
                assert(armature.bones@[b as int].tex@ == new_seq);
                assert(forall|k: int| 0 <= k < raw.len() && k != b ==> armature.bones@[k] == raw[k]);
                assert(before[b as int] == b0[b as int]);
                assert(raw[b as int]@ == b0[b as int]);
                assert(views(armature.bones@)[b as int] == BoneView { tex: new_seq, ..b0[b as int] });
                assert(views(armature.bones@) =~= before.update(b as int, BoneView { tex: new_seq, ..b0[b as int] }));
            }
            b = b + 1;
        }
        assert(views(armature.bones@) =~= retextured(b0, old_name@, new_seq));
    }
}

/// Gives the selected bone a traced mesh: when it has at least four
/// vertices and two triangles it replaces the bone's mesh (binds and
/// blacklist are cleared, unused vertices dropped) and the vertex and bind
/// selections are cleared; otherwise a modal opens with `too_coarse_headline`.
/// Tells whether the mesh was taken.
pub fn set_traced_mesh(
    armature: &mut Armature,
    selections: &mut SelectionState,
    ui: &mut Ui,
    verts: Vec<crate::model::Vertex>,
    indices: Vec<u32>,
    too_coarse_headline: String,
) -> (taken: bool)
    requires
        old(selections).bone_idx < old(armature).bones.len(),
        verts.len() <= 0x1_0000_0000,
    ensures
        taken == (verts.len() >= 4 && indices.len() >= 6),
        !taken ==> final(armature)@ == old(armature)@ && final(selections)@ == old(selections)@
            && final(ui)@ == (UiView {
            modal: true,
            forced_modal: false,
            headline: replaced(too_coarse_headline@, seq!['$', 'e', 'r', 'r'], old(ui)@.custom_error),
            ..old(ui)@
        }),
        taken ==> ({
            let b = old(selections).bone_idx as int;
            let bone = old(armature)@.bones[b];
            &&& final(armature)@ == (ArmatureView {
                bones: old(armature)@.bones.update(
                    b,
                    crate::mesh::cleaned_bone(
                        BoneView {
                            vertices: verts@,
                            indices: indices@,
                            binds: Seq::empty(),
                            blacklist: Seq::empty(),
                            verts_edited: true,
                            ..bone
                        },
                    ),
                ),
                ..old(armature)@
            })
            &&& final(selections)@ == (SelectionView { vert_ids: Seq::empty(), bind: -1i32, ..old(selections)@ })
            &&& final(ui)@ == old(ui)@
        }),
{
    if verts.len() < 4 || indices.len() < 6 {
        open_modal(ui, false, too_coarse_headline);
        return false;
    }
    let ghost arm0 = armature@;
    let b = selections.bone_idx;
    selections.vert_ids = Vec::new();
    let mut bone = armature.bones[b].duplicate();
    bone.vertices = verts;
    bone.indices = indices;
    bone.binds = Vec::new();
    bone.blacklist = Vec::new();
    bone.verts_edited = true;
    assert(views(bone.binds@) =~= Seq::<crate::model::BindView>::empty());
    crate::mesh::cleanup_vertices(&mut bone);
    armature.bones.set(b, bone);
    assert(views(armature.bones@) =~= arm0.bones.update(b as int, armature.bones@[b as int]@));
    selections.bind = -1;
    true
}

/// Whether the values never decrease along `s`.
pub open spec fn ascending(s: Seq<i32>) -> bool {
    forall|i: int, j: int| 0 <= i <= j < s.len() ==> s[i] <= s[j]
}

proof fn lemma_insert_ascending(s: Seq<i32>, x: i32)
    requires
        ascending(s),
    ensures
        ascending(insert_ascending(s, x)),
        insert_ascending(s, x).to_multiset() == s.to_multiset().insert(x),
        forall|i: int|
            0 <= i < insert_ascending(s, x).len() ==> #[trigger] insert_ascending(s, x)[i] == x || s.contains(
                insert_ascending(s, x)[i],
            ),
    decreases s.len(),
{
    broadcast use vstd::seq_lib::group_to_multiset_ensures;

    let r = insert_ascending(s, x);
    if s.len() == 0 {
        assert(r =~= seq![x]);
        assert(Seq::<i32>::empty().push(x) =~= seq![x]);
    } else if s.last() <= x {
    } else {
        let s1 = s.drop_last();
        assert(ascending(s1));
        lemma_insert_ascending(s1, x);
        let r1 = insert_ascending(s1, x);
        assert(s1.push(s.last()) =~= s);
        assert forall|i: int| 0 <= i < r1.len() implies r1[i] <= s.last() by {
            if r1[i] != x {
                let w = choose|w: int| 0 <= w < s1.len() && s1[w] == r1[i];
                assert(s[w] == s1[w]);
            }
        }
        assert forall|i: int| 0 <= i < r.len() implies #[trigger] r[i] == x || s.contains(r[i]) by {
            if i < r1.len() && r1[i] != x {
                let w = choose|w: int| 0 <= w < s1.len() && s1[w] == r1[i];
                assert(s[w] == r[i]);
            } else if i == r1.len() {
                assert(s[s.len() - 1] == r[i]);
            }
        }
        assert(r.to_multiset() =~= s.to_multiset().insert(x));
    }
}

/// Sorting ids puts them in ascending order and keeps each as many times as
/// before; this is how the selected textures are kept.
pub proof fn lemma_sorted_ascending(s: Seq<i32>)
    ensures
        ascending(sorted_ascending(s)),
        sorted_ascending(s).to_multiset() == s.to_multiset(),
    decreases s.len(),
{
    broadcast use vstd::seq_lib::group_to_multiset_ensures;

    if s.len() > 0 {
        lemma_sorted_ascending(s.drop_last());
        lemma_insert_ascending(sorted_ascending(s.drop_last()), s.last());
        assert(s.drop_last().push(s.last()) =~= s);
    }
}

/// Removing the keyframes that match a pattern keeps exactly those that do
/// not match: none that remains matches, each that does not match remains,
/// and nothing new appears.
pub proof fn lemma_remove_matching_exact(s: Seq<KeyframeView>, pat: KeyframePattern)
    ensures
        without_matching(s, pat).len() <= s.len(),
        forall|x: KeyframeView|
            #[trigger] without_matching(s, pat).contains(x) <==> (s.contains(x) && !matches_pattern(x, pat)),
    decreases s.len(),
{
    if s.len() > 0 {
        let init = s.drop_last();
        let r = without_matching(init, pat);
        lemma_remove_matching_exact(init, pat);
        let w = without_matching(s, pat);
        assert forall|x: KeyframeView| #[trigger] w.contains(x) <==> (s.contains(x) && !matches_pattern(x, pat)) by {
            if w.contains(x) {
                if r.contains(x) {
                    let i = choose|i: int| 0 <= i < init.len() && init[i] == x;
                    assert(s[i] == x);
                } else {
                    assert(x == s.last());
                    assert(s[s.len() - 1] == x);
                }
            }
            if s.contains(x) && !matches_pattern(x, pat) {
                let i = choose|i: int| 0 <= i < s.len() && s[i] == x;
                if i < s.len() - 1 {
                    assert(init[i] == x);
                    assert(init.contains(x));
                    assert(r.contains(x));
                    if !matches_pattern(s.last(), pat) {
                        let j = choose|j: int| 0 <= j < r.len() && r[j] == x;
                        assert(w[j] == x);
                    }
                } else {
                    assert(w[r.len() as int] == x);
                }
            }
        }
    }
}

/// Deleting the selected keyframes leaves no keyframe on the frame, bone and
/// element of a selected one, and keeps every other keyframe.
pub proof fn lemma_delete_selected_exact(s: Seq<KeyframeView>, selected: Seq<KeyframeView>)
    ensures
        forall|x: KeyframeView|
            #[trigger] without_selected(s, selected).contains(x) <==> (s.contains(x) && forall|k: int|
                0 <= k < selected.len() ==> !(#[trigger] selected[k].frame == x.frame && selected[k].bone_id
                    == x.bone_id && selected[k].element == x.element)),
    decreases selected.len(),
{
    if selected.len() > 0 {
        let init = selected.drop_last();
        let skf = selected.last();
        let pat = KeyframePattern { frame: Some(skf.frame), bone_id: Some(skf.bone_id), element: Some(skf.element) };
        lemma_delete_selected_exact(s, init);
        lemma_remove_matching_exact(without_selected(s, init), pat);
        assert forall|x: KeyframeView|
            #[trigger] without_selected(s, selected).contains(x) <==> (s.contains(x) && forall|k: int|
                0 <= k < selected.len() ==> !(#[trigger] selected[k].frame == x.frame && selected[k].bone_id
                    == x.bone_id && selected[k].element == x.element)) by {
            if s.contains(x) && forall|k: int|
                0 <= k < selected.len() ==> !(#[trigger] selected[k].frame == x.frame && selected[k].bone_id
                    == x.bone_id && selected[k].element == x.element) {
                assert forall|k: int|
                    0 <= k < init.len() implies !(#[trigger] init[k].frame == x.frame && init[k].bone_id
                        == x.bone_id && init[k].element == x.element) by {
                    assert(init[k] == selected[k]);
                }
                assert(selected[selected.len() - 1] == skf);
            }
            if without_selected(s, selected).contains(x) {
                assert forall|k: int|
                    0 <= k < selected.len() implies !(#[trigger] selected[k].frame == x.frame && selected[k].bone_id
                        == x.bone_id && selected[k].element == x.element) by {
                    if k < init.len() {
                        assert(init[k] == selected[k]);
                    }
                }
            }
        }
    }
}

} // verus!
