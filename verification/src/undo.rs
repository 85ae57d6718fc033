//! Undo and redo: putting back saved states, moving each step to the
//! opposite stack, and chains of steps that go together.
use vstd::prelude::*;
use crate::model::{
    anim_index, bone_index, duplicate_vec, find_bone, style_index, views, Action, ActionType,
    ActionView, Armature, ArmatureView, Bone, Duplicate, SelectionState, SelectionView, Style,
    StyleView, UndoStates, UndoView, Vertex,
};

verus! {

/// Whether `a` can be put back on `arm`: an action that restores one bone,
/// animation or style names one, and the armature has one with its id.
pub open spec fn can_restore(a: ActionView, arm: ArmatureView) -> bool {
    match a.action {
        ActionType::Bone => a.bones.len() > 0 && bone_index(arm.bones, a.bones[0].id) >= 0,
        ActionType::Animation => a.animations.len() > 0 && anim_index(
            arm.animations,
            a.animations[0].id,
        ) >= 0,
        ActionType::Style => a.styles.len() > 0 && style_index(arm.styles, a.styles[0].id) >= 0,
        _ => true,
    }
}

/// The armature with `a` put back, and the action that puts back what `a` replaced.
pub open spec fn restore(a: ActionView, arm: ArmatureView) -> (ArmatureView, ActionView) {
    match a.action {
        ActionType::Bone => {
            let i = bone_index(arm.bones, a.bones[0].id);
            (
                ArmatureView { bones: arm.bones.update(i, a.bones[0]), ..arm },
                ActionView { bones: seq![arm.bones[i]], ..a },
            )
        },
        ActionType::Bones => (ArmatureView { bones: a.bones, ..arm }, ActionView { bones: arm.bones, ..a }),
        ActionType::Animation => {
            let i = anim_index(arm.animations, a.animations[0].id);
            (
                ArmatureView { animations: arm.animations.update(i, a.animations[0]), ..arm },
                ActionView { animations: seq![arm.animations[i]], ..a },
            )
        },
        ActionType::Animations => (
            ArmatureView { animations: a.animations, ..arm },
            ActionView { animations: arm.animations, ..a },
        ),
        ActionType::Style => {
            let i = style_index(arm.styles, a.styles[0].id);
            (
                ArmatureView { styles: arm.styles.update(i, a.styles[0]), ..arm },
                ActionView { styles: seq![arm.styles[i]], ..a },
            )
        },
        ActionType::Styles => (
            ArmatureView { styles: a.styles, ..arm },
            ActionView { styles: arm.styles, ..a },
        ),
        ActionType::Empty => (arm, a),
    }
}

/// Whether some vertex has id `id`.
pub open spec fn has_vert_id(verts: Seq<Vertex>, id: usize) -> bool {
    exists|i: int| 0 <= i < verts.len() && verts[i].id as usize == id
}

/// The selected vertex ids that are still ids of `verts`, in order.
pub open spec fn vert_ids_kept(ids: Seq<usize>, verts: Seq<Vertex>) -> Seq<usize>
    decreases ids.len(),
{
    if ids.len() == 0 {
        Seq::empty()
    } else {
        let r = vert_ids_kept(ids.drop_last(), verts);
        if has_vert_id(verts, ids.last()) {
            r.push(ids.last())
        } else {
            r
        }
    }
}

/// Whether some style has id `id`.
pub open spec fn has_style_id(styles: Seq<StyleView>, id: i32) -> bool {
    exists|i: int| 0 <= i < styles.len() && styles[i].id == id
}

/// The selection once `a` has been put back, `arm` being the armature after it.
pub open spec fn reselect(a: ActionView, arm: ArmatureView, sel: SelectionView) -> SelectionView {
    match a.action {
        ActionType::Bone => SelectionView {
            vert_ids: vert_ids_kept(sel.vert_ids, a.bones[0].vertices),
            ..sel
        },
        ActionType::Bones => SelectionView {
            bone_idx: if sel.bone_ids.len() == 0 || bone_index(arm.bones, sel.bone_ids[0]) < 0 {
                usize::MAX
            } else {
                bone_index(arm.bones, sel.bone_ids[0]) as usize
            },
            ..sel
        },
        ActionType::Animations => SelectionView {
            anim: if arm.animations.len() == 0 || sel.anim > arm.animations.len() - 1 {
                usize::MAX
            } else {
                sel.anim
            },
            ..sel
        },
        ActionType::Styles => SelectionView {
            style_id: if has_style_id(arm.styles, sel.style_id) {
                sel.style_id
            } else {
                -1i32
            },
            ..sel
        },
        _ => sel,
    }
}

/// Whether each action of the chain on top of `stack` can be put back in turn:
/// the top one, and, while the one just put back is `continued`, the next.
pub open spec fn can_chain(stack: Seq<ActionView>, arm: ArmatureView) -> bool
    decreases stack.len(),
{
    stack.len() == 0 || {
        &&& can_restore(stack.last(), arm)
        &&& stack.last().continued ==> can_chain(stack.drop_last(), restore(stack.last(), arm).0)
    }
}

/// The stacks once the top action `a` of one of them is taken off and
/// `back` is gathered; at the end of a chain the gathered actions go onto
/// the other stack, the first gathered on top.
pub open spec fn move_step(undo: bool, us: UndoView, a: ActionView, back: ActionView) -> UndoView {
    let temp = us.temp_actions.push(back);
    if undo {
        let u = us.undo_actions.drop_last();
        if a.continued {
            UndoView {
                undo_actions: u,
                temp_actions: temp,
                prev_undo_actions: u.len() as usize,
                unsaved_undo_actions: u.len() as usize,
                ..us
            }
        } else {
            UndoView {
                undo_actions: u,
                redo_actions: us.redo_actions + temp.reverse(),
                temp_actions: Seq::empty(),
                prev_undo_actions: u.len() as usize,
                unsaved_undo_actions: u.len() as usize,
            }
        }
    } else {
        let r = us.redo_actions.drop_last();
        if a.continued {
            UndoView {
                redo_actions: r,
                temp_actions: temp,
                prev_undo_actions: us.undo_actions.len() as usize,
                unsaved_undo_actions: us.undo_actions.len() as usize,
                ..us
            }
        } else {
            let u = us.undo_actions + temp.reverse();
            UndoView {
                undo_actions: u,
                redo_actions: r,
                temp_actions: Seq::empty(),
                prev_undo_actions: u.len() as usize,
                unsaved_undo_actions: u.len() as usize,
            }
        }
    }
}

/// What an undo (or redo) does to the stacks, the armature and the selection.
pub open spec fn undo_redo_result(
    undo: bool,
    us: UndoView,
    arm: ArmatureView,
    sel: SelectionView,
) -> (UndoView, ArmatureView, SelectionView)
    decreases (if undo {
        us.undo_actions.len()
    } else {
        us.redo_actions.len()
    }),
{
    let stack = if undo {
        us.undo_actions
    } else {
        us.redo_actions
    };
    if stack.len() == 0 {
        (us, arm, sel)
    } else {
        let a = stack.last();
        let arm2 = restore(a, arm).0;
        let sel2 = reselect(a, arm2, sel);
        let us2 = move_step(undo, us, a, restore(a, arm).1);
        if a.continued {
            undo_redo_result(undo, us2, arm2, sel2)
        } else {
            (us2, arm2, sel2)
        }
    }
}

/// The selected vertex ids that are ids of `verts`, in order.
fn kept_vert_ids(ids: &Vec<usize>, verts: &Vec<Vertex>) -> (r: Vec<usize>)
    ensures
        r@ == vert_ids_kept(ids@, verts@),
{
    let mut r: Vec<usize> = Vec::new();
    let mut i: usize = 0;
    while i < ids.len()
        invariant
            i <= ids.len(),
            r@ == vert_ids_kept(ids@.subrange(0, i as int), verts@),
        decreases ids.len() - i,
    {
        let id = ids[i];
        let mut found = false;
        let mut j: usize = 0;
        while j < verts.len()
            invariant
                j <= verts.len(),
                found == exists|k: int| 0 <= k < j && verts@[k].id as usize == id,
            decreases verts.len() - j,
        {
            if verts[j].id as usize == id {
                found = true;
            }
            j = j + 1;
        }
        assert(ids@.subrange(0, i + 1).drop_last() =~= ids@.subrange(0, i as int));
        if found {
            r.push(id);
        }
        i = i + 1;
    }
    assert(ids@.subrange(0, ids@.len() as int) =~= ids@);
    r
}

/// Whether some style has id `id`.
fn contains_style_id(styles: &Vec<Style>, id: i32) -> (r: bool)
    ensures
        r == has_style_id(views(styles@), id),
{
    let mut i: usize = 0;
    while i < styles.len()
        invariant
            i <= styles.len(),
            forall|j: int| 0 <= j < i ==> styles@[j].id != id,
        decreases styles.len() - i,
    {
        if styles[i].id == id {
            assert(views(styles@)[i as int].id == id);
            return true;
        }
        i = i + 1;
    }
    assert(!has_style_id(views(styles@), id)) by {
        if has_style_id(views(styles@), id) {
            let w = choose|j: int| 0 <= j < views(styles@).len() && views(styles@)[j].id == id;
            assert(styles@[w].id == id);
        }
    }
    false
}

/// Moves the actions of `from` onto `to`, the last of `from` first.
fn move_reversed(from: &mut Vec<Action>, to: &mut Vec<Action>)
    ensures
        views(final(to)@) == views(old(to)@) + views(old(from)@).reverse(),
        final(from)@.len() == 0,
{
    let ghost f0 = views(from@);
    let ghost t0 = views(to@);
    while from.len() > 0
        invariant
            f0.len() >= from@.len(),
            views(from@) == f0.subrange(0, from@.len() as int),
            views(to@) == t0 + f0.subrange(from@.len() as int, f0.len() as int).reverse(),
        decreases from@.len(),
    {
        let ghost n = from@.len() as int;
        let ghost to_before = views(to@);
        assert(views(from@)[n - 1] == f0[n - 1]);
        let a = from.pop().unwrap();
        assert(a@ == f0[n - 1]);
        to.push(a);
        assert(views(to@) =~= to_before.push(f0[n - 1]));
        assert(views(from@) =~= f0.subrange(0, from@.len() as int));
        assert(f0.subrange(n - 1, f0.len() as int).reverse() =~= f0.subrange(n, f0.len() as int).reverse().push(
            f0[n - 1],
        ));
        assert(views(to@) =~= t0 + f0.subrange(from@.len() as int, f0.len() as int).reverse());
    }
    assert(f0.subrange(0, f0.len() as int) =~= f0);
}

/// Undoes (or redoes) the top action: puts its saved state back, keeps the
/// state it replaced as the opposite action, and, if it was `continued`,
/// goes on with the next one. At the end of a chain the gathered actions go
/// onto the opposite stack in reverse, so the chain can be replayed.
pub fn undo_redo(
    undo: bool,
    undo_states: &mut UndoStates,
    armature: &mut Armature,
    selections: &mut SelectionState,
)
    requires
        can_chain(
            if undo {
                old(undo_states)@.undo_actions
            } else {
                old(undo_states)@.redo_actions
            },
            old(armature)@,
        ),
    ensures
        (final(undo_states)@, final(armature)@, final(selections)@) == undo_redo_result(
            undo,
            old(undo_states)@,
            old(armature)@,
            old(selections)@,
        ),
    decreases (if undo {
        old(undo_states)@.undo_actions.len()
    } else {
        old(undo_states)@.redo_actions.len()
    }),
{
    let action: Action;
    if undo {
        let n = undo_states.undo_actions.len();
        if n == 0 {
            return;
        }
        action = undo_states.undo_actions[n - 1].duplicate();
    } else {
        let n = undo_states.redo_actions.len();
        if n == 0 {
            return;
        }
        action = undo_states.redo_actions[n - 1].duplicate();
    }
    let ghost a = action@;
    let ghost arm0 = armature@;
    let ghost sel0 = selections@;
    let ghost us0 = undo_states@;
    assert(a == (if undo {
        us0.undo_actions
    } else {
        us0.redo_actions
    }).last());

    // store the state prior to undoing/redoing the action, to add to the opposite stack later
    let mut new_action = action.duplicate();
    match action.action {
        ActionType::Bone => {
            let idx = find_bone(&armature.bones, action.bones[0].id).unwrap();
            let mut saved: Vec<Bone> = Vec::new();
            saved.push(armature.bones[idx].duplicate());
            new_action.bones = saved;
            armature.bones.set(idx, action.bones[0].duplicate());
            // remove selected vertices that no longer exist
            let kept = kept_vert_ids(&selections.vert_ids, &armature.bones[idx].vertices);
            selections.vert_ids = kept;
            assert(views(armature.bones@) =~= arm0.bones.update(idx as int, a.bones[0]));
            assert(views(new_action.bones@) =~= seq![arm0.bones[idx as int]]);
        },
        ActionType::Bones => {
            new_action.bones = duplicate_vec(&armature.bones);
            armature.bones = duplicate_vec(&action.bones);
            if selections.bone_ids.len() == 0 {
                selections.bone_idx = usize::MAX;
            } else {
                let sel_id = selections.bone_ids[0];
                match find_bone(&armature.bones, sel_id) {
                    Some(i) => selections.bone_idx = i,
                    None => selections.bone_idx = usize::MAX,
                }
            }
        },
        ActionType::Animation => {
            let idx = crate::model::find_anim(&armature.animations, action.animations[0].id).unwrap();
            let mut saved: Vec<crate::model::Animation> = Vec::new();
            saved.push(armature.animations[idx].duplicate());
            new_action.animations = saved;
            armature.animations.set(idx, action.animations[0].duplicate());
            assert(views(armature.animations@) =~= arm0.animations.update(
                idx as int,
                a.animations[0],
            ));
            assert(views(new_action.animations@) =~= seq![arm0.animations[idx as int]]);
        },
        ActionType::Animations => {
            new_action.animations = duplicate_vec(&armature.animations);
            armature.animations = duplicate_vec(&action.animations);
            let len = armature.animations.len();
            if len == 0 || selections.anim > len - 1 {
                selections.anim = usize::MAX;
            }
        },
        ActionType::Style => {
            let idx = crate::model::find_style(&armature.styles, action.styles[0].id).unwrap();
            let mut saved: Vec<Style> = Vec::new();
            saved.push(armature.styles[idx].duplicate());
            new_action.styles = saved;
            armature.styles.set(idx, action.styles[0].duplicate());
            assert(views(armature.styles@) =~= arm0.styles.update(idx as int, a.styles[0]));
            assert(views(new_action.styles@) =~= seq![arm0.styles[idx as int]]);
        },
        ActionType::Styles => {
            new_action.styles = duplicate_vec(&armature.styles);
            armature.styles = duplicate_vec(&action.styles);
            if !contains_style_id(&armature.styles, selections.style_id) {
                selections.style_id = -1;
            }
        },
        ActionType::Empty => {},
    }
    assert(armature@ == restore(a, arm0).0);
    assert(new_action@ == restore(a, arm0).1);
    assert(selections@ == reselect(a, armature@, sel0));

    // add action(s) to opposing stack
    undo_states.temp_actions.push(new_action);
    if undo {
        undo_states.undo_actions.pop();
        if !action.continued {
            move_reversed(&mut undo_states.temp_actions, &mut undo_states.redo_actions);
        }
    } else {
        undo_states.redo_actions.pop();
        if !action.continued {
            move_reversed(&mut undo_states.temp_actions, &mut undo_states.undo_actions);
        }
    }
    undo_states.prev_undo_actions = undo_states.undo_actions.len();
    undo_states.unsaved_undo_actions = undo_states.undo_actions.len();
    assert(undo_states@ == move_step(undo, us0, a, restore(a, arm0).1)) by {
        assert(views(undo_states.undo_actions@) =~= move_step(undo, us0, a, restore(a, arm0).1).undo_actions);
        assert(views(undo_states.redo_actions@) =~= move_step(undo, us0, a, restore(a, arm0).1).redo_actions);
        assert(views(undo_states.temp_actions@) =~= move_step(undo, us0, a, restore(a, arm0).1).temp_actions);
    }

    // actions tagged with `continued` are part of an action chain
    if action.continued {
        undo_redo(undo, undo_states, armature, selections);
    }
}

/// Whether `a` holds exactly the one element that its kind of step restores
/// (any number for the kinds that restore a whole list).
pub open spec fn is_single(a: ActionView) -> bool {
    match a.action {
        ActionType::Bone => a.bones.len() == 1,
        ActionType::Animation => a.animations.len() == 1,
        ActionType::Style => a.styles.len() == 1,
        _ => true,
    }
}

/// Putting back the state an action replaced, on the armature it produced,
/// gives back the armature and the action themselves.
proof fn lemma_restore_restore(a: ActionView, arm: ArmatureView)
    requires
        can_restore(a, arm),
        is_single(a),
    ensures
        can_restore(restore(a, arm).1, restore(a, arm).0),
        restore(restore(a, arm).1, restore(a, arm).0).0 == arm,
        restore(restore(a, arm).1, restore(a, arm).0).1 == a,
        is_single(restore(a, arm).1),
        restore(a, arm).1.continued == a.continued,
{
    let (arm1, back) = restore(a, arm);
    match a.action {
        ActionType::Bone => {
            let i = bone_index(arm.bones, a.bones[0].id);
            assert(crate::model::is_first_bone(arm.bones, a.bones[0].id, i));
            assert(crate::model::is_first_bone(arm1.bones, back.bones[0].id, i));
            let j = bone_index(arm1.bones, back.bones[0].id);
            assert(j == i) by {
                if j < i {
                } else if j > i {
                }
            }
            assert(arm1.bones.update(i, back.bones[0]) =~= arm.bones);
            assert(seq![arm1.bones[i]] =~= a.bones);
        },
        ActionType::Animation => {
            let i = anim_index(arm.animations, a.animations[0].id);
            assert(crate::model::is_first_anim(arm.animations, a.animations[0].id, i));
            assert(crate::model::is_first_anim(arm1.animations, back.animations[0].id, i));
            let j = anim_index(arm1.animations, back.animations[0].id);
            assert(j == i) by {
                if j < i {
                } else if j > i {
                }
            }
            assert(arm1.animations.update(i, back.animations[0]) =~= arm.animations);
            assert(seq![arm1.animations[i]] =~= a.animations);
        },
        ActionType::Style => {
            let i = style_index(arm.styles, a.styles[0].id);
            assert(crate::model::is_first_style(arm.styles, a.styles[0].id, i));
            assert(crate::model::is_first_style(arm1.styles, back.styles[0].id, i));
            let j = style_index(arm1.styles, back.styles[0].id);
            assert(j == i) by {
                if j < i {
                } else if j > i {
                }
            }
            assert(arm1.styles.update(i, back.styles[0]) =~= arm.styles);
            assert(seq![arm1.styles[i]] =~= a.styles);
        },
        _ => {},
    }
}

/// An undo followed by a redo gives back the armature and both stacks, when
/// the undone action stands alone (not `continued`), holds exactly the one
/// element it restores, and no gathered actions are pending; the redo can
/// always be made.
pub proof fn lemma_undo_then_redo(us: UndoView, arm: ArmatureView, sel: SelectionView)
    requires
        us.undo_actions.len() > 0,
        !us.undo_actions.last().continued,
        is_single(us.undo_actions.last()),
        can_restore(us.undo_actions.last(), arm),
        us.temp_actions.len() == 0,
    ensures
        can_chain(undo_redo_result(true, us, arm, sel).0.redo_actions, undo_redo_result(true, us, arm, sel).1),
        ({
            let (us1, arm1, sel1) = undo_redo_result(true, us, arm, sel);
            let (us2, arm2, sel2) = undo_redo_result(false, us1, arm1, sel1);
            &&& arm2 == arm
            &&& us2.undo_actions == us.undo_actions
            &&& us2.redo_actions == us.redo_actions
            &&& us2.temp_actions == us.temp_actions
        }),
{
    let a = us.undo_actions.last();
    lemma_restore_restore(a, arm);
    let (us1, arm1, sel1) = undo_redo_result(true, us, arm, sel);
    let back = restore(a, arm).1;
    assert(seq![back].reverse() =~= seq![back]);
    assert(us.temp_actions.push(back) =~= seq![back]);
    assert(us1.redo_actions =~= us.redo_actions.push(back));
    assert(us1.redo_actions.last() == back);
    assert(us1.redo_actions.drop_last() =~= us.redo_actions);
    let (us2, arm2, sel2) = undo_redo_result(false, us1, arm1, sel1);
    let a2 = restore(back, arm1).1;
    assert(seq![a2].reverse() =~= seq![a2]);
    assert(us1.temp_actions.push(a2) =~= seq![a2]);
    assert(us2.undo_actions =~= us.undo_actions.drop_last().push(a));
    assert(us.undo_actions.drop_last().push(a) =~= us.undo_actions);
}

/// A redo followed by an undo gives back the armature and both stacks, under
/// the same conditions on the redone action.
pub proof fn lemma_redo_then_undo(us: UndoView, arm: ArmatureView, sel: SelectionView)
    requires
        us.redo_actions.len() > 0,
        !us.redo_actions.last().continued,
        is_single(us.redo_actions.last()),
        can_restore(us.redo_actions.last(), arm),
        us.temp_actions.len() == 0,
    ensures
        can_chain(undo_redo_result(false, us, arm, sel).0.undo_actions, undo_redo_result(false, us, arm, sel).1),
        ({
            let (us1, arm1, sel1) = undo_redo_result(false, us, arm, sel);
            let (us2, arm2, sel2) = undo_redo_result(true, us1, arm1, sel1);
            &&& arm2 == arm
            &&& us2.undo_actions == us.undo_actions
            &&& us2.redo_actions == us.redo_actions
            &&& us2.temp_actions == us.temp_actions
        }),
{
    let a = us.redo_actions.last();
    lemma_restore_restore(a, arm);
    let (us1, arm1, sel1) = undo_redo_result(false, us, arm, sel);
    let back = restore(a, arm).1;
    assert(seq![back].reverse() =~= seq![back]);
    assert(us.temp_actions.push(back) =~= seq![back]);
    assert(us1.undo_actions =~= us.undo_actions.push(back));
    assert(us1.undo_actions.last() == back);
    assert(us1.undo_actions.drop_last() =~= us.undo_actions);
    let (us2, arm2, sel2) = undo_redo_result(true, us1, arm1, sel1);
    let a2 = restore(back, arm1).1;
    assert(seq![a2].reverse() =~= seq![a2]);
    assert(us1.temp_actions.push(a2) =~= seq![a2]);
    assert(us2.redo_actions =~= us.redo_actions.drop_last().push(a));
    assert(us.redo_actions.drop_last().push(a) =~= us.redo_actions);
}

/// The part of the armature that an action puts back: 0 for bones, 1 for
/// animations, 2 for styles, 3 for nothing.
pub open spec fn part(a: ActionView) -> int {
    match a.action {
        ActionType::Bone => 0,
        ActionType::Bones => 0,
        ActionType::Animation => 1,
        ActionType::Animations => 1,
        ActionType::Style => 2,
        ActionType::Styles => 2,
        ActionType::Empty => 3,
    }
}

/// Whether two armatures have the same part `p`.
pub open spec fn agree_on(x: ArmatureView, y: ArmatureView, p: int) -> bool {
    &&& p == 0 ==> x.bones == y.bones
    &&& p == 1 ==> x.animations == y.animations
    &&& p == 2 ==> x.styles == y.styles
}

/// Whether two armatures have the same parts but for part `p`.
pub open spec fn agree_except(x: ArmatureView, y: ArmatureView, p: int) -> bool {
    &&& p != 0 ==> x.bones == y.bones
    &&& p != 1 ==> x.animations == y.animations
    &&& p != 2 ==> x.styles == y.styles
}

/// Putting an action back touches only its own part, and depends only on it.
proof fn lemma_restore_local(x: ActionView, arm1: ArmatureView, arm2: ArmatureView)
    requires
        can_restore(x, arm1),
        agree_on(arm1, arm2, part(x)),
    ensures
        agree_except(restore(x, arm2).0, arm2, part(x)),
        can_restore(x, arm2),
        restore(x, arm1).1 == restore(x, arm2).1,
        agree_on(restore(x, arm1).0, restore(x, arm2).0, part(x)),
        restore(x, arm2).1.continued == x.continued,
        part(restore(x, arm2).1) == part(x),
{
}

/// Undoing a chain of two actions that put back different parts of the
/// armature (as deleting a bone records: its bones, continued by its
/// animations), then redoing it, gives back the armature and both stacks.
pub proof fn lemma_undo_then_redo_pair(us: UndoView, arm: ArmatureView, sel: SelectionView)
    requires
        us.undo_actions.len() >= 2,
        us.undo_actions.last().continued,
        !us.undo_actions.drop_last().last().continued,
        is_single(us.undo_actions.last()),
        is_single(us.undo_actions.drop_last().last()),
        part(us.undo_actions.last()) != part(us.undo_actions.drop_last().last()),
        can_restore(us.undo_actions.last(), arm),
        can_restore(us.undo_actions.drop_last().last(), restore(us.undo_actions.last(), arm).0),
        us.temp_actions.len() == 0,
    ensures
        ({
            let (us1, arm1, sel1) = undo_redo_result(true, us, arm, sel);
            let (us2, arm2, sel2) = undo_redo_result(false, us1, arm1, sel1);
            &&& arm2 == arm
            &&& us2.undo_actions == us.undo_actions
            &&& us2.redo_actions == us.redo_actions
            &&& us2.temp_actions == us.temp_actions
        }),
{
    let a = us.undo_actions.last();
    let b = us.undo_actions.drop_last().last();
    let u0 = us.undo_actions.drop_last().drop_last();
    // undo: `a`, then `b`
    let arm1 = restore(a, arm).0;
    let ba = restore(a, arm).1;
    let sel1 = reselect(a, arm1, sel);
    let us1 = move_step(true, us, a, ba);
    assert(us1.undo_actions.last() == b);
    assert(us1.temp_actions =~= seq![ba]);
    let arm2 = restore(b, arm1).0;
    let bb = restore(b, arm1).1;
    let sel2 = reselect(b, arm2, sel1);
    let us2 = move_step(true, us1, b, bb);
    assert(us1.undo_actions.drop_last() =~= u0);
    assert(seq![ba].push(bb).reverse() =~= seq![bb, ba]);
    assert(us2.redo_actions =~= us.redo_actions + seq![bb, ba]);
    assert(undo_redo_result(true, us1, arm1, sel1) == (us2, arm2, sel2));
    assert(undo_redo_result(true, us, arm, sel) == (us2, arm2, sel2));
    lemma_restore_restore(a, arm);
    lemma_restore_restore(b, arm1);
    lemma_restore_local(b, arm1, arm1);
    lemma_restore_local(a, arm, arm);
    // redo: `ba`, then `bb`
    assert(us2.redo_actions.last() == ba);
    lemma_restore_local(ba, arm1, arm2);
    let arm3 = restore(ba, arm2).0;
    let sel3 = reselect(ba, arm3, sel2);
    let us3 = move_step(false, us2, ba, restore(ba, arm2).1);
    assert(us3.redo_actions.last() == bb);
    assert(us3.temp_actions =~= seq![a]);
    lemma_restore_local(bb, arm2, arm3);
    let arm4 = restore(bb, arm3).0;
    let sel4 = reselect(bb, arm4, sel3);
    let us4 = move_step(false, us3, bb, restore(bb, arm3).1);
    assert(seq![a].push(b).reverse() =~= seq![b, a]);
    assert(us2.redo_actions.drop_last().drop_last() =~= us.redo_actions);
    assert(u0 + seq![b, a] =~= us.undo_actions);
    assert(undo_redo_result(false, us3, arm3, sel3) == (us4, arm4, sel4));
    assert(undo_redo_result(false, us2, arm2, sel2) == (us4, arm4, sel4));
    assert(arm4 == arm);
}

/// Undoing (or redoing) a step that stands alone, with no gathered steps
/// pending, puts back what it saved: for one bone, animation or style, the
/// saved one takes the place of the first with its id and the rest stay; for
/// a whole list, the saved list. The step that goes onto the other stack is
/// of the same kind and holds what was replaced, and the parts of the
/// armature that the step does not save are left as they were.
pub proof fn lemma_undo_puts_back(undo: bool, us: UndoView, arm: ArmatureView, sel: SelectionView)
    requires
        (if undo { us.undo_actions } else { us.redo_actions }).len() > 0,
        !(if undo { us.undo_actions } else { us.redo_actions }).last().continued,
        can_restore((if undo { us.undo_actions } else { us.redo_actions }).last(), arm),
        us.temp_actions.len() == 0,
    ensures
        ({
            let a = (if undo { us.undo_actions } else { us.redo_actions }).last();
            let (us1, arm1, sel1) = undo_redo_result(undo, us, arm, sel);
            let other = if undo { us1.redo_actions } else { us1.undo_actions };
            let back = other.last();
            &&& other.len() > 0
            &&& back.action == a.action
            &&& a.action == ActionType::Bone ==> {
                let i = bone_index(arm.bones, a.bones[0].id);
                &&& arm1.bones.len() == arm.bones.len()
                &&& arm1.bones[i] == a.bones[0]
                &&& forall|j: int| 0 <= j < arm.bones.len() && j != i ==> arm1.bones[j] == arm.bones[j]
                &&& back.bones == seq![arm.bones[i]]
                &&& arm1.animations == arm.animations
                &&& arm1.styles == arm.styles
            }
            &&& a.action == ActionType::Animation ==> {
                let i = anim_index(arm.animations, a.animations[0].id);
                &&& arm1.animations.len() == arm.animations.len()
                &&& arm1.animations[i] == a.animations[0]
                &&& forall|j: int| 0 <= j < arm.animations.len() && j != i ==> arm1.animations[j] == arm.animations[j]
                &&& back.animations == seq![arm.animations[i]]
                &&& arm1.bones == arm.bones
                &&& arm1.styles == arm.styles
            }
            &&& a.action == ActionType::Style ==> {
                let i = style_index(arm.styles, a.styles[0].id);
                &&& arm1.styles.len() == arm.styles.len()
                &&& arm1.styles[i] == a.styles[0]
                &&& forall|j: int| 0 <= j < arm.styles.len() && j != i ==> arm1.styles[j] == arm.styles[j]
                &&& back.styles == seq![arm.styles[i]]
                &&& arm1.bones == arm.bones
                &&& arm1.animations == arm.animations
            }
            &&& a.action == ActionType::Bones ==> {
                &&& arm1.bones == a.bones
                &&& back.bones == arm.bones
                &&& arm1.animations == arm.animations
                &&& arm1.styles == arm.styles
            }
            &&& a.action == ActionType::Animations ==> {
                &&& arm1.animations == a.animations
                &&& back.animations == arm.animations
                &&& arm1.bones == arm.bones
                &&& arm1.styles == arm.styles
            }
            &&& a.action == ActionType::Styles ==> {
                &&& arm1.styles == a.styles
                &&& back.styles == arm.styles
                &&& arm1.bones == arm.bones
                &&& arm1.animations == arm.animations
            }
        }),
{
    let a = (if undo { us.undo_actions } else { us.redo_actions }).last();
    let back = restore(a, arm).1;
    let us1 = move_step(undo, us, a, back);
    assert(us.temp_actions.push(back) =~= seq![back]);
    assert(seq![back].reverse() =~= seq![back]);
    if undo {
        assert(us1.redo_actions =~= us.redo_actions.push(back));
    } else {
        assert(us1.undo_actions =~= us.undo_actions.push(back));
    }
}

} // verus!
