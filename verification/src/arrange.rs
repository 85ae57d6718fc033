//! Rearranging the hierarchy: moving a bone (with its children) next to or
//! under another, and the decisions of a drag and drop of bones.
use vstd::prelude::*;
use crate::hierarchy::{descendants, get_all_children, has_finite_children};
use crate::model::{
    bone_index, find_bone, is_first_bone, lemma_bone_index_found, lemma_bone_index_same_ids, views,
    Armature, ArmatureView, Bone, BoneView, Duplicate,
};

verus! {

/// The bones once each bone of `s`, in turn, is inserted `off` places after
/// the first bone with id `anchor`.
pub open spec fn inserted_at_anchor(b: Seq<BoneView>, s: Seq<BoneView>, anchor: i32, off: int) -> Seq<BoneView>
    decreases s.len(),
{
    if s.len() == 0 {
        b
    } else {
        let b1 = inserted_at_anchor(b, s.drop_last(), anchor, off);
        b1.insert(bone_index(b1, anchor) + off, s.last())
    }
}

/// The bone at `old_idx` and all the bones below it.
pub open spec fn moving_group(bones: Seq<BoneView>, old_idx: int) -> Seq<BoneView> {
    seq![bones[old_idx]] + descendants(bones, bones[old_idx].id)
}

/// The bones with as many bones as the moving group taken out at `old_idx`.
pub open spec fn without_group(bones: Seq<BoneView>, old_idx: int) -> Seq<BoneView> {
    let k = moving_group(bones, old_idx).len();
    bones.subrange(0, old_idx) + bones.subrange(old_idx + k, bones.len() as int)
}

/// What moving the bone at `old_idx`, with the bones below it, does: they are
/// taken out and put back before the bone that was at `new_idx`, or, when
/// setting it as the parent, right after it in reverse order of insertion
/// (which keeps their order).
pub open spec fn moved_bones(bones: Seq<BoneView>, old_idx: int, new_idx: int, is_setting_parent: bool) -> Seq<BoneView> {
    let group = moving_group(bones, old_idx);
    let order = if is_setting_parent {
        group.reverse()
    } else {
        group
    };
    inserted_at_anchor(
        without_group(bones, old_idx),
        order,
        bones[new_idx].id,
        if is_setting_parent {
            1
        } else {
            0
        },
    )
}

/// Whether moving can go through: the indices are valid, the bones below the
/// moved one follow it in the list, and the target is still there once the
/// moved bones are out.
pub open spec fn can_move_bone(bones: Seq<BoneView>, old_idx: i32, new_idx: i32) -> bool {
    &&& 0 <= old_idx < bones.len()
    &&& 0 <= new_idx < bones.len()
    &&& bones.len() < usize::MAX
    &&& has_finite_children(bones, bones[old_idx as int].id)
    &&& old_idx + moving_group(bones, old_idx as int).len() <= bones.len()
    &&& bone_index(without_group(bones, old_idx as int), bones[new_idx as int].id) >= 0
}

proof fn lemma_insert_keeps_index(b: Seq<BoneView>, i: int, x: BoneView, anchor: i32)
    requires
        bone_index(b, anchor) >= 0,
        0 <= i <= b.len(),
    ensures
        bone_index(b.insert(i, x), anchor) >= 0,
{
    let j = bone_index(b, anchor);
    assert(is_first_bone(b, anchor, j));
    let b2 = b.insert(i, x);
    if j < i {
        assert(b2[j] == b[j]);
        lemma_bone_index_found(b2, anchor, j);
    } else {
        assert(b2[j + 1] == b[j]);
        lemma_bone_index_found(b2, anchor, j + 1);
    }
}

/// Moves the bone at `old_idx` and the bones below it next to the bone at
/// `new_idx`: before it, or right after it when it becomes their parent.
pub fn move_bone(bones: &mut Vec<Bone>, old_idx: i32, new_idx: i32, is_setting_parent: bool)
    requires
        can_move_bone(views(old(bones)@), old_idx, new_idx),
    ensures
        views(final(bones)@) == moved_bones(
            views(old(bones)@),
            old_idx as int,
            new_idx as int,
            is_setting_parent,
        ),
{
    let ghost b0 = views(bones@);
    let anchor = bones[new_idx as usize].id;
    // gather all bones to be moved (this and its children)
    let mut to_move: Vec<Bone> = Vec::new();
    to_move.push(bones[old_idx as usize].duplicate());
    get_all_children(bones, &mut to_move, &bones[old_idx as usize]);
    let ghost group = views(to_move@);
    assert(group =~= moving_group(b0, old_idx as int));

    // remove them
    let o = old_idx as usize;
    let mut r: usize = 0;
    while r < to_move.len()
        invariant
            r <= to_move@.len(),
            group == views(to_move@),
            o + group.len() <= b0.len(),
            views(bones@) == b0.subrange(0, o as int) + b0.subrange(o + r, b0.len() as int),
            bones@.len() == b0.len() - r,
        decreases to_move@.len() - r,
    {
        let ghost before = bones@;
        bones.remove(o);
        assert(views(bones@) =~= views(before).remove(o as int));
        assert(views(bones@) =~= b0.subrange(0, o as int) + b0.subrange(o + r + 1, b0.len() as int));
        r = r + 1;
    }
    let ghost rest = views(bones@);
    assert(rest =~= without_group(b0, old_idx as int));

    // re-add them in the new positions
    let off: usize = if is_setting_parent {
        1
    } else {
        0
    };
    let ghost order = if is_setting_parent {
        group.reverse()
    } else {
        group
    };
    let n = to_move.len();
    let mut k: usize = 0;
    while k < n
        invariant
            k <= n,
            n == group.len(),
            group == views(to_move@),
            order == if is_setting_parent {
                group.reverse()
            } else {
                group
            },
            off == (if is_setting_parent {
                1usize
            } else {
                0usize
            }),
            bone_index(rest, anchor) >= 0,
            views(bones@) == inserted_at_anchor(rest, order.subrange(0, k as int), anchor, off as int),
            bone_index(views(bones@), anchor) >= 0,
            bones@.len() == rest.len() + k,
            rest.len() + n <= usize::MAX,
        decreases n - k,
    {
        let ghost before = views(bones@);
        let src: usize = if is_setting_parent {
            n - 1 - k
        } else {
            k
        };
        let x = to_move[src].duplicate();
        assert(x@ == order[k as int]);
        let idx = find_bone(bones, anchor).unwrap();
        bones.insert(idx + off, x);
        assert(order.subrange(0, k + 1).drop_last() =~= order.subrange(0, k as int));
        assert(views(bones@) =~= before.insert(idx + off, order[k as int]));
        proof {
            lemma_insert_keeps_index(before, (idx + off) as int, order[k as int], anchor);
        }
        k = k + 1;
    }
    assert(order.subrange(0, n as int) =~= order);
}

proof fn lemma_inserted_multiset(b: Seq<BoneView>, s: Seq<BoneView>, anchor: i32, off: int)
    requires
        bone_index(b, anchor) >= 0,
        0 <= off <= 1,
    ensures
        inserted_at_anchor(b, s, anchor, off).to_multiset() == b.to_multiset().add(s.to_multiset()),
        bone_index(inserted_at_anchor(b, s, anchor, off), anchor) >= 0,
        inserted_at_anchor(b, s, anchor, off).len() == b.len() + s.len(),
    decreases s.len(),
{
    broadcast use vstd::seq_lib::group_to_multiset_ensures;

    if s.len() > 0 {
        let b1 = inserted_at_anchor(b, s.drop_last(), anchor, off);
        lemma_inserted_multiset(b, s.drop_last(), anchor, off);
        let i = bone_index(b1, anchor);
        assert(is_first_bone(b1, anchor, i));
        let b2 = b1.insert(i + off, s.last());
        lemma_insert_keeps_index(b1, i + off, s.last(), anchor);
        assert(b2.remove(i + off) =~= b1);
        assert(b2.remove(i + off).to_multiset() =~= b2.to_multiset().remove(b2[i + off]));
        assert(s.drop_last().push(s.last()) =~= s);
        assert(b2.to_multiset() =~= b.to_multiset().add(s.to_multiset()));
    }
}

/// Moving a bone and the bones below it loses no bone and adds none, when
/// the bones below it directly follow it in the list (as in the hierarchy panel).
pub proof fn lemma_move_bone_keeps_bones(bones: Seq<BoneView>, old_idx: i32, new_idx: i32, is_setting_parent: bool)
    requires
        can_move_bone(bones, old_idx, new_idx),
        bones.subrange(old_idx as int, old_idx + moving_group(bones, old_idx as int).len())
            == moving_group(bones, old_idx as int),
    ensures
        moved_bones(bones, old_idx as int, new_idx as int, is_setting_parent).to_multiset()
            == bones.to_multiset(),
{
    broadcast use vstd::seq_lib::group_to_multiset_ensures;

    let o = old_idx as int;
    let group = moving_group(bones, o);
    let k = group.len();
    let rest = without_group(bones, o);
    let order = if is_setting_parent {
        group.reverse()
    } else {
        group
    };
    group.lemma_reverse_to_multiset();
    lemma_inserted_multiset(rest, order, bones[new_idx as int].id, if is_setting_parent { 1 } else { 0 });
    vstd::seq_lib::lemma_multiset_commutative(bones.subrange(0, o), bones.subrange(o + k, bones.len() as int));
    vstd::seq_lib::lemma_multiset_commutative(bones.subrange(0, o), bones.subrange(o, bones.len() as int));
    vstd::seq_lib::lemma_multiset_commutative(group, bones.subrange(o + k, bones.len() as int));
    assert(bones.subrange(0, o) + bones.subrange(o, bones.len() as int) =~= bones);
    assert(group + bones.subrange(o + k, bones.len() as int) =~= bones.subrange(o, bones.len() as int));
    assert(rest.to_multiset().add(order.to_multiset()) =~= bones.to_multiset());
}

/// How many times `x` occurs in `ids`.
pub open spec fn count_in(ids: Seq<i32>, x: i32) -> nat
    decreases ids.len(),
{
    if ids.len() == 0 {
        0
    } else {
        count_in(ids.drop_last(), x) + if ids.last() == x {
            1nat
        } else {
            0nat
        }
    }
}

/// The ids sorted by the position of their bones (keeping repeats), looking
/// at positions `lo..`.
pub open spec fn position_order_from(bones: Seq<BoneView>, ids: Seq<i32>, lo: int) -> Seq<i32>
    decreases bones.len() - lo,
{
    if lo < 0 || lo >= bones.len() {
        Seq::empty()
    } else {
        let id = bones[lo].id;
        (if is_first_bone(bones, id, lo) {
            Seq::new(count_in(ids, id), |i: int| id)
        } else {
            Seq::empty()
        }) + position_order_from(bones, ids, lo + 1)
    }
}

/// Whether a drop on bone `pointing_id` is refused: it is one of the dragged
/// bones, or lies below the first of them.
pub open spec fn drop_refused(bones: Seq<BoneView>, pointing_id: i32, bone_ids: Seq<i32>) -> bool {
    ||| bone_ids.contains(pointing_id)
    ||| (bone_ids.len() != 0 && exists|k: int|
        0 <= k < descendants(bones, bone_ids[0]).len() && descendants(bones, bone_ids[0])[k].id
            == pointing_id)
}

/// The order in which the dragged bones are moved: by position, top first
/// when dropping above, bottom first otherwise.
pub open spec fn drag_order(bones: Seq<BoneView>, bone_ids: Seq<i32>, is_above: bool) -> Seq<i32> {
    let asc = position_order_from(bones, bone_ids, 0);
    if is_above {
        asc
    } else {
        asc.reverse()
    }
}

/// Whether the drag can be decided: the dragged bones exist and the first has
/// a finite hierarchy below it.
pub open spec fn can_order_drag(bones: Seq<BoneView>, pointing_id: i32, bone_ids: Seq<i32>) -> bool {
    &&& bones.len() < usize::MAX
    &&& !bone_ids.contains(pointing_id) && bone_ids.len() != 0 ==> has_finite_children(bones, bone_ids[0])
        && bone_index(bones, bone_ids[0]) >= 0
    &&& !drop_refused(bones, pointing_id, bone_ids) ==> forall|k: int|
        0 <= k < bone_ids.len() ==> bone_index(bones, #[trigger] bone_ids[k]) >= 0
}

fn count_id(ids: &Vec<i32>, x: i32) -> (r: usize)
    ensures
        r == count_in(ids@, x),
{
    let mut c: usize = 0;
    let mut i: usize = 0;
    while i < ids.len()
        invariant
            i <= ids@.len(),
            c == count_in(ids@.subrange(0, i as int), x),
            c <= i,
        decreases ids@.len() - i,
    {
        assert(ids@.subrange(0, i + 1).drop_last() =~= ids@.subrange(0, i as int));
        if ids[i] == x {
            c = c + 1;
        }
        i = i + 1;
    }
    assert(ids@.subrange(0, ids@.len() as int) =~= ids@);
    c
}

/// Decides a drop of the bones `bone_ids` on bone `pointing_id`: nothing
/// (`None`) if the target is one of them or below the first of them, else
/// the order in which to move them.
pub fn drag_bone_order(armature: &Armature, pointing_id: i32, bone_ids: &Vec<i32>, is_above: bool) -> (r: Option<Vec<i32>>)
    requires
        can_order_drag(views(armature.bones@), pointing_id, bone_ids@),
    ensures
        match r {
            None => drop_refused(views(armature.bones@), pointing_id, bone_ids@),
            Some(order) => !drop_refused(views(armature.bones@), pointing_id, bone_ids@) && order@
                == drag_order(views(armature.bones@), bone_ids@, is_above),
        },
{
    let ghost bv = views(armature.bones@);
    if crate::seqs::contains_i32(bone_ids, pointing_id) {
        return None;
    }
    // ignore if pointing bone is a child of this
    if bone_ids.len() != 0 {
        let mut children: Vec<Bone> = Vec::new();
        let i = find_bone(&armature.bones, bone_ids[0]).unwrap();
        get_all_children(&armature.bones, &mut children, &armature.bones[i]);
        let ghost ch = views(children@);
        assert(ch =~= descendants(bv, bone_ids@[0]));
        let mut k: usize = 0;
        while k < children.len()
            invariant
                k <= children@.len(),
                ch == views(children@),
                bv == views(armature.bones@),
                bone_ids@.len() != 0,
                ch == descendants(bv, bone_ids@[0]),
                forall|j: int| 0 <= j < k ==> ch[j].id != pointing_id,
            decreases children@.len() - k,
        {
            if children[k].id == pointing_id {
                assert(ch[k as int].id == pointing_id);
                assert(0 <= k < descendants(bv, bone_ids@[0]).len() && descendants(bv, bone_ids@[0])[k as int].id == pointing_id);
                return None;
            }
            k = k + 1;
        }
    }
    // sort by position in the hierarchy
    let mut asc: Vec<i32> = Vec::new();
    let mut p: usize = armature.bones.len();
    while p > 0
        invariant
            p <= armature.bones@.len(),
            bv == views(armature.bones@),
            asc@ == position_order_from(bv, bone_ids@, p as int),
        decreases p,
    {
        p = p - 1;
        let id = armature.bones[p].id;
        proof {
            lemma_bone_index_found(bv, id, p as int);
        }
        let first = find_bone(&armature.bones, id).unwrap();
        assert(is_first_bone(bv, id, p as int) <==> first == p) by {
            assert(bv[p as int].id == id);
            if is_first_bone(bv, id, p as int) {
                let c = choose|k: int| is_first_bone(bv, id, k);
                assert(c == p as int) by {
                    if c < p as int {
                    } else if c > p as int {
                    }
                }
            }
        }
        let mut next: Vec<i32> = Vec::new();
        if first == p {
            let c = count_id(bone_ids, id);
            let mut t: usize = 0;
            while t < c
                invariant
                    t <= c,
                    next@ == Seq::new(t as nat, |i: int| id),
                decreases c - t,
            {
                next.push(id);
                t = t + 1;
                assert(next@ =~= Seq::new(t as nat, |i: int| id));
            }
        }
        let ghost head = next@;
        let mut t: usize = 0;
        while t < asc.len()
            invariant
                t <= asc@.len(),
                next@ == head + asc@.subrange(0, t as int),
            decreases asc@.len() - t,
        {
            next.push(asc[t]);
            t = t + 1;
            assert(next@ =~= head + asc@.subrange(0, t as int));
        }
        assert(asc@.subrange(0, asc@.len() as int) =~= asc@);
        assert(next@ =~= position_order_from(bv, bone_ids@, p as int));
        asc = next;
    }
    if is_above {
        Some(asc)
    } else {
        let mut desc: Vec<i32> = Vec::new();
        let mut t = asc.len();
        while t > 0
            invariant
                t <= asc@.len(),
                desc@ == asc@.subrange(t as int, asc@.len() as int).reverse(),
            decreases t,
        {
            t = t - 1;
            desc.push(asc[t]);
            assert(desc@ =~= asc@.subrange(t as int, asc@.len() as int).reverse());
        }
        assert(asc@.subrange(0, asc@.len() as int) =~= asc@);
        Some(desc)
    }
}

/// The bones after one dragged bone `id` is dropped on `pointing_id`: above
/// it as a sibling, or under it as its first child (the target unfolds).
pub open spec fn dragged_once(bones: Seq<BoneView>, id: i32, pointing_id: i32, is_above: bool) -> Seq<BoneView> {
    let b2 = moved_bones(
        reparented(bones, id, pointing_id, is_above),
        bone_index(bones, id),
        bone_index(bones, pointing_id),
        !is_above,
    );
    if is_above {
        b2
    } else {
        let q = bone_index(b2, pointing_id);
        b2.update(q, BoneView { folded: false, ..b2[q] })
    }
}

/// The bones once `id` takes its new parent, before it moves.
pub open spec fn reparented(bones: Seq<BoneView>, id: i32, pointing_id: i32, is_above: bool) -> Seq<BoneView> {
    let d = bone_index(bones, id);
    let p = bone_index(bones, pointing_id);
    bones.update(
        d,
        BoneView {
            parent_id: if is_above {
                bones[p].parent_id
            } else {
                bones[p].id
            },
            ..bones[d]
        },
    )
}

/// Whether one dragged bone can be dropped: both bones exist, positions fit
/// in `i32`, and the move can go through.
pub open spec fn can_drag_once(bones: Seq<BoneView>, id: i32, pointing_id: i32, is_above: bool) -> bool {
    &&& bone_index(bones, id) >= 0
    &&& bone_index(bones, pointing_id) >= 0
    &&& bones.len() <= i32::MAX
    &&& can_move_bone(
        reparented(bones, id, pointing_id, is_above),
        bone_index(bones, id) as i32,
        bone_index(bones, pointing_id) as i32,
    )
}

/// Drops one dragged bone `id` on bone `pointing_id`: it takes the target's
/// parent and moves above it, or takes the target as parent and moves just
/// below it, the target unfolding.
pub fn drag_bone_step(armature: &mut Armature, id: i32, pointing_id: i32, is_above: bool)
    requires
        can_drag_once(views(old(armature).bones@), id, pointing_id, is_above),
    ensures
        views(final(armature).bones@) == dragged_once(views(old(armature).bones@), id, pointing_id, is_above),
        final(armature).animations == old(armature).animations,
        final(armature).styles == old(armature).styles,
{
    let ghost b0 = views(armature.bones@);
    let drag_idx = find_bone(&armature.bones, id).unwrap();
    let point_idx = find_bone(&armature.bones, pointing_id).unwrap();
    set_parent(&mut armature.bones, drag_idx, point_idx, is_above);
    assert(views(armature.bones@) == reparented(b0, id, pointing_id, is_above));
    let ghost b1 = views(armature.bones@);
    move_bone(&mut armature.bones, drag_idx as i32, point_idx as i32, !is_above);
    if !is_above {
        proof {
            lemma_target_still_there(b1, drag_idx as int, point_idx as int, pointing_id);
        }
        unfold_target(&mut armature.bones, pointing_id);
    }
}

/// The dragged bone at `d` takes the parent of the target at `p` (above), or the target itself.
fn set_parent(bones: &mut Vec<Bone>, d: usize, p: usize, is_above: bool)
    requires
        d < old(bones)@.len(),
        p < old(bones)@.len(),
    ensures
        views(final(bones)@) == views(old(bones)@).update(
            d as int,
            BoneView {
                parent_id: if is_above {
                    views(old(bones)@)[p as int].parent_id
                } else {
                    views(old(bones)@)[p as int].id
                },
                ..views(old(bones)@)[d as int]
            },
        ),
{
    let ghost b0 = views(bones@);
    let new_parent = if is_above {
        bones[p].parent_id
    } else {
        bones[p].id
    };
    bones[d].parent_id = new_parent;
    assert(views(bones@) =~= b0.update(d as int, BoneView { parent_id: new_parent, ..b0[d as int] }));
}

/// Unfolds the first bone with id `id`.
fn unfold_target(bones: &mut Vec<Bone>, id: i32)
    requires
        bone_index(views(old(bones)@), id) >= 0,
    ensures
        views(final(bones)@) == views(old(bones)@).update(
            bone_index(views(old(bones)@), id),
            BoneView { folded: false, ..views(old(bones)@)[bone_index(views(old(bones)@), id)] },
        ),
{
    let ghost b0 = views(bones@);
    let q = find_bone(bones, id).unwrap();
    bones[q].folded = false;
    assert(views(bones@) =~= b0.update(q as int, BoneView { folded: false, ..b0[q as int] }));
}

/// Once a bone has moved under the target, the target can still be found.
proof fn lemma_target_still_there(b1: Seq<BoneView>, d: int, p: int, pointing_id: i32)
    requires
        can_move_bone(b1, d as i32, p as i32),
        0 <= d < b1.len(),
        0 <= p < b1.len(),
        b1.len() <= i32::MAX,
        b1[p].id == pointing_id,
    ensures
        bone_index(moved_bones(b1, d, p, true), pointing_id) >= 0,
{
    assert((p as i32) as int == p);
    assert((d as i32) as int == d);
    let group = moving_group(b1, d);
    lemma_inserted_multiset(without_group(b1, d), group.reverse(), pointing_id, 1);
}

/// The ids of `ids`, in order, whose bone exists and has a parent that is not
/// itself one of `ids`.
pub open spec fn root_ids(bones: Seq<BoneView>, ids: Seq<i32>, all: Seq<i32>) -> Seq<i32>
    decreases ids.len(),
{
    if ids.len() == 0 {
        ids
    } else {
        let r = root_ids(bones, ids.drop_last(), all);
        let i = bone_index(bones, ids.last());
        if i >= 0 && !all.contains(bones[i].parent_id) {
            r.push(ids.last())
        } else {
            r
        }
    }
}

/// The selected bones that are roots of the selection: those whose parent is
/// not selected too. Only these move when a group of bones is dragged.
pub fn only_root_bones(bones: &Vec<Bone>, ids: &Vec<i32>) -> (r: Vec<i32>)
    ensures
        r@ == root_ids(views(bones@), ids@, ids@),
{
    let mut r: Vec<i32> = Vec::new();
    let mut k: usize = 0;
    while k < ids.len()
        invariant
            k <= ids@.len(),
            r@ == root_ids(views(bones@), ids@.subrange(0, k as int), ids@),
        decreases ids@.len() - k,
    {
        assert(ids@.subrange(0, k + 1).drop_last() =~= ids@.subrange(0, k as int));
        match find_bone(bones, ids[k]) {
            Some(i) => {
                if !crate::seqs::contains_i32(ids, bones[i].parent_id) {
                    r.push(ids[k]);
                }
            },
            None => {},
        }
        k = k + 1;
    }
    assert(ids@.subrange(0, ids@.len() as int) =~= ids@);
    r
}

/// The bones after each id of `order`, in turn, is dropped on `pointing_id`.
pub open spec fn dragged_all(bones: Seq<BoneView>, order: Seq<i32>, pointing_id: i32, is_above: bool) -> Seq<BoneView>
    decreases order.len(),
{
    if order.len() == 0 {
        bones
    } else {
        dragged_once(dragged_all(bones, order.drop_last(), pointing_id, is_above), order.last(), pointing_id, is_above)
    }
}

/// Whether each of those drops can be made in turn.
pub open spec fn drags_fit(bones: Seq<BoneView>, order: Seq<i32>, pointing_id: i32, is_above: bool) -> bool
    decreases order.len(),
{
    order.len() == 0 || (drags_fit(bones, order.drop_last(), pointing_id, is_above) && can_drag_once(
        dragged_all(bones, order.drop_last(), pointing_id, is_above),
        order.last(),
        pointing_id,
        is_above,
    ))
}

/// Whether dropping the bones `bone_ids` on `pointing_id` can go through:
/// the drop can be decided, and unless it is refused every bone can be
/// moved in turn and the first of them is still found afterwards.
pub open spec fn can_drag(bones: Seq<BoneView>, pointing_id: i32, bone_ids: Seq<i32>, is_above: bool) -> bool {
    &&& can_order_drag(bones, pointing_id, bone_ids)
    &&& !drop_refused(bones, pointing_id, bone_ids) ==> {
        let order = drag_order(bones, bone_ids, is_above);
        &&& bone_ids.len() > 0
        &&& drags_fit(bones, order, pointing_id, is_above)
        &&& bone_index(dragged_all(bones, order, pointing_id, is_above), bone_ids[0]) >= 0
        &&& dragged_all(bones, order, pointing_id, is_above).len() < usize::MAX
    }
}

proof fn lemma_drags_fit_prefix(bones: Seq<BoneView>, order: Seq<i32>, pointing_id: i32, is_above: bool, n: int)
    requires
        drags_fit(bones, order, pointing_id, is_above),
        0 <= n <= order.len(),
    ensures
        drags_fit(bones, order.subrange(0, n), pointing_id, is_above),
    decreases order.len(),
{
    if n == order.len() {
        assert(order.subrange(0, n) =~= order);
    } else {
        lemma_drags_fit_prefix(bones, order.drop_last(), pointing_id, is_above, n);
        assert(order.drop_last().subrange(0, n) =~= order.subrange(0, n));
    }
}

/// Drops the bones `bone_ids` on bone `pointing_id`, above it or into it, in
/// drag order, and returns the new position of the first of them;
/// `usize::MAX` when the drop is refused (the target is dragged, or lies
/// below the first dragged bone).
pub fn drag_bone(armature: &mut Armature, pointing_id: i32, bone_ids: &Vec<i32>, is_above: bool) -> (r: usize)
    requires
        can_drag(views(old(armature).bones@), pointing_id, bone_ids@, is_above),
    ensures
        (r == usize::MAX) == drop_refused(views(old(armature).bones@), pointing_id, bone_ids@),
        r == usize::MAX ==> final(armature)@ == old(armature)@,
        r != usize::MAX ==> {
            let order = drag_order(views(old(armature).bones@), bone_ids@, is_above);
            &&& views(final(armature).bones@) == dragged_all(views(old(armature).bones@), order, pointing_id, is_above)
            &&& r == bone_index(views(final(armature).bones@), bone_ids@[0])
            &&& final(armature).animations == old(armature).animations
            &&& final(armature).styles == old(armature).styles
        },
{
    let ghost b0 = views(armature.bones@);
    let order = match drag_bone_order(armature, pointing_id, bone_ids, is_above) {
        Some(o) => o,
        None => return usize::MAX,
    };
    let ghost full = order@;
    let mut i: usize = 0;
    assert(full.subrange(0, 0) =~= Seq::<i32>::empty());
    while i < order.len()
        invariant
            i <= full.len(),
            order@ == full,
            full == drag_order(b0, bone_ids@, is_above),
            drags_fit(b0, full, pointing_id, is_above),
            views(armature.bones@) == dragged_all(b0, full.subrange(0, i as int), pointing_id, is_above),
            armature.animations == old(armature).animations,
            armature.styles == old(armature).styles,
        decreases full.len() - i,
    {
        proof {
            lemma_drags_fit_prefix(b0, full, pointing_id, is_above, i + 1);
            assert(full.subrange(0, i + 1).drop_last() =~= full.subrange(0, i as int));
        }
        drag_bone_step(armature, order[i], pointing_id, is_above);
        i = i + 1;
    }
    assert(full.subrange(0, full.len() as int) =~= full);
    let r = find_bone(&armature.bones, bone_ids[0]).unwrap();
    assert(r < armature.bones@.len());
    r
}

/// Dropping one dragged bone on another gives it its new parent: the
/// target's parent when dropped above it, the target itself when dropped on
/// it; the bone is otherwise as it was, and no bone is lost or added but for
/// that change (when the bones below the dragged one directly follow it in
/// the list).
pub proof fn lemma_drag_once_sets_parent(bones: Seq<BoneView>, id: i32, pointing_id: i32, is_above: bool)
    requires
        can_drag_once(bones, id, pointing_id, is_above),
        id != pointing_id,
        ({
            let rb = reparented(bones, id, pointing_id, is_above);
            let d = bone_index(bones, id);
            rb.subrange(d, d + moving_group(rb, d).len()) == moving_group(rb, d)
        }),
    ensures
        ({
            let d = bone_index(bones, id);
            let p = bone_index(bones, pointing_id);
            let r = dragged_once(bones, id, pointing_id, is_above);
            let parent = if is_above { bones[p].parent_id } else { pointing_id };
            &&& r.len() == bones.len()
            &&& r.contains(BoneView { parent_id: parent, ..bones[d] })
        }),
{
    broadcast use vstd::seq_lib::group_to_multiset_ensures;

    let d = bone_index(bones, id);
    let p = bone_index(bones, pointing_id);
    let rb = reparented(bones, id, pointing_id, is_above);
    let parent = if is_above { bones[p].parent_id } else { pointing_id };
    let moved = BoneView { parent_id: parent, ..bones[d] };
    assert(is_first_bone(bones, pointing_id, p));
    assert(rb[d] == moved);
    lemma_move_bone_keeps_bones(rb, d as i32, p as i32, !is_above);
    let b2 = moved_bones(rb, d, p, !is_above);
    assert(rb.contains(moved));
    assert(rb.to_multiset().count(moved) > 0);
    assert(b2.to_multiset().count(moved) > 0);
    assert(b2.contains(moved));
    assert(b2.len() == b2.to_multiset().len());
    assert(rb.len() == rb.to_multiset().len());
    if !is_above {
        assert(rb[p].id == pointing_id);
        lemma_target_still_there(rb, d, p, pointing_id);
        let q = bone_index(b2, pointing_id);
        assert(is_first_bone(b2, pointing_id, q));
        let w = choose|w: int| 0 <= w < b2.len() && b2[w] == moved;
        let r = dragged_once(bones, id, pointing_id, is_above);
        assert(w != q);
        assert(r[w] == moved);
    }
}

} // verus!
