//! Deleting bones, triangles and vertices together with everything that
//! refers to them.
use vstd::prelude::*;
use crate::hierarchy::{child_tree_finite, children_from, collect_children};
use crate::mesh::{
    apply_blacklist, pruned_blacklist, remove_blacklisted_tris, remove_id_from_binds,
    blacklist_scans_in_bounds, without_first_id,
};
use crate::model::{
    bone_index, find_bone, is_first_bone, lemma_bone_index_found, views, Armature, ArmatureView,
    AnimationView, BindView, Bone, BoneBind, BoneView, Duplicate, Keyframe, KeyframeView,
    SelectionState, SelectionView,
};

verus! {

/// Whether no two bones share an id.
pub open spec fn ids_unique(bones: Seq<BoneView>) -> bool {
    forall|i: int, j: int| 0 <= i < j < bones.len() ==> bones[i].id != bones[j].id
}

/// The ids of a list of bones, in order.
pub open spec fn bone_ids(bones: Seq<BoneView>) -> Seq<i32> {
    bones.map_values(|b: BoneView| b.id)
}

/// The ids of the bones that go when bone `id` is deleted: its own, then
/// those of the bones below it (looking at most `fuel` levels down).
pub open spec fn doomed_ids(bones: Seq<BoneView>, id: i32, fuel: nat) -> Seq<i32> {
    seq![id] + bone_ids(children_from(bones, id, fuel, 0))
}

/// The binds that do not follow any of the bones `ids`, in order.
pub open spec fn binds_without(binds: Seq<BindView>, ids: Seq<i32>) -> Seq<BindView>
    decreases binds.len(),
{
    if binds.len() == 0 {
        binds
    } else {
        let r = binds_without(binds.drop_last(), ids);
        if ids.contains(binds.last().bone_id) {
            r
        } else {
            r.push(binds.last())
        }
    }
}

/// The keyframes that do not animate any of the bones `ids`, in order.
pub open spec fn keyframes_without(kfs: Seq<KeyframeView>, ids: Seq<i32>) -> Seq<KeyframeView>
    decreases kfs.len(),
{
    if kfs.len() == 0 {
        kfs
    } else {
        let r = keyframes_without(kfs.drop_last(), ids);
        if ids.contains(kfs.last().bone_id) {
            r
        } else {
            r.push(kfs.last())
        }
    }
}

/// A remaining bone once the bones `ids` are gone: its binds to them are
/// dropped, and it no longer aims at `target` with inverse kinematics.
pub open spec fn untied(b: BoneView, ids: Seq<i32>, target: i32) -> BoneView {
    BoneView {
        binds: binds_without(b.binds, ids),
        ik_target_id: if b.ik_target_id == target {
            -1i32
        } else {
            b.ik_target_id
        },
        ..b
    }
}

/// Every bone untied from the bones `ids`.
pub open spec fn untied_all(bones: Seq<BoneView>, ids: Seq<i32>, target: i32) -> Seq<BoneView> {
    bones.map_values(|b: BoneView| untied(b, ids, target))
}

/// `bones` once, for each id of `ids` in order, the first bone with that id
/// is removed.
pub open spec fn without_firsts(bones: Seq<BoneView>, ids: Seq<i32>) -> Seq<BoneView>
    decreases ids.len(),
{
    if ids.len() == 0 {
        bones
    } else {
        let r = without_firsts(bones, ids.drop_last());
        r.remove(bone_index(r, ids.last()))
    }
}

/// Whether each of those removals finds a bone.
pub open spec fn firsts_found(bones: Seq<BoneView>, ids: Seq<i32>) -> bool
    decreases ids.len(),
{
    ids.len() == 0 || (firsts_found(bones, ids.drop_last()) && bone_index(
        without_firsts(bones, ids.drop_last()),
        ids.last(),
    ) >= 0)
}

/// Every animation without its keyframes of the bones `ids`.
pub open spec fn animations_without(anims: Seq<AnimationView>, ids: Seq<i32>) -> Seq<AnimationView> {
    Seq::new(
        anims.len(),
        |a: int| AnimationView { keyframes: keyframes_without(anims[a].keyframes, ids), ..anims[a] },
    )
}

/// The armature once bone `id` and the bones below it are deleted (unchanged
/// when there is no bone `id`): the bones go one by one, the deepest last
/// found first, and the rest is untied from them.
pub open spec fn deleted_once(arm: ArmatureView, id: i32, target: i32, fuel: nat) -> ArmatureView {
    if bone_index(arm.bones, id) < 0 {
        arm
    } else {
        let d = doomed_ids(arm.bones, id, fuel);
        ArmatureView {
            bones: untied_all(without_firsts(arm.bones, d.reverse()), d, target),
            animations: animations_without(arm.animations, d),
            ..arm
        }
    }
}

/// Whether deleting bone `id` finds every bone it removes.
pub open spec fn once_fits(arm: ArmatureView, id: i32, fuel: nat) -> bool {
    bone_index(arm.bones, id) < 0 || firsts_found(arm.bones, doomed_ids(arm.bones, id, fuel).reverse())
}

/// The armature once the bones `ids` are deleted, one after the other.
pub open spec fn deleted_all(arm: ArmatureView, ids: Seq<i32>, target: i32, fuel: nat) -> ArmatureView
    decreases ids.len(),
{
    if ids.len() == 0 {
        arm
    } else {
        deleted_once(deleted_all(arm, ids.drop_last(), target, fuel), ids.last(), target, fuel)
    }
}

/// Whether each of those deletions finds every bone it removes.
pub open spec fn all_fit(arm: ArmatureView, ids: Seq<i32>, target: i32, fuel: nat) -> bool
    decreases ids.len(),
{
    ids.len() == 0 || (all_fit(arm, ids.drop_last(), target, fuel) && once_fits(
        deleted_all(arm, ids.drop_last(), target, fuel),
        ids.last(),
        fuel,
    ))
}

/// The bones that deleting the bone at `idx` asks to delete: that bone, and
/// the whole selection when it is part of it.
pub open spec fn ids_to_delete(bones: Seq<BoneView>, sel: SelectionView, idx: int) -> Seq<i32> {
    let id = bones[idx].id;
    if sel.bone_ids.contains(id) {
        seq![id] + sel.bone_ids
    } else {
        seq![id]
    }
}

/// Whether the bone at `idx` can be deleted: it exists, the hierarchy below
/// each bone to delete is finite, and every removal finds its bone.
pub open spec fn can_delete_bone(arm: ArmatureView, sel: SelectionView, idx: int) -> bool {
    &&& 0 <= idx < arm.bones.len()
    &&& arm.bones.len() <= i32::MAX
    &&& forall|k: int|
        0 <= k < ids_to_delete(arm.bones, sel, idx).len() ==> child_tree_finite(
            arm.bones,
            #[trigger] ids_to_delete(arm.bones, sel, idx)[k],
            (arm.bones.len() + 1) as nat,
        )
    &&& all_fit(arm, ids_to_delete(arm.bones, sel, idx), idx as i32, (arm.bones.len() + 1) as nat)
}

/// Whether some bone of `big` has id `id` and parent `parent`.
pub open spec fn has_link(big: Seq<BoneView>, id: i32, parent: i32) -> bool {
    exists|k: int| 0 <= k < big.len() && big[k].id == id && big[k].parent_id == parent
}

/// Every bone of `small` has the id and parent of some bone of `big`.
pub open spec fn links_within(small: Seq<BoneView>, big: Seq<BoneView>) -> bool {
    forall|j: int| 0 <= j < small.len() ==> #[trigger] has_link(big, small[j].id, small[j].parent_id)
}

proof fn lemma_finite_within(big: Seq<BoneView>, small: Seq<BoneView>, id: i32, fuel: nat)
    requires
        child_tree_finite(big, id, fuel),
        links_within(small, big),
    ensures
        child_tree_finite(small, id, fuel),
    decreases fuel,
{
    assert forall|j: int| 0 <= j < small.len() && #[trigger] small[j].parent_id == id implies child_tree_finite(
        small,
        small[j].id,
        (fuel - 1) as nat,
    ) by {
        assert(has_link(big, small[j].id, small[j].parent_id));
        let k = choose|k: int|
            0 <= k < big.len() && big[k].id == small[j].id && big[k].parent_id == small[j].parent_id;
        assert(big[k].parent_id == id);
        lemma_finite_within(big, small, small[j].id, (fuel - 1) as nat);
    }
}

proof fn lemma_links_trans(a: Seq<BoneView>, b: Seq<BoneView>, c: Seq<BoneView>)
    requires
        links_within(a, b),
        links_within(b, c),
    ensures
        links_within(a, c),
{
    assert forall|j: int| 0 <= j < a.len() implies #[trigger] has_link(c, a[j].id, a[j].parent_id) by {
        assert(has_link(b, a[j].id, a[j].parent_id));
        let m = choose|m: int| 0 <= m < b.len() && b[m].id == a[j].id && b[m].parent_id == a[j].parent_id;
        assert(has_link(c, b[m].id, b[m].parent_id));
        let k = choose|k: int| 0 <= k < c.len() && c[k].id == b[m].id && c[k].parent_id == b[m].parent_id;
        assert(c[k].id == a[j].id && c[k].parent_id == a[j].parent_id);
    }
}

proof fn lemma_firsts_found_prefix(bones: Seq<BoneView>, s: Seq<i32>, n: int)
    requires
        firsts_found(bones, s),
        0 <= n <= s.len(),
    ensures
        firsts_found(bones, s.subrange(0, n)),
    decreases s.len(),
{
    if n == s.len() {
        assert(s.subrange(0, n) =~= s);
    } else {
        lemma_firsts_found_prefix(bones, s.drop_last(), n);
        assert(s.drop_last().subrange(0, n) =~= s.subrange(0, n));
    }
}

proof fn lemma_without_firsts_within(bones: Seq<BoneView>, s: Seq<i32>)
    requires
        firsts_found(bones, s),
    ensures
        links_within(without_firsts(bones, s), bones),
    decreases s.len(),
{
    if s.len() == 0 {
        let r = without_firsts(bones, s);
        assert(r == bones);
        assert forall|j: int| 0 <= j < r.len() implies #[trigger] has_link(bones, r[j].id, r[j].parent_id) by {
            assert(bones[j].id == r[j].id && bones[j].parent_id == r[j].parent_id);
        }
    } else {
        let r = without_firsts(bones, s.drop_last());
        lemma_without_firsts_within(bones, s.drop_last());
        let i = bone_index(r, s.last());
        let r2 = r.remove(i);
        assert(r2 == without_firsts(bones, s));
        assert forall|j: int| 0 <= j < r2.len() implies #[trigger] has_link(r, r2[j].id, r2[j].parent_id) by {
            if j < i {
                assert(r2[j] == r[j]);
                assert(r[j].id == r2[j].id && r[j].parent_id == r2[j].parent_id);
            } else {
                assert(r2[j] == r[j + 1]);
                assert(r[j + 1].id == r2[j].id && r[j + 1].parent_id == r2[j].parent_id);
            }
        }
        lemma_links_trans(r2, r, bones);
    }
}

proof fn lemma_untied_within(bones: Seq<BoneView>, ids: Seq<i32>, target: i32)
    ensures
        links_within(untied_all(bones, ids, target), bones),
{
    let u = untied_all(bones, ids, target);
    assert forall|j: int| 0 <= j < u.len() implies #[trigger] has_link(bones, u[j].id, u[j].parent_id) by {
        assert(u[j] == untied(bones[j], ids, target));
        assert(bones[j].id == u[j].id && bones[j].parent_id == u[j].parent_id);
    }
}

/// One deletion keeps only bones that were there, by id and parent.
proof fn lemma_deleted_once_within(arm: ArmatureView, id: i32, target: i32, fuel: nat)
    requires
        once_fits(arm, id, fuel),
    ensures
        links_within(deleted_once(arm, id, target, fuel).bones, arm.bones),
{
    if bone_index(arm.bones, id) < 0 {
        let b = arm.bones;
        assert forall|j: int| 0 <= j < b.len() implies #[trigger] has_link(b, b[j].id, b[j].parent_id) by {
            assert(b[j].id == b[j].id && b[j].parent_id == b[j].parent_id);
        }
    } else {
        let d = doomed_ids(arm.bones, id, fuel);
        let w = without_firsts(arm.bones, d.reverse());
        lemma_without_firsts_within(arm.bones, d.reverse());
        lemma_untied_within(w, d, target);
        lemma_links_trans(untied_all(w, d, target), w, arm.bones);
    }
}

proof fn lemma_all_fit_prefix(arm: ArmatureView, s: Seq<i32>, target: i32, fuel: nat, n: int)
    requires
        all_fit(arm, s, target, fuel),
        0 <= n <= s.len(),
    ensures
        all_fit(arm, s.subrange(0, n), target, fuel),
    decreases s.len(),
{
    if n == s.len() {
        assert(s.subrange(0, n) =~= s);
    } else {
        lemma_all_fit_prefix(arm, s.drop_last(), target, fuel, n);
        assert(s.drop_last().subrange(0, n) =~= s.subrange(0, n));
    }
}

/// Removes the binds that follow one of the bones `ids`.
fn drop_binds_to(binds: &mut Vec<BoneBind>, ids: &Vec<i32>)
    ensures
        views(final(binds)@) == binds_without(views(old(binds)@), ids@),
{
    let mut all: Vec<BoneBind> = Vec::new();
    std::mem::swap(&mut all, binds);
    let ghost a = views(all@);
    let mut i: usize = 0;
    while i < all.len()
        invariant
            i <= all@.len(),
            a == views(all@),
            views(binds@) == binds_without(a.subrange(0, i as int), ids@),
        decreases all@.len() - i,
    {
        let ghost before = views(binds@);
        if !crate::seqs::contains_i32(ids, all[i].bone_id) {
            binds.push(all[i].duplicate());
            assert(views(binds@) =~= before.push(a[i as int]));
        }
        assert(a.subrange(0, i + 1).drop_last() =~= a.subrange(0, i as int));
        i = i + 1;
    }
    assert(a.subrange(0, a.len() as int) =~= a);
}

/// Removes the keyframes that animate one of the bones `ids`.
fn drop_keyframes_of(kfs: &mut Vec<Keyframe>, ids: &Vec<i32>)
    ensures
        views(final(kfs)@) == keyframes_without(views(old(kfs)@), ids@),
{
    let mut all: Vec<Keyframe> = Vec::new();
    std::mem::swap(&mut all, kfs);
    let ghost a = views(all@);
    let mut i: usize = 0;
    while i < all.len()
        invariant
            i <= all@.len(),
            a == views(all@),
            views(kfs@) == keyframes_without(a.subrange(0, i as int), ids@),
        decreases all@.len() - i,
    {
        let ghost before = views(kfs@);
        if !crate::seqs::contains_i32(ids, all[i].bone_id) {
            kfs.push(all[i].duplicate());
            assert(views(kfs@) =~= before.push(a[i as int]));
        }
        assert(a.subrange(0, i + 1).drop_last() =~= a.subrange(0, i as int));
        i = i + 1;
    }
    assert(a.subrange(0, a.len() as int) =~= a);
}

/// Removes, for each id of `ids` from the last to the first, the first bone
/// with that id; tells whether every removal found its bone.
fn remove_firsts(bones: &mut Vec<Bone>, ids: &Vec<i32>) -> (ok: bool)
    ensures
        ok == firsts_found(views(old(bones)@), ids@.reverse()),
        ok ==> views(final(bones)@) == without_firsts(views(old(bones)@), ids@.reverse()),
{
    let ghost b0 = views(bones@);
    let ghost rev = ids@.reverse();
    let ghost n = ids@.len() as int;
    let mut k: usize = ids.len();
    assert(rev.subrange(0, 0) =~= Seq::<i32>::empty());
    while k > 0
        invariant
            k <= n,
            n == ids@.len(),
            rev == ids@.reverse(),
            b0 == views(old(bones)@),
            firsts_found(b0, rev.subrange(0, n - k)),
            views(bones@) == without_firsts(b0, rev.subrange(0, n - k)),
        decreases k,
    {
        let ghost pre = rev.subrange(0, n - k);
        let ghost next = rev.subrange(0, n - k + 1);
        assert(next.drop_last() =~= pre);
        assert(next.last() == ids@[k - 1]);
        match find_bone(bones, ids[k - 1]) {
            Some(p) => {
                let ghost before = views(bones@);
                bones.remove(p);
                assert(views(bones@) =~= before.remove(p as int));
            },
            None => {
                proof {
                    if firsts_found(b0, rev) {
                        lemma_firsts_found_prefix(b0, rev, n - k + 1);
                        assert(firsts_found(b0, next));
                        assert(bone_index(without_firsts(b0, pre), ids@[k - 1]) >= 0);
                    }
                }
                return false;
            },
        }
        k = k - 1;
    }
    assert(rev.subrange(0, n) =~= rev);
    true
}

/// Unties every bone from the bones `ids`.
fn untie_bones(bones: &mut Vec<Bone>, ids: &Vec<i32>, target: i32)
    ensures
        views(final(bones)@) == untied_all(views(old(bones)@), ids@, target),
{
    let mut all: Vec<Bone> = Vec::new();
    std::mem::swap(&mut all, bones);
    let ghost a = views(all@);
    let mut i: usize = 0;
    while i < all.len()
        invariant
            i <= all@.len(),
            a == views(all@),
            views(bones@) == untied_all(a.subrange(0, i as int), ids@, target),
        decreases all@.len() - i,
    {
        let ghost before = views(bones@);
        let mut b = all[i].duplicate();
        drop_binds_to(&mut b.binds, ids);
        if b.ik_target_id == target {
            b.ik_target_id = -1;
        }
        assert(b@ == untied(a[i as int], ids@, target));
        bones.push(b);
        assert(untied_all(a.subrange(0, i + 1), ids@, target) =~= untied_all(a.subrange(0, i as int), ids@, target).push(
            untied(a[i as int], ids@, target),
        ));
        assert(views(bones@) =~= before.push(untied(a[i as int], ids@, target)));
        i = i + 1;
    }
    assert(a.subrange(0, a.len() as int) =~= a);
}

/// Deletes bone `id` and the bones below it, with their keyframes and the
/// binds that follow them; bones aiming at `target` stop aiming. Tells
/// whether every removal found its bone.
fn try_delete_once(armature: &mut Armature, id: i32, target: i32, fuel: usize) -> (ok: bool)
    requires
        child_tree_finite(old(armature)@.bones, id, fuel as nat),
    ensures
        ok == once_fits(old(armature)@, id, fuel as nat),
        ok ==> final(armature)@ == deleted_once(old(armature)@, id, target, fuel as nat),
{
    if find_bone(&armature.bones, id).is_none() {
        return true;
    }
    let ghost arm0 = armature@;
    let mut children: Vec<Bone> = Vec::new();
    collect_children(&armature.bones, &mut children, id, fuel);
    assert(views(children@) =~= children_from(arm0.bones, id, fuel as nat, 0));
    let mut doomed: Vec<i32> = Vec::new();
    doomed.push(id);
    let mut c: usize = 0;
    while c < children.len()
        invariant
            c <= children@.len(),
            doomed@ == seq![id] + bone_ids(views(children@).subrange(0, c as int)),
        decreases children@.len() - c,
    {
        doomed.push(children[c].id);
        assert(bone_ids(views(children@).subrange(0, c + 1)) =~= bone_ids(
            views(children@).subrange(0, c as int),
        ).push(children@[c as int].id));
        c = c + 1;
    }
    assert(views(children@).subrange(0, children@.len() as int) =~= views(children@));
    assert(doomed@ == doomed_ids(arm0.bones, id, fuel as nat));
    if !remove_firsts(&mut armature.bones, &doomed) {
        return false;
    }
    untie_bones(&mut armature.bones, &doomed, target);
    let mut a: usize = 0;
    while a < armature.animations.len()
        invariant
            a <= armature.animations@.len(),
            armature.animations@.len() == arm0.animations.len(),
            views(armature.bones@) == untied_all(without_firsts(arm0.bones, doomed@.reverse()), doomed@, target),
            armature@.styles == arm0.styles,
            forall|k: int|
                0 <= k < a ==> #[trigger] views(armature.animations@)[k] == (AnimationView {
                    keyframes: keyframes_without(arm0.animations[k].keyframes, doomed@),
                    ..arm0.animations[k]
                }),
            forall|k: int|
                a <= k < arm0.animations.len() ==> #[trigger] views(armature.animations@)[k]
                    == arm0.animations[k],
        decreases arm0.animations.len() - a,
    {
        let ghost before = views(armature.animations@);
        let ghost raw = armature.animations@;
        let mut kfs: Vec<Keyframe> = Vec::new();
        std::mem::swap(&mut kfs, &mut armature.animations[a].keyframes);
        assert(views(kfs@) == before[a as int].keyframes);
        drop_keyframes_of(&mut kfs, &doomed);
        armature.animations[a].keyframes = kfs;
        assert(forall|k: int| 0 <= k < raw.len() && k != a ==> armature.animations@[k] == raw[k]);
        assert(views(armature.animations@) =~= before.update(
            a as int,
            AnimationView {
                keyframes: keyframes_without(arm0.animations[a as int].keyframes, doomed@),
                ..arm0.animations[a as int]
            },
        ));
        a = a + 1;
    }
    assert(views(armature.animations@) =~= animations_without(arm0.animations, doomed@));
    true
}

/// Deletes the bones `ids`, one after the other; tells whether every removal
/// found its bone.
fn try_delete_all(armature: &mut Armature, ids: &Vec<i32>, target: i32, fuel: usize) -> (ok: bool)
    requires
        forall|k: int| 0 <= k < ids@.len() ==> child_tree_finite(old(armature)@.bones, #[trigger] ids@[k], fuel as nat),
    ensures
        ok == all_fit(old(armature)@, ids@, target, fuel as nat),
        ok ==> final(armature)@ == deleted_all(old(armature)@, ids@, target, fuel as nat),
{
    let ghost arm0 = armature@;
    let mut i: usize = 0;
    assert(ids@.subrange(0, 0) =~= Seq::<i32>::empty());
    while i < ids.len()
        invariant
            i <= ids@.len(),
            arm0 == old(armature)@,
            all_fit(arm0, ids@.subrange(0, i as int), target, fuel as nat),
            armature@ == deleted_all(arm0, ids@.subrange(0, i as int), target, fuel as nat),
            forall|k: int|
                i <= k < ids@.len() ==> child_tree_finite(armature@.bones, #[trigger] ids@[k], fuel as nat),
        decreases ids@.len() - i,
    {
        let ghost before = armature@;
        let ghost pre = ids@.subrange(0, i as int);
        let ghost next = ids@.subrange(0, i + 1);
        assert(next.drop_last() =~= pre);
        assert(next.last() == ids@[i as int]);
        if !try_delete_once(armature, ids[i], target, fuel) {
            proof {
                if all_fit(arm0, ids@, target, fuel as nat) {
                    lemma_all_fit_prefix(arm0, ids@, target, fuel as nat, i + 1);
                    assert(all_fit(arm0, next, target, fuel as nat));
                    assert(once_fits(deleted_all(arm0, pre, target, fuel as nat), ids@[i as int], fuel as nat));
                }
            }
            return false;
        }
        proof {
            lemma_deleted_once_within(before, ids@[i as int], target, fuel as nat);
            assert forall|k: int| i < k < ids@.len() implies child_tree_finite(
                armature@.bones,
                #[trigger] ids@[k],
                fuel as nat,
            ) by {
                lemma_finite_within(before.bones, armature@.bones, ids@[k], fuel as nat);
            }
        }
        i = i + 1;
    }
    assert(ids@.subrange(0, ids@.len() as int) =~= ids@);
    true
}

/// The ids that deleting the bone at `idx` asks to delete.
fn deletion_ids(armature: &Armature, selections: &SelectionState, idx: usize) -> (ids: Vec<i32>)
    requires
        idx < armature.bones.len(),
    ensures
        ids@ == ids_to_delete(armature@.bones, selections@, idx as int),
{
    let id = armature.bones[idx].id;
    let mut ids: Vec<i32> = Vec::new();
    ids.push(id);
    if crate::seqs::contains_i32(&selections.bone_ids, id) {
        let mut s: usize = 0;
        while s < selections.bone_ids.len()
            invariant
                s <= selections.bone_ids@.len(),
                ids@ == seq![id] + selections.bone_ids@.subrange(0, s as int),
            decreases selections.bone_ids@.len() - s,
        {
            ids.push(selections.bone_ids[s]);
            assert(selections.bone_ids@.subrange(0, s + 1) =~= selections.bone_ids@.subrange(
                0,
                s as int,
            ).push(selections.bone_ids@[s as int]));
            s = s + 1;
        }
        assert(selections.bone_ids@.subrange(0, selections.bone_ids@.len() as int) =~= selections.bone_ids@);
    }
    assert(ids@ =~= ids_to_delete(armature@.bones, selections@, idx as int));
    ids
}

/// Deletes the bone at `idx` and every bone below it; when that bone is
/// selected, every selected bone goes the same way. Keyframes of the deleted
/// bones and binds that follow them are removed, and bones whose inverse
/// kinematics target equals `idx` lose their target. The selection is
/// cleared when it was the deleted bone or held several bones.
pub fn delete_bone(armature: &mut Armature, selections: &mut SelectionState, idx: usize)
    requires
        can_delete_bone(old(armature)@, old(selections)@, idx as int),
    ensures
        final(armature)@ == deleted_all(
            old(armature)@,
            ids_to_delete(old(armature)@.bones, old(selections)@, idx as int),
            idx as i32,
            (old(armature)@.bones.len() + 1) as nat,
        ),
        final(selections)@ == (if old(selections).bone_idx == idx || old(selections).bone_ids.len() > 1 {
            SelectionView { bone_idx: usize::MAX, bone_ids: Seq::empty(), ..old(selections)@ }
        } else {
            old(selections)@
        }),
{
    let ids = deletion_ids(armature, selections, idx);
    let fuel: usize = armature.bones.len() + 1;
    let ok = try_delete_all(armature, &ids, idx as i32, fuel);
    assert(ok);
    if selections.bone_idx == idx || selections.bone_ids.len() > 1 {
        selections.bone_idx = usize::MAX;
        selections.bone_ids = Vec::new();
    }
}

/// Whether `delete_bone` may be called for the bone at `idx`.
pub fn can_delete(armature: &Armature, selections: &SelectionState, idx: usize) -> (r: bool)
    ensures
        r == can_delete_bone(armature@, selections@, idx as int),
{
    if idx >= armature.bones.len() || armature.bones.len() > i32::MAX as usize {
        return false;
    }
    let ids = deletion_ids(armature, selections, idx);
    let ghost todo = ids_to_delete(armature@.bones, selections@, idx as int);
    let fuel: usize = armature.bones.len() + 1;
    let mut k: usize = 0;
    while k < ids.len()
        invariant
            k <= ids@.len(),
            ids@ == todo,
            todo == ids_to_delete(armature@.bones, selections@, idx as int),
            fuel == armature@.bones.len() + 1,
            forall|j: int| 0 <= j < k ==> child_tree_finite(armature@.bones, #[trigger] ids@[j], fuel as nat),
        decreases ids@.len() - k,
    {
        if !tree_finite(&armature.bones, ids[k], fuel) {
            assert(!child_tree_finite(armature@.bones, todo[k as int], fuel as nat));
            return false;
        }
        k = k + 1;
    }
    let mut copy = armature.duplicate();
    try_delete_all(&mut copy, &ids, idx as i32, fuel)
}

/// Whether the hierarchy below bone `id` is finite within `fuel` levels.
fn tree_finite(bones: &Vec<Bone>, id: i32, fuel: usize) -> (r: bool)
    ensures
        r == child_tree_finite(views(bones@), id, fuel as nat),
    decreases fuel,
{
    let ghost bv = views(bones@);
    if fuel == 0 {
        return false;
    }
    let mut j: usize = 0;
    while j < bones.len()
        invariant
            j <= bones@.len(),
            bv == views(bones@),
            fuel > 0,
            forall|k: int|
                0 <= k < j && #[trigger] bv[k].parent_id == id ==> child_tree_finite(
                    bv,
                    bv[k].id,
                    (fuel - 1) as nat,
                ),
        decreases bones@.len() - j,
    {
        if bones[j].parent_id == id && !tree_finite(bones, bones[j].id, fuel - 1) {
            assert(bv[j as int].parent_id == id);
            return false;
        }
        j = j + 1;
    }
    true
}

/// The ids of the vertices at positions `t`, `t + 1` and `t + 2` of the
/// triangle list.
pub open spec fn triangle_ids(b: BoneView, t: int) -> Seq<u32> {
    seq![
        b.vertices[b.indices[t] as int].id,
        b.vertices[b.indices[t + 1] as int].id,
        b.vertices[b.indices[t + 2] as int].id,
    ]
}

/// Whether the triangle starting at position `t` of the triangle list can be
/// deleted from bone `b`.
pub open spec fn can_delete_triangle(b: BoneView, t: int) -> bool {
    &&& 0 <= t
    &&& t + 2 < b.indices.len()
    &&& b.indices[t] < b.vertices.len()
    &&& b.indices[t + 1] < b.vertices.len()
    &&& b.indices[t + 2] < b.vertices.len()
    &&& blacklist_scans_in_bounds(b.indices, b.vertices, b.blacklist + triangle_ids(b, t))
}

/// Blacklists the triangle starting at position `t` of the triangle list,
/// then removes the blacklisted triangles from the mesh.
pub fn delete_triangle(bone: &mut Bone, t: usize)
    requires
        can_delete_triangle(old(bone)@, t as int),
    ensures
        ({
            let bl = pruned_blacklist(old(bone)@.blacklist + triangle_ids(old(bone)@, t as int), old(bone)@.vertices);
            final(bone)@ == (BoneView {
                blacklist: bl,
                indices: apply_blacklist(old(bone)@.indices, old(bone)@.vertices, bl, (bl.len() / 3) as int),
                ..old(bone)@
            })
        }),
{
    let ghost b0 = bone@;
    let n = bone.indices.len();
    assert(t + 2 < n);
    let a = bone.vertices[bone.indices[t] as usize].id;
    let b = bone.vertices[bone.indices[t + 1] as usize].id;
    let c = bone.vertices[bone.indices[t + 2] as usize].id;
    bone.blacklist.push(a);
    bone.blacklist.push(b);
    bone.blacklist.push(c);
    assert(bone.blacklist@ =~= b0.blacklist + triangle_ids(b0, t as int));
    remove_blacklisted_tris(&mut bone.indices, &bone.vertices, &mut bone.blacklist);
}

pub open spec fn is_first_of(s: Seq<usize>, x: usize, i: int) -> bool {
    &&& 0 <= i < s.len()
    &&& s[i] == x
    &&& forall|j: int| 0 <= j < i ==> s[j] != x
}

/// `s` without its first element equal to `x` (unchanged if there is none).
pub open spec fn without_first(s: Seq<usize>, x: usize) -> Seq<usize> {
    if exists|i: int| is_first_of(s, x, i) {
        s.remove(choose|i: int| is_first_of(s, x, i))
    } else {
        s
    }
}

/// The binds, each without its first vertex with id `id`.
pub open spec fn binds_forgetting(binds: Seq<BindView>, id: i32) -> Seq<BindView> {
    Seq::new(binds.len(), |k: int| BindView { verts: without_first_id(binds[k].verts, id), ..binds[k] })
}

/// Forgets vertex `vert_id` once it has left the mesh: it leaves the selected
/// vertices and each bind of the bone.
pub fn forget_vertex(bone: &mut Bone, selections: &mut SelectionState, vert_id: u32)
    ensures
        final(bone)@ == (BoneView { binds: binds_forgetting(old(bone)@.binds, vert_id as i32), ..old(bone)@ }),
        final(selections)@ == (SelectionView {
            vert_ids: without_first(old(selections)@.vert_ids, vert_id as usize),
            ..old(selections)@
        }),
{
    let ghost v0 = selections.vert_ids@;
    let x = vert_id as usize;
    let mut i: usize = 0;
    let mut found = false;
    while i < selections.vert_ids.len() && !found
        invariant
            i <= v0.len(),
            selections.vert_ids@ == v0,
            found ==> is_first_of(v0, x, i as int),
            !found ==> forall|j: int| 0 <= j < i ==> v0[j] != x,
        decreases v0.len() - i + (if found { 0int } else { 1int }),
    {
        if selections.vert_ids[i] == x {
            found = true;
        } else {
            i = i + 1;
        }
    }
    if found {
        let ghost c = choose|k: int| is_first_of(v0, x, k);
        assert(c == i as int) by {
            if c < i as int {
            } else if c > i as int {
            }
        }
        selections.vert_ids.remove(i);
    } else {
        assert(!exists|k: int| is_first_of(v0, x, k));
    }
    let ghost b0 = views(bone.binds@);
    remove_id_from_binds(&mut bone.binds, vert_id as i32);
    assert(views(bone.binds@) =~= binds_forgetting(b0, vert_id as i32));
}

proof fn lemma_binds_without(binds: Seq<BindView>, ids: Seq<i32>)
    ensures
        forall|k: int|
            0 <= k < binds_without(binds, ids).len() ==> !ids.contains(
                #[trigger] binds_without(binds, ids)[k].bone_id,
            ),
    decreases binds.len(),
{
    if binds.len() > 0 {
        let r = binds_without(binds.drop_last(), ids);
        lemma_binds_without(binds.drop_last(), ids);
        assert forall|k: int| 0 <= k < binds_without(binds, ids).len() implies !ids.contains(
            #[trigger] binds_without(binds, ids)[k].bone_id,
        ) by {
            if k < r.len() {
                assert(binds_without(binds, ids)[k] == r[k]);
            }
        }
    }
}

proof fn lemma_keyframes_without(kfs: Seq<KeyframeView>, ids: Seq<i32>)
    ensures
        forall|k: int|
            0 <= k < keyframes_without(kfs, ids).len() ==> !ids.contains(
                #[trigger] keyframes_without(kfs, ids)[k].bone_id,
            ),
    decreases kfs.len(),
{
    if kfs.len() > 0 {
        lemma_keyframes_without(kfs.drop_last(), ids);
    }
}


proof fn lemma_without_firsts_unique(bones: Seq<BoneView>, s: Seq<i32>)
    requires
        ids_unique(bones),
        firsts_found(bones, s),
    ensures
        ids_unique(without_firsts(bones, s)),
        forall|k: int, j: int|
            0 <= k < s.len() && 0 <= j < without_firsts(bones, s).len() ==> #[trigger] without_firsts(
                bones,
                s,
            )[j].id != #[trigger] s[k],
    decreases s.len(),
{
    if s.len() > 0 {
        let r = without_firsts(bones, s.drop_last());
        lemma_without_firsts_unique(bones, s.drop_last());
        let x = s.last();
        let i = bone_index(r, x);
        assert(is_first_bone(r, x, i));
        let r2 = r.remove(i);
        assert(r2 == without_firsts(bones, s));
        assert forall|a: int, b: int| 0 <= a < b < r2.len() implies r2[a].id != r2[b].id by {
            let a1 = if a < i { a } else { a + 1 };
            let b1 = if b < i { b } else { b + 1 };
            assert(r2[a] == r[a1]);
            assert(r2[b] == r[b1]);
        }
        assert forall|k: int, j: int| 0 <= k < s.len() && 0 <= j < r2.len() implies #[trigger] r2[j].id
            != #[trigger] s[k] by {
            let j1 = if j < i { j } else { j + 1 };
            assert(r2[j] == r[j1]);
            if k == s.len() - 1 {
                assert(j1 != i);
            } else {
                assert(s.drop_last()[k] == s[k]);
            }
        }
    }
}

proof fn lemma_reverse_contains(d: Seq<i32>, x: i32)
    requires
        d.contains(x),
    ensures
        d.reverse().contains(x),
{
    let k = choose|k: int| 0 <= k < d.len() && d[k] == x;
    assert(d.reverse()[d.len() - 1 - k] == x);
}

/// Deleting a bone leaves nothing behind: none of the deleted bones remains
/// (when bone ids are unique), no remaining bind follows one of them, and no
/// keyframe animates one of them.
pub proof fn lemma_deletion_leaves_no_trace(arm: ArmatureView, id: i32, target: i32, fuel: nat)
    requires
        bone_index(arm.bones, id) >= 0,
        once_fits(arm, id, fuel),
        ids_unique(arm.bones),
    ensures
        ({
            let after = deleted_once(arm, id, target, fuel);
            let gone = doomed_ids(arm.bones, id, fuel);
            &&& gone[0] == id
            &&& forall|j: int| 0 <= j < after.bones.len() ==> !gone.contains(#[trigger] after.bones[j].id)
            &&& forall|j: int, k: int|
                0 <= j < after.bones.len() && 0 <= k < after.bones[j].binds.len() ==> !gone.contains(
                    #[trigger] after.bones[j].binds[k].bone_id,
                )
            &&& forall|a: int, k: int|
                0 <= a < after.animations.len() && 0 <= k < after.animations[a].keyframes.len()
                    ==> !gone.contains(#[trigger] after.animations[a].keyframes[k].bone_id)
        }),
{
    let gone = doomed_ids(arm.bones, id, fuel);
    let w = without_firsts(arm.bones, gone.reverse());
    lemma_without_firsts_unique(arm.bones, gone.reverse());
    let after = deleted_once(arm, id, target, fuel);
    assert forall|j: int| 0 <= j < after.bones.len() implies !gone.contains(#[trigger] after.bones[j].id) by {
        assert(after.bones[j] == untied(w[j], gone, target));
        if gone.contains(w[j].id) {
            lemma_reverse_contains(gone, w[j].id);
            let k = choose|k: int| 0 <= k < gone.reverse().len() && gone.reverse()[k] == w[j].id;
            assert(w[j].id != gone.reverse()[k]);
        }
    }
    assert forall|j: int, k: int|
        0 <= j < after.bones.len() && 0 <= k < after.bones[j].binds.len() implies !gone.contains(
        #[trigger] after.bones[j].binds[k].bone_id,
    ) by {
        assert(after.bones[j] == untied(w[j], gone, target));
        lemma_binds_without(w[j].binds, gone);
    }
    assert forall|a: int, k: int|
        0 <= a < after.animations.len() && 0 <= k < after.animations[a].keyframes.len() implies !gone.contains(
        #[trigger] after.animations[a].keyframes[k].bone_id,
    ) by {
        lemma_keyframes_without(arm.animations[a].keyframes, gone);
    }
}

/// After `delete_bone`, none of the bones it was asked to delete remains
/// (when bone ids are unique), and bone ids are still unique.
pub proof fn lemma_deleted_bones_are_gone(arm: ArmatureView, ids: Seq<i32>, target: i32, fuel: nat)
    requires
        ids_unique(arm.bones),
        all_fit(arm, ids, target, fuel),
    ensures
        ids_unique(deleted_all(arm, ids, target, fuel).bones),
        forall|k: int, j: int|
            0 <= k < ids.len() && 0 <= j < deleted_all(arm, ids, target, fuel).bones.len() ==> #[trigger] deleted_all(
                arm,
                ids,
                target,
                fuel,
            ).bones[j].id != #[trigger] ids[k],
    decreases ids.len(),
{
    if ids.len() > 0 {
        let prev = deleted_all(arm, ids.drop_last(), target, fuel);
        let after = deleted_all(arm, ids, target, fuel);
        lemma_deleted_bones_are_gone(arm, ids.drop_last(), target, fuel);
        let id = ids.last();
        if bone_index(prev.bones, id) >= 0 {
            let d = doomed_ids(prev.bones, id, fuel);
            let w = without_firsts(prev.bones, d.reverse());
            lemma_without_firsts_unique(prev.bones, d.reverse());
            lemma_deleted_once_within(prev, id, target, fuel);
            assert forall|a: int, b: int| 0 <= a < b < after.bones.len() implies after.bones[a].id
                != after.bones[b].id by {
                assert(after.bones[a] == untied(w[a], d, target));
                assert(after.bones[b] == untied(w[b], d, target));
            }
            assert forall|k: int, j: int| 0 <= k < ids.len() && 0 <= j < after.bones.len() implies after.bones[j].id
                != ids[k] by {
                if k == ids.len() - 1 {
                    assert(after.bones[j] == untied(w[j], d, target));
                    assert(d.reverse()[d.len() - 1] == id);
                } else {
                    assert(has_link(prev.bones, after.bones[j].id, after.bones[j].parent_id));
                    let m = choose|m: int|
                        0 <= m < prev.bones.len() && prev.bones[m].id == after.bones[j].id
                            && prev.bones[m].parent_id == after.bones[j].parent_id;
                    assert(ids.drop_last()[k] == ids[k]);
                }
            }
        } else {
            assert forall|k: int, j: int| 0 <= k < ids.len() && 0 <= j < after.bones.len() implies after.bones[j].id
                != ids[k] by {
                if k == ids.len() - 1 {
                    if after.bones[j].id == id {
                        lemma_bone_index_found(prev.bones, id, j);
                    }
                } else {
                    assert(ids.drop_last()[k] == ids[k]);
                }
            }
        }
    }
}

} // verus!
