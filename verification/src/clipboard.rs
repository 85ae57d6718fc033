//! Copying bones (with their children) into the copy buffer, and pasting
//! them back under fresh ids.
use vstd::prelude::*;
use std::collections::HashMap;
use vstd::std_specs::iter::IteratorSpec;
use crate::hierarchy::{descendants, get_all_children, has_finite_children};
use crate::model::{
    bone_index, copy_vec, find_bone, views, Armature, BindView, BoneView, CopyBuffer,
    CopyBufferView, Duplicate, SelectionState, SelectionView,
};
use crate::seqs::contains_i32;

verus! {

broadcast use vstd::std_specs::hash::group_hash_axioms;

/// The ids of the bones to copy: the selected ones if there are several,
/// otherwise the bone at `bone_idx`.
pub open spec fn ids_to_copy(bones: Seq<BoneView>, sel: SelectionView, bone_idx: usize) -> Seq<i32> {
    if sel.bone_ids.len() > 1 {
        sel.bone_ids
    } else {
        seq![bones[bone_idx as int].id]
    }
}

/// What copying the first `k` of `ids` puts in the buffer: each bone whose
/// parent is not itself being copied, followed by all the bones below it.
pub open spec fn copied_bones(bones: Seq<BoneView>, ids: Seq<i32>, k: int) -> Seq<BoneView>
    decreases k,
{
    if k <= 0 {
        Seq::empty()
    } else {
        let prev = copied_bones(bones, ids, k - 1);
        let b = bones[bone_index(bones, ids[k - 1])];
        if ids.contains(b.parent_id) {
            prev
        } else {
            prev + seq![b] + descendants(bones, b.id)
        }
    }
}

/// Whether copying can go through: the bone exists, and so does every bone
/// to copy, each with a finite hierarchy below it.
pub open spec fn can_copy_bone(bones: Seq<BoneView>, sel: SelectionView, bone_idx: usize) -> bool {
    bone_idx == usize::MAX || {
        &&& bone_idx < bones.len()
        &&& bones.len() < usize::MAX
        &&& forall|k: int|
            0 <= k < ids_to_copy(bones, sel, bone_idx).len() ==> {
                &&& bone_index(bones, #[trigger] ids_to_copy(bones, sel, bone_idx)[k]) >= 0
                &&& has_finite_children(bones, ids_to_copy(bones, sel, bone_idx)[k])
            }
    }
}

/// Fills the copy buffer with the bones to copy (the selected ones if there
/// are several, else the bone at `bone_idx`), each root of the copied set
/// followed by all of its children. `usize::MAX` copies nothing.
pub fn copy_bone(
    copy_buffer: &mut CopyBuffer,
    selections: &mut SelectionState,
    armature: &mut Armature,
    bone_idx: usize,
)
    requires
        can_copy_bone(views(old(armature).bones@), old(selections)@, bone_idx),
    ensures
        final(copy_buffer)@ == (CopyBufferView {
            bones: if bone_idx == usize::MAX {
                Seq::empty()
            } else {
                let ids = ids_to_copy(views(old(armature).bones@), old(selections)@, bone_idx);
                copied_bones(views(old(armature).bones@), ids, ids.len() as int)
            },
            ..old(copy_buffer)@
        }),
        final(selections)@ == old(selections)@,
        final(armature)@ == old(armature)@,
{
    copy_buffer.bones = Vec::new();
    assert(views(copy_buffer.bones@) =~= Seq::<BoneView>::empty());
    if bone_idx == usize::MAX {
        return;
    }
    let ghost bv = views(armature.bones@);
    let mut ids: Vec<i32> = Vec::new();
    if selections.bone_ids.len() > 1 {
        ids = copy_vec(&selections.bone_ids);
    } else {
        ids.push(armature.bones[bone_idx].id);
    }
    assert(ids@ =~= ids_to_copy(bv, selections@, bone_idx));
    let mut k: usize = 0;
    while k < ids.len()
        invariant
            k <= ids@.len(),
            bv == views(armature.bones@),
            bv.len() < usize::MAX,
            ids@ == ids_to_copy(bv, selections@, bone_idx),
            can_copy_bone(bv, selections@, bone_idx),
            bone_idx != usize::MAX,
            selections@ == old(selections)@,
            armature@ == old(armature)@,
            views(copy_buffer.keyframes@) == views(old(copy_buffer).keyframes@),
            views(copy_buffer.bones@) == copied_bones(bv, ids@, k as int),
        decreases ids@.len() - k,
    {
        assert(bone_index(bv, ids@[k as int]) >= 0);
        let i = find_bone(&armature.bones, ids[k]).unwrap();
        if !contains_i32(&ids, armature.bones[i].parent_id) {
            let ghost before = views(copy_buffer.bones@);
            copy_buffer.bones.push(armature.bones[i].duplicate());
            assert(views(copy_buffer.bones@) =~= before + seq![bv[i as int]]);
            get_all_children(&armature.bones, &mut copy_buffer.bones, &armature.bones[i]);
        }
        k = k + 1;
    }
}

/// The highest of 0 and the ids of the first `k` bones.
pub open spec fn highest_id(bones: Seq<BoneView>, k: int) -> int
    decreases k,
{
    if k <= 0 {
        0
    } else {
        let h = highest_id(bones, k - 1);
        if bones[k - 1].id > h {
            bones[k - 1].id as int
        } else {
            h
        }
    }
}

/// The highest of 0 and the IK family ids of the first `k` bones.
pub open spec fn highest_ik_family(bones: Seq<BoneView>, k: int) -> int
    decreases k,
{
    if k <= 0 {
        0
    } else {
        let h = highest_ik_family(bones, k - 1);
        if bones[k - 1].ik_family_id > h {
            bones[k - 1].ik_family_id as int
        } else {
            h
        }
    }
}

/// The map from old to new ids once the first `k` pasted bones are numbered;
/// the `j`-th pasted bone gets id `base + j + 1`.
pub open spec fn id_map(buf: Seq<BoneView>, base: int, k: int) -> Map<i32, i32>
    decreases k,
{
    if k <= 0 {
        Map::empty()
    } else {
        id_map(buf, base, k - 1).insert(buf[k - 1].id, (base + k) as i32)
    }
}

/// The `k`-th pasted bone once renumbered: a new id, its IK family moved past
/// the existing ones, and its parent mapped to a pasted bone if that one was
/// numbered already (else the parent of the bone pasted onto, or none).
pub open spec fn renumbered(
    buf: Seq<BoneView>,
    bones: Seq<BoneView>,
    pasted_idx: usize,
    k: int,
) -> BoneView {
    let base = highest_id(bones, bones.len() as int) + 1;
    let hik = highest_ik_family(bones, bones.len() as int);
    let refs = id_map(buf, base, k + 1);
    let b = buf[k];
    BoneView {
        id: (base + k + 1) as i32,
        ik_family_id: if b.ik_family_id != -1 {
            (b.ik_family_id + hik + 1) as i32
        } else {
            b.ik_family_id
        },
        parent_id: if b.parent_id != -1 && refs.contains_key(b.parent_id) {
            refs[b.parent_id]
        } else if pasted_idx != usize::MAX {
            bones[pasted_idx as int].parent_id
        } else {
            -1i32
        },
        ..b
    }
}

/// A bind that pointed at a pasted bone points at its copy.
pub open spec fn rebound(bd: BindView, refs: Map<i32, i32>) -> BindView {
    if refs.contains_key(bd.bone_id) {
        BindView { bone_id: refs[bd.bone_id], ..bd }
    } else {
        bd
    }
}

/// The pasted bones as they end up.
pub open spec fn pasted_bones(buf: Seq<BoneView>, bones: Seq<BoneView>, pasted_idx: usize) -> Seq<
    BoneView,
> {
    let base = highest_id(bones, bones.len() as int) + 1;
    let refs = id_map(buf, base, buf.len() as int);
    Seq::new(
        buf.len(),
        |k: int|
            {
                let r = renumbered(buf, bones, pasted_idx, k);
                BoneView { binds: r.binds.map_values(|bd: BindView| rebound(bd, refs)), ..r }
            },
    )
}

/// Whether the pasted bones go in at `pasted_idx`: some pasted bone's parent
/// is not itself pasted, and a bone to paste onto was given.
pub open spec fn inserts_at_target(buf: Seq<BoneView>, bones: Seq<BoneView>, pasted_idx: usize) -> bool {
    let base = highest_id(bones, bones.len() as int) + 1;
    pasted_idx != usize::MAX && exists|k: int|
        0 <= k < buf.len() && !(buf[k].parent_id != -1 && id_map(buf, base, k + 1).contains_key(
            buf[k].parent_id,
        ))
}

/// Whether pasting can go through: there is something to paste, the bone to
/// paste onto exists, and the new ids fit in `i32`.
pub open spec fn can_paste_bone(buf: Seq<BoneView>, bones: Seq<BoneView>, pasted_idx: usize) -> bool {
    &&& buf.len() > 0
    &&& pasted_idx == usize::MAX || pasted_idx < bones.len()
    &&& highest_id(bones, bones.len() as int) + 1 + buf.len() <= i32::MAX
    &&& forall|k: int|
        0 <= k < buf.len() ==> #[trigger] buf[k].ik_family_id + highest_ik_family(
            bones,
            bones.len() as int,
        ) + 1 <= i32::MAX
    &&& bones.len() + buf.len() <= usize::MAX
}

proof fn lemma_highest_id_bounds(bones: Seq<BoneView>, k: int)
    requires
        0 <= k <= bones.len(),
    ensures
        0 <= highest_id(bones, k) <= i32::MAX,
        forall|j: int| 0 <= j < k ==> bones[j].id <= highest_id(bones, k),
    decreases k,
{
    if k > 0 {
        lemma_highest_id_bounds(bones, k - 1);
    }
}

proof fn lemma_highest_ik_bounds(bones: Seq<BoneView>, k: int)
    requires
        0 <= k <= bones.len(),
    ensures
        0 <= highest_ik_family(bones, k) <= i32::MAX,
        forall|j: int| 0 <= j < k ==> bones[j].ik_family_id <= highest_ik_family(bones, k),
    decreases k,
{
    if k > 0 {
        lemma_highest_ik_bounds(bones, k - 1);
    }
}

/// Every new id in the map is `base + j + 1` for one of the first `k` bones.
proof fn lemma_id_map_values(buf: Seq<BoneView>, base: int, k: int)
    requires
        0 <= k <= buf.len(),
        0 <= base,
        base + k <= i32::MAX,
    ensures
        forall|x: i32|
            #[trigger] id_map(buf, base, k).contains_key(x) ==> base + 1 <= id_map(buf, base, k)[x]
                <= base + k,
        k > 0 ==> id_map(buf, base, k).contains_key(buf[k - 1].id),
        id_map(buf, base, k).dom().finite(),
    decreases k,
{
    if k > 0 {
        lemma_id_map_values(buf, base, k - 1);
        let m = id_map(buf, base, k);
        assert forall|x: i32| #[trigger] m.contains_key(x) implies base + 1 <= m[x] <= base + k by {
            if x != buf[k - 1].id {
                assert(id_map(buf, base, k - 1).contains_key(x));
            }
        }
    }
}

/// Sets the fields of a bone being pasted.
fn set_pasted_fields(bone: &mut crate::model::Bone, id: i32, ik_family_id: i32, parent_id: i32)
    ensures
        final(bone)@ == (BoneView { id, ik_family_id, parent_id, ..old(bone)@ }),
{
    bone.id = id;
    bone.ik_family_id = ik_family_id;
    bone.parent_id = parent_id;
}

/// Points the binds that point at a pasted bone at its copy.
fn rebind(binds: &mut Vec<crate::model::BoneBind>, refs: &HashMap<i32, i32>)
    ensures
        views(final(binds)@) == views(old(binds)@).map_values(|bd: BindView| rebound(bd, refs@)),
{
    let ghost b0 = views(binds@);
    let mut j: usize = 0;
    while j < binds.len()
        invariant
            j <= binds@.len(),
            b0.len() == binds@.len(),
            forall|k: int| 0 <= k < j ==> #[trigger] views(binds@)[k] == rebound(b0[k], refs@),
            forall|k: int| j <= k < b0.len() ==> #[trigger] views(binds@)[k] == b0[k],
        decreases binds@.len() - j,
    {
        let ghost before = views(binds@);
        assert(views(binds@)[j as int] == b0[j as int]);
        let target = binds[j].bone_id;
        match refs.get(&target) {
            Some(new_id) => {
                binds[j].bone_id = *new_id;
                assert(refs@.contains_key(target) && refs@[target] == *new_id);
            },
            None => {
                assert(!refs@.contains_key(target));
            },
        }
        assert(views(binds@)[j as int] == rebound(b0[j as int], refs@));
        assert forall|k: int| 0 <= k < b0.len() && k != j implies #[trigger] views(binds@)[k] == before[k] by {}
        j = j + 1;
    }
    assert(views(binds@) =~= b0.map_values(|bd: BindView| rebound(bd, refs@)));
}

/// Numbers the bones to paste and fixes their IK families and parents;
/// gives the map from old to new ids and where the bones go in.
fn renumber_pasted(
    buf: &mut Vec<crate::model::Bone>,
    bones: &Vec<crate::model::Bone>,
    pasted_idx: usize,
) -> (r: (HashMap<i32, i32>, usize))
    requires
        can_paste_bone(views(old(buf)@), views(bones@), pasted_idx),
    ensures
        ({
            let buf0 = views(old(buf)@);
            let bones0 = views(bones@);
            let base = highest_id(bones0, bones0.len() as int) + 1;
            &&& r.0@ == id_map(buf0, base, buf0.len() as int)
            &&& r.1 == (if inserts_at_target(buf0, bones0, pasted_idx) {
                pasted_idx
            } else {
                usize::MAX
            })
            &&& views(final(buf)@).len() == buf0.len()
            &&& forall|k: int|
                0 <= k < buf0.len() ==> #[trigger] views(final(buf)@)[k] == renumbered(
                    buf0,
                    bones0,
                    pasted_idx,
                    k,
                )
        }),
{
    let ghost buf0 = views(buf@);
    let ghost bones0 = views(bones@);
    // determine which id to give the new bone(s), based on the highest current id
    let mut highest: i32 = 0;
    let mut highest_ik: i32 = 0;
    let mut i: usize = 0;
    while i < bones.len()
        invariant
            i <= bones@.len(),
            bones0 == views(bones@),
            highest == highest_id(bones0, i as int),
            highest_ik == highest_ik_family(bones0, i as int),
        decreases bones@.len() - i,
    {
        if bones[i].id > highest {
            highest = bones[i].id;
        }
        if bones[i].ik_family_id > highest_ik {
            highest_ik = bones[i].ik_family_id;
        }
        i = i + 1;
    }
    proof {
        lemma_highest_id_bounds(bones0, bones0.len() as int);
        lemma_highest_ik_bounds(bones0, bones0.len() as int);
    }
    let ghost base = highest_id(bones0, bones0.len() as int) + 1;
    highest = highest + 1;

    let mut insert_idx = usize::MAX;
    let mut id_refs: HashMap<i32, i32> = HashMap::new();
    let n = buf.len();
    let mut b: usize = 0;
    while b < n
        invariant
            b <= n,
            n == buf0.len(),
            views(buf@).len() == n,
            can_paste_bone(buf0, bones0, pasted_idx),
            bones0 == views(bones@),
            base == highest_id(bones0, bones0.len() as int) + 1,
            highest == base + b,
            highest_ik == highest_ik_family(bones0, bones0.len() as int),
            0 <= highest_ik,
            0 <= base,
            id_refs@ == id_map(buf0, base, b as int),
            forall|k: int| 0 <= k < b ==> #[trigger] views(buf@)[k] == renumbered(buf0, bones0, pasted_idx, k),
            forall|k: int| b <= k < n ==> #[trigger] views(buf@)[k] == buf0[k],
            insert_idx == (if pasted_idx != usize::MAX && exists|k: int|
                0 <= k < b && !(buf0[k].parent_id != -1 && id_map(buf0, base, k + 1).contains_key(
                    buf0[k].parent_id,
                )) {
                pasted_idx
            } else {
                usize::MAX
            }),
        decreases n - b,
    {
        let ghost cb = views(buf@);
        assert(cb[b as int] == buf0[b as int]);
        highest = highest + 1;
        let new_id = highest;
        let old_id = buf[b].id;
        id_refs.insert(old_id, new_id);
        assert(id_refs@ == id_map(buf0, base, b + 1));
        // put IK bones in a new family index
        let mut ik = buf[b].ik_family_id;
        assert(ik == buf0[b as int].ik_family_id);
        if ik != -1 {
            assert(buf0[b as int].ik_family_id + highest_ik_family(bones0, bones0.len() as int) + 1 <= i32::MAX);
            ik = ik + highest_ik + 1;
        }
        // a pasted bone's parent is pasted too, else it takes the parent of the bone pasted onto
        let parent = buf[b].parent_id;
        let found = if parent != -1 {
            id_refs.get(&parent)
        } else {
            None
        };
        let ghost maps = parent != -1 && id_map(buf0, base, b + 1).contains_key(parent);
        let new_parent = match found {
            Some(p) => *p,
            None => {
                if pasted_idx != usize::MAX {
                    insert_idx = pasted_idx;
                    bones[pasted_idx].parent_id
                } else {
                    -1
                }
            },
        };
        assert(found is Some <==> maps);
        set_pasted_fields(&mut buf[b], new_id, ik, new_parent);
        assert(views(buf@)[b as int] == renumbered(buf0, bones0, pasted_idx, b as int));
        assert forall|k: int| 0 <= k < n && k != b implies #[trigger] views(buf@)[k] == cb[k] by {}
        proof {
            if !maps && pasted_idx != usize::MAX {
                assert(0 <= b < b + 1 && !(buf0[b as int].parent_id != -1 && id_map(buf0, base, b + 1).contains_key(
                    buf0[b as int].parent_id,
                )));
            }
            if maps {
                assert forall|k: int| 0 <= k < b + 1 && !(buf0[k].parent_id != -1 && id_map(buf0, base, k + 1).contains_key(
                    buf0[k].parent_id,
                )) implies k < b by {}
            }
        }
        b = b + 1;
    }
    (id_refs, insert_idx)
}

/// Adds the pasted bones at `at`, or at the end for `usize::MAX`.
fn insert_pasted(bones: &mut Vec<crate::model::Bone>, pasted: &Vec<crate::model::Bone>, at: usize)
    requires
        at == usize::MAX || at <= old(bones)@.len(),
        old(bones)@.len() + pasted@.len() <= usize::MAX,
    ensures
        views(final(bones)@) == if at == usize::MAX {
            views(old(bones)@) + views(pasted@)
        } else {
            views(old(bones)@).subrange(0, at as int) + views(pasted@) + views(old(bones)@).subrange(
                at as int,
                old(bones)@.len() as int,
            )
        },
{
    let ghost b0 = views(bones@);
    let ghost p = views(pasted@);
    let mut k: usize = 0;
    let mut pos = at;
    while k < pasted.len()
        invariant
            k <= pasted@.len(),
            p == views(pasted@),
            at == usize::MAX || at <= b0.len(),
            at != usize::MAX ==> pos == at + k,
            bones@.len() == b0.len() + k,
            b0.len() + p.len() <= usize::MAX,
            views(bones@) == if at == usize::MAX {
                b0 + p.subrange(0, k as int)
            } else {
                b0.subrange(0, at as int) + p.subrange(0, k as int) + b0.subrange(at as int, b0.len() as int)
            },
        decreases pasted@.len() - k,
    {
        let ghost before = bones@;
        let x = pasted[k].duplicate();
        assert(x@ == p[k as int]);
        if at == usize::MAX {
            bones.push(x);
            assert(views(bones@) =~= views(before).push(p[k as int]));
            assert(views(bones@) =~= b0 + p.subrange(0, k + 1));
        } else {
            bones.insert(pos, x);
            assert(views(bones@) =~= views(before).insert(pos as int, p[k as int]));
            assert(views(bones@) =~= b0.subrange(0, at as int) + p.subrange(0, k + 1) + b0.subrange(
                at as int,
                b0.len() as int,
            ));
            pos = pos + 1;
        }
        k = k + 1;
    }
    assert(p.subrange(0, p.len() as int) =~= p);
}

/// Pastes the copied bones: each gets a new id above every existing one, IK
/// families move past the existing ones, parents and binds that pointed at
/// copied bones point at the copies, and the others hang from the parent of
/// the bone pasted onto (or from nothing). The bones go in at `pasted_idx`
/// when some pasted bone takes that parent, else at the end, and become the
/// selection, in no particular order; the selected index is that of the first.
pub fn paste_bone(
    copy_buffer: &mut CopyBuffer,
    selections: &mut SelectionState,
    armature: &mut Armature,
    pasted_idx: usize,
)
    requires
        can_paste_bone(views(old(copy_buffer).bones@), views(old(armature).bones@), pasted_idx),
    ensures
        ({
            let buf = views(old(copy_buffer).bones@);
            let bones = views(old(armature).bones@);
            let pasted = pasted_bones(buf, bones, pasted_idx);
            let refs = id_map(buf, highest_id(bones, bones.len() as int) + 1, buf.len() as int);
            let new_bones = views(final(armature).bones@);
            &&& final(copy_buffer)@ == (CopyBufferView { bones: pasted, ..old(copy_buffer)@ })
            &&& new_bones == if inserts_at_target(buf, bones, pasted_idx) {
                bones.subrange(0, pasted_idx as int) + pasted + bones.subrange(
                    pasted_idx as int,
                    bones.len() as int,
                )
            } else {
                bones + pasted
            }
            &&& final(armature).animations == old(armature).animations
            &&& final(armature).styles == old(armature).styles
            &&& final(selections)@.bone_ids.to_set() == refs.values()
            &&& final(selections)@.bone_ids.len() == refs.dom().len()
            &&& final(selections).bone_idx as int == bone_index(new_bones, final(selections)@.bone_ids[0])
            &&& final(selections)@ == (SelectionView {
                bone_ids: final(selections)@.bone_ids,
                bone_idx: final(selections).bone_idx,
                ..old(selections)@
            })
        }),
{
    let ghost buf0 = views(copy_buffer.bones@);
    let ghost bones0 = views(armature.bones@);
    let ghost base = highest_id(bones0, bones0.len() as int) + 1;
    let n = copy_buffer.bones.len();
    let (id_refs, insert_idx) = renumber_pasted(&mut copy_buffer.bones, &armature.bones, pasted_idx);
    let ghost refs = id_refs@;

    // re-set binds that are pointing to pasted bones
    let mut b: usize = 0;
    while b < n
        invariant
            b <= n,
            n == buf0.len(),
            views(copy_buffer.bones@).len() == n,
            id_refs@ == refs,
            refs == id_map(buf0, base, n as int),
            base == highest_id(bones0, bones0.len() as int) + 1,
            copy_buffer.keyframes == old(copy_buffer).keyframes,
            forall|k: int| 0 <= k < b ==> #[trigger] views(copy_buffer.bones@)[k] == pasted_bones(buf0, bones0, pasted_idx)[k],
            forall|k: int| b <= k < n ==> #[trigger] views(copy_buffer.bones@)[k] == renumbered(buf0, bones0, pasted_idx, k),
        decreases n - b,
    {
        let ghost cur = views(copy_buffer.bones@);
        let ghost r = renumbered(buf0, bones0, pasted_idx, b as int);
        assert(cur[b as int] == r);
        rebind(&mut copy_buffer.bones[b].binds, &id_refs);
        assert(views(copy_buffer.bones@)[b as int] == (BoneView {
            binds: r.binds.map_values(|bd: BindView| rebound(bd, refs)),
            ..r
        }));
        assert(views(copy_buffer.bones@)[b as int] == pasted_bones(buf0, bones0, pasted_idx)[b as int]);
        assert forall|k: int| 0 <= k < n && k != b implies #[trigger] views(copy_buffer.bones@)[k] == cur[k] by {}
        b = b + 1;
    }
    let ghost pasted = pasted_bones(buf0, bones0, pasted_idx);
    assert(views(copy_buffer.bones@) =~= pasted);
    proof {
        lemma_highest_id_bounds(bones0, bones0.len() as int);
    }

    // insert pasted bones on proper position of the bone array
    insert_pasted(&mut armature.bones, &copy_buffer.bones, insert_idx);
    let ghost new_bones = views(armature.bones@);

    // select pasted bones
    let mut ids: Vec<i32> = Vec::new();
    let ghost all = id_refs.values().remaining();
    for v in it: id_refs.values()
        invariant
            ids@ == it.seq().subrange(0, it.index() as int).unref(),
            it.seq() == all,
    {
        ids.push(*v);
        assert(ids@ =~= it.seq().subrange(0, it.index() + 1).unref());
    }
    assert(ids@ =~= all.unref());
    proof {
        lemma_id_map_values(buf0, base, n as int);
        let x = buf0[n - 1].id;
        assert(refs.values().contains(refs[x]));
        assert(ids@.to_set().contains(refs[x]));
    }
    selections.bone_ids = ids;
    let sel_id = selections.bone_ids[0];
    proof {
        assert(ids@.to_set().contains(sel_id));
        assert(refs.values().contains(sel_id));
        let x = choose|x: i32| refs.contains_key(x) && refs[x] == sel_id;
        assert(base + 1 <= refs[x] <= base + n);
        let j = sel_id - base - 1;
        assert(pasted[j].id == sel_id);
        let pos = if insert_idx == usize::MAX {
            bones0.len() + j
        } else {
            insert_idx + j
        };
        assert(new_bones[pos] == pasted[j]);
        crate::model::lemma_bone_index_found(new_bones, sel_id, pos);
    }
    selections.bone_idx = find_bone(&armature.bones, sel_id).unwrap();
    assert(copy_buffer@ == (CopyBufferView { bones: pasted, ..old(copy_buffer)@ }));
    assert(views(armature.bones@) == if inserts_at_target(buf0, bones0, pasted_idx) {
        bones0.subrange(0, pasted_idx as int) + pasted + bones0.subrange(pasted_idx as int, bones0.len() as int)
    } else {
        bones0 + pasted
    });
    assert(selections@.bone_ids.to_set() == refs.values());
    assert(selections@.bone_ids.len() == refs.dom().len());
}

/// Pasted bones get ids that no existing bone has, and no two of them share one.
pub proof fn lemma_paste_fresh_ids(buf: Seq<BoneView>, bones: Seq<BoneView>, pasted_idx: usize)
    requires
        can_paste_bone(buf, bones, pasted_idx),
    ensures
        forall|k: int, j: int|
            0 <= k < buf.len() && 0 <= j < bones.len() ==> #[trigger] pasted_bones(buf, bones, pasted_idx)[k].id
                != #[trigger] bones[j].id,
        forall|k: int, l: int|
            0 <= k < l < buf.len() ==> #[trigger] pasted_bones(buf, bones, pasted_idx)[k].id
                != #[trigger] pasted_bones(buf, bones, pasted_idx)[l].id,
{
    lemma_highest_id_bounds(bones, bones.len() as int);
}

/// Pasted bones that belong to an IK family go into families that no bone of
/// the armature belongs to (numbered above all of theirs), two pasted bones
/// share a family exactly when their originals did, and a bone in no family
/// (-1) stays in none.
pub proof fn lemma_paste_new_ik_families(buf: Seq<BoneView>, bones: Seq<BoneView>, pasted_idx: usize)
    requires
        can_paste_bone(buf, bones, pasted_idx),
    ensures
        forall|k: int, j: int|
            0 <= k < buf.len() && 0 <= j < bones.len() && buf[k].ik_family_id >= 0
                ==> #[trigger] pasted_bones(buf, bones, pasted_idx)[k].ik_family_id > #[trigger] bones[j].ik_family_id,
        forall|k: int, l: int|
            0 <= k < buf.len() && 0 <= l < buf.len() && buf[k].ik_family_id >= 0 && buf[l].ik_family_id >= 0
                ==> (#[trigger] pasted_bones(buf, bones, pasted_idx)[k].ik_family_id
                == #[trigger] pasted_bones(buf, bones, pasted_idx)[l].ik_family_id) == (buf[k].ik_family_id
                == buf[l].ik_family_id),
        forall|k: int|
            0 <= k < buf.len() && buf[k].ik_family_id == -1 ==> #[trigger] pasted_bones(buf, bones, pasted_idx)[k].ik_family_id
                == -1,
{
    lemma_highest_ik_bounds(bones, bones.len() as int);
    let hik = highest_ik_family(bones, bones.len() as int);
    assert forall|k: int| 0 <= k < buf.len() && buf[k].ik_family_id != -1 implies #[trigger] pasted_bones(buf, bones, pasted_idx)[k].ik_family_id
        == buf[k].ik_family_id + hik + 1 by {
        assert(buf[k].ik_family_id + hik + 1 <= i32::MAX);
    }
}

/// The ids that copying takes are those of the selection when several bones
/// are selected: each selected bone whose parent is not selected is copied,
/// with every bone below it. With one bone or none selected, the bone with
/// the id of the one at `bone_idx` is copied (unless it names itself as its
/// parent).
pub proof fn lemma_copy_takes_selection(bones: Seq<BoneView>, sel: SelectionView, bone_idx: usize)
    requires
        can_copy_bone(bones, sel, bone_idx),
        bone_idx != usize::MAX,
    ensures
        ({
            let ids = ids_to_copy(bones, sel, bone_idx);
            let copied = copied_bones(bones, ids, ids.len() as int);
            &&& sel.bone_ids.len() > 1 ==> forall|k: int|
                0 <= k < sel.bone_ids.len() && !sel.bone_ids.contains(bones[bone_index(bones, #[trigger] sel.bone_ids[k])].parent_id) ==> {
                    let b = bones[bone_index(bones, sel.bone_ids[k])];
                    &&& copied.contains(b)
                    &&& forall|d: BoneView| descendants(bones, b.id).contains(d) ==> copied.contains(d)
                }
            &&& {
                let b = bones[bone_index(bones, bones[bone_idx as int].id)];
                sel.bone_ids.len() <= 1 && b.parent_id != b.id ==> copied.contains(b)
            }
        }),
{
    let ids = ids_to_copy(bones, sel, bone_idx);
    if sel.bone_ids.len() > 1 {
        assert forall|k: int|
            0 <= k < sel.bone_ids.len() && !sel.bone_ids.contains(bones[bone_index(bones, #[trigger] sel.bone_ids[k])].parent_id) implies {
                let b = bones[bone_index(bones, sel.bone_ids[k])];
                &&& copied_bones(bones, ids, ids.len() as int).contains(b)
                &&& forall|d: BoneView| descendants(bones, b.id).contains(d) ==> copied_bones(bones, ids, ids.len() as int).contains(d)
            } by {
            lemma_copied_contains(bones, ids, ids.len() as int, k);
        }
    } else {
        let b = bones[bone_index(bones, bones[bone_idx as int].id)];
        assert(ids == seq![bones[bone_idx as int].id]);
        crate::model::lemma_bone_index_found(bones, bones[bone_idx as int].id, bone_idx as int);
        lemma_copied_contains(bones, ids, 1, 0);
    }
}

/// The `k`-th id to copy, when its bone's parent is not among the ids, has
/// its bone and all the bones below it among the first `n` copied.
proof fn lemma_copied_contains(bones: Seq<BoneView>, ids: Seq<i32>, n: int, k: int)
    requires
        0 <= k < n <= ids.len(),
    ensures
        ({
            let b = bones[bone_index(bones, ids[k])];
            !ids.contains(b.parent_id) ==> {
                &&& copied_bones(bones, ids, n).contains(b)
                &&& forall|d: BoneView| descendants(bones, b.id).contains(d) ==> copied_bones(bones, ids, n).contains(d)
            }
        }),
    decreases n,
{
    let b = bones[bone_index(bones, ids[k])];
    if !ids.contains(b.parent_id) {
        let prev = copied_bones(bones, ids, n - 1);
        let cur = copied_bones(bones, ids, n);
        if n == k + 1 {
            let desc = descendants(bones, b.id);
            assert(cur == prev + seq![b] + desc);
            assert(cur[prev.len() as int] == b);
            assert forall|d: BoneView| desc.contains(d) implies cur.contains(d) by {
                let w = choose|w: int| 0 <= w < desc.len() && desc[w] == d;
                assert(cur[prev.len() + 1 + w] == d);
            }
        } else {
            lemma_copied_contains(bones, ids, n - 1, k);
            assert forall|d: BoneView| prev.contains(d) implies cur.contains(d) by {
                let w = choose|w: int| 0 <= w < prev.len() && prev[w] == d;
                assert(cur[w] == d);
            }
        }
    }
}

} // verus!
