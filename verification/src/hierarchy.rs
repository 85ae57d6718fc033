//! The bone hierarchy: children and ancestors of a bone, and the order of
//! bones in the hierarchy panel.
use vstd::prelude::*;
use crate::model::{bone_index, find_bone, is_first_bone, views, Bone, BoneView, Duplicate};

verus! {

/// Whether looking for children below bone `id` stops within `fuel` levels:
/// no chain of parent links leads back to a bone already on the way down.
pub open spec fn child_tree_finite(bones: Seq<BoneView>, id: i32, fuel: nat) -> bool
    decreases fuel,
{
    fuel > 0 && forall|j: int|
        0 <= j < bones.len() && #[trigger] bones[j].parent_id == id ==> child_tree_finite(
            bones,
            bones[j].id,
            (fuel - 1) as nat,
        )
}

/// The bones at positions `j..` whose parent is `id`, each followed by its own
/// children (depth first, in list order), looking at most `fuel` levels down.
pub open spec fn children_from(bones: Seq<BoneView>, id: i32, fuel: nat, j: int) -> Seq<BoneView>
    decreases fuel, bones.len() - j,
{
    if fuel == 0 || j < 0 || j >= bones.len() {
        Seq::empty()
    } else {
        let rest = children_from(bones, id, fuel, j + 1);
        if bones[j].parent_id == id {
            seq![bones[j]] + children_from(bones, bones[j].id, (fuel - 1) as nat, 0) + rest
        } else {
            rest
        }
    }
}

/// Whether the hierarchy below bone `id` is finite.
pub open spec fn has_finite_children(bones: Seq<BoneView>, id: i32) -> bool {
    child_tree_finite(bones, id, (bones.len() + 1) as nat)
}

/// All the bones below bone `id`: each child, followed by its own children.
pub open spec fn descendants(bones: Seq<BoneView>, id: i32) -> Seq<BoneView> {
    children_from(bones, id, (bones.len() + 1) as nat, 0)
}

pub(crate) fn collect_children(bones: &Vec<Bone>, out: &mut Vec<Bone>, id: i32, fuel: usize)
    requires
        child_tree_finite(views(bones@), id, fuel as nat),
    ensures
        views(final(out)@) == views(old(out)@) + children_from(views(bones@), id, fuel as nat, 0),
    decreases fuel,
{
    let ghost bv = views(bones@);
    let mut j: usize = 0;
    while j < bones.len()
        invariant
            j <= bones.len(),
            bv == views(bones@),
            fuel > 0,
            child_tree_finite(bv, id, fuel as nat),
            views(old(out)@) + children_from(bv, id, fuel as nat, 0) == views(out@) + children_from(
                bv,
                id,
                fuel as nat,
                j as int,
            ),
        decreases bones.len() - j,
    {
        let ghost before = views(out@);
        if bones[j].parent_id == id {
            assert(bv[j as int].parent_id == id);
            out.push(bones[j].duplicate());
            collect_children(bones, out, bones[j].id, fuel - 1);
            assert(views(out@) =~= before + seq![bv[j as int]] + children_from(
                bv,
                bv[j as int].id,
                (fuel - 1) as nat,
                0,
            ));
        }
        assert(children_from(bv, id, fuel as nat, j as int) =~= (if bv[j as int].parent_id == id {
            seq![bv[j as int]] + children_from(bv, bv[j as int].id, (fuel - 1) as nat, 0)
        } else {
            Seq::<BoneView>::empty()
        }) + children_from(bv, id, fuel as nat, j + 1));
        j = j + 1;
    }
    assert(children_from(bv, id, fuel as nat, bones.len() as int) =~= Seq::<BoneView>::empty());
    assert(views(out@) + Seq::<BoneView>::empty() =~= views(out@));
}

/// Appends to `children` every bone below `parent`: each child, followed by
/// its own children, depth first.
pub fn get_all_children(bones: &Vec<Bone>, children: &mut Vec<Bone>, parent: &Bone)
    requires
        bones.len() < usize::MAX,
        has_finite_children(views(bones@), parent.id),
    ensures
        views(final(children)@) == views(old(children)@) + descendants(views(bones@), parent.id),
{
    collect_children(bones, children, parent.id, bones.len() + 1);
}

/// Whether following parent links up from bone `id` meets only bones that
/// exist and reaches a root (parent -1) within `fuel` steps.
pub open spec fn parent_chain_ok(bones: Seq<BoneView>, id: i32, fuel: nat) -> bool
    decreases fuel,
{
    let i = bone_index(bones, id);
    &&& i >= 0
    &&& (bones[i].parent_id == -1 || (fuel > 0 && parent_chain_ok(
        bones,
        bones[i].parent_id,
        (fuel - 1) as nat,
    )))
}

/// The ids of the parent, grandparent, ... of bone `id`, nearest first,
/// taking at most `fuel` steps.
pub open spec fn ancestors_within(bones: Seq<BoneView>, id: i32, fuel: nat) -> Seq<i32>
    decreases fuel,
{
    let p = bones[bone_index(bones, id)].parent_id;
    if fuel == 0 || p == -1 {
        Seq::empty()
    } else {
        seq![p] + ancestors_within(bones, p, (fuel - 1) as nat)
    }
}

/// Whether bone `id` exists and its chain of parents ends at a root.
pub open spec fn has_root_chain(bones: Seq<BoneView>, id: i32) -> bool {
    parent_chain_ok(bones, id, bones.len())
}

/// The ids of all the bones above bone `id`, nearest first.
pub open spec fn ancestors(bones: Seq<BoneView>, id: i32) -> Seq<i32> {
    ancestors_within(bones, id, bones.len())
}

/// The ids of the parent, grandparent, ... of bone `bone_id`, nearest first.
pub fn get_all_parents(bones: &Vec<Bone>, bone_id: i32) -> (r: Vec<i32>)
    requires
        has_root_chain(views(bones@), bone_id),
    ensures
        r@ == ancestors(views(bones@), bone_id),
{
    let ghost bv = views(bones@);
    let mut r: Vec<i32> = Vec::new();
    let mut cur = bone_id;
    let ghost mut fuel: nat = bones@.len();
    loop
        invariant
            bv == views(bones@),
            parent_chain_ok(bv, cur, fuel),
            r@ + ancestors_within(bv, cur, fuel) == ancestors(bv, bone_id),
        ensures
            r@ == ancestors(bv, bone_id),
        decreases fuel,
    {
        let i = find_bone(bones, cur).unwrap();
        let p = bones[i].parent_id;
        if p == -1 {
            assert(ancestors_within(bv, cur, fuel) =~= Seq::<i32>::empty());
            assert(r@ + Seq::<i32>::empty() =~= r@);
            break;
        }
        let ghost old_r = r@;
        r.push(p);
        assert(old_r + ancestors_within(bv, cur, fuel) =~= r@ + ancestors_within(
            bv,
            p,
            (fuel - 1) as nat,
        ));
        cur = p;
        proof {
            fuel = (fuel - 1) as nat;
        }
    }
    r
}

/// The ids among `ids` that are ids of bones, each once, in the order of
/// the bones' first positions, looking at positions `lo..`.
pub open spec fn hierarchy_order_from(bones: Seq<BoneView>, ids: Seq<i32>, lo: int) -> Seq<i32>
    decreases bones.len() - lo,
{
    if lo < 0 || lo >= bones.len() {
        Seq::empty()
    } else {
        let rest = hierarchy_order_from(bones, ids, lo + 1);
        if is_first_bone(bones, bones[lo].id, lo) && ids.contains(bones[lo].id) {
            seq![bones[lo].id] + rest
        } else {
            rest
        }
    }
}

/// `ids` sorted by where their bones stand in the hierarchy, each once.
pub open spec fn hierarchy_order(bones: Seq<BoneView>, ids: Seq<i32>) -> Seq<i32> {
    hierarchy_order_from(bones, ids, 0)
}

/// Sorts bone ids by the position of their bones and drops repeated ids.
pub fn order_by_hierarchy(bones: &Vec<Bone>, ids: &Vec<i32>) -> (r: Vec<i32>)
    ensures
        r@ == hierarchy_order(views(bones@), ids@),
{
    let ghost bv = views(bones@);
    let mut r: Vec<i32> = Vec::new();
    let mut p: usize = bones.len();
    while p > 0
        invariant
            p <= bones.len(),
            bv == views(bones@),
            r@ == hierarchy_order_from(bv, ids@, p as int),
        decreases p,
    {
        p = p - 1;
        let id = bones[p].id;
        proof {
            crate::model::lemma_bone_index_found(bv, id, p as int);
        }
        let first = find_bone(bones, id).unwrap();
        assert(is_first_bone(bv, id, p as int) <==> first == p) by {
            assert(bv[p as int].id == id);
            if is_first_bone(bv, id, p as int) {
                let c = choose|k: int| is_first_bone(bv, id, k);
                assert(c == p as int) by {
                    if c < p as int {
                    } else if c > p as int {
                    }
                }
            }
        }
        let mut r2: Vec<i32> = Vec::new();
        if first == p && crate::seqs::contains_i32(ids, id) {
            r2.push(id);
        }
        let mut k: usize = 0;
        let ghost r2_start = r2@;
        while k < r.len()
            invariant
                k <= r.len(),
                r2@ == r2_start + r@.subrange(0, k as int),
            decreases r.len() - k,
        {
            r2.push(r[k]);
            k = k + 1;
            assert(r2@ =~= r2_start + r@.subrange(0, k as int));
        }
        assert(r@.subrange(0, r@.len() as int) =~= r@);
        r = r2;
    }
    r
}

/// Facts about the hierarchy order: ids come in increasing bone position,
/// each at most once, and exactly the given ids that name a bone appear.
pub proof fn lemma_hierarchy_order(bones: Seq<BoneView>, ids: Seq<i32>)
    ensures
        forall|a: int, b: int|
            0 <= a < b < hierarchy_order(bones, ids).len() ==> bone_index(
                bones,
                #[trigger] hierarchy_order(bones, ids)[a],
            ) < bone_index(bones, #[trigger] hierarchy_order(bones, ids)[b]),
        hierarchy_order(bones, ids).no_duplicates(),
        forall|x: i32|
            hierarchy_order(bones, ids).contains(x) <==> (ids.contains(x) && bone_index(bones, x)
                >= 0),
{
    lemma_hierarchy_order_from(bones, ids, 0);
}

proof fn lemma_hierarchy_order_from(bones: Seq<BoneView>, ids: Seq<i32>, lo: int)
    requires
        0 <= lo <= bones.len(),
    ensures
        forall|a: int, b: int|
            0 <= a < b < hierarchy_order_from(bones, ids, lo).len() ==> bone_index(
                bones,
                #[trigger] hierarchy_order_from(bones, ids, lo)[a],
            ) < bone_index(bones, #[trigger] hierarchy_order_from(bones, ids, lo)[b]),
        forall|a: int|
            0 <= a < hierarchy_order_from(bones, ids, lo).len() ==> bone_index(
                bones,
                #[trigger] hierarchy_order_from(bones, ids, lo)[a],
            ) >= lo,
        hierarchy_order_from(bones, ids, lo).no_duplicates(),
        forall|x: i32|
            hierarchy_order_from(bones, ids, lo).contains(x) <==> (ids.contains(x) && bone_index(
                bones,
                x,
            ) >= lo),
    decreases bones.len() - lo,
{
    let h = hierarchy_order_from(bones, ids, lo);
    if lo < bones.len() {
        lemma_hierarchy_order_from(bones, ids, lo + 1);
        let rest = hierarchy_order_from(bones, ids, lo + 1);
        let id = bones[lo].id;
        let first = is_first_bone(bones, id, lo);
        if first {
            let c = choose|k: int| is_first_bone(bones, id, k);
            assert(c == lo) by {
                if c < lo {
                } else if c > lo {
                }
            }
        }
        assert(first <==> bone_index(bones, id) == lo) by {
            if bone_index(bones, id) == lo {
                assert(exists|k: int| is_first_bone(bones, id, k));
            }
        }
        assert forall|x: i32| bone_index(bones, x) >= lo implies (bone_index(bones, x) == lo
            <==> x == id) by {
            if bone_index(bones, x) >= 0 {
                assert(exists|k: int| is_first_bone(bones, x, k));
            }
            if x == id {
                assert(is_first_bone(bones, id, lo) || exists|k: int| 0 <= k < lo && bones[k].id == id);
                if !is_first_bone(bones, id, lo) {
                    let k = choose|k: int| 0 <= k < lo && bones[k].id == id;
                    let m = choose|m: int| is_first_bone(bones, x, m);
                    assert(m <= k);
                }
            }
        }
        if first && ids.contains(id) {
            assert(h == seq![id] + rest);
            assert forall|x: i32| h.contains(x) <==> (ids.contains(x) && bone_index(bones, x) >= lo) by {
                assert(h[0] == id);
                if x == id {
                    assert(h.contains(x));
                    assert(bone_index(bones, id) == lo);
                }
                if h.contains(x) && x != id {
                    let w = choose|w: int| 0 <= w < h.len() && h[w] == x;
                    assert(w > 0);
                    assert(rest[w - 1] == x);
                    assert(rest.contains(x));
                }
                if ids.contains(x) && bone_index(bones, x) >= lo && x != id {
                    assert(rest.contains(x));
                    let w = choose|w: int| 0 <= w < rest.len() && rest[w] == x;
                    assert(h[w + 1] == x);
                }
            }
            assert(!rest.contains(id));
            assert forall|a: int| 0 <= a < h.len() implies bone_index(bones, #[trigger] h[a]) >= lo by {
                if a > 0 {
                    assert(h[a] == rest[a - 1]);
                }
            }
            assert forall|a: int, b: int| 0 <= a < b < h.len() implies bone_index(
                bones,
                #[trigger] h[a],
            ) < bone_index(bones, #[trigger] h[b]) by {
                assert(h[b] == rest[b - 1]);
                if a > 0 {
                    assert(h[a] == rest[a - 1]);
                } else {
                    assert(bone_index(bones, rest[b - 1]) >= lo + 1);
                }
            }
            assert forall|a: int, b: int| 0 <= a < b < h.len() implies h[a] != h[b] by {
                if a == 0 {
                    assert(h[b] == rest[b - 1]);
                    assert(rest.contains(h[b]));
                } else {
                    assert(h[a] == rest[a - 1]);
                    assert(h[b] == rest[b - 1]);
                }
            }
        } else {
            assert(h == rest);
            assert forall|x: i32| h.contains(x) <==> (ids.contains(x) && bone_index(bones, x) >= lo) by {
                if ids.contains(x) && bone_index(bones, x) >= lo {
                    if bone_index(bones, x) == lo {
                        assert(x == id);
                        assert(first);
                        assert(false);
                    } else {
                        assert(rest.contains(x));
                        assert(h.contains(x));
                    }
                }
                if h.contains(x) {
                    assert(rest.contains(x));
                    assert(ids.contains(x) && bone_index(bones, x) >= lo + 1);
                }
            }
        }
    }
}

} // verus!
