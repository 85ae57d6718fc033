//! Mesh bookkeeping: dropping vertices that no triangle uses, and removing
//! the triangles that the user has blacklisted.
use vstd::prelude::*;
use crate::seqs::contains_u32;
use crate::model::{views, BindView, BoneBind, BoneBindVert, Bone, BoneView, Color, Vec2, Vertex};

verus! {

/// Whether some triangle index refers to position `p` of the vertex list.
pub open spec fn is_referenced(indices: Seq<u32>, p: int) -> bool {
    indices.contains(p as u32)
}

/// The vertices at positions `lo..` that some index refers to, in order.
pub open spec fn referenced_from(verts: Seq<Vertex>, indices: Seq<u32>, lo: int) -> Seq<Vertex>
    decreases verts.len() - lo,
{
    if lo >= verts.len() || lo < 0 {
        Seq::empty()
    } else {
        let rest = referenced_from(verts, indices, lo + 1);
        if is_referenced(indices, lo) {
            seq![verts[lo]] + rest
        } else {
            rest
        }
    }
}

/// How many positions in `lo..hi` no index refers to.
pub open spec fn unreferenced_between(indices: Seq<u32>, lo: int, hi: int) -> int
    decreases hi - lo,
{
    if lo >= hi {
        0
    } else {
        (if is_referenced(indices, lo) { 0int } else { 1int }) + unreferenced_between(
            indices,
            lo + 1,
            hi,
        )
    }
}

/// Where index `x` points once the unreferenced vertices of a list of `n`
/// vertices are gone: it moves down by one for each of them below it.
pub open spec fn shifted_index(indices: Seq<u32>, n: int, x: u32) -> u32 {
    (x - unreferenced_between(indices, 0, if x < n { x as int } else { n })) as u32
}

/// `s` without its first element whose id is `id` (unchanged if there is none).
pub open spec fn without_first_id(s: Seq<BoneBindVert>, id: i32) -> Seq<BoneBindVert> {
    if exists|i: int| is_first_with_id(s, id, i) {
        s.remove(choose|i: int| is_first_with_id(s, id, i))
    } else {
        s
    }
}

pub open spec fn is_first_with_id(s: Seq<BoneBindVert>, id: i32, i: int) -> bool {
    &&& 0 <= i < s.len()
    &&& s[i].id == id
    &&& forall|j: int| 0 <= j < i ==> s[j].id != id
}

/// The bind vertices left once, for each unreferenced mesh position from the
/// last one down to `lo`, the first bind vertex with that vertex's id is removed.
pub open spec fn strip_unreferenced(
    bverts: Seq<BoneBindVert>,
    mesh: Seq<Vertex>,
    indices: Seq<u32>,
    lo: int,
) -> Seq<BoneBindVert>
    decreases mesh.len() - lo,
{
    if lo >= mesh.len() || lo < 0 {
        bverts
    } else {
        let rest = strip_unreferenced(bverts, mesh, indices, lo + 1);
        if is_referenced(indices, lo) {
            rest
        } else {
            without_first_id(rest, mesh[lo].id as i32)
        }
    }
}

pub open spec fn strip_bind(b: BindView, mesh: Seq<Vertex>, indices: Seq<u32>, lo: int) -> BindView {
    BindView { verts: strip_unreferenced(b.verts, mesh, indices, lo), ..b }
}

/// The bone once the vertices that no triangle uses are gone.
pub open spec fn cleaned_bone(b: BoneView) -> BoneView {
    BoneView {
        vertices: referenced_from(b.vertices, b.indices, 0),
        indices: b.indices.map_values(|x: u32| shifted_index(b.indices, b.vertices.len() as int, x)),
        binds: b.binds.map_values(|bd: BindView| strip_bind(bd, b.vertices, b.indices, 0)),
        ..b
    }
}

proof fn lemma_unreferenced_bound(indices: Seq<u32>, lo: int, hi: int)
    requires
        lo <= hi,
    ensures
        0 <= unreferenced_between(indices, lo, hi) <= hi - lo,
    decreases hi - lo,
{
    if lo < hi {
        lemma_unreferenced_bound(indices, lo + 1, hi);
    }
}

proof fn lemma_unreferenced_empty(indices: Seq<u32>, lo: int, hi: int)
    requires
        hi <= lo,
    ensures
        unreferenced_between(indices, lo, hi) == 0,
{
}

/// Removes the first bind vertex whose id is `id`, if there is one.
fn remove_first_bind_vert(verts: &mut Vec<BoneBindVert>, id: i32)
    ensures
        final(verts)@ == without_first_id(old(verts)@, id),
{
    let mut i: usize = 0;
    while i < verts.len()
        invariant
            i <= verts.len(),
            verts@ == old(verts)@,
            forall|j: int| 0 <= j < i ==> verts@[j].id != id,
        decreases verts.len() - i,
    {
        if verts[i].id == id {
            assert(is_first_with_id(old(verts)@, id, i as int));
            let ghost c = choose|k: int| is_first_with_id(old(verts)@, id, k);
            assert(c == i as int) by {
                if c < i as int {
                } else if c > i as int {
                }
            }
            verts.remove(i);
            return;
        }
        i = i + 1;
    }
    assert(!exists|k: int| is_first_with_id(old(verts)@, id, k));
}

/// Moves every index at or above `v` down by one.
fn shift_indices_down(indices: &mut Vec<u32>, v: u32)
    requires
        forall|k: int| 0 <= k < old(indices)@.len() ==> old(indices)@[k] != v,
    ensures
        final(indices)@.len() == old(indices)@.len(),
        forall|k: int|
            0 <= k < old(indices)@.len() ==> #[trigger] final(indices)@[k] == (if old(indices)@[k] >= v {
                (old(indices)@[k] - 1) as u32
            } else {
                old(indices)@[k]
            }),
{
    let mut i: usize = 0;
    while i < indices.len()
        invariant
            i <= indices@.len(),
            indices@.len() == old(indices)@.len(),
            forall|k: int|
                0 <= k < i ==> #[trigger] indices@[k] == (if old(indices)@[k] >= v {
                    (old(indices)@[k] - 1) as u32
                } else {
                    old(indices)@[k]
                }),
            forall|k: int| i <= k < old(indices)@.len() ==> #[trigger] indices@[k] == old(indices)@[k],
            forall|k: int| 0 <= k < old(indices)@.len() ==> old(indices)@[k] != v,
        decreases indices@.len() - i,
    {
        let x = indices[i];
        if x >= v {
            indices.set(i, x - 1);
        }
        i = i + 1;
    }
}

/// Removes from each bind its first bind vertex with id `id`.
pub(crate) fn remove_id_from_binds(binds: &mut Vec<BoneBind>, id: i32)
    ensures
        final(binds)@.len() == old(binds)@.len(),
        forall|k: int|
            0 <= k < old(binds)@.len() ==> #[trigger] final(binds)@[k]@ == (BindView {
                verts: without_first_id(old(binds)@[k]@.verts, id),
                ..old(binds)@[k]@
            }),
{
    let mut j: usize = 0;
    while j < binds.len()
        invariant
            j <= binds@.len(),
            binds@.len() == old(binds)@.len(),
            forall|k: int|
                0 <= k < j ==> #[trigger] binds@[k]@ == (BindView {
                    verts: without_first_id(old(binds)@[k]@.verts, id),
                    ..old(binds)@[k]@
                }),
            forall|k: int| j <= k < old(binds)@.len() ==> #[trigger] binds@[k] == old(binds)@[k],
        decreases binds@.len() - j,
    {
        remove_first_bind_vert(&mut binds[j].verts, id);
        j = j + 1;
    }
}

/// Removes the vertices that are not in any triangle. Indices are moved down
/// so that they keep pointing at the same vertices, and each removed vertex
/// leaves every bind (the first bind vertex with its id is dropped).
pub fn cleanup_vertices(bone: &mut Bone)
    requires
        old(bone).vertices.len() <= 0x1_0000_0000,
    ensures
        final(bone)@ == cleaned_bone(old(bone)@),
{
    let ghost v0 = old(bone).vertices@;
    let ghost i0 = old(bone).indices@;
    let ghost b0 = old(bone)@.binds;
    let ghost n = v0.len() as int;
    let mut v: usize = bone.vertices.len();
    while v > 0
        invariant
            v <= n,
            n == v0.len(),
            n <= 0x1_0000_0000,
            bone.vertices@ == v0.subrange(0, v as int) + referenced_from(v0, i0, v as int),
            bone.indices@.len() == i0.len(),
            forall|k: int|
                0 <= k < i0.len() ==> #[trigger] bone.indices@[k] as int == i0[k] - unreferenced_between(
                    i0,
                    v as int,
                    if i0[k] < n { i0[k] as int } else { n },
                ),
            bone.binds@.len() == b0.len(),
            forall|j: int|
                0 <= j < b0.len() ==> #[trigger] bone.binds@[j]@ == strip_bind(b0[j], v0, i0, v as int),
            bone.id == old(bone).id,
            bone.parent_id == old(bone).parent_id,
            bone.name == old(bone).name,
            bone.tex == old(bone).tex,
            bone.zindex == old(bone).zindex,
            bone.ik_family_id == old(bone).ik_family_id,
            bone.ik_target_id == old(bone).ik_target_id,
            bone.ik_disabled == old(bone).ik_disabled,
            bone.folded == old(bone).folded,
            bone.anim_folded == old(bone).anim_folded,
            bone.locked == old(bone).locked,
            bone.verts_edited == old(bone).verts_edited,
            bone.transform == old(bone).transform,
            bone.blacklist == old(bone).blacklist,
            bone.ik_constraint == old(bone).ik_constraint,
            bone.ik_mode == old(bone).ik_mode,
            bone.props == old(bone).props,
        decreases v,
    {
        v = v - 1;
        let ghost p = v as int;
        let ghost cur_idx = bone.indices@;
        let ghost cur_verts = bone.vertices@;
        // the current indices still tell which positions are used
        assert forall|k: int| 0 <= k < i0.len() implies (cur_idx[k] as int == p <==> i0[k] as int == p)
            && (cur_idx[k] as int > p <==> i0[k] as int > p) by {
            let m = if i0[k] < n { i0[k] as int } else { n };
            if i0[k] as int > p {
                if i0[k] < n {
                    assert(is_referenced(i0, i0[k] as int)) by {
                        assert(i0[k] == (i0[k] as int) as u32);
                        assert(i0.contains(i0[k]));
                    }
                    lemma_unreferenced_bound(i0, p + 1, i0[k] as int);
                    assert(unreferenced_between(i0, p + 1, m) <= i0[k] - p - 1);
                } else {
                    lemma_unreferenced_bound(i0, p + 1, n);
                }
            } else {
                lemma_unreferenced_empty(i0, p + 1, m);
            }
        }
        assert(cur_verts[p] == v0[p]);
        let vert = bone.vertices[v];
        if contains_u32(&bone.indices, v as u32) {
            proof {
                let w = choose|k: int| 0 <= k < cur_idx.len() && cur_idx[k] == p as u32;
                assert(i0[w] as int == p);
                assert(i0.contains(p as u32));
                assert(bone.vertices@ =~= v0.subrange(0, p) + referenced_from(v0, i0, p));
                assert forall|k: int| 0 <= k < i0.len() implies #[trigger] bone.indices@[k] as int
                    == i0[k] - unreferenced_between(
                    i0,
                    p,
                    if i0[k] < n { i0[k] as int } else { n },
                ) by {
                    let m = if i0[k] < n { i0[k] as int } else { n };
                    if m <= p {
                        lemma_unreferenced_empty(i0, p, m);
                        lemma_unreferenced_empty(i0, p + 1, m);
                    }
                }
            }
            continue;
        }
        proof {
            assert(!is_referenced(i0, p)) by {
                if i0.contains(p as u32) {
                    let w = choose|k: int| 0 <= k < i0.len() && i0[k] == p as u32;
                    assert(cur_idx[w] as int == p);
                    assert(cur_idx.contains(p as u32));
                }
            }
        }
        bone.vertices.remove(v);
        assert(bone.vertices@ =~= v0.subrange(0, p) + referenced_from(v0, i0, p));

        // shift the indices above the removed vertex down by one
        shift_indices_down(&mut bone.indices, v as u32);
        proof {
            assert forall|k: int| 0 <= k < i0.len() implies #[trigger] bone.indices@[k] as int
                == i0[k] - unreferenced_between(
                i0,
                p,
                if i0[k] < n { i0[k] as int } else { n },
            ) by {
                let m = if i0[k] < n { i0[k] as int } else { n };
                if m <= p {
                    lemma_unreferenced_empty(i0, p, m);
                    lemma_unreferenced_empty(i0, p + 1, m);
                }
            }
        }

        // remove this vertex from the binds
        remove_id_from_binds(&mut bone.binds, vert.id as i32);
    }
    proof {
        assert(bone.vertices@ =~= referenced_from(v0, i0, 0));
        assert(bone.indices@ =~= i0.map_values(|x: u32| shifted_index(i0, n, x)));
        assert(views(bone.binds@) =~= b0.map_values(|bd: BindView| strip_bind(bd, v0, i0, 0)));
    }
}


/// The ids of a list of vertices, in order.
pub open spec fn vertex_ids(verts: Seq<Vertex>) -> Seq<u32> {
    verts.map_values(|v: Vertex| v.id)
}

/// Three values in ascending order.
pub open spec fn sort3(a: u32, b: u32, c: u32) -> (u32, u32, u32) {
    if a <= b {
        if b <= c {
            (a, b, c)
        } else if a <= c {
            (a, c, b)
        } else {
            (c, a, b)
        }
    } else {
        if a <= c {
            (b, a, c)
        } else if b <= c {
            (b, c, a)
        } else {
            (c, b, a)
        }
    }
}

/// Whether all three ids of the `b`-th blacklisted triangle are ids of the mesh.
pub open spec fn chunk_exists(bl: Seq<u32>, ids: Seq<u32>, b: int) -> bool {
    &&& ids.contains(bl[3 * b])
    &&& ids.contains(bl[3 * b + 1])
    &&& ids.contains(bl[3 * b + 2])
}

/// The blacklisted triangles from the `lo`-th on whose vertices all exist.
pub open spec fn existing_chunks_from(bl: Seq<u32>, ids: Seq<u32>, lo: int) -> Seq<u32>
    decreases bl.len() / 3 - lo,
{
    if lo < 0 || lo >= bl.len() / 3 {
        Seq::empty()
    } else {
        (if chunk_exists(bl, ids, lo) {
            bl.subrange(3 * lo, 3 * lo + 3)
        } else {
            Seq::empty()
        }) + existing_chunks_from(bl, ids, lo + 1)
    }
}

/// The blacklist without the triangles that name a vertex id the mesh does not
/// have; a trailing incomplete group of ids is kept as it is.
pub open spec fn pruned_blacklist(bl: Seq<u32>, verts: Seq<Vertex>) -> Seq<u32> {
    existing_chunks_from(bl, vertex_ids(verts), 0) + bl.subrange(3 * (bl.len() / 3) as int, bl.len() as int)
}

/// The sorted vertex ids of the `t`-th triangle.
pub open spec fn tri_key(idx: Seq<u32>, verts: Seq<Vertex>, t: int) -> (u32, u32, u32) {
    sort3(verts[idx[3 * t] as int].id, verts[idx[3 * t + 1] as int].id, verts[idx[3 * t + 2] as int].id)
}

pub open spec fn is_first_tri(idx: Seq<u32>, verts: Seq<Vertex>, key: (u32, u32, u32), t: int) -> bool {
    &&& 0 <= t < idx.len() / 3
    &&& tri_key(idx, verts, t) == key
    &&& forall|s: int| 0 <= s < t ==> tri_key(idx, verts, s) != key
}

/// The triangle list without its first triangle whose sorted vertex ids are `key`.
pub open spec fn without_first_tri(idx: Seq<u32>, verts: Seq<Vertex>, key: (u32, u32, u32)) -> Seq<u32> {
    if exists|t: int| is_first_tri(idx, verts, key, t) {
        let t = choose|t: int| is_first_tri(idx, verts, key, t);
        idx.subrange(0, 3 * t) + idx.subrange(3 * t + 3, idx.len() as int)
    } else {
        idx
    }
}

/// The triangle list once each of the first `k` blacklisted triangles, in order,
/// has removed the first triangle with the same vertex ids.
pub open spec fn apply_blacklist(idx: Seq<u32>, verts: Seq<Vertex>, bl: Seq<u32>, k: int) -> Seq<u32>
    decreases k,
{
    if k <= 0 {
        idx
    } else {
        let prev = apply_blacklist(idx, verts, bl, k - 1);
        without_first_tri(prev, verts, sort3(bl[3 * (k - 1)], bl[3 * (k - 1) + 1], bl[3 * (k - 1) + 2]))
    }
}

/// Whether the three indices of the `t`-th triangle point into a vertex list of `n`.
pub open spec fn tri_in_bounds(idx: Seq<u32>, n: int, t: int) -> bool {
    &&& idx[3 * t] < n
    &&& idx[3 * t + 1] < n
    &&& idx[3 * t + 2] < n
}

/// Whether the search for the first triangle with vertex ids `key` reads only
/// vertices that exist: every triangle up to and including the first match
/// (all of them when none matches) points into the vertex list.
pub open spec fn scan_in_bounds(idx: Seq<u32>, verts: Seq<Vertex>, key: (u32, u32, u32)) -> bool {
    forall|t: int|
        0 <= t < idx.len() / 3 && (forall|s: int| 0 <= s < t ==> #[trigger] tri_key(idx, verts, s) != key)
            ==> #[trigger] tri_in_bounds(idx, verts.len() as int, t)
}

/// Whether removing the blacklisted triangles reads only vertices that exist:
/// each search, on the triangles left by the ones before it, does.
pub open spec fn blacklist_scans_in_bounds(idx: Seq<u32>, verts: Seq<Vertex>, bl: Seq<u32>) -> bool {
    let p = pruned_blacklist(bl, verts);
    forall|k: int|
        0 <= k < p.len() / 3 ==> #[trigger] scan_in_bounds(
            apply_blacklist(idx, verts, p, k),
            verts,
            blacklist_key(p, k),
        )
}

/// The three values of a triangle in ascending order.
fn sort_three(a: u32, b: u32, c: u32) -> (r: (u32, u32, u32))
    ensures
        r == sort3(a, b, c),
{
    if a <= b {
        if b <= c {
            (a, b, c)
        } else if a <= c {
            (a, c, b)
        } else {
            (c, a, b)
        }
    } else {
        if a <= c {
            (b, a, c)
        } else if b <= c {
            (b, c, a)
        } else {
            (c, b, a)
        }
    }
}

/// Whether some vertex of the list has id `id`.
fn has_vertex_id(verts: &Vec<Vertex>, id: u32) -> (r: bool)
    ensures
        r == vertex_ids(verts@).contains(id),
{
    let mut i: usize = 0;
    while i < verts.len()
        invariant
            i <= verts.len(),
            forall|j: int| 0 <= j < i ==> verts@[j].id != id,
        decreases verts.len() - i,
    {
        if verts[i].id == id {
            assert(vertex_ids(verts@)[i as int] == id);
            return true;
        }
        i = i + 1;
    }
    assert(!vertex_ids(verts@).contains(id)) by {
        if vertex_ids(verts@).contains(id) {
            let w = choose|j: int| 0 <= j < vertex_ids(verts@).len() && vertex_ids(verts@)[j] == id;
            assert(verts@[w].id == id);
        }
    }
    false
}

/// Removes the first triangle whose sorted vertex ids are `key`.
fn remove_first_tri(indices: &mut Vec<u32>, verts: &Vec<Vertex>, key: (u32, u32, u32))
    requires
        scan_in_bounds(old(indices)@, verts@, key),
    ensures
        final(indices)@ == without_first_tri(old(indices)@, verts@, key),
{
    let ntri = indices.len() / 3;
    let mut t: usize = 0;
    while t < ntri
        invariant
            t <= ntri,
            ntri == indices@.len() / 3,
            indices@.len() <= usize::MAX,
            indices@ == old(indices)@,
            scan_in_bounds(indices@, verts@, key),
            forall|s: int| 0 <= s < t ==> tri_key(indices@, verts@, s) != key,
        decreases ntri - t,
    {
        assert(3 * t + 2 < indices@.len()) by (nonlinear_arith)
            requires
                t < ntri,
                ntri == indices@.len() / 3,
        ;
        assert(tri_in_bounds(indices@, verts@.len() as int, t as int));
        let a = verts[indices[3 * t] as usize].id;
        let b = verts[indices[3 * t + 1] as usize].id;
        let c = verts[indices[3 * t + 2] as usize].id;
        let sorted = sort_three(a, b, c);
        if sorted.0 == key.0 && sorted.1 == key.1 && sorted.2 == key.2 {
            let ghost idx = indices@;
            assert(is_first_tri(idx, verts@, key, t as int));
            let ghost w = choose|u: int| is_first_tri(idx, verts@, key, u);
            assert(w == t as int) by {
                if w < t as int {
                } else if w > t as int {
                }
            }
            indices.remove(3 * t);
            indices.remove(3 * t);
            indices.remove(3 * t);
            assert(indices@ =~= idx.subrange(0, 3 * (t as int)) + idx.subrange(
                3 * (t as int) + 3,
                idx.len() as int,
            ));
            return;
        }
        t = t + 1;
    }
}

/// Drops blacklisted triangles that name a vertex id the mesh no longer has,
/// then removes from the triangle list, for each remaining blacklisted
/// triangle in order, the first triangle with the same vertex ids.
pub fn remove_blacklisted_tris(indices: &mut Vec<u32>, verts: &Vec<Vertex>, blacklist: &mut Vec<u32>)
    requires
        blacklist_scans_in_bounds(old(indices)@, verts@, old(blacklist)@),
    ensures
        final(blacklist)@ == pruned_blacklist(old(blacklist)@, verts@),
        final(indices)@ == apply_blacklist(
            old(indices)@,
            verts@,
            final(blacklist)@,
            (final(blacklist)@.len() / 3) as int,
        ),
{
    // keep only the blacklisted triangles whose vertices all exist
    let ghost bl0 = blacklist@;
    let ghost ids = vertex_ids(verts@);
    let nchunks = blacklist.len() / 3;
    let mut kept: Vec<u32> = Vec::new();
    let mut b: usize = 0;
    while b < nchunks
        invariant
            b <= nchunks,
            nchunks == bl0.len() / 3,
            bl0.len() <= usize::MAX,
            blacklist@ == bl0,
            ids == vertex_ids(verts@),
            kept@ + existing_chunks_from(bl0, ids, b as int) == existing_chunks_from(bl0, ids, 0),
            kept@.len() % 3 == 0,
        decreases nchunks - b,
    {
        assert(3 * b + 2 < bl0.len()) by (nonlinear_arith)
            requires
                b < nchunks,
                nchunks == bl0.len() / 3,
        ;
        let x0 = blacklist[3 * b];
        let x1 = blacklist[3 * b + 1];
        let x2 = blacklist[3 * b + 2];
        let ghost before = kept@;
        if has_vertex_id(verts, x0) && has_vertex_id(verts, x1) && has_vertex_id(verts, x2) {
            kept.push(x0);
            kept.push(x1);
            kept.push(x2);
            assert(bl0.subrange(3 * b as int, 3 * b as int + 3) =~= seq![x0, x1, x2]);
            assert(kept@ =~= before + bl0.subrange(3 * b as int, 3 * b as int + 3));
        }
        assert(existing_chunks_from(bl0, ids, b as int) =~= (if chunk_exists(bl0, ids, b as int) {
            bl0.subrange(3 * b as int, 3 * b as int + 3)
        } else {
            Seq::<u32>::empty()
        }) + existing_chunks_from(bl0, ids, b as int + 1));
        b = b + 1;
    }
    assert(existing_chunks_from(bl0, ids, nchunks as int) =~= Seq::<u32>::empty());
    let mut r: usize = 3 * nchunks;
    while r < blacklist.len()
        invariant
            3 * nchunks <= r <= bl0.len(),
            nchunks == bl0.len() / 3,
            blacklist@ == bl0,
            kept@ == existing_chunks_from(bl0, ids, 0) + bl0.subrange(3 * nchunks as int, r as int),
        decreases bl0.len() - r,
    {
        kept.push(blacklist[r]);
        r = r + 1;
        assert(kept@ =~= existing_chunks_from(bl0, ids, 0) + bl0.subrange(
            3 * nchunks as int,
            r as int,
        ));
    }
    *blacklist = kept;
    assert(blacklist@ =~= pruned_blacklist(bl0, verts@));

    // each blacklisted triangle removes its first match from the mesh
    let ghost idx0 = indices@;
    let nbl = blacklist.len() / 3;
    let mut k: usize = 0;
    while k < nbl
        invariant
            k <= nbl,
            nbl == blacklist@.len() / 3,
            blacklist@.len() <= usize::MAX,
            blacklist@ == pruned_blacklist(bl0, verts@),
            indices@ == apply_blacklist(idx0, verts@, blacklist@, k as int),
            blacklist_scans_in_bounds(idx0, verts@, bl0),
        decreases nbl - k,
    {
        assert(3 * k + 2 < blacklist@.len()) by (nonlinear_arith)
            requires
                k < nbl,
                nbl == blacklist@.len() / 3,
        ;
        let key = sort_three(blacklist[3 * k], blacklist[3 * k + 1], blacklist[3 * k + 2]);
        assert(scan_in_bounds(
            apply_blacklist(idx0, verts@, blacklist@, k as int),
            verts@,
            blacklist_key(blacklist@, k as int),
        ));
        remove_first_tri(indices, verts, key);
        k = k + 1;
    }
}


proof fn lemma_unreferenced_split(indices: Seq<u32>, lo: int, mid: int, hi: int)
    requires
        lo <= mid <= hi,
    ensures
        unreferenced_between(indices, lo, hi) == unreferenced_between(indices, lo, mid)
            + unreferenced_between(indices, mid, hi),
    decreases mid - lo,
{
    if lo < mid {
        lemma_unreferenced_split(indices, lo + 1, mid, hi);
    }
}

spec fn is_landing(indices: Seq<u32>, lo: int, n: int, q: int) -> bool {
    exists|x: int|
        lo <= x < n && is_referenced(indices, x) && q == x - lo - unreferenced_between(indices, lo, x)
}

/// Where each referenced vertex lands in `referenced_from`, and that every
/// position of it is such a landing place.
proof fn lemma_referenced_from(verts: Seq<Vertex>, indices: Seq<u32>, lo: int)
    requires
        0 <= lo <= verts.len(),
    ensures
        referenced_from(verts, indices, lo).len() == (verts.len() - lo) - unreferenced_between(
            indices,
            lo,
            verts.len() as int,
        ),
        forall|x: int|
            lo <= x < verts.len() && is_referenced(indices, x) ==> referenced_from(verts, indices, lo)[x
                - lo - unreferenced_between(indices, lo, x)] == verts[x],
        forall|q: int|
            0 <= q < referenced_from(verts, indices, lo).len() ==> #[trigger] is_landing(
                indices,
                lo,
                verts.len() as int,
                q,
            ),
    decreases verts.len() - lo,
{
    let n = verts.len() as int;
    if lo < n {
        lemma_referenced_from(verts, indices, lo + 1);
        let k = referenced_from(verts, indices, lo);
        let k1 = referenced_from(verts, indices, lo + 1);
        assert forall|x: int| lo < x <= n implies unreferenced_between(indices, lo, x) == (if is_referenced(
            indices,
            lo,
        ) {
            0int
        } else {
            1int
        }) + unreferenced_between(indices, lo + 1, x) by {}
        assert forall|x: int|
            lo <= x < n && is_referenced(indices, x) implies k[x - lo - unreferenced_between(
            indices,
            lo,
            x,
        )] == verts[x] by {
            assert(k == (if is_referenced(indices, lo) {
                seq![verts[lo]]
            } else {
                Seq::<Vertex>::empty()
            }) + k1);
            if x > lo {
                lemma_unreferenced_bound(indices, lo + 1, x);
                lemma_unreferenced_split(indices, lo + 1, x, n);
                lemma_unreferenced_bound(indices, x + 1, n);
                assert(unreferenced_between(indices, x, n) == unreferenced_between(indices, x + 1, n));
                let j = x - (lo + 1) - unreferenced_between(indices, lo + 1, x);
                assert(0 <= j < k1.len());
                assert(k1[j] == verts[x]);
            }
        }
        assert forall|q: int| 0 <= q < k.len() implies #[trigger] is_landing(indices, lo, n, q) by {
            if is_referenced(indices, lo) {
                if q == 0 {
                    assert(lo <= lo < n && is_referenced(indices, lo) && q == lo - lo
                        - unreferenced_between(indices, lo, lo));
                } else {
                    assert(0 <= q - 1 < k1.len());
                    assert(is_landing(indices, lo + 1, n, q - 1));
                    let x = choose|x: int|
                        lo + 1 <= x < n && is_referenced(indices, x) && q - 1 == x - (lo + 1)
                            - unreferenced_between(indices, lo + 1, x);
                    assert(lo <= x < n && is_referenced(indices, x) && q == x - lo
                        - unreferenced_between(indices, lo, x));
                }
            } else {
                assert(0 <= q < k1.len());
                assert(is_landing(indices, lo + 1, n, q));
                let x = choose|x: int|
                    lo + 1 <= x < n && is_referenced(indices, x) && q == x - (lo + 1)
                        - unreferenced_between(indices, lo + 1, x);
                assert(lo <= x < n && is_referenced(indices, x) && q == x - lo - unreferenced_between(
                    indices,
                    lo,
                    x,
                ));
            }
        }
    }
}

/// Dropping unused vertices leaves the mesh as it was: every index that
/// pointed at a vertex still points at that same vertex, an index that
/// pointed past the end still does, and every vertex left is used by some index.
pub proof fn lemma_cleanup_keeps_mesh(b: BoneView)
    requires
        b.vertices.len() <= 0x1_0000_0000,
    ensures
        forall|k: int|
            0 <= k < b.indices.len() && b.indices[k] < b.vertices.len() ==> {
                &&& cleaned_bone(b).indices[k] < cleaned_bone(b).vertices.len()
                &&& cleaned_bone(b).vertices[cleaned_bone(b).indices[k] as int]
                    == b.vertices[b.indices[k] as int]
            },
        forall|k: int|
            0 <= k < b.indices.len() && b.indices[k] >= b.vertices.len() ==> cleaned_bone(b).indices[k]
                >= cleaned_bone(b).vertices.len(),
        forall|q: int|
            0 <= q < cleaned_bone(b).vertices.len() ==> #[trigger] is_referenced(
                cleaned_bone(b).indices,
                q,
            ),
{
    let v = b.vertices;
    let i = b.indices;
    let n = v.len() as int;
    let c = cleaned_bone(b);
    lemma_referenced_from(v, i, 0);
    lemma_unreferenced_bound(i, 0, n);
    assert forall|k: int| 0 <= k < i.len() && i[k] < n implies {
        &&& c.indices[k] < c.vertices.len()
        &&& c.vertices[c.indices[k] as int] == v[i[k] as int]
    } by {
        let x = i[k] as int;
        assert(is_referenced(i, x)) by {
            assert(i[k] == x as u32);
        }
        lemma_unreferenced_split(i, 0, x, n);
        lemma_unreferenced_bound(i, 0, x);
        lemma_unreferenced_bound(i, x + 1, n);
        assert(unreferenced_between(i, x, n) == unreferenced_between(i, x + 1, n));
    }
    assert forall|k: int| 0 <= k < i.len() && i[k] >= n implies c.indices[k] >= c.vertices.len() by {
        lemma_unreferenced_bound(i, 0, n);
    }
    assert forall|q: int| 0 <= q < c.vertices.len() implies #[trigger] is_referenced(c.indices, q) by {
        assert(is_landing(i, 0, n, q));
        let x = choose|x: int|
            0 <= x < n && is_referenced(i, x) && q == x - 0 - unreferenced_between(i, 0, x);
        let k = choose|k: int| 0 <= k < i.len() && i[k] == x as u32;
        lemma_unreferenced_bound(i, 0, x);
        assert(c.indices[k] == q as u32);
    }
}

proof fn lemma_all_referenced_from(verts: Seq<Vertex>, indices: Seq<u32>, lo: int)
    requires
        0 <= lo <= verts.len(),
        forall|q: int| lo <= q < verts.len() ==> #[trigger] is_referenced(indices, q),
    ensures
        referenced_from(verts, indices, lo) == verts.subrange(lo, verts.len() as int),
    decreases verts.len() - lo,
{
    if lo < verts.len() {
        lemma_all_referenced_from(verts, indices, lo + 1);
        assert(is_referenced(indices, lo));
        assert(seq![verts[lo]] + verts.subrange(lo + 1, verts.len() as int) =~= verts.subrange(
            lo,
            verts.len() as int,
        ));
    } else {
        assert(verts.subrange(lo, verts.len() as int) =~= Seq::<Vertex>::empty());
    }
}

proof fn lemma_none_unreferenced(indices: Seq<u32>, lo: int, hi: int)
    requires
        forall|q: int| lo <= q < hi ==> #[trigger] is_referenced(indices, q),
    ensures
        unreferenced_between(indices, lo, hi) == 0,
    decreases hi - lo,
{
    if lo < hi {
        assert(is_referenced(indices, lo));
        lemma_none_unreferenced(indices, lo + 1, hi);
    }
}

proof fn lemma_strip_all_referenced(bverts: Seq<BoneBindVert>, mesh: Seq<Vertex>, indices: Seq<u32>, lo: int)
    requires
        forall|q: int| lo <= q < mesh.len() ==> #[trigger] is_referenced(indices, q),
    ensures
        strip_unreferenced(bverts, mesh, indices, lo) == bverts,
    decreases mesh.len() - lo,
{
    if !(lo >= mesh.len() || lo < 0) {
        assert(is_referenced(indices, lo));
        lemma_strip_all_referenced(bverts, mesh, indices, lo + 1);
    }
}

/// Dropping unused vertices a second time changes nothing: after the first
/// time every vertex left is used by some triangle.
pub proof fn lemma_cleanup_idempotent(b: BoneView)
    requires
        b.vertices.len() <= 0x1_0000_0000,
    ensures
        cleaned_bone(cleaned_bone(b)) == cleaned_bone(b),
{
    lemma_cleanup_keeps_mesh(b);
    let c = cleaned_bone(b);
    let n = c.vertices.len() as int;
    assert forall|q: int| 0 <= q < n implies #[trigger] is_referenced(c.indices, q) by {}
    lemma_all_referenced_from(c.vertices, c.indices, 0);
    assert(c.vertices.subrange(0, n) =~= c.vertices);
    assert forall|k: int| 0 <= k < c.indices.len() implies #[trigger] shifted_index(c.indices, n, c.indices[k])
        == c.indices[k] by {
        let x = c.indices[k];
        let hi = if x < n { x as int } else { n };
        lemma_none_unreferenced(c.indices, 0, hi);
    }
    assert(c.indices.map_values(|x: u32| shifted_index(c.indices, n, x)) =~= c.indices);
    assert forall|k: int| 0 <= k < c.binds.len() implies #[trigger] strip_bind(c.binds[k], c.vertices, c.indices, 0)
        == c.binds[k] by {
        lemma_strip_all_referenced(c.binds[k].verts, c.vertices, c.indices, 0);
    }
    assert(c.binds.map_values(|bd: BindView| strip_bind(bd, c.vertices, c.indices, 0)) =~= c.binds);
}

/// No two complete triangles of `idx` have the same vertex ids.
pub open spec fn distinct_tris(idx: Seq<u32>, verts: Seq<Vertex>) -> bool {
    forall|s: int, t: int|
        0 <= s < t < idx.len() / 3 ==> #[trigger] tri_key(idx, verts, s) != #[trigger] tri_key(idx, verts, t)
}

/// No complete triangle of `idx` has the vertex ids `key`.
pub open spec fn lacks_tri(idx: Seq<u32>, verts: Seq<Vertex>, key: (u32, u32, u32)) -> bool {
    forall|t: int| 0 <= t < idx.len() / 3 ==> #[trigger] tri_key(idx, verts, t) != key
}

/// The sorted vertex ids of the `k`-th blacklisted triangle.
pub open spec fn blacklist_key(bl: Seq<u32>, k: int) -> (u32, u32, u32) {
    sort3(bl[3 * k], bl[3 * k + 1], bl[3 * k + 2])
}

proof fn lemma_without_first_tri_keys(idx: Seq<u32>, verts: Seq<Vertex>, key: (u32, u32, u32), t0: int)
    requires
        is_first_tri(idx, verts, key, t0),
    ensures
        without_first_tri(idx, verts, key).len() / 3 == idx.len() / 3 - 1,
        forall|s: int|
            0 <= s < without_first_tri(idx, verts, key).len() / 3 ==> #[trigger] tri_key(
                without_first_tri(idx, verts, key),
                verts,
                s,
            ) == tri_key(idx, verts, if s < t0 { s } else { s + 1 }),
{
    let c = choose|t: int| is_first_tri(idx, verts, key, t);
    assert(c == t0) by {
        if c < t0 {
            assert(tri_key(idx, verts, c) != key);
        } else if t0 < c {
            assert(tri_key(idx, verts, t0) != key);
        }
    }
    let r = without_first_tri(idx, verts, key);
    assert(r == idx.subrange(0, 3 * t0) + idx.subrange(3 * t0 + 3, idx.len() as int));
    assert(r.len() == idx.len() - 3);
    assert(r.len() / 3 == idx.len() / 3 - 1);
    assert forall|s: int| 0 <= s < r.len() / 3 implies #[trigger] tri_key(r, verts, s) == tri_key(
        idx,
        verts,
        if s < t0 { s } else { s + 1 },
    ) by {
        assert(3 * s + 2 < r.len());
        if s < t0 {
            assert(r[3 * s] == idx[3 * s]);
            assert(r[3 * s + 1] == idx[3 * s + 1]);
            assert(r[3 * s + 2] == idx[3 * s + 2]);
        } else {
            assert(r[3 * s] == idx[3 * s + 3]);
            assert(r[3 * s + 1] == idx[3 * s + 4]);
            assert(r[3 * s + 2] == idx[3 * s + 5]);
        }
    }
}

proof fn lemma_lacking_unchanged(idx: Seq<u32>, verts: Seq<Vertex>, key: (u32, u32, u32))
    requires
        lacks_tri(idx, verts, key),
    ensures
        without_first_tri(idx, verts, key) == idx,
{
    if exists|t: int| is_first_tri(idx, verts, key, t) {
        let t = choose|t: int| is_first_tri(idx, verts, key, t);
        assert(tri_key(idx, verts, t) != key);
    }
}

proof fn lemma_remove_tri(idx: Seq<u32>, verts: Seq<Vertex>, key: (u32, u32, u32), other: (u32, u32, u32))
    requires
        distinct_tris(idx, verts),
    ensures
        distinct_tris(without_first_tri(idx, verts, key), verts),
        lacks_tri(without_first_tri(idx, verts, key), verts, key),
        lacks_tri(idx, verts, other) ==> lacks_tri(without_first_tri(idx, verts, key), verts, other),
{
    let r = without_first_tri(idx, verts, key);
    if exists|t: int| is_first_tri(idx, verts, key, t) {
        let t0 = choose|t: int| is_first_tri(idx, verts, key, t);
        lemma_without_first_tri_keys(idx, verts, key, t0);
        assert forall|s: int, u: int| 0 <= s < u < r.len() / 3 implies #[trigger] tri_key(r, verts, s)
            != #[trigger] tri_key(r, verts, u) by {
            let s2 = if s < t0 { s } else { s + 1 };
            let u2 = if u < t0 { u } else { u + 1 };
            assert(tri_key(idx, verts, s2) != tri_key(idx, verts, u2));
        }
        assert forall|s: int| 0 <= s < r.len() / 3 implies #[trigger] tri_key(r, verts, s) != key by {
            let s2 = if s < t0 { s } else { s + 1 };
            if s2 < t0 {
                assert(tri_key(idx, verts, s2) != tri_key(idx, verts, t0));
            } else {
                assert(tri_key(idx, verts, t0) != tri_key(idx, verts, s2));
            }
        }
        if lacks_tri(idx, verts, other) {
            assert forall|s: int| 0 <= s < r.len() / 3 implies #[trigger] tri_key(r, verts, s) != other by {
                let s2 = if s < t0 { s } else { s + 1 };
                assert(tri_key(idx, verts, s2) != other);
            }
        }
    } else {
        assert forall|t: int| 0 <= t < idx.len() / 3 implies #[trigger] tri_key(idx, verts, t) != key by {
            if tri_key(idx, verts, t) == key {
                assert forall|s: int| 0 <= s < t implies tri_key(idx, verts, s) != key by {
                    assert(tri_key(idx, verts, s) != tri_key(idx, verts, t));
                }
                assert(is_first_tri(idx, verts, key, t));
            }
        }
    }
}

proof fn lemma_applied_lacks(idx: Seq<u32>, verts: Seq<Vertex>, bl: Seq<u32>, k: int)
    requires
        distinct_tris(idx, verts),
    ensures
        distinct_tris(apply_blacklist(idx, verts, bl, k), verts),
        forall|j: int|
            0 <= j < k ==> lacks_tri(apply_blacklist(idx, verts, bl, k), verts, #[trigger] blacklist_key(bl, j)),
    decreases k,
{
    if k > 0 {
        lemma_applied_lacks(idx, verts, bl, k - 1);
        let prev = apply_blacklist(idx, verts, bl, k - 1);
        let key = blacklist_key(bl, k - 1);
        assert(apply_blacklist(idx, verts, bl, k) == without_first_tri(prev, verts, key));
        lemma_remove_tri(prev, verts, key, key);
        assert forall|j: int| 0 <= j < k implies lacks_tri(
            apply_blacklist(idx, verts, bl, k),
            verts,
            #[trigger] blacklist_key(bl, j),
        ) by {
            if j < k - 1 {
                lemma_remove_tri(prev, verts, key, blacklist_key(bl, j));
            }
        }
    }
}

proof fn lemma_apply_when_lacking(idx: Seq<u32>, verts: Seq<Vertex>, bl: Seq<u32>, k: int)
    requires
        forall|j: int| 0 <= j < k ==> lacks_tri(idx, verts, #[trigger] blacklist_key(bl, j)),
    ensures
        apply_blacklist(idx, verts, bl, k) == idx,
    decreases k,
{
    if k > 0 {
        lemma_apply_when_lacking(idx, verts, bl, k - 1);
        assert(lacks_tri(idx, verts, blacklist_key(bl, k - 1)));
        lemma_lacking_unchanged(idx, verts, blacklist_key(bl, k - 1));
    }
}

proof fn lemma_existing_chunks_of_existing(e: Seq<u32>, tail: Seq<u32>, ids: Seq<u32>, lo: int)
    requires
        e.len() % 3 == 0,
        tail.len() < 3,
        0 <= lo <= e.len() / 3,
        forall|j: int| 0 <= j < e.len() ==> ids.contains(#[trigger] e[j]),
    ensures
        existing_chunks_from(e + tail, ids, lo) == e.subrange(3 * lo, e.len() as int),
    decreases e.len() / 3 - lo,
{
    let p = e + tail;
    assert(p.len() / 3 == e.len() / 3);
    if lo < e.len() / 3 {
        lemma_existing_chunks_of_existing(e, tail, ids, lo + 1);
        assert(p[3 * lo] == e[3 * lo]);
        assert(p[3 * lo + 1] == e[3 * lo + 1]);
        assert(p[3 * lo + 2] == e[3 * lo + 2]);
        assert(chunk_exists(p, ids, lo));
        assert(p.subrange(3 * lo, 3 * lo + 3) =~= e.subrange(3 * lo, 3 * lo + 3));
        assert(e.subrange(3 * lo, 3 * lo + 3) + e.subrange(3 * lo + 3, e.len() as int) =~= e.subrange(
            3 * lo,
            e.len() as int,
        ));
    } else {
        assert(e.subrange(3 * lo, e.len() as int) =~= Seq::<u32>::empty());
    }
}

proof fn lemma_pruned_idempotent(bl: Seq<u32>, verts: Seq<Vertex>)
    ensures
        pruned_blacklist(pruned_blacklist(bl, verts), verts) == pruned_blacklist(bl, verts),
{
    let ids = vertex_ids(verts);
    let e = existing_chunks_from(bl, ids, 0);
    let tail = bl.subrange(3 * (bl.len() / 3) as int, bl.len() as int);
    lemma_existing_chunks(bl, ids, 0);
    lemma_existing_chunks_len(bl, ids, 0);
    let p = pruned_blacklist(bl, verts);
    assert(p == e + tail);
    assert(tail.len() < 3);
    lemma_existing_chunks_of_existing(e, tail, ids, 0);
    assert(e.subrange(0, e.len() as int) =~= e);
    assert(p.len() / 3 == e.len() / 3);
    assert(3 * (p.len() / 3) == e.len());
    assert(p.subrange(3 * (p.len() / 3) as int, p.len() as int) =~= tail);
}

/// Removing blacklisted triangles a second time, over the same vertices,
/// changes neither the blacklist nor the triangles, provided no two triangles
/// of the list have the same vertex ids.
pub proof fn lemma_blacklist_removal_idempotent(idx: Seq<u32>, verts: Seq<Vertex>, bl: Seq<u32>)
    requires
        distinct_tris(idx, verts),
    ensures
        ({
            let bl1 = pruned_blacklist(bl, verts);
            let idx1 = apply_blacklist(idx, verts, bl1, (bl1.len() / 3) as int);
            &&& pruned_blacklist(bl1, verts) == bl1
            &&& apply_blacklist(idx1, verts, bl1, (bl1.len() / 3) as int) == idx1
        }),
{
    let bl1 = pruned_blacklist(bl, verts);
    let k = (bl1.len() / 3) as int;
    lemma_pruned_idempotent(bl, verts);
    lemma_applied_lacks(idx, verts, bl1, k);
    let idx1 = apply_blacklist(idx, verts, bl1, k);
    lemma_apply_when_lacking(idx1, verts, bl1, k);
}

/// A new vertex with the given position, colour and texture coordinates;
/// whatever is not given, and its id and rotation offset, are zero.
pub fn vert(pos: Option<Vec2>, col: Option<Color>, uv: Option<Vec2>) -> (v: Vertex)
    ensures
        v == (Vertex {
            id: 0,
            pos: match pos {
                Some(p) => p,
                None => Vec2 { x: 0, y: 0 },
            },
            uv: match uv {
                Some(u) => u,
                None => Vec2 { x: 0, y: 0 },
            },
            color: match col {
                Some(c) => c,
                None => Color { r: 0, g: 0, b: 0, a: 0 },
            },
            offset_rot: 0,
        }),
{
    let zero = Vec2 { x: 0, y: 0 };
    Vertex {
        id: 0,
        pos: match pos {
            Some(p) => p,
            None => zero,
        },
        uv: match uv {
            Some(u) => u,
            None => zero,
        },
        color: match col {
            Some(c) => c,
            None => Color { r: 0, g: 0, b: 0, a: 0 },
        },
        offset_rot: 0,
    }
}

proof fn lemma_existing_chunks(bl: Seq<u32>, ids: Seq<u32>, lo: int)
    ensures
        forall|j: int|
            0 <= j < existing_chunks_from(bl, ids, lo).len() ==> ids.contains(
                #[trigger] existing_chunks_from(bl, ids, lo)[j],
            ),
    decreases bl.len() / 3 - lo,
{
    if !(lo < 0 || lo >= bl.len() / 3) {
        lemma_existing_chunks(bl, ids, lo + 1);
        let head = if chunk_exists(bl, ids, lo) {
            bl.subrange(3 * lo, 3 * lo + 3)
        } else {
            Seq::empty()
        };
        let rest = existing_chunks_from(bl, ids, lo + 1);
        let r = existing_chunks_from(bl, ids, lo);
        assert(r == head + rest);
        assert forall|j: int| 0 <= j < r.len() implies ids.contains(#[trigger] r[j]) by {
            if j < head.len() {
                assert(r[j] == bl[3 * lo + j]);
                assert(j == 0 || j == 1 || j == 2);
            } else {
                assert(r[j] == rest[j - head.len()]);
            }
        }
    }
}

/// Once blacklisted triangles are removed, every complete triangle left in the
/// blacklist names only vertex ids of the mesh.
pub proof fn lemma_blacklist_names_existing_vertices(bl: Seq<u32>, verts: Seq<Vertex>)
    ensures
        forall|j: int|
            0 <= j < 3 * (pruned_blacklist(bl, verts).len() / 3) ==> vertex_ids(verts).contains(
                #[trigger] pruned_blacklist(bl, verts)[j],
            ),
{
    let ids = vertex_ids(verts);
    let e = existing_chunks_from(bl, ids, 0);
    let tail = bl.subrange(3 * (bl.len() / 3) as int, bl.len() as int);
    lemma_existing_chunks(bl, ids, 0);
    lemma_existing_chunks_len(bl, ids, 0);
    let p = pruned_blacklist(bl, verts);
    assert(p == e + tail);
    assert(tail.len() < 3);
    assert forall|j: int| 0 <= j < 3 * (p.len() / 3) implies ids.contains(#[trigger] p[j]) by {
        assert(j < e.len()) by (nonlinear_arith)
            requires
                p.len() == e.len() + tail.len(),
                tail.len() < 3,
                e.len() % 3 == 0,
                0 <= j < 3 * (p.len() / 3),
        ;
        assert(p[j] == e[j]);
    }
}

proof fn lemma_existing_chunks_len(bl: Seq<u32>, ids: Seq<u32>, lo: int)
    ensures
        existing_chunks_from(bl, ids, lo).len() % 3 == 0,
    decreases bl.len() / 3 - lo,
{
    if !(lo < 0 || lo >= bl.len() / 3) {
        lemma_existing_chunks_len(bl, ids, lo + 1);
    }
}

} // verus!
