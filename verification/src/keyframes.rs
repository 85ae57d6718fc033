//! Keyframes: keeping an animation's keyframes in frame order, and copying
//! and pasting keyframes.
use vstd::prelude::*;
use crate::model::{
    views, AnimElement, AnimationView, Armature, ArmatureView, CopyBuffer, CopyBufferView, Duplicate, Keyframe, KeyframeView,
    SelectionState, SelectionView,
};
use crate::state::{unselect_all, EditMode, InputStates, Ui, UiView};
use vstd::string::StringExecFns;

verus! {

/// `s` (in frame order) with `x` put after every keyframe whose frame is not
/// later than its own.
pub open spec fn insert_by_frame(s: Seq<KeyframeView>, x: KeyframeView) -> Seq<KeyframeView>
    decreases s.len(),
{
    if s.len() == 0 {
        seq![x]
    } else if s.last().frame <= x.frame {
        s.push(x)
    } else {
        insert_by_frame(s.drop_last(), x).push(s.last())
    }
}

/// The keyframes sorted by frame; keyframes on the same frame keep their order.
pub open spec fn sorted_by_frame(s: Seq<KeyframeView>) -> Seq<KeyframeView>
    decreases s.len(),
{
    if s.len() == 0 {
        s
    } else {
        insert_by_frame(sorted_by_frame(s.drop_last()), s.last())
    }
}

/// Whether the frames never decrease along `s`.
pub open spec fn frames_ascending(s: Seq<KeyframeView>) -> bool {
    forall|i: int, j: int| 0 <= i <= j < s.len() ==> s[i].frame <= s[j].frame
}

/// Inserts `x` into `res` (in frame order) after the keyframes whose frame
/// is not later than its own.
fn insert_keyframe(res: &mut Vec<Keyframe>, x: Keyframe)
    ensures
        views(final(res)@) == insert_by_frame(views(old(res)@), x@),
{
    let ghost r0 = views(res@);
    let mut j = res.len();
    assert(r0.subrange(0, j as int) =~= r0);
    assert(r0.subrange(j as int, r0.len() as int) =~= Seq::<KeyframeView>::empty());
    assert(insert_by_frame(r0, x@) + Seq::<KeyframeView>::empty() =~= insert_by_frame(r0, x@));
    while j > 0 && res[j - 1].frame > x.frame
        invariant
            j <= res@.len(),
            views(res@) == r0,
            insert_by_frame(r0, x@) == insert_by_frame(r0.subrange(0, j as int), x@) + r0.subrange(
                j as int,
                r0.len() as int,
            ),
        decreases j,
    {
        let ghost pre = r0.subrange(0, j as int);
        assert(pre.drop_last() =~= r0.subrange(0, j - 1));
        assert(r0.subrange(j - 1, r0.len() as int) =~= seq![pre.last()] + r0.subrange(
            j as int,
            r0.len() as int,
        ));
        assert(insert_by_frame(pre, x@) == insert_by_frame(pre.drop_last(), x@).push(pre.last()));
        assert(insert_by_frame(pre.drop_last(), x@).push(pre.last()) + r0.subrange(
            j as int,
            r0.len() as int,
        ) =~= insert_by_frame(r0.subrange(0, j - 1), x@) + r0.subrange(j - 1, r0.len() as int));
        j = j - 1;
    }
    let ghost pre = r0.subrange(0, j as int);
    assert(insert_by_frame(pre, x@) =~= pre.push(x@));
    res.insert(j, x);
    assert(views(res@) =~= pre.push(x@) + r0.subrange(j as int, r0.len() as int));
}

/// Sorts keyframes by frame, keeping the order of keyframes on the same frame.
pub fn sort_keyframes(keyframes: &mut Vec<Keyframe>)
    ensures
        views(final(keyframes)@) == sorted_by_frame(views(old(keyframes)@)),
{
    let mut unsorted: Vec<Keyframe> = Vec::new();
    std::mem::swap(&mut unsorted, keyframes);
    let ghost u = views(unsorted@);
    let mut i: usize = 0;
    while i < unsorted.len()
        invariant
            i <= unsorted@.len(),
            u == views(unsorted@),
            views(keyframes@) == sorted_by_frame(u.subrange(0, i as int)),
        decreases unsorted@.len() - i,
    {
        let x = unsorted[i].duplicate();
        insert_keyframe(keyframes, x);
        assert(u.subrange(0, i + 1).drop_last() =~= u.subrange(0, i as int));
        i = i + 1;
    }
    assert(u.subrange(0, u.len() as int) =~= u);
}

/// Puts the selected keyframes, and only them, in the copy buffer.
pub fn copy_selected_keyframes(copy_buffer: &mut CopyBuffer, ui: &Ui)
    ensures
        final(copy_buffer)@ == (CopyBufferView { bones: Seq::empty(), keyframes: ui@.selected_keyframes }),
{
    copy_buffer.bones = Vec::new();
    copy_buffer.keyframes = crate::model::duplicate_vec(&ui.selected_keyframes);
    assert(views(copy_buffer.bones@) =~= Seq::<crate::model::BoneView>::empty());
}

/// The keyframes moved so that the first one lands on `frame`, keeping their spacing.
pub open spec fn shifted_to(s: Seq<KeyframeView>, frame: i32) -> Seq<KeyframeView> {
    s.map_values(|kf: KeyframeView| KeyframeView { frame: (frame + (kf.frame - s[0].frame)) as i32, ..kf })
}

/// Whether `buf` has a keyframe on the same frame and element as `kf`.
pub open spec fn clashes(buf: Seq<KeyframeView>, kf: KeyframeView) -> bool {
    exists|i: int| 0 <= i < buf.len() && buf[i].frame == kf.frame && buf[i].element == kf.element
}

/// The keyframes of `s` that no keyframe of `buf` clashes with, in order.
pub open spec fn without_clashes(s: Seq<KeyframeView>, buf: Seq<KeyframeView>) -> Seq<KeyframeView>
    decreases s.len(),
{
    if s.len() == 0 {
        s
    } else {
        let r = without_clashes(s.drop_last(), buf);
        if clashes(buf, s.last()) {
            r
        } else {
            r.push(s.last())
        }
    }
}

/// Whether the copied keyframes can be moved to `frame` without leaving the
/// range of `i32`.
pub open spec fn paste_fits(buf: Seq<KeyframeView>, frame: i32) -> bool {
    let s = sorted_by_frame(buf);
    forall|k: int|
        0 <= k < s.len() ==> i32::MIN <= #[trigger] s[k].frame - s[0].frame <= i32::MAX && i32::MIN
            <= frame + (s[k].frame - s[0].frame) <= i32::MAX
}

fn has_clash(buf: &Vec<Keyframe>, frame: i32, element: AnimElement) -> (r: bool)
    ensures
        r == exists|i: int|
            0 <= i < buf@.len() && buf@[i].frame == frame && buf@[i].element == element,
{
    let mut i: usize = 0;
    while i < buf.len()
        invariant
            i <= buf@.len(),
            forall|j: int| 0 <= j < i ==> !(buf@[j].frame == frame && buf@[j].element == element),
        decreases buf@.len() - i,
    {
        if buf[i].frame == frame && buf[i].element == element {
            return true;
        }
        i = i + 1;
    }
    false
}

/// Pastes the copied keyframes into the selected animation so that the
/// earliest lands on `frame`: keyframes already on a pasted keyframe's frame
/// and element are dropped, and the animation is sorted by frame again. The
/// copy buffer is left sorted by frame.
pub fn paste_keyframes_on_frame(
    copy_buffer: &mut CopyBuffer,
    armature: &mut Armature,
    selections: &SelectionState,
    frame: i32,
)
    requires
        old(copy_buffer).keyframes.len() > 0 ==> selections.anim < old(armature).animations.len(),
        paste_fits(views(old(copy_buffer).keyframes@), frame),
    ensures
        old(copy_buffer).keyframes.len() == 0 ==> final(copy_buffer)@ == old(copy_buffer)@
            && final(armature)@ == old(armature)@,
        old(copy_buffer).keyframes.len() > 0 ==> ({
            let sorted = sorted_by_frame(views(old(copy_buffer).keyframes@));
            let pasted = shifted_to(sorted, frame);
            let a = selections.anim as int;
            let anim = old(armature)@.animations[a];
            &&& final(copy_buffer)@ == (CopyBufferView { keyframes: sorted, ..old(copy_buffer)@ })
            &&& final(armature)@ == (crate::model::ArmatureView {
                animations: old(armature)@.animations.update(
                    a,
                    crate::model::AnimationView {
                        keyframes: sorted_by_frame(without_clashes(anim.keyframes, pasted) + pasted),
                        ..anim
                    },
                ),
                ..old(armature)@
            })
        }),
{
    if copy_buffer.keyframes.len() == 0 {
        return;
    }
    sort_keyframes(&mut copy_buffer.keyframes);
    let ghost sorted = views(copy_buffer.keyframes@);
    proof {
        lemma_sorted_len(views(old(copy_buffer).keyframes@));
    }
    assert(copy_buffer.keyframes.len() > 0);
    let base_frame = copy_buffer.keyframes[0].frame;

    // the copied keyframes, moved to the new frame
    let mut buffer_frames: Vec<Keyframe> = Vec::new();
    let mut k: usize = 0;
    while k < copy_buffer.keyframes.len()
        invariant
            k <= copy_buffer.keyframes@.len(),
            sorted == views(copy_buffer.keyframes@),
            sorted.len() > 0,
            base_frame == sorted[0].frame,
            paste_fits(views(old(copy_buffer).keyframes@), frame),
            sorted == sorted_by_frame(views(old(copy_buffer).keyframes@)),
            views(buffer_frames@) == shifted_to(sorted, frame).subrange(0, k as int),
        decreases copy_buffer.keyframes@.len() - k,
    {
        let mut kf = copy_buffer.keyframes[k].duplicate();
        assert(i32::MIN <= sorted[k as int].frame - sorted[0].frame <= i32::MAX);
        let diff = kf.frame - base_frame;
        kf.frame = frame + diff;
        let ghost before = views(buffer_frames@);
        assert(kf@ == shifted_to(sorted, frame)[k as int]);
        buffer_frames.push(kf);
        assert(views(buffer_frames@) =~= before.push(kf@));
        assert(views(buffer_frames@) =~= shifted_to(sorted, frame).subrange(0, k + 1));
        k = k + 1;
    }
    assert(views(buffer_frames@) =~= shifted_to(sorted, frame));
    let ghost pasted = views(buffer_frames@);

    // remove keyframes on the same frame and element as a pasted one
    let a = selections.anim;
    let mut keyframes: Vec<Keyframe> = Vec::new();
    std::mem::swap(&mut keyframes, &mut armature.animations[a].keyframes);
    let ghost old_kfs = views(keyframes@);
    let mut kept: Vec<Keyframe> = Vec::new();
    let mut i: usize = 0;
    while i < keyframes.len()
        invariant
            i <= keyframes@.len(),
            old_kfs == views(keyframes@),
            pasted == views(buffer_frames@),
            views(kept@) == without_clashes(old_kfs.subrange(0, i as int), pasted),
        decreases keyframes@.len() - i,
    {
        let c = has_clash(&buffer_frames, keyframes[i].frame, keyframes[i].element);
        assert(c == clashes(pasted, old_kfs[i as int])) by {
            if c {
                let w = choose|w: int|
                    0 <= w < buffer_frames@.len() && buffer_frames@[w].frame == keyframes@[i as int].frame
                        && buffer_frames@[w].element == keyframes@[i as int].element;
                assert(pasted[w].frame == old_kfs[i as int].frame);
            }
            if clashes(pasted, old_kfs[i as int]) {
                let w = choose|w: int|
                    0 <= w < pasted.len() && pasted[w].frame == old_kfs[i as int].frame
                        && pasted[w].element == old_kfs[i as int].element;
                assert(buffer_frames@[w].frame == keyframes@[i as int].frame);
            }
        }
        if !c {
            kept.push(keyframes[i].duplicate());
        }
        assert(old_kfs.subrange(0, i + 1).drop_last() =~= old_kfs.subrange(0, i as int));
        i = i + 1;
    }
    assert(old_kfs.subrange(0, old_kfs.len() as int) =~= old_kfs);

    // add the pasted keyframes, then sort by frame again
    let ghost kept_view = views(kept@);
    let mut b: usize = 0;
    while b < buffer_frames.len()
        invariant
            b <= buffer_frames@.len(),
            pasted == views(buffer_frames@),
            views(kept@) == kept_view + pasted.subrange(0, b as int),
        decreases buffer_frames@.len() - b,
    {
        let ghost before = views(kept@);
        kept.push(buffer_frames[b].duplicate());
        assert(views(kept@) =~= before.push(pasted[b as int]));
        b = b + 1;
        assert(views(kept@) =~= kept_view + pasted.subrange(0, b as int));
    }
    assert(pasted.subrange(0, pasted.len() as int) =~= pasted);
    sort_keyframes(&mut kept);
    armature.animations[a].keyframes = kept;
    assert(views(armature.animations@) =~= old(armature)@.animations.update(
        a as int,
        crate::model::AnimationView {
            keyframes: sorted_by_frame(without_clashes(old_kfs, pasted) + pasted),
            ..old(armature)@.animations[a as int]
        },
    ));
}

proof fn lemma_insert_len(s: Seq<KeyframeView>, x: KeyframeView)
    ensures
        insert_by_frame(s, x).len() == s.len() + 1,
    decreases s.len(),
{
    if s.len() > 0 && s.last().frame > x.frame {
        lemma_insert_len(s.drop_last(), x);
    }
}

proof fn lemma_sorted_len(s: Seq<KeyframeView>)
    ensures
        sorted_by_frame(s).len() == s.len(),
    decreases s.len(),
{
    if s.len() > 0 {
        lemma_sorted_len(s.drop_last());
        lemma_insert_len(sorted_by_frame(s.drop_last()), s.last());
    }
}

proof fn lemma_insert_by_frame(s: Seq<KeyframeView>, x: KeyframeView)
    requires
        frames_ascending(s),
    ensures
        frames_ascending(insert_by_frame(s, x)),
        insert_by_frame(s, x).to_multiset() == s.to_multiset().insert(x),
        insert_by_frame(s, x).len() == s.len() + 1,
        forall|i: int|
            0 <= i < insert_by_frame(s, x).len() ==> #[trigger] insert_by_frame(s, x)[i] == x || s.contains(
                insert_by_frame(s, x)[i],
            ),
    decreases s.len(),
{
    broadcast use vstd::seq_lib::group_to_multiset_ensures;

    let r = insert_by_frame(s, x);
    if s.len() == 0 {
        assert(r =~= seq![x]);
        assert(Seq::<KeyframeView>::empty().push(x) =~= seq![x]);
    } else if s.last().frame <= x.frame {
    } else {
        let s1 = s.drop_last();
        assert(frames_ascending(s1));
        lemma_insert_by_frame(s1, x);
        let r1 = insert_by_frame(s1, x);
        assert(s1.push(s.last()) =~= s);
        assert forall|i: int| 0 <= i < r1.len() implies r1[i].frame <= s.last().frame by {
            if r1[i] != x {
                let w = choose|w: int| 0 <= w < s1.len() && s1[w] == r1[i];
                assert(s[w] == s1[w]);
            }
        }
        assert forall|i: int| 0 <= i < r.len() implies #[trigger] r[i] == x || s.contains(r[i]) by {
            if i < r1.len() && r1[i] != x {
                let w = choose|w: int| 0 <= w < s1.len() && s1[w] == r1[i];
                assert(s[w] == r[i]);
            } else if i == r1.len() {
                assert(s[s.len() - 1] == r[i]);
            }
        }
        assert(r.to_multiset() =~= s.to_multiset().insert(x));
    }
}

/// Sorting by frame puts the frames in ascending order and keeps the same
/// keyframes, each as many times as before.
pub proof fn lemma_sorted_by_frame(s: Seq<KeyframeView>)
    ensures
        frames_ascending(sorted_by_frame(s)),
        sorted_by_frame(s).to_multiset() == s.to_multiset(),
    decreases s.len(),
{
    broadcast use vstd::seq_lib::group_to_multiset_ensures;

    if s.len() > 0 {
        lemma_sorted_by_frame(s.drop_last());
        lemma_insert_by_frame(sorted_by_frame(s.drop_last()), s.last());
        assert(s.drop_last().push(s.last()) =~= s);
    }
}

/// Whether two keyframes are equal in every field.
pub fn same_keyframe(a: &Keyframe, b: &Keyframe) -> (r: bool)
    ensures
        r == (a@ == b@),
{
    a.frame == b.frame && a.bone_id == b.bone_id && a.element == b.element && a.value == b.value
        && a.start_handle == b.start_handle && a.end_handle == b.end_handle && a.handle_preset
        == b.handle_preset && crate::text::str_equal(a.value_str.as_str(), b.value_str.as_str())
}

/// The frame a selected keyframe lands on when the dragged keyframe is
/// dropped on `frame`: it keeps its distance to the dragged one, but never
/// goes below frame 0.
pub open spec fn landing(skf: KeyframeView, frame: i32, dragged: i32) -> i32 {
    let f = frame + (skf.frame - dragged);
    if f < 0 {
        0i32
    } else {
        f as i32
    }
}

/// Whether `s[i]` is the first keyframe of the same bone and element as
/// `skf` on frame `f`.
pub open spec fn is_first_clash(s: Seq<KeyframeView>, skf: KeyframeView, f: i32, i: int) -> bool {
    &&& 0 <= i < s.len()
    &&& s[i].bone_id == skf.bone_id && s[i].element == skf.element && s[i].frame == f
    &&& forall|j: int|
        0 <= j < i ==> !(s[j].bone_id == skf.bone_id && s[j].element == skf.element && s[j].frame == f)
}

/// Whether `s[i]` is the first keyframe equal to `skf`.
pub open spec fn is_first_equal(s: Seq<KeyframeView>, skf: KeyframeView, i: int) -> bool {
    &&& 0 <= i < s.len()
    &&& s[i] == skf
    &&& forall|j: int| 0 <= j < i ==> s[j] != skf
}

/// `s` without its first keyframe of the same bone and element as `skf` on frame `f`.
pub open spec fn without_clash(s: Seq<KeyframeView>, skf: KeyframeView, f: i32) -> Seq<KeyframeView> {
    if exists|i: int| is_first_clash(s, skf, f, i) {
        s.remove(choose|i: int| is_first_clash(s, skf, f, i))
    } else {
        s
    }
}

/// `s` with its first keyframe equal to `skf` moved to frame `f`, and `skf`
/// as it then is (unchanged when `s` has no such keyframe).
pub open spec fn with_moved(s: Seq<KeyframeView>, skf: KeyframeView, f: i32) -> (Seq<KeyframeView>, KeyframeView) {
    if exists|i: int| is_first_equal(s, skf, i) {
        (
            s.update(choose|i: int| is_first_equal(s, skf, i), KeyframeView { frame: f, ..skf }),
            KeyframeView { frame: f, ..skf },
        )
    } else {
        (s, skf)
    }
}

/// The keyframes and the selected keyframe once `skf` is moved to its landing
/// frame: the first keyframe already there on its line goes, then the first
/// keyframe equal to `skf`, if any is left, moves (and `skf` with it).
pub open spec fn moved_one(s: Seq<KeyframeView>, skf: KeyframeView, frame: i32, dragged: i32) -> (
    Seq<KeyframeView>,
    KeyframeView,
) {
    let f = landing(skf, frame, dragged);
    with_moved(without_clash(s, skf, f), skf, f)
}

/// The keyframes and the selected keyframes once each selected keyframe, in
/// order, is moved.
pub open spec fn moved_all(s: Seq<KeyframeView>, sel: Seq<KeyframeView>, frame: i32, dragged: i32) -> (
    Seq<KeyframeView>,
    Seq<KeyframeView>,
)
    decreases sel.len(),
{
    if sel.len() == 0 {
        (s, sel)
    } else {
        let prev = moved_all(s, sel.drop_last(), frame, dragged);
        let step = moved_one(prev.0, sel.last(), frame, dragged);
        (step.0, prev.1.push(step.1))
    }
}

/// Whether a drop on `frame` moves nothing: it is where the drag started, or
/// nothing (-1) was dragged or hit.
pub open spec fn drop_is_idle(frame: i32, dragged: i32) -> bool {
    frame == dragged || dragged == -1 || frame == -1
}

/// Whether the landing frame of every selected keyframe can be computed.
pub open spec fn landings_fit(sel: Seq<KeyframeView>, frame: i32, dragged: i32) -> bool {
    forall|k: int|
        0 <= k < sel.len() ==> i32::MIN <= #[trigger] sel[k].frame - dragged <= i32::MAX && i32::MIN
            <= frame + (sel[k].frame - dragged) <= i32::MAX
}

/// Removes the first keyframe of the same bone and element as `skf` on frame `f`.
fn remove_clash(kfs: &mut Vec<Keyframe>, skf: &Keyframe, f: i32)
    ensures
        views(final(kfs)@) == without_clash(views(old(kfs)@), skf@, f),
{
    let ghost s = views(kfs@);
    assert(s == views(old(kfs)@));
    let mut i: usize = 0;
    while i < kfs.len()
        invariant
            i <= kfs@.len(),
            views(kfs@) == s,
            s == views(old(kfs)@),
            forall|j: int|
                0 <= j < i ==> !(s[j].bone_id == skf@.bone_id && s[j].element == skf@.element && s[j].frame
                    == f),
        decreases kfs@.len() - i,
    {
        if kfs[i].bone_id == skf.bone_id && kfs[i].element == skf.element && kfs[i].frame == f {
            assert(is_first_clash(s, skf@, f, i as int));
            let ghost c = choose|k: int| is_first_clash(s, skf@, f, k);
            assert(c == i as int) by {
                if c < i as int {
                } else if c > i as int {
                }
            }
            kfs.remove(i);
            assert(views(kfs@) =~= s.remove(i as int));
            return;
        }
        i = i + 1;
    }
    assert(!exists|k: int| is_first_clash(s, skf@, f, k));
}

/// Moves the first keyframe equal to `skf` to frame `f`; tells whether there was one.
fn move_equal(kfs: &mut Vec<Keyframe>, skf: &Keyframe, f: i32) -> (found: bool)
    ensures
        found == exists|i: int| is_first_equal(views(old(kfs)@), skf@, i),
        views(final(kfs)@) == with_moved(views(old(kfs)@), skf@, f).0,
{
    let ghost s = views(kfs@);
    assert(s == views(old(kfs)@));
    let mut i: usize = 0;
    while i < kfs.len()
        invariant
            i <= kfs@.len(),
            views(kfs@) == s,
            s == views(old(kfs)@),
            forall|j: int| 0 <= j < i ==> s[j] != skf@,
        decreases kfs@.len() - i,
    {
        if same_keyframe(&kfs[i], skf) {
            assert(is_first_equal(s, skf@, i as int));
            let ghost c = choose|k: int| is_first_equal(s, skf@, k);
            assert(c == i as int) by {
                if c < i as int {
                } else if c > i as int {
                }
            }
            kfs[i].frame = f;
            assert(views(kfs@) =~= s.update(i as int, KeyframeView { frame: f, ..skf@ }));
            return true;
        }
        i = i + 1;
    }
    assert(!exists|k: int| is_first_equal(s, skf@, k));
    false
}

/// Drops the dragged keyframe on `frame`: each selected keyframe moves by the
/// same distance (never below frame 0), replacing a keyframe already there on
/// its line, and the animation is put back in frame order. Nothing moves when
/// the drop is idle. Either way the drag ends. Tells whether anything moved.
pub fn move_selected_keyframes(armature: &mut Armature, selections: &SelectionState, ui: &mut Ui, frame: i32) -> (moved: bool)
    requires
        !drop_is_idle(frame, old(ui).dragged_keyframe.frame) ==> {
            &&& selections.anim < old(armature)@.animations.len()
            &&& landings_fit(old(ui)@.selected_keyframes, frame, old(ui).dragged_keyframe.frame)
        },
    ensures
        moved == !drop_is_idle(frame, old(ui).dragged_keyframe.frame),
        !moved ==> final(armature)@ == old(armature)@ && final(ui)@ == (UiView {
            dragged_keyframe: KeyframeView { frame: -1i32, ..old(ui)@.dragged_keyframe },
            ..old(ui)@
        }),
        moved ==> ({
            let r = moved_all(
                old(armature)@.animations[selections.anim as int].keyframes,
                old(ui)@.selected_keyframes,
                frame,
                old(ui).dragged_keyframe.frame,
            );
            &&& final(armature)@ == crate::events::with_keyframes(
                old(armature)@,
                selections.anim as int,
                sorted_by_frame(r.0),
            )
            &&& final(ui)@ == (UiView {
                selected_keyframes: r.1,
                dragged_keyframe: KeyframeView { frame: -1i32, ..old(ui)@.dragged_keyframe },
                ..old(ui)@
            })
        }),
{
    let dragged = ui.dragged_keyframe.frame;
    if frame == dragged || dragged == -1 || frame == -1 {
        ui.dragged_keyframe.frame = -1;
        return false;
    }
    let ghost arm0 = armature@;
    let ghost sel0 = ui@.selected_keyframes;
    let a = selections.anim;
    let mut kfs: Vec<Keyframe> = Vec::new();
    std::mem::swap(&mut kfs, &mut armature.animations[a].keyframes);
    let ghost k0 = views(kfs@);
    assert(k0 == arm0.animations[a as int].keyframes);
    let mut k: usize = 0;
    while k < ui.selected_keyframes.len()
        invariant
            k <= sel0.len(),
            ui.selected_keyframes@.len() == sel0.len(),
            dragged == ui.dragged_keyframe.frame,
            !drop_is_idle(frame, dragged),
            landings_fit(sel0, frame, dragged),
            views(kfs@) == moved_all(k0, sel0.subrange(0, k as int), frame, dragged).0,
            views(ui.selected_keyframes@) == moved_all(k0, sel0.subrange(0, k as int), frame, dragged).1
                + sel0.subrange(k as int, sel0.len() as int),
            ui@ == (UiView { selected_keyframes: views(ui.selected_keyframes@), ..old(ui)@ }),
        decreases sel0.len() - k,
    {
        let ghost prev = moved_all(k0, sel0.subrange(0, k as int), frame, dragged);
        let ghost skf = sel0[k as int];
        assert(prev.1.len() == k) by {
            lemma_moved_all_len(k0, sel0.subrange(0, k as int), frame, dragged);
        }
        assert(ui.selected_keyframes@[k as int]@ == skf) by {
            assert(views(ui.selected_keyframes@)[k as int] == sel0.subrange(k as int, sel0.len() as int)[0]);
        }
        assert(i32::MIN <= sel0[k as int].frame - dragged <= i32::MAX);
        let diff = ui.selected_keyframes[k].frame - dragged;
        let target = frame + diff;
        let f = if target < 0 {
            0
        } else {
            target
        };
        assert(f == landing(skf, frame, dragged));
        remove_clash(&mut kfs, &ui.selected_keyframes[k], f);
        let found = move_equal(&mut kfs, &ui.selected_keyframes[k], f);
        assert(views(kfs@) == moved_one(prev.0, skf, frame, dragged).0);
        let ghost before_sel = views(ui.selected_keyframes@);
        if found {
            ui.selected_keyframes[k].frame = f;
            assert(views(ui.selected_keyframes@) =~= before_sel.update(k as int, KeyframeView { frame: f, ..skf }));
        }
        proof {
            let pre = sel0.subrange(0, k + 1);
            assert(pre.drop_last() =~= sel0.subrange(0, k as int));
            assert(pre.last() == skf);
            assert(views(ui.selected_keyframes@) =~= moved_all(k0, pre, frame, dragged).1 + sel0.subrange(
                k + 1,
                sel0.len() as int,
            ));
        }
        k = k + 1;
    }
    assert(sel0.subrange(0, sel0.len() as int) =~= sel0);
    assert(sel0.subrange(sel0.len() as int, sel0.len() as int) =~= Seq::<KeyframeView>::empty());
    assert(views(ui.selected_keyframes@) =~= moved_all(k0, sel0, frame, dragged).1);
    sort_keyframes(&mut kfs);
    armature.animations[a].keyframes = kfs;
    assert(views(armature.animations@) =~= crate::events::with_keyframes(
        arm0,
        a as int,
        sorted_by_frame(moved_all(k0, sel0, frame, dragged).0),
    ).animations);
    ui.dragged_keyframe.frame = -1;
    true
}

proof fn lemma_moved_all_len(s: Seq<KeyframeView>, sel: Seq<KeyframeView>, frame: i32, dragged: i32)
    ensures
        moved_all(s, sel, frame, dragged).1.len() == sel.len(),
    decreases sel.len(),
{
    if sel.len() > 0 {
        lemma_moved_all_len(s, sel.drop_last(), frame, dragged);
    }
}

/// `sel` with each keyframe of `kfs` whose frame is in `lo..=hi` added, in
/// order, unless an equal keyframe is already there.
pub open spec fn with_frames_selected(sel: Seq<KeyframeView>, kfs: Seq<KeyframeView>, lo: i32, hi: i32) -> Seq<
    KeyframeView,
>
    decreases kfs.len(),
{
    if kfs.len() == 0 {
        sel
    } else {
        let r = with_frames_selected(sel, kfs.drop_last(), lo, hi);
        let kf = kfs.last();
        if lo <= kf.frame <= hi && !r.contains(kf) {
            r.push(kf)
        } else {
            r
        }
    }
}

/// The selected keyframes after a click on frame `frame` of the timeline.
pub open spec fn clicked_selection(
    ui: UiView,
    kfs: Seq<KeyframeView>,
    input: InputStates,
    frame: i32,
    keep_selection: bool,
) -> Seq<KeyframeView> {
    let start = if !input.holding_mod && !input.holding_shift && !keep_selection {
        Seq::empty()
    } else {
        ui.selected_keyframes
    };
    if !input.holding_shift {
        with_frames_selected(start, kfs, frame, frame)
    } else {
        let a = ui.last_selected_frame;
        with_frames_selected(start, kfs, if a < frame { a } else { frame }, if a < frame { frame } else { a })
    }
}

/// Whether `kf` is one of the selected keyframes.
fn is_selected(ui: &Ui, kf: &Keyframe) -> (r: bool)
    ensures
        r == ui@.selected_keyframes.contains(kf@),
{
    let ghost s = ui@.selected_keyframes;
    let mut i: usize = 0;
    while i < ui.selected_keyframes.len()
        invariant
            i <= s.len(),
            s == views(ui.selected_keyframes@),
            forall|j: int| 0 <= j < i ==> s[j] != kf@,
        decreases s.len() - i,
    {
        if same_keyframe(&ui.selected_keyframes[i], kf) {
            assert(s[i as int] == kf@);
            return true;
        }
        i = i + 1;
    }
    false
}

/// Selects frame `frame` of the selected animation. With `select_keyframes`,
/// the keyframes on that frame join the selected ones (with shift held, those
/// between the last selected frame and this one); the earlier selection is
/// dropped first unless a modifier is held or `keep_selection` is set. Other
/// selections, but for the bones, are cleared.
pub fn select_anim_frame(
    armature: &Armature,
    selections: &mut SelectionState,
    edit_mode: &mut EditMode,
    ui: &mut Ui,
    input: &InputStates,
    frame: i32,
    select_keyframes: bool,
    keep_selection: bool,
)
    requires
        select_keyframes ==> old(selections).anim < armature@.animations.len(),
    ensures
        final(selections)@ == (SelectionView {
            anim_frame: frame,
            bind: -1i32,
            style_id: -1i32,
            ..old(selections)@
        }),
        *final(edit_mode) == (EditMode {
            showing_mesh: false,
            setting_ik_target: false,
            setting_bind_bone: false,
            ..*old(edit_mode)
        }),
        final(ui)@ == (UiView {
            last_selected: seq!['k', 'e', 'y', 'f', 'r', 'a', 'm', 'e'],
            last_selected_frame: frame,
            selected_keyframes: if select_keyframes {
                clicked_selection(
                    old(ui)@,
                    armature@.animations[old(selections).anim as int].keyframes,
                    *input,
                    frame,
                    keep_selection,
                )
            } else {
                old(ui)@.selected_keyframes
            },
            ..old(ui)@
        }),
{
    let ghost ui0 = ui@;
    let selected_anim = selections.anim;
    let selected_bone_idx = selections.bone_idx;
    let mut selected_bone_ids: Vec<i32> = Vec::new();
    std::mem::swap(&mut selected_bone_ids, &mut selections.bone_ids);
    unselect_all(selections, edit_mode, ui);
    ui.last_selected = String::from_str("keyframe");
    proof {
        reveal_strlit("keyframe");
    }
    assert(ui@.last_selected =~= seq!['k', 'e', 'y', 'f', 'r', 'a', 'm', 'e']);
    selections.anim = selected_anim;
    selections.anim_frame = frame;
    if select_keyframes {
        if !input.holding_mod && !input.holding_shift && !keep_selection {
            ui.selected_keyframes = Vec::new();
        }
        let ghost start = views(ui.selected_keyframes@);
        let ghost ui1 = ui@;
        assert(start =~= (if !input.holding_mod && !input.holding_shift && !keep_selection {
            Seq::empty()
        } else {
            ui0.selected_keyframes
        }));
        let (lo, hi) = if !input.holding_shift {
            (frame, frame)
        } else if ui.last_selected_frame < frame {
            (ui.last_selected_frame, frame)
        } else {
            (frame, ui.last_selected_frame)
        };
        let kfs = &armature.animations[selected_anim].keyframes;
        let ghost kv = views(kfs@);
        let mut i: usize = 0;
        while i < kfs.len()
            invariant
                i <= kv.len(),
                kv == views(kfs@),
                views(ui.selected_keyframes@) == with_frames_selected(start, kv.subrange(0, i as int), lo, hi),
                ui@ == (UiView { selected_keyframes: views(ui.selected_keyframes@), ..ui1 }),
            decreases kv.len() - i,
        {
            let ghost before = views(ui.selected_keyframes@);
            if lo <= kfs[i].frame && kfs[i].frame <= hi && !is_selected(ui, &kfs[i]) {
                ui.selected_keyframes.push(kfs[i].duplicate());
                assert(views(ui.selected_keyframes@) =~= before.push(kv[i as int]));
            }
            assert(kv.subrange(0, i + 1).drop_last() =~= kv.subrange(0, i as int));
            i = i + 1;
        }
        assert(kv.subrange(0, kv.len() as int) =~= kv);
        assert(views(ui.selected_keyframes@) == clicked_selection(ui0, kv, *input, frame, keep_selection));
    }
    selections.bone_idx = selected_bone_idx;
    selections.bone_ids = selected_bone_ids;
    ui.last_selected_frame = frame;
}

proof fn lemma_frames_selected_unique(sel: Seq<KeyframeView>, kfs: Seq<KeyframeView>, lo: i32, hi: i32)
    requires
        sel.no_duplicates(),
    ensures
        with_frames_selected(sel, kfs, lo, hi).no_duplicates(),
    decreases kfs.len(),
{
    if kfs.len() > 0 {
        let r = with_frames_selected(sel, kfs.drop_last(), lo, hi);
        lemma_frames_selected_unique(sel, kfs.drop_last(), lo, hi);
        let kf = kfs.last();
        if lo <= kf.frame <= hi && !r.contains(kf) {
            let r2 = r.push(kf);
            assert forall|i: int, j: int| 0 <= i < r2.len() && 0 <= j < r2.len() && i != j implies r2[i] != r2[j] by {
                if i < r.len() && j < r.len() {
                } else if i < r.len() {
                    assert(r.contains(r[i]));
                } else {
                    assert(r.contains(r[j]));
                }
            }
        }
    }
}

/// Clicking a frame never selects a keyframe twice: a selection without
/// repeats stays without repeats.
pub proof fn lemma_click_selects_once(
    ui: UiView,
    kfs: Seq<KeyframeView>,
    input: InputStates,
    frame: i32,
    keep_selection: bool,
)
    requires
        ui.selected_keyframes.no_duplicates(),
    ensures
        clicked_selection(ui, kfs, input, frame, keep_selection).no_duplicates(),
{
    let start = if !input.holding_mod && !input.holding_shift && !keep_selection {
        Seq::<KeyframeView>::empty()
    } else {
        ui.selected_keyframes
    };
    let a = ui.last_selected_frame;
    lemma_frames_selected_unique(start, kfs, frame, frame);
    lemma_frames_selected_unique(start, kfs, if a < frame { a } else { frame }, if a < frame { frame } else { a });
}

proof fn lemma_without_clashes(s: Seq<KeyframeView>, buf: Seq<KeyframeView>)
    ensures
        forall|j: int|
            0 <= j < without_clashes(s, buf).len() ==> !clashes(buf, #[trigger] without_clashes(s, buf)[j]),
    decreases s.len(),
{
    if s.len() > 0 {
        let r = without_clashes(s.drop_last(), buf);
        lemma_without_clashes(s.drop_last(), buf);
        assert forall|j: int| 0 <= j < without_clashes(s, buf).len() implies !clashes(
            buf,
            #[trigger] without_clashes(s, buf)[j],
        ) by {
            if j < r.len() {
                assert(without_clashes(s, buf)[j] == r[j]);
            }
        }
    }
}

/// After a paste the animation is in frame order, holds every pasted
/// keyframe, and any keyframe on the frame and element of a pasted one is
/// itself a pasted one.
pub proof fn lemma_paste_replaces_clashes(kfs: Seq<KeyframeView>, pasted: Seq<KeyframeView>)
    ensures
        ({
            let r = sorted_by_frame(without_clashes(kfs, pasted) + pasted);
            &&& frames_ascending(r)
            &&& forall|k: int| 0 <= k < pasted.len() ==> r.contains(#[trigger] pasted[k])
            &&& forall|j: int| 0 <= j < r.len() && clashes(pasted, #[trigger] r[j]) ==> pasted.contains(r[j])
        }),
{
    broadcast use vstd::seq_lib::group_to_multiset_ensures;

    let w = without_clashes(kfs, pasted);
    let all = w + pasted;
    let r = sorted_by_frame(all);
    lemma_sorted_by_frame(all);
    lemma_without_clashes(kfs, pasted);
    assert forall|k: int| 0 <= k < pasted.len() implies r.contains(#[trigger] pasted[k]) by {
        assert(all[w.len() + k] == pasted[k]);
        assert(all.contains(pasted[k]));
        assert(all.to_multiset().count(pasted[k]) > 0);
    }
    assert forall|j: int| 0 <= j < r.len() && clashes(pasted, #[trigger] r[j]) implies pasted.contains(r[j]) by {
        assert(r.contains(r[j]));
        assert(r.to_multiset().count(r[j]) > 0);
        assert(all.contains(r[j]));
        let i = choose|i: int| 0 <= i < all.len() && all[i] == r[j];
        if i < w.len() {
            assert(all[i] == w[i]);
        } else {
            assert(all[i] == pasted[i - w.len()]);
        }
    }
}

/// How many runs of equal neighbours `s` has: its length once consecutive
/// repeats are merged.
pub open spec fn run_count(s: Seq<i32>) -> nat
    decreases s.len(),
{
    if s.len() == 0 {
        0
    } else if s.len() >= 2 && s[s.len() - 2] == s.last() {
        run_count(s.drop_last())
    } else {
        run_count(s.drop_last()) + 1
    }
}

/// The frames of a list of keyframes, in order.
pub open spec fn frames_of(kfs: Seq<KeyframeView>) -> Seq<i32> {
    kfs.map_values(|kf: KeyframeView| kf.frame)
}

fn count_runs(s: &Vec<i32>) -> (n: usize)
    ensures
        n == run_count(s@),
{
    let mut n: usize = 0;
    let mut i: usize = 0;
    while i < s.len()
        invariant
            i <= s@.len(),
            n == run_count(s@.subrange(0, i as int)),
            n <= i,
        decreases s@.len() - i,
    {
        let ghost pre = s@.subrange(0, i + 1);
        assert(pre.drop_last() =~= s@.subrange(0, i as int));
        if !(i >= 1 && s[i - 1] == s[i]) {
            n = n + 1;
        }
        i = i + 1;
    }
    assert(s@.subrange(0, s@.len() as int) =~= s@);
    n
}

/// Changes the frame rate of the selected animation to `fps`, its keyframes
/// moving to `new_frames` (one frame per keyframe, in order), unless that
/// merges keyframes that were on different frames; then nothing changes and
/// a modal opens with `headline` (`forced` as given).
pub fn change_fps(
    armature: &mut Armature,
    selections: &SelectionState,
    ui: &mut Ui,
    new_frames: &Vec<i32>,
    fps: i32,
    forced: bool,
    headline: String,
) -> (changed: bool)
    requires
        selections.anim < old(armature)@.animations.len(),
        new_frames@.len() == old(armature)@.animations[selections.anim as int].keyframes.len(),
    ensures
        ({
            let a = selections.anim as int;
            let anim = old(armature)@.animations[a];
            &&& changed == (run_count(new_frames@) == run_count(frames_of(anim.keyframes)))
            &&& changed ==> final(armature)@ == (ArmatureView {
                animations: old(armature)@.animations.update(
                    a,
                    AnimationView {
                        fps: fps,
                        keyframes: Seq::new(
                            anim.keyframes.len(),
                            |k: int| KeyframeView { frame: new_frames@[k], ..anim.keyframes[k] },
                        ),
                        ..anim
                    },
                ),
                ..old(armature)@
            }) && final(ui)@ == old(ui)@
            &&& !changed ==> final(armature)@ == old(armature)@ && final(ui)@ == (UiView {
                modal: true,
                forced_modal: forced,
                headline: crate::text::replaced(headline@, seq!['$', 'e', 'r', 'r'], old(ui)@.custom_error),
                ..old(ui)@
            })
        }),
{
    let ghost arm0 = armature@;
    let a = selections.anim;
    let mut old_frames: Vec<i32> = Vec::new();
    let mut k: usize = 0;
    while k < armature.animations[a].keyframes.len()
        invariant
            a < armature.animations@.len(),
            armature@ == arm0,
            k <= arm0.animations[a as int].keyframes.len(),
            old_frames@ == frames_of(arm0.animations[a as int].keyframes).subrange(0, k as int),
        decreases arm0.animations[a as int].keyframes.len() - k,
    {
        old_frames.push(armature.animations[a].keyframes[k].frame);
        assert(old_frames@ =~= frames_of(arm0.animations[a as int].keyframes).subrange(0, k + 1));
        k = k + 1;
    }
    assert(old_frames@ =~= frames_of(arm0.animations[a as int].keyframes));
    if count_runs(new_frames) != count_runs(&old_frames) {
        crate::state::open_modal(ui, forced, headline);
        return false;
    }
    let ghost kv = arm0.animations[a as int].keyframes;
    let mut kfs: Vec<Keyframe> = Vec::new();
    std::mem::swap(&mut kfs, &mut armature.animations[a].keyframes);
    assert(views(kfs@) == kv);
    let mut j: usize = 0;
    while j < kfs.len()
        invariant
            j <= kv.len(),
            kfs@.len() == kv.len(),
            new_frames@.len() == kv.len(),
            forall|m: int| 0 <= m < j ==> #[trigger] kfs@[m]@ == (KeyframeView { frame: new_frames@[m], ..kv[m] }),
            forall|m: int| j <= m < kv.len() ==> #[trigger] kfs@[m]@ == kv[m],
        decreases kv.len() - j,
    {
        let ghost raw = kfs@;
        assert(raw[j as int]@ == kv[j as int]);
        kfs[j].frame = new_frames[j];
        assert(forall|m: int| 0 <= m < raw.len() && m != j ==> kfs@[m] == raw[m]);
        assert(kfs@[j as int]@ == (KeyframeView { frame: new_frames@[j as int], ..kv[j as int] }));
        j = j + 1;
    }
    armature.animations[a].keyframes = kfs;
    armature.animations[a].fps = fps;
    let ghost target = Seq::new(kv.len(), |m: int| KeyframeView { frame: new_frames@[m], ..kv[m] });
    assert(views(armature.animations@[a as int].keyframes@) =~= target);
    assert(views(armature.animations@) =~= arm0.animations.update(
        a as int,
        AnimationView { fps: fps, keyframes: target, ..arm0.animations[a as int] },
    ));
    true
}

/// Selecting the keyframes of `kfs` in `lo..=hi` keeps `sel` as it was at the
/// front, adds each keyframe in range, and adds nothing else.
proof fn lemma_frames_selected_shape(sel: Seq<KeyframeView>, kfs: Seq<KeyframeView>, lo: i32, hi: i32)
    ensures
        with_frames_selected(sel, kfs, lo, hi).len() >= sel.len(),
        with_frames_selected(sel, kfs, lo, hi).subrange(0, sel.len() as int) == sel,
        forall|i: int|
            0 <= i < kfs.len() && lo <= #[trigger] kfs[i].frame <= hi ==> with_frames_selected(sel, kfs, lo, hi).contains(kfs[i]),
        forall|x: KeyframeView|
            #[trigger] with_frames_selected(sel, kfs, lo, hi).contains(x) ==> sel.contains(x) || (kfs.contains(x) && lo
                <= x.frame <= hi),
    decreases kfs.len(),
{
    let r = with_frames_selected(sel, kfs, lo, hi);
    if kfs.len() == 0 {
        assert(sel.subrange(0, sel.len() as int) =~= sel);
    } else {
        let init = kfs.drop_last();
        let p = with_frames_selected(sel, init, lo, hi);
        lemma_frames_selected_shape(sel, init, lo, hi);
        let kf = kfs.last();
        assert forall|x: KeyframeView| p.contains(x) implies r.contains(x) by {
            let w = choose|w: int| 0 <= w < p.len() && p[w] == x;
            assert(r[w] == x);
        }
        if lo <= kf.frame <= hi && !p.contains(kf) {
            assert(r.subrange(0, sel.len() as int) =~= p.subrange(0, sel.len() as int));
            assert(r[p.len() as int] == kf);
        }
        assert forall|i: int|
            0 <= i < kfs.len() && lo <= #[trigger] kfs[i].frame <= hi implies r.contains(kfs[i]) by {
            if i < init.len() {
                assert(init[i] == kfs[i]);
                assert(p.contains(init[i]));
            }
        }
        assert forall|x: KeyframeView| #[trigger] r.contains(x) implies sel.contains(x) || (kfs.contains(x) && lo
            <= x.frame <= hi) by {
            if p.contains(x) {
                if init.contains(x) {
                    let w = choose|w: int| 0 <= w < init.len() && init[w] == x;
                    assert(kfs[w] == x);
                }
            } else {
                assert(x == kf);
                assert(kfs[kfs.len() - 1] == x);
            }
        }
    }
}

/// A click on frame `frame` of the timeline selects every keyframe there
/// (with shift, every keyframe between the frame clicked last and this one).
/// With the modifier key or shift held, or the selection kept, the keyframes
/// selected before stay selected, at the front; otherwise the selection holds
/// only keyframes of the clicked frame.
pub proof fn lemma_click_keeps_or_replaces(
    ui: UiView,
    kfs: Seq<KeyframeView>,
    input: InputStates,
    frame: i32,
    keep_selection: bool,
)
    ensures
        ({
            let r = clicked_selection(ui, kfs, input, frame, keep_selection);
            let a = ui.last_selected_frame;
            let lo = if input.holding_shift && a < frame { a } else { frame };
            let hi = if input.holding_shift && a > frame { a } else { frame };
            &&& forall|i: int| 0 <= i < kfs.len() && lo <= #[trigger] kfs[i].frame <= hi ==> r.contains(kfs[i])
            &&& (input.holding_mod || input.holding_shift || keep_selection) ==> {
                &&& r.len() >= ui.selected_keyframes.len()
                &&& r.subrange(0, ui.selected_keyframes.len() as int) == ui.selected_keyframes
            }
            &&& !input.holding_mod && !input.holding_shift && !keep_selection ==> forall|x: KeyframeView|
                #[trigger] r.contains(x) ==> kfs.contains(x) && x.frame == frame
        }),
{
    let start = if !input.holding_mod && !input.holding_shift && !keep_selection {
        Seq::<KeyframeView>::empty()
    } else {
        ui.selected_keyframes
    };
    let a = ui.last_selected_frame;
    let lo = if input.holding_shift && a < frame { a } else { frame };
    let hi = if input.holding_shift && a > frame { a } else { frame };
    lemma_frames_selected_shape(start, kfs, lo, hi);
    assert(clicked_selection(ui, kfs, input, frame, keep_selection) == with_frames_selected(start, kfs, lo, hi));
}

/// Pasted keyframes keep their spacing, and the earliest of the copied ones
/// lands on `frame`: none lands before it, and each differs from its copy in
/// its frame alone.
pub proof fn lemma_paste_lands_on_frame(buf: Seq<KeyframeView>, frame: i32)
    requires
        buf.len() > 0,
        paste_fits(buf, frame),
    ensures
        ({
            let s = sorted_by_frame(buf);
            let p = shifted_to(s, frame);
            &&& p.len() == buf.len()
            &&& p[0].frame == frame
            &&& forall|k: int| 0 <= k < p.len() ==> #[trigger] p[k].frame >= frame
            &&& forall|j: int, k: int|
                0 <= j < p.len() && 0 <= k < p.len() ==> #[trigger] p[k].frame - #[trigger] p[j].frame == s[k].frame - s[j].frame
            &&& forall|k: int| 0 <= k < p.len() ==> (KeyframeView { frame: s[k].frame, ..#[trigger] p[k] }) == s[k]
        }),
{
    broadcast use vstd::seq_lib::group_to_multiset_ensures;

    let s = sorted_by_frame(buf);
    lemma_sorted_by_frame(buf);
    assert(s.len() == s.to_multiset().len());
    assert(buf.len() == buf.to_multiset().len());
    let p = shifted_to(s, frame);
    assert forall|k: int| 0 <= k < p.len() implies #[trigger] p[k].frame == frame + (s[k].frame - s[0].frame) by {
        assert(i32::MIN <= s[k].frame - s[0].frame <= i32::MAX);
    }
    assert(p[0].frame == frame);
}

} // verus!
