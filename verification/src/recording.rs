//! Editing one element of a bone: outside an animation the bone changes, and
//! in one the edit is recorded as keyframes (the keyframe that holds the new
//! value, and the keyframe at frame 0 that keeps the value from before).
use vstd::prelude::*;
use crate::model::{
    bone_index, find_bone, views, AnimElement, Animation, AnimationView, Armature, ArmatureView, Bone,
    BoneView, Duplicate, Keyframe, KeyframeView, Vec2,
};

verus! {

/// `kf` is the keyframe of `bone_id`'s `element` at `frame`.
pub open spec fn is_slot(kf: KeyframeView, bone_id: i32, frame: i32, element: AnimElement) -> bool {
    kf.frame == frame && kf.bone_id == bone_id && kf.element == element
}

/// Some keyframe of `kfs` is the one of `bone_id`'s `element` at `frame`.
pub open spec fn has_slot(kfs: Seq<KeyframeView>, bone_id: i32, frame: i32, element: AnimElement) -> bool {
    exists|i: int| 0 <= i < kfs.len() && #[trigger] is_slot(kfs[i], bone_id, frame, element)
}

/// `i` is the first keyframe of `kfs` for `bone_id`'s `element` at `frame`.
pub open spec fn is_first_slot(kfs: Seq<KeyframeView>, i: int, bone_id: i32, frame: i32, element: AnimElement) -> bool {
    &&& 0 <= i < kfs.len()
    &&& is_slot(kfs[i], bone_id, frame, element)
    &&& forall|j: int| 0 <= j < i ==> !#[trigger] is_slot(kfs[j], bone_id, frame, element)
}

/// A keyframe as it is made for a slot that had none: value 0, no text,
/// both handles at the origin, handle preset 0.
pub open spec fn blank_keyframe(bone_id: i32, frame: i32, element: AnimElement) -> KeyframeView {
    KeyframeView {
        frame,
        bone_id,
        element,
        value: 0,
        value_str: Seq::empty(),
        start_handle: Vec2 { x: 0, y: 0 },
        end_handle: Vec2 { x: 0, y: 0 },
        handle_preset: 0,
    }
}

/// Where the keyframe of `bone_id`'s `element` at `frame` is: the first one
/// for it, or the end of `kfs` when there is none.
pub open spec fn slot_of(kfs: Seq<KeyframeView>, bone_id: i32, frame: i32, element: AnimElement) -> int {
    if has_slot(kfs, bone_id, frame, element) {
        choose|i: int| is_first_slot(kfs, i, bone_id, frame, element)
    } else {
        kfs.len() as int
    }
}

/// `kfs` with a blank keyframe for `bone_id`'s `element` at `frame` added at
/// the end, when it had none.
pub open spec fn with_slot(kfs: Seq<KeyframeView>, bone_id: i32, frame: i32, element: AnimElement) -> Seq<KeyframeView> {
    if has_slot(kfs, bone_id, frame, element) {
        kfs
    } else {
        kfs.push(blank_keyframe(bone_id, frame, element))
    }
}

/// The keyframes after an edit of `bone_id`'s `element` from `init` to
/// `value` is recorded at `frame`: when `frame` is not 0 and the element has no
/// keyframe at frame 0, one is added there holding `init`; then the keyframe
/// at `frame` (made if missing) takes `value`.
pub open spec fn recorded(
    kfs: Seq<KeyframeView>,
    bone_id: i32,
    element: AnimElement,
    frame: i32,
    init: u32,
    init_str: Seq<char>,
    value: u32,
    value_str: Seq<char>,
) -> Seq<KeyframeView> {
    let base = if frame != 0 && !has_slot(kfs, bone_id, 0, element) {
        kfs.push(KeyframeView { value: init, value_str: init_str, ..blank_keyframe(bone_id, 0, element) })
    } else {
        kfs
    };
    let k = with_slot(base, bone_id, frame, element);
    let i = slot_of(base, bone_id, frame, element);
    k.update(i, KeyframeView { value, value_str, ..k[i] })
}

proof fn lemma_first_slot_unique(kfs: Seq<KeyframeView>, i: int, j: int, bone_id: i32, frame: i32, element: AnimElement)
    requires
        is_first_slot(kfs, i, bone_id, frame, element),
        is_first_slot(kfs, j, bone_id, frame, element),
    ensures
        i == j,
{
    if i < j {
        assert(!is_slot(kfs[i], bone_id, frame, element));
    } else if j < i {
        assert(!is_slot(kfs[j], bone_id, frame, element));
    }
}

/// The first keyframe of `bone_id`'s `element` at `frame`, if there is one.
fn find_slot(kfs: &Vec<Keyframe>, bone_id: i32, frame: i32, element: AnimElement) -> (r: Option<usize>)
    ensures
        match r {
            Some(i) => is_first_slot(views(kfs@), i as int, bone_id, frame, element),
            None => !has_slot(views(kfs@), bone_id, frame, element),
        },
{
    let ghost s = views(kfs@);
    let mut i: usize = 0;
    while i < kfs.len()
        invariant
            i <= kfs.len(),
            s == views(kfs@),
            forall|j: int| 0 <= j < i ==> !#[trigger] is_slot(s[j], bone_id, frame, element),
        decreases kfs.len() - i,
    {
        assert(s[i as int] == kfs@[i as int]@);
        if kfs[i].frame == frame && kfs[i].bone_id == bone_id && kfs[i].element == element {
            return Some(i);
        }
        i = i + 1;
    }
    None
}

/// The index of the keyframe of `bone_id`'s `element` at `frame` in `anim`,
/// adding a blank one at the end when there is none.
pub fn keyframe_slot(anim: &mut Animation, bone_id: i32, frame: i32, element: AnimElement) -> (idx: usize)
    requires
        old(anim).keyframes.len() < usize::MAX,
    ensures
        views(final(anim).keyframes@) == with_slot(views(old(anim).keyframes@), bone_id, frame, element),
        idx == slot_of(views(old(anim).keyframes@), bone_id, frame, element),
        idx < final(anim).keyframes.len(),
        final(anim).id == old(anim).id,
        final(anim).name == old(anim).name,
        final(anim).fps == old(anim).fps,
        final(anim).playing == old(anim).playing,
{
    let ghost s = views(anim.keyframes@);
    match find_slot(&anim.keyframes, bone_id, frame, element) {
        Some(i) => {
            proof {
                let c = choose|k: int| is_first_slot(s, k, bone_id, frame, element);
                lemma_first_slot_unique(s, i as int, c, bone_id, frame, element);
            }
            i
        },
        None => {
            let n = anim.keyframes.len();
            anim.keyframes.push(
                Keyframe {
                    frame,
                    bone_id,
                    element,
                    value: 0,
                    value_str: String::new(),
                    start_handle: Vec2 { x: 0, y: 0 },
                    end_handle: Vec2 { x: 0, y: 0 },
                    handle_preset: 0,
                },
            );
            assert(views(anim.keyframes@) =~= s.push(blank_keyframe(bone_id, frame, element)));
            n
        },
    }
}

/// Records an edit of `bone_id`'s `element` from `init_value` to `value` into
/// `anim` at `frame` (frame -1: not recording, nothing changes). When the
/// element has no keyframe at frame 0 and `frame` is another frame, a keyframe
/// at frame 0 is added that keeps the value from before the edit.
pub fn record_keyframe(
    anim: &mut Animation,
    bone_id: i32,
    element: AnimElement,
    frame: i32,
    init_value: u32,
    init_str: String,
    value: u32,
    value_str: String,
)
    requires
        old(anim).keyframes.len() + 2 < usize::MAX,
    ensures
        views(final(anim).keyframes@) == (if frame == -1 {
            views(old(anim).keyframes@)
        } else {
            recorded(views(old(anim).keyframes@), bone_id, element, frame, init_value, init_str@, value, value_str@)
        }),
        final(anim).id == old(anim).id,
        final(anim).name == old(anim).name,
        final(anim).fps == old(anim).fps,
        final(anim).playing == old(anim).playing,
{
    if frame == -1 {
        return;
    }
    let ghost s = views(anim.keyframes@);
    if frame != 0 {
        if find_slot(&anim.keyframes, bone_id, 0, element).is_none() {
            anim.keyframes.push(
                Keyframe {
                    frame: 0,
                    bone_id,
                    element,
                    value: init_value,
                    value_str: init_str,
                    start_handle: Vec2 { x: 0, y: 0 },
                    end_handle: Vec2 { x: 0, y: 0 },
                    handle_preset: 0,
                },
            );
            assert(views(anim.keyframes@) =~= s.push(
                KeyframeView { value: init_value, value_str: init_str@, ..blank_keyframe(bone_id, 0, element) },
            ));
        }
    }
    let ghost base = views(anim.keyframes@);
    let i = keyframe_slot(anim, bone_id, frame, element);
    let ghost k = views(anim.keyframes@);
    let old_kf = &anim.keyframes[i];
    let kf = Keyframe {
        frame: old_kf.frame,
        bone_id: old_kf.bone_id,
        element: old_kf.element,
        value,
        value_str,
        start_handle: old_kf.start_handle,
        end_handle: old_kf.end_handle,
        handle_preset: old_kf.handle_preset,
    };
    anim.keyframes.set(i, kf);
    assert(views(anim.keyframes@) =~= k.update(i as int, KeyframeView { value, value_str: value_str@, ..k[i as int] }));
}


/// What kind of value an element holds on a bone.
#[derive(Clone, Copy, Debug, PartialEq, Eq, Structural)]
pub enum ElementKind {
    /// The bit pattern of an `f32`.
    Float,
    Integer,
    Byte,
    Flag,
    Text,
    /// The texture, which is set elsewhere.
    Texture,
}

pub open spec fn kind_of(element: AnimElement) -> ElementKind {
    match element {
        AnimElement::Zindex | AnimElement::IkFamilyId => ElementKind::Integer,
        AnimElement::GroupColorR | AnimElement::GroupColorG | AnimElement::GroupColorB | AnimElement::GroupColorA => ElementKind::Byte,
        AnimElement::Hidden | AnimElement::Locked | AnimElement::MimicTarget => ElementKind::Flag,
        AnimElement::IkConstraint | AnimElement::IkMode => ElementKind::Text,
        AnimElement::Texture => ElementKind::Texture,
        _ => ElementKind::Float,
    }
}

/// What kind of value `element` holds on a bone.
pub fn element_kind(element: AnimElement) -> (k: ElementKind)
    ensures
        k == kind_of(element),
{
    match element {
        AnimElement::Zindex | AnimElement::IkFamilyId => ElementKind::Integer,
        AnimElement::GroupColorR | AnimElement::GroupColorG | AnimElement::GroupColorB | AnimElement::GroupColorA => ElementKind::Byte,
        AnimElement::Hidden | AnimElement::Locked | AnimElement::MimicTarget => ElementKind::Flag,
        AnimElement::IkConstraint | AnimElement::IkMode => ElementKind::Text,
        AnimElement::Texture => ElementKind::Texture,
        _ => ElementKind::Float,
    }
}

/// The bit pattern held by a floating-point element of `b` (0 for the others).
pub open spec fn element_bits(b: BoneView, element: AnimElement) -> u32 {
    match element {
        AnimElement::PositionX => b.transform.pos.x,
        AnimElement::PositionY => b.transform.pos.y,
        AnimElement::Rotation => b.transform.rot,
        AnimElement::ScaleX => b.transform.scale.x,
        AnimElement::ScaleY => b.transform.scale.y,
        AnimElement::TintR => b.props.tint.r,
        AnimElement::TintG => b.props.tint.g,
        AnimElement::TintB => b.props.tint.b,
        AnimElement::TintA => b.props.tint.a,
        AnimElement::PivotX => b.props.pivot_pos.x,
        AnimElement::PivotY => b.props.pivot_pos.y,
        AnimElement::PivotRot => b.props.pivot_rot,
        AnimElement::PivotScaleX => b.props.pivot_scale.x,
        AnimElement::PivotScaleY => b.props.pivot_scale.y,
        _ => 0,
    }
}

/// The value held by an integer or byte element of `b` (0 for the others).
pub open spec fn element_int(b: BoneView, element: AnimElement) -> i32 {
    match element {
        AnimElement::Zindex => b.zindex,
        AnimElement::IkFamilyId => b.ik_family_id,
        AnimElement::GroupColorR => b.props.group_color.r as i32,
        AnimElement::GroupColorG => b.props.group_color.g as i32,
        AnimElement::GroupColorB => b.props.group_color.b as i32,
        AnimElement::GroupColorA => b.props.group_color.a as i32,
        _ => 0,
    }
}

/// The value held by an integer or byte element of `bone` (0 for the
/// others), from which the caller makes the `f32` that a keyframe records.
pub fn element_integer(bone: &Bone, element: AnimElement) -> (r: i32)
    ensures
        r == element_int(bone@, element),
{
    match element {
        AnimElement::Zindex => bone.zindex,
        AnimElement::IkFamilyId => bone.ik_family_id,
        AnimElement::GroupColorR => bone.props.group_color.r as i32,
        AnimElement::GroupColorG => bone.props.group_color.g as i32,
        AnimElement::GroupColorB => bone.props.group_color.b as i32,
        AnimElement::GroupColorA => bone.props.group_color.a as i32,
        _ => 0,
    }
}

/// The bit pattern of the `f32` 1, which a set flag counts as.
pub open spec fn one_bits() -> u32 {
    0x3f80_0000
}

/// What a keyframe records as `element`'s value before an edit of `b`: a
/// floating-point element's own bit pattern, `int_bits` (the caller's `f32`
/// of the integer value) for an integer or byte element, 1 or 0 for a flag,
/// and 0 for text and the texture.
pub open spec fn init_bits(b: BoneView, element: AnimElement, int_bits: u32) -> u32 {
    match kind_of(element) {
        ElementKind::Float => element_bits(b, element),
        ElementKind::Integer | ElementKind::Byte => int_bits,
        ElementKind::Flag => if element_flag(b, element) { one_bits() } else { 0 },
        _ => 0,
    }
}

/// The value held by a flag element of `b` (false for the others).
pub open spec fn element_flag(b: BoneView, element: AnimElement) -> bool {
    match element {
        AnimElement::Hidden => b.props.hidden,
        AnimElement::Locked => b.locked,
        AnimElement::MimicTarget => b.props.ik_mimic_target,
        _ => false,
    }
}

/// The text held by a text element of `b` (empty for the others).
pub open spec fn element_text(b: BoneView, element: AnimElement) -> Seq<char> {
    match element {
        AnimElement::IkConstraint => b.ik_constraint,
        AnimElement::IkMode => b.ik_mode,
        _ => Seq::empty(),
    }
}

/// `b` with `element` set: a floating-point element to `bits`, an integer
/// one to `number`, a colour channel to `byte`, a flag to `flag` and a text to
/// `text`; the texture is left alone.
pub open spec fn with_element(
    b: BoneView,
    element: AnimElement,
    bits: u32,
    number: i32,
    byte: u8,
    flag: bool,
    text: Seq<char>,
) -> BoneView {
    if kind_of(element) == ElementKind::Float {
        with_float(b, element, bits)
    } else {
        with_other(b, element, number, byte, flag, text)
    }
}

/// `b` with floating-point element `element` set to `bits`.
pub open spec fn with_float(b: BoneView, element: AnimElement, bits: u32) -> BoneView {
    match element {
        AnimElement::PositionX => BoneView { transform: crate::model::Transform { pos: Vec2 { x: bits, ..b.transform.pos }, ..b.transform }, ..b },
        AnimElement::PositionY => BoneView { transform: crate::model::Transform { pos: Vec2 { y: bits, ..b.transform.pos }, ..b.transform }, ..b },
        AnimElement::Rotation => BoneView { transform: crate::model::Transform { rot: bits, ..b.transform }, ..b },
        AnimElement::ScaleX => BoneView { transform: crate::model::Transform { scale: Vec2 { x: bits, ..b.transform.scale }, ..b.transform }, ..b },
        AnimElement::ScaleY => BoneView { transform: crate::model::Transform { scale: Vec2 { y: bits, ..b.transform.scale }, ..b.transform }, ..b },
        AnimElement::TintR => BoneView { props: crate::model::BoneProps { tint: crate::model::Tint { r: bits, ..b.props.tint }, ..b.props }, ..b },
        AnimElement::TintG => BoneView { props: crate::model::BoneProps { tint: crate::model::Tint { g: bits, ..b.props.tint }, ..b.props }, ..b },
        AnimElement::TintB => BoneView { props: crate::model::BoneProps { tint: crate::model::Tint { b: bits, ..b.props.tint }, ..b.props }, ..b },
        AnimElement::TintA => BoneView { props: crate::model::BoneProps { tint: crate::model::Tint { a: bits, ..b.props.tint }, ..b.props }, ..b },
        AnimElement::PivotX => BoneView { props: crate::model::BoneProps { pivot_pos: Vec2 { x: bits, ..b.props.pivot_pos }, ..b.props }, ..b },
        AnimElement::PivotY => BoneView { props: crate::model::BoneProps { pivot_pos: Vec2 { y: bits, ..b.props.pivot_pos }, ..b.props }, ..b },
        AnimElement::PivotRot => BoneView { props: crate::model::BoneProps { pivot_rot: bits, ..b.props }, ..b },
        AnimElement::PivotScaleX => BoneView { props: crate::model::BoneProps { pivot_scale: Vec2 { x: bits, ..b.props.pivot_scale }, ..b.props }, ..b },
        AnimElement::PivotScaleY => BoneView { props: crate::model::BoneProps { pivot_scale: Vec2 { y: bits, ..b.props.pivot_scale }, ..b.props }, ..b },
        _ => b,
    }
}

/// `b` with non-floating-point element `element` set.
pub open spec fn with_other(b: BoneView, element: AnimElement, number: i32, byte: u8, flag: bool, text: Seq<char>) -> BoneView {
    match element {
        AnimElement::Zindex => BoneView { zindex: number, ..b },
        AnimElement::IkFamilyId => BoneView { ik_family_id: number, ..b },
        AnimElement::GroupColorR => BoneView { props: crate::model::BoneProps { group_color: crate::model::Color { r: byte, ..b.props.group_color }, ..b.props }, ..b },
        AnimElement::GroupColorG => BoneView { props: crate::model::BoneProps { group_color: crate::model::Color { g: byte, ..b.props.group_color }, ..b.props }, ..b },
        AnimElement::GroupColorB => BoneView { props: crate::model::BoneProps { group_color: crate::model::Color { b: byte, ..b.props.group_color }, ..b.props }, ..b },
        AnimElement::GroupColorA => BoneView { props: crate::model::BoneProps { group_color: crate::model::Color { a: byte, ..b.props.group_color }, ..b.props }, ..b },
        AnimElement::Hidden => BoneView { props: crate::model::BoneProps { hidden: flag, ..b.props }, ..b },
        AnimElement::Locked => BoneView { locked: flag, ..b },
        AnimElement::MimicTarget => BoneView { props: crate::model::BoneProps { ik_mimic_target: flag, ..b.props }, ..b },
        AnimElement::IkConstraint => BoneView { ik_constraint: text, ..b },
        AnimElement::IkMode => BoneView { ik_mode: text, ..b },
        AnimElement::Texture => b,
        _ => b,
    }
}

fn set_element(b: &mut Bone, element: AnimElement, bits: u32, number: i32, byte: u8, flag: bool, text: String)
    ensures
        final(b)@ == with_element(old(b)@, element, bits, number, byte, flag, text@),
{
    if element_kind(element) == ElementKind::Float {
        set_float(b, element, bits);
    } else {
        set_other(b, element, number, byte, flag, text);
    }
}

fn set_float(b: &mut Bone, element: AnimElement, bits: u32)
    ensures
        final(b)@ == with_float(old(b)@, element, bits),
{
    match element {
        AnimElement::PositionX | AnimElement::PositionY | AnimElement::Rotation | AnimElement::ScaleX
        | AnimElement::ScaleY => set_transform(b, element, bits),
        _ => set_look(b, element, bits),
    }
}

fn set_transform(b: &mut Bone, element: AnimElement, bits: u32)
    requires
        element == AnimElement::PositionX || element == AnimElement::PositionY || element == AnimElement::Rotation
            || element == AnimElement::ScaleX || element == AnimElement::ScaleY,
    ensures
        final(b)@ == with_float(old(b)@, element, bits),
{
    match element {
        AnimElement::PositionX => {
            b.transform.pos.x = bits;
        },
        AnimElement::PositionY => {
            b.transform.pos.y = bits;
        },
        AnimElement::Rotation => {
            b.transform.rot = bits;
        },
        AnimElement::ScaleX => {
            b.transform.scale.x = bits;
        },
        AnimElement::ScaleY => {
            b.transform.scale.y = bits;
        },
        _ => {},
    }
}

#[verifier::rlimit(40)]
fn set_look(b: &mut Bone, element: AnimElement, bits: u32)
    requires
        !(element == AnimElement::PositionX || element == AnimElement::PositionY || element == AnimElement::Rotation
            || element == AnimElement::ScaleX || element == AnimElement::ScaleY),
    ensures
        final(b)@ == with_float(old(b)@, element, bits),
{
    match element {
        AnimElement::TintR => {
            b.props.tint.r = bits;
        },
        AnimElement::TintG => {
            b.props.tint.g = bits;
        },
        AnimElement::TintB => {
            b.props.tint.b = bits;
        },
        AnimElement::TintA => {
            b.props.tint.a = bits;
        },
        AnimElement::PivotX => {
            b.props.pivot_pos.x = bits;
        },
        AnimElement::PivotY => {
            b.props.pivot_pos.y = bits;
        },
        AnimElement::PivotRot => {
            b.props.pivot_rot = bits;
        },
        AnimElement::PivotScaleX => {
            b.props.pivot_scale.x = bits;
        },
        AnimElement::PivotScaleY => {
            b.props.pivot_scale.y = bits;
        },
        _ => {},
    }
}

#[verifier::rlimit(40)]
fn set_other(b: &mut Bone, element: AnimElement, number: i32, byte: u8, flag: bool, text: String)
    ensures
        final(b)@ == with_other(old(b)@, element, number, byte, flag, text@),
{
    match element {
        AnimElement::Zindex => {
            b.zindex = number;
        },
        AnimElement::IkFamilyId => {
            b.ik_family_id = number;
        },
        AnimElement::GroupColorR => {
            b.props.group_color.r = byte;
        },
        AnimElement::GroupColorG => {
            b.props.group_color.g = byte;
        },
        AnimElement::GroupColorB => {
            b.props.group_color.b = byte;
        },
        AnimElement::GroupColorA => {
            b.props.group_color.a = byte;
        },
        AnimElement::Hidden => {
            b.props.hidden = flag;
        },
        AnimElement::Locked => {
            b.locked = flag;
        },
        AnimElement::MimicTarget => {
            b.props.ik_mimic_target = flag;
        },
        AnimElement::IkConstraint => {
            b.ik_constraint = text;
        },
        AnimElement::IkMode => {
            b.ik_mode = text;
        },
        AnimElement::Texture => {},
        _ => {},
    }
}

/// Whether some animation is playing.
pub open spec fn any_playing(anims: Seq<AnimationView>) -> bool {
    exists|i: int| 0 <= i < anims.len() && #[trigger] anims[i].playing
}

fn is_any_playing(anims: &Vec<Animation>) -> (r: bool)
    ensures
        r == any_playing(views(anims@)),
{
    let ghost a = views(anims@);
    let mut i: usize = 0;
    while i < anims.len()
        invariant
            i <= anims.len(),
            a == views(anims@),
            forall|j: int| 0 <= j < i ==> !#[trigger] a[j].playing,
        decreases anims.len() - i,
    {
        assert(a[i as int] == anims@[i as int]@);
        if anims[i].playing {
            assert(a[i as int].playing);
            return true;
        }
        i = i + 1;
    }
    false
}

/// The armature after `element` of bone `bone_id` is edited to a value given
/// as `bits` (its `f32` bit pattern), `number`, `byte`, `flag` and `text`:
/// - nothing changes while an animation plays, unless `edit_while_playing`;
/// - an IK bone that does not end its chain (`is_ik_end` false) gets 0 for a
///   rotation;
/// - outside an animation (`anim_frame` -1, or a locked bone) the bone takes
///   the value;
/// - in one, the edit is recorded into animation `anim_id` at `anim_frame`,
///   with the value from before (see `init_bits`, `int_bits` standing for the
///   `f32` of an integer value) kept at frame 0.
pub open spec fn edited(
    arm: ArmatureView,
    edit_while_playing: bool,
    bone_id: i32,
    element: AnimElement,
    bits: u32,
    number: i32,
    byte: u8,
    flag: bool,
    is_ik_end: bool,
    text: Seq<char>,
    int_bits: u32,
    anim_id: usize,
    anim_frame: i32,
) -> ArmatureView {
    let k = bone_index(arm.bones, bone_id);
    let b = arm.bones[k];
    let frame = if b.locked { -1i32 } else { anim_frame };
    let v = if b.ik_family_id != -1 && !is_ik_end && element == AnimElement::Rotation { 0u32 } else { bits };
    if !edit_while_playing && any_playing(arm.animations) {
        arm
    } else if frame == -1 {
        ArmatureView { bones: arm.bones.update(k, with_element(b, element, v, number, byte, flag, text)), ..arm }
    } else {
        let anim = arm.animations[anim_id as int];
        ArmatureView {
            animations: arm.animations.update(
                anim_id as int,
                AnimationView {
                    keyframes: recorded(
                        anim.keyframes,
                        bone_id,
                        element,
                        frame,
                        init_bits(b, element, int_bits),
                        element_text(b, element),
                        v,
                        text,
                    ),
                    ..anim
                },
            ),
            ..arm
        }
    }
}

/// Whether an edit of bone `bone_id` can be carried out: the bone exists,
/// and an edit to be recorded has its animation, with room for two keyframes.
pub open spec fn can_edit_bone(arm: ArmatureView, edit_while_playing: bool, bone_id: i32, anim_id: usize, anim_frame: i32) -> bool {
    let k = bone_index(arm.bones, bone_id);
    &&& k >= 0
    &&& (!arm.bones[k].locked && anim_frame != -1 && (edit_while_playing || !any_playing(arm.animations))) ==> {
        &&& anim_id < arm.animations.len()
        &&& arm.animations[anim_id as int].keyframes.len() + 2 < usize::MAX
    }
}

/// Edits `element` of bone `bone_id` (see `edited`).
pub fn edit_bone(
    armature: &mut Armature,
    edit_while_playing: bool,
    bone_id: i32,
    element: AnimElement,
    bits: u32,
    number: i32,
    byte: u8,
    flag: bool,
    is_ik_end: bool,
    value_str: String,
    int_bits: u32,
    anim_id: usize,
    anim_frame: i32,
)
    requires
        can_edit_bone(old(armature)@, edit_while_playing, bone_id, anim_id, anim_frame),
    ensures
        final(armature)@ == edited(
            old(armature)@,
            edit_while_playing,
            bone_id,
            element,
            bits,
            number,
            byte,
            flag,
            is_ik_end,
            value_str@,
            int_bits,
            anim_id,
            anim_frame,
        ),
{
    let ghost arm0 = armature@;
    let k = find_bone(&armature.bones, bone_id).unwrap();
    let locked = armature.bones[k].locked;
    let frame = if locked { -1i32 } else { anim_frame };
    let v = if armature.bones[k].ik_family_id != -1 && !is_ik_end && element == AnimElement::Rotation {
        0u32
    } else {
        bits
    };
    if !edit_while_playing && is_any_playing(&armature.animations) {
        return;
    }
    if frame == -1 {
        let mut b = armature.bones[k].duplicate();
        set_element(&mut b, element, v, number, byte, flag, value_str);
        armature.bones.set(k, b);
        assert(views(armature.bones@) =~= arm0.bones.update(
            k as int,
            with_element(arm0.bones[k as int], element, v, number, byte, flag, value_str@),
        ));
        return;
    }
    let b = &armature.bones[k];
    let init = match element_kind(element) {
        ElementKind::Float => element_float_bits(b, element),
        ElementKind::Integer | ElementKind::Byte => int_bits,
        ElementKind::Flag => if element_flag_of(b, element) { 0x3f80_0000u32 } else { 0u32 },
        _ => 0u32,
    };
    let init_str = match element {
        AnimElement::IkConstraint => b.ik_constraint.clone(),
        AnimElement::IkMode => b.ik_mode.clone(),
        _ => String::new(),
    };
    let mut anim = armature.animations[anim_id].duplicate();
    record_keyframe(&mut anim, bone_id, element, frame, init, init_str, v, value_str);
    armature.animations.set(anim_id, anim);
    assert(views(armature.animations@) =~= arm0.animations.update(
        anim_id as int,
        AnimationView {
            keyframes: recorded(
                arm0.animations[anim_id as int].keyframes,
                bone_id,
                element,
                frame,
                init_bits(arm0.bones[k as int], element, int_bits),
                element_text(arm0.bones[k as int], element),
                v,
                value_str@,
            ),
            ..arm0.animations[anim_id as int]
        },
    ));
}

fn element_float_bits(b: &Bone, element: AnimElement) -> (r: u32)
    ensures
        r == element_bits(b@, element),
{
    match element {
        AnimElement::PositionX => b.transform.pos.x,
        AnimElement::PositionY => b.transform.pos.y,
        AnimElement::Rotation => b.transform.rot,
        AnimElement::ScaleX => b.transform.scale.x,
        AnimElement::ScaleY => b.transform.scale.y,
        AnimElement::TintR => b.props.tint.r,
        AnimElement::TintG => b.props.tint.g,
        AnimElement::TintB => b.props.tint.b,
        AnimElement::TintA => b.props.tint.a,
        AnimElement::PivotX => b.props.pivot_pos.x,
        AnimElement::PivotY => b.props.pivot_pos.y,
        AnimElement::PivotRot => b.props.pivot_rot,
        AnimElement::PivotScaleX => b.props.pivot_scale.x,
        AnimElement::PivotScaleY => b.props.pivot_scale.y,
        _ => 0,
    }
}

fn element_flag_of(b: &Bone, element: AnimElement) -> (r: bool)
    ensures
        r == element_flag(b@, element),
{
    match element {
        AnimElement::Hidden => b.props.hidden,
        AnimElement::Locked => b.locked,
        AnimElement::MimicTarget => b.props.ik_mimic_target,
        _ => false,
    }
}

/// The value an edit outside an animation gives: 0 for the rotation of a bone
/// in an IK family that is not the end of its chain, else `bits`.
pub open spec fn edit_value(b: BoneView, element: AnimElement, bits: u32, is_ik_end: bool) -> u32 {
    if b.ik_family_id != -1 && !is_ik_end && element == AnimElement::Rotation { 0 } else { bits }
}

/// `b1` is `b` with `element` changed alone: it holds the value given for its
/// kind (`bits` for a floating-point element, `number` for an integer one,
/// `byte` for a colour channel, `flag` for a flag, `text` for a text), and
/// every other element, the id, the parent, the name and the texture keep
/// their values.
#[verifier::opaque]
pub open spec fn changes_only(
    b: BoneView,
    b1: BoneView,
    element: AnimElement,
    bits: u32,
    number: i32,
    byte: u8,
    flag: bool,
    text: Seq<char>,
) -> bool {
    &&& kind_of(element) == ElementKind::Float ==> element_bits(b1, element) == bits
    &&& kind_of(element) == ElementKind::Integer ==> element_int(b1, element) == number
    &&& kind_of(element) == ElementKind::Byte ==> element_int(b1, element) == byte as i32
    &&& kind_of(element) == ElementKind::Flag ==> element_flag(b1, element) == flag
    &&& kind_of(element) == ElementKind::Text ==> element_text(b1, element) == text
    &&& forall|other: AnimElement| other != element ==> {
        &&& #[trigger] element_bits(b1, other) == element_bits(b, other)
        &&& element_int(b1, other) == element_int(b, other)
        &&& element_flag(b1, other) == element_flag(b, other)
        &&& element_text(b1, other) == element_text(b, other)
    }
    &&& b1.id == b.id
    &&& b1.parent_id == b.parent_id
    &&& b1.name == b.name
    &&& b1.tex == b.tex
}

/// Setting an element of a bone changes that element alone (see
/// `changes_only`).
#[verifier::spinoff_prover]
#[verifier::rlimit(100)]
pub proof fn lemma_set_element_only(b: BoneView, element: AnimElement, bits: u32, number: i32, byte: u8, flag: bool, text: Seq<char>)
    ensures
        changes_only(b, with_element(b, element, bits, number, byte, flag, text), element, bits, number, byte, flag, text),
{
    reveal(changes_only);
    match element {
        AnimElement::PositionX => {},
        AnimElement::PositionY => {},
        AnimElement::Rotation => {},
        AnimElement::ScaleX => {},
        AnimElement::ScaleY => {},
        AnimElement::Zindex => {},
        AnimElement::IkFamilyId => {},
        AnimElement::TintR => {},
        AnimElement::TintG => {},
        AnimElement::TintB => {},
        AnimElement::TintA => {},
        AnimElement::Texture => {},
        AnimElement::IkConstraint => {},
        AnimElement::Hidden => {},
        AnimElement::Locked => {},
        AnimElement::IkMode => {},
        AnimElement::GroupColorR => {},
        AnimElement::GroupColorG => {},
        AnimElement::GroupColorB => {},
        AnimElement::GroupColorA => {},
        AnimElement::MimicTarget => {},
        AnimElement::PivotX => {},
        AnimElement::PivotY => {},
        AnimElement::PivotRot => {},
        AnimElement::PivotScaleX => {},
        AnimElement::PivotScaleY => {},
    }
}

/// An edit outside an animation (no frame given, or a locked bone), when
/// editing is not held back by a playing animation, changes the edited
/// element of the edited bone alone, to the value given (see `edit_value`),
/// and leaves the other bones and the animations as they were.
#[verifier::spinoff_prover]
pub proof fn lemma_edit_outside_animation(
    arm: ArmatureView,
    edit_while_playing: bool,
    bone_id: i32,
    element: AnimElement,
    bits: u32,
    number: i32,
    byte: u8,
    flag: bool,
    is_ik_end: bool,
    text: Seq<char>,
    int_bits: u32,
    anim_id: usize,
    anim_frame: i32,
)
    requires
        bone_index(arm.bones, bone_id) >= 0,
        edit_while_playing || !any_playing(arm.animations),
        anim_frame == -1 || arm.bones[bone_index(arm.bones, bone_id)].locked,
    ensures
        ({
            let k = bone_index(arm.bones, bone_id);
            let b = arm.bones[k];
            let after = edited(arm, edit_while_playing, bone_id, element, bits, number, byte, flag, is_ik_end, text, int_bits, anim_id, anim_frame);
            &&& after.animations == arm.animations
            &&& after.styles == arm.styles
            &&& after.bones.len() == arm.bones.len()
            &&& forall|j: int| 0 <= j < arm.bones.len() && j != k ==> after.bones[j] == arm.bones[j]
            &&& changes_only(b, after.bones[k], element, edit_value(b, element, bits, is_ik_end), number, byte, flag, text)
        }),
{
    let k = bone_index(arm.bones, bone_id);
    let b = arm.bones[k];
    let b1 = with_element(b, element, edit_value(b, element, bits, is_ik_end), number, byte, flag, text);
    let after = edited(arm, edit_while_playing, bone_id, element, bits, number, byte, flag, is_ik_end, text, int_bits, anim_id, anim_frame);
    assert(after == ArmatureView { bones: arm.bones.update(k, b1), ..arm });
    lemma_set_element_only(b, element, edit_value(b, element, bits, is_ik_end), number, byte, flag, text);
}

/// When `kfs` has a keyframe for `bone_id`'s `element` at `frame`, it has a
/// first one.
proof fn lemma_first_slot_exists(kfs: Seq<KeyframeView>, bone_id: i32, frame: i32, element: AnimElement)
    requires
        has_slot(kfs, bone_id, frame, element),
    ensures
        exists|i: int| is_first_slot(kfs, i, bone_id, frame, element),
    decreases kfs.len(),
{
    let init = kfs.drop_last();
    if has_slot(init, bone_id, frame, element) {
        lemma_first_slot_exists(init, bone_id, frame, element);
        let i = choose|i: int| is_first_slot(init, i, bone_id, frame, element);
        assert forall|j: int| 0 <= j < i implies !#[trigger] is_slot(kfs[j], bone_id, frame, element) by {
            assert(kfs[j] == init[j]);
        }
        assert(is_first_slot(kfs, i, bone_id, frame, element));
    } else {
        let i = kfs.len() - 1;
        let w = choose|w: int| 0 <= w < kfs.len() && #[trigger] is_slot(kfs[w], bone_id, frame, element);
        if w < i {
            assert(is_slot(init[w], bone_id, frame, element));
        }
        assert forall|j: int| 0 <= j < i implies !#[trigger] is_slot(kfs[j], bone_id, frame, element) by {
            assert(kfs[j] == init[j]);
            if is_slot(kfs[j], bone_id, frame, element) {
                assert(is_slot(init[j], bone_id, frame, element));
            }
        }
        assert(is_first_slot(kfs, i, bone_id, frame, element));
    }
}

/// Where a slot is found or made: the first keyframe of the slot in
/// `with_slot`, which keeps `kfs` at the front.
proof fn lemma_slot_of(kfs: Seq<KeyframeView>, bone_id: i32, frame: i32, element: AnimElement)
    ensures
        is_first_slot(with_slot(kfs, bone_id, frame, element), slot_of(kfs, bone_id, frame, element), bone_id, frame, element),
        with_slot(kfs, bone_id, frame, element).len() <= kfs.len() + 1,
        forall|j: int| 0 <= j < kfs.len() ==> #[trigger] with_slot(kfs, bone_id, frame, element)[j] == kfs[j],
{
    if has_slot(kfs, bone_id, frame, element) {
        lemma_first_slot_exists(kfs, bone_id, frame, element);
    } else {
        let k = with_slot(kfs, bone_id, frame, element);
        assert forall|j: int| 0 <= j < kfs.len() implies !#[trigger] is_slot(k[j], bone_id, frame, element) by {
            assert(k[j] == kfs[j]);
            if is_slot(kfs[j], bone_id, frame, element) {
                assert(has_slot(kfs, bone_id, frame, element));
            }
        }
    }
}

/// Recording an edit of `bone_id`'s `element` at `frame` leaves the first
/// keyframe of that slot holding the new value; when `frame` is not 0 and the
/// element had no keyframe at frame 0, a keyframe there holds the value from
/// before; every keyframe of another slot stays where it was, and at most two
/// keyframes are added.
pub proof fn lemma_record_holds_value(
    kfs: Seq<KeyframeView>,
    bone_id: i32,
    element: AnimElement,
    frame: i32,
    init: u32,
    init_str: Seq<char>,
    value: u32,
    value_str: Seq<char>,
)
    ensures
        ({
            let r = recorded(kfs, bone_id, element, frame, init, init_str, value, value_str);
            &&& kfs.len() <= r.len() <= kfs.len() + 2
            &&& exists|i: int|
                #[trigger] is_first_slot(r, i, bone_id, frame, element) && r[i].value == value && r[i].value_str
                    == value_str
            &&& frame != 0 && !has_slot(kfs, bone_id, 0, element) ==> exists|i: int|
                0 <= i < r.len() && #[trigger] is_slot(r[i], bone_id, 0, element) && r[i].value == init
                    && r[i].value_str == init_str
            &&& forall|j: int|
                0 <= j < kfs.len() && !is_slot(kfs[j], bone_id, frame, element) ==> #[trigger] r[j] == kfs[j]
        }),
{
    let base = if frame != 0 && !has_slot(kfs, bone_id, 0, element) {
        kfs.push(KeyframeView { value: init, value_str: init_str, ..blank_keyframe(bone_id, 0, element) })
    } else {
        kfs
    };
    let k = with_slot(base, bone_id, frame, element);
    let i = slot_of(base, bone_id, frame, element);
    let r = recorded(kfs, bone_id, element, frame, init, init_str, value, value_str);
    lemma_slot_of(base, bone_id, frame, element);
    assert(r == k.update(i, KeyframeView { value, value_str, ..k[i] }));
    assert forall|j: int| 0 <= j < i implies !#[trigger] is_slot(r[j], bone_id, frame, element) by {
        assert(r[j] == k[j]);
    }
    assert(is_first_slot(r, i, bone_id, frame, element));
    if frame != 0 && !has_slot(kfs, bone_id, 0, element) {
        let n = kfs.len() as int;
        assert(k[n] == base[n]);
        assert(i != n);
        assert(r[n] == base[n]);
        assert(is_slot(r[n], bone_id, 0, element));
    }
    assert forall|j: int| 0 <= j < kfs.len() && !is_slot(kfs[j], bone_id, frame, element) implies #[trigger] r[j] == kfs[j] by {
        assert(base[j] == kfs[j]);
        assert(k[j] == base[j]);
    }
}

/// An edit in an animation (a frame given, the bone not locked), when editing
/// is not held back by a playing animation, leaves the bones as they were and
/// records into animation `anim_id` alone: the keyframe of the element at the
/// frame holds the value given (see `edit_value`), and when the element had no
/// keyframe at frame 0 and the frame is another one, a keyframe at frame 0
/// holds the value the bone had (for a floating-point element, its own bit
/// pattern; for a flag, 1 or 0).
#[verifier::spinoff_prover]
pub proof fn lemma_edit_in_animation(
    arm: ArmatureView,
    edit_while_playing: bool,
    bone_id: i32,
    element: AnimElement,
    bits: u32,
    number: i32,
    byte: u8,
    flag: bool,
    is_ik_end: bool,
    text: Seq<char>,
    int_bits: u32,
    anim_id: usize,
    anim_frame: i32,
)
    requires
        bone_index(arm.bones, bone_id) >= 0,
        edit_while_playing || !any_playing(arm.animations),
        anim_frame != -1,
        !arm.bones[bone_index(arm.bones, bone_id)].locked,
        anim_id < arm.animations.len(),
    ensures
        ({
            let b = arm.bones[bone_index(arm.bones, bone_id)];
            let after = edited(arm, edit_while_playing, bone_id, element, bits, number, byte, flag, is_ik_end, text, int_bits, anim_id, anim_frame);
            let kfs = arm.animations[anim_id as int].keyframes;
            let r = after.animations[anim_id as int].keyframes;
            &&& after.bones == arm.bones
            &&& after.styles == arm.styles
            &&& after.animations.len() == arm.animations.len()
            &&& forall|j: int| 0 <= j < arm.animations.len() && j != anim_id ==> after.animations[j] == arm.animations[j]
            &&& after.animations[anim_id as int].id == arm.animations[anim_id as int].id
            &&& exists|i: int|
                #[trigger] is_first_slot(r, i, bone_id, anim_frame, element) && r[i].value == edit_value(b, element, bits, is_ik_end)
            &&& anim_frame != 0 && !has_slot(kfs, bone_id, 0, element) ==> exists|i: int|
                0 <= i < r.len() && #[trigger] is_slot(r[i], bone_id, 0, element) && r[i].value == init_bits(b, element, int_bits)
            &&& kind_of(element) == ElementKind::Float ==> init_bits(b, element, int_bits) == element_bits(b, element)
            &&& kind_of(element) == ElementKind::Flag ==> init_bits(b, element, int_bits) == if element_flag(b, element) { one_bits() } else { 0 }
            &&& forall|j: int|
                0 <= j < kfs.len() && !is_slot(kfs[j], bone_id, anim_frame, element) ==> #[trigger] r[j] == kfs[j]
        }),
{
    let b = arm.bones[bone_index(arm.bones, bone_id)];
    let anim = arm.animations[anim_id as int];
    let kfs = anim.keyframes;
    let rec = recorded(
        kfs,
        bone_id,
        element,
        anim_frame,
        init_bits(b, element, int_bits),
        element_text(b, element),
        edit_value(b, element, bits, is_ik_end),
        text,
    );
    let after = edited(arm, edit_while_playing, bone_id, element, bits, number, byte, flag, is_ik_end, text, int_bits, anim_id, anim_frame);
    assert(after == ArmatureView {
        animations: arm.animations.update(anim_id as int, AnimationView { keyframes: rec, ..anim }),
        ..arm
    });
    lemma_record_holds_value(
        kfs,
        bone_id,
        element,
        anim_frame,
        init_bits(b, element, int_bits),
        element_text(b, element),
        edit_value(b, element, bits, is_ik_end),
        text,
    );
    let r = after.animations[anim_id as int].keyframes;
    assert(r == rec);
    assert(after.animations.len() == arm.animations.len());
    assert(kind_of(element) == ElementKind::Float ==> init_bits(b, element, int_bits) == element_bits(b, element));
    assert(kind_of(element) == ElementKind::Flag ==> init_bits(b, element, int_bits) == if element_flag(b, element) { one_bits() } else { 0 });
    assert(exists|i: int|
                #[trigger] is_first_slot(r, i, bone_id, anim_frame, element) && r[i].value == edit_value(b, element, bits, is_ik_end));
}
} // verus!
