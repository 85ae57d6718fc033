//! The editor's data model: vertices, bones, keyframes, animations, styles
//! and the armature that holds them, with a mathematical view of each.
//!
//! Geometric quantities (positions, rotations, scales, weights, ...) are
//! carried by the library as the bit patterns of their `f32` values: the
//! editing logic here moves them around but never computes with them.
use vstd::prelude::*;

verus! {

/// A 2D vector whose components are the bit patterns of two `f32` values.
#[derive(Clone, Copy, Debug, PartialEq, Eq, Structural, Default)]
pub struct Vec2 {
    pub x: u32,
    pub y: u32,
}

/// An 8-bit RGBA colour.
#[derive(Clone, Copy, Debug, PartialEq, Eq, Structural, Default)]
pub struct Color {
    pub r: u8,
    pub g: u8,
    pub b: u8,
    pub a: u8,
}

/// One vertex of a bone's mesh.
#[derive(Clone, Copy, Debug, PartialEq, Eq, Structural, Default)]
pub struct Vertex {
    pub id: u32,
    pub pos: Vec2,
    pub uv: Vec2,
    pub color: Color,
    /// Bit pattern of the `f32` rotation offset of this vertex.
    pub offset_rot: u32,
}

/// A vertex taking part in a bind, with the bit pattern of its `f32` weight.
#[derive(Clone, Copy, Debug, PartialEq, Eq, Structural, Default)]
pub struct BoneBindVert {
    pub id: i32,
    pub weight: u32,
}

/// The placement of a bone: bit patterns of its `f32` position, rotation and scale.
#[derive(Clone, Copy, Debug, PartialEq, Eq, Structural, Default)]
pub struct Transform {
    pub pos: Vec2,
    pub rot: u32,
    pub scale: Vec2,
}

/// Which property of a bone a keyframe animates.
#[derive(Clone, Copy, Debug, PartialEq, Eq, Structural)]
pub enum AnimElement {
    PositionX,
    PositionY,
    Rotation,
    ScaleX,
    ScaleY,
    Zindex,
    IkFamilyId,
    TintR,
    TintG,
    TintB,
    TintA,
    Texture,
    IkConstraint,
    Hidden,
    Locked,
    IkMode,
    GroupColorR,
    GroupColorG,
    GroupColorB,
    GroupColorA,
    MimicTarget,
    PivotX,
    PivotY,
    PivotRot,
    PivotScaleX,
    PivotScaleY,
}

/// The bit patterns of an `f32` RGBA tint.
#[derive(Clone, Copy, Debug, PartialEq, Eq, Structural, Default)]
pub struct Tint {
    pub r: u32,
    pub g: u32,
    pub b: u32,
    pub a: u32,
}

/// How a bone looks, its pivot, its physics and which of its panels are
/// folded; `f32` values as bit patterns.
#[derive(Clone, Copy, Debug, PartialEq, Eq, Structural, Default)]
pub struct BoneProps {
    pub tint: Tint,
    pub hidden: bool,
    pub group_color: Color,
    pub ik_mimic_target: bool,
    pub pivot_pos: Vec2,
    pub pivot_rot: u32,
    pub pivot_scale: Vec2,
    pub phys_sway: u32,
    pub phys_pos_damping: u32,
    pub phys_scale_damping: u32,
    pub phys_rot_damping: u32,
    pub phys_rot_bounce: u32,
    pub phys_pos_ratio: u32,
    pub phys_scale_ratio: u32,
    pub ik_folded: bool,
    pub phys_folded: bool,
    pub meshdef_folded: bool,
    pub effects_folded: bool,
}

/// A set of mesh vertices that follow another bone.
#[derive(Clone, Debug)]
pub struct BoneBind {
    pub bone_id: i32,
    pub is_path: bool,
    pub verts: Vec<BoneBindVert>,
}

pub struct BindView {
    pub bone_id: i32,
    pub is_path: bool,
    pub verts: Seq<BoneBindVert>,
}

impl View for BoneBind {
    type V = BindView;

    open spec fn view(&self) -> BindView {
        BindView { bone_id: self.bone_id, is_path: self.is_path, verts: self.verts@ }
    }
}

/// A bone of the armature.
#[derive(Clone, Debug)]
pub struct Bone {
    pub id: i32,
    /// Id of the parent bone, or -1 for a root bone.
    pub parent_id: i32,
    pub name: String,
    /// Name of the texture shown on this bone ("" for none).
    pub tex: String,
    pub zindex: i32,
    pub ik_family_id: i32,
    pub ik_target_id: i32,
    pub ik_disabled: bool,
    pub folded: bool,
    pub anim_folded: bool,
    pub locked: bool,
    pub verts_edited: bool,
    pub transform: Transform,
    pub vertices: Vec<Vertex>,
    /// Triangles of the mesh, three vertex positions each.
    pub indices: Vec<u32>,
    /// Triangles removed by the user, three vertex ids each.
    pub blacklist: Vec<u32>,
    pub binds: Vec<BoneBind>,
    /// Name of the joint constraint of the bone's inverse kinematics.
    pub ik_constraint: String,
    /// Name of the inverse kinematics mode.
    pub ik_mode: String,
    pub props: BoneProps,
}

pub struct BoneView {
    pub id: i32,
    pub parent_id: i32,
    pub name: Seq<char>,
    pub tex: Seq<char>,
    pub zindex: i32,
    pub ik_family_id: i32,
    pub ik_target_id: i32,
    pub ik_disabled: bool,
    pub folded: bool,
    pub anim_folded: bool,
    pub locked: bool,
    pub verts_edited: bool,
    pub transform: Transform,
    pub vertices: Seq<Vertex>,
    pub indices: Seq<u32>,
    pub blacklist: Seq<u32>,
    pub binds: Seq<BindView>,
    pub ik_constraint: Seq<char>,
    pub ik_mode: Seq<char>,
    pub props: BoneProps,
}

impl View for Bone {
    type V = BoneView;

    open spec fn view(&self) -> BoneView {
        BoneView {
            id: self.id,
            parent_id: self.parent_id,
            name: self.name@,
            tex: self.tex@,
            zindex: self.zindex,
            ik_family_id: self.ik_family_id,
            ik_target_id: self.ik_target_id,
            ik_disabled: self.ik_disabled,
            folded: self.folded,
            anim_folded: self.anim_folded,
            locked: self.locked,
            verts_edited: self.verts_edited,
            transform: self.transform,
            vertices: self.vertices@,
            indices: self.indices@,
            blacklist: self.blacklist@,
            binds: views(self.binds@),
            ik_constraint: self.ik_constraint@,
            ik_mode: self.ik_mode@,
            props: self.props,
        }
    }
}

/// One keyframe of an animation.
#[derive(Clone, Debug)]
pub struct Keyframe {
    pub frame: i32,
    pub bone_id: i32,
    pub element: AnimElement,
    /// Bit pattern of the `f32` value of the element at this frame.
    pub value: u32,
    pub value_str: String,
    pub start_handle: Vec2,
    pub end_handle: Vec2,
    pub handle_preset: u32,
}

pub struct KeyframeView {
    pub frame: i32,
    pub bone_id: i32,
    pub element: AnimElement,
    pub value: u32,
    pub value_str: Seq<char>,
    pub start_handle: Vec2,
    pub end_handle: Vec2,
    pub handle_preset: u32,
}

impl View for Keyframe {
    type V = KeyframeView;

    open spec fn view(&self) -> KeyframeView {
        KeyframeView {
            frame: self.frame,
            bone_id: self.bone_id,
            element: self.element,
            value: self.value,
            value_str: self.value_str@,
            start_handle: self.start_handle,
            end_handle: self.end_handle,
            handle_preset: self.handle_preset,
        }
    }
}

/// An animation: its keyframes, and whether it is playing.
#[derive(Clone, Debug)]
pub struct Animation {
    pub id: i32,
    pub name: String,
    pub fps: i32,
    pub keyframes: Vec<Keyframe>,
    pub playing: bool,
}

pub struct AnimationView {
    pub id: i32,
    pub name: Seq<char>,
    pub fps: i32,
    pub keyframes: Seq<KeyframeView>,
    pub playing: bool,
}

impl View for Animation {
    type V = AnimationView;

    open spec fn view(&self) -> AnimationView {
        AnimationView {
            id: self.id,
            name: self.name@,
            fps: self.fps,
            keyframes: views(self.keyframes@),
            playing: self.playing,
        }
    }
}

/// A texture of a style.
#[derive(Clone, Debug)]
pub struct Texture {
    pub name: String,
    pub data_id: i32,
    pub size: Vec2,
}

pub struct TextureView {
    pub name: Seq<char>,
    pub data_id: i32,
    pub size: Vec2,
}

impl View for Texture {
    type V = TextureView;

    open spec fn view(&self) -> TextureView {
        TextureView { name: self.name@, data_id: self.data_id, size: self.size }
    }
}

/// A named set of textures.
#[derive(Clone, Debug)]
pub struct Style {
    pub id: i32,
    pub name: String,
    pub textures: Vec<Texture>,
    pub active: bool,
}

pub struct StyleView {
    pub id: i32,
    pub name: Seq<char>,
    pub textures: Seq<TextureView>,
    pub active: bool,
}

impl View for Style {
    type V = StyleView;

    open spec fn view(&self) -> StyleView {
        StyleView {
            id: self.id,
            name: self.name@,
            textures: views(self.textures@),
            active: self.active,
        }
    }
}

/// The document being edited.
#[derive(Clone, Debug)]
pub struct Armature {
    pub bones: Vec<Bone>,
    pub animations: Vec<Animation>,
    pub styles: Vec<Style>,
}

pub struct ArmatureView {
    pub bones: Seq<BoneView>,
    pub animations: Seq<AnimationView>,
    pub styles: Seq<StyleView>,
}

impl View for Armature {
    type V = ArmatureView;

    open spec fn view(&self) -> ArmatureView {
        ArmatureView {
            bones: views(self.bones@),
            animations: views(self.animations@),
            styles: views(self.styles@),
        }
    }
}

/// The view of each element of a sequence.
pub open spec fn views<T: View>(s: Seq<T>) -> Seq<T::V> {
    s.map_values(|x: T| x@)
}

/// Values that can be copied with a result whose view is the original's.
pub trait Duplicate: View + Sized {
    fn duplicate(&self) -> (r: Self)
        ensures
            r@ == self@,
    ;
}

/// A copy of a vector of plain values.
pub fn copy_vec<T: Copy>(v: &Vec<T>) -> (r: Vec<T>)
    ensures
        r@ == v@,
{
    let mut r: Vec<T> = Vec::new();
    let mut i: usize = 0;
    while i < v.len()
        invariant
            i <= v.len(),
            r@ == v@.subrange(0, i as int),
        decreases v.len() - i,
    {
        r.push(v[i]);
        i = i + 1;
    }
    assert(r@ =~= v@);
    r
}

/// A copy of a vector of values with views, element by element.
pub fn duplicate_vec<T: Duplicate>(v: &Vec<T>) -> (r: Vec<T>)
    ensures
        views(r@) == views(v@),
        r@.len() == v@.len(),
{
    let mut r: Vec<T> = Vec::new();
    let mut i: usize = 0;
    while i < v.len()
        invariant
            i <= v.len(),
            r@.len() == i,
            forall|j: int| 0 <= j < i ==> #[trigger] r@[j]@ == v@[j]@,
        decreases v.len() - i,
    {
        r.push(v[i].duplicate());
        i = i + 1;
    }
    assert(views(r@) =~= views(v@));
    r
}

impl Duplicate for BoneBind {
    fn duplicate(&self) -> (r: Self) {
        BoneBind { bone_id: self.bone_id, is_path: self.is_path, verts: copy_vec(&self.verts) }
    }
}

impl Duplicate for Bone {
    fn duplicate(&self) -> (r: Self) {
        Bone {
            id: self.id,
            parent_id: self.parent_id,
            name: self.name.clone(),
            tex: self.tex.clone(),
            zindex: self.zindex,
            ik_family_id: self.ik_family_id,
            ik_target_id: self.ik_target_id,
            ik_disabled: self.ik_disabled,
            folded: self.folded,
            anim_folded: self.anim_folded,
            locked: self.locked,
            verts_edited: self.verts_edited,
            transform: self.transform,
            vertices: copy_vec(&self.vertices),
            indices: copy_vec(&self.indices),
            blacklist: copy_vec(&self.blacklist),
            binds: duplicate_vec(&self.binds),
            ik_constraint: self.ik_constraint.clone(),
            ik_mode: self.ik_mode.clone(),
            props: self.props,
        }
    }
}

impl Duplicate for Keyframe {
    fn duplicate(&self) -> (r: Self) {
        Keyframe {
            frame: self.frame,
            bone_id: self.bone_id,
            element: self.element,
            value: self.value,
            value_str: self.value_str.clone(),
            start_handle: self.start_handle,
            end_handle: self.end_handle,
            handle_preset: self.handle_preset,
        }
    }
}

impl Duplicate for Animation {
    fn duplicate(&self) -> (r: Self) {
        Animation {
            id: self.id,
            name: self.name.clone(),
            fps: self.fps,
            keyframes: duplicate_vec(&self.keyframes),
            playing: self.playing,
        }
    }
}

impl Duplicate for Texture {
    fn duplicate(&self) -> (r: Self) {
        Texture { name: self.name.clone(), data_id: self.data_id, size: self.size }
    }
}

impl Duplicate for Style {
    fn duplicate(&self) -> (r: Self) {
        Style {
            id: self.id,
            name: self.name.clone(),
            textures: duplicate_vec(&self.textures),
            active: self.active,
        }
    }
}

impl Duplicate for Armature {
    fn duplicate(&self) -> (r: Self) {
        Armature {
            bones: duplicate_vec(&self.bones),
            animations: duplicate_vec(&self.animations),
            styles: duplicate_vec(&self.styles),
        }
    }
}

/// What an undo or redo step restores.
#[derive(Clone, Copy, Debug, PartialEq, Eq, Structural)]
pub enum ActionType {
    /// An action that restores nothing.
    Empty,
    Bone,
    Bones,
    Animation,
    Animations,
    Style,
    Styles,
}

/// A saved state that an undo (or redo) step puts back. An action tagged
/// `continued` is undone together with the action below it.
#[derive(Clone, Debug)]
pub struct Action {
    pub action: ActionType,
    pub bones: Vec<Bone>,
    pub animations: Vec<Animation>,
    pub styles: Vec<Style>,
    pub continued: bool,
}

pub struct ActionView {
    pub action: ActionType,
    pub bones: Seq<BoneView>,
    pub animations: Seq<AnimationView>,
    pub styles: Seq<StyleView>,
    pub continued: bool,
}

impl View for Action {
    type V = ActionView;

    open spec fn view(&self) -> ActionView {
        ActionView {
            action: self.action,
            bones: views(self.bones@),
            animations: views(self.animations@),
            styles: views(self.styles@),
            continued: self.continued,
        }
    }
}

impl Duplicate for Action {
    fn duplicate(&self) -> (r: Self) {
        Action {
            action: self.action,
            bones: duplicate_vec(&self.bones),
            animations: duplicate_vec(&self.animations),
            styles: duplicate_vec(&self.styles),
            continued: self.continued,
        }
    }
}

/// The undo and redo stacks (last element on top).
#[derive(Clone, Debug)]
pub struct UndoStates {
    pub undo_actions: Vec<Action>,
    pub redo_actions: Vec<Action>,
    /// Actions gathered while a chain of continued actions is being undone or redone.
    pub temp_actions: Vec<Action>,
    pub prev_undo_actions: usize,
    pub unsaved_undo_actions: usize,
}

pub struct UndoView {
    pub undo_actions: Seq<ActionView>,
    pub redo_actions: Seq<ActionView>,
    pub temp_actions: Seq<ActionView>,
    pub prev_undo_actions: usize,
    pub unsaved_undo_actions: usize,
}

impl View for UndoStates {
    type V = UndoView;

    open spec fn view(&self) -> UndoView {
        UndoView {
            undo_actions: views(self.undo_actions@),
            redo_actions: views(self.redo_actions@),
            temp_actions: views(self.temp_actions@),
            prev_undo_actions: self.prev_undo_actions,
            unsaved_undo_actions: self.unsaved_undo_actions,
        }
    }
}

/// What the user has selected. `usize::MAX` and -1 stand for "nothing".
#[derive(Clone, Debug)]
pub struct SelectionState {
    pub bone_idx: usize,
    pub bone_ids: Vec<i32>,
    pub vert_ids: Vec<usize>,
    pub anim: usize,
    pub anim_frame: i32,
    pub bind: i32,
    pub style_id: i32,
    pub tex_ids: Vec<i32>,
    pub hovering_vert_id: i32,
    pub hovering_bone_id: i32,
    /// How long a triangle, and a line, of the mesh have been hovered.
    pub hovering_tri_dur: i32,
    pub hovering_line_dur: i32,
}

pub struct SelectionView {
    pub bone_idx: usize,
    pub bone_ids: Seq<i32>,
    pub vert_ids: Seq<usize>,
    pub anim: usize,
    pub anim_frame: i32,
    pub bind: i32,
    pub style_id: i32,
    pub tex_ids: Seq<i32>,
    pub hovering_vert_id: i32,
    pub hovering_bone_id: i32,
    pub hovering_tri_dur: i32,
    pub hovering_line_dur: i32,
}

impl View for SelectionState {
    type V = SelectionView;

    open spec fn view(&self) -> SelectionView {
        SelectionView {
            bone_idx: self.bone_idx,
            bone_ids: self.bone_ids@,
            vert_ids: self.vert_ids@,
            anim: self.anim,
            anim_frame: self.anim_frame,
            bind: self.bind,
            style_id: self.style_id,
            tex_ids: self.tex_ids@,
            hovering_vert_id: self.hovering_vert_id,
            hovering_bone_id: self.hovering_bone_id,
            hovering_tri_dur: self.hovering_tri_dur,
            hovering_line_dur: self.hovering_line_dur,
        }
    }
}

/// Bones or keyframes that were copied, waiting to be pasted.
#[derive(Clone, Debug)]
pub struct CopyBuffer {
    pub bones: Vec<Bone>,
    pub keyframes: Vec<Keyframe>,
}

pub struct CopyBufferView {
    pub bones: Seq<BoneView>,
    pub keyframes: Seq<KeyframeView>,
}

impl View for CopyBuffer {
    type V = CopyBufferView;

    open spec fn view(&self) -> CopyBufferView {
        CopyBufferView { bones: views(self.bones@), keyframes: views(self.keyframes@) }
    }
}

/// Position of the first bone with id `id`, or -1.
pub open spec fn bone_index(bones: Seq<BoneView>, id: i32) -> int {
    if exists|i: int| is_first_bone(bones, id, i) {
        choose|i: int| is_first_bone(bones, id, i)
    } else {
        -1
    }
}

pub open spec fn is_first_bone(bones: Seq<BoneView>, id: i32, i: int) -> bool {
    &&& 0 <= i < bones.len()
    &&& bones[i].id == id
    &&& forall|j: int| 0 <= j < i ==> bones[j].id != id
}

/// Position of the first animation with id `id`, or -1.
pub open spec fn anim_index(anims: Seq<AnimationView>, id: i32) -> int {
    if exists|i: int| is_first_anim(anims, id, i) {
        choose|i: int| is_first_anim(anims, id, i)
    } else {
        -1
    }
}

pub open spec fn is_first_anim(anims: Seq<AnimationView>, id: i32, i: int) -> bool {
    &&& 0 <= i < anims.len()
    &&& anims[i].id == id
    &&& forall|j: int| 0 <= j < i ==> anims[j].id != id
}

/// Position of the first style with id `id`, or -1.
pub open spec fn style_index(styles: Seq<StyleView>, id: i32) -> int {
    if exists|i: int| is_first_style(styles, id, i) {
        choose|i: int| is_first_style(styles, id, i)
    } else {
        -1
    }
}

pub open spec fn is_first_style(styles: Seq<StyleView>, id: i32, i: int) -> bool {
    &&& 0 <= i < styles.len()
    &&& styles[i].id == id
    &&& forall|j: int| 0 <= j < i ==> styles[j].id != id
}

/// `x` is the smallest id, from 0 up, that `ids` does not hold.
pub open spec fn is_fresh_id(ids: Seq<i32>, x: i32) -> bool {
    &&& 0 <= x
    &&& !ids.contains(x)
    &&& forall|y: i32| 0 <= y < x ==> ids.contains(y)
}

/// The smallest id, from 0 up, that `ids` does not hold.
pub open spec fn fresh_id(ids: Seq<i32>) -> i32 {
    choose|x: i32| is_fresh_id(ids, x)
}

spec fn ids_below(n: int) -> Set<i32> {
    Set::new(|y: i32| 0 <= y < n)
}

proof fn lemma_ids_below(n: int)
    requires
        0 <= n <= i32::MAX + 1,
    ensures
        ids_below(n).finite(),
        ids_below(n).len() == n,
    decreases n,
{
    if n == 0 {
        assert(ids_below(0) =~= Set::empty());
    } else {
        lemma_ids_below(n - 1);
        assert(ids_below(n - 1).insert((n - 1) as i32) =~= ids_below(n));
    }
}

/// The smallest id, from 0 up, that `ids` does not hold: the id a new
/// bone, style or animation gets.
pub fn generate_id(ids: &Vec<i32>) -> (r: i32)
    requires
        ids.len() < i32::MAX,
    ensures
        is_fresh_id(ids@, r),
        r == fresh_id(ids@),
{
    let mut x: i32 = 0;
    loop
        invariant
            0 <= x <= ids.len(),
            ids.len() < i32::MAX,
            forall|y: i32| 0 <= y < x ==> ids@.contains(y),
        decreases ids.len() - x,
    {
        if !crate::seqs::contains_i32(ids, x) {
            proof {
                let c = choose|z: i32| is_fresh_id(ids@, z);
                assert(is_fresh_id(ids@, x));
                if c < x {
                    assert(ids@.contains(c));
                } else if x < c {
                    assert(ids@.contains(x));
                }
            }
            return x;
        }
        proof {
            broadcast use vstd::seq_lib::seq_to_set_is_finite;
            lemma_ids_below(x + 1);
            assert forall|y: i32| ids_below(x + 1).contains(y) implies ids@.to_set().contains(y) by {
                assert(ids@.contains(y));
            }
            vstd::set_lib::lemma_len_subset(ids_below(x + 1), ids@.to_set());
            ids@.lemma_cardinality_of_set();
        }
        x = x + 1;
    }
}

/// A list with fewer than `i32::MAX` ids leaves a smallest free one.
pub(crate) proof fn lemma_fresh_id_exists(ids: Seq<i32>)
    requires
        ids.len() < i32::MAX,
    ensures
        is_fresh_id(ids, fresh_id(ids)),
{
    lemma_fresh_from(ids, 0);
}

proof fn lemma_fresh_from(ids: Seq<i32>, x: i32)
    requires
        ids.len() < i32::MAX,
        0 <= x <= ids.len(),
        forall|y: i32| 0 <= y < x ==> ids.contains(y),
    ensures
        exists|z: i32| is_fresh_id(ids, z),
    decreases ids.len() - x,
{
    if !ids.contains(x) {
        assert(is_fresh_id(ids, x));
    } else {
        broadcast use vstd::seq_lib::seq_to_set_is_finite;
        lemma_ids_below(x + 1);
        assert forall|y: i32| ids_below(x + 1).contains(y) implies ids.to_set().contains(y) by {
            assert(ids.contains(y));
        }
        vstd::set_lib::lemma_len_subset(ids_below(x + 1), ids.to_set());
        ids.lemma_cardinality_of_set();
        lemma_fresh_from(ids, (x + 1) as i32);
    }
}

/// The position of the first bone with id `id`.
pub fn find_bone(bones: &Vec<Bone>, id: i32) -> (r: Option<usize>)
    ensures
        match r {
            Some(i) => i == bone_index(views(bones@), id),
            None => bone_index(views(bones@), id) == -1,
        },
        r is Some <==> bone_index(views(bones@), id) >= 0,
{
    let ghost bv = views(bones@);
    let mut i: usize = 0;
    while i < bones.len()
        invariant
            i <= bones.len(),
            bv == views(bones@),
            forall|j: int| 0 <= j < i ==> bv[j].id != id,
        decreases bones.len() - i,
    {
        if bones[i].id == id {
            assert(is_first_bone(bv, id, i as int));
            let ghost c = choose|k: int| is_first_bone(bv, id, k);
            assert(c == i as int) by {
                if c < i as int {
                } else if c > i as int {
                }
            }
            return Some(i);
        }
        i = i + 1;
    }
    assert(!exists|k: int| is_first_bone(bv, id, k));
    None
}

/// The position of the first animation with id `id`.
pub fn find_anim(anims: &Vec<Animation>, id: i32) -> (r: Option<usize>)
    ensures
        match r {
            Some(i) => i == anim_index(views(anims@), id),
            None => anim_index(views(anims@), id) == -1,
        },
        r is Some <==> anim_index(views(anims@), id) >= 0,
{
    let ghost av = views(anims@);
    let mut i: usize = 0;
    while i < anims.len()
        invariant
            i <= anims.len(),
            av == views(anims@),
            forall|j: int| 0 <= j < i ==> av[j].id != id,
        decreases anims.len() - i,
    {
        if anims[i].id == id {
            assert(is_first_anim(av, id, i as int));
            let ghost c = choose|k: int| is_first_anim(av, id, k);
            assert(c == i as int) by {
                if c < i as int {
                } else if c > i as int {
                }
            }
            return Some(i);
        }
        i = i + 1;
    }
    assert(!exists|k: int| is_first_anim(av, id, k));
    None
}

/// The position of the first style with id `id`.
pub fn find_style(styles: &Vec<Style>, id: i32) -> (r: Option<usize>)
    ensures
        match r {
            Some(i) => i == style_index(views(styles@), id),
            None => style_index(views(styles@), id) == -1,
        },
        r is Some <==> style_index(views(styles@), id) >= 0,
{
    let ghost sv = views(styles@);
    let mut i: usize = 0;
    while i < styles.len()
        invariant
            i <= styles.len(),
            sv == views(styles@),
            forall|j: int| 0 <= j < i ==> sv[j].id != id,
        decreases styles.len() - i,
    {
        if styles[i].id == id {
            assert(is_first_style(sv, id, i as int));
            let ghost c = choose|k: int| is_first_style(sv, id, k);
            assert(c == i as int) by {
                if c < i as int {
                } else if c > i as int {
                }
            }
            return Some(i);
        }
        i = i + 1;
    }
    assert(!exists|k: int| is_first_style(sv, id, k));
    None
}

/// A bone with id `id` at position `p` means the first one is at or before `p`.
pub proof fn lemma_bone_index_found(bones: Seq<BoneView>, id: i32, p: int)
    requires
        0 <= p < bones.len(),
        bones[p].id == id,
    ensures
        0 <= bone_index(bones, id) <= p,
        is_first_bone(bones, id, bone_index(bones, id)),
    decreases p,
{
    if forall|j: int| 0 <= j < p ==> bones[j].id != id {
        assert(is_first_bone(bones, id, p));
        let c = choose|k: int| is_first_bone(bones, id, k);
        assert(c <= p) by {
            if c > p {
            }
        }
    } else {
        let j = choose|j: int| 0 <= j < p && bones[j].id == id;
        lemma_bone_index_found(bones, id, j);
    }
}

/// Where the first bone with a given id stands depends only on the ids.
pub proof fn lemma_bone_index_same_ids(b1: Seq<BoneView>, b2: Seq<BoneView>, id: i32)
    requires
        b1.len() == b2.len(),
        forall|j: int| 0 <= j < b1.len() ==> b1[j].id == b2[j].id,
    ensures
        bone_index(b1, id) == bone_index(b2, id),
{
    if exists|i: int| is_first_bone(b1, id, i) {
        let c1 = choose|i: int| is_first_bone(b1, id, i);
        assert(is_first_bone(b2, id, c1));
        let c2 = choose|i: int| is_first_bone(b2, id, i);
        assert(c1 == c2) by {
            if c1 < c2 {
            } else if c1 > c2 {
            }
        }
    } else {
        assert forall|i: int| !is_first_bone(b2, id, i) by {
            if is_first_bone(b2, id, i) {
                assert(is_first_bone(b1, id, i));
            }
        }
    }
}

} // verus!
