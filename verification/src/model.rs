//! The pose / animation data model.
//!
//! Numeric payloads (Euler angles, quaternions, translations, camera orbit
//! values, expression weights) are carried as an opaque scalar type `S`: the
//! library decides *which* values go where (names, sparse overlays, keyframe
//! structure, timing) while the arithmetic on the values lives with the
//! renderer. Every type here is the sparse, authorable form; nothing in it is
//! interpreted numerically.

use vstd::prelude::*;
use crate::named_map::NamedMap;

verus! {

/// Easing curve applied to a keyframe segment's linear progress.
#[derive(Debug, Clone, Copy, PartialEq, Eq, Structural)]
pub enum Easing {
    Linear,
    EaseIn,
    EaseOut,
    EaseInOut,
    Step,
}

impl Easing {
    /// Every variant, in declaration order.
    pub const ALL: [Easing; 5] = [
        Easing::Linear,
        Easing::EaseIn,
        Easing::EaseOut,
        Easing::EaseInOut,
        Easing::Step,
    ];

    /// The `snake_case` name used in YAML and JSON.
    pub fn wire_name(self) -> (s: &'static str)
        ensures
            s@ == easing_wire_name(self),
    {
        proof {
            reveal_strlit("linear");
            reveal_strlit("ease_in");
            reveal_strlit("ease_out");
            reveal_strlit("ease_in_out");
            reveal_strlit("step");
        }
        match self {
            Easing::Linear => "linear",
            Easing::EaseIn => "ease_in",
            Easing::EaseOut => "ease_out",
            Easing::EaseInOut => "ease_in_out",
            Easing::Step => "step",
        }
    }
}

/// The `snake_case` wire name of an easing.
pub open spec fn easing_wire_name(e: Easing) -> Seq<char> {
    match e {
        Easing::Linear => seq!['l', 'i', 'n', 'e', 'a', 'r'],
        Easing::EaseIn => seq!['e', 'a', 's', 'e', '_', 'i', 'n'],
        Easing::EaseOut => seq!['e', 'a', 's', 'e', '_', 'o', 'u', 't'],
        Easing::EaseInOut => seq!['e', 'a', 's', 'e', '_', 'i', 'n', '_', 'o', 'u', 't'],
        Easing::Step => seq!['s', 't', 'e', 'p'],
    }
}

impl Default for Easing {
    fn default() -> (e: Easing)
        ensures
            e == Easing::Linear,
    {
        Easing::Linear
    }
}

/// Euler rotation in degrees (x, y, z), the authorable joint rotation.
#[derive(Debug, Clone, Copy, PartialEq)]
pub struct EulerDeg<S> {
    pub x: S,
    pub y: S,
    pub z: S,
}

/// A joint's sparse target: each field may be omitted ("leave it alone").
/// `rotation_quat` (glTF xyzw) wins over `rotation_deg` when both are set.
#[derive(Debug, Clone, Copy, PartialEq)]
pub struct JointTarget<S> {
    pub rotation_deg: Option<EulerDeg<S>>,
    pub rotation_quat: Option<[S; 4]>,
    pub translation: Option<[S; 3]>,
}

impl<S> JointTarget<S> {
    /// A target with every field omitted.
    pub fn empty() -> (t: Self)
        ensures
            t.rotation_deg is None,
            t.rotation_quat is None,
            t.translation is None,
    {
        JointTarget { rotation_deg: None, rotation_quat: None, translation: None }
    }
}

/// A sparse orbit-camera patch: omitted fields keep the live camera's value.
#[derive(Debug, Clone, Copy, PartialEq)]
pub struct CameraTarget<S> {
    pub yaw_deg: Option<S>,
    pub pitch_deg: Option<S>,
    pub distance: Option<S>,
    pub look_at: Option<[S; 3]>,
}

/// `a` if it is set, else `b` (`Option::or`).
pub open spec fn or_else<T>(a: Option<T>, b: Option<T>) -> Option<T> {
    match a {
        Some(x) => Some(x),
        None => b,
    }
}

/// The field-wise overlay of two camera patches (overlay wins when set).
pub open spec fn merged_cameras<S>(base: Option<CameraTarget<S>>, overlay: Option<
    CameraTarget<S>,
>) -> Option<CameraTarget<S>> {
    match (base, overlay) {
        (None, None) => None,
        (Some(b), None) => Some(b),
        (None, Some(o)) => Some(o),
        (Some(b), Some(o)) => Some(
            CameraTarget {
                yaw_deg: or_else(o.yaw_deg, b.yaw_deg),
                pitch_deg: or_else(o.pitch_deg, b.pitch_deg),
                distance: or_else(o.distance, b.distance),
                look_at: or_else(o.look_at, b.look_at),
            },
        ),
    }
}

fn or_field<T>(a: Option<T>, b: Option<T>) -> (r: Option<T>)
    ensures
        r == or_else(a, b),
{
    match a {
        Some(x) => Some(x),
        None => b,
    }
}

/// Merge two sparse camera patches (overlay wins per field when set).
pub fn merge_camera_targets<S>(base: Option<CameraTarget<S>>, overlay: Option<CameraTarget<S>>) -> (r:
    Option<CameraTarget<S>>)
    ensures
        r == merged_cameras(base, overlay),
{
    match (base, overlay) {
        (None, None) => None,
        (Some(b), None) => Some(b),
        (None, Some(o)) => Some(o),
        (Some(b), Some(o)) => Some(
            CameraTarget {
                yaw_deg: or_field(o.yaw_deg, b.yaw_deg),
                pitch_deg: or_field(o.pitch_deg, b.pitch_deg),
                distance: or_field(o.distance, b.distance),
                look_at: or_field(o.look_at, b.look_at),
            },
        ),
    }
}

/// The characters of an optional string.
pub open spec fn opt_view(s: Option<String>) -> Option<Seq<char>> {
    match s {
        Some(x) => Some(x@),
        None => None,
    }
}

/// A copy of an optional string.
pub fn clone_opt_string(s: &Option<String>) -> (r: Option<String>)
    ensures
        opt_view(r) == opt_view(*s),
{
    match s {
        Some(x) => Some(x.clone()),
        None => None,
    }
}

/// The abstract content of a [`Pose`].
pub struct PoseView<S> {
    pub name: Seq<char>,
    pub description: Option<Seq<char>>,
    pub joints: Map<Seq<char>, JointTarget<S>>,
    pub camera: Option<CameraTarget<S>>,
    pub expressions: Map<Seq<char>, S>,
    pub hold_joints: bool,
}

/// A named, sparse set of joint targets. Joints not listed keep their rest
/// transform; `camera` is a sparse patch; `expressions` are face-morph
/// weights by preset name. `hold_joints` marks a sparse overlay: unlisted
/// joints keep their current value instead of resetting to rest.
#[derive(Debug)]
pub struct Pose<S> {
    pub name: String,
    pub description: Option<String>,
    pub joints: NamedMap<JointTarget<S>>,
    pub camera: Option<CameraTarget<S>>,
    pub expressions: NamedMap<S>,
    pub hold_joints: bool,
}

impl<S> View for Pose<S> {
    type V = PoseView<S>;

    open spec fn view(&self) -> PoseView<S> {
        PoseView {
            name: self.name@,
            description: opt_view(self.description),
            joints: self.joints@,
            camera: self.camera,
            expressions: self.expressions@,
            hold_joints: self.hold_joints,
        }
    }
}

impl<S: Copy> Pose<S> {
    /// A copy of this pose.
    pub fn duplicate(&self) -> (p: Self)
        ensures
            p@ == self@,
    {
        Pose {
            name: self.name.clone(),
            description: clone_opt_string(&self.description),
            joints: self.joints.duplicate(),
            camera: self.camera,
            expressions: self.expressions.duplicate(),
            hold_joints: self.hold_joints,
        }
    }
}

/// The abstract content of a [`KeyframeSpec`].
pub struct KeyframeSpecView<S> {
    pub pose: Option<Seq<char>>,
    pub joints: Option<Map<Seq<char>, JointTarget<S>>>,
    pub camera: Option<CameraTarget<S>>,
    pub expressions: Option<Map<Seq<char>, S>>,
    pub hold: Option<bool>,
    pub duration_ms: u32,
    pub easing: Easing,
}

/// One keyframe as authored.
///
/// **Base + delta:** `pose` names a library pose and `joints` (if any) are
/// per-joint overrides on top of it. **Inline:** no `pose`, `joints` is the
/// whole snapshot. A keyframe may also carry only a camera patch and/or
/// expressions. `hold: true` makes it a sparse overlay.
#[derive(Debug)]
pub struct KeyframeSpec<S> {
    pub pose: Option<String>,
    pub joints: Option<NamedMap<JointTarget<S>>>,
    pub camera: Option<CameraTarget<S>>,
    pub expressions: Option<NamedMap<S>>,
    pub hold: Option<bool>,
    pub duration_ms: u32,
    pub easing: Easing,
}

/// The view of an optional map.
pub open spec fn opt_map_view<T>(m: Option<NamedMap<T>>) -> Option<Map<Seq<char>, T>> {
    match m {
        Some(x) => Some(x@),
        None => None,
    }
}

impl<S> View for KeyframeSpec<S> {
    type V = KeyframeSpecView<S>;

    open spec fn view(&self) -> KeyframeSpecView<S> {
        KeyframeSpecView {
            pose: opt_view(self.pose),
            joints: opt_map_view(self.joints),
            camera: self.camera,
            expressions: opt_map_view(self.expressions),
            hold: self.hold,
            duration_ms: self.duration_ms,
            easing: self.easing,
        }
    }
}

/// A copy of an optional map.
pub fn clone_opt_map<T: Copy>(m: &Option<NamedMap<T>>) -> (r: Option<NamedMap<T>>)
    ensures
        opt_map_view(r) == opt_map_view(*m),
{
    match m {
        Some(x) => Some(x.duplicate()),
        None => None,
    }
}

impl<S: Copy> KeyframeSpec<S> {
    /// A copy of this keyframe.
    pub fn duplicate(&self) -> (k: Self)
        ensures
            k@ == self@,
    {
        KeyframeSpec {
            pose: clone_opt_string(&self.pose),
            joints: clone_opt_map(&self.joints),
            camera: self.camera,
            expressions: clone_opt_map(&self.expressions),
            hold: self.hold,
            duration_ms: self.duration_ms,
            easing: self.easing,
        }
    }
}

/// The raw shape of an animation file, before pose references are resolved.
#[derive(Debug)]
pub struct AnimationFile<S> {
    pub name: String,
    pub description: Option<String>,
    pub looping: bool,
    /// Joint rotations are absolute glTF local quaternions (imported clips).
    pub vrm_local_rotations: bool,
    /// May be picked at random while idle.
    pub play_automatically: bool,
    pub keyframes: Vec<KeyframeSpec<S>>,
}

/// The abstract content of an [`AnimationFile`].
pub struct AnimationFileView<S> {
    pub name: Seq<char>,
    pub description: Option<Seq<char>>,
    pub looping: bool,
    pub vrm_local_rotations: bool,
    pub play_automatically: bool,
    pub keyframes: Seq<KeyframeSpecView<S>>,
}

impl<S> View for AnimationFile<S> {
    type V = AnimationFileView<S>;

    open spec fn view(&self) -> AnimationFileView<S> {
        AnimationFileView {
            name: self.name@,
            description: opt_view(self.description),
            looping: self.looping,
            vrm_local_rotations: self.vrm_local_rotations,
            play_automatically: self.play_automatically,
            keyframes: self.keyframes@.map_values(|k: KeyframeSpec<S>| k@),
        }
    }
}

impl<S: Copy> AnimationFile<S> {
    /// A copy of this animation file.
    pub fn duplicate(&self) -> (a: Self)
        ensures
            a@ == self@,
    {
        let mut keyframes: Vec<KeyframeSpec<S>> = Vec::new();
        let mut i: usize = 0;
        while i < self.keyframes.len()
            invariant
                i <= self.keyframes.len(),
                keyframes@.len() == i,
                forall|j: int| 0 <= j < i ==> #[trigger] keyframes@[j]@ == self.keyframes@[j]@,
            decreases self.keyframes.len() - i,
        {
            keyframes.push(self.keyframes[i].duplicate());
            i = i + 1;
        }
        assert(keyframes@.map_values(|k: KeyframeSpec<S>| k@)
            =~= self.keyframes@.map_values(|k: KeyframeSpec<S>| k@));
        AnimationFile {
            name: self.name.clone(),
            description: clone_opt_string(&self.description),
            looping: self.looping,
            vrm_local_rotations: self.vrm_local_rotations,
            play_automatically: self.play_automatically,
            keyframes,
        }
    }
}

/// A keyframe with its pose materialized; `authoring` keeps the spec it came
/// from.
#[derive(Debug)]
pub struct Keyframe<S> {
    pub pose: Pose<S>,
    pub duration_ms: u32,
    pub easing: Easing,
    pub authoring: KeyframeSpec<S>,
}

/// An ordered sequence of resolved keyframes.
#[derive(Debug)]
pub struct Animation<S> {
    pub name: String,
    pub description: Option<String>,
    pub looping: bool,
    pub vrm_local_rotations: bool,
    pub play_automatically: bool,
    pub keyframes: Vec<Keyframe<S>>,
}

} // verus!

verus! {

/// Whether two resolved keyframes hold the same content.
pub open spec fn same_keyframe<S>(a: Keyframe<S>, b: Keyframe<S>) -> bool {
    &&& a.pose@ == b.pose@
    &&& a.duration_ms == b.duration_ms
    &&& a.easing == b.easing
    &&& a.authoring@ == b.authoring@
}

/// Whether two animations hold the same content, apart from `looping`.
pub open spec fn same_animation_but_looping<S>(a: Animation<S>, b: Animation<S>) -> bool {
    &&& a.name@ == b.name@
    &&& opt_view(a.description) == opt_view(b.description)
    &&& a.vrm_local_rotations == b.vrm_local_rotations
    &&& a.play_automatically == b.play_automatically
    &&& a.keyframes@.len() == b.keyframes@.len()
    &&& forall|i: int| 0 <= i < a.keyframes@.len() ==> same_keyframe(#[trigger] a.keyframes@[i], b.keyframes@[i])
}

impl<S: Copy> Keyframe<S> {
    /// A copy of this keyframe.
    pub fn duplicate(&self) -> (k: Self)
        ensures
            same_keyframe(k, *self),
    {
        Keyframe {
            pose: self.pose.duplicate(),
            duration_ms: self.duration_ms,
            easing: self.easing,
            authoring: self.authoring.duplicate(),
        }
    }
}

impl<S: Copy> Animation<S> {
    /// A copy of this animation.
    pub fn duplicate(&self) -> (a: Self)
        ensures
            same_animation_but_looping(a, *self),
            a.looping == self.looping,
    {
        let mut keyframes: Vec<Keyframe<S>> = Vec::new();
        let mut i: usize = 0;
        while i < self.keyframes.len()
            invariant
                i <= self.keyframes.len(),
                keyframes@.len() == i,
                forall|j: int| 0 <= j < i ==> same_keyframe(#[trigger] keyframes@[j], self.keyframes@[j]),
            decreases self.keyframes.len() - i,
        {
            keyframes.push(self.keyframes[i].duplicate());
            i = i + 1;
        }
        Animation {
            name: self.name.clone(),
            description: clone_opt_string(&self.description),
            looping: self.looping,
            vrm_local_rotations: self.vrm_local_rotations,
            play_automatically: self.play_automatically,
            keyframes,
        }
    }
}

impl<S: Copy> Keyframe<S> {
    /// A resolved keyframe built straight from a pose, its authoring record
    /// holding the pose's joints, camera and expressions inline (each omitted
    /// when empty), `hold` when the pose holds joints, and no pose reference.
    pub fn for_test(pose: Pose<S>, duration_ms: u32, easing: Easing) -> (k: Self)
        ensures
            k.pose@ == pose@,
            k.duration_ms == duration_ms,
            k.easing == easing,
            k.authoring.pose is None,
            opt_map_view(k.authoring.joints) == if pose@.joints.len() == 0 {
                None
            } else {
                Some(pose@.joints)
            },
            k.authoring.camera == pose.camera,
            opt_map_view(k.authoring.expressions) == if pose@.expressions.len() == 0 {
                None
            } else {
                Some(pose@.expressions)
            },
            k.authoring.hold == if pose.hold_joints {
                Some(true)
            } else {
                None
            },
            k.authoring.duration_ms == duration_ms,
            k.authoring.easing == easing,
    {
        let joints = if pose.joints.is_empty() {
            None
        } else {
            Some(pose.joints.duplicate())
        };
        let expressions = if pose.expressions.is_empty() {
            None
        } else {
            Some(pose.expressions.duplicate())
        };
        let hold = if pose.hold_joints {
            Some(true)
        } else {
            None
        };
        let authoring = KeyframeSpec {
            pose: None,
            joints,
            camera: pose.camera,
            expressions,
            hold,
            duration_ms,
            easing,
        };
        Keyframe { pose, duration_ms, easing, authoring }
    }
}

} // verus!

verus! {

/// A fully resolved orbit camera: yaw and pitch (degrees), distance, and the
/// point looked at.
#[derive(Debug, Clone, Copy, PartialEq)]
pub struct ResolvedCamera<S> {
    pub yaw_deg: S,
    pub pitch_deg: S,
    pub distance: S,
    pub look_at: [S; 3],
}

/// `c` with every field the patch sets replaced.
pub open spec fn patched<S>(c: ResolvedCamera<S>, patch: CameraTarget<S>) -> ResolvedCamera<S> {
    ResolvedCamera {
        yaw_deg: match patch.yaw_deg {
            Some(v) => v,
            None => c.yaw_deg,
        },
        pitch_deg: match patch.pitch_deg {
            Some(v) => v,
            None => c.pitch_deg,
        },
        distance: match patch.distance {
            Some(v) => v,
            None => c.distance,
        },
        look_at: match patch.look_at {
            Some(v) => v,
            None => c.look_at,
        },
    }
}

impl<S: Copy> ResolvedCamera<S> {
    /// This camera with a sparse patch applied: fields the patch omits keep
    /// their value.
    pub fn with_patch(self, patch: &CameraTarget<S>) -> (c: Self)
        ensures
            c == patched(self, *patch),
    {
        ResolvedCamera {
            yaw_deg: match patch.yaw_deg {
                Some(v) => v,
                None => self.yaw_deg,
            },
            pitch_deg: match patch.pitch_deg {
                Some(v) => v,
                None => self.pitch_deg,
            },
            distance: match patch.distance {
                Some(v) => v,
                None => self.distance,
            },
            look_at: match patch.look_at {
                Some(v) => v,
                None => self.look_at,
            },
        }
    }
}

/// `c` with an optional patch applied.
pub open spec fn patched_opt<S>(c: ResolvedCamera<S>, patch: Option<CameraTarget<S>>) -> ResolvedCamera<S> {
    match patch {
        Some(p) => patched(c, p),
        None => c,
    }
}

/// Law: applying two camera patches in turn is applying their merge
/// (`merge_camera_targets`) once.
pub proof fn lemma_patches_compose<S>(c: ResolvedCamera<S>, a: Option<CameraTarget<S>>, b: Option<CameraTarget<S>>)
    ensures
        patched_opt(patched_opt(c, a), b) == patched_opt(c, merged_cameras(a, b)),
{
}

/// Law: merging camera patches is associative, and an absent patch changes
/// nothing on either side.
pub proof fn lemma_merge_cameras_laws<S>(a: Option<CameraTarget<S>>, b: Option<CameraTarget<S>>, c: Option<CameraTarget<S>>)
    ensures
        merged_cameras(merged_cameras(a, b), c) == merged_cameras(a, merged_cameras(b, c)),
        merged_cameras(a, None) == a,
        merged_cameras(None, a) == a,
{
}

} // verus!
