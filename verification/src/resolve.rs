//! Resolving authored animations against a pose registry.
//!
//! Each keyframe either names a library pose (optionally with per-joint
//! overrides), lists its joints inline, or carries only a camera move and/or
//! expressions. Resolution materializes every keyframe into a concrete
//! [`Pose`] and fails fast on a dangling pose reference or a keyframe that
//! sets nothing usable, naming the animation and the keyframe index.

use vstd::prelude::*;
use crate::model::{AnimationFile, Animation, JointTarget, Keyframe, KeyframeSpec, KeyframeSpecView, Pose, PoseView, merged_cameras, merge_camera_targets, opt_view};
use crate::named_map::NamedMap;
use crate::text::{chars_eq, chars_of, concat_str, decimal, decimal_chars, string_from_chars};

verus! {

/// Why loading or resolving poses and animations failed.
#[derive(Debug)]
pub enum YamlLoadError {
    /// A directory could not be listed (path, reason).
    ReadDir(String, String),
    /// A file could not be read (path, reason).
    ReadFile(String, String),
    /// A file is not valid YAML for its type (path, reason).
    Parse(String, String),
    /// A keyframe names a pose the registry does not hold.
    UnknownPoseRef { animation: String, index: usize, pose_name: String },
    /// A keyframe sets neither a pose, joints, a camera nor expressions, or
    /// sets both `pose` and `joints`.
    InvalidKeyframe { animation: String, index: usize },
}

/// The abstract reason a keyframe fails to resolve.
pub enum KeyframeFailure {
    UnknownPoseRef(Seq<char>),
    Invalid,
}

/// Whether `e` reports `f` for keyframe `index` of animation `animation`.
pub open spec fn error_reports(e: YamlLoadError, animation: Seq<char>, index: int, f: KeyframeFailure) -> bool {
    match (e, f) {
        (YamlLoadError::UnknownPoseRef { animation: a, index: i, pose_name }, KeyframeFailure::UnknownPoseRef(n)) =>
            a@ == animation && i == index && pose_name@ == n,
        (YamlLoadError::InvalidKeyframe { animation: a, index: i }, KeyframeFailure::Invalid) => a@ == animation && i
            == index,
        _ => false,
    }
}

/// The name given to a pose synthesized for keyframe `index` of `animation`:
/// `"{animation}#{index}"`.
pub open spec fn inline_pose_name(animation: Seq<char>, index: nat) -> Seq<char> {
    animation + seq!['#'] + decimal(index)
}

/// Whether a keyframe carries at least one expression weight.
pub open spec fn has_expressions<S>(k: KeyframeSpecView<S>) -> bool {
    match k.expressions {
        Some(e) => e.len() > 0,
        None => false,
    }
}

/// The pose a keyframe starts from, before its own hold flag, camera and
/// expressions are layered on.
pub open spec fn base_pose<S>(
    animation: Seq<char>,
    index: nat,
    k: KeyframeSpecView<S>,
    poses: Map<Seq<char>, Pose<S>>,
) -> Result<PoseView<S>, KeyframeFailure> {
    match (k.pose, k.joints) {
        (Some(n), None) => if poses.contains_key(n) {
            Ok(poses[n]@)
        } else {
            Err(KeyframeFailure::UnknownPoseRef(n))
        },
        (None, Some(j)) => Ok(
            PoseView {
                name: inline_pose_name(animation, index),
                description: None,
                joints: j,
                camera: None,
                expressions: Map::empty(),
                hold_joints: false,
            },
        ),
        (None, None) => if k.camera is Some || has_expressions(k) {
            Ok(
                PoseView {
                    name: inline_pose_name(animation, index),
                    description: None,
                    joints: Map::empty(),
                    camera: None,
                    expressions: Map::empty(),
                    hold_joints: true,
                },
            )
        } else {
            Err(KeyframeFailure::Invalid)
        },
        (Some(_), Some(_)) => Err(KeyframeFailure::Invalid),
    }
}

/// The pose keyframe `index` of `animation` resolves to: the base pose with
/// `hold: true` forcing a sparse overlay, the keyframe's camera patch merged
/// over the base's, and the keyframe's expressions overriding the base's.
pub open spec fn keyframe_pose<S>(
    animation: Seq<char>,
    index: nat,
    k: KeyframeSpecView<S>,
    poses: Map<Seq<char>, Pose<S>>,
) -> Result<PoseView<S>, KeyframeFailure> {
    match base_pose(animation, index, k, poses) {
        Err(f) => Err(f),
        Ok(b) => Ok(
            PoseView {
                name: b.name,
                description: b.description,
                joints: b.joints,
                camera: merged_cameras(b.camera, k.camera),
                expressions: match k.expressions {
                    Some(e) => b.expressions.union_prefer_right(e),
                    None => b.expressions,
                },
                hold_joints: b.hold_joints || k.hold == Some(true),
            },
        ),
    }
}

/// Law: a pose registered under `name` can be referenced at once: a keyframe
/// that names it (without inline joints) resolves, to the registered pose's
/// joints under that pose's name.
pub proof fn lemma_registered_pose_resolves<S>(
    animation: Seq<char>,
    index: nat,
    k: KeyframeSpecView<S>,
    poses: Map<Seq<char>, Pose<S>>,
    name: Seq<char>,
    p: Pose<S>,
)
    requires
        k.pose == Some(name),
        k.joints is None,
    ensures
        keyframe_pose(animation, index, k, poses.insert(name, p)) matches Ok(r) && r.joints == p@.joints
            && r.name == p@.name,
{
}

/// Law: a keyframe that references library pose `n` without inline joints
/// resolves to that pose: its name, description and joints, and its
/// expressions with the keyframe's own weights (if any) laid over them.
pub proof fn lemma_referenced_pose_content<S>(
    animation: Seq<char>,
    index: nat,
    k: KeyframeSpecView<S>,
    poses: Map<Seq<char>, Pose<S>>,
    n: Seq<char>,
)
    requires
        k.pose == Some(n),
        k.joints is None,
        poses.contains_key(n),
    ensures
        keyframe_pose(animation, index, k, poses) is Ok,
        ({
            let r = keyframe_pose(animation, index, k, poses)->Ok_0;
            let p = poses[n]@;
            &&& r.name == p.name
            &&& r.description == p.description
            &&& r.joints == p.joints
            &&& k.expressions is None ==> r.expressions == p.expressions
            &&& forall|x: Seq<char>| #[trigger] r.expressions.contains_key(x) <==> (p.expressions.contains_key(x)
                || (k.expressions matches Some(e) && e.contains_key(x)))
            &&& forall|x: Seq<char>| #[trigger] r.expressions.contains_key(x) ==> r.expressions[x] == match k.expressions {
                Some(e) => if e.contains_key(x) { e[x] } else { p.expressions[x] },
                None => p.expressions[x],
            }
            &&& r.hold_joints == (p.hold_joints || k.hold == Some(true))
            &&& k.camera is None ==> r.camera == p.camera
            &&& p.camera is None ==> r.camera == k.camera
            &&& (p.camera is Some && k.camera is Some) ==> (r.camera is Some && {
                let b = p.camera->0;
                let o = k.camera->0;
                let c = r.camera->0;
                &&& c.yaw_deg == if o.yaw_deg is Some { o.yaw_deg } else { b.yaw_deg }
                &&& c.pitch_deg == if o.pitch_deg is Some { o.pitch_deg } else { b.pitch_deg }
                &&& c.distance == if o.distance is Some { o.distance } else { b.distance }
                &&& c.look_at == if o.look_at is Some { o.look_at } else { b.look_at }
            })
        }),
{
}

/// Law: a keyframe that references a pose the library lacks fails with that
/// name; one that both references a pose and lists joints is invalid.
pub proof fn lemma_bad_pose_reference_fails<S>(
    animation: Seq<char>,
    index: nat,
    k: KeyframeSpecView<S>,
    poses: Map<Seq<char>, Pose<S>>,
    n: Seq<char>,
)
    requires
        k.pose == Some(n),
    ensures
        k.joints is None && !poses.contains_key(n) ==> keyframe_pose(animation, index, k, poses) == Err::<
            PoseView<S>,
            KeyframeFailure,
        >(KeyframeFailure::UnknownPoseRef(n)),
        k.joints is Some ==> keyframe_pose(animation, index, k, poses) == Err::<PoseView<S>, KeyframeFailure>(
            KeyframeFailure::Invalid,
        ),
{
}

/// Law: a keyframe with inline joints and no pose reference resolves to a
/// pose named `"{animation}#{index}"` with exactly those joints, no
/// description, the keyframe's own camera and expressions, and a sparse
/// overlay only when the keyframe asks for `hold`.
pub proof fn lemma_inline_keyframe_content<S>(
    animation: Seq<char>,
    index: nat,
    k: KeyframeSpecView<S>,
    poses: Map<Seq<char>, Pose<S>>,
    j: Map<Seq<char>, JointTarget<S>>,
)
    requires
        k.pose is None,
        k.joints == Some(j),
    ensures
        keyframe_pose(animation, index, k, poses) is Ok,
        ({
            let r = keyframe_pose(animation, index, k, poses)->Ok_0;
            &&& r.name == animation + seq!['#'] + decimal(index)
            &&& r.description is None
            &&& r.joints == j
            &&& r.camera == k.camera
            &&& r.expressions == match k.expressions {
                Some(e) => e,
                None => Map::empty(),
            }
            &&& r.hold_joints == (k.hold == Some(true))
        }),
{
    match k.expressions {
        Some(e) => {
            assert(Map::<Seq<char>, S>::empty().union_prefer_right(e) =~= e);
        },
        None => {},
    }
}

/// Law: a keyframe with neither pose reference nor joints holds the body
/// still (empty joints, sparse overlay) when it moves the camera or the
/// face, and is invalid otherwise.
pub proof fn lemma_hold_only_keyframe<S>(
    animation: Seq<char>,
    index: nat,
    k: KeyframeSpecView<S>,
    poses: Map<Seq<char>, Pose<S>>,
)
    requires
        k.pose is None,
        k.joints is None,
    ensures
        (k.camera is Some || (k.expressions matches Some(e) && e.len() > 0)) ==> (keyframe_pose(
            animation,
            index,
            k,
            poses,
        ) matches Ok(r) && r.joints == Map::<Seq<char>, JointTarget<S>>::empty() && r.hold_joints
            && r.camera == k.camera && r.name == animation + seq!['#'] + decimal(index)),
        !(k.camera is Some || (k.expressions matches Some(e) && e.len() > 0)) ==> keyframe_pose(
            animation,
            index,
            k,
            poses,
        ) == Err::<PoseView<S>, KeyframeFailure>(KeyframeFailure::Invalid),
{
}

/// Keyframe `i` is the first of `ks` that fails to resolve, and `e` reports
/// its failure.
pub open spec fn first_failure_at<S>(
    animation: Seq<char>,
    ks: Seq<KeyframeSpec<S>>,
    poses: Map<Seq<char>, Pose<S>>,
    i: int,
    e: YamlLoadError,
) -> bool {
    &&& 0 <= i < ks.len()
    &&& forall|j: int| 0 <= j < i ==> #[trigger] keyframe_pose(animation, j as nat, ks[j]@, poses) is Ok
    &&& match keyframe_pose(animation, i as nat, ks[i]@, poses) {
        Err(f) => error_reports(e, animation, i, f),
        Ok(_) => false,
    }
}

fn inline_name(animation_name: &str, index: usize) -> (s: String)
    ensures
        s@ == inline_pose_name(animation_name@, index as nat),
{
    let mut cs = chars_of(animation_name);
    cs.push('#');
    let mut digits = decimal_chars(index);
    cs.append(&mut digits);
    string_from_chars(cs.as_slice())
}

/// Materializes keyframe `index` of `animation_name` into a concrete pose
/// (see [`keyframe_pose`]).
pub fn resolve_keyframe_pose<S: Copy>(
    animation_name: &str,
    index: usize,
    spec: &KeyframeSpec<S>,
    poses: &NamedMap<Pose<S>>,
) -> (r: Result<Pose<S>, YamlLoadError>)
    ensures
        match keyframe_pose(animation_name@, index as nat, spec@, poses@) {
            Ok(p) => r matches Ok(q) && q@ == p,
            Err(f) => r matches Err(e) && error_reports(e, animation_name@, index as int, f),
        },
{
    let has_expr = match &spec.expressions {
        Some(e) => !e.is_empty(),
        None => false,
    };
    let mut pose: Pose<S> = match (&spec.pose, &spec.joints) {
        (Some(name), None) => {
            let key = chars_of(name.as_str());
            match poses.get(key.as_slice()) {
                Some(p) => p.duplicate(),
                None => {
                    return Err(
                        YamlLoadError::UnknownPoseRef {
                            animation: String::from_str(animation_name),
                            index,
                            pose_name: name.clone(),
                        },
                    );
                },
            }
        },
        (None, Some(joints)) => Pose {
            name: inline_name(animation_name, index),
            description: None,
            joints: joints.duplicate(),
            camera: None,
            expressions: NamedMap::new(),
            hold_joints: false,
        },
        (None, None) => {
            if spec.camera.is_some() || has_expr {
                Pose {
                    name: inline_name(animation_name, index),
                    description: None,
                    joints: NamedMap::new(),
                    camera: None,
                    expressions: NamedMap::new(),
                    hold_joints: true,
                }
            } else {
                return Err(
                    YamlLoadError::InvalidKeyframe {
                        animation: String::from_str(animation_name),
                        index,
                    },
                );
            }
        },
        (Some(_), Some(_)) => {
            return Err(
                YamlLoadError::InvalidKeyframe { animation: String::from_str(animation_name), index },
            );
        },
    };
    if spec.hold == Some(true) {
        pose.hold_joints = true;
    }
    pose.camera = merge_camera_targets(pose.camera, spec.camera);
    match &spec.expressions {
        Some(e) => pose.expressions.extend_from(e),
        None => {},
    }
    Ok(pose)
}

/// Resolves an authored animation against a pose registry, keyframe by
/// keyframe; the first keyframe that fails to resolve is reported.
pub fn resolve_animation<S: Copy>(file: AnimationFile<S>, poses: &NamedMap<Pose<S>>) -> (r: Result<
    Animation<S>,
    YamlLoadError,
>)
    ensures
        match r {
            Ok(a) => {
                &&& a.name@ == file.name@
                &&& opt_view(a.description) == opt_view(file.description)
                &&& a.looping == file.looping
                &&& a.vrm_local_rotations == file.vrm_local_rotations
                &&& a.play_automatically == file.play_automatically
                &&& a.keyframes@.len() == file.keyframes@.len()
                &&& forall|i: int|
                    0 <= i < file.keyframes@.len() ==> {
                        let k = #[trigger] a.keyframes@[i];
                        let s = file.keyframes@[i];
                        &&& keyframe_pose(file.name@, i as nat, s@, poses@) == Ok::<PoseView<S>, KeyframeFailure>(k.pose@)
                        &&& k.duration_ms == s.duration_ms
                        &&& k.easing == s.easing
                        &&& k.authoring@ == s@
                    }
            },
            Err(e) => exists|i: int| #[trigger] first_failure_at(file.name@, file.keyframes@, poses@, i, e),
        },
{
    let mut keyframes: Vec<Keyframe<S>> = Vec::new();
    let mut i: usize = 0;
    while i < file.keyframes.len()
        invariant
            i <= file.keyframes@.len(),
            keyframes@.len() == i,
            forall|j: int|
                0 <= j < i ==> {
                    let k = #[trigger] keyframes@[j];
                    let s = file.keyframes@[j];
                    &&& keyframe_pose(file.name@, j as nat, s@, poses@) == Ok::<PoseView<S>, KeyframeFailure>(k.pose@)
                    &&& k.duration_ms == s.duration_ms
                    &&& k.easing == s.easing
                    &&& k.authoring@ == s@
                },
        decreases file.keyframes@.len() - i,
    {
        let spec = &file.keyframes[i];
        match resolve_keyframe_pose(file.name.as_str(), i, spec, poses) {
            Ok(pose) => {
                keyframes.push(
                    Keyframe {
                        pose,
                        duration_ms: spec.duration_ms,
                        easing: spec.easing,
                        authoring: spec.duplicate(),
                    },
                );
            },
            Err(e) => {
                proof {
                    assert forall|j: int| 0 <= j < i implies #[trigger] keyframe_pose(
                        file.name@,
                        j as nat,
                        file.keyframes@[j]@,
                        poses@,
                    ) is Ok by {
                        let k = keyframes@[j];
                    }
                    assert(first_failure_at(file.name@, file.keyframes@, poses@, i as int, e));
                }
                return Err(e);
            },
        }
        i = i + 1;
    }
    Ok(
        Animation {
            name: file.name,
            description: file.description,
            looping: file.looping,
            vrm_local_rotations: file.vrm_local_rotations,
            play_automatically: file.play_automatically,
            keyframes,
        },
    )
}

} // verus!

verus! {

/// Whether some keyframe of `file` names the pose `pose_name`.
pub fn references_pose<S>(file: &AnimationFile<S>, pose_name: &str) -> (b: bool)
    ensures
        b == exists|i: int|
            0 <= i < file.keyframes@.len() && opt_view(#[trigger] file.keyframes@[i].pose) == Some(pose_name@),
{
    let target = chars_of(pose_name);
    let mut i: usize = 0;
    while i < file.keyframes.len()
        invariant
            i <= file.keyframes@.len(),
            target@ == pose_name@,
            forall|j: int| 0 <= j < i ==> opt_view(#[trigger] file.keyframes@[j].pose) != Some(pose_name@),
        decreases file.keyframes@.len() - i,
    {
        match &file.keyframes[i].pose {
            Some(p) => {
                if chars_eq(chars_of(p.as_str()).as_slice(), target.as_slice()) {
                    assert(opt_view(file.keyframes@[i as int].pose) == Some(pose_name@));
                    return true;
                }
            },
            None => {},
        }
        i = i + 1;
    }
    false
}

/// The expression weights a hold (sparse overlay) target ends with: the
/// current weights, with those it lists replaced.
pub fn hold_overlay_expressions<W: Copy>(current: &NamedMap<W>, listed: &NamedMap<W>) -> (out: NamedMap<W>)
    ensures
        out@ == current@.union_prefer_right(listed@),
{
    let mut out = current.duplicate();
    out.extend_from(listed);
    out
}

} // verus!

verus! {

/// The text of a load error.
pub open spec fn load_error_text(e: YamlLoadError) -> Seq<char> {
    match e {
        YamlLoadError::ReadDir(p, r) => "failed to read directory '"@ + p@ + "': "@ + r@,
        YamlLoadError::ReadFile(p, r) => "failed to read file '"@ + p@ + "': "@ + r@,
        YamlLoadError::Parse(p, r) => "failed to parse yaml file '"@ + p@ + "': "@ + r@,
        YamlLoadError::UnknownPoseRef { animation, index, pose_name } => "animation '"@ + animation@
            + "' keyframe "@ + decimal(index as nat) + " references unknown pose '"@ + pose_name@
            + "'"@,
        YamlLoadError::InvalidKeyframe { animation, index } => "animation '"@ + animation@
            + "' keyframe "@ + decimal(index as nat)
            + " must set `pose`, `joints`, `camera`, and/or `expressions` (and must not set both `pose` and `joints`)"@,
    }
}

fn path_reason(before: &str, path: &String, reason: &String) -> (s: String)
    ensures
        s@ == before@ + path@ + "': "@ + reason@,
{
    let mut s = concat_str(before, path.as_str());
    s.append("': ");
    s.append(reason.as_str());
    s
}

impl YamlLoadError {
    /// The error as text (see [`load_error_text`]).
    pub fn message(&self) -> (s: String)
        ensures
            s@ == load_error_text(*self),
    {
        match self {
            YamlLoadError::ReadDir(p, r) => path_reason("failed to read directory '", p, r),
            YamlLoadError::ReadFile(p, r) => path_reason("failed to read file '", p, r),
            YamlLoadError::Parse(p, r) => path_reason("failed to parse yaml file '", p, r),
            YamlLoadError::UnknownPoseRef { animation, index, pose_name } => {
                let mut s = concat_str("animation '", animation.as_str());
                s.append("' keyframe ");
                let digits = decimal_chars(*index);
                s.append(string_from_chars(digits.as_slice()).as_str());
                s.append(" references unknown pose '");
                s.append(pose_name.as_str());
                s.append("'");
                s
            },
            YamlLoadError::InvalidKeyframe { animation, index } => {
                let mut s = concat_str("animation '", animation.as_str());
                s.append("' keyframe ");
                let digits = decimal_chars(*index);
                s.append(string_from_chars(digits.as_slice()).as_str());
                s.append(
                    " must set `pose`, `joints`, `camera`, and/or `expressions` (and must not set both `pose` and `joints`)",
                );
                s
            },
        }
    }
}

} // verus!
