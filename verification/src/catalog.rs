//! The capability catalog offered to agents: the curated pose and animation
//! boards, per-keyframe outlines, and the sorted pose and animation catalogs,
//! with how each library animation was authored.

use vstd::prelude::*;
use crate::model::{opt_map_view, opt_view, Animation, CameraTarget, Easing, JointTarget, Keyframe, Pose};
use crate::named_map::{lists, NamedMap};
use crate::text::{chars_of, contains_chars, contains_seq, lex_lt, str_eq};
use crate::timeline::seq_sum;
use crate::doll::{is_finger, is_finger_joint};

verus! {

/// Whether keyframe `k` plays a library pose (its pose's name is in the
/// registry).
pub open spec fn plays_library_pose<S>(k: Keyframe<S>, poses: Map<Seq<char>, Pose<S>>) -> bool {
    poses.contains_key(k.pose.name@)
}

/// Whether keyframe `k` plays a pose synthesized for it (not a library pose,
/// and named `animation#index`).
pub open spec fn plays_synthesized_pose<S>(k: Keyframe<S>, poses: Map<Seq<char>, Pose<S>>) -> bool {
    !plays_library_pose(k, poses) && contains_seq(k.pose.name@, seq!['#'])
}

/// Whether keyframe `k` lists joints inline.
pub open spec fn is_inline_joints<S>(k: Keyframe<S>, poses: Map<Seq<char>, Pose<S>>) -> bool {
    plays_synthesized_pose(k, poses) && k.pose.joints@.len() > 0
}

/// Whether keyframe `k` only moves the camera or the face (no joints, body
/// held).
pub open spec fn is_camera_only<S>(k: Keyframe<S>, poses: Map<Seq<char>, Pose<S>>) -> bool {
    plays_synthesized_pose(k, poses) && k.pose.joints@.len() == 0 && k.pose.hold_joints
}

/// The authoring pattern of an animation: an imported clip, inline joints,
/// camera-only moves, library poses with camera moves, or plain library-pose
/// choreography.
pub open spec fn pattern_of<S>(a: Animation<S>, poses: Map<Seq<char>, Pose<S>>) -> Seq<char> {
    let ks = a.keyframes@;
    let has_ref = exists|i: int| 0 <= i < ks.len() && plays_library_pose(#[trigger] ks[i], poses);
    let has_inline = exists|i: int| 0 <= i < ks.len() && is_inline_joints(#[trigger] ks[i], poses);
    let has_cam = exists|i: int| 0 <= i < ks.len() && is_camera_only(#[trigger] ks[i], poses);
    if a.vrm_local_rotations {
        "vrma_import"@
    } else if has_inline {
        "inline_joints"@
    } else if has_cam && !has_ref {
        "camera_only"@
    } else if has_ref && has_cam {
        "pose_ref_plus_camera"@
    } else {
        "pose_ref_choreography"@
    }
}

/// Classifies an animation for the capability catalog (see [`pattern_of`]).
pub fn animation_pattern<S>(animation: &Animation<S>, poses: &NamedMap<Pose<S>>) -> (p: &'static str)
    ensures
        p@ == pattern_of(*animation, poses@),
{
    if animation.vrm_local_rotations {
        return "vrma_import";
    }
    let ghost ks = animation.keyframes@;
    let ghost pm = poses@;
    let hash = chars_of("#");
    proof {
        reveal_strlit("#");
    }
    assert(hash@ =~= seq!['#']);
    let mut has_inline = false;
    let mut has_ref = false;
    let mut has_cam = false;
    let mut i: usize = 0;
    while i < animation.keyframes.len()
        invariant
            i <= ks.len(),
            ks == animation.keyframes@,
            pm == poses@,
            hash@ == seq!['#'],
            has_ref == exists|j: int| 0 <= j < i && plays_library_pose(#[trigger] ks[j], pm),
            has_inline == exists|j: int| 0 <= j < i && is_inline_joints(#[trigger] ks[j], pm),
            has_cam == exists|j: int| 0 <= j < i && is_camera_only(#[trigger] ks[j], pm),
        decreases ks.len() - i,
    {
        let kf = &animation.keyframes[i];
        let name = chars_of(kf.pose.name.as_str());
        if poses.contains_key(name.as_slice()) {
            has_ref = true;
        } else if contains_chars(name.as_slice(), hash.as_slice()) {
            if kf.pose.joints.is_empty() && kf.pose.hold_joints {
                has_cam = true;
            } else if !kf.pose.joints.is_empty() {
                has_inline = true;
            }
        }
        assert(ks[i as int] == *kf);
        i = i + 1;
    }
    if has_inline {
        "inline_joints"
    } else if has_cam && !has_ref {
        "camera_only"
    } else if has_ref && has_cam {
        "pose_ref_plus_camera"
    } else {
        "pose_ref_choreography"
    }
}

// ---------------------------------------------------------------------------
// Curated boards

/// Curated example poses and what each demonstrates; entries missing from
/// the live library are skipped.
pub const EXAMPLE_POSE_BOARD: [(&'static str, &'static str); 13] = [
    (
        "wave",
        "cartoon wave: mild right_shoulder.z (~-22, NOT -55) + elbow z (~-72) for an L-shape, plus positive shoulder y (~50) so the palm faces the camera. Pair with wave_return for wave_animation. Pitfall: large negative shoulder z with a deep elbow fold parks the hand on the head (see think).",
    ),
    (
        "hands_on_hips",
        "mirrored-sign convention: equal magnitude, opposite sign — right_shoulder.z=+45 with left_shoulder.z=-45 puts a hand on each hip.",
    ),
    (
        "idle",
        "asymmetric full-body pose (arm + knee + pelvis) — also the IdleRevert default after inactivity. Clears VRM expression weights so leftover morphs fade out.",
    ),
    (
        "victory",
        "both arms raised: right_shoulder.z negative, left_shoulder.z positive (mirrored raise from T-pose).",
    ),
    (
        "think",
        "hand near temple: positive shoulder y (forward) + raise z + deep elbow bend. Contrast with wave — same axes, much deeper elbow / more raise = head contact.",
    ),
    (
        "shrug",
        "clavicle + mirrored shoulder/elbow rotations for a shoulders-up shrug.",
    ),
    (
        "point",
        "arm forward toward camera: right_shoulder.y is POSITIVE (~+75; negative y points behind the body). Pair with point_hero for a push-in. Index extended; other digits curled. Verify with a side-camera screenshot (yaw ~75), not only front.",
    ),
    (
        "peace_sign_right",
        "v2 finger exemplar: right index + middle extended, ring/little + thumb curled. Author finger joints (*_proximal/*_intermediate/*_distal) the same way as body joints.",
    ),
    (
        "head_turn_left",
        "head turn without arm gesture: neck.y ≈ +42° (left). Arms stay in mild T-pose offsets. Close-up face framing in YAML camera (distance ~1.85, look_at y ~1.35). Pair with head_turn_right for say_no.",
    ),
    (
        "head_nod_down",
        "nod down: neck +x with soft knee dip (see joints). Rebound with head_nod_up. Keyframe pair for say_yes.",
    ),
    (
        "squat",
        "deep squat leg recipe: hip x ~-52, knee x ~+102, ankle x ~+32, mirrored hip z. Root does not translate — frame with lower look_at y (~0.55) so the pose reads on screen.",
    ),
    (
        "cross_arms",
        "folded arms: strong forward shoulder y (±80) + mild z (±25) + elbow z (±85). Copy camera block for upper-body close-ups (distance ~2.1).",
    ),
    (
        "contrapposto",
        "weight-shift stance: pelvis z cock + opposite knee soft bend — copy for standing personality poses before gestures.",
    ),
];

/// Curated example animations: name, authoring pattern, and what each
/// demonstrates. Imported clips carry the pattern `vrma_import`.
pub const EXAMPLE_ANIMATION_BOARD: [(&'static str, &'static str, &'static str); 8] = [
    (
        "wave_animation",
        "pose_ref_choreography",
        "Simplest loop: only pose names (idle → wave ↔ wave_return). No inline joints. Segment timing 200–550 ms; ease_out on entries, ease_in_out on oscillation.",
    ),
    (
        "say_yes",
        "pose_ref_choreography",
        "Head-only yes: idle → head_nod_down/up twice → idle. Face close-up camera on bookends (yaw ~12°, distance ~2.0, look_at y ~1.28). Nod segments 220–260 ms.",
    ),
    (
        "say_no",
        "pose_ref_choreography",
        "Head shake: alternate head_turn_left / head_turn_right with short ease_in_out segments (~180–220 ms). No invented neck angles — reuse the poses.",
    ),
    (
        "happy_bounce",
        "pose_ref_plus_expressions",
        "Cheer template: pose refs (hands_on_hips → victory → fist_pump) + expression overlays; blink uses hold:true + step (~90 ms). Camera bounce on each beat.",
    ),
    (
        "finger_emote",
        "inline_joints_plus_expressions",
        "Hand-led emote: inline finger/shoulder joints on keyframes + VRM morphs. Hand close-up camera (yaw ~15°, distance ~2.2, look_at [0.15, 1.35, 0]). Copy for new finger cheers — do not guess finger angles from scratch.",
    ),
    (
        "point_hero",
        "camera_choreography",
        "Establish wide → point close-up → blink overlay → pull back. Pose refs carry finger shape; camera drives the hero moment (distance 5.2 → ~2.4).",
    ),
    (
        "orbit_victory",
        "camera_only_holds",
        "Body holds victory while camera-only keyframes orbit (yaw steps ~90°). Use empty pose + camera blocks; duration 850 ms on orbit segment with linear easing.",
    ),
    (
        "vrma_clapping",
        "vrma_import",
        "Imported mocap: thousands of quaternion keyframes. Trigger with POST /animation {\"name\":\"vrma_clapping\"} or POST /import/vrma — never author this by hand.",
    ),
];

/// Whether `name` is on the pose board.
pub open spec fn on_pose_board(name: Seq<char>) -> bool {
    exists|i: int| 0 <= i < 13 && #[trigger] EXAMPLE_POSE_BOARD[i].0@ == name
}

/// Whether `name` is on the animation board.
pub open spec fn on_animation_board(name: Seq<char>) -> bool {
    exists|i: int| 0 <= i < 8 && #[trigger] EXAMPLE_ANIMATION_BOARD[i].0@ == name
}

pub fn is_on_pose_board(name: &str) -> (b: bool)
    ensures
        b == on_pose_board(name@),
{
    let board = EXAMPLE_POSE_BOARD;
    let mut i: usize = 0;
    while i < 13
        invariant
            i <= 13,
            board == EXAMPLE_POSE_BOARD,
            forall|j: int| 0 <= j < i ==> #[trigger] EXAMPLE_POSE_BOARD[j].0@ != name@,
        decreases 13 - i,
    {
        if str_eq(board[i].0, name) {
            return true;
        }
        i = i + 1;
    }
    false
}

pub fn is_on_animation_board(name: &str) -> (b: bool)
    ensures
        b == on_animation_board(name@),
{
    let board = EXAMPLE_ANIMATION_BOARD;
    let mut i: usize = 0;
    while i < 8
        invariant
            i <= 8,
            board == EXAMPLE_ANIMATION_BOARD,
            forall|j: int| 0 <= j < i ==> #[trigger] EXAMPLE_ANIMATION_BOARD[j].0@ != name@,
        decreases 8 - i,
    {
        if str_eq(board[i].0, name) {
            return true;
        }
        i = i + 1;
    }
    false
}

// ---------------------------------------------------------------------------
// Keyframe outlines

/// What a keyframe does, in brief.
#[derive(Debug)]
pub struct KeyframeOutline<S> {
    pub duration_ms: u32,
    pub easing: Easing,
    /// The library pose it plays.
    pub pose_ref: Option<String>,
    /// How many joints its synthesized pose lists, when it lists any.
    pub inline_joint_count: Option<usize>,
    /// Its synthesized pose holds the body.
    pub hold: bool,
    /// Its camera patch, when that sets any field.
    pub camera: Option<CameraTarget<S>>,
    /// Its face weights, when there are any.
    pub expressions: Option<NamedMap<S>>,
}

/// Whether a camera patch sets any field.
pub open spec fn sets_any<S>(c: CameraTarget<S>) -> bool {
    c.yaw_deg is Some || c.pitch_deg is Some || c.distance is Some || c.look_at is Some
}

/// Whether `o` outlines keyframe `kf` over the pose library `poses`: its
/// timing; the library pose it plays, or for a synthesized pose how many
/// joints it lists and whether it holds the body; the camera patch if it
/// sets anything; the face weights if there are any.
pub open spec fn is_outline_of<S>(o: KeyframeOutline<S>, kf: Keyframe<S>, poses: Map<Seq<char>, Pose<S>>) -> bool {
    &&& o.duration_ms == kf.duration_ms
    &&& o.easing == kf.easing
    &&& opt_view(o.pose_ref) == if plays_library_pose(kf, poses) {
        Some(kf.pose.name@)
    } else {
        None
    }
    &&& o.inline_joint_count == if plays_synthesized_pose(kf, poses) && kf.pose.joints@.len() > 0 {
        Some(kf.pose.joints@.len() as usize)
    } else {
        None
    }
    &&& o.hold == (plays_synthesized_pose(kf, poses) && kf.pose.hold_joints)
    &&& o.camera == match kf.pose.camera {
        Some(c) => if sets_any(c) {
            Some(c)
        } else {
            None
        },
        None => None,
    }
    &&& opt_map_view(o.expressions) == if kf.pose.expressions@.len() > 0 {
        Some(kf.pose.expressions@)
    } else {
        None
    }
}

/// Outlines keyframe `kf` of an animation over the pose library `poses`.
pub fn keyframe_outline<S: Copy>(kf: &Keyframe<S>, poses: &NamedMap<Pose<S>>) -> (o: KeyframeOutline<S>)
    ensures
        is_outline_of(o, *kf, poses@),
{
    let name = chars_of(kf.pose.name.as_str());
    let hash = chars_of("#");
    proof {
        reveal_strlit("#");
    }
    assert(hash@ =~= seq!['#']);
    let mut pose_ref: Option<String> = None;
    let mut inline_joint_count: Option<usize> = None;
    let mut hold = false;
    if poses.contains_key(name.as_slice()) {
        pose_ref = Some(kf.pose.name.clone());
    } else if contains_chars(name.as_slice(), hash.as_slice()) {
        if !kf.pose.joints.is_empty() {
            inline_joint_count = Some(kf.pose.joints.len());
        }
        if kf.pose.hold_joints {
            hold = true;
        }
    }
    let camera = match kf.pose.camera {
        Some(c) => if c.yaw_deg.is_some() || c.pitch_deg.is_some() || c.distance.is_some() || c.look_at.is_some() {
            Some(c)
        } else {
            None
        },
        None => None,
    };
    let expressions = if kf.pose.expressions.is_empty() {
        None
    } else {
        Some(kf.pose.expressions.duplicate())
    };
    KeyframeOutline {
        duration_ms: kf.duration_ms,
        easing: kf.easing,
        pose_ref,
        inline_joint_count,
        hold,
        camera,
        expressions,
    }
}

/// The sum of every keyframe's duration.
pub open spec fn total_duration<S>(a: Animation<S>) -> nat {
    seq_sum(a.keyframes@.map_values(|k: Keyframe<S>| k.duration_ms))
}

/// The sum of every keyframe's duration of `animation`.
pub fn total_duration_ms<S>(animation: &Animation<S>) -> (t: u32)
    requires
        total_duration(*animation) <= u32::MAX,
    ensures
        t == total_duration(*animation),
{
    let ghost d = animation.keyframes@.map_values(|k: Keyframe<S>| k.duration_ms);
    let mut total: u32 = 0;
    let mut i: usize = 0;
    while i < animation.keyframes.len()
        invariant
            i <= d.len(),
            d == animation.keyframes@.map_values(|k: Keyframe<S>| k.duration_ms),
            seq_sum(d) <= u32::MAX,
            total == seq_sum(d.subrange(0, i as int)),
        decreases d.len() - i,
    {
        proof {
            assert(d.subrange(0, i + 1).drop_last() =~= d.subrange(0, i as int));
            lemma_sum_prefix(d, i + 1);
        }
        total = total + animation.keyframes[i].duration_ms;
        i = i + 1;
    }
    assert(d.subrange(0, d.len() as int) =~= d);
    total
}

/// A prefix sums to no more than the whole.
pub proof fn lemma_sum_prefix(d: Seq<u32>, n: int)
    requires
        0 <= n <= d.len(),
    ensures
        seq_sum(d.subrange(0, n)) <= seq_sum(d),
    decreases d.len() - n,
{
    if n < d.len() {
        lemma_sum_prefix(d, n + 1);
        assert(d.subrange(0, n + 1).drop_last() =~= d.subrange(0, n));
    } else {
        assert(d.subrange(0, n) =~= d);
    }
}

// ---------------------------------------------------------------------------
// Example boards

/// A pose-board entry: the library pose and what it demonstrates.
#[derive(Debug)]
pub struct PoseBoardEntry<S> {
    pub name: String,
    pub demonstrates: &'static str,
    pub description: Option<String>,
    pub joints: NamedMap<JointTarget<S>>,
    pub expressions: NamedMap<S>,
    pub camera: Option<CameraTarget<S>>,
}

/// Positions, among the first `n` of `names`, of the names `lib` holds.
pub open spec fn present<V>(names: Seq<Seq<char>>, lib: Map<Seq<char>, V>, n: int) -> Seq<int>
    decreases n,
{
    if n <= 0 {
        Seq::empty()
    } else {
        let r = present(names, lib, n - 1);
        if lib.contains_key(names[n - 1]) {
            r.push(n - 1)
        } else {
            r
        }
    }
}

pub open spec fn pose_board_names() -> Seq<Seq<char>> {
    Seq::new(13, |i: int| EXAMPLE_POSE_BOARD[i].0@)
}

pub open spec fn animation_board_names() -> Seq<Seq<char>> {
    Seq::new(8, |i: int| EXAMPLE_ANIMATION_BOARD[i].0@)
}

/// Whether `e` shows board entry `b` with its library pose `p`.
pub open spec fn shows_pose<S>(e: PoseBoardEntry<S>, b: int, p: Pose<S>) -> bool {
    &&& e.name@ == p.name@
    &&& e.demonstrates@ == EXAMPLE_POSE_BOARD[b].1@
    &&& opt_view(e.description) == opt_view(p.description)
    &&& e.joints@ == p.joints@
    &&& e.expressions@ == p.expressions@
    &&& e.camera == p.camera
}

/// The pose board: each curated pose the library holds, in board order.
pub fn build_example_poses<S: Copy>(poses: &NamedMap<Pose<S>>) -> (r: Vec<PoseBoardEntry<S>>)
    ensures
        ({
            let ix = present(pose_board_names(), poses@, 13);
            &&& r@.len() == ix.len()
            &&& forall|k: int| 0 <= k < ix.len() ==> shows_pose(#[trigger] r@[k], ix[k], poses@[pose_board_names()[ix[k]]])
        }),
{
    let board = EXAMPLE_POSE_BOARD;
    let ghost names = pose_board_names();
    let mut r: Vec<PoseBoardEntry<S>> = Vec::new();
    let mut i: usize = 0;
    while i < 13
        invariant
            i <= 13,
            board == EXAMPLE_POSE_BOARD,
            names == pose_board_names(),
            r@.len() == present(names, poses@, i as int).len(),
            forall|k: int| 0 <= k < r@.len() ==> shows_pose(#[trigger] r@[k], present(names, poses@, i as int)[k], poses@[names[present(names, poses@, i as int)[k]]]),
            forall|k: int| 0 <= k < present(names, poses@, i as int).len() ==> 0 <= #[trigger] present(names, poses@, i as int)[k] < i,
        decreases 13 - i,
    {
        let ghost prev = present(names, poses@, i as int);
        assert(names[i as int] == board[i as int].0@);
        match poses.get(chars_of(board[i].0).as_slice()) {
            Some(p) => {
                r.push(PoseBoardEntry {
                    name: p.name.clone(),
                    demonstrates: board[i].1,
                    description: crate::model::clone_opt_string(&p.description),
                    joints: p.joints.duplicate(),
                    expressions: p.expressions.duplicate(),
                    camera: p.camera,
                });
                assert(present(names, poses@, i + 1) == prev.push(i as int));
            },
            None => {
                assert(present(names, poses@, i + 1) == prev);
            },
        }
        i = i + 1;
    }
    r
}

/// An animation-board entry: the library animation in brief.
#[derive(Debug)]
pub struct AnimationBoardEntry<S> {
    pub name: String,
    pub pattern: &'static str,
    pub demonstrates: &'static str,
    pub description: Option<String>,
    pub keyframe_count: usize,
    pub total_duration_ms: u32,
    pub vrm_local_rotations: bool,
    /// One outline per keyframe; empty for an imported clip.
    pub keyframes_outline: Vec<KeyframeOutline<S>>,
    /// For an imported clip: how to use it instead of copying it.
    pub note: Option<&'static str>,
}

pub const VRMA_BOARD_NOTE: &'static str = "VRMA import — use POST /animation or POST /import/vrma; do not copy quaternions into new clips";

/// Whether `e` shows board entry `b` with its library animation `a`.
pub open spec fn shows_animation<S>(e: AnimationBoardEntry<S>, b: int, a: Animation<S>, poses: Map<Seq<char>, Pose<S>>) -> bool {
    &&& e.name@ == a.name@
    &&& e.pattern@ == if EXAMPLE_ANIMATION_BOARD[b].1@ != "vrma_import"@ {
        EXAMPLE_ANIMATION_BOARD[b].1@
    } else {
        pattern_of(a, poses)
    }
    &&& e.demonstrates@ == EXAMPLE_ANIMATION_BOARD[b].2@
    &&& opt_view(e.description) == opt_view(a.description)
    &&& e.keyframe_count == a.keyframes@.len()
    &&& e.total_duration_ms == total_duration(a)
    &&& e.vrm_local_rotations == a.vrm_local_rotations
    &&& if a.vrm_local_rotations {
        &&& e.keyframes_outline@.len() == 0
        &&& e.note == Some(VRMA_BOARD_NOTE)
    } else {
        &&& e.keyframes_outline@.len() == a.keyframes@.len()
        &&& forall|i: int| 0 <= i < a.keyframes@.len() ==> is_outline_of(#[trigger] e.keyframes_outline@[i], a.keyframes@[i], poses)
        &&& e.note is None
    }
}

/// Outlines of every keyframe of `a`.
fn outlines<S: Copy>(a: &Animation<S>, poses: &NamedMap<Pose<S>>) -> (r: Vec<KeyframeOutline<S>>)
    ensures
        r@.len() == a.keyframes@.len(),
        forall|i: int| 0 <= i < a.keyframes@.len() ==> is_outline_of(#[trigger] r@[i], a.keyframes@[i], poses@),
{
    let mut r: Vec<KeyframeOutline<S>> = Vec::new();
    let mut i: usize = 0;
    while i < a.keyframes.len()
        invariant
            i <= a.keyframes@.len(),
            r@.len() == i,
            forall|j: int| 0 <= j < i ==> is_outline_of(#[trigger] r@[j], a.keyframes@[j], poses@),
        decreases a.keyframes@.len() - i,
    {
        r.push(keyframe_outline(&a.keyframes[i], poses));
        i = i + 1;
    }
    r
}

/// The animation board: each curated animation the library holds, in board
/// order, with its keyframes outlined (imported clips get a note instead).
pub fn build_example_animations<S: Copy>(
    animations: &NamedMap<Animation<S>>,
    poses: &NamedMap<Pose<S>>,
) -> (r: Vec<AnimationBoardEntry<S>>)
    requires
        forall|k: Seq<char>| #[trigger] animations@.contains_key(k) ==> total_duration(animations@[k]) <= u32::MAX,
    ensures
        ({
            let ix = present(animation_board_names(), animations@, 8);
            &&& r@.len() == ix.len()
            &&& forall|k: int| 0 <= k < ix.len() ==> shows_animation(#[trigger] r@[k], ix[k], animations@[animation_board_names()[ix[k]]], poses@)
        }),
{
    let board = EXAMPLE_ANIMATION_BOARD;
    let ghost names = animation_board_names();
    let mut r: Vec<AnimationBoardEntry<S>> = Vec::new();
    let mut i: usize = 0;
    while i < 8
        invariant
            i <= 8,
            board == EXAMPLE_ANIMATION_BOARD,
            names == animation_board_names(),
            forall|k: Seq<char>| #[trigger] animations@.contains_key(k) ==> total_duration(animations@[k]) <= u32::MAX,
            r@.len() == present(names, animations@, i as int).len(),
            forall|k: int| 0 <= k < r@.len() ==> shows_animation(#[trigger] r@[k], present(names, animations@, i as int)[k], animations@[names[present(names, animations@, i as int)[k]]], poses@),
            forall|k: int| 0 <= k < present(names, animations@, i as int).len() ==> 0 <= #[trigger] present(names, animations@, i as int)[k] < i,
        decreases 8 - i,
    {
        let ghost prev = present(names, animations@, i as int);
        assert(names[i as int] == board[i as int].0@);
        match animations.get(chars_of(board[i].0).as_slice()) {
            Some(a) => {
                let pattern = if !str_eq(board[i].1, "vrma_import") {
                    board[i].1
                } else {
                    animation_pattern(a, poses)
                };
                let (keyframes_outline, note) = if a.vrm_local_rotations {
                    (Vec::new(), Some(VRMA_BOARD_NOTE))
                } else {
                    (outlines(a, poses), None)
                };
                r.push(AnimationBoardEntry {
                    name: a.name.clone(),
                    pattern,
                    demonstrates: board[i].2,
                    description: crate::model::clone_opt_string(&a.description),
                    keyframe_count: a.keyframes.len(),
                    total_duration_ms: total_duration_ms(a),
                    vrm_local_rotations: a.vrm_local_rotations,
                    keyframes_outline,
                    note,
                });
                assert(present(names, animations@, i + 1) == prev.push(i as int));
            },
            None => {
                assert(present(names, animations@, i + 1) == prev);
            },
        }
        i = i + 1;
    }
    r
}

// ---------------------------------------------------------------------------
// Catalogs

/// `ks` lists the keys of `m` in ascending order.
pub open spec fn ascending_keys<V>(ks: Seq<Seq<char>>, m: Map<Seq<char>, V>) -> bool {
    &&& forall|i: int, j: int| 0 <= i < j < ks.len() ==> lex_lt(#[trigger] ks[i], #[trigger] ks[j])
    &&& forall|k: Seq<char>| #[trigger] m.contains_key(k) <==> ks.contains(k)
}

/// The keys of `m`, in ascending order, as character sequences.
fn ascending<V>(m: &NamedMap<V>) -> (r: Vec<Vec<char>>)
    ensures
        ascending_keys(r@.map_values(|k: Vec<char>| k@), m@),
{
    let r = m.sorted_keys();
    let ghost ks = r@.map_values(|k: Vec<char>| k@);
    assert forall|k: Seq<char>| #[trigger] m@.contains_key(k) <==> ks.contains(k) by {
        if m@.contains_key(k) {
            let a = choose|a: int| 0 <= a < r@.len() && #[trigger] r@[a]@ == k;
            assert(ks[a] == k);
        }
        if ks.contains(k) {
            let a = choose|a: int| 0 <= a < ks.len() && ks[a] == k;
            assert(r@[a]@ == k);
            assert(lists(r@, k));
        }
    }
    assert forall|i: int, j: int| 0 <= i < j < ks.len() implies lex_lt(#[trigger] ks[i], #[trigger] ks[j]) by {
        assert(ks[i] == r@[i]@ && ks[j] == r@[j]@);
    }
    r
}

/// One line of the pose catalog.
#[derive(Debug)]
pub struct PoseCatalogEntry {
    pub name: String,
    pub description: Option<String>,
    pub joint_count: usize,
    pub has_camera: bool,
    pub has_expressions: bool,
    pub on_pose_board: bool,
}

/// Whether `e` summarizes pose `p`.
pub open spec fn describes_pose<S>(e: PoseCatalogEntry, p: Pose<S>) -> bool {
    &&& e.name@ == p.name@
    &&& opt_view(e.description) == opt_view(p.description)
    &&& e.joint_count == p.joints@.len()
    &&& e.has_camera == p.camera is Some
    &&& e.has_expressions == (p.expressions@.len() > 0)
    &&& e.on_pose_board == on_pose_board(p.name@)
}

/// Every library pose in brief, in ascending order of library name.
pub fn build_pose_catalog<S>(poses: &NamedMap<Pose<S>>) -> (r: Vec<PoseCatalogEntry>)
    ensures
        exists|ks: Seq<Seq<char>>| #[trigger] ascending_keys(ks, poses@) && r@.len() == ks.len()
            && forall|i: int| 0 <= i < ks.len() ==> describes_pose(#[trigger] r@[i], poses@[ks[i]]),
{
    let names = ascending(poses);
    let ghost ks = names@.map_values(|k: Vec<char>| k@);
    let mut r: Vec<PoseCatalogEntry> = Vec::new();
    let mut i: usize = 0;
    while i < names.len()
        invariant
            i <= names@.len(),
            ks == names@.map_values(|k: Vec<char>| k@),
            ascending_keys(ks, poses@),
            r@.len() == i,
            forall|j: int| 0 <= j < i ==> describes_pose(#[trigger] r@[j], poses@[ks[j]]),
        decreases names@.len() - i,
    {
        assert(ks.contains(ks[i as int]));
        let p = match poses.get(names[i].as_slice()) {
            Some(p) => p,
            None => {
                assert(false);
                return r;
            },
        };
        r.push(PoseCatalogEntry {
            name: p.name.clone(),
            description: crate::model::clone_opt_string(&p.description),
            joint_count: p.joints.len(),
            has_camera: p.camera.is_some(),
            has_expressions: !p.expressions.is_empty(),
            on_pose_board: is_on_pose_board(p.name.as_str()),
        });
        i = i + 1;
    }
    r
}

/// One line of the animation catalog.
#[derive(Debug)]
pub struct AnimationCatalogEntry {
    pub name: String,
    pub description: Option<String>,
    pub pattern: &'static str,
    pub keyframe_count: usize,
    pub total_duration_ms: u32,
    pub vrm_local_rotations: bool,
    pub play_automatically: bool,
    pub on_animation_board: bool,
    pub authoring_hint: &'static str,
}

/// How an agent should treat the animation stored under `key`.
pub open spec fn authoring_hint(key: Seq<char>, a_vrm: bool) -> Seq<char> {
    if a_vrm {
        "play_only — import via VRMA"@
    } else if key == "new_animation"@ {
        "placeholder — prefer wave_animation or say_yes"@
    } else {
        "compose pose refs when possible"@
    }
}

/// Whether `e` summarizes the animation `a` stored under `key`.
pub open spec fn describes_animation<S>(
    e: AnimationCatalogEntry,
    key: Seq<char>,
    a: Animation<S>,
    poses: Map<Seq<char>, Pose<S>>,
) -> bool {
    &&& e.name@ == a.name@
    &&& opt_view(e.description) == opt_view(a.description)
    &&& e.pattern@ == pattern_of(a, poses)
    &&& e.keyframe_count == a.keyframes@.len()
    &&& e.total_duration_ms == total_duration(a)
    &&& e.vrm_local_rotations == a.vrm_local_rotations
    &&& e.play_automatically == a.play_automatically
    &&& e.on_animation_board == on_animation_board(a.name@)
    &&& e.authoring_hint@ == authoring_hint(key, a.vrm_local_rotations)
}

/// Every library animation in brief, in ascending order of library name.
pub fn build_animation_catalog<S>(
    animations: &NamedMap<Animation<S>>,
    poses: &NamedMap<Pose<S>>,
) -> (r: Vec<AnimationCatalogEntry>)
    requires
        forall|k: Seq<char>| #[trigger] animations@.contains_key(k) ==> total_duration(animations@[k]) <= u32::MAX,
    ensures
        exists|ks: Seq<Seq<char>>| #[trigger] ascending_keys(ks, animations@) && r@.len() == ks.len()
            && forall|i: int| 0 <= i < ks.len() ==> describes_animation(#[trigger] r@[i], ks[i], animations@[ks[i]], poses@),
{
    let names = ascending(animations);
    let ghost ks = names@.map_values(|k: Vec<char>| k@);
    let mut r: Vec<AnimationCatalogEntry> = Vec::new();
    let mut i: usize = 0;
    while i < names.len()
        invariant
            i <= names@.len(),
            ks == names@.map_values(|k: Vec<char>| k@),
            ascending_keys(ks, animations@),
            forall|k: Seq<char>| #[trigger] animations@.contains_key(k) ==> total_duration(animations@[k]) <= u32::MAX,
            r@.len() == i,
            forall|j: int| 0 <= j < i ==> describes_animation(#[trigger] r@[j], ks[j], animations@[ks[j]], poses@),
        decreases names@.len() - i,
    {
        assert(ks.contains(ks[i as int]));
        let a = match animations.get(names[i].as_slice()) {
            Some(a) => a,
            None => {
                assert(false);
                return r;
            },
        };
        let hint = if a.vrm_local_rotations {
            "play_only — import via VRMA"
        } else if crate::text::chars_eq(names[i].as_slice(), chars_of("new_animation").as_slice()) {
            "placeholder — prefer wave_animation or say_yes"
        } else {
            "compose pose refs when possible"
        };
        r.push(AnimationCatalogEntry {
            name: a.name.clone(),
            description: crate::model::clone_opt_string(&a.description),
            pattern: animation_pattern(a, poses),
            keyframe_count: a.keyframes.len(),
            total_duration_ms: total_duration_ms(a),
            vrm_local_rotations: a.vrm_local_rotations,
            play_automatically: a.play_automatically,
            on_animation_board: is_on_animation_board(a.name.as_str()),
            authoring_hint: hint,
        });
        i = i + 1;
    }
    r
}

// ---------------------------------------------------------------------------
// Finger joints

/// The names among `names` that name finger joints, in order.
pub open spec fn finger_names(names: Seq<Seq<char>>) -> Seq<Seq<char>>
    decreases names.len(),
{
    if names.len() == 0 {
        Seq::empty()
    } else if is_finger(names.last()) {
        finger_names(names.drop_last()).push(names.last())
    } else {
        finger_names(names.drop_last())
    }
}

/// The finger joints among the rig's joint names, in their order (the
/// `finger_joints` list of the capabilities document).
pub fn finger_joints(names: &[String]) -> (r: Vec<String>)
    ensures
        r@.map_values(|s: String| s@) == finger_names(names@.map_values(|s: String| s@)),
{
    let ghost ns = names@.map_values(|s: String| s@);
    let mut r: Vec<String> = Vec::new();
    let mut i: usize = 0;
    while i < names.len()
        invariant
            i <= names@.len(),
            ns == names@.map_values(|s: String| s@),
            r@.map_values(|s: String| s@) == finger_names(ns.subrange(0, i as int)),
        decreases names@.len() - i,
    {
        assert(ns.subrange(0, i + 1).drop_last() =~= ns.subrange(0, i as int));
        let ghost before = r@.map_values(|s: String| s@);
        if is_finger_joint(names[i].as_str()) {
            let name = names[i].clone();
            r.push(name);
            assert(r@.map_values(|s: String| s@) =~= before.push(ns[i as int]));
        }
        i = i + 1;
    }
    assert(ns.subrange(0, names@.len() as int) =~= ns);
    r
}

} // verus!
