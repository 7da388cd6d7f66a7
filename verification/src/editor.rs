//! Pose-editor logic: joint filtering and hints, confirmation prompts, the
//! status line, fresh draft names, and per-keyframe joint editing (base pose
//! plus delta overrides).

use vstd::prelude::*;
use crate::model::{KeyframeSpecView, AnimationFile, EulerDeg, JointTarget, KeyframeSpec, Pose};
use crate::named_map::NamedMap;
use crate::symmetry::{counterpart_chars, counterpart_of, set_rotation, set_rotation_in};
use crate::text::{ends_with, has_suffix, ascii_lower, ascii_lowercase, chars_eq, chars_of, concat_str, contains_chars, contains_seq, decimal, decimal_chars, string_from_chars, trim, trim_chars, copy_chars};

verus! {

// ---------------------------------------------------------------------------
// Joint tree

/// Whether a joint name passes the inspector's filter box: the filter,
/// trimmed and ASCII-lowered, is empty or occurs in the lowered name.
pub open spec fn filter_matches(name: Seq<char>, filter: Seq<char>) -> bool {
    let f = ascii_lower(trim(filter));
    f.len() == 0 || contains_seq(ascii_lower(name), f)
}

pub fn joint_matches_filter(name: &str, filter: &str) -> (b: bool)
    ensures
        b == filter_matches(name@, filter@),
{
    let fc = chars_of(filter);
    let f = ascii_lowercase(trim_chars(fc.as_slice()).as_slice());
    if f.len() == 0 {
        return true;
    }
    let n = ascii_lowercase(chars_of(name).as_slice());
    contains_chars(n.as_slice(), f.as_slice())
}

fn eq_lit(n: &[char], lit: &str) -> (b: bool)
    ensures
        b == (n@ == lit@),
{
    let l = chars_of(lit);
    chars_eq(n, l.as_slice())
}

fn has_lit(n: &[char], lit: &str) -> (b: bool)
    ensures
        b == contains_seq(n@, lit@),
{
    let l = chars_of(lit);
    contains_chars(n, l.as_slice())
}

/// The short posing hint shown for a joint, if it has one.
pub open spec fn joint_hint(name: Seq<char>) -> Option<Seq<char>> {
    if name == "right_shoulder"@ || name == "left_shoulder"@ {
        Some("z raises/lowers the arm from T-pose; y twists the upper arm (palm facing)."@)
    } else if name == "right_elbow"@ || name == "left_elbow"@ {
        Some("z bends the forearm (negative z ≈ fold up)."@)
    } else if name == "right_wrist"@ || name == "left_wrist"@ {
        Some("z tilts the hand; y rolls the wrist."@)
    } else if name == "head"@ {
        Some("y turns left/right; x nods up/down; z tilts ear to shoulder."@)
    } else if name == "neck"@ {
        Some("x/y/z for subtle head carriage — prefer `head` for big moves."@)
    } else if name == "spine"@ || name == "chest"@ || name == "upper_chest"@ {
        Some("x bends forward/back; y/z add torso twist."@)
    } else if name == "pelvis"@ {
        Some("y rotates the hips; x shifts weight forward/back."@)
    } else if name == "right_hip"@ || name == "left_hip"@ {
        Some("z swings the leg; x lifts knee forward."@)
    } else if name == "right_knee"@ || name == "left_knee"@ {
        Some("z bends the knee (negative z ≈ flex)."@)
    } else if contains_seq(name, "_thumb_"@) || contains_seq(name, "_index_"@) {
        Some("finger chains: z curls the digit; x/y fan the phalanges."@)
    } else {
        None
    }
}

/// Which rotation axis does what for a joint (a subset of the posing guide).
pub fn hint_for_joint(name: &str) -> (r: Option<&'static str>)
    ensures
        match joint_hint(name@) {
            Some(h) => r matches Some(s) && s@ == h,
            None => r is None,
        },
{
    let n = chars_of(name);
    let n = n.as_slice();
    if eq_lit(n, "right_shoulder") || eq_lit(n, "left_shoulder") {
        Some("z raises/lowers the arm from T-pose; y twists the upper arm (palm facing).")
    } else if eq_lit(n, "right_elbow") || eq_lit(n, "left_elbow") {
        Some("z bends the forearm (negative z ≈ fold up).")
    } else if eq_lit(n, "right_wrist") || eq_lit(n, "left_wrist") {
        Some("z tilts the hand; y rolls the wrist.")
    } else if eq_lit(n, "head") {
        Some("y turns left/right; x nods up/down; z tilts ear to shoulder.")
    } else if eq_lit(n, "neck") {
        Some("x/y/z for subtle head carriage — prefer `head` for big moves.")
    } else if eq_lit(n, "spine") || eq_lit(n, "chest") || eq_lit(n, "upper_chest") {
        Some("x bends forward/back; y/z add torso twist.")
    } else if eq_lit(n, "pelvis") {
        Some("y rotates the hips; x shifts weight forward/back.")
    } else if eq_lit(n, "right_hip") || eq_lit(n, "left_hip") {
        Some("z swings the leg; x lifts knee forward.")
    } else if eq_lit(n, "right_knee") || eq_lit(n, "left_knee") {
        Some("z bends the knee (negative z ≈ flex).")
    } else if has_lit(n, "_thumb_") || has_lit(n, "_index_") {
        Some("finger chains: z curls the digit; x/y fan the phalanges.")
    } else {
        None
    }
}

// ---------------------------------------------------------------------------
// Session state

/// Which editor tab is visible.
#[derive(Debug, Clone, Copy, PartialEq, Eq, Structural)]
pub enum EditorTab {
    Pose,
    Animation,
}

impl Default for EditorTab {
    fn default() -> (t: Self)
        ensures
            t == EditorTab::Pose,
    {
        EditorTab::Pose
    }
}

/// How the status line is colored.
#[derive(Debug, Clone, Copy, PartialEq, Eq, Structural)]
pub enum StatusKind {
    Info,
    Success,
    Error,
}

/// A draft-replacing action waiting behind a discard confirmation.
#[derive(Debug, Clone)]
pub enum PendingAction {
    NewPose,
    LoadPose(String),
    NewAnimation,
    LoadAnimation(String),
    CloseEditor,
}

/// A destructive or ambiguous action waiting on the user's confirmation.
#[derive(Debug, Clone)]
pub enum Confirm {
    /// Throw away unsaved draft edits.
    DiscardChanges { action: PendingAction },
    /// The draft's name belongs to a different saved pose.
    OverwritePose { name: String },
    OverwriteAnimation { name: String },
    DeletePose { name: String },
    DeleteAnimation { name: String },
    /// Replace every joint of the pose draft with the live rig state.
    CaptureScene,
    ClearAllJoints,
}

/// The question a confirmation dialog asks.
pub open spec fn confirm_prompt(c: Confirm) -> Seq<char> {
    match c {
        Confirm::DiscardChanges { .. } => "Discard unsaved changes to the current draft?"@,
        Confirm::OverwritePose { name } => "'"@ + name@
            + "' already exists in the library and you didn't load it from there. Overwrite it?"@,
        Confirm::OverwriteAnimation { name } => "'"@ + name@
            + "' already exists in the library and you didn't load it from there. Overwrite it?"@,
        Confirm::DeletePose { name } => "Delete pose '"@ + name@
            + "' (removes the YAML file from assets/poses)?"@,
        Confirm::DeleteAnimation { name } => "Delete animation '"@ + name@
            + "' (removes the YAML file from assets/animations)?"@,
        Confirm::CaptureScene => "Replace ALL joints in the pose draft with the live rig state?"@,
        Confirm::ClearAllJoints => "Clear every joint edit from the pose draft?"@,
    }
}

/// The confirm button's label.
pub open spec fn confirm_button(c: Confirm) -> Seq<char> {
    match c {
        Confirm::DiscardChanges { .. } => "Discard"@,
        Confirm::OverwritePose { .. } | Confirm::OverwriteAnimation { .. } => "Overwrite"@,
        Confirm::DeletePose { .. } | Confirm::DeleteAnimation { .. } => "Delete"@,
        Confirm::CaptureScene => "Capture"@,
        Confirm::ClearAllJoints => "Clear"@,
    }
}

fn wrap_name(before: &str, name: &String, after: &str) -> (s: String)
    ensures
        s@ == before@ + name@ + after@,
{
    let mut s = concat_str(before, name.as_str());
    s.append(after);
    s
}

impl Confirm {
    pub fn prompt(&self) -> (s: String)
        ensures
            s@ == confirm_prompt(*self),
    {
        match self {
            Confirm::DiscardChanges { .. } => String::from_str("Discard unsaved changes to the current draft?"),
            Confirm::OverwritePose { name } => wrap_name(
                "'",
                name,
                "' already exists in the library and you didn't load it from there. Overwrite it?",
            ),
            Confirm::OverwriteAnimation { name } => wrap_name(
                "'",
                name,
                "' already exists in the library and you didn't load it from there. Overwrite it?",
            ),
            Confirm::DeletePose { name } => wrap_name(
                "Delete pose '",
                name,
                "' (removes the YAML file from assets/poses)?",
            ),
            Confirm::DeleteAnimation { name } => wrap_name(
                "Delete animation '",
                name,
                "' (removes the YAML file from assets/animations)?",
            ),
            Confirm::CaptureScene => String::from_str(
                "Replace ALL joints in the pose draft with the live rig state?",
            ),
            Confirm::ClearAllJoints => String::from_str("Clear every joint edit from the pose draft?"),
        }
    }

    pub fn confirm_label(&self) -> (s: &'static str)
        ensures
            s@ == confirm_button(*self),
    {
        match self {
            Confirm::DiscardChanges { .. } => "Discard",
            Confirm::OverwritePose { .. } | Confirm::OverwriteAnimation { .. } => "Overwrite",
            Confirm::DeletePose { .. } | Confirm::DeleteAnimation { .. } => "Delete",
            Confirm::CaptureScene => "Capture",
            Confirm::ClearAllJoints => "Clear",
        }
    }
}

/// Guards a draft-replacing action: with unsaved edits, queues a discard
/// confirmation for it and returns false; otherwise returns true (run it now)
/// and leaves `pending_confirm` alone.
pub fn guard_dirty(pending_confirm: &mut Option<Confirm>, dirty: bool, action: PendingAction) -> (run_now: bool)
    ensures
        run_now == !dirty,
        dirty ==> *final(pending_confirm) == Some(Confirm::DiscardChanges { action }),
        !dirty ==> *final(pending_confirm) == *old(pending_confirm),
{
    if dirty {
        *pending_confirm = Some(Confirm::DiscardChanges { action });
        false
    } else {
        true
    }
}

/// Joint-inspector UI state.
#[derive(Debug, Clone)]
pub struct JointInspectorState {
    pub selected_joint: Option<String>,
    pub joint_filter: String,
    pub modified_only: bool,
    pub symmetrical: bool,
}

impl JointInspectorState {
    pub fn new() -> (s: Self)
        ensures
            s.selected_joint is None,
            s.joint_filter@.len() == 0,
            !s.modified_only,
            !s.symmetrical,
    {
        JointInspectorState {
            selected_joint: None,
            joint_filter: String::new(),
            modified_only: false,
            symmetrical: false,
        }
    }
}

/// Most previous status messages kept.
pub const STATUS_HISTORY_CAP: usize = 2;

/// The editor's status line with a short history, most recent last.
pub struct StatusLine {
    pub status: String,
    pub kind: StatusKind,
    pub history: Vec<String>,
}

/// The history after `pushed` is appended (when `push`) and the oldest
/// entries are dropped down to the cap.
pub open spec fn capped_history(h: Seq<Seq<char>>) -> Seq<Seq<char>> {
    if h.len() > STATUS_HISTORY_CAP {
        h.subrange(h.len() - STATUS_HISTORY_CAP, h.len() as int)
    } else {
        h
    }
}

impl StatusLine {
    /// The history as character sequences.
    pub open spec fn history_view(&self) -> Seq<Seq<char>> {
        self.history@.map_values(|s: String| s@)
    }

    /// Whether this line is `before` after showing `msg` with `kind`.
    pub open spec fn shows(&self, before: StatusLine, kind: StatusKind, msg: Seq<char>) -> bool {
        &&& self.status@ == msg
        &&& self.kind == kind
        &&& self.history_view() == capped_history(
            if before.status@.len() > 0 && before.status@ != msg {
                before.history_view().push(before.status@)
            } else {
                before.history_view()
            },
        )
    }

    /// Shows `msg`; the message it replaces (if non-empty and different)
    /// moves into the history, which keeps only the most recent entries.
    pub fn set_status(&mut self, kind: StatusKind, msg: String)
        ensures
            final(self).status@ == msg@,
            final(self).kind == kind,
            final(self).history_view() == capped_history(
                if old(self).status@.len() > 0 && old(self).status@ != msg@ {
                    old(self).history_view().push(old(self).status@)
                } else {
                    old(self).history_view()
                },
            ),
    {
        let replaced = !self.status.as_str().is_empty() && self.status != msg;
        let ghost h0 = self.history_view();
        let ghost target = if self.status@.len() > 0 && self.status@ != msg@ {
            h0.push(self.status@)
        } else {
            h0
        };
        proof {
            if self.status@.len() == 0 {
                assert(self.status@.len() == 0);
            }
        }
        let ghost mv = msg@;
        if replaced {
            let mut old_status = msg;
            std::mem::swap(&mut old_status, &mut self.status);
            self.history.push(old_status);
        } else {
            self.status = msg;
        }
        assert(self.history_view() =~= target);
        while self.history.len() > STATUS_HISTORY_CAP
            invariant
                self.status@ == mv,
                self.history_view().len() == target.len() || self.history_view().len() >= STATUS_HISTORY_CAP,
                target.len() >= self.history_view().len(),
                self.history_view() == target.subrange(target.len() - self.history_view().len(), target.len() as int),
            decreases self.history@.len(),
        {
            let ghost prev = self.history_view();
            self.history.remove(0);
            assert(self.history_view() =~= prev.drop_first());
            assert(self.history_view() =~= target.subrange(target.len() - self.history_view().len(), target.len() as int));
        }
        assert(self.history_view() =~= capped_history(target));
        self.kind = kind;
    }
}

/// Law: the status history never holds more than the cap.
pub proof fn lemma_history_capped(h: Seq<Seq<char>>)
    ensures
        capped_history(h).len() <= STATUS_HISTORY_CAP,
{
}

// ---------------------------------------------------------------------------
// Fresh names

/// `base` followed by `_` and the decimal digits of `n`.
pub open spec fn numbered(base: Seq<char>, n: nat) -> Seq<char> {
    base + seq!['_'] + decimal(n)
}

/// Whether some name of `existing` equals `k`.
pub open spec fn taken(existing: Seq<String>, k: Seq<char>) -> bool {
    exists|i: int| 0 <= i < existing.len() && #[trigger] existing[i]@ == k
}

/// The first `n` in `from..1000` with `base_n` free.
pub open spec fn first_free(base: Seq<char>, existing: Seq<String>, from: int) -> Option<nat>
    decreases 1000 - from,
{
    if from >= 1000 {
        None
    } else if !taken(existing, numbered(base, from as nat)) {
        Some(from as nat)
    } else {
        first_free(base, existing, from + 1)
    }
}

/// `base` if free; else `base_2`, `base_3`, … up to `base_999`, the first
/// that is free; else `base_{fallback}`.
pub open spec fn unique_name_spec(base: Seq<char>, existing: Seq<String>, fallback: u32) -> Seq<char> {
    if !taken(existing, base) {
        base
    } else {
        match first_free(base, existing, 2) {
            Some(n) => numbered(base, n),
            None => numbered(base, fallback as nat),
        }
    }
}

fn is_taken(existing: &[String], k: &[char]) -> (b: bool)
    ensures
        b == taken(existing@, k@),
{
    let mut i: usize = 0;
    while i < existing.len()
        invariant
            i <= existing.len(),
            forall|j: int| 0 <= j < i ==> #[trigger] existing@[j]@ != k@,
        decreases existing.len() - i,
    {
        let c = chars_of(existing[i].as_str());
        if chars_eq(c.as_slice(), k) {
            return true;
        }
        i = i + 1;
    }
    false
}

fn numbered_chars(base: &[char], n: usize) -> (v: Vec<char>)
    ensures
        v@ == numbered(base@, n as nat),
{
    let mut v = copy_chars(base);
    v.push('_');
    let mut d = decimal_chars(n);
    v.append(&mut d);
    v
}

/// A draft name that collides with nothing in `existing`: `base`, or the
/// first free `base_2` … `base_999`; past that, `base_{fallback}`.
pub fn unique_name(base: &str, existing: &[String], fallback: u32) -> (r: String)
    ensures
        r@ == unique_name_spec(base@, existing@, fallback),
{
    let b = chars_of(base);
    if !is_taken(existing, b.as_slice()) {
        return String::from_str(base);
    }
    let mut n: usize = 2;
    while n < 1000
        invariant
            2 <= n <= 1000,
            b@ == base@,
            taken(existing@, base@),
            first_free(base@, existing@, n as int) == first_free(base@, existing@, 2),
        decreases 1000 - n,
    {
        let candidate = numbered_chars(b.as_slice(), n);
        if !is_taken(existing, candidate.as_slice()) {
            return string_from_chars(candidate.as_slice());
        }
        n = n + 1;
    }
    let fallback_chars = numbered_chars(b.as_slice(), fallback as usize);
    string_from_chars(fallback_chars.as_slice())
}

// ---------------------------------------------------------------------------
// Per-keyframe joint editing

/// Whether keyframes of this draft can be joint-edited (not imported
/// quaternion clips).
pub fn keyframe_joint_editing_enabled<S>(draft: &AnimationFile<S>) -> (b: bool)
    ensures
        b == !draft.vrm_local_rotations,
{
    !draft.vrm_local_rotations
}

pub fn keyframe_has_pose_ref<S>(kf: &KeyframeSpec<S>) -> (b: bool)
    ensures
        b == kf.pose is Some,
{
    kf.pose.is_some()
}

/// Number of per-joint overrides on a keyframe.
pub fn keyframe_delta_count<S>(kf: &KeyframeSpec<S>) -> (n: usize)
    ensures
        n == match kf.joints {
            Some(j) => j@.len(),
            None => 0,
        },
{
    match &kf.joints {
        Some(j) => j.len(),
        None => 0,
    }
}

/// Whether the keyframe overrides `joint`.
pub fn keyframe_joint_modified<S>(kf: &KeyframeSpec<S>, joint: &str) -> (b: bool)
    ensures
        b == match kf.joints {
            Some(j) => j@.contains_key(joint@),
            None => false,
        },
{
    match &kf.joints {
        Some(j) => j.contains_key(chars_of(joint).as_slice()),
        None => false,
    }
}

/// The rotation a pose gives `joint` (`None`: not set, i.e. zero).
pub open spec fn pose_rotation<S>(joints: Map<Seq<char>, JointTarget<S>>, joint: Seq<char>) -> Option<EulerDeg<S>> {
    if joints.contains_key(joint) {
        joints[joint].rotation_deg
    } else {
        None
    }
}

pub fn euler_for_joint<S: Copy>(pose: &Pose<S>, joint: &str) -> (r: Option<EulerDeg<S>>)
    ensures
        r == pose_rotation(pose.joints@, joint@),
{
    match pose.joints.get(chars_of(joint).as_slice()) {
        Some(t) => t.rotation_deg,
        None => None,
    }
}

/// The rotation the inspector shows for `joint` on a keyframe: its override
/// if it has one, else the base pose's value (`None`: zero).
pub open spec fn keyframe_rotation<S>(
    pose: Option<Seq<char>>,
    joints: Option<Map<Seq<char>, JointTarget<S>>>,
    poses: Map<Seq<char>, Pose<S>>,
    joint: Seq<char>,
) -> Option<EulerDeg<S>> {
    match joints {
        Some(j) if j.contains_key(joint) => j[joint].rotation_deg,
        _ => match pose {
            Some(n) if poses.contains_key(n) => pose_rotation(poses[n].joints@, joint),
            _ => None,
        },
    }
}

pub fn euler_for_keyframe_joint<S: Copy>(
    kf: &KeyframeSpec<S>,
    poses: &NamedMap<Pose<S>>,
    joint: &str,
) -> (r: Option<EulerDeg<S>>)
    ensures
        r == keyframe_rotation(kf@.pose, kf@.joints, poses@, joint@),
{
    let key = chars_of(joint);
    match &kf.joints {
        Some(j) => match j.get(key.as_slice()) {
            Some(t) => {
                return t.rotation_deg;
            },
            None => {},
        },
        None => {},
    }
    match &kf.pose {
        Some(name) => match poses.get(chars_of(name.as_str()).as_slice()) {
            Some(base) => euler_for_joint(base, joint),
            None => None,
        },
        None => None,
    }
}

/// The keyframe's override map, or an empty one.
pub open spec fn overrides<S>(joints: Option<Map<Seq<char>, JointTarget<S>>>) -> Map<Seq<char>, JointTarget<S>> {
    match joints {
        Some(j) => j,
        None => Map::empty(),
    }
}

/// Sets the keyframe's override rotation of `joint` to `euler` (and, when
/// `symmetrical`, of its counterpart to `mirrored`). The rest of the
/// keyframe is unchanged.
pub fn set_keyframe_joint_euler<S: Copy>(
    kf: &mut KeyframeSpec<S>,
    joint: &str,
    euler: EulerDeg<S>,
    mirrored: EulerDeg<S>,
    symmetrical: bool,
)
    ensures
        final(kf)@.joints == Some(
            if symmetrical && counterpart_of(joint@) is Some {
                set_rotation(
                    set_rotation(overrides(old(kf)@.joints), joint@, euler),
                    counterpart_of(joint@)->0,
                    mirrored,
                )
            } else {
                set_rotation(overrides(old(kf)@.joints), joint@, euler)
            },
        ),
        final(kf)@.pose == old(kf)@.pose,
        final(kf)@.camera == old(kf)@.camera,
        final(kf)@.expressions == old(kf)@.expressions,
        final(kf)@.hold == old(kf)@.hold,
        final(kf)@.duration_ms == old(kf)@.duration_ms,
        final(kf)@.easing == old(kf)@.easing,
{
    let mut joints = match kf.joints.take() {
        Some(j) => j,
        None => NamedMap::new(),
    };
    let key = chars_of(joint);
    set_rotation_in(&mut joints, key.as_slice(), euler);
    if symmetrical {
        match counterpart_chars(key.as_slice()) {
            Some(other) => set_rotation_in(&mut joints, other.as_slice(), mirrored),
            None => {},
        }
    }
    kf.joints = Some(joints);
}

/// Removes the keyframe's override of `joint` (and of its counterpart when
/// `symmetrical`); an override map left empty becomes `None`.
pub fn clear_keyframe_joint<S>(kf: &mut KeyframeSpec<S>, joint: &str, symmetrical: bool)
    ensures
        match old(kf)@.joints {
            None => final(kf)@.joints is None,
            Some(j) => {
                let cleared = if symmetrical && counterpart_of(joint@) is Some {
                    j.remove(joint@).remove(counterpart_of(joint@)->0)
                } else {
                    j.remove(joint@)
                };
                final(kf)@.joints == if cleared.len() == 0 {
                    None
                } else {
                    Some(cleared)
                }
            },
        },
        final(kf)@.pose == old(kf)@.pose,
        final(kf)@.camera == old(kf)@.camera,
        final(kf)@.expressions == old(kf)@.expressions,
        final(kf)@.hold == old(kf)@.hold,
        final(kf)@.duration_ms == old(kf)@.duration_ms,
        final(kf)@.easing == old(kf)@.easing,
{
    match kf.joints.take() {
        None => {},
        Some(mut j) => {
            let key = chars_of(joint);
            j.remove(key.as_slice());
            if symmetrical {
                match counterpart_chars(key.as_slice()) {
                    Some(other) => {
                        j.remove(other.as_slice());
                    },
                    None => {},
                }
            }
            if j.len() == 0 {
                kf.joints = None;
            } else {
                kf.joints = Some(j);
            }
        },
    }
}

/// Drops every per-joint override of the keyframe.
pub fn clear_keyframe_joint_overrides<S>(kf: &mut KeyframeSpec<S>)
    ensures
        final(kf)@.joints is None,
        final(kf)@.pose == old(kf)@.pose,
        final(kf)@.camera == old(kf)@.camera,
        final(kf)@.expressions == old(kf)@.expressions,
        final(kf)@.hold == old(kf)@.hold,
        final(kf)@.duration_ms == old(kf)@.duration_ms,
        final(kf)@.easing == old(kf)@.easing,
{
    kf.joints = None;
}

/// The joints of a keyframe baked inline: its base pose's joints (if the
/// reference resolves) overlaid with its overrides.
pub open spec fn baked_joints<S>(
    pose: Option<Seq<char>>,
    joints: Option<Map<Seq<char>, JointTarget<S>>>,
    poses: Map<Seq<char>, Pose<S>>,
) -> Map<Seq<char>, JointTarget<S>> {
    let base = match pose {
        Some(n) if poses.contains_key(n) => poses[n].joints@,
        _ => Map::empty(),
    };
    base.union_prefer_right(overrides(joints))
}

/// A keyframe baked inline: no pose reference and no hold flag, its joints
/// [`baked_joints`] (none when that is empty), the rest kept.
pub open spec fn baked_keyframe<S>(kf: KeyframeSpecView<S>, poses: Map<Seq<char>, Pose<S>>) -> KeyframeSpecView<S> {
    let merged = baked_joints(kf.pose, kf.joints, poses);
    KeyframeSpecView {
        pose: None,
        hold: None,
        joints: if merged.len() == 0 {
            None
        } else {
            Some(merged)
        },
        ..kf
    }
}

/// Baking a keyframe that is already baked leaves it as it is.
pub proof fn lemma_bake_is_idempotent<S>(kf: KeyframeSpecView<S>, poses: Map<Seq<char>, Pose<S>>)
    ensures
        baked_keyframe(baked_keyframe(kf, poses), poses) == baked_keyframe(kf, poses),
{
    let once = baked_keyframe(kf, poses);
    let merged = baked_joints(kf.pose, kf.joints, poses);
    assert(baked_joints(once.pose, once.joints, poses) =~= overrides(once.joints));
    if merged.len() != 0 {
        assert(overrides(once.joints) == merged);
    } else {
        assert(overrides(once.joints) =~= Map::<Seq<char>, JointTarget<S>>::empty());
    }
}

/// Materializes pose reference + overrides into a fully inline keyframe (no
/// pose reference, no hold flag).
pub fn bake_keyframe_inline<S: Copy>(kf: &mut KeyframeSpec<S>, poses: &NamedMap<Pose<S>>)
    ensures
        final(kf)@ == baked_keyframe(old(kf)@, poses@),
{
    let mut merged: NamedMap<JointTarget<S>> = match &kf.pose {
        Some(name) => match poses.get(chars_of(name.as_str()).as_slice()) {
            Some(base) => base.joints.duplicate(),
            None => NamedMap::new(),
        },
        None => NamedMap::new(),
    };
    match &kf.joints {
        Some(d) => merged.extend_from(d),
        None => {
            assert(merged@ =~= merged@.union_prefer_right(Map::empty()));
        },
    }
    kf.pose = None;
    if merged.len() == 0 {
        kf.joints = None;
    } else {
        kf.joints = Some(merged);
    }
    kf.hold = None;
}

// ---------------------------------------------------------------------------
// Viewport

/// Whether the viewport offers a move handle for `name` on the draft: a joint
/// the draft already translates, a pupil, a blush, or the pelvis.
pub open spec fn can_translate<S>(joints: Map<Seq<char>, JointTarget<S>>, name: Seq<char>) -> bool {
    ||| (joints.contains_key(name) && joints[name].translation is Some)
    ||| ends_with(name, "_pupil"@)
    ||| ends_with(name, "_blush"@)
    ||| name == "pelvis"@
}

pub fn joint_can_translate<S>(draft: &Pose<S>, name: &str) -> (b: bool)
    ensures
        b == can_translate(draft.joints@, name@),
{
    let n = chars_of(name);
    let moves = match draft.joints.get(n.as_slice()) {
        Some(t) => t.translation.is_some(),
        None => false,
    };
    moves || has_suffix(n.as_slice(), chars_of("_pupil").as_slice()) || has_suffix(
        n.as_slice(),
        chars_of("_blush").as_slice(),
    ) || chars_eq(n.as_slice(), chars_of("pelvis").as_slice())
}

/// How close the viewport frames a joint it focuses on.
#[derive(Debug, Clone, Copy, PartialEq, Eq, Structural)]
pub enum FocusReach {
    Hand,
    Finger,
    Face,
    Body,
}

/// The framing class of a joint: hands; finger segments; the head, eyes and
/// eyebrows; everything else.
pub open spec fn focus_reach(name: Seq<char>) -> FocusReach {
    if contains_seq(name, "_hand"@) {
        FocusReach::Hand
    } else if contains_seq(name, "_proximal"@) || contains_seq(name, "_intermediate"@) || contains_seq(
        name,
        "_distal"@,
    ) || contains_seq(name, "_metacarpal"@) {
        FocusReach::Finger
    } else if name == "head"@ || contains_seq(name, "_eye"@) || contains_seq(name, "eyebrow"@) {
        FocusReach::Face
    } else {
        FocusReach::Body
    }
}

pub fn focus_class(name: &str) -> (r: FocusReach)
    ensures
        r == focus_reach(name@),
{
    let n = chars_of(name);
    if contains_chars(n.as_slice(), chars_of("_hand").as_slice()) {
        FocusReach::Hand
    } else if contains_chars(n.as_slice(), chars_of("_proximal").as_slice()) || contains_chars(
        n.as_slice(),
        chars_of("_intermediate").as_slice(),
    ) || contains_chars(n.as_slice(), chars_of("_distal").as_slice()) || contains_chars(
        n.as_slice(),
        chars_of("_metacarpal").as_slice(),
    ) {
        FocusReach::Finger
    } else if chars_eq(n.as_slice(), chars_of("head").as_slice()) || contains_chars(
        n.as_slice(),
        chars_of("_eye").as_slice(),
    ) || contains_chars(n.as_slice(), chars_of("eyebrow").as_slice()) {
        FocusReach::Face
    } else {
        FocusReach::Body
    }
}

} // verus!
