//! The editor session: the pose and animation drafts with the baseline each
//! was last created, loaded or saved as, the visible tab, the status line,
//! and the decisions behind joint edits and save requests.

use vstd::prelude::*;
use crate::command::resolvable;
use crate::editor::{
    taken, unique_name, unique_name_spec,
    euler_for_joint, euler_for_keyframe_joint, keyframe_rotation, overrides, pose_rotation,
    set_keyframe_joint_euler, Confirm, EditorTab, JointInspectorState, StatusKind, StatusLine,
};
use crate::model::{
    opt_view, Animation, AnimationFile, AnimationFileView, Easing, EulerDeg, KeyframeSpec,
    KeyframeSpecView, Pose, PoseView,
};
use crate::text::{chars_eq, chars_of, concat_str, decimal, decimal_chars, str_eq, string_from_chars, trim, trim_chars};
use crate::model::JointTarget;
use crate::named_map::{has_key, lemma_seq_to_map, NamedMap};
use crate::pose::{all_known, joint_index, PoseError};
use crate::resolve::{first_failure_at, keyframe_pose, load_error_text, resolve_animation, KeyframeFailure, YamlLoadError};
use crate::playback::animation_playable_duration_ms;
use crate::skeleton::Skeleton;
use crate::timeline::playable_total;
use crate::symmetry::{counterpart_of, set_joint_euler_with_symmetry, set_rotation};
use crate::timeline::{arrival, durations, keyframe_arrival_ms};

verus! {

/// An empty pose draft named `name`.
pub open spec fn blank_pose<S>(name: Seq<char>) -> PoseView<S> {
    PoseView {
        name,
        description: None,
        joints: Map::empty(),
        camera: None,
        expressions: Map::empty(),
        hold_joints: false,
    }
}

/// The keyframe a fresh animation draft starts with: the `idle` pose,
/// eased in and out over 400 ms.
pub open spec fn starter_keyframe<S>() -> KeyframeSpecView<S> {
    KeyframeSpecView {
        pose: Some("idle"@),
        joints: None,
        camera: None,
        expressions: None,
        hold: None,
        duration_ms: 400,
        easing: Easing::EaseInOut,
    }
}

/// A fresh animation draft named `name`.
pub open spec fn starter_animation<S>(name: Seq<char>) -> AnimationFileView<S> {
    AnimationFileView {
        name,
        description: None,
        looping: false,
        vrm_local_rotations: false,
        play_automatically: false,
        keyframes: seq![starter_keyframe::<S>()],
    }
}

/// `m` with `joint` rotated to `euler` and, when `symmetrical` and the joint
/// has a counterpart on the other side, that counterpart rotated to
/// `mirrored`.
pub open spec fn rotated_joints<S>(
    m: Map<Seq<char>, JointTarget<S>>,
    joint: Seq<char>,
    euler: EulerDeg<S>,
    mirrored: EulerDeg<S>,
    symmetrical: bool,
) -> Map<Seq<char>, JointTarget<S>> {
    if symmetrical && counterpart_of(joint) is Some {
        set_rotation(set_rotation(m, joint, euler), counterpart_of(joint)->0, mirrored)
    } else {
        set_rotation(m, joint, euler)
    }
}

/// Law: rotating a joint symmetrically writes only rotations. The joint
/// gets `euler`; when `symmetrical` and it has a counterpart, the
/// counterpart gets `mirrored`; each keeps the translation and quaternion
/// it had; every other joint is untouched.
pub proof fn lemma_rotated_joints_write_only_rotations<S>(
    m: Map<Seq<char>, JointTarget<S>>,
    joint: Seq<char>,
    euler: EulerDeg<S>,
    mirrored: EulerDeg<S>,
    symmetrical: bool,
)
    ensures
        ({
            let r = rotated_joints(m, joint, euler, mirrored, symmetrical);
            let mirrors = symmetrical && counterpart_of(joint) is Some;
            &&& r.contains_key(joint)
            &&& r[joint].rotation_deg == Some(euler)
            &&& m.contains_key(joint) ==> r[joint].translation == m[joint].translation
                && r[joint].rotation_quat == m[joint].rotation_quat
            &&& mirrors ==> {
                let c = counterpart_of(joint)->0;
                &&& r.contains_key(c)
                &&& r[c].rotation_deg == Some(mirrored)
                &&& m.contains_key(c) ==> r[c].translation == m[c].translation && r[c].rotation_quat
                    == m[c].rotation_quat
            }
            &&& forall|k: Seq<char>|
                k != joint && !(mirrors && k == counterpart_of(joint)->0) ==> {
                    &&& (#[trigger] r.contains_key(k) <==> m.contains_key(k))
                    &&& m.contains_key(k) ==> r[k] == m[k]
                }
        }),
{
    if counterpart_of(joint) is Some {
        crate::symmetry::lemma_counterpart_differs(joint);
    }
}

/// Keyframe `k` with the rotation of `joint` overridden (see
/// [`rotated_joints`]).
pub open spec fn keyframe_with_rotation<S>(
    k: KeyframeSpecView<S>,
    joint: Seq<char>,
    euler: EulerDeg<S>,
    mirrored: EulerDeg<S>,
    symmetrical: bool,
) -> KeyframeSpecView<S> {
    KeyframeSpecView {
        joints: Some(rotated_joints(overrides(k.joints), joint, euler, mirrored, symmetrical)),
        ..k
    }
}


// ---------------------------------------------------------------------------
// Status messages

/// The status after saving the pose `name` to `path`, warning when `refs`
/// animations still hold an older snapshot of it.
pub open spec fn saved_pose_message(path: Seq<char>, name: Seq<char>, refs: nat) -> Seq<char> {
    if refs == 0 {
        "Saved pose → "@ + path
    } else {
        "Saved pose → "@ + path + ". "@ + decimal(refs) + " animation(s) reference '"@ + name
            + "' and still hold the old snapshot — use 'Used by animations → Re-save'."@
    }
}

/// The status after renaming `from` to `to` (and repointing `refs`
/// animations).
pub open spec fn renamed_message(from: Seq<char>, to: Seq<char>, refs: nat) -> Seq<char> {
    if refs == 0 {
        "Renamed '"@ + from + "' → '"@ + to + "'."@
    } else {
        "Renamed '"@ + from + "' → '"@ + to + "' and updated "@ + decimal(refs)
            + " referencing animation(s)."@
    }
}

/// `names` joined with `, `.
pub open spec fn comma_joined(names: Seq<Seq<char>>) -> Seq<char>
    decreases names.len(),
{
    if names.len() == 0 {
        Seq::empty()
    } else if names.len() == 1 {
        names[0]
    } else {
        comma_joined(names.drop_last()) + ", "@ + names.last()
    }
}

/// The status after deleting the pose `name`, listing the animations in
/// `refs` that still reference it.
pub open spec fn deleted_pose_message(name: Seq<char>, refs: Seq<Seq<char>>) -> Seq<char> {
    if refs.len() == 0 {
        "Deleted pose '"@ + name + "'."@
    } else {
        "Deleted pose '"@ + name + "' — WARNING: "@ + decimal(refs.len()) + " animation(s) still reference it: "@
            + comma_joined(refs) + "."@
    }
}

/// The refusal of a rename to a name already in use.
pub open spec fn taken_message(name: Seq<char>) -> Seq<char> {
    "'"@ + name + "' already exists — pick another name."@
}

/// `a + b + c` as a string.
fn cat3(a: &str, b: &str, c: &str) -> (s: String)
    ensures
        s@ == a@ + b@ + c@,
{
    let mut s = concat_str(a, b);
    s.append(c);
    s
}

/// The decimal digits of `n`.
fn number(n: usize) -> (s: String)
    ensures
        s@ == decimal(n as nat),
{
    string_from_chars(decimal_chars(n).as_slice())
}

/// `names` joined with `, `.
fn comma_join(names: &[String]) -> (s: String)
    ensures
        s@ == comma_joined(names@.map_values(|n: String| n@)),
{
    let ghost views = names@.map_values(|n: String| n@);
    let mut s = String::new();
    let mut i: usize = 0;
    while i < names.len()
        invariant
            i <= names.len(),
            views == names@.map_values(|n: String| n@),
            s@ == comma_joined(views.subrange(0, i as int)),
        decreases names.len() - i,
    {
        let ghost prefix = views.subrange(0, i as int + 1);
        assert(prefix.drop_last() =~= views.subrange(0, i as int));
        if i > 0 {
            s.append(", ");
        } else {
            assert(prefix =~= seq![views[0]]);
        }
        s.append(names[i].as_str());
        i = i + 1;
    }
    assert(views.subrange(0, names.len() as int) =~= views);
    s
}

/// `s` without leading and trailing white space.
fn trimmed(s: &str) -> (t: String)
    ensures
        t@ == trim(s@),
{
    string_from_chars(trim_chars(chars_of(s).as_slice()).as_slice())
}

/// Keyframe `k` with a pose reference to `from` pointed at `to`.
pub open spec fn repointed<S>(k: KeyframeSpecView<S>, from: Seq<char>, to: Seq<char>) -> KeyframeSpecView<S> {
    if k.pose == Some(from) {
        KeyframeSpecView { pose: Some(to), ..k }
    } else {
        k
    }
}

/// Law: once references to `from` are pointed at a different name `to`, no
/// keyframe references `from`.
pub proof fn lemma_repoint_leaves_no_reference<S>(ks: Seq<KeyframeSpecView<S>>, from: Seq<char>, to: Seq<char>)
    requires
        from != to,
    ensures
        forall|i: int| 0 <= i < ks.len() ==> #[trigger] repointed(ks[i], from, to).pose != Some(from),
{
}

/// Points every keyframe that references the pose `from` at `to` instead.
pub fn repoint_pose_references<S>(keyframes: &mut Vec<KeyframeSpec<S>>, from: &str, to: &str)
    ensures
        final(keyframes)@.map_values(|k: KeyframeSpec<S>| k@)
            == old(keyframes)@.map_values(|k: KeyframeSpec<S>| repointed(k@, from@, to@)),
{
    let ghost start = keyframes@;
    let target = chars_of(from);
    let mut i: usize = 0;
    while i < keyframes.len()
        invariant
            i <= keyframes.len(),
            keyframes@.len() == start.len(),
            target@ == from@,
            forall|j: int| 0 <= j < i ==> #[trigger] keyframes@[j]@ == repointed(start[j]@, from@, to@),
            forall|j: int| i <= j < keyframes@.len() ==> #[trigger] keyframes@[j] == start[j],
        decreases keyframes.len() - i,
    {
        let hit = match &keyframes[i].pose {
            Some(p) => chars_eq(chars_of(p.as_str()).as_slice(), target.as_slice()),
            None => false,
        };
        if hit {
            let mut k = keyframes.remove(i);
            k.pose = Some(String::from_str(to));
            keyframes.insert(i, k);
        }
        i = i + 1;
    }
    assert(keyframes@.map_values(|k: KeyframeSpec<S>| k@)
        =~= start.map_values(|k: KeyframeSpec<S>| repointed(k@, from@, to@)));
}

/// The preview transport (playhead, playing) after a frame of `dt` ms on a
/// timeline `total` ms long: an empty timeline parks at 0 stopped; a playing
/// transport moves on (saturating), wrapping when looping and otherwise
/// stopping at the end.
pub open spec fn advanced_transport(playhead: u32, playing: bool, looping: bool, total: u32, dt: u32) -> (u32, bool) {
    if total == 0 {
        (0, false)
    } else {
        let p: u32 = if playing && dt > 0 {
            if playhead + dt > u32::MAX {
                u32::MAX
            } else {
                (playhead + dt) as u32
            }
        } else {
            playhead
        };
        if !playing {
            (p, false)
        } else if looping {
            ((p % total) as u32, true)
        } else if p >= total {
            (total, false)
        } else {
            (p, true)
        }
    }
}

/// The keys of `m` as strings.
fn key_strings<T>(m: &NamedMap<T>) -> (names: Vec<String>)
    ensures
        forall|k: Seq<char>| #[trigger] taken(names@, k) <==> m@.contains_key(k),
{
    let n = m.len();
    proof {
        lemma_seq_to_map(m.entries_view());
    }
    let mut names: Vec<String> = Vec::new();
    let mut i: usize = 0;
    while i < n
        invariant
            i <= n,
            n == m.entries_view().len(),
            names@.len() == i,
            forall|j: int| 0 <= j < i ==> #[trigger] names@[j]@ == m.entries_view()[j].0,
        decreases n - i,
    {
        names.push(crate::text::string_from_chars(m.key_at(i).as_slice()));
        i = i + 1;
    }
    proof {
        assert forall|k: Seq<char>| #[trigger] taken(names@, k) <==> m@.contains_key(k) by {
            if taken(names@, k) {
                let j = choose|j: int| 0 <= j < names@.len() && #[trigger] names@[j]@ == k;
                assert(m.entries_view()[j].0 == k);
                assert(has_key(m.entries_view(), k));
            }
            if m@.contains_key(k) {
                assert(has_key(m.entries_view(), k));
                let j = choose|j: int| 0 <= j < m.entries_view().len() && #[trigger] m.entries_view()[j].0 == k;
                assert(names@[j]@ == k);
            }
        }
    }
    names
}

/// What the editor preview shows this frame.
#[derive(Debug)]
pub enum PreviewTarget<S> {
    /// Leave the rig as it is (the draft could not be shown; the status says
    /// why).
    Keep,
    /// The pose draft.
    Pose(Pose<S>),
    /// The resolved animation draft at the playhead.
    AnimationAt { animation: Animation<S>, playhead_ms: u32 },
}

/// Law: a playing transport never runs past the end of a non-empty
/// timeline, and a stopped one does not move.
pub proof fn lemma_transport_bounds(playhead: u32, playing: bool, looping: bool, total: u32, dt: u32)
    requires
        total > 0,
    ensures
        playing ==> advanced_transport(playhead, playing, looping, total, dt).0 <= total,
        !playing ==> advanced_transport(playhead, playing, looping, total, dt) == (playhead, false),
        advanced_transport(playhead, playing, looping, total, dt).1 ==> playing,
{
}

/// The pose tab: the draft and the baseline it is compared against.
pub struct PoseEditorState<S> {
    pub draft: Pose<S>,
    /// Last checkpoint (created, loaded or saved).
    pub checkpoint: Option<Pose<S>>,
    /// Library name the draft was loaded from (`None`: never loaded or saved).
    pub loaded_name: Option<String>,
    pub show_camera: bool,
    pub show_expressions: bool,
    /// Name for the "save current hand as gesture" field.
    pub publish_hand_name: String,
    /// The empty default draft was already filled from `idle`, so a
    /// deliberate "clear all joints" is not refilled.
    pub auto_fill_done: bool,
}

impl<S: Copy> PoseEditorState<S> {
    /// The tab as the editor opens: an empty draft named `new_pose`, never
    /// checkpointed.
    pub fn new() -> (s: Self)
        ensures
            s.draft@ == blank_pose::<S>("new_pose"@),
            s.checkpoint is None,
            s.loaded_name is None,
            !s.show_camera,
            !s.show_expressions,
            s.publish_hand_name@.len() == 0,
            !s.auto_fill_done,
    {
        PoseEditorState {
            draft: Pose {
                name: String::from_str("new_pose"),
                description: None,
                joints: NamedMap::new(),
                camera: None,
                expressions: NamedMap::new(),
                hold_joints: false,
            },
            checkpoint: None,
            loaded_name: None,
            show_camera: false,
            show_expressions: false,
            publish_hand_name: String::new(),
            auto_fill_done: false,
        }
    }

    /// Marks the current draft as the clean baseline.
    pub fn checkpoint(&mut self)
        ensures
            final(self).checkpoint matches Some(c) && c@ == old(self).draft@,
            *final(self) == (PoseEditorState { checkpoint: final(self).checkpoint, ..*old(self) }),
    {
        self.checkpoint = Some(self.draft.duplicate());
    }
}

/// The animation tab: the draft, its baseline and the preview transport.
pub struct AnimationEditorState<S> {
    pub draft: AnimationFile<S>,
    pub checkpoint: Option<AnimationFile<S>>,
    pub loaded_name: Option<String>,
    pub playhead_ms: u32,
    pub playing: bool,
    pub loop_playback: bool,
    pub selected_keyframe: usize,
}

impl<S: Copy> AnimationEditorState<S> {
    /// The tab as the editor opens: a one-keyframe draft named
    /// `new_animation`, stopped at 0 with the first keyframe selected.
    pub fn new() -> (s: Self)
        ensures
            s.draft@ == starter_animation::<S>("new_animation"@),
            s.checkpoint is None,
            s.loaded_name is None,
            s.playhead_ms == 0,
            !s.playing,
            !s.loop_playback,
            s.selected_keyframe == 0,
    {
        let mut keyframes: Vec<KeyframeSpec<S>> = Vec::new();
        keyframes.push(
            KeyframeSpec {
                pose: Some(String::from_str("idle")),
                joints: None,
                camera: None,
                expressions: None,
                hold: None,
                duration_ms: 400,
                easing: Easing::EaseInOut,
            },
        );
        let s = AnimationEditorState {
            draft: AnimationFile {
                name: String::from_str("new_animation"),
                description: None,
                looping: false,
                vrm_local_rotations: false,
                play_automatically: false,
                keyframes,
            },
            checkpoint: None,
            loaded_name: None,
            playhead_ms: 0,
            playing: false,
            loop_playback: false,
            selected_keyframe: 0,
        };
        assert(s.draft@.keyframes =~= seq![starter_keyframe::<S>()]);
        s
    }

    /// Marks the current draft as the clean baseline.
    pub fn checkpoint(&mut self)
        ensures
            final(self).checkpoint matches Some(c) && c@ == old(self).draft@,
            *final(self) == (AnimationEditorState { checkpoint: final(self).checkpoint, ..*old(self) }),
    {
        self.checkpoint = Some(self.draft.duplicate());
    }

    /// Moves the preview transport on by a frame of `dt_ms` on a timeline
    /// `total_ms` long (see [`advanced_transport`]).
    pub fn advance_preview(&mut self, total_ms: u32, dt_ms: u32)
        ensures
            (final(self).playhead_ms, final(self).playing) == advanced_transport(
                old(self).playhead_ms,
                old(self).playing,
                old(self).loop_playback,
                total_ms,
                dt_ms,
            ),
            *final(self) == (AnimationEditorState {
                playhead_ms: final(self).playhead_ms,
                playing: final(self).playing,
                ..*old(self)
            }),
    {
        if total_ms == 0 {
            self.playhead_ms = 0;
            self.playing = false;
            return;
        }
        if self.playing && dt_ms > 0 {
            self.playhead_ms = self.playhead_ms.saturating_add(dt_ms);
        }
        if self.playing {
            if self.loop_playback {
                self.playhead_ms = self.playhead_ms % total_ms;
            } else if self.playhead_ms >= total_ms {
                self.playhead_ms = total_ms;
                self.playing = false;
            }
        }
    }
}

/// `s` with the entries at `a` and `b` exchanged.
pub open spec fn swapped<T>(s: Seq<T>, a: int, b: int) -> Seq<T> {
    s.update(a, s[b]).update(b, s[a])
}

/// Where the selection goes when the entries at `a` and `b` trade places:
/// it follows the entry it was on.
pub open spec fn swapped_index(sel: int, a: int, b: int) -> int {
    if sel == a {
        b
    } else if sel == b {
        a
    } else {
        sel
    }
}

/// The selection after removing an entry from a list now `len` long: kept,
/// but not past the last entry.
pub open spec fn selection_after_remove(sel: int, len: int) -> int {
    let last = if len > 0 { len - 1 } else { 0 };
    if sel < last { sel } else { last }
}

/// Moving entry `i` up and then back down restores both the list and the
/// selection.
pub proof fn lemma_move_up_then_down_restores<T>(s: Seq<T>, i: int, sel: int)
    requires
        1 <= i < s.len(),
    ensures
        swapped(swapped(s, i, i - 1), i - 1, i) == s,
        swapped_index(swapped_index(sel, i, i - 1), i - 1, i) == sel,
{
    assert(swapped(swapped(s, i, i - 1), i - 1, i) =~= s);
}

fn starter_keyframe_value<S>() -> (k: KeyframeSpec<S>)
    ensures
        k@ == starter_keyframe::<S>(),
{
    KeyframeSpec {
        pose: Some(String::from_str("idle")),
        joints: None,
        camera: None,
        expressions: None,
        hold: None,
        duration_ms: 400,
        easing: Easing::EaseInOut,
    }
}

impl<S: Copy> AnimationEditorState<S> {
    /// Inserts a starter keyframe right after the selected one (at the end
    /// when the selection is past it) and selects it.
    pub fn add_keyframe(&mut self)
        ensures
            ({
                let len = old(self).draft@.keyframes.len();
                let idx: int = if old(self).selected_keyframe + 1 < len { old(self).selected_keyframe + 1 } else { len as int };
                &&& final(self).draft@.keyframes == old(self).draft@.keyframes.insert(idx, starter_keyframe::<S>())
                &&& final(self).selected_keyframe == idx
            }),
            final(self).draft == (AnimationFile { keyframes: final(self).draft.keyframes, ..old(self).draft }),
            *final(self) == (AnimationEditorState {
                draft: final(self).draft,
                selected_keyframe: final(self).selected_keyframe,
                ..*old(self)
            }),
    {
        let len = self.draft.keyframes.len();
        let idx = if self.selected_keyframe < len && self.selected_keyframe + 1 < len {
            self.selected_keyframe + 1
        } else {
            len
        };
        let ghost before = self.draft.keyframes@;
        self.draft.keyframes.insert(idx, starter_keyframe_value());
        assert(self.draft.keyframes@.map_values(|k: KeyframeSpec<S>| k@) =~= before.map_values(
            |k: KeyframeSpec<S>| k@,
        ).insert(idx as int, starter_keyframe::<S>()));
        self.selected_keyframe = idx;
    }

    /// Inserts a copy of the selected keyframe right after it and selects
    /// the copy; nothing happens when no keyframe is selected.
    pub fn duplicate_keyframe(&mut self)
        requires
            old(self).selected_keyframe < usize::MAX,
        ensures
            ({
                let i = old(self).selected_keyframe as int;
                let ks = old(self).draft@.keyframes;
                if i < ks.len() {
                    &&& final(self).draft@.keyframes == ks.insert(i + 1, ks[i])
                    &&& final(self).selected_keyframe == i + 1
                } else {
                    &&& final(self).draft@.keyframes == ks
                    &&& final(self).selected_keyframe == i
                }
            }),
            final(self).draft == (AnimationFile { keyframes: final(self).draft.keyframes, ..old(self).draft }),
            *final(self) == (AnimationEditorState {
                draft: final(self).draft,
                selected_keyframe: final(self).selected_keyframe,
                ..*old(self)
            }),
    {
        let i = self.selected_keyframe;
        if i < self.draft.keyframes.len() {
            let kf = self.draft.keyframes[i].duplicate();
            let ghost before = self.draft.keyframes@;
            self.draft.keyframes.insert(i + 1, kf);
            assert(self.draft.keyframes@.map_values(|k: KeyframeSpec<S>| k@) =~= before.map_values(
                |k: KeyframeSpec<S>| k@,
            ).insert(i + 1, before[i as int]@));
            self.selected_keyframe = i + 1;
        }
    }

    /// Appends `kf` and selects it.
    pub fn push_keyframe(&mut self, kf: KeyframeSpec<S>)
        ensures
            final(self).draft@.keyframes == old(self).draft@.keyframes.push(kf@),
            final(self).selected_keyframe == old(self).draft@.keyframes.len(),
            final(self).draft == (AnimationFile { keyframes: final(self).draft.keyframes, ..old(self).draft }),
            *final(self) == (AnimationEditorState {
                draft: final(self).draft,
                selected_keyframe: final(self).selected_keyframe,
                ..*old(self)
            }),
    {
        let ghost before = self.draft.keyframes@;
        self.draft.keyframes.push(kf);
        assert(self.draft.keyframes@.map_values(|k: KeyframeSpec<S>| k@) =~= before.map_values(
            |k: KeyframeSpec<S>| k@,
        ).push(kf@));
        self.selected_keyframe = self.draft.keyframes.len() - 1;
    }

    /// Deletes keyframe `i`; the selection stays, but not past the last
    /// keyframe left.
    pub fn remove_keyframe(&mut self, i: usize)
        requires
            i < old(self).draft@.keyframes.len(),
        ensures
            final(self).draft@.keyframes == old(self).draft@.keyframes.remove(i as int),
            final(self).selected_keyframe == selection_after_remove(
                old(self).selected_keyframe as int,
                old(self).draft@.keyframes.len() - 1,
            ),
            final(self).draft == (AnimationFile { keyframes: final(self).draft.keyframes, ..old(self).draft }),
            *final(self) == (AnimationEditorState {
                draft: final(self).draft,
                selected_keyframe: final(self).selected_keyframe,
                ..*old(self)
            }),
    {
        let ghost before = self.draft.keyframes@;
        self.draft.keyframes.remove(i);
        assert(self.draft.keyframes@.map_values(|k: KeyframeSpec<S>| k@) =~= before.map_values(
            |k: KeyframeSpec<S>| k@,
        ).remove(i as int));
        let len = self.draft.keyframes.len();
        let last = if len > 0 { len - 1 } else { 0 };
        if self.selected_keyframe > last {
            self.selected_keyframe = last;
        }
    }

    /// Moves keyframe `i` one place up; the selection follows the keyframe
    /// it was on.
    pub fn move_keyframe_up(&mut self, i: usize)
        requires
            1 <= i < old(self).draft@.keyframes.len(),
        ensures
            final(self).draft@.keyframes == swapped(old(self).draft@.keyframes, i as int, i - 1),
            final(self).selected_keyframe == swapped_index(old(self).selected_keyframe as int, i as int, i - 1),
            final(self).draft == (AnimationFile { keyframes: final(self).draft.keyframes, ..old(self).draft }),
            *final(self) == (AnimationEditorState {
                draft: final(self).draft,
                selected_keyframe: final(self).selected_keyframe,
                ..*old(self)
            }),
    {
        self.swap_keyframes(i - 1);
        if self.selected_keyframe == i {
            self.selected_keyframe = i - 1;
        } else if self.selected_keyframe == i - 1 {
            self.selected_keyframe = i;
        }
    }

    /// Moves keyframe `i` one place down; the selection follows the keyframe
    /// it was on.
    pub fn move_keyframe_down(&mut self, i: usize)
        requires
            i + 1 < old(self).draft@.keyframes.len(),
        ensures
            final(self).draft@.keyframes == swapped(old(self).draft@.keyframes, i as int, i + 1),
            final(self).selected_keyframe == swapped_index(old(self).selected_keyframe as int, i as int, i + 1),
            final(self).draft == (AnimationFile { keyframes: final(self).draft.keyframes, ..old(self).draft }),
            *final(self) == (AnimationEditorState {
                draft: final(self).draft,
                selected_keyframe: final(self).selected_keyframe,
                ..*old(self)
            }),
    {
        let n = self.draft.keyframes.len();
        assert(self.draft@.keyframes.len() == n);
        self.swap_keyframes(i);
        if self.selected_keyframe == i {
            self.selected_keyframe = i + 1;
        } else if self.selected_keyframe == i + 1 {
            self.selected_keyframe = i;
        }
    }

    /// Exchanges keyframes `a` and `a + 1`.
    fn swap_keyframes(&mut self, a: usize)
        requires
            a + 1 < old(self).draft@.keyframes.len(),
        ensures
            final(self).draft@.keyframes == swapped(old(self).draft@.keyframes, a as int, a + 1),
            swapped(old(self).draft@.keyframes, a as int, a + 1) == swapped(old(self).draft@.keyframes, a + 1, a as int),
            final(self).draft == (AnimationFile { keyframes: final(self).draft.keyframes, ..old(self).draft }),
            *final(self) == (AnimationEditorState { draft: final(self).draft, ..*old(self) }),
    {
        let ghost before = self.draft.keyframes@;
        let n = self.draft.keyframes.len();
        assert(self.draft@.keyframes.len() == n);
        let kf = self.draft.keyframes.remove(a + 1);
        self.draft.keyframes.insert(a, kf);
        let ghost bv = before.map_values(|k: KeyframeSpec<S>| k@);
        assert(self.draft.keyframes@.map_values(|k: KeyframeSpec<S>| k@) =~= swapped(bv, a as int, a + 1));
        assert(swapped(bv, a as int, a + 1) =~= swapped(bv, a + 1, a as int));
    }

    /// The play/pause button on a timeline `total_ms` long: pauses a running
    /// preview; otherwise starts it, from 0 when the playhead is at or past
    /// the end.
    pub fn toggle_play(&mut self, total_ms: u32)
        ensures
            old(self).playing ==> !final(self).playing && final(self).playhead_ms == old(self).playhead_ms,
            !old(self).playing ==> final(self).playing && final(self).playhead_ms == (if old(self).playhead_ms
                >= total_ms { 0 } else { old(self).playhead_ms }),
            *final(self) == (AnimationEditorState {
                playhead_ms: final(self).playhead_ms,
                playing: final(self).playing,
                ..*old(self)
            }),
    {
        if self.playing {
            self.playing = false;
        } else {
            if self.playhead_ms >= total_ms {
                self.playhead_ms = 0;
            }
            self.playing = true;
        }
    }

    /// The stop button: halts the preview and rewinds to 0.
    pub fn stop(&mut self)
        ensures
            !final(self).playing,
            final(self).playhead_ms == 0,
            *final(self) == (AnimationEditorState { playhead_ms: 0, playing: false, ..*old(self) }),
    {
        self.playing = false;
        self.playhead_ms = 0;
    }
}

/// The status shown while the editor is closed.
pub const PLAY_MODE_STATUS: &'static str = "Play mode — F2 opens the pose/animation editor.";

/// Everything the editor remembers between frames.
pub struct EditorSession<S> {
    pub open: bool,
    pub tab: EditorTab,
    pub pose: PoseEditorState<S>,
    pub animation: AnimationEditorState<S>,
    pub joints: JointInspectorState,
    pub status: StatusLine,
    pub pending_confirm: Option<Confirm>,
    pub show_help: bool,
}

impl<S: Copy> EditorSession<S> {
    /// A session on the pose tab with fresh drafts and the play-mode status;
    /// `open` says whether the editor starts open.
    pub fn new(open: bool) -> (s: Self)
        ensures
            s.open == open,
            s.tab == EditorTab::Pose,
            s.pose.draft@ == blank_pose::<S>("new_pose"@),
            s.pose.checkpoint is None,
            s.pose.loaded_name is None,
            s.animation.draft@ == starter_animation::<S>("new_animation"@),
            s.animation.checkpoint is None,
            s.animation.loaded_name is None,
            s.animation.playhead_ms == 0,
            !s.animation.playing,
            s.animation.selected_keyframe == 0,
            s.joints.selected_joint is None,
            !s.joints.symmetrical,
            s.status.status@ == PLAY_MODE_STATUS@,
            s.status.kind == StatusKind::Info,
            s.status.history_view().len() == 0,
            s.pending_confirm is None,
            !s.show_help,
    {
        let s = EditorSession {
            open,
            tab: EditorTab::Pose,
            pose: PoseEditorState::new(),
            animation: AnimationEditorState::new(),
            joints: JointInspectorState::new(),
            status: StatusLine {
                status: String::from_str(PLAY_MODE_STATUS),
                kind: StatusKind::Info,
                history: Vec::new(),
            },
            pending_confirm: None,
            show_help: false,
        };
        assert(s.status.history_view() =~= Seq::<Seq<char>>::empty());
        s
    }

    /// Shows `msg` on the status line (see [`StatusLine::set_status`]).
    pub fn set_status(&mut self, kind: StatusKind, msg: String)
        ensures
            final(self).status.shows(old(self).status, kind, msg@),
            *final(self) == (EditorSession { status: final(self).status, ..*old(self) }),
    {
        self.status.set_status(kind, msg);
    }

    pub fn info(&mut self, msg: String)
        ensures
            final(self).status.shows(old(self).status, StatusKind::Info, msg@),
            *final(self) == (EditorSession { status: final(self).status, ..*old(self) }),
    {
        self.set_status(StatusKind::Info, msg);
    }

    pub fn success(&mut self, msg: String)
        ensures
            final(self).status.shows(old(self).status, StatusKind::Success, msg@),
            *final(self) == (EditorSession { status: final(self).status, ..*old(self) }),
    {
        self.set_status(StatusKind::Success, msg);
    }

    pub fn error(&mut self, msg: String)
        ensures
            final(self).status.shows(old(self).status, StatusKind::Error, msg@),
            *final(self) == (EditorSession { status: final(self).status, ..*old(self) }),
    {
        self.set_status(StatusKind::Error, msg);
    }

    /// Sets the rotation of `joint` in whatever the visible tab edits (and
    /// its counterpart's to `mirrored` when the inspector is symmetrical).
    /// On the pose tab that is the draft; on the animation tab it is the
    /// selected keyframe's override, and the preview stops with the playhead
    /// on that keyframe's arrival.
    pub fn set_active_joint_euler(&mut self, joint: &str, euler: EulerDeg<S>, mirrored: EulerDeg<S>)
        requires
            old(self).tab == EditorTab::Animation ==> arrival(
                durations(old(self).animation.draft.keyframes@),
                old(self).animation.selected_keyframe as int,
            ) <= u32::MAX,
        ensures
            old(self).tab == EditorTab::Pose ==> {
                &&& final(self).pose.draft@ == (PoseView {
                    joints: rotated_joints(
                        old(self).pose.draft@.joints,
                        joint@,
                        euler,
                        mirrored,
                        old(self).joints.symmetrical,
                    ),
                    ..old(self).pose.draft@
                })
                &&& *final(self) == (EditorSession {
                    pose: PoseEditorState { draft: final(self).pose.draft, ..old(self).pose },
                    ..*old(self)
                })
            },
            old(self).tab == EditorTab::Animation ==> {
                let idx = old(self).animation.selected_keyframe as int;
                let ks = old(self).animation.draft@.keyframes;
                &&& final(self).animation.playhead_ms == arrival(
                    durations(old(self).animation.draft.keyframes@),
                    idx,
                )
                &&& !final(self).animation.playing
                &&& final(self).animation.draft@ == (AnimationFileView {
                    keyframes: if idx < ks.len() {
                        ks.update(
                            idx,
                            keyframe_with_rotation(ks[idx], joint@, euler, mirrored, old(self).joints.symmetrical),
                        )
                    } else {
                        ks
                    },
                    ..old(self).animation.draft@
                })
                &&& *final(self) == (EditorSession {
                    animation: AnimationEditorState {
                        draft: final(self).animation.draft,
                        playhead_ms: final(self).animation.playhead_ms,
                        playing: false,
                        ..old(self).animation
                    },
                    ..*old(self)
                })
            },
    {
        let symmetrical = self.joints.symmetrical;
        match self.tab {
            EditorTab::Pose => {
                set_joint_euler_with_symmetry(&mut self.pose.draft, joint, euler, mirrored, symmetrical);
            },
            EditorTab::Animation => {
                let idx = self.animation.selected_keyframe;
                let ghost old_keys = self.animation.draft.keyframes@;
                self.animation.playhead_ms = keyframe_arrival_ms(self.animation.draft.keyframes.as_slice(), idx);
                self.animation.playing = false;
                if idx < self.animation.draft.keyframes.len() {
                    let mut kf = self.animation.draft.keyframes.remove(idx);
                    let ghost before = kf@;
                    set_keyframe_joint_euler(&mut kf, joint, euler, mirrored, symmetrical);
                    assert(kf@ == keyframe_with_rotation(before, joint@, euler, mirrored, symmetrical));
                    self.animation.draft.keyframes.insert(idx, kf);
                    assert(self.animation.draft.keyframes@ == old_keys.update(idx as int, kf));
                    assert(self.animation.draft.keyframes@.map_values(|k: KeyframeSpec<S>| k@)
                        =~= old_keys.map_values(|k: KeyframeSpec<S>| k@).update(idx as int, kf@));
                }
            },
        }
    }

    /// The rotation the inspector shows for `joint` on the visible tab: the
    /// pose draft's, or the selected keyframe's (its override, else its base
    /// pose's). `None` means zero.
    pub fn euler_for_active_joint(&self, poses: &NamedMap<Pose<S>>, joint: &str) -> (r: Option<EulerDeg<S>>)
        ensures
            r == match self.tab {
                EditorTab::Pose => pose_rotation(self.pose.draft@.joints, joint@),
                EditorTab::Animation => {
                    let ks = self.animation.draft@.keyframes;
                    let i = self.animation.selected_keyframe as int;
                    if i < ks.len() {
                        keyframe_rotation(ks[i].pose, ks[i].joints, poses@, joint@)
                    } else {
                        None
                    }
                },
            },
    {
        match self.tab {
            EditorTab::Pose => euler_for_joint(&self.pose.draft, joint),
            EditorTab::Animation => {
                let i = self.animation.selected_keyframe;
                if i < self.animation.draft.keyframes.len() {
                    euler_for_keyframe_joint(&self.animation.draft.keyframes[i], poses, joint)
                } else {
                    None
                }
            },
        }
    }

    /// Whether joints can be edited on the visible tab: always on the pose
    /// tab; on the animation tab unless the draft is an imported clip.
    pub fn joint_editing_active(&self) -> (b: bool)
        ensures
            b == (self.tab == EditorTab::Pose || !self.animation.draft.vrm_local_rotations),
    {
        match self.tab {
            EditorTab::Pose => true,
            EditorTab::Animation => !self.animation.draft.vrm_local_rotations,
        }
    }

    /// A save request for the pose draft. The draft's name is trimmed
    /// first; an empty name is refused with an error. A name that belongs to
    /// a library pose other than the one loaded queues an overwrite
    /// confirmation instead. Returns whether to save now.
    pub fn request_pose_save(&mut self, poses: &NamedMap<Pose<S>>) -> (save_now: bool)
        ensures
            ({
                let name = trim(old(self).pose.draft@.name);
                let clobbers = poses@.contains_key(name) && opt_view(old(self).pose.loaded_name) != Some(name);
                if name.len() == 0 {
                    &&& !save_now
                    &&& final(self).status.shows(old(self).status, StatusKind::Error, "Name the pose before saving."@)
                    &&& *final(self) == (EditorSession { status: final(self).status, ..*old(self) })
                } else {
                    &&& save_now == !clobbers
                    &&& final(self).pose.draft@ == (PoseView { name, ..old(self).pose.draft@ })
                    &&& clobbers ==> (final(self).pending_confirm matches Some(Confirm::OverwritePose { name: n }) && n@ == name)
                    &&& !clobbers ==> final(self).pending_confirm == old(self).pending_confirm
                    &&& *final(self) == (EditorSession {
                        pose: PoseEditorState { draft: final(self).pose.draft, ..old(self).pose },
                        pending_confirm: final(self).pending_confirm,
                        ..*old(self)
                    })
                }
            }),
    {
        let name = trimmed(self.pose.draft.name.as_str());
        if name.as_str().is_empty() {
            self.error(String::from_str("Name the pose before saving."));
            return false;
        }
        self.pose.draft.name = name.clone();
        let exists = poses.contains_key(chars_of(name.as_str()).as_slice());
        let is_own = match &self.pose.loaded_name {
            Some(l) => str_eq(l.as_str(), name.as_str()),
            None => false,
        };
        if exists && !is_own {
            self.pending_confirm = Some(Confirm::OverwritePose { name });
            false
        } else {
            true
        }
    }

    /// A save request for the animation draft (as [`Self::request_pose_save`],
    /// against the animation library).
    pub fn request_animation_save(&mut self, animations: &NamedMap<Animation<S>>) -> (save_now: bool)
        ensures
            ({
                let name = trim(old(self).animation.draft@.name);
                let clobbers = animations@.contains_key(name) && opt_view(old(self).animation.loaded_name) != Some(name);
                if name.len() == 0 {
                    &&& !save_now
                    &&& final(self).status.shows(old(self).status, StatusKind::Error, "Name the animation before saving."@)
                    &&& *final(self) == (EditorSession { status: final(self).status, ..*old(self) })
                } else {
                    &&& save_now == !clobbers
                    &&& final(self).animation.draft@ == (AnimationFileView { name, ..old(self).animation.draft@ })
                    &&& clobbers ==> (final(self).pending_confirm matches Some(Confirm::OverwriteAnimation { name: n }) && n@ == name)
                    &&& !clobbers ==> final(self).pending_confirm == old(self).pending_confirm
                    &&& *final(self) == (EditorSession {
                        animation: AnimationEditorState { draft: final(self).animation.draft, ..old(self).animation },
                        pending_confirm: final(self).pending_confirm,
                        ..*old(self)
                    })
                }
            }),
    {
        let name = trimmed(self.animation.draft.name.as_str());
        if name.as_str().is_empty() {
            self.error(String::from_str("Name the animation before saving."));
            return false;
        }
        self.animation.draft.name = name.clone();
        let exists = animations.contains_key(chars_of(name.as_str()).as_slice());
        let is_own = match &self.animation.loaded_name {
            Some(l) => str_eq(l.as_str(), name.as_str()),
            None => false,
        };
        if exists && !is_own {
            self.pending_confirm = Some(Confirm::OverwriteAnimation { name });
            false
        } else {
            true
        }
    }

    /// After the pose draft was written to `path`: it becomes the loaded,
    /// clean library entry, and the status says so, warning when `refs`
    /// animations still hold an older snapshot of it.
    pub fn note_pose_saved(&mut self, path: &str, refs: usize)
        ensures
            opt_view(final(self).pose.loaded_name) == Some(old(self).pose.draft@.name),
            final(self).pose.checkpoint matches Some(c) && c@ == old(self).pose.draft@,
            final(self).status.shows(
                old(self).status,
                StatusKind::Success,
                saved_pose_message(path@, old(self).pose.draft@.name, refs as nat),
            ),
            *final(self) == (EditorSession {
                pose: PoseEditorState {
                    loaded_name: final(self).pose.loaded_name,
                    checkpoint: final(self).pose.checkpoint,
                    ..old(self).pose
                },
                status: final(self).status,
                ..*old(self)
            }),
    {
        let name = self.pose.draft.name.clone();
        let mut msg = concat_str("Saved pose → ", path);
        if refs > 0 {
            msg.append(". ");
            let n = number(refs);
            msg.append(n.as_str());
            msg.append(" animation(s) reference '");
            msg.append(name.as_str());
            msg.append("' and still hold the old snapshot — use 'Used by animations → Re-save'.");
        }
        self.pose.loaded_name = Some(name);
        self.pose.checkpoint();
        self.success(msg);
    }

    /// After the animation draft was written to `path`: it becomes the
    /// loaded, clean library entry.
    pub fn note_animation_saved(&mut self, path: &str)
        ensures
            opt_view(final(self).animation.loaded_name) == Some(old(self).animation.draft@.name),
            final(self).animation.checkpoint matches Some(c) && c@ == old(self).animation.draft@,
            final(self).status.shows(old(self).status, StatusKind::Success, "Saved animation → "@ + path@),
            *final(self) == (EditorSession {
                animation: AnimationEditorState {
                    loaded_name: final(self).animation.loaded_name,
                    checkpoint: final(self).animation.checkpoint,
                    ..old(self).animation
                },
                status: final(self).status,
                ..*old(self)
            }),
    {
        let name = self.animation.draft.name.clone();
        self.animation.loaded_name = Some(name);
        self.animation.checkpoint();
        self.success(concat_str("Saved animation → ", path));
    }

    /// Checks a rename of the loaded pose to the draft's (trimmed) name.
    /// Refused with a status when nothing was loaded, the name is empty or
    /// unchanged, or another pose has it; otherwise the draft takes the new
    /// name and the loaded name is returned (the old library entry to
    /// replace).
    pub fn begin_pose_rename(&mut self, poses: &NamedMap<Pose<S>>) -> (r: Option<String>)
        ensures
            ({
                let to = trim(old(self).pose.draft@.name);
                match opt_view(old(self).pose.loaded_name) {
                    None => {
                        &&& r is None
                        &&& final(self).status.shows(
                            old(self).status,
                            StatusKind::Error,
                            "Load a pose from the library before renaming."@,
                        )
                        &&& *final(self) == (EditorSession { status: final(self).status, ..*old(self) })
                    },
                    Some(from) => if to.len() == 0 || to == from {
                        &&& r is None
                        &&& final(self).status.shows(
                            old(self).status,
                            StatusKind::Info,
                            "Name field is unchanged — nothing to rename."@,
                        )
                        &&& *final(self) == (EditorSession { status: final(self).status, ..*old(self) })
                    } else if poses@.contains_key(to) {
                        &&& r is None
                        &&& final(self).status.shows(old(self).status, StatusKind::Error, taken_message(to))
                        &&& *final(self) == (EditorSession { status: final(self).status, ..*old(self) })
                    } else {
                        &&& r matches Some(f) && f@ == from
                        &&& final(self).pose.draft@ == (PoseView { name: to, ..old(self).pose.draft@ })
                        &&& *final(self) == (EditorSession {
                            pose: PoseEditorState { draft: final(self).pose.draft, ..old(self).pose },
                            ..*old(self)
                        })
                    },
                }
            }),
    {
        let from = match &self.pose.loaded_name {
            Some(l) => l.clone(),
            None => {
                self.error(String::from_str("Load a pose from the library before renaming."));
                return None;
            },
        };
        let to = trimmed(self.pose.draft.name.as_str());
        if to.as_str().is_empty() || str_eq(to.as_str(), from.as_str()) {
            self.info(String::from_str("Name field is unchanged — nothing to rename."));
            return None;
        }
        if poses.contains_key(chars_of(to.as_str()).as_slice()) {
            self.error(cat3("'", to.as_str(), "' already exists — pick another name."));
            return None;
        }
        self.pose.draft.name = to;
        Some(from)
    }

    /// After the renamed pose draft was written and the entry `from`
    /// replaced (with `refs` referencing animations repointed): the draft is
    /// the loaded, clean entry and the status reports the rename.
    pub fn finish_pose_rename(&mut self, from: &str, refs: usize)
        ensures
            opt_view(final(self).pose.loaded_name) == Some(old(self).pose.draft@.name),
            final(self).pose.checkpoint matches Some(c) && c@ == old(self).pose.draft@,
            final(self).status.shows(
                old(self).status,
                StatusKind::Success,
                renamed_message(from@, old(self).pose.draft@.name, refs as nat),
            ),
            *final(self) == (EditorSession {
                pose: PoseEditorState {
                    loaded_name: final(self).pose.loaded_name,
                    checkpoint: final(self).pose.checkpoint,
                    ..old(self).pose
                },
                status: final(self).status,
                ..*old(self)
            }),
    {
        let to = self.pose.draft.name.clone();
        let mut msg = cat3("Renamed '", from, "' → '");
        msg.append(to.as_str());
        if refs == 0 {
            msg.append("'.");
        } else {
            msg.append("' and updated ");
            let n = number(refs);
            msg.append(n.as_str());
            msg.append(" referencing animation(s).");
        }
        self.pose.loaded_name = Some(to);
        self.pose.checkpoint();
        self.success(msg);
    }

    /// Checks a rename of the loaded animation to the draft's (trimmed)
    /// name, as [`Self::begin_pose_rename`]; it is also refused when the
    /// loaded animation has left the library.
    pub fn begin_animation_rename(&mut self, animations: &NamedMap<Animation<S>>) -> (r: Option<String>)
        ensures
            ({
                let to = trim(old(self).animation.draft@.name);
                match opt_view(old(self).animation.loaded_name) {
                    None => {
                        &&& r is None
                        &&& final(self).status.shows(
                            old(self).status,
                            StatusKind::Error,
                            "Load an animation from the library before renaming."@,
                        )
                        &&& *final(self) == (EditorSession { status: final(self).status, ..*old(self) })
                    },
                    Some(from) => if to.len() == 0 || to == from {
                        &&& r is None
                        &&& final(self).status.shows(
                            old(self).status,
                            StatusKind::Info,
                            "Name field is unchanged — nothing to rename."@,
                        )
                        &&& *final(self) == (EditorSession { status: final(self).status, ..*old(self) })
                    } else if animations@.contains_key(to) {
                        &&& r is None
                        &&& final(self).status.shows(old(self).status, StatusKind::Error, taken_message(to))
                        &&& *final(self) == (EditorSession { status: final(self).status, ..*old(self) })
                    } else if !animations@.contains_key(from) {
                        &&& r is None
                        &&& final(self).status.shows(
                            old(self).status,
                            StatusKind::Error,
                            "'"@ + from + "' is no longer in the library."@,
                        )
                        &&& *final(self) == (EditorSession { status: final(self).status, ..*old(self) })
                    } else {
                        &&& r matches Some(f) && f@ == from
                        &&& final(self).animation.draft@ == (AnimationFileView { name: to, ..old(self).animation.draft@ })
                        &&& *final(self) == (EditorSession {
                            animation: AnimationEditorState { draft: final(self).animation.draft, ..old(self).animation },
                            ..*old(self)
                        })
                    },
                }
            }),
    {
        let from = match &self.animation.loaded_name {
            Some(l) => l.clone(),
            None => {
                self.error(String::from_str("Load an animation from the library before renaming."));
                return None;
            },
        };
        let to = trimmed(self.animation.draft.name.as_str());
        if to.as_str().is_empty() || str_eq(to.as_str(), from.as_str()) {
            self.info(String::from_str("Name field is unchanged — nothing to rename."));
            return None;
        }
        if animations.contains_key(chars_of(to.as_str()).as_slice()) {
            self.error(cat3("'", to.as_str(), "' already exists — pick another name."));
            return None;
        }
        if !animations.contains_key(chars_of(from.as_str()).as_slice()) {
            self.error(cat3("'", from.as_str(), "' is no longer in the library."));
            return None;
        }
        self.animation.draft.name = to;
        Some(from)
    }

    /// After the renamed animation draft was written: the library entry
    /// `from` moves to the draft's name (and takes that name), the draft is
    /// the loaded, clean entry, and the status reports the rename.
    pub fn finish_animation_rename(&mut self, from: &str, animations: &mut NamedMap<Animation<S>>)
        ensures
            ({
                let to = old(self).animation.draft@.name;
                if old(animations)@.contains_key(from@) {
                    let moved = final(animations)@[to];
                    let was = old(animations)@[from@];
                    &&& final(animations)@.dom() == old(animations)@.dom().remove(from@).insert(to)
                    &&& forall|k: Seq<char>| #[trigger] final(animations)@.contains_key(k) && k != to
                        ==> final(animations)@[k] == old(animations)@[k]
                    &&& moved.name@ == to
                    &&& moved.description == was.description
                    &&& moved.looping == was.looping
                    &&& moved.vrm_local_rotations == was.vrm_local_rotations
                    &&& moved.play_automatically == was.play_automatically
                    &&& moved.keyframes == was.keyframes
                } else {
                    final(animations)@ == old(animations)@
                }
            }),
            opt_view(final(self).animation.loaded_name) == Some(old(self).animation.draft@.name),
            final(self).animation.checkpoint matches Some(c) && c@ == old(self).animation.draft@,
            final(self).status.shows(
                old(self).status,
                StatusKind::Success,
                renamed_message(from@, old(self).animation.draft@.name, 0),
            ),
            *final(self) == (EditorSession {
                animation: AnimationEditorState {
                    loaded_name: final(self).animation.loaded_name,
                    checkpoint: final(self).animation.checkpoint,
                    ..old(self).animation
                },
                status: final(self).status,
                ..*old(self)
            }),
    {
        let to = self.animation.draft.name.clone();
        match animations.remove(chars_of(from).as_slice()) {
            Some(mut a) => {
                a.name = to.clone();
                animations.insert(chars_of(to.as_str()), a);
            },
            None => {},
        }
        let mut msg = cat3("Renamed '", from, "' → '");
        msg.append(to.as_str());
        msg.append("'.");
        self.animation.loaded_name = Some(to);
        self.animation.checkpoint();
        self.success(msg);
    }

    /// After the pose `name` was deleted: a draft loaded from it becomes an
    /// unsaved copy, and the status warns about the animations in `refs`
    /// that still reference it.
    pub fn note_pose_deleted(&mut self, name: &str, refs: &[String])
        ensures
            ({
                let was_loaded = opt_view(old(self).pose.loaded_name) == Some(name@);
                &&& was_loaded ==> final(self).pose.loaded_name is None && final(self).pose.checkpoint is None
                &&& !was_loaded ==> final(self).pose.loaded_name == old(self).pose.loaded_name
                    && final(self).pose.checkpoint == old(self).pose.checkpoint
            }),
            final(self).status.shows(
                old(self).status,
                if refs@.len() == 0 { StatusKind::Success } else { StatusKind::Error },
                deleted_pose_message(name@, refs@.map_values(|n: String| n@)),
            ),
            *final(self) == (EditorSession {
                pose: PoseEditorState {
                    loaded_name: final(self).pose.loaded_name,
                    checkpoint: final(self).pose.checkpoint,
                    ..old(self).pose
                },
                status: final(self).status,
                ..*old(self)
            }),
    {
        let was_loaded = match &self.pose.loaded_name {
            Some(l) => str_eq(l.as_str(), name),
            None => false,
        };
        if was_loaded {
            self.pose.loaded_name = None;
            self.pose.checkpoint = None;
        }
        if refs.len() == 0 {
            self.success(cat3("Deleted pose '", name, "'."));
        } else {
            let mut msg = cat3("Deleted pose '", name, "' — WARNING: ");
            let n = number(refs.len());
            msg.append(n.as_str());
            msg.append(" animation(s) still reference it: ");
            let joined = comma_join(refs);
            msg.append(joined.as_str());
            msg.append(".");
            self.error(msg);
        }
    }

    /// After the animation `name` was deleted: a draft loaded from it
    /// becomes an unsaved copy.
    pub fn note_animation_deleted(&mut self, name: &str)
        ensures
            ({
                let was_loaded = opt_view(old(self).animation.loaded_name) == Some(name@);
                &&& was_loaded ==> final(self).animation.loaded_name is None && final(self).animation.checkpoint is None
                &&& !was_loaded ==> final(self).animation.loaded_name == old(self).animation.loaded_name
                    && final(self).animation.checkpoint == old(self).animation.checkpoint
            }),
            final(self).status.shows(old(self).status, StatusKind::Success, "Deleted animation '"@ + name@ + "'."@),
            *final(self) == (EditorSession {
                animation: AnimationEditorState {
                    loaded_name: final(self).animation.loaded_name,
                    checkpoint: final(self).animation.checkpoint,
                    ..old(self).animation
                },
                status: final(self).status,
                ..*old(self)
            }),
    {
        let was_loaded = match &self.animation.loaded_name {
            Some(l) => str_eq(l.as_str(), name),
            None => false,
        };
        if was_loaded {
            self.animation.loaded_name = None;
            self.animation.checkpoint = None;
        }
        self.success(cat3("Deleted animation '", name, "'."));
    }

    /// Drops every joint of the pose draft (the confirmed "clear all
    /// joints").
    pub fn clear_pose_joints(&mut self)
        ensures
            final(self).pose.draft@ == (PoseView { joints: Map::empty(), ..old(self).pose.draft@ }),
            final(self).status.shows(
                old(self).status,
                StatusKind::Info,
                "Cleared all joints from the pose draft."@,
            ),
            *final(self) == (EditorSession {
                pose: PoseEditorState { draft: final(self).pose.draft, ..old(self).pose },
                status: final(self).status,
                ..*old(self)
            }),
    {
        self.pose.draft.joints = NamedMap::new();
        self.info(String::from_str("Cleared all joints from the pose draft."));
    }

    /// Seeds an untouched, empty pose draft from the library's `idle` pose
    /// (once): the draft becomes a copy of `idle` under a fresh name (`new_pose`,
    /// else the first free `new_pose_N`, else `new_pose_{fallback}`) and is
    /// checkpointed. Returns whether it did.
    pub fn auto_fill_pose_draft(&mut self, poses: &NamedMap<Pose<S>>, fallback: u32) -> (filled: bool)
        ensures
            filled == (old(self).tab == EditorTab::Pose && old(self).pose.draft@.joints.len() == 0
                && !old(self).pose.auto_fill_done && poses@.contains_key("idle"@)),
            filled ==> {
                &&& exists|names: Seq<String>| (forall|k: Seq<char>| #[trigger] taken(names, k) <==> poses@.contains_key(k))
                    && final(self).pose.draft@ == (PoseView {
                        name: #[trigger] unique_name_spec("new_pose"@, names, fallback),
                        ..poses@["idle"@]@
                    })
                &&& final(self).pose.auto_fill_done
                &&& final(self).pose.checkpoint matches Some(c) && c@ == final(self).pose.draft@
                &&& *final(self) == (EditorSession {
                    pose: PoseEditorState {
                        draft: final(self).pose.draft,
                        checkpoint: final(self).pose.checkpoint,
                        auto_fill_done: true,
                        ..old(self).pose
                    },
                    ..*old(self)
                })
            },
            !filled ==> *final(self) == *old(self),
    {
        if self.tab != EditorTab::Pose || !self.pose.draft.joints.is_empty() || self.pose.auto_fill_done {
            return false;
        }
        let idle = match poses.get(chars_of("idle").as_slice()) {
            Some(p) => p,
            None => {
                return false;
            },
        };
        let existing = key_strings(poses);
        let mut draft = idle.duplicate();
        draft.name = unique_name("new_pose", existing.as_slice(), fallback);
        self.pose.draft = draft;
        self.pose.auto_fill_done = true;
        self.pose.checkpoint();
        true
    }

    /// What the preview shows this frame, `dt_ms` after the last: the pose
    /// draft (the animation preview stops) if its joints all exist; else the
    /// animation draft resolved against `poses`, at its playhead moved on by
    /// the frame, looping as the transport says. A draft that cannot be
    /// shown is reported on the status line (an animation's also rewinds and
    /// stops the transport).
    pub fn preview_target(&mut self, poses: &NamedMap<Pose<S>>, skeleton: &Skeleton, dt_ms: u32) -> (r: PreviewTarget<S>)
        requires
            old(self).tab == EditorTab::Animation ==> playable_total(durations(old(self).animation.draft.keyframes@)) <= u32::MAX,
        ensures
            old(self).tab == EditorTab::Pose ==> {
                let e = old(self).pose.draft.joints.entries_view();
                &&& !final(self).animation.playing
                &&& if resolvable(old(self).pose.draft, *skeleton) {
                    &&& r matches PreviewTarget::Pose(p) && p@ == old(self).pose.draft@
                    &&& *final(self) == (EditorSession {
                        animation: AnimationEditorState { playing: false, ..old(self).animation },
                        ..*old(self)
                    })
                } else {
                    &&& r is Keep
                    &&& exists|k: int| 0 <= k < e.len() && all_known(skeleton.joint_seq(), e, k)
                        && joint_index(skeleton.joint_seq(), #[trigger] e[k].0) < 0
                        && final(self).status.shows(
                            old(self).status,
                            StatusKind::Error,
                            "pose: "@ + "pose references unknown joint '"@ + e[k].0 + "'"@,
                        )
                    &&& *final(self) == (EditorSession {
                        animation: AnimationEditorState { playing: false, ..old(self).animation },
                        status: final(self).status,
                        ..*old(self)
                    })
                }
            },
            old(self).tab == EditorTab::Animation ==> {
                let draft = old(self).animation.draft;
                let ks = draft.keyframes@;
                if forall|i: int| 0 <= i < ks.len() ==> #[trigger] keyframe_pose(draft.name@, i as nat, ks[i]@, poses@) is Ok {
                    let moved = advanced_transport(
                        old(self).animation.playhead_ms,
                        old(self).animation.playing,
                        old(self).animation.loop_playback,
                        playable_total(durations(ks)) as u32,
                        dt_ms,
                    );
                    &&& r matches PreviewTarget::AnimationAt { animation: a, playhead_ms } && {
                        &&& playhead_ms == moved.0
                        &&& a.name@ == draft.name@
                        &&& a.looping == old(self).animation.loop_playback
                        &&& a.vrm_local_rotations == draft.vrm_local_rotations
                        &&& a.keyframes@.len() == ks.len()
                        &&& forall|i: int| 0 <= i < ks.len() ==> {
                            let k = #[trigger] a.keyframes@[i];
                            &&& keyframe_pose(draft.name@, i as nat, ks[i]@, poses@) == Ok::<PoseView<S>, KeyframeFailure>(k.pose@)
                            &&& k.duration_ms == ks[i].duration_ms
                            &&& k.easing == ks[i].easing
                            &&& k.authoring@ == ks[i]@
                        }
                    }
                    &&& *final(self) == (EditorSession {
                        animation: AnimationEditorState {
                            playhead_ms: moved.0,
                            playing: moved.1,
                            ..old(self).animation
                        },
                        ..*old(self)
                    })
                } else {
                    &&& r is Keep
                    &&& exists|i: int, err: YamlLoadError| #[trigger] first_failure_at(draft.name@, ks, poses@, i, err)
                        && final(self).status.shows(
                            old(self).status,
                            StatusKind::Error,
                            "animation: "@ + load_error_text(err),
                        )
                    &&& *final(self) == (EditorSession {
                        animation: AnimationEditorState { playing: false, playhead_ms: 0, ..old(self).animation },
                        status: final(self).status,
                        ..*old(self)
                    })
                }
            },
    {
        match self.tab {
            EditorTab::Pose => {
                self.animation.playing = false;
                match self.pose.draft.resolve_joint_ids(skeleton) {
                    Ok(_) => PreviewTarget::Pose(self.pose.draft.duplicate()),
                    Err(e) => {
                        let m = e.message();
                        let msg = concat_str("pose: ", m.as_str());
                        let ghost n = match e {
                            PoseError::UnknownJoint(n) => n@,
                        };
                        assert(msg@ =~= "pose: "@ + "pose references unknown joint '"@ + n + "'"@);
                        self.error(msg);
                        PreviewTarget::Keep
                    },
                }
            },
            EditorTab::Animation => {
                let copy = self.animation.draft.duplicate();
                let ghost ks = self.animation.draft.keyframes@;
                let ghost cs = copy.keyframes@;
                proof {
                    assert(cs.map_values(|k: KeyframeSpec<S>| k@) == ks.map_values(|k: KeyframeSpec<S>| k@));
                    assert forall|i: int| 0 <= i < ks.len() implies #[trigger] cs[i]@ == ks[i]@ by {
                        assert(cs.map_values(|k: KeyframeSpec<S>| k@)[i] == cs[i]@);
                        assert(ks.map_values(|k: KeyframeSpec<S>| k@)[i] == ks[i]@);
                    }
                    assert(cs.len() == ks.len()) by {
                        assert(cs.map_values(|k: KeyframeSpec<S>| k@).len() == ks.map_values(|k: KeyframeSpec<S>| k@).len());
                    }
                }
                match resolve_animation(copy, poses) {
                    Err(e) => {
                        proof {
                            let i = choose|i: int| #[trigger] first_failure_at(self.animation.draft.name@, cs, poses@, i, e);
                            assert forall|j: int| 0 <= j < i implies #[trigger] keyframe_pose(self.animation.draft.name@, j as nat, ks[j]@, poses@) is Ok by {
                                assert(keyframe_pose(self.animation.draft.name@, j as nat, cs[j]@, poses@) is Ok);
                            }
                            assert(cs[i]@ == ks[i]@);
                            assert(first_failure_at(self.animation.draft.name@, ks, poses@, i, e));
                        }
                        let m = e.message();
                        self.error(concat_str("animation: ", m.as_str()));
                        self.animation.playing = false;
                        self.animation.playhead_ms = 0;
                        PreviewTarget::Keep
                    },
                    Ok(mut a) => {
                        proof {
                            assert forall|i: int| 0 <= i < ks.len() implies #[trigger] keyframe_pose(self.animation.draft.name@, i as nat, ks[i]@, poses@) is Ok by {
                                assert(cs[i]@ == ks[i]@);
                                let k = a.keyframes@[i];
                            }
                            assert(a.keyframes@.map_values(|k: crate::model::Keyframe<S>| k.duration_ms)
                                =~= durations(ks)) by {
                                assert forall|i: int| 0 <= i < ks.len() implies a.keyframes@[i].duration_ms == ks[i].duration_ms by {
                                    assert(cs[i]@ == ks[i]@);
                                }
                            }
                        }
                        let total = animation_playable_duration_ms(&a);
                        self.animation.advance_preview(total, dt_ms);
                        a.looping = self.animation.loop_playback;
                        proof {
                            assert forall|i: int| 0 <= i < ks.len() implies {
                                let k = #[trigger] a.keyframes@[i];
                                &&& keyframe_pose(self.animation.draft.name@, i as nat, ks[i]@, poses@) == Ok::<PoseView<S>, KeyframeFailure>(k.pose@)
                                &&& k.duration_ms == ks[i].duration_ms
                                &&& k.easing == ks[i].easing
                                &&& k.authoring@ == ks[i]@
                            } by {
                                assert(cs[i]@ == ks[i]@);
                            }
                        }
                        PreviewTarget::AnimationAt { animation: a, playhead_ms: self.animation.playhead_ms }
                    },
                }
            },
        }
    }
}

/// Sets `joint`'s rotation on a pose (and, when `symmetrical`, its
/// counterpart's to `mirrored`).
pub fn set_joint_euler<S: Copy>(pose: &mut Pose<S>, joint: &str, euler: EulerDeg<S>, mirrored: EulerDeg<S>, symmetrical: bool)
    ensures
        final(pose)@ == (PoseView {
            joints: rotated_joints(old(pose)@.joints, joint@, euler, mirrored, symmetrical),
            ..old(pose)@
        }),
{
    set_joint_euler_with_symmetry(pose, joint, euler, mirrored, symmetrical);
}

} // verus!
