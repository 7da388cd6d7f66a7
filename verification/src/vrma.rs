//! The integer and naming side of importing VRM Animation (`.vrma`) clips:
//! the GLB container header, VRM humanoid bone and expression names, the
//! keyframe sampling schedule, and the clean-up that keeps imported
//! keyframes continuous. Sampling the rotation curves themselves is numeric
//! and happens with the renderer.

use vstd::prelude::*;
use crate::timeline::{arrival, lemma_arrival_basics, lemma_arrival_step, playable_total};
use crate::model::{Easing, JointTarget, KeyframeSpec, KeyframeSpecView, opt_map_view};
use crate::named_map::NamedMap;
use crate::skeleton::{last_named, Skeleton};
use crate::json::{
    check_json, json_error_message, json_keys, json_kind, json_parses, keys_at, kind_at, member, member_pointer,
    node_ref, read_node_ref, JsonKind,
};
use crate::text::{ascii_lower, ascii_lowercase, chars_eq, chars_of, concat_str, contains_chars, contains_seq, has_suffix, ends_with, str_eq};

verus! {

/// Why a `.vrma` import failed.
#[derive(Debug)]
pub enum VrmaImportError {
    /// The file could not be read (path, reason).
    ReadFile(String, String),
    /// The bytes are not a GLB container (reason).
    InvalidGlb(String),
    /// The glTF payload could not be loaded (reason).
    Gltf(String),
    /// The `VRMC_vrm_animation` extension is missing or malformed (reason).
    Extension(String),
    /// The file holds no animation.
    NoAnimation,
    /// No humanoid bone maps to a rig joint.
    NoMappedBones,
    /// Sampling produced no keyframe.
    EmptyKeyframes,
}

// ---------------------------------------------------------------------------
// GLB container

/// The little-endian `u32` at `bytes[at..at + 4]`.
pub open spec fn le_u32(bytes: Seq<u8>, at: int) -> nat {
    bytes[at] as nat + bytes[at + 1] as nat * 256 + bytes[at + 2] as nat * 65536 + bytes[at + 3] as nat
        * 16777216
}

/// Whether `bytes` start a GLB container: at least the 20-byte header and
/// chunk header, beginning with the magic `glTF`.
pub open spec fn glb_header_ok(bytes: Seq<u8>) -> bool {
    bytes.len() >= 20 && bytes[0] == 0x67 && bytes[1] == 0x6c && bytes[2] == 0x54 && bytes[3] == 0x46
}

/// Where the JSON chunk lies: its length is the `u32` at offset 12 and it
/// starts at offset 20.
pub open spec fn json_chunk_end(bytes: Seq<u8>) -> nat {
    20 + le_u32(bytes, 12)
}

/// The byte range of a GLB file's JSON chunk, or why there is none.
pub open spec fn json_chunk(bytes: Seq<u8>) -> Result<(int, int), Seq<char>> {
    if !glb_header_ok(bytes) {
        Err("missing glTF magic"@)
    } else if json_chunk_end(bytes) > bytes.len() {
        Err("json chunk truncated"@)
    } else {
        Ok((20, json_chunk_end(bytes) as int))
    }
}

/// Locates the JSON chunk of a GLB container.
pub fn glb_json_chunk(bytes: &[u8]) -> (r: Result<(usize, usize), VrmaImportError>)
    ensures
        match json_chunk(bytes@) {
            Ok((a, b)) => r matches Ok((s, e)) && s == a && e == b,
            Err(m) => r matches Err(VrmaImportError::InvalidGlb(e)) && e@ == m,
        },
        r matches Ok((s, e)) ==> s <= e <= bytes@.len(),
{
    if bytes.len() < 20 || bytes[0] != 0x67 || bytes[1] != 0x6c || bytes[2] != 0x54 || bytes[3] != 0x46 {
        return Err(VrmaImportError::InvalidGlb(String::from_str("missing glTF magic")));
    }
    let len: u64 = bytes[12] as u64 + bytes[13] as u64 * 256 + bytes[14] as u64 * 65536 + bytes[15] as u64
        * 16777216;
    let end: u64 = 20 + len;
    if end > bytes.len() as u64 {
        return Err(VrmaImportError::InvalidGlb(String::from_str("json chunk truncated")));
    }
    Ok((20, end as usize))
}

/// The JSON chunk of a GLB container, checked to be a JSON text: fails with
/// the container's fault, or with the parser's message when the chunk is
/// not JSON.
pub fn glb_json_text(bytes: &[u8]) -> (r: Result<Vec<u8>, VrmaImportError>)
    ensures
        match json_chunk(bytes@) {
            Ok((a, b)) => if json_parses(bytes@.subrange(a, b)) {
                r matches Ok(c) && c@ == bytes@.subrange(a, b)
            } else {
                r matches Err(VrmaImportError::InvalidGlb(m)) && m@ == json_error_message(bytes@.subrange(a, b))
            },
            Err(m) => r matches Err(VrmaImportError::InvalidGlb(e)) && e@ == m,
        },
{
    let (start, end) = match glb_json_chunk(bytes) {
        Ok(range) => range,
        Err(e) => {
            return Err(e);
        },
    };
    let chunk = slice_range(bytes, start, end);
    match check_json(chunk) {
        Ok(()) => Ok(vstd::slice::slice_to_vec(chunk)),
        Err(m) => Err(VrmaImportError::InvalidGlb(m)),
    }
}

/// `bytes[start..end]`.
pub(crate) fn slice_range(bytes: &[u8], start: usize, end: usize) -> (s: &[u8])
    requires
        start <= end <= bytes@.len(),
    ensures
        s@ == bytes@.subrange(start as int, end as int),
{
    let (_, tail) = bytes.split_at(start);
    let (mid, _) = tail.split_at(end - start);
    assert(mid@ =~= bytes@.subrange(start as int, end as int));
    mid
}

// ---------------------------------------------------------------------------
// Names

/// VRM 1.0 humanoid bone names and the rig joints they drive.
pub const VRM_BONE_TABLE: [(&'static str, &'static str); 53] = [
    ("hips", "pelvis"),
    ("spine", "spine"),
    ("chest", "chest"),
    ("upperChest", "upper_chest"),
    ("neck", "neck"),
    ("head", "head"),
    ("jaw", "jaw"),
    ("leftUpperLeg", "left_hip"),
    ("rightUpperLeg", "right_hip"),
    ("leftLowerLeg", "left_knee"),
    ("rightLowerLeg", "right_knee"),
    ("leftFoot", "left_ankle"),
    ("rightFoot", "right_ankle"),
    ("leftToes", "left_toe"),
    ("rightToes", "right_toe"),
    ("leftShoulder", "left_clavicle"),
    ("rightShoulder", "right_clavicle"),
    ("leftUpperArm", "left_shoulder"),
    ("rightUpperArm", "right_shoulder"),
    ("leftLowerArm", "left_elbow"),
    ("rightLowerArm", "right_elbow"),
    ("leftHand", "left_wrist"),
    ("rightHand", "right_wrist"),
    ("leftThumbMetacarpal", "left_thumb_metacarpal"),
    ("leftThumbProximal", "left_thumb_proximal"),
    ("leftThumbDistal", "left_thumb_distal"),
    ("leftIndexProximal", "left_index_proximal"),
    ("leftIndexIntermediate", "left_index_intermediate"),
    ("leftIndexDistal", "left_index_distal"),
    ("leftMiddleProximal", "left_middle_proximal"),
    ("leftMiddleIntermediate", "left_middle_intermediate"),
    ("leftMiddleDistal", "left_middle_distal"),
    ("leftRingProximal", "left_ring_proximal"),
    ("leftRingIntermediate", "left_ring_intermediate"),
    ("leftRingDistal", "left_ring_distal"),
    ("leftLittleProximal", "left_little_proximal"),
    ("leftLittleIntermediate", "left_little_intermediate"),
    ("leftLittleDistal", "left_little_distal"),
    ("rightThumbMetacarpal", "right_thumb_metacarpal"),
    ("rightThumbProximal", "right_thumb_proximal"),
    ("rightThumbDistal", "right_thumb_distal"),
    ("rightIndexProximal", "right_index_proximal"),
    ("rightIndexIntermediate", "right_index_intermediate"),
    ("rightIndexDistal", "right_index_distal"),
    ("rightMiddleProximal", "right_middle_proximal"),
    ("rightMiddleIntermediate", "right_middle_intermediate"),
    ("rightMiddleDistal", "right_middle_distal"),
    ("rightRingProximal", "right_ring_proximal"),
    ("rightRingIntermediate", "right_ring_intermediate"),
    ("rightRingDistal", "right_ring_distal"),
    ("rightLittleProximal", "right_little_proximal"),
    ("rightLittleIntermediate", "right_little_intermediate"),
    ("rightLittleDistal", "right_little_distal"),
];

/// The rig joint a VRM bone drives: the first row of [`VRM_BONE_TABLE`]
/// naming it; bones not in the table drive nothing.
pub open spec fn bone_joint(vrm: Seq<char>) -> Option<Seq<char>>
{
    bone_joint_from(vrm, 0)
}

pub open spec fn bone_joint_from(vrm: Seq<char>, i: int) -> Option<Seq<char>>
    decreases 53 - i,
{
    if i < 0 || i >= 53 {
        None
    } else if VRM_BONE_TABLE[i].0@ == vrm {
        Some(VRM_BONE_TABLE[i].1@)
    } else {
        bone_joint_from(vrm, i + 1)
    }
}

/// VRM 1.0 humanoid bone name to rig joint name.
pub fn vrm_bone_to_paperdoll(vrm: &str) -> (r: Option<&'static str>)
    ensures
        match bone_joint(vrm@) {
            Some(j) => r matches Some(s) && s@ == j,
            None => r is None,
        },
{
    let v = chars_of(vrm);
    let table = VRM_BONE_TABLE;
    let mut i: usize = 0;
    while i < 53
        invariant
            i <= 53,
            table == VRM_BONE_TABLE,
            v@ == vrm@,
            bone_joint_from(vrm@, i as int) == bone_joint_from(vrm@, 0),
        decreases 53 - i,
    {
        let (name, joint) = table[i];
        if chars_eq(chars_of(name).as_slice(), v.as_slice()) {
            return Some(joint);
        }
        i = i + 1;
    }
    None
}

/// The expression presets kept verbatim.
pub const VRM_EXPRESSION_PRESETS: [&'static str; 11] = [
    "happy", "angry", "sad", "relaxed", "surprised", "blink", "aa", "ih", "ou", "ee", "oh",
];

/// Whether `s` is one of `names[0..n]`.
pub open spec fn listed(names: [&'static str; 11], n: int, s: Seq<char>) -> bool {
    exists|i: int| 0 <= i < n && #[trigger] names[i]@ == s
}

/// The paperdoll expression a VRM expression drives: the left/right blinks
/// both drive `blink`; a preset keeps its name; any other name whose
/// ASCII-lowercase form is one of the six emotion/blink presets keeps its
/// spelling as given; anything else is dropped.
pub open spec fn expression_target(vrm: Seq<char>) -> Option<Seq<char>> {
    if vrm == "blinkLeft"@ || vrm == "blinkRight"@ {
        Some("blink"@)
    } else if listed(VRM_EXPRESSION_PRESETS, 11, vrm) {
        Some(vrm)
    } else if listed(VRM_EXPRESSION_PRESETS, 6, ascii_lower(vrm)) {
        Some(vrm)
    } else {
        None
    }
}

fn listed_in(names: [&'static str; 11], n: usize, s: &[char]) -> (b: bool)
    requires
        n <= 11,
    ensures
        b == listed(names, n as int, s@),
{
    let mut i: usize = 0;
    while i < n
        invariant
            i <= n <= 11,
            forall|j: int| 0 <= j < i ==> #[trigger] names[j]@ != s@,
        decreases n - i,
    {
        if chars_eq(chars_of(names[i]).as_slice(), s) {
            return true;
        }
        i = i + 1;
    }
    false
}

/// VRM expression name to paperdoll expression name (see
/// [`expression_target`]).
pub fn vrm_expression_to_paperdoll(vrm: &str) -> (r: Option<String>)
    ensures
        match expression_target(vrm@) {
            Some(t) => r matches Some(s) && s@ == t,
            None => r is None,
        },
{
    let v = chars_of(vrm);
    if chars_eq(v.as_slice(), chars_of("blinkLeft").as_slice()) || chars_eq(v.as_slice(), chars_of("blinkRight").as_slice()) {
        return Some(String::from_str("blink"));
    }
    if listed_in(VRM_EXPRESSION_PRESETS, 11, v.as_slice()) {
        return Some(String::from_str(vrm));
    }
    let lower = ascii_lowercase(v.as_slice());
    if listed_in(VRM_EXPRESSION_PRESETS, 6, lower.as_slice()) {
        return Some(String::from_str(vrm));
    }
    None
}

/// Which import strength applies to a joint's motion.
#[derive(Debug, Clone, Copy, PartialEq, Eq, Structural)]
pub enum StrengthGroup {
    /// Finger chains (`_thumb_`, `_index_`, `_middle_`, `_ring_`, `_little_`).
    Finger,
    /// The arm from clavicle to hand.
    Arm,
    /// Everything else: spine, legs, head.
    Body,
}

/// The strength group of a joint name.
pub open spec fn strength_group(j: Seq<char>) -> StrengthGroup {
    if contains_seq(j, "_thumb_"@) || contains_seq(j, "_index_"@) || contains_seq(j, "_middle_"@)
        || contains_seq(j, "_ring_"@) || contains_seq(j, "_little_"@) {
        StrengthGroup::Finger
    } else if contains_seq(j, "_clavicle"@) || contains_seq(j, "_shoulder"@) || contains_seq(j, "_elbow"@)
        || contains_seq(j, "_wrist"@) || ends_with(j, "_hand"@) {
        StrengthGroup::Arm
    } else {
        StrengthGroup::Body
    }
}

fn has_lit(n: &[char], lit: &str) -> (b: bool)
    ensures
        b == contains_seq(n@, lit@),
{
    contains_chars(n, chars_of(lit).as_slice())
}

/// Classifies a joint for the import's per-group rotation strength.
pub fn joint_strength_group(joint: &str) -> (g: StrengthGroup)
    ensures
        g == strength_group(joint@),
{
    let j = chars_of(joint);
    let j = j.as_slice();
    if has_lit(j, "_thumb_") || has_lit(j, "_index_") || has_lit(j, "_middle_") || has_lit(j, "_ring_")
        || has_lit(j, "_little_") {
        StrengthGroup::Finger
    } else if has_lit(j, "_clavicle") || has_lit(j, "_shoulder") || has_lit(j, "_elbow") || has_lit(
        j,
        "_wrist",
    ) || has_suffix(j, chars_of("_hand").as_slice()) {
        StrengthGroup::Arm
    } else {
        StrengthGroup::Body
    }
}

} // verus!

verus! {

// ---------------------------------------------------------------------------
// Sampling schedule

/// The multiples `t, t + interval, …` that lie below `duration`.
pub open spec fn times_from(t: nat, duration: nat, interval: nat) -> Seq<nat>
    decreases (if t >= duration {
        0int
    } else {
        duration - t
    }),
{
    if interval == 0 || t >= duration {
        Seq::empty()
    } else {
        seq![t] + times_from(t + interval, duration, interval)
    }
}

/// When body keyframes are sampled: time 0, every multiple of the interval
/// (at least 1 ms) below the clip's duration, and the duration itself.
pub open spec fn sample_schedule(duration: nat, interval: nat) -> Seq<nat> {
    let i = if interval == 0 {
        1
    } else {
        interval
    };
    seq![0nat] + times_from(i, duration, i) + if duration > 0 {
        seq![duration]
    } else {
        Seq::empty()
    }
}

/// The times (ms) at which body keyframes are sampled (see
/// [`sample_schedule`]).
pub fn sample_times_ms(duration_ms: u32, sample_interval_ms: u32) -> (r: Vec<u32>)
    ensures
        r@.len() == sample_schedule(duration_ms as nat, sample_interval_ms as nat).len(),
        forall|k: int|
            0 <= k < r@.len() ==> #[trigger] r@[k] as nat == sample_schedule(
                duration_ms as nat,
                sample_interval_ms as nat,
            )[k],
{
    let interval: u32 = if sample_interval_ms == 0 {
        1
    } else {
        sample_interval_ms
    };
    let ghost target = sample_schedule(duration_ms as nat, sample_interval_ms as nat);
    let ghost mid = times_from(interval as nat, duration_ms as nat, interval as nat);
    let mut out: Vec<u32> = Vec::new();
    out.push(0);
    let mut t: u32 = interval;
    assert(out@.map_values(|x: u32| x as nat) =~= seq![0nat]);
    loop
        invariant_except_break
            out@.map_values(|x: u32| x as nat) + times_from(
                t as nat,
                duration_ms as nat,
                interval as nat,
            ) == seq![0nat] + mid,
        invariant
            interval > 0,
            mid == times_from(interval as nat, duration_ms as nat, interval as nat),
        ensures
            out@.map_values(|x: u32| x as nat) == seq![0nat] + mid,
        decreases (if t >= duration_ms {
            0int
        } else {
            duration_ms - t
        }),
    {
        let ghost before = out@.map_values(|x: u32| x as nat);
        if t >= duration_ms {
            assert(before + times_from(t as nat, duration_ms as nat, interval as nat) =~= before);
            break ;
        }
        let ghost rest = times_from((t + interval) as nat, duration_ms as nat, interval as nat);
        assert(times_from(t as nat, duration_ms as nat, interval as nat) =~= seq![t as nat]
            + rest);
        out.push(t);
        assert(out@.map_values(|x: u32| x as nat) =~= before.push(t as nat));
        assert(before.push(t as nat) + rest =~= before + (seq![t as nat] + rest));
        if interval > u32::MAX - t {
            assert(rest =~= Seq::<nat>::empty());
            assert(out@.map_values(|x: u32| x as nat) + rest =~= out@.map_values(
                |x: u32| x as nat,
            ));
            break ;
        }
        t = t + interval;
    }
    let ghost before = out@.map_values(|x: u32| x as nat);
    if duration_ms > 0 {
        out.push(duration_ms);
        assert(out@.map_values(|x: u32| x as nat) =~= before.push(duration_ms as nat));
        assert(out@.map_values(|x: u32| x as nat) =~= target);
    } else {
        assert(before =~= target);
    }
    assert forall|k: int| 0 <= k < out@.len() implies #[trigger] out@[k] as nat == target[k] by {
        assert(out@.map_values(|x: u32| x as nat)[k] == out@[k] as nat);
    }
    out
}

/// The duration of each sampled keyframe: 0 for the first, then the gap
/// since the previous sample (0 if the times go backwards).
pub open spec fn gap_durations(t: Seq<u32>) -> Seq<u32> {
    Seq::new(
        t.len(),
        |i: int|
            if i == 0 {
                0u32
            } else if t[i] >= t[i - 1] {
                (t[i] - t[i - 1]) as u32
            } else {
                0u32
            },
    )
}

/// The blend durations of keyframes sampled at `times` (see
/// [`gap_durations`]).
pub fn sample_durations(times: &[u32]) -> (d: Vec<u32>)
    ensures
        d@ == gap_durations(times@),
{
    let mut d: Vec<u32> = Vec::new();
    let mut i: usize = 0;
    while i < times.len()
        invariant
            i <= times@.len(),
            d@ == gap_durations(times@).subrange(0, i as int),
        decreases times@.len() - i,
    {
        let v: u32 = if i == 0 {
            0
        } else {
            times[i].saturating_sub(times[i - 1])
        };
        d.push(v);
        assert(d@ =~= gap_durations(times@).subrange(0, i + 1));
        i = i + 1;
    }
    assert(gap_durations(times@).subrange(0, times@.len() as int) =~= gap_durations(times@));
    d
}

proof fn lemma_times_from_shape(t: nat, duration: nat, interval: nat)
    requires
        interval > 0,
    ensures
        times_from(t, duration, interval).len() > 0 ==> times_from(t, duration, interval)[0] == t,
        forall|k: int|
            0 <= k < times_from(t, duration, interval).len() ==> t <= #[trigger] times_from(
                t,
                duration,
                interval,
            )[k] < duration,
        forall|k: int|
            0 <= k && k + 1 < times_from(t, duration, interval).len() ==> #[trigger] times_from(
                t,
                duration,
                interval,
            )[k + 1] == times_from(t, duration, interval)[k] + interval,
    decreases (if t >= duration {
        0int
    } else {
        duration - t
    }),
{
    if t < duration {
        lemma_times_from_shape(t + interval, duration, interval);
        let rest = times_from(t + interval, duration, interval);
        let all = times_from(t, duration, interval);
        assert(all == seq![t] + rest);
        assert forall|k: int| 0 <= k < all.len() implies t <= #[trigger] all[k] < duration by {
            if k > 0 {
                assert(all[k] == rest[k - 1]);
            }
        }
        assert forall|k: int| 0 <= k && k + 1 < all.len() implies #[trigger] all[k + 1] == all[k]
            + interval by {
            assert(all[k + 1] == rest[k]);
            if k > 0 {
                assert(all[k] == rest[k - 1]);
                assert(rest[(k - 1) + 1] == rest[k - 1] + interval);
            } else {
                assert(rest[0] == t + interval);
                assert(all[0] == t);
            }
        }
    }
}

/// The schedule starts at 0, rises strictly, stays within the clip, and ends
/// at the clip's duration when that is not 0.
proof fn lemma_schedule_shape(duration: nat, interval: nat)
    ensures
        sample_schedule(duration, interval)[0] == 0,
        forall|k: int|
            0 <= k && k + 1 < sample_schedule(duration, interval).len() ==> #[trigger] sample_schedule(
                duration,
                interval,
            )[k] < sample_schedule(duration, interval)[k + 1],
        forall|k: int|
            0 <= k < sample_schedule(duration, interval).len() ==> #[trigger] sample_schedule(
                duration,
                interval,
            )[k] <= duration,
        sample_schedule(duration, interval).last() == duration,
{
    let i: nat = if interval == 0 {
        1
    } else {
        interval
    };
    let mid = times_from(i, duration, i);
    lemma_times_from_shape(i, duration, i);
    let tail = if duration > 0 {
        seq![duration]
    } else {
        Seq::<nat>::empty()
    };
    let s = sample_schedule(duration, interval);
    assert(s == seq![0nat] + mid + tail);
    assert forall|k: int| 0 <= k && k + 1 < s.len() implies #[trigger] s[k] < s[k + 1] by {
        if k == 0 {
            if mid.len() > 0 {
                assert(s[1] == mid[0]);
            } else {
                assert(s[1] == duration);
            }
        } else if k < mid.len() {
            assert(s[k] == mid[k - 1]);
            assert(s[k + 1] == mid[k]);
            assert(mid[(k - 1) + 1] == mid[k - 1] + i);
        } else {
            assert(k == mid.len());
            assert(s[k] == mid[k - 1]);
            assert(s[k + 1] == duration);
        }
    }
    assert forall|k: int| 0 <= k < s.len() implies #[trigger] s[k] <= duration by {
        if 0 < k <= mid.len() {
            assert(s[k] == mid[k - 1]);
        }
    }
}

/// Law: keyframes sampled on the schedule blend for exactly the clip's
/// duration, each sample being reached at its own time.
pub proof fn lemma_sampled_durations_cover_clip(duration: u32, interval: u32, times: Seq<u32>)
    requires
        times.len() == sample_schedule(duration as nat, interval as nat).len(),
        forall|k: int|
            0 <= k < times.len() ==> #[trigger] times[k] as nat == sample_schedule(
                duration as nat,
                interval as nat,
            )[k],
    ensures
        forall|k: int|
            0 <= k < times.len() ==> #[trigger] arrival(gap_durations(times), k) == times[k],
        playable_total(gap_durations(times)) == duration,
{
    let s = sample_schedule(duration as nat, interval as nat);
    lemma_schedule_shape(duration as nat, interval as nat);
    let g = gap_durations(times);
    assert forall|k: int| 0 <= k < times.len() implies #[trigger] arrival(g, k) == times[k] by {
        lemma_arrival_up_to(times, k);
    }
    assert(times[times.len() - 1] as nat == s.last());
}

proof fn lemma_arrival_up_to(times: Seq<u32>, k: int)
    requires
        0 <= k < times.len(),
        times[0] == 0,
        forall|j: int| 0 <= j && j + 1 < times.len() ==> #[trigger] times[j] < times[j + 1],
    ensures
        arrival(gap_durations(times), k) == times[k],
    decreases k,
{
    let g = gap_durations(times);
    if k == 0 {
        lemma_arrival_basics(g, 0);
    } else {
        lemma_arrival_up_to(times, k - 1);
        lemma_arrival_step(g, k);
        assert(times[k - 1] < times[k]);
    }
}

/// Whether a sampled keyframe is worth keeping: it moves a joint or an
/// expression, or it is the clip's opening frame.
pub open spec fn keeps_sample<S>(k: KeyframeSpec<S>) -> bool {
    k.joints is Some || k.expressions is Some || k.duration_ms == 0
}

/// The kept samples of `s`, in order.
pub open spec fn kept_samples<S>(s: Seq<KeyframeSpec<S>>) -> Seq<KeyframeSpec<S>>
    decreases s.len(),
{
    if s.len() == 0 {
        s
    } else if keeps_sample(s[0]) {
        seq![s[0]] + kept_samples(s.drop_first())
    } else {
        kept_samples(s.drop_first())
    }
}

/// Drops sampled keyframes that move nothing (keeping the opening frame).
pub fn retain_sampled_keyframes<S>(keyframes: &mut Vec<KeyframeSpec<S>>)
    ensures
        final(keyframes)@ == kept_samples(old(keyframes)@),
{
    let mut rest: Vec<KeyframeSpec<S>> = Vec::new();
    std::mem::swap(&mut rest, keyframes);
    let ghost all = rest@;
    while rest.len() > 0
        invariant
            keyframes@ + kept_samples(rest@) == kept_samples(all),
        decreases rest@.len(),
    {
        let ghost r0 = rest@;
        let kf = rest.remove(0);
        assert(rest@ =~= r0.drop_first());
        let keep = kf.joints.is_some() || kf.expressions.is_some() || kf.duration_ms == 0;
        if keep {
            let ghost k0 = keyframes@;
            keyframes.push(kf);
            assert(keyframes@ + kept_samples(rest@) =~= k0 + (seq![r0[0]] + kept_samples(r0.drop_first())));
        }
    }
    assert(keyframes@ + kept_samples(rest@) =~= keyframes@);
}

} // verus!

verus! {

// ---------------------------------------------------------------------------
// Demo clips

/// Where the demo `.vrma` files are fetched from.
pub const DEMO_VRMA_BASE_URL: &'static str = "https://raw.githubusercontent.com/tk256ailab/vrm-viewer/main/VRMA/";

/// A demo clip: its file, the animation it is imported as, and its sample
/// interval.
#[derive(Debug, Clone, Copy)]
pub struct DemoMotion {
    pub file_name: &'static str,
    pub animation_name: &'static str,
    pub sample_interval_ms: u32,
}

/// The curated demo clips, in fetch order.
pub fn demo_motions() -> (d: Vec<DemoMotion>)
    ensures
        d@.len() == 3,
        d@[0].file_name@ == "Clapping.vrma"@ && d@[0].animation_name@ == "vrma_clapping"@
            && d@[0].sample_interval_ms == 120,
        d@[1].file_name@ == "Jump.vrma"@ && d@[1].animation_name@ == "vrma_jump"@
            && d@[1].sample_interval_ms == 100,
        d@[2].file_name@ == "Goodbye.vrma"@ && d@[2].animation_name@ == "vrma_goodbye"@
            && d@[2].sample_interval_ms == 120,
{
    let mut d: Vec<DemoMotion> = Vec::new();
    d.push(DemoMotion { file_name: "Clapping.vrma", animation_name: "vrma_clapping", sample_interval_ms: 120 });
    d.push(DemoMotion { file_name: "Jump.vrma", animation_name: "vrma_jump", sample_interval_ms: 100 });
    d.push(DemoMotion { file_name: "Goodbye.vrma", animation_name: "vrma_goodbye", sample_interval_ms: 120 });
    d
}

} // verus!

verus! {

// ---------------------------------------------------------------------------
// Bone and expression node maps

/// The `humanoid.humanBones` field of the animation extension, as read from
/// the JSON: absent, not an object, or its entries in order, each a VRM bone
/// name with the node index its `node` field gave (or why it could not be
/// read).
#[derive(Debug)]
pub enum HumanBonesField {
    Missing,
    NotAnObject,
    Entries(Vec<(String, Result<usize, String>)>),
}

/// A bone entry with its texts as characters.
pub open spec fn bone_entry_view(e: (String, Result<usize, String>)) -> (
    Seq<char>,
    Result<usize, Seq<char>>,
) {
    (
        e.0@,
        match e.1 {
            Ok(n) => Ok(n),
            Err(m) => Err(m@),
        },
    )
}

/// A node/name pair with the name as characters.
pub open spec fn pair_view(p: (usize, String)) -> (usize, Seq<char>) {
    (p.0, p.1@)
}

/// The node/joint pairs the bone entries `e` yield, in order: bones without a
/// rig joint are skipped, and the first unreadable entry of a mapped bone
/// stops with its message.
pub open spec fn bone_pairs(e: Seq<(Seq<char>, Result<usize, Seq<char>>)>) -> Result<
    Seq<(usize, Seq<char>)>,
    Seq<char>,
>
    decreases e.len(),
{
    if e.len() == 0 {
        Ok(Seq::empty())
    } else {
        match bone_pairs(e.drop_last()) {
            Err(m) => Err(m),
            Ok(p) => match bone_joint(e.last().0) {
                None => Ok(p),
                Some(j) => match e.last().1 {
                    Err(m) => Err(m),
                    Ok(n) => Ok(p.push((n, j))),
                },
            },
        }
    }
}

proof fn lemma_bone_pairs_err(e: Seq<(Seq<char>, Result<usize, Seq<char>>)>, k: int)
    requires
        0 <= k <= e.len(),
        bone_pairs(e.subrange(0, k)) is Err,
    ensures
        bone_pairs(e) == bone_pairs(e.subrange(0, k)),
    decreases e.len() - k,
{
    if k < e.len() {
        assert(e.subrange(0, k + 1).drop_last() =~= e.subrange(0, k));
        lemma_bone_pairs_err(e, k + 1);
    } else {
        assert(e.subrange(0, k) =~= e);
    }
}

/// Maps the `humanBones` field to node/joint pairs (see [`bone_pairs`]); a
/// later pair for the same node overrides an earlier one. A missing or
/// non-object field, or an unreadable entry, is an `Extension` error; no
/// mapped bone at all is `NoMappedBones`.
pub fn humanoid_node_map(bones: &HumanBonesField) -> (r: Result<Vec<(usize, String)>, VrmaImportError>)
    ensures
        match bones {
            HumanBonesField::Missing => r matches Err(VrmaImportError::Extension(m)) && m@
                == "missing humanoid.humanBones"@,
            HumanBonesField::NotAnObject => r matches Err(VrmaImportError::Extension(m)) && m@
                == "humanBones not an object"@,
            HumanBonesField::Entries(e) => match bone_pairs(
                e@.map_values(|x: (String, Result<usize, String>)| bone_entry_view(x)),
            ) {
                Err(m) => r matches Err(VrmaImportError::Extension(s)) && s@ == m,
                Ok(p) => if p.len() == 0 {
                    r matches Err(VrmaImportError::NoMappedBones)
                } else {
                    r matches Ok(v) && v@.map_values(|x: (usize, String)| pair_view(x)) == p
                },
            },
        },
{
    let entries = match bones {
        HumanBonesField::Missing => {
            return Err(VrmaImportError::Extension(String::from_str("missing humanoid.humanBones")));
        },
        HumanBonesField::NotAnObject => {
            return Err(VrmaImportError::Extension(String::from_str("humanBones not an object")));
        },
        HumanBonesField::Entries(e) => e,
    };
    let ghost ev = entries@.map_values(|x: (String, Result<usize, String>)| bone_entry_view(x));
    let mut out: Vec<(usize, String)> = Vec::new();
    assert(ev.subrange(0, 0) =~= Seq::<(Seq<char>, Result<usize, Seq<char>>)>::empty());
    assert(out@.map_values(|x: (usize, String)| pair_view(x)) =~= Seq::<(usize, Seq<char>)>::empty());
    let mut i: usize = 0;
    while i < entries.len()
        invariant
            i <= entries@.len(),
            *bones == HumanBonesField::Entries(*entries),
            ev == entries@.map_values(|x: (String, Result<usize, String>)| bone_entry_view(x)),
            bone_pairs(ev.subrange(0, i as int)) == Ok::<Seq<(usize, Seq<char>)>, Seq<char>>(
                out@.map_values(|x: (usize, String)| pair_view(x)),
            ),
        decreases entries@.len() - i,
    {
        assert(ev.subrange(0, i + 1).drop_last() =~= ev.subrange(0, i as int));
        assert(ev.subrange(0, i + 1).last() == bone_entry_view(entries@[i as int]));
        let (name, node) = &entries[i];
        match vrm_bone_to_paperdoll(name.as_str()) {
            None => {},
            Some(joint) => match node {
                Err(m) => {
                    proof {
                        lemma_bone_pairs_err(ev, i + 1);
                        assert(ev.subrange(0, ev.len() as int) =~= ev);
                    }
                    return Err(VrmaImportError::Extension(m.clone()));
                },
                Ok(n) => {
                    let ghost before = out@.map_values(|x: (usize, String)| pair_view(x));
                    out.push((*n, String::from_str(joint)));
                    assert(out@.map_values(|x: (usize, String)| pair_view(x)) =~= before.push(
                        (*n, joint@),
                    ));
                },
            },
        }
        i = i + 1;
    }
    assert(ev.subrange(0, entries@.len() as int) =~= ev);
    if out.len() == 0 {
        return Err(VrmaImportError::NoMappedBones);
    }
    Ok(out)
}

/// An expression entry with its name as characters.
pub open spec fn expression_entry_view(e: (String, Option<usize>)) -> (Seq<char>, Option<usize>) {
    (e.0@, e.1)
}

/// The node/expression pairs the expression entries `e` yield, in order:
/// entries whose node could not be read, or whose name drives no paperdoll
/// expression, are skipped.
pub open spec fn expression_pairs(e: Seq<(Seq<char>, Option<usize>)>) -> Seq<(usize, Seq<char>)>
    decreases e.len(),
{
    if e.len() == 0 {
        Seq::empty()
    } else {
        let p = expression_pairs(e.drop_last());
        match (e.last().1, expression_target(e.last().0)) {
            (Some(n), Some(t)) => p.push((n, t)),
            _ => p,
        }
    }
}

/// Maps the expression entries of the animation extension (its `preset`
/// entries, then its `custom` ones, each a name with the node index read
/// from it, if any) to node/expression pairs (see [`expression_pairs`]).
pub fn expression_node_map(entries: &[(String, Option<usize>)]) -> (r: Vec<(usize, String)>)
    ensures
        r@.map_values(|x: (usize, String)| pair_view(x)) == expression_pairs(
            entries@.map_values(|x: (String, Option<usize>)| expression_entry_view(x)),
        ),
{
    let ghost ev = entries@.map_values(|x: (String, Option<usize>)| expression_entry_view(x));
    let mut out: Vec<(usize, String)> = Vec::new();
    assert(ev.subrange(0, 0) =~= Seq::<(Seq<char>, Option<usize>)>::empty());
    assert(out@.map_values(|x: (usize, String)| pair_view(x)) =~= Seq::<(usize, Seq<char>)>::empty());
    let mut i: usize = 0;
    while i < entries.len()
        invariant
            i <= entries@.len(),
            ev == entries@.map_values(|x: (String, Option<usize>)| expression_entry_view(x)),
            expression_pairs(ev.subrange(0, i as int)) == out@.map_values(
                |x: (usize, String)| pair_view(x),
            ),
        decreases entries@.len() - i,
    {
        assert(ev.subrange(0, i + 1).drop_last() =~= ev.subrange(0, i as int));
        assert(ev.subrange(0, i + 1).last() == expression_entry_view(entries@[i as int]));
        let (name, node) = &entries[i];
        match node {
            None => {},
            Some(n) => match vrm_expression_to_paperdoll(name.as_str()) {
                None => {},
                Some(t) => {
                    let ghost before = out@.map_values(|x: (usize, String)| pair_view(x));
                    let ghost tv = t@;
                    out.push((*n, t));
                    assert(out@.map_values(|x: (usize, String)| pair_view(x)) =~= before.push(
                        (*n, tv),
                    ));
                },
            },
        }
        i = i + 1;
    }
    assert(ev.subrange(0, entries@.len() as int) =~= ev);
    out
}

// ---------------------------------------------------------------------------
// Reading the animation extension

/// Where the animation extension sits in the document.
pub open spec fn animation_ext_ptr() -> Seq<char> {
    "/extensions/VRMC_vrm_animation"@
}

/// Where the extension's humanoid bone table sits.
pub open spec fn human_bones_ptr() -> Seq<char> {
    "/extensions/VRMC_vrm_animation/humanoid/humanBones"@
}

/// The bone entries of the table whose keys are `ks`: each bone name with
/// its node reference.
pub open spec fn bone_entries(bytes: Seq<u8>, ks: Seq<Seq<char>>) -> Seq<(Seq<char>, Result<usize, Seq<char>>)> {
    ks.map_values(|k: Seq<char>| (k, node_ref(bytes, member(human_bones_ptr(), k))))
}

/// Reads the humanoid bone table of the animation extension in the JSON
/// text `bytes`.
pub fn human_bones_field(bytes: &[u8]) -> (r: HumanBonesField)
    requires
        json_parses(bytes@),
    ensures
        match r {
            HumanBonesField::Missing => json_kind(bytes@, human_bones_ptr()) == JsonKind::Missing,
            HumanBonesField::NotAnObject => json_kind(bytes@, human_bones_ptr()) != JsonKind::Missing
                && json_keys(bytes@, human_bones_ptr()) is None,
            HumanBonesField::Entries(e) => {
                &&& json_kind(bytes@, human_bones_ptr()) != JsonKind::Missing
                &&& json_keys(bytes@, human_bones_ptr()) matches Some(ks)
                &&& e@.map_values(|x: (String, Result<usize, String>)| bone_entry_view(x)) == bone_entries(bytes@, ks)
            },
        },
{
    let ptr = "/extensions/VRMC_vrm_animation/humanoid/humanBones";
    if kind_at(bytes, ptr) == JsonKind::Missing {
        return HumanBonesField::Missing;
    }
    let keys = match keys_at(bytes, ptr) {
        None => {
            return HumanBonesField::NotAnObject;
        },
        Some(k) => k,
    };
    let ghost ks = keys@.map_values(|k: String| k@);
    let mut out: Vec<(String, Result<usize, String>)> = Vec::new();
    let mut i: usize = 0;
    while i < keys.len()
        invariant
            i <= keys@.len(),
            ks == keys@.map_values(|k: String| k@),
            json_parses(bytes@),
            ptr@ == human_bones_ptr(),
            out@.len() == i,
            out@.map_values(|x: (String, Result<usize, String>)| bone_entry_view(x)) =~= bone_entries(
                bytes@,
                ks.subrange(0, i as int),
            ),
        decreases keys@.len() - i,
    {
        let q = member_pointer(ptr, keys[i].as_str());
        let node = read_node_ref(bytes, q.as_str());
        let ghost before = out@.map_values(|x: (String, Result<usize, String>)| bone_entry_view(x));
        let name = keys[i].clone();
        assert(name@ == ks[i as int]);
        out.push((name, node));
        assert(bone_entry_view(out@[i as int]) == (ks[i as int], node_ref(bytes@, member(human_bones_ptr(), ks[i as int]))));
        assert(out@.map_values(|x: (String, Result<usize, String>)| bone_entry_view(x)) =~= before.push(
            bone_entry_view(out@[i as int]),
        ));
        assert(ks.subrange(0, i + 1) =~= ks.subrange(0, i as int).push(ks[i as int]));
        i = i + 1;
    }
    assert(ks.subrange(0, keys@.len() as int) =~= ks);
    HumanBonesField::Entries(out)
}

/// The expression entries of one section (`preset` or `custom`) of the
/// animation extension: each name with its node, when its reference reads.
/// A section that is not an object has none.
pub open spec fn expression_section(bytes: Seq<u8>, section: Seq<char>) -> Seq<(Seq<char>, Option<usize>)> {
    let p = "/extensions/VRMC_vrm_animation/expressions/"@ + section;
    match json_keys(bytes, p) {
        None => Seq::empty(),
        Some(ks) => ks.map_values(
            |k: Seq<char>|
                (
                    k,
                    match node_ref(bytes, member(p, k)) {
                        Ok(n) => Some(n),
                        Err(_) => None,
                    },
                ),
        ),
    }
}

/// The expression entries of the animation extension: its `preset` entries,
/// then its `custom` ones.
pub open spec fn animation_expression_entries(bytes: Seq<u8>) -> Seq<(Seq<char>, Option<usize>)> {
    expression_section(bytes, "preset"@) + expression_section(bytes, "custom"@)
}

fn push_section_entries(bytes: &[u8], section: &str, out: &mut Vec<(String, Option<usize>)>)
    requires
        json_parses(bytes@),
    ensures
        final(out)@.map_values(|x: (String, Option<usize>)| expression_entry_view(x)) == old(out)@.map_values(
            |x: (String, Option<usize>)| expression_entry_view(x),
        ) + expression_section(bytes@, section@),
{
    let p = concat_str("/extensions/VRMC_vrm_animation/expressions/", section);
    let ghost start = old(out)@.map_values(|x: (String, Option<usize>)| expression_entry_view(x));
    let keys = match keys_at(bytes, p.as_str()) {
        None => {
            assert(out@.map_values(|x: (String, Option<usize>)| expression_entry_view(x)) =~= start
                + Seq::<(Seq<char>, Option<usize>)>::empty());
            return;
        },
        Some(k) => k,
    };
    let ghost ks = keys@.map_values(|k: String| k@);
    let ghost es = expression_section(bytes@, section@);
    assert(es == ks.map_values(
        |k: Seq<char>|
            (
                k,
                match node_ref(bytes@, member(p@, k)) {
                    Ok(n) => Some(n),
                    Err(_) => None,
                },
            ),
    ));
    let mut i: usize = 0;
    while i < keys.len()
        invariant
            i <= keys@.len(),
            ks == keys@.map_values(|k: String| k@),
            json_parses(bytes@),
            es.len() == ks.len(),
            forall|j: int| 0 <= j < ks.len() ==> #[trigger] es[j] == (
                ks[j],
                match node_ref(bytes@, member(p@, ks[j])) {
                    Ok(n) => Some(n),
                    Err(_) => None,
                },
            ),
            out@.map_values(|x: (String, Option<usize>)| expression_entry_view(x)) =~= start + es.subrange(
                0,
                i as int,
            ),
        decreases keys@.len() - i,
    {
        let q = member_pointer(p.as_str(), keys[i].as_str());
        let node = match read_node_ref(bytes, q.as_str()) {
            Ok(n) => Some(n),
            Err(_) => None,
        };
        let ghost before = out@.map_values(|x: (String, Option<usize>)| expression_entry_view(x));
        out.push((keys[i].clone(), node));
        assert(es[i as int] == (ks[i as int], node));
        assert(out@.map_values(|x: (String, Option<usize>)| expression_entry_view(x)) =~= before.push(
            es[i as int],
        ));
        assert(es.subrange(0, i + 1) =~= es.subrange(0, i as int).push(es[i as int]));
        i = i + 1;
    }
    assert(es.subrange(0, keys@.len() as int) =~= es);
}

/// Reads the expression entries of the animation extension in the JSON text
/// `bytes` (see [`animation_expression_entries`]).
pub fn expression_entries(bytes: &[u8]) -> (r: Vec<(String, Option<usize>)>)
    requires
        json_parses(bytes@),
    ensures
        r@.map_values(|x: (String, Option<usize>)| expression_entry_view(x)) == animation_expression_entries(bytes@),
{
    let mut out: Vec<(String, Option<usize>)> = Vec::new();
    assert(out@.map_values(|x: (String, Option<usize>)| expression_entry_view(x)) =~= Seq::<(Seq<char>, Option<usize>)>::empty());
    push_section_entries(bytes, "preset", &mut out);
    push_section_entries(bytes, "custom", &mut out);
    assert(out@.map_values(|x: (String, Option<usize>)| expression_entry_view(x)) =~= animation_expression_entries(bytes@));
    out
}

/// What the humanoid bone table of the JSON text `bytes` yields: its
/// node/joint pairs, or the `Extension` message (`Some`) or
/// `NoMappedBones` (`None`) it is refused with.
pub open spec fn bones_outcome(bytes: Seq<u8>) -> Result<Seq<(usize, Seq<char>)>, Option<Seq<char>>> {
    if json_kind(bytes, human_bones_ptr()) == JsonKind::Missing {
        Err(Some("missing humanoid.humanBones"@))
    } else {
        match json_keys(bytes, human_bones_ptr()) {
            None => Err(Some("humanBones not an object"@)),
            Some(ks) => match bone_pairs(bone_entries(bytes, ks)) {
                Err(m) => Err(Some(m)),
                Ok(p) => if p.len() == 0 {
                    Err(None)
                } else {
                    Ok(p)
                },
            },
        }
    }
}

/// The node maps of a `.vrma` file: which node drives which rig joint, and
/// which node carries which expression weight. Fails when the container or
/// its JSON is broken, when the animation extension is missing, or as
/// [`humanoid_node_map`] does.
pub fn vrma_node_maps(bytes: &[u8]) -> (r: Result<(Vec<(usize, String)>, Vec<(usize, String)>), VrmaImportError>)
    ensures
        match json_chunk(bytes@) {
            Err(m) => r matches Err(VrmaImportError::InvalidGlb(e)) && e@ == m,
            Ok((a, b)) => {
                let c = bytes@.subrange(a, b);
                if !json_parses(c) {
                    r matches Err(VrmaImportError::InvalidGlb(m)) && m@ == json_error_message(c)
                } else if json_kind(c, animation_ext_ptr()) == JsonKind::Missing {
                    r matches Err(VrmaImportError::Extension(m)) && m@ == "missing VRMC_vrm_animation"@
                } else {
                    match bones_outcome(c) {
                        Err(Some(m)) => r matches Err(VrmaImportError::Extension(s)) && s@ == m,
                        Err(None) => r matches Err(VrmaImportError::NoMappedBones),
                        Ok(p) => r matches Ok((j, x)) && j@.map_values(|y: (usize, String)| pair_view(y)) == p
                            && x@.map_values(|y: (usize, String)| pair_view(y)) == expression_pairs(
                            animation_expression_entries(c),
                        ),
                    }
                }
            },
        },
{
    let chunk = match glb_json_text(bytes) {
        Ok(c) => c,
        Err(e) => {
            return Err(e);
        },
    };
    if kind_at(chunk.as_slice(), "/extensions/VRMC_vrm_animation") == JsonKind::Missing {
        return Err(VrmaImportError::Extension(String::from_str("missing VRMC_vrm_animation")));
    }
    let entries = expression_entries(chunk.as_slice());
    let expressions = expression_node_map(entries.as_slice());
    let bones = human_bones_field(chunk.as_slice());
    let joints = match humanoid_node_map(&bones) {
        Ok(j) => j,
        Err(e) => {
            return Err(e);
        },
    };
    Ok((joints, expressions))
}

} // verus!

verus! {

// ---------------------------------------------------------------------------
// Keyframe assembly

/// The keyframe sampled at one time: the joints that moved (kept, possibly
/// empty, when only expressions moved; omitted when nothing did), the
/// expression weights (omitted when none), a linear blend of `duration_ms`,
/// and no pose reference, camera or hold.
pub fn sampled_keyframe<S>(joints: NamedMap<JointTarget<S>>, expressions: NamedMap<S>, duration_ms: u32) -> (k: KeyframeSpec<S>)
    ensures
        k.pose is None,
        k.camera is None,
        k.hold is None,
        k.easing == Easing::Linear,
        k.duration_ms == duration_ms,
        opt_map_view(k.joints) == if joints@.len() == 0 && expressions@.len() == 0 {
            None
        } else {
            Some(joints@)
        },
        opt_map_view(k.expressions) == if expressions@.len() == 0 {
            None
        } else {
            Some(expressions@)
        },
{
    let no_joints = joints.is_empty();
    let no_expressions = expressions.is_empty();
    KeyframeSpec {
        pose: None,
        joints: if no_joints && no_expressions {
            None
        } else {
            Some(joints)
        },
        camera: None,
        expressions: if no_expressions {
            None
        } else {
            Some(expressions)
        },
        hold: None,
        duration_ms,
        easing: Easing::Linear,
    }
}

/// A followed joint with its clip-start target, characters for the name.
pub open spec fn followed_view<S>(t: (String, JointTarget<S>)) -> (Seq<char>, JointTarget<S>) {
    (t.0@, t.1)
}

/// One keyframe's joints after carrying followed joints forward: for each
/// followed name in turn, a listed joint becomes the remembered value, and an
/// unlisted one takes the remembered value if there is one. Returns the new
/// joints and the new remembered values.
pub open spec fn carry_forward<S>(
    joints: Map<Seq<char>, JointTarget<S>>,
    last: Map<Seq<char>, JointTarget<S>>,
    followed: Seq<(Seq<char>, JointTarget<S>)>,
) -> (Map<Seq<char>, JointTarget<S>>, Map<Seq<char>, JointTarget<S>>)
    decreases followed.len(),
{
    if followed.len() == 0 {
        (joints, last)
    } else {
        let (j, l) = carry_forward(joints, last, followed.drop_last());
        let n = followed.last().0;
        if j.contains_key(n) {
            (j, l.insert(n, j[n]))
        } else if l.contains_key(n) {
            (j.insert(n, l[n]), l)
        } else {
            (j, l)
        }
    }
}

/// `joints` with every followed joint it lacks set to its clip-start target.
pub open spec fn fill_clip_start<S>(
    joints: Map<Seq<char>, JointTarget<S>>,
    followed: Seq<(Seq<char>, JointTarget<S>)>,
) -> Map<Seq<char>, JointTarget<S>>
    decreases followed.len(),
{
    if followed.len() == 0 {
        joints
    } else {
        let j = fill_clip_start(joints, followed.drop_last());
        let n = followed.last().0;
        if j.contains_key(n) {
            j
        } else {
            j.insert(n, followed.last().1)
        }
    }
}

/// The joints a keyframe ends up with: carried forward from `last`, and on
/// the clip's opening keyframe (zero duration) completed with the clip-start
/// targets.
pub open spec fn filled_joints<S>(
    k: KeyframeSpecView<S>,
    last: Map<Seq<char>, JointTarget<S>>,
    followed: Seq<(Seq<char>, JointTarget<S>)>,
) -> Map<Seq<char>, JointTarget<S>> {
    let j0 = match k.joints {
        Some(m) => m,
        None => Map::empty(),
    };
    let j1 = carry_forward(j0, last, followed).0;
    if k.duration_ms == 0 {
        fill_clip_start(j1, followed)
    } else {
        j1
    }
}

/// The remembered values after a keyframe.
pub open spec fn remembered_after<S>(
    k: KeyframeSpecView<S>,
    last: Map<Seq<char>, JointTarget<S>>,
    followed: Seq<(Seq<char>, JointTarget<S>)>,
) -> Map<Seq<char>, JointTarget<S>> {
    let j0 = match k.joints {
        Some(m) => m,
        None => Map::empty(),
    };
    carry_forward(j0, last, followed).1
}

/// Whether `out` is `k` with its joints replaced by `joints`.
pub open spec fn with_joints<S>(
    out: KeyframeSpecView<S>,
    k: KeyframeSpecView<S>,
    joints: Map<Seq<char>, JointTarget<S>>,
) -> bool {
    &&& out.joints == Some(joints)
    &&& out.pose == k.pose
    &&& out.camera == k.camera
    &&& out.expressions == k.expressions
    &&& out.hold == k.hold
    &&& out.duration_ms == k.duration_ms
    &&& out.easing == k.easing
}

/// The remembered values before keyframe `i` of `ks`.
pub open spec fn remembered_before<S>(
    ks: Seq<KeyframeSpecView<S>>,
    i: int,
    followed: Seq<(Seq<char>, JointTarget<S>)>,
) -> Map<Seq<char>, JointTarget<S>>
    decreases i,
{
    if i <= 0 {
        Map::empty()
    } else {
        remembered_after(ks[i - 1], remembered_before(ks, i - 1, followed), followed)
    }
}

/// The views of a keyframe sequence.
pub open spec fn keyframe_views<S>(ks: Seq<KeyframeSpec<S>>) -> Seq<KeyframeSpecView<S>> {
    ks.map_values(|k: KeyframeSpec<S>| k@)
}

fn carry_forward_exec<S: Copy>(
    joints: &mut NamedMap<JointTarget<S>>,
    last: &mut NamedMap<JointTarget<S>>,
    followed: &[(String, JointTarget<S>)],
)
    ensures
        (final(joints)@, final(last)@) == carry_forward(
            old(joints)@,
            old(last)@,
            followed@.map_values(|t: (String, JointTarget<S>)| followed_view(t)),
        ),
{
    let ghost tv = followed@.map_values(|t: (String, JointTarget<S>)| followed_view(t));
    let ghost j0 = joints@;
    let ghost l0 = last@;
    let mut i: usize = 0;
    assert(tv.subrange(0, 0) =~= Seq::<(Seq<char>, JointTarget<S>)>::empty());
    while i < followed.len()
        invariant
            i <= followed@.len(),
            tv == followed@.map_values(|t: (String, JointTarget<S>)| followed_view(t)),
            j0 == old(joints)@,
            l0 == old(last)@,
            (joints@, last@) == carry_forward(j0, l0, tv.subrange(0, i as int)),
        decreases followed@.len() - i,
    {
        assert(tv.subrange(0, i + 1).drop_last() =~= tv.subrange(0, i as int));
        assert(tv.subrange(0, i + 1).last() == followed_view(followed@[i as int]));
        let name = chars_of(followed[i].0.as_str());
        match joints.get(name.as_slice()) {
            Some(v) => {
                let v = *v;
                last.insert(name, v);
            },
            None => {
                match last.get(name.as_slice()) {
                    Some(v) => {
                        let v = *v;
                        joints.insert(name, v);
                    },
                    None => {},
                }
            },
        }
        i = i + 1;
    }
    assert(tv.subrange(0, followed@.len() as int) =~= tv);
}

fn fill_clip_start_exec<S: Copy>(joints: &mut NamedMap<JointTarget<S>>, followed: &[(String, JointTarget<S>)])
    ensures
        final(joints)@ == fill_clip_start(
            old(joints)@,
            followed@.map_values(|t: (String, JointTarget<S>)| followed_view(t)),
        ),
{
    let ghost tv = followed@.map_values(|t: (String, JointTarget<S>)| followed_view(t));
    let ghost j0 = joints@;
    let mut i: usize = 0;
    assert(tv.subrange(0, 0) =~= Seq::<(Seq<char>, JointTarget<S>)>::empty());
    while i < followed.len()
        invariant
            i <= followed@.len(),
            tv == followed@.map_values(|t: (String, JointTarget<S>)| followed_view(t)),
            j0 == old(joints)@,
            joints@ == fill_clip_start(j0, tv.subrange(0, i as int)),
        decreases followed@.len() - i,
    {
        assert(tv.subrange(0, i + 1).drop_last() =~= tv.subrange(0, i as int));
        assert(tv.subrange(0, i + 1).last() == followed_view(followed@[i as int]));
        let name = chars_of(followed[i].0.as_str());
        if !joints.contains_key(name.as_slice()) {
            joints.insert(name, followed[i].1);
        }
        i = i + 1;
    }
    assert(tv.subrange(0, followed@.len() as int) =~= tv);
}

/// Carries every followed joint forward across the keyframes so playback does
/// not reset an unlisted joint to rest mid-clip: keyframe by keyframe, a
/// followed joint it lists is remembered, one it lacks takes the remembered
/// value, and the opening keyframe (zero duration) gets the clip-start
/// target of every followed joint still missing. Every keyframe ends up with
/// a joints map.
pub fn fill_tracked_joints<S: Copy>(keyframes: &mut Vec<KeyframeSpec<S>>, followed: &[(String, JointTarget<S>)])
    ensures
        final(keyframes)@.len() == old(keyframes)@.len(),
        forall|i: int|
            0 <= i < old(keyframes)@.len() ==> with_joints(
                #[trigger] final(keyframes)@[i]@,
                old(keyframes)@[i]@,
                filled_joints(
                    old(keyframes)@[i]@,
                    remembered_before(
                        keyframe_views(old(keyframes)@),
                        i,
                        followed@.map_values(|t: (String, JointTarget<S>)| followed_view(t)),
                    ),
                    followed@.map_values(|t: (String, JointTarget<S>)| followed_view(t)),
                ),
            ),
{
    let ghost tv = followed@.map_values(|t: (String, JointTarget<S>)| followed_view(t));
    let ghost orig = old(keyframes)@;
    let ghost ov = keyframe_views(orig);
    let mut rest: Vec<KeyframeSpec<S>> = Vec::new();
    std::mem::swap(&mut rest, keyframes);
    let mut last: NamedMap<JointTarget<S>> = NamedMap::new();
    let n = rest.len();
    let mut i: usize = 0;
    while i < n
        invariant
            i <= n,
            n == orig.len(),
            ov == keyframe_views(orig),
            tv == followed@.map_values(|t: (String, JointTarget<S>)| followed_view(t)),
            keyframes@.len() == i,
            rest@ == orig.subrange(i as int, n as int),
            last@ == remembered_before(ov, i as int, tv),
            forall|k: int|
                0 <= k < i ==> with_joints(
                    #[trigger] keyframes@[k]@,
                    orig[k]@,
                    filled_joints(orig[k]@, remembered_before(ov, k, tv), tv),
                ),
        decreases n - i,
    {
        let mut kf = rest.remove(0);
        assert(kf == orig[i as int]);
        assert(ov[i as int] == kf@);
        let ghost prev_last = last@;
        let mut joints = match kf.joints {
            Some(j) => j,
            None => NamedMap::new(),
        };
        kf.joints = None;
        carry_forward_exec(&mut joints, &mut last, followed);
        if kf.duration_ms == 0 {
            fill_clip_start_exec(&mut joints, followed);
        }
        kf.joints = Some(joints);
        assert(with_joints(kf@, orig[i as int]@, filled_joints(orig[i as int]@, prev_last, tv)));
        let ghost before = keyframes@;
        keyframes.push(kf);
        assert(keyframes@[i as int] == kf);
        assert forall|k: int| 0 <= k < i + 1 implies with_joints(
            #[trigger] keyframes@[k]@,
            orig[k]@,
            filled_joints(orig[k]@, remembered_before(ov, k, tv), tv),
        ) by {
            if k < i {
                assert(keyframes@[k] == before[k]);
            }
        }
        assert(rest@ =~= orig.subrange(i + 1, n as int));
        i = i + 1;
    }
}

} // verus!

verus! {

/// The last steps of an import: drop the samples that move nothing (see
/// [`retain_sampled_keyframes`]), fail with `EmptyKeyframes` when none is
/// left, and carry the followed joints forward (see [`fill_tracked_joints`]).
pub fn finish_import_keyframes<S: Copy>(
    keyframes: Vec<KeyframeSpec<S>>,
    followed: &[(String, JointTarget<S>)],
) -> (r: Result<Vec<KeyframeSpec<S>>, VrmaImportError>)
    ensures
        kept_samples(keyframes@).len() == 0 ==> r matches Err(VrmaImportError::EmptyKeyframes),
        kept_samples(keyframes@).len() > 0 ==> (r matches Ok(v) && {
            let kept = kept_samples(keyframes@);
            let fv = followed@.map_values(|t: (String, JointTarget<S>)| followed_view(t));
            &&& v@.len() == kept.len()
            &&& forall|i: int|
                0 <= i < kept.len() ==> with_joints(
                    #[trigger] v@[i]@,
                    kept[i]@,
                    filled_joints(kept[i]@, remembered_before(keyframe_views(kept), i, fv), fv),
                )
        }),
{
    let mut kfs = keyframes;
    retain_sampled_keyframes(&mut kfs);
    if kfs.len() == 0 {
        return Err(VrmaImportError::EmptyKeyframes);
    }
    fill_tracked_joints(&mut kfs, followed);
    Ok(kfs)
}

} // verus!

verus! {

/// Whether `n` is one of the followed joints.
pub open spec fn is_followed<S>(followed: Seq<(Seq<char>, JointTarget<S>)>, n: Seq<char>) -> bool {
    exists|i: int| 0 <= i < followed.len() && #[trigger] followed[i].0 == n
}

/// The joints a keyframe lists (none when it has no joints map).
pub open spec fn listed_joints<S>(k: KeyframeSpecView<S>) -> Map<Seq<char>, JointTarget<S>> {
    match k.joints {
        Some(m) => m,
        None => Map::empty(),
    }
}

proof fn lemma_carry_forward_keys<S>(
    j0: Map<Seq<char>, JointTarget<S>>,
    last: Map<Seq<char>, JointTarget<S>>,
    followed: Seq<(Seq<char>, JointTarget<S>)>,
    n: Seq<char>,
)
    ensures
        carry_forward(j0, last, followed).0.contains_key(n) <==> (j0.contains_key(n) || (is_followed(
            followed,
            n,
        ) && last.contains_key(n))),
        carry_forward(j0, last, followed).1.contains_key(n) <==> (last.contains_key(n) || (
        is_followed(followed, n) && j0.contains_key(n))),
    decreases followed.len(),
{
    if followed.len() > 0 {
        let pre = followed.drop_last();
        lemma_carry_forward_keys(j0, last, pre, n);
        let m = followed.last().0;
        lemma_carry_forward_keys(j0, last, pre, m);
        assert(is_followed(followed, n) <==> (is_followed(pre, n) || n == m)) by {
            if is_followed(followed, n) {
                let i = choose|i: int| 0 <= i < followed.len() && #[trigger] followed[i].0 == n;
                if i < followed.len() - 1 {
                    assert(pre[i].0 == n);
                }
            }
            if is_followed(pre, n) {
                let i = choose|i: int| 0 <= i < pre.len() && #[trigger] pre[i].0 == n;
                assert(followed[i].0 == n);
            }
            if n == m {
                assert(followed[followed.len() - 1].0 == n);
            }
        }
    }
}

proof fn lemma_fill_clip_start_keys<S>(
    j: Map<Seq<char>, JointTarget<S>>,
    followed: Seq<(Seq<char>, JointTarget<S>)>,
    n: Seq<char>,
)
    ensures
        fill_clip_start(j, followed).contains_key(n) <==> (j.contains_key(n) || is_followed(
            followed,
            n,
        )),
    decreases followed.len(),
{
    if followed.len() > 0 {
        let pre = followed.drop_last();
        lemma_fill_clip_start_keys(j, pre, n);
        let m = followed.last().0;
        assert(is_followed(followed, n) <==> (is_followed(pre, n) || n == m)) by {
            if is_followed(followed, n) {
                let i = choose|i: int| 0 <= i < followed.len() && #[trigger] followed[i].0 == n;
                if i < followed.len() - 1 {
                    assert(pre[i].0 == n);
                }
            }
            if is_followed(pre, n) {
                let i = choose|i: int| 0 <= i < pre.len() && #[trigger] pre[i].0 == n;
                assert(followed[i].0 == n);
            }
            if n == m {
                assert(followed[followed.len() - 1].0 == n);
            }
        }
    }
}

proof fn lemma_remembered_keys<S>(
    ks: Seq<KeyframeSpecView<S>>,
    i: int,
    followed: Seq<(Seq<char>, JointTarget<S>)>,
    n: Seq<char>,
)
    requires
        0 <= i <= ks.len(),
    ensures
        remembered_before(ks, i, followed).contains_key(n) <==> (is_followed(followed, n) && exists|k: int|
            0 <= k < i && #[trigger] listed_joints(ks[k]).contains_key(n)),
    decreases i,
{
    if i > 0 {
        lemma_remembered_keys(ks, i - 1, followed, n);
        lemma_carry_forward_keys(
            listed_joints(ks[i - 1]),
            remembered_before(ks, i - 1, followed),
            followed,
            n,
        );
        if exists|k: int| 0 <= k < i && #[trigger] listed_joints(ks[k]).contains_key(n) {
            let k = choose|k: int| 0 <= k < i && #[trigger] listed_joints(ks[k]).contains_key(n);
            if k < i - 1 {
                assert(exists|k2: int| 0 <= k2 < i - 1 && #[trigger] listed_joints(ks[k2]).contains_key(n));
            }
        }
    }
}

/// Law: after carrying joints forward, a keyframe holds every followed joint
/// that it or an earlier keyframe lists, and the opening keyframe (zero
/// duration) holds every followed joint; no joint appears that is neither
/// listed on the keyframe nor followed.
pub proof fn lemma_followed_joints_persist<S>(
    ks: Seq<KeyframeSpecView<S>>,
    followed: Seq<(Seq<char>, JointTarget<S>)>,
    i: int,
    n: Seq<char>,
)
    requires
        0 <= i < ks.len(),
    ensures
        is_followed(followed, n) && (exists|k: int|
            0 <= k <= i && #[trigger] listed_joints(ks[k]).contains_key(n)) ==> filled_joints(
            ks[i],
            remembered_before(ks, i, followed),
            followed,
        ).contains_key(n),
        is_followed(followed, n) && ks[i].duration_ms == 0 ==> filled_joints(
            ks[i],
            remembered_before(ks, i, followed),
            followed,
        ).contains_key(n),
        filled_joints(ks[i], remembered_before(ks, i, followed), followed).contains_key(n) ==> (
        listed_joints(ks[i]).contains_key(n) || is_followed(followed, n)),
{
    let last = remembered_before(ks, i, followed);
    let j0 = listed_joints(ks[i]);
    lemma_remembered_keys(ks, i, followed, n);
    lemma_carry_forward_keys(j0, last, followed, n);
    let j1 = carry_forward(j0, last, followed).0;
    lemma_fill_clip_start_keys(j1, followed, n);
    assert(j0 == match ks[i].joints {
        Some(m) => m,
        None => Map::<Seq<char>, JointTarget<S>>::empty(),
    });
    if is_followed(followed, n) && (exists|k: int|
        0 <= k <= i && #[trigger] listed_joints(ks[k]).contains_key(n)) {
        let k = choose|k: int| 0 <= k <= i && #[trigger] listed_joints(ks[k]).contains_key(n);
        if k < i {
            assert(exists|k2: int| 0 <= k2 < i && #[trigger] listed_joints(ks[k2]).contains_key(n));
        }
    }
}

proof fn lemma_is_followed_last<S>(followed: Seq<(Seq<char>, JointTarget<S>)>, n: Seq<char>)
    requires
        followed.len() > 0,
    ensures
        is_followed(followed, n) <==> (is_followed(followed.drop_last(), n) || followed.last().0 == n),
{
    let pre = followed.drop_last();
    if is_followed(followed, n) {
        let i = choose|i: int| 0 <= i < followed.len() && #[trigger] followed[i].0 == n;
        if i < followed.len() - 1 {
            assert(pre[i].0 == n);
        }
    }
    if is_followed(pre, n) {
        let i = choose|i: int| 0 <= i < pre.len() && #[trigger] pre[i].0 == n;
        assert(followed[i].0 == n);
    }
    if followed.last().0 == n {
        assert(followed[followed.len() - 1].0 == n);
    }
}

/// What carrying forward does to the values: a listed joint keeps its value
/// and, when followed, becomes the remembered one; an unlisted followed
/// joint takes the remembered value, which stays; a joint that is not
/// followed keeps its remembered value.
proof fn lemma_carry_forward_values<S>(
    j0: Map<Seq<char>, JointTarget<S>>,
    last: Map<Seq<char>, JointTarget<S>>,
    followed: Seq<(Seq<char>, JointTarget<S>)>,
    n: Seq<char>,
)
    ensures
        j0.contains_key(n) ==> carry_forward(j0, last, followed).0[n] == j0[n],
        is_followed(followed, n) && j0.contains_key(n) ==> carry_forward(j0, last, followed).1[n] == j0[n],
        is_followed(followed, n) && !j0.contains_key(n) && last.contains_key(n) ==> {
            &&& carry_forward(j0, last, followed).0[n] == last[n]
            &&& carry_forward(j0, last, followed).1[n] == last[n]
        },
        !is_followed(followed, n) && last.contains_key(n) ==> carry_forward(j0, last, followed).1[n] == last[n],
    decreases followed.len(),
{
    if followed.len() > 0 {
        let pre = followed.drop_last();
        lemma_carry_forward_values(j0, last, pre, n);
        lemma_carry_forward_keys(j0, last, pre, n);
        lemma_is_followed_last(followed, n);
    }
}

/// Filling in clip-start targets keeps every joint already there.
proof fn lemma_fill_clip_start_keeps<S>(
    j: Map<Seq<char>, JointTarget<S>>,
    followed: Seq<(Seq<char>, JointTarget<S>)>,
    n: Seq<char>,
)
    requires
        j.contains_key(n),
    ensures
        fill_clip_start(j, followed)[n] == j[n],
    decreases followed.len(),
{
    if followed.len() > 0 {
        lemma_fill_clip_start_keeps(j, followed.drop_last(), n);
        lemma_fill_clip_start_keys(j, followed.drop_last(), n);
    }
}

/// Filling in clip-start targets gives a missing joint the target of its
/// first entry among `followed`.
proof fn lemma_fill_clip_start_first<S>(
    j: Map<Seq<char>, JointTarget<S>>,
    followed: Seq<(Seq<char>, JointTarget<S>)>,
    q: int,
)
    requires
        0 <= q < followed.len(),
        !j.contains_key(followed[q].0),
        forall|p: int| 0 <= p < q ==> (#[trigger] followed[p]).0 != followed[q].0,
    ensures
        fill_clip_start(j, followed).contains_key(followed[q].0),
        fill_clip_start(j, followed)[followed[q].0] == followed[q].1,
    decreases followed.len(),
{
    let n = followed[q].0;
    let pre = followed.drop_last();
    if q < followed.len() - 1 {
        assert(pre[q] == followed[q]);
        assert forall|p: int| 0 <= p < q implies (#[trigger] pre[p]).0 != pre[q].0 by {
            assert(pre[p] == followed[p]);
        }
        lemma_fill_clip_start_first(j, pre, q);
    } else {
        assert forall|p: int| 0 <= p < pre.len() implies (#[trigger] pre[p]).0 != n by {
            assert(pre[p] == followed[p]);
        }
        lemma_fill_clip_start_keys(j, pre, n);
    }
}

/// The remembered value of a followed joint is the one the latest keyframe
/// listing it gave.
proof fn lemma_remembered_latest<S>(
    ks: Seq<KeyframeSpecView<S>>,
    followed: Seq<(Seq<char>, JointTarget<S>)>,
    k: int,
    i: int,
    n: Seq<char>,
)
    requires
        0 <= k < i <= ks.len(),
        is_followed(followed, n),
        listed_joints(ks[k]).contains_key(n),
        forall|k2: int| k < k2 < i ==> !(#[trigger] listed_joints(ks[k2])).contains_key(n),
    ensures
        remembered_before(ks, i, followed).contains_key(n),
        remembered_before(ks, i, followed)[n] == listed_joints(ks[k])[n],
    decreases i,
{
    let prev = remembered_before(ks, i - 1, followed);
    lemma_carry_forward_values(listed_joints(ks[i - 1]), prev, followed, n);
    lemma_carry_forward_keys(listed_joints(ks[i - 1]), prev, followed, n);
    assert(listed_joints(ks[i - 1]) == match ks[i - 1].joints {
        Some(m) => m,
        None => Map::<Seq<char>, JointTarget<S>>::empty(),
    });
    if i - 1 > k {
        lemma_remembered_latest(ks, followed, k, i - 1, n);
    }
}

/// Law: carrying forward keeps joints where the clip last put them. On
/// keyframe `i`, a joint the keyframe lists keeps its listed value; a
/// followed joint it does not list takes its value from the latest earlier
/// keyframe that lists it (keyframe `k`); and on the opening keyframe (zero
/// duration) a followed joint no keyframe so far lists takes its clip-start
/// target (that of its first entry, `followed[k]`).
pub proof fn lemma_carried_joints_take_latest_value<S>(
    ks: Seq<KeyframeSpecView<S>>,
    followed: Seq<(Seq<char>, JointTarget<S>)>,
    i: int,
    k: int,
    n: Seq<char>,
)
    requires
        0 <= i < ks.len(),
    ensures
        listed_joints(ks[i]).contains_key(n) ==> filled_joints(ks[i], remembered_before(ks, i, followed), followed)[n]
            == listed_joints(ks[i])[n],
        ({
            &&& 0 <= k < i
            &&& is_followed(followed, n)
            &&& !listed_joints(ks[i]).contains_key(n)
            &&& listed_joints(ks[k]).contains_key(n)
            &&& forall|k2: int| k < k2 < i ==> !(#[trigger] listed_joints(ks[k2])).contains_key(n)
        }) ==> filled_joints(ks[i], remembered_before(ks, i, followed), followed)[n] == listed_joints(ks[k])[n],
        ({
            &&& ks[i].duration_ms == 0
            &&& 0 <= k < followed.len()
            &&& followed[k].0 == n
            &&& forall|p: int| 0 <= p < k ==> (#[trigger] followed[p]).0 != n
            &&& forall|k2: int| 0 <= k2 <= i ==> !(#[trigger] listed_joints(ks[k2])).contains_key(n)
        }) ==> filled_joints(ks[i], remembered_before(ks, i, followed), followed)[n] == followed[k].1,
{
    let last = remembered_before(ks, i, followed);
    let j0 = listed_joints(ks[i]);
    assert(j0 == match ks[i].joints {
        Some(m) => m,
        None => Map::<Seq<char>, JointTarget<S>>::empty(),
    });
    lemma_carry_forward_values(j0, last, followed, n);
    lemma_carry_forward_keys(j0, last, followed, n);
    let j1 = carry_forward(j0, last, followed).0;
    if j1.contains_key(n) {
        lemma_fill_clip_start_keeps(j1, followed, n);
    }
    if 0 <= k < i && is_followed(followed, n) && !j0.contains_key(n) && listed_joints(ks[k]).contains_key(n)
        && (forall|k2: int| k < k2 < i ==> !(#[trigger] listed_joints(ks[k2])).contains_key(n)) {
        lemma_remembered_latest(ks, followed, k, i, n);
        lemma_fill_clip_start_keeps(j1, followed, n);
    }
    if ks[i].duration_ms == 0 && 0 <= k < followed.len() && followed[k].0 == n && (forall|p: int|
        0 <= p < k ==> (#[trigger] followed[p]).0 != n) && (forall|k2: int|
        0 <= k2 <= i ==> !(#[trigger] listed_joints(ks[k2])).contains_key(n)) {
        lemma_remembered_keys(ks, i, followed, n);
        lemma_fill_clip_start_first(j1, followed, k);
    }
}

} // verus!

verus! {

/// The text of an import error.
pub open spec fn import_error_text(e: VrmaImportError) -> Seq<char> {
    match e {
        VrmaImportError::ReadFile(p, r) => "failed to read '"@ + p@ + "': "@ + r@,
        VrmaImportError::InvalidGlb(m) => "not a valid GLB: "@ + m@,
        VrmaImportError::Gltf(m) => "gltf import failed: "@ + m@,
        VrmaImportError::Extension(m) => "VRMC_vrm_animation extension missing or invalid: "@ + m@,
        VrmaImportError::NoAnimation => "no animations in file"@,
        VrmaImportError::NoMappedBones => "no humanoid bones mapped to paperdoll joints"@,
        VrmaImportError::EmptyKeyframes => "animation produced no keyframes"@,
    }
}

impl VrmaImportError {
    /// The error as text (see [`import_error_text`]).
    pub fn message(&self) -> (s: String)
        ensures
            s@ == import_error_text(*self),
    {
        match self {
            VrmaImportError::ReadFile(p, r) => {
                let mut s = concat_str("failed to read '", p.as_str());
                s.append("': ");
                s.append(r.as_str());
                s
            },
            VrmaImportError::InvalidGlb(m) => concat_str("not a valid GLB: ", m.as_str()),
            VrmaImportError::Gltf(m) => concat_str("gltf import failed: ", m.as_str()),
            VrmaImportError::Extension(m) => concat_str(
                "VRMC_vrm_animation extension missing or invalid: ",
                m.as_str(),
            ),
            VrmaImportError::NoAnimation => String::from_str("no animations in file"),
            VrmaImportError::NoMappedBones => String::from_str("no humanoid bones mapped to paperdoll joints"),
            VrmaImportError::EmptyKeyframes => String::from_str("animation produced no keyframes"),
        }
    }
}

} // verus!

verus! {

// ---------------------------------------------------------------------------
// Channels

/// The property a glTF animation channel animates.
#[derive(Debug, Clone, Copy, PartialEq, Eq, Structural)]
pub enum ChannelProperty {
    Rotation,
    Translation,
    /// Scale or morph weights.
    Other,
}

/// What the importer samples a channel as.
#[derive(Debug)]
pub enum ChannelUse {
    /// The rotation of this rig joint.
    Joint(String),
    /// The pelvis translation.
    Pelvis,
    /// The weight of this expression (the channel's x translation).
    Expression(String),
    /// Nothing.
    Skip,
}

/// The name the node/name pairs `pairs` give `node`: the last pair for it
/// wins.
pub open spec fn node_name(pairs: Seq<(usize, Seq<char>)>, node: usize) -> Option<Seq<char>>
    decreases pairs.len(),
{
    if pairs.len() == 0 {
        None
    } else if pairs.last().0 == node {
        Some(pairs.last().1)
    } else {
        node_name(pairs.drop_last(), node)
    }
}

fn find_node_name(pairs: &[(usize, String)], node: usize) -> (r: Option<String>)
    ensures
        match node_name(pairs@.map_values(|y: (usize, String)| pair_view(y)), node) {
            Some(n) => r matches Some(s) && s@ == n,
            None => r is None,
        },
{
    let ghost pv = pairs@.map_values(|y: (usize, String)| pair_view(y));
    let mut found: Option<String> = None;
    let mut i: usize = 0;
    while i < pairs.len()
        invariant
            i <= pairs@.len(),
            pv == pairs@.map_values(|y: (usize, String)| pair_view(y)),
            match node_name(pv.subrange(0, i as int), node) {
                Some(n) => found matches Some(s) && s@ == n,
                None => found is None,
            },
        decreases pairs@.len() - i,
    {
        assert(pv.subrange(0, i + 1).drop_last() =~= pv.subrange(0, i as int));
        assert(pv.subrange(0, i + 1).last() == pair_view(pairs@[i as int]));
        if pairs[i].0 == node {
            found = Some(pairs[i].1.clone());
        }
        i = i + 1;
    }
    assert(pv.subrange(0, pairs@.len() as int) =~= pv);
    found
}

/// What a channel on `node` animating `property` is sampled as, given the
/// node maps [`vrma_node_maps`] gives and the rig `skeleton`: a rotation of
/// a node that carries no expression and drives a joint of the skeleton
/// rotates that joint; a translation of an expression node carries that
/// expression's weight, and one of the pelvis node moves the pelvis;
/// anything else is skipped.
pub fn classify_channel(
    joints: &[(usize, String)],
    expressions: &[(usize, String)],
    skeleton: &Skeleton,
    node: usize,
    property: ChannelProperty,
) -> (r: ChannelUse)
    ensures
        ({
            let jn = node_name(joints@.map_values(|y: (usize, String)| pair_view(y)), node);
            let en = node_name(expressions@.map_values(|y: (usize, String)| pair_view(y)), node);
            match property {
                ChannelProperty::Rotation => match (en, jn) {
                    (None, Some(j)) => if last_named(skeleton.joint_seq(), j, skeleton.joint_seq().len() as int) >= 0 {
                        r matches ChannelUse::Joint(s) && s@ == j
                    } else {
                        r is Skip
                    },
                    _ => r is Skip,
                },
                ChannelProperty::Translation => match en {
                    Some(e) => r matches ChannelUse::Expression(s) && s@ == e,
                    None => if jn == Some("pelvis"@) {
                        r is Pelvis
                    } else {
                        r is Skip
                    },
                },
                ChannelProperty::Other => r is Skip,
            }
        }),
{
    let expression = find_node_name(expressions, node);
    let joint = find_node_name(joints, node);
    match property {
        ChannelProperty::Rotation => {
            if expression.is_some() {
                return ChannelUse::Skip;
            }
            match joint {
                None => ChannelUse::Skip,
                Some(j) => {
                    if skeleton.joint_by_name(j.as_str()).is_some() {
                        ChannelUse::Joint(j)
                    } else {
                        ChannelUse::Skip
                    }
                },
            }
        },
        ChannelProperty::Translation => match expression {
            Some(e) => ChannelUse::Expression(e),
            None => match joint {
                Some(j) => {
                    if str_eq(j.as_str(), "pelvis") {
                        ChannelUse::Pelvis
                    } else {
                        ChannelUse::Skip
                    }
                },
                None => ChannelUse::Skip,
            },
        },
        ChannelProperty::Other => ChannelUse::Skip,
    }
}

} // verus!
