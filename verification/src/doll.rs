//! Which joints the procedural (v1) doll draws as bones and markers.

use vstd::prelude::*;
use crate::text::{chars_of, chars_eq, contains_chars, contains_seq};

verus! {

/// The face features: posed like joints, drawn as cosmetic meshes.
pub const FACE_JOINTS: [&'static str; 11] = [
    "jaw",
    "left_eye",
    "right_eye",
    "left_pupil",
    "right_pupil",
    "left_eyelid",
    "right_eyelid",
    "left_eyebrow",
    "right_eyebrow",
    "left_blush",
    "right_blush",
];

/// Whether `name` is a face feature.
pub open spec fn is_face(name: Seq<char>) -> bool {
    exists|i: int| 0 <= i < 11 && #[trigger] FACE_JOINTS[i]@ == name
}

/// Whether `name` is a finger joint (a thumb, index, middle, ring or little
/// chain).
pub open spec fn is_finger(name: Seq<char>) -> bool {
    ||| contains_seq(name, "_thumb_"@)
    ||| contains_seq(name, "_index_"@)
    ||| contains_seq(name, "_middle_"@)
    ||| contains_seq(name, "_ring_"@)
    ||| contains_seq(name, "_little_"@)
}

/// Whether `name` is a hip joint.
pub open spec fn is_hip(name: Seq<char>) -> bool {
    name == "left_hip"@ || name == "right_hip"@
}

/// Whether `name` is a face feature.
pub fn is_face_joint(name: &str) -> (b: bool)
    ensures
        b == is_face(name@),
{
    let n = chars_of(name);
    let faces = FACE_JOINTS;
    let mut i: usize = 0;
    while i < 11
        invariant
            i <= 11,
            faces == FACE_JOINTS,
            n@ == name@,
            forall|j: int| 0 <= j < i ==> #[trigger] FACE_JOINTS[j]@ != name@,
        decreases 11 - i,
    {
        if chars_eq(chars_of(faces[i]).as_slice(), n.as_slice()) {
            return true;
        }
        i = i + 1;
    }
    false
}

/// Whether `name` is a finger joint.
pub fn is_finger_joint(name: &str) -> (b: bool)
    ensures
        b == is_finger(name@),
{
    let n = chars_of(name);
    contains_chars(n.as_slice(), chars_of("_thumb_").as_slice()) || contains_chars(
        n.as_slice(),
        chars_of("_index_").as_slice(),
    ) || contains_chars(n.as_slice(), chars_of("_middle_").as_slice()) || contains_chars(
        n.as_slice(),
        chars_of("_ring_").as_slice(),
    ) || contains_chars(n.as_slice(), chars_of("_little_").as_slice())
}

fn is_hip_joint(name: &str) -> (b: bool)
    ensures
        b == is_hip(name@),
{
    crate::text::str_eq(name, "left_hip") || crate::text::str_eq(name, "right_hip")
}

/// Whether the bone segment into `name` is left undrawn: face features,
/// fingers and the hips.
pub fn skip_bone(name: &str) -> (b: bool)
    ensures
        b == (is_face(name@) || is_finger(name@) || is_hip(name@)),
{
    is_face_joint(name) || is_finger_joint(name) || is_hip_joint(name)
}

/// Whether the marker sphere of `name` is left undrawn: face features,
/// fingers and the hips.
pub fn skip_marker(name: &str) -> (b: bool)
    ensures
        b == (is_face(name@) || is_finger(name@) || is_hip(name@)),
{
    is_face_joint(name) || is_finger_joint(name) || is_hip_joint(name)
}

} // verus!
