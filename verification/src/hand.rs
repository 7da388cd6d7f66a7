//! Named hand shapes: side-agnostic finger-chain joint targets that the pose
//! editor splices onto one hand by prefixing `left_` or `right_`.

use vstd::prelude::*;
use crate::model::{JointTarget, Pose};
use crate::symmetry::{clear_side_joints, kept_after_clear, mirror_joint_map_to_other_side, opposite_side, side_prefix, suffix_views, swapped_sides, BodySide};
use crate::named_map::{NamedMap, seq_to_map, keys_unique};
use crate::text::{chars_of, chars_eq, has_prefix, starts_with};

verus! {

/// The side-agnostic finger joints a gesture may set.
pub const HAND_GESTURE_JOINT_KEYS: [&'static str; 15] = [
    "thumb_metacarpal",
    "thumb_proximal",
    "thumb_distal",
    "index_proximal",
    "index_intermediate",
    "index_distal",
    "middle_proximal",
    "middle_intermediate",
    "middle_distal",
    "ring_proximal",
    "ring_intermediate",
    "ring_distal",
    "little_proximal",
    "little_intermediate",
    "little_distal",
];

/// Whether `k` is one of [`HAND_GESTURE_JOINT_KEYS`].
pub open spec fn is_gesture_key(k: Seq<char>) -> bool {
    exists|i: int| 0 <= i < 15 && #[trigger] HAND_GESTURE_JOINT_KEYS[i]@ == k
}

/// Whether the characters `k` spell a gesture joint key.
pub fn gesture_key(k: &[char]) -> (b: bool)
    ensures
        b == is_gesture_key(k@),
{
    let keys = HAND_GESTURE_JOINT_KEYS;
    let mut i: usize = 0;
    while i < 15
        invariant
            i <= 15,
            keys == HAND_GESTURE_JOINT_KEYS,
            forall|j: int| 0 <= j < i ==> #[trigger] HAND_GESTURE_JOINT_KEYS[j]@ != k@,
        decreases 15 - i,
    {
        let c = chars_of(keys[i]);
        if chars_eq(c.as_slice(), k) {
            return true;
        }
        i = i + 1;
    }
    false
}

/// `m` with every key prefixed by `prefix`.
pub open spec fn prefixed<T>(m: Map<Seq<char>, T>, prefix: Seq<char>) -> Map<Seq<char>, T> {
    Map::new(
        |k2: Seq<char>| starts_with(k2, prefix) && m.contains_key(k2.subrange(prefix.len() as int, k2.len() as int)),
        |k2: Seq<char>| m[k2.subrange(prefix.len() as int, k2.len() as int)],
    )
}

/// The gesture keys `r` for which `prefix + r` is a joint of `m`, mapped to
/// that joint's target.
pub open spec fn stripped<T>(m: Map<Seq<char>, T>, prefix: Seq<char>) -> Map<Seq<char>, T> {
    Map::new(
        |r: Seq<char>| is_gesture_key(r) && m.contains_key(prefix + r),
        |r: Seq<char>| m[prefix + r],
    )
}

/// A named, reusable hand shape keyed without a side prefix.
pub struct HandGesture<S> {
    pub name: String,
    pub description: Option<String>,
    pub joints: NamedMap<JointTarget<S>>,
}

proof fn lemma_prefix_split(prefix: Seq<char>, k: Seq<char>)
    ensures
        starts_with(prefix + k, prefix),
        (prefix + k).subrange(prefix.len() as int, (prefix + k).len() as int) == k,
{
    assert((prefix + k).subrange(0, prefix.len() as int) =~= prefix);
    assert((prefix + k).subrange(prefix.len() as int, (prefix + k).len() as int) =~= k);
}

impl<S: Copy> HandGesture<S> {
    /// The gesture's joints on one hand: every key prefixed with `prefix`
    /// (`"left_"` or `"right_"`).
    pub fn resolve_for_prefix(&self, prefix: &str) -> (out: NamedMap<JointTarget<S>>)
        ensures
            out@ == prefixed(self.joints@, prefix@),
    {
        let p = chars_of(prefix);
        let n = self.joints.len();
        let ghost ev = self.joints.entries_view();
        let mut out: NamedMap<JointTarget<S>> = NamedMap::new();
        let mut i: usize = 0;
        while i < n
            invariant
                n == ev.len(),
                ev == self.joints.entries_view(),
                keys_unique(ev),
                self.joints@ == seq_to_map(ev),
                p@ == prefix@,
                i <= n,
                out@ == prefixed(seq_to_map(ev.subrange(0, i as int)), prefix@),
            decreases n - i,
        {
            let mut key = p.clone();
            assert(key@ == p@);
            let mut rest = self.joints.key_at(i).clone();
            assert(rest@ == ev[i as int].0);
            key.append(&mut rest);
            let v = *self.joints.value_at(i);
            let ghost before = out@;
            let ghost k = ev[i as int].0;
            out.insert(key, v);
            proof {
                let sub = ev.subrange(0, i + 1);
                assert(sub.drop_last() =~= ev.subrange(0, i as int));
                let m_prev = seq_to_map(ev.subrange(0, i as int));
                let m_next = seq_to_map(sub);
                assert(m_next == m_prev.insert(k, v));
                lemma_prefix_split(prefix@, k);
                assert forall|k2: Seq<char>| #[trigger] out@.contains_key(k2) == prefixed(m_next, prefix@).contains_key(k2) by {
                    if starts_with(k2, prefix@) {
                        let r = k2.subrange(prefix@.len() as int, k2.len() as int);
                        assert(k2 =~= prefix@ + r) by {
                            assert(k2.subrange(0, prefix@.len() as int) == prefix@);
                        }
                    }
                }
                assert forall|k2: Seq<char>| #[trigger] out@.contains_key(k2) implies out@[k2] == prefixed(m_next, prefix@)[k2] by {
                    if starts_with(k2, prefix@) {
                        let r = k2.subrange(prefix@.len() as int, k2.len() as int);
                        assert(k2 =~= prefix@ + r) by {
                            assert(k2.subrange(0, prefix@.len() as int) == prefix@);
                        }
                    }
                }
                assert(out@ =~= prefixed(m_next, prefix@));
            }
            i = i + 1;
        }
        assert(ev.subrange(0, n as int) =~= ev);
        out
    }

    /// Rebuilds a side-agnostic gesture map from one hand's joints: every
    /// joint named `prefix` + a gesture key, under that key.
    pub fn strip_prefix_to_keys(prefix: &str, joints: &NamedMap<JointTarget<S>>) -> (out: NamedMap<
        JointTarget<S>,
    >)
        ensures
            out@ == stripped(joints@, prefix@),
    {
        let p = chars_of(prefix);
        let n = joints.len();
        let ghost ev = joints.entries_view();
        let mut out: NamedMap<JointTarget<S>> = NamedMap::new();
        let mut i: usize = 0;
        while i < n
            invariant
                n == ev.len(),
                ev == joints.entries_view(),
                keys_unique(ev),
                joints@ == seq_to_map(ev),
                p@ == prefix@,
                i <= n,
                out@ == stripped(seq_to_map(ev.subrange(0, i as int)), prefix@),
            decreases n - i,
        {
            let name = joints.key_at(i);
            let ghost before = out@;
            let ghost k = ev[i as int].0;
            let sub_ghost = Ghost(ev.subrange(0, i + 1));
            proof {
                assert(sub_ghost@.drop_last() =~= ev.subrange(0, i as int));
            }
            if has_prefix(name.as_slice(), p.as_slice()) {
                let mut rest: Vec<char> = Vec::new();
                let mut j: usize = p.len();
                while j < name.len()
                    invariant
                        p@.len() <= j <= name@.len(),
                        rest@ == name@.subrange(p@.len() as int, j as int),
                    decreases name@.len() - j,
                {
                    rest.push(name[j]);
                    assert(name@.subrange(p@.len() as int, j + 1) =~= name@.subrange(p@.len() as int, j as int).push(name@[j as int]));
                    j = j + 1;
                }
                if gesture_key(rest.as_slice()) {
                    let v = *joints.value_at(i);
                    let ghost r = rest@;
                    out.insert(rest, v);
                    proof {
                        let m_prev = seq_to_map(ev.subrange(0, i as int));
                        let m_next = seq_to_map(sub_ghost@);
                        assert(m_next == m_prev.insert(k, v));
                        assert(k =~= prefix@ + r) by {
                            assert(k.subrange(0, prefix@.len() as int) == prefix@);
                        }
                        assert forall|r2: Seq<char>| #[trigger] out@.contains_key(r2) == stripped(m_next, prefix@).contains_key(r2) by {
                            if r2 != r {
                                if prefix@ + r2 == k {
                                    assert((prefix@ + r2).subrange(prefix@.len() as int, (prefix@ + r2).len() as int) =~= r2);
                                    assert((prefix@ + r).subrange(prefix@.len() as int, (prefix@ + r).len() as int) =~= r);
                                }
                            }
                        }
                        assert forall|r2: Seq<char>| #[trigger] out@.contains_key(r2) implies out@[r2] == stripped(m_next, prefix@)[r2] by {
                            if r2 != r {
                                if prefix@ + r2 == k {
                                    assert((prefix@ + r2).subrange(prefix@.len() as int, (prefix@ + r2).len() as int) =~= r2);
                                    assert((prefix@ + r).subrange(prefix@.len() as int, (prefix@ + r).len() as int) =~= r);
                                }
                            }
                        }
                        assert(out@ =~= stripped(m_next, prefix@));
                    }
                } else {
                    proof {
                        let m_prev = seq_to_map(ev.subrange(0, i as int));
                        let m_next = seq_to_map(sub_ghost@);
                        assert(m_next == m_prev.insert(k, ev[i as int].1));
                        assert(k =~= prefix@ + rest@) by {
                            assert(k.subrange(0, prefix@.len() as int) == prefix@);
                        }
                        assert forall|r2: Seq<char>| #[trigger] stripped(m_next, prefix@).contains_key(r2) == stripped(m_prev, prefix@).contains_key(r2) && (stripped(m_next, prefix@).contains_key(r2) ==> stripped(m_next, prefix@)[r2] == stripped(m_prev, prefix@)[r2]) by {
                            if prefix@ + r2 == k {
                                assert((prefix@ + r2).subrange(prefix@.len() as int, (prefix@ + r2).len() as int) =~= r2);
                                assert((prefix@ + rest@).subrange(prefix@.len() as int, (prefix@ + rest@).len() as int) =~= rest@);
                            }
                        }
                        assert(stripped(m_next, prefix@) =~= stripped(m_prev, prefix@));
                    }
                }
            } else {
                proof {
                    let m_prev = seq_to_map(ev.subrange(0, i as int));
                    let m_next = seq_to_map(sub_ghost@);
                    assert(m_next == m_prev.insert(k, ev[i as int].1));
                    assert forall|r2: Seq<char>| #[trigger] stripped(m_next, prefix@).contains_key(r2) == stripped(m_prev, prefix@).contains_key(r2) && (stripped(m_next, prefix@).contains_key(r2) ==> stripped(m_next, prefix@)[r2] == stripped(m_prev, prefix@)[r2]) by {
                        if prefix@ + r2 == k {
                            lemma_prefix_split(prefix@, r2);
                        }
                    }
                    assert(stripped(m_next, prefix@) =~= stripped(m_prev, prefix@));
                }
            }
            i = i + 1;
        }
        assert(ev.subrange(0, n as int) =~= ev);
        out
    }
}

/// Law: capturing a hand back from the joints a gesture was applied with
/// gives the gesture back, for any gesture whose keys are all finger keys.
pub proof fn lemma_gesture_roundtrip<T>(g: Map<Seq<char>, T>, prefix: Seq<char>)
    requires
        forall|k: Seq<char>| #[trigger] g.contains_key(k) ==> is_gesture_key(k),
    ensures
        stripped(prefixed(g, prefix), prefix) == g,
{
    assert forall|r: Seq<char>| #[trigger] stripped(prefixed(g, prefix), prefix).contains_key(r) == g.contains_key(r) by {
        lemma_prefix_split(prefix, r);
    }
    assert forall|r: Seq<char>| #[trigger] g.contains_key(r) implies stripped(prefixed(g, prefix), prefix)[r] == g[r] by {
        lemma_prefix_split(prefix, r);
    }
    assert(stripped(prefixed(g, prefix), prefix) =~= g);
}

} // verus!

verus! {

/// The joint suffixes applying a gesture clears on a hand: its hand and wrist
/// and every finger joint.
pub const GESTURE_CLEAR_SUFFIXES: [&'static str; 17] = [
    "hand",
    "wrist",
    "thumb_metacarpal",
    "thumb_proximal",
    "thumb_distal",
    "index_proximal",
    "index_intermediate",
    "index_distal",
    "middle_proximal",
    "middle_intermediate",
    "middle_distal",
    "ring_proximal",
    "ring_intermediate",
    "ring_distal",
    "little_proximal",
    "little_intermediate",
    "little_distal",
];

/// Captures one hand of a pose as a side-agnostic gesture named `name`: the
/// finger joints on `side`, under their gesture keys. `None` when the hand
/// has no finger joint.
pub fn capture_hand_gesture<S: Copy>(pose: &Pose<S>, side: BodySide, name: String) -> (r: Option<
    HandGesture<S>,
>)
    ensures
        match r {
            None => stripped(pose.joints@, side_prefix(side)).len() == 0,
            Some(g) => {
                &&& g.joints@ == stripped(pose.joints@, side_prefix(side))
                &&& g.joints@.len() > 0
                &&& g.name@ == name@
                &&& g.description is None
            },
        },
{
    if pose.joints.is_empty() {
        assert(stripped(pose.joints@, side_prefix(side)) =~= Map::<Seq<char>, JointTarget<S>>::empty());
        return None;
    }
    let joints = HandGesture::strip_prefix_to_keys(side.prefix(), &pose.joints);
    if joints.is_empty() {
        return None;
    }
    Some(HandGesture { name, description: None, joints })
}

/// Splices a gesture onto one hand of a pose: the hand's gesture joints (and
/// its hand and wrist) are cleared, then the gesture's joints are written
/// under the side's prefix. With `mirrored` (the gesture with every target
/// mirrored across the body's mid-plane), the other hand is cleared too and
/// gets the mirrored joints under its own names. Returns how many joints were
/// written.
pub fn apply_hand_gesture<S: Copy>(
    pose: &mut Pose<S>,
    side: BodySide,
    gesture: &HandGesture<S>,
    mirrored: Option<&HandGesture<S>>,
) -> (n: usize)
    ensures
        final(pose).name == old(pose).name,
        final(pose).description == old(pose).description,
        final(pose).camera == old(pose).camera,
        final(pose).expressions == old(pose).expressions,
        final(pose).hold_joints == old(pose).hold_joints,
        ({
            let sfx = suffix_views(GESTURE_CLEAR_SUFFIXES@);
            let base = prefixed(gesture.joints@, side_prefix(side));
            match mirrored {
                None => {
                    &&& final(pose).joints@ == kept_after_clear(old(pose).joints@, side, sfx).union_prefer_right(base)
                    &&& n == base.len()
                },
                Some(m) => {
                    let other = swapped_sides(prefixed(m.joints@, side_prefix(side)));
                    &&& final(pose).joints@ == kept_after_clear(
                        kept_after_clear(old(pose).joints@, side, sfx),
                        opposite_side(side),
                        sfx,
                    ).union_prefer_right(base).union_prefer_right(other)
                    &&& n as int == if base.len() + other.len() > usize::MAX {
                        usize::MAX as int
                    } else {
                        (base.len() + other.len()) as int
                    }
                },
            }
        }),
{
    let sfx = GESTURE_CLEAR_SUFFIXES.as_slice();
    clear_side_joints(pose, side, sfx);
    if mirrored.is_some() {
        clear_side_joints(pose, side.opposite(), sfx);
    }
    let base = gesture.resolve_for_prefix(side.prefix());
    pose.joints.extend_from(&base);
    let mut n = base.len();
    match mirrored {
        Some(m) => {
            let mb = m.resolve_for_prefix(side.prefix());
            let other = mirror_joint_map_to_other_side(&mb);
            pose.joints.extend_from(&other);
            n = n.saturating_add(other.len());
        },
        None => {},
    }
    n
}

impl<S: Copy> HandGesture<S> {
    /// A copy of this gesture.
    pub fn duplicate(&self) -> (g: Self)
        ensures
            g.name@ == self.name@,
            crate::model::opt_view(g.description) == crate::model::opt_view(self.description),
            g.joints@ == self.joints@,
    {
        HandGesture {
            name: self.name.clone(),
            description: crate::model::clone_opt_string(&self.description),
            joints: self.joints.duplicate(),
        }
    }
}

/// The loaded gestures in ascending order of library name; shortcut `n`
/// picks the `n`-th.
pub fn sorted_gestures<S: Copy>(hands: &NamedMap<HandGesture<S>>) -> (r: Vec<HandGesture<S>>)
    ensures
        exists|ks: Seq<Seq<char>>| #[trigger] crate::catalog::ascending_keys(ks, hands@) && r@.len() == ks.len()
            && forall|i: int| 0 <= i < ks.len() ==> {
                let g = #[trigger] r@[i];
                &&& g.name@ == hands@[ks[i]].name@
                &&& g.joints@ == hands@[ks[i]].joints@
            },
{
    let keys = hands.sorted_keys();
    let ghost ks = keys@.map_values(|k: Vec<char>| k@);
    proof {
        assert forall|k: Seq<char>| #[trigger] hands@.contains_key(k) <==> ks.contains(k) by {
            if hands@.contains_key(k) {
                let a = choose|a: int| 0 <= a < keys@.len() && #[trigger] keys@[a]@ == k;
                assert(ks[a] == k);
            }
            if ks.contains(k) {
                let a = choose|a: int| 0 <= a < ks.len() && ks[a] == k;
                assert(keys@[a]@ == k);
                assert(crate::named_map::lists(keys@, k));
            }
        }
        assert forall|i: int, j: int| 0 <= i < j < ks.len() implies crate::text::lex_lt(#[trigger] ks[i], #[trigger] ks[j]) by {
            assert(ks[i] == keys@[i]@ && ks[j] == keys@[j]@);
        }
    }
    let mut r: Vec<HandGesture<S>> = Vec::new();
    let mut i: usize = 0;
    while i < keys.len()
        invariant
            i <= keys@.len(),
            ks == keys@.map_values(|k: Vec<char>| k@),
            crate::catalog::ascending_keys(ks, hands@),
            r@.len() == i,
            forall|j: int| 0 <= j < i ==> {
                let g = #[trigger] r@[j];
                &&& g.name@ == hands@[ks[j]].name@
                &&& g.joints@ == hands@[ks[j]].joints@
            },
        decreases keys@.len() - i,
    {
        assert(ks.contains(ks[i as int]));
        match hands.get(keys[i].as_slice()) {
            Some(g) => {
                r.push(g.duplicate());
            },
            None => {
                assert(false);
                return r;
            },
        }
        i = i + 1;
    }
    r
}

} // verus!
