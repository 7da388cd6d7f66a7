//! Bilateral joint naming: which side a joint is on and its mirror partner.

use vstd::prelude::*;
use crate::model::{EulerDeg, JointTarget, Pose};
use crate::text::{chars_eq, chars_of, has_prefix, starts_with, string_from_chars, copy_chars};
use crate::named_map::{seq_to_map, NamedMap};

verus! {

/// Left or right half of the body.
#[derive(Debug, Clone, Copy, PartialEq, Eq, Structural)]
pub enum BodySide {
    Left,
    Right,
}

/// `"left_"`.
pub open spec fn left_prefix() -> Seq<char> {
    seq!['l', 'e', 'f', 't', '_']
}

/// `"right_"`.
pub open spec fn right_prefix() -> Seq<char> {
    seq!['r', 'i', 'g', 'h', 't', '_']
}

/// The name prefix of a side.
pub open spec fn side_prefix(side: BodySide) -> Seq<char> {
    match side {
        BodySide::Left => left_prefix(),
        BodySide::Right => right_prefix(),
    }
}

/// The other side.
pub open spec fn opposite_side(side: BodySide) -> BodySide {
    match side {
        BodySide::Left => BodySide::Right,
        BodySide::Right => BodySide::Left,
    }
}

impl BodySide {
    /// `"left_"` or `"right_"`.
    pub fn prefix(self) -> (p: &'static str)
        ensures
            p@ == side_prefix(self),
    {
        proof {
            reveal_strlit("left_");
            reveal_strlit("right_");
        }
        match self {
            BodySide::Left => "left_",
            BodySide::Right => "right_",
        }
    }

    /// The other side.
    pub fn opposite(self) -> (o: Self)
        ensures
            o == opposite_side(self),
    {
        match self {
            BodySide::Left => BodySide::Right,
            BodySide::Right => BodySide::Left,
        }
    }
}

/// The side a joint name is on: a `left_` or `right_` prefix followed by at
/// least one more character.
pub open spec fn side_of(name: Seq<char>) -> Option<BodySide> {
    if starts_with(name, left_prefix()) && name.len() > left_prefix().len() {
        Some(BodySide::Left)
    } else if starts_with(name, right_prefix()) && name.len() > right_prefix().len() {
        Some(BodySide::Right)
    } else {
        None
    }
}

/// `name` with `left_` and `right_` swapped.
pub open spec fn counterpart_of(name: Seq<char>) -> Option<Seq<char>> {
    if starts_with(name, left_prefix()) {
        Some(right_prefix() + name.subrange(left_prefix().len() as int, name.len() as int))
    } else if starts_with(name, right_prefix()) {
        Some(left_prefix() + name.subrange(right_prefix().len() as int, name.len() as int))
    } else {
        None
    }
}

fn left_chars() -> (v: Vec<char>)
    ensures
        v@ == left_prefix(),
{
    let v = vec!['l', 'e', 'f', 't', '_'];
    assert(v@ =~= left_prefix());
    v
}

fn right_chars() -> (v: Vec<char>)
    ensures
        v@ == right_prefix(),
{
    let v = vec!['r', 'i', 'g', 'h', 't', '_'];
    assert(v@ =~= right_prefix());
    v
}

/// Infers the side from a joint name (`left_shoulder` is on the left).
pub fn side_from_joint(name: &str) -> (r: Option<BodySide>)
    ensures
        r == side_of(name@),
{
    let n = chars_of(name);
    if has_prefix(n.as_slice(), left_chars().as_slice()) && n.len() > 5 {
        return Some(BodySide::Left);
    }
    if has_prefix(n.as_slice(), right_chars().as_slice()) && n.len() > 6 {
        return Some(BodySide::Right);
    }
    None
}

/// The characters of `counterpart_of(name)`.
pub fn counterpart_chars(n: &[char]) -> (r: Option<Vec<char>>)
    ensures
        match r {
            Some(v) => counterpart_of(n@) == Some(v@),
            None => counterpart_of(n@) is None,
        },
{
    let (from, to) = if has_prefix(n, left_chars().as_slice()) {
        (5usize, right_chars())
    } else if has_prefix(n, right_chars().as_slice()) {
        (6usize, left_chars())
    } else {
        return None;
    };
    let mut out = to;
    let mut i: usize = from;
    let ghost head = out@;
    while i < n.len()
        invariant
            from <= i <= n.len(),
            from <= n.len(),
            out@ == head + n@.subrange(from as int, i as int),
        decreases n.len() - i,
    {
        out.push(n[i]);
        assert(n@.subrange(from as int, i + 1) =~= n@.subrange(from as int, i as int).push(n@[i as int]));
        i = i + 1;
    }
    Some(out)
}

/// Swaps `left_` and `right_` on a bilateral joint name.
pub fn counterpart_joint(name: &str) -> (r: Option<String>)
    ensures
        match r {
            Some(s) => counterpart_of(name@) == Some(s@),
            None => counterpart_of(name@) is None,
        },
{
    let n = chars_of(name);
    match counterpart_chars(n.as_slice()) {
        Some(v) => Some(string_from_chars(v.as_slice())),
        None => None,
    }
}

/// Law: the counterpart of a counterpart is the name itself.
pub proof fn lemma_counterpart_involution(name: Seq<char>)
    requires
        counterpart_of(name) is Some,
    ensures
        counterpart_of(counterpart_of(name)->0) == Some(name),
{
    let c = counterpart_of(name)->0;
    if starts_with(name, left_prefix()) {
        let rest = name.subrange(5, name.len() as int);
        assert(c.subrange(0, 6) =~= right_prefix());
        assert(!starts_with(c, left_prefix())) by {
            assert(c[0] == 'r');
            if starts_with(c, left_prefix()) {
                assert(c.subrange(0, 5)[0] == 'l');
            }
        }
        assert(c.subrange(6, c.len() as int) =~= rest);
        assert(name =~= left_prefix() + rest) by {
            assert(name.subrange(0, 5) =~= left_prefix());
        }
    } else {
        let rest = name.subrange(6, name.len() as int);
        assert(c.subrange(0, 5) =~= left_prefix());
        assert(c.subrange(5, c.len() as int) =~= rest);
        assert(name =~= right_prefix() + rest) by {
            assert(name.subrange(0, 6) =~= right_prefix());
        }
    }
}

/// A name and its counterpart differ (their first letters do).
pub proof fn lemma_counterpart_differs(name: Seq<char>)
    requires
        counterpart_of(name) is Some,
    ensures
        counterpart_of(name)->0 != name,
{
    let c = counterpart_of(name)->0;
    if starts_with(name, left_prefix()) {
        assert(name.subrange(0, 5)[0] == name[0]);
        assert(c[0] == 'r');
    } else {
        assert(name.subrange(0, 6)[0] == name[0]);
        assert(c[0] == 'l');
    }
}

/// Law: a joint and its counterpart lie on opposite sides.
pub proof fn lemma_counterpart_opposite_side(name: Seq<char>)
    requires
        side_of(name) is Some,
    ensures
        counterpart_of(name) is Some,
        side_of(counterpart_of(name)->0) == Some(opposite_side(side_of(name)->0)),
{
    let c = counterpart_of(name)->0;
    if starts_with(name, left_prefix()) {
        assert(c.subrange(0, 6) =~= right_prefix());
        assert(!starts_with(c, left_prefix())) by {
            assert(c[0] == 'r');
            if starts_with(c, left_prefix()) {
                assert(c.subrange(0, 5)[0] == 'l');
            }
        }
    } else {
        assert(!starts_with(name, left_prefix()));
        assert(c.subrange(0, 5) =~= left_prefix());
    }
}

/// Writes `euler` as the rotation of `joint`; when `symmetrical`, also
/// writes `mirrored` (the caller's mirror image of `euler`) on the
/// counterpart joint. Other fields of existing targets are kept.
pub fn set_joint_euler_with_symmetry<S: Copy>(
    pose: &mut Pose<S>,
    joint: &str,
    euler: EulerDeg<S>,
    mirrored: EulerDeg<S>,
    symmetrical: bool,
)
    ensures
        final(pose).name == old(pose).name,
        final(pose).description == old(pose).description,
        final(pose).camera == old(pose).camera,
        final(pose).expressions == old(pose).expressions,
        final(pose).hold_joints == old(pose).hold_joints,
        final(pose).joints@ == if symmetrical && counterpart_of(joint@) is Some {
            set_rotation(
                set_rotation(old(pose).joints@, joint@, euler),
                counterpart_of(joint@)->0,
                mirrored,
            )
        } else {
            set_rotation(old(pose).joints@, joint@, euler)
        },
{
    let key = chars_of(joint);
    set_rotation_in(&mut pose.joints, key.as_slice(), euler);
    if symmetrical {
        match counterpart_chars(key.as_slice()) {
            Some(other) => set_rotation_in(&mut pose.joints, other.as_slice(), mirrored),
            None => {},
        }
    }
}

/// `m` with the rotation of `joint` set to `e` (a new target if absent).
pub open spec fn set_rotation<S>(m: Map<Seq<char>, JointTarget<S>>, joint: Seq<char>, e: EulerDeg<S>) -> Map<Seq<char>, JointTarget<S>> {
    let base = if m.contains_key(joint) {
        m[joint]
    } else {
        JointTarget { rotation_deg: None, rotation_quat: None, translation: None }
    };
    m.insert(joint, JointTarget { rotation_deg: Some(e), ..base })
}

/// Law: setting a joint's rotation writes only its rotation. The joint gets
/// rotation `e`; a translation or quaternion it had stays (a new joint has
/// neither); every other joint is untouched.
pub proof fn lemma_set_rotation_writes_only_rotation<S>(
    m: Map<Seq<char>, JointTarget<S>>,
    joint: Seq<char>,
    e: EulerDeg<S>,
)
    ensures
        set_rotation(m, joint, e).contains_key(joint),
        set_rotation(m, joint, e)[joint].rotation_deg == Some(e),
        m.contains_key(joint) ==> {
            &&& set_rotation(m, joint, e)[joint].rotation_quat == m[joint].rotation_quat
            &&& set_rotation(m, joint, e)[joint].translation == m[joint].translation
        },
        !m.contains_key(joint) ==> {
            &&& set_rotation(m, joint, e)[joint].rotation_quat is None
            &&& set_rotation(m, joint, e)[joint].translation is None
        },
        forall|k: Seq<char>| k != joint ==> {
            &&& (#[trigger] set_rotation(m, joint, e).contains_key(k) <==> m.contains_key(k))
            &&& m.contains_key(k) ==> set_rotation(m, joint, e)[k] == m[k]
        },
{
}

/// Sets the rotation of `joint` in `joints` to `e`.
pub fn set_rotation_in<S: Copy>(joints: &mut NamedMap<JointTarget<S>>, joint: &[char], e: EulerDeg<S>)
    ensures
        final(joints)@ == set_rotation(old(joints)@, joint@, e),
{
    let base = match joints.get(joint) {
        Some(t) => *t,
        None => JointTarget::empty(),
    };
    let t = JointTarget { rotation_deg: Some(e), ..base };
    joints.insert(copy_chars(joint), t);
}

} // verus!

verus! {

/// The joints `m` holds under the counterpart names: each bilateral joint's
/// target moved to the other side's name (`mirror_joint_map_to_other_side`).
pub open spec fn swapped_sides<T>(m: Map<Seq<char>, T>) -> Map<Seq<char>, T> {
    Map::new(
        |k: Seq<char>| counterpart_of(k) is Some && m.contains_key(counterpart_of(k)->0),
        |k: Seq<char>| m[counterpart_of(k)->0],
    )
}

/// Copies a joint map authored for one side onto the other: every bilateral
/// joint's entry goes to its counterpart's name; other joints are dropped.
/// `mirrored` holds the targets already mirrored across the body's
/// mid-plane, still under the source side's joint names.
pub fn mirror_joint_map_to_other_side<S: Copy>(mirrored: &NamedMap<JointTarget<S>>) -> (out:
    NamedMap<JointTarget<S>>)
    ensures
        out@ == swapped_sides(mirrored@),
{
    let n = mirrored.len();
    let ghost ev = mirrored.entries_view();
    let mut out: NamedMap<JointTarget<S>> = NamedMap::new();
    let mut i: usize = 0;
    assert(swapped_sides(seq_to_map(ev.subrange(0, 0))) =~= Map::<Seq<char>, JointTarget<S>>::empty());
    while i < n
        invariant
            n == ev.len(),
            ev == mirrored.entries_view(),
            mirrored@ == seq_to_map(ev),
            i <= n,
            out@ == swapped_sides(seq_to_map(ev.subrange(0, i as int))),
        decreases n - i,
    {
        let ghost pre = seq_to_map(ev.subrange(0, i as int));
        assert(ev.subrange(0, i + 1).drop_last() =~= ev.subrange(0, i as int));
        let key = mirrored.key_at(i);
        let v = *mirrored.value_at(i);
        let ghost k = key@;
        assert(seq_to_map(ev.subrange(0, i + 1)) == pre.insert(k, v));
        match counterpart_chars(key.as_slice()) {
            Some(other) => {
                let ghost o = other@;
                proof {
                    lemma_counterpart_involution(k);
                    assert forall|q: Seq<char>| #[trigger] counterpart_of(q) == Some(k) implies q
                        == o by {
                        lemma_counterpart_involution(q);
                    }
                }
                out.insert(other, v);
                assert(out@ =~= swapped_sides(pre.insert(k, v)));
            },
            None => {
                proof {
                    assert forall|q: Seq<char>| counterpart_of(q) is Some implies #[trigger] counterpart_of(q)->0
                        != k by {
                        lemma_counterpart_involution(q);
                    }
                }
                assert(out@ =~= swapped_sides(pre.insert(k, v)));
            },
        }
        i = i + 1;
    }
    assert(ev.subrange(0, n as int) =~= ev);
    out
}

/// Whether `clear_side_joints` removes `name`: it lies on `side` and what
/// follows the side's prefix is one of `suffixes`, or one of them followed by
/// `_` and more.
pub open spec fn cleared_on_side(name: Seq<char>, side: BodySide, suffixes: Seq<Seq<char>>) -> bool {
    let p = side_prefix(side);
    let rest = name.subrange(p.len() as int, name.len() as int);
    starts_with(name, p) && exists|i: int|
        0 <= i < suffixes.len() && (rest == #[trigger] suffixes[i] || starts_with(
            rest,
            suffixes[i].push('_'),
        ))
}

/// `m` without the joints `clear_side_joints` removes.
pub open spec fn kept_after_clear<T>(m: Map<Seq<char>, T>, side: BodySide, suffixes: Seq<Seq<char>>) -> Map<
    Seq<char>,
    T,
> {
    Map::new(|k: Seq<char>| m.contains_key(k) && !cleared_on_side(k, side, suffixes), |k: Seq<char>| m[k])
}

/// The characters of each suffix.
pub open spec fn suffix_views(s: Seq<&str>) -> Seq<Seq<char>> {
    s.map_values(|x: &str| x@)
}

fn is_cleared(name: &[char], side: BodySide, suffixes: &[&str]) -> (b: bool)
    ensures
        b == cleared_on_side(name@, side, suffix_views(suffixes@)),
{
    let prefix = side.prefix();
    let pc = chars_of(prefix);
    if !has_prefix(name, pc.as_slice()) {
        return false;
    }
    let rest = copy_chars(&name[pc.len()..name.len()]);
    assert(rest@ == name@.subrange(pc@.len() as int, name@.len() as int));
    let ghost sv = suffix_views(suffixes@);
    let mut i: usize = 0;
    while i < suffixes.len()
        invariant
            i <= suffixes@.len(),
            sv == suffix_views(suffixes@),
            starts_with(name@, side_prefix(side)),
            rest@ == name@.subrange(side_prefix(side).len() as int, name@.len() as int),
            forall|j: int|
                0 <= j < i ==> !(rest@ == #[trigger] sv[j] || starts_with(rest@, sv[j].push('_'))),
        decreases suffixes@.len() - i,
    {
        let s = chars_of(suffixes[i]);
        let mut su = copy_chars(s.as_slice());
        su.push('_');
        assert(sv[i as int] == s@);
        if chars_eq(rest.as_slice(), s.as_slice()) || has_prefix(rest.as_slice(), su.as_slice()) {
            return true;
        }
        i = i + 1;
    }
    false
}

/// Removes every joint on `side` whose name after the side's prefix is one
/// of `suffixes`, or one of them followed by `_` and more (a finger chain,
/// say). Everything else in the pose is kept.
pub fn clear_side_joints<S: Copy>(pose: &mut Pose<S>, side: BodySide, suffixes: &[&str])
    ensures
        final(pose).name == old(pose).name,
        final(pose).description == old(pose).description,
        final(pose).camera == old(pose).camera,
        final(pose).expressions == old(pose).expressions,
        final(pose).hold_joints == old(pose).hold_joints,
        final(pose).joints@ == kept_after_clear(old(pose).joints@, side, suffix_views(suffixes@)),
{
    let n = pose.joints.len();
    let ghost ev = pose.joints.entries_view();
    let ghost sv = suffix_views(suffixes@);
    let mut out: NamedMap<JointTarget<S>> = NamedMap::new();
    let mut i: usize = 0;
    assert(kept_after_clear(seq_to_map(ev.subrange(0, 0)), side, sv) =~= Map::<Seq<char>, JointTarget<S>>::empty());
    while i < n
        invariant
            n == ev.len(),
            ev == pose.joints.entries_view(),
            pose.joints@ == seq_to_map(ev),
            sv == suffix_views(suffixes@),
            i <= n,
            out@ == kept_after_clear(seq_to_map(ev.subrange(0, i as int)), side, sv),
        decreases n - i,
    {
        let ghost pre = seq_to_map(ev.subrange(0, i as int));
        assert(ev.subrange(0, i + 1).drop_last() =~= ev.subrange(0, i as int));
        let key = pose.joints.key_at(i);
        let v = *pose.joints.value_at(i);
        let ghost k = key@;
        assert(seq_to_map(ev.subrange(0, i + 1)) == pre.insert(k, v));
        if !is_cleared(key.as_slice(), side, suffixes) {
            out.insert(copy_chars(key.as_slice()), v);
        }
        assert(out@ =~= kept_after_clear(pre.insert(k, v), side, sv));
        i = i + 1;
    }
    assert(ev.subrange(0, n as int) =~= ev);
    pose.joints = out;
}

} // verus!

verus! {

/// Law: moving a joint map to the other side twice gives it back, when every
/// joint in it is bilateral.
pub proof fn lemma_swapped_sides_twice<T>(m: Map<Seq<char>, T>)
    requires
        forall|k: Seq<char>| #[trigger] m.contains_key(k) ==> counterpart_of(k) is Some,
    ensures
        swapped_sides(swapped_sides(m)) == m,
{
    assert forall|k: Seq<char>| #[trigger] swapped_sides(swapped_sides(m)).contains_key(k)
        <==> m.contains_key(k) by {
        if m.contains_key(k) {
            lemma_counterpart_involution(k);
        }
        if swapped_sides(swapped_sides(m)).contains_key(k) {
            let c = counterpart_of(k)->0;
            lemma_counterpart_involution(c);
            lemma_counterpart_involution(k);
        }
    }
    assert forall|k: Seq<char>| m.contains_key(k) implies #[trigger] swapped_sides(swapped_sides(m))[k]
        == m[k] by {
        lemma_counterpart_involution(k);
    }
    assert(swapped_sides(swapped_sides(m)) =~= m);
}

} // verus!
