//! The joint hierarchy (bone tree) in its rest pose.
//!
//! Joints live in a flat arena indexed by [`JointId`]; the builder adds a
//! joint only after its parent, so a parent always has a lower index than its
//! children and a single forward pass composes transforms from the root
//! down. Rest geometry is kept in whole millimetres (every authored length is
//! a multiple of a millimetre); rest rotations are the identity.

use vstd::prelude::*;
use crate::text::{chars_of, chars_eq};

verus! {

/// Index into a [`Skeleton`]'s joint arena.
#[derive(Debug, Clone, Copy, PartialEq, Eq, Hash, PartialOrd, Ord, Structural)]
pub struct JointId(pub u32);

/// One joint at rest.
#[derive(Debug)]
pub struct Joint {
    pub name: String,
    pub parent: Option<JointId>,
    pub children: Vec<JointId>,
    /// Offset from the parent joint at rest, in millimetres (x, y, z).
    pub local_translation_mm: [i32; 3],
    /// Distance to the primary child (mesh sizing only), millimetres.
    pub length_mm: u32,
    /// Thickness of the incoming bone (mesh sizing only), millimetres.
    pub radius_mm: u32,
}

/// Parent links point backwards and each joint's child list is exactly the
/// joints naming it as parent, in index order.
pub open spec fn arena_wf(j: Seq<Joint>) -> bool {
    &&& j.len() <= u32::MAX
    &&& forall|i: int|
        0 <= i < j.len() ==> match (#[trigger] j[i]).parent {
            Some(p) => (p.0 as int) < i,
            None => true,
        }
    &&& forall|i: int| 0 <= i < j.len() ==> (#[trigger] j[i]).children@ == children_of(j, i)
}

/// Ids of the joints whose parent is `p`, in index order.
pub open spec fn children_of(j: Seq<Joint>, p: int) -> Seq<JointId> {
    children_below(j, p, j.len() as int)
}

/// Ids of the joints among the first `n` whose parent is `p`.
pub open spec fn children_below(j: Seq<Joint>, p: int, n: int) -> Seq<JointId>
    decreases n,
{
    if n <= 0 {
        Seq::empty()
    } else {
        let prev = children_below(j, p, n - 1);
        if j[n - 1].parent == Some(JointId(p as u32)) && 0 <= p <= u32::MAX {
            prev.push(JointId((n - 1) as u32))
        } else {
            prev
        }
    }
}

/// Index of the last joint named `name` among the first `n`, or -1.
pub open spec fn last_named(j: Seq<Joint>, name: Seq<char>, n: int) -> int
    decreases n,
{
    if n <= 0 {
        -1
    } else if j[n - 1].name@ == name {
        n - 1
    } else {
        last_named(j, name, n - 1)
    }
}

/// Index of the first root (parentless joint), or -1.
pub open spec fn first_root(j: Seq<Joint>, n: int) -> int
    decreases n,
{
    if n <= 0 {
        -1
    } else if first_root(j, n - 1) >= 0 {
        first_root(j, n - 1)
    } else if j[n - 1].parent is None {
        n - 1
    } else {
        -1
    }
}

/// Rest position of joint `i` in model space (millimetres): its own offset
/// added to its parent's rest position.
pub open spec fn rest_position(j: Seq<Joint>, i: int, axis: int) -> int
    decreases i, 0int,
{
    if i < 0 || i >= j.len() {
        0
    } else {
        let own = j[i].local_translation_mm[axis] as int;
        match j[i].parent {
            Some(p) => if (p.0 as int) < i {
                rest_position(j, p.0 as int, axis) + own
            } else {
                own
            },
            None => own,
        }
    }
}

proof fn lemma_children_below_frame(j: Seq<Joint>, k: Seq<Joint>, p: int, n: int)
    requires
        0 <= n <= j.len(),
        n <= k.len(),
        forall|i: int| 0 <= i < n ==> (#[trigger] k[i]).parent == j[i].parent,
    ensures
        children_below(k, p, n) == children_below(j, p, n),
    decreases n,
{
    if n > 0 {
        lemma_children_below_frame(j, k, p, n - 1);
    }
}

proof fn lemma_last_named_frame(j: Seq<Joint>, k: Seq<Joint>, name: Seq<char>, n: int)
    requires
        0 <= n <= j.len(),
        n <= k.len(),
        forall|i: int| 0 <= i < n ==> (#[trigger] k[i]).name@ == j[i].name@,
    ensures
        last_named(k, name, n) == last_named(j, name, n),
    decreases n,
{
    if n > 0 {
        lemma_last_named_frame(j, k, name, n - 1);
    }
}

proof fn lemma_first_root_frame(j: Seq<Joint>, k: Seq<Joint>, n: int)
    requires
        0 <= n <= j.len(),
        n <= k.len(),
        forall|i: int| 0 <= i < n ==> (#[trigger] k[i]).parent == j[i].parent,
    ensures
        first_root(k, n) == first_root(j, n),
    decreases n,
{
    if n > 0 {
        lemma_first_root_frame(j, k, n - 1);
    }
}

proof fn lemma_first_root_range(j: Seq<Joint>, n: int)
    requires
        0 <= n <= j.len(),
    ensures
        -1 <= first_root(j, n) < n,
        first_root(j, n) >= 0 ==> j[first_root(j, n)].parent is None,
        first_root(j, n) >= 0 ==> forall|i: int|
            0 <= i < first_root(j, n) ==> (#[trigger] j[i]).parent is Some,
        first_root(j, n) < 0 ==> forall|i: int| 0 <= i < n ==> (#[trigger] j[i]).parent is Some,
    decreases n,
{
    if n > 0 {
        lemma_first_root_range(j, n - 1);
    }
}

/// Incrementally builds a [`Skeleton`]; a joint's parent must already exist.
pub struct SkeletonBuilder {
    joints: Vec<Joint>,
}

impl SkeletonBuilder {
    /// The joints added so far.
    pub closed spec fn joint_seq(&self) -> Seq<Joint> {
        self.joints@
    }

    #[verifier::type_invariant]
    closed spec fn inv(&self) -> bool {
        arena_wf(self.joints@)
    }

    /// An empty builder.
    pub fn new() -> (b: Self)
        ensures
            b.joint_seq().len() == 0,
    {
        SkeletonBuilder { joints: Vec::new() }
    }

    /// Number of joints added so far.
    pub fn len(&self) -> (n: usize)
        ensures
            n == self.joint_seq().len(),
            arena_wf(self.joint_seq()),
    {
        proof {
            use_type_invariant(self);
        }
        self.joints.len()
    }

    /// Adds a joint below `parent` (or a root when `None`) and returns its id,
    /// which is the number of joints added before it. The parent's child list
    /// gains the new id.
    pub fn add_joint(
        &mut self,
        name: &str,
        parent: Option<JointId>,
        local_translation_mm: [i32; 3],
        length_mm: u32,
        radius_mm: u32,
    ) -> (id: JointId)
        requires
            old(self).joint_seq().len() < u32::MAX,
            parent matches Some(p) ==> (p.0 as int) < old(self).joint_seq().len(),
        ensures
            id.0 == old(self).joint_seq().len(),
            final(self).joint_seq().len() == old(self).joint_seq().len() + 1,
            final(self).joint_seq()[id.0 as int].name@ == name@,
            final(self).joint_seq()[id.0 as int].parent == parent,
            final(self).joint_seq()[id.0 as int].children@.len() == 0,
            final(self).joint_seq()[id.0 as int].local_translation_mm == local_translation_mm,
            final(self).joint_seq()[id.0 as int].length_mm == length_mm,
            final(self).joint_seq()[id.0 as int].radius_mm == radius_mm,
            forall|i: int|
                0 <= i < old(self).joint_seq().len() ==> {
                    let o = #[trigger] old(self).joint_seq()[i];
                    let n = final(self).joint_seq()[i];
                    &&& n.name == o.name
                    &&& n.parent == o.parent
                    &&& n.local_translation_mm == o.local_translation_mm
                    &&& n.length_mm == o.length_mm
                    &&& n.radius_mm == o.radius_mm
                    &&& n.children@ == if parent == Some(JointId(i as u32)) {
                        o.children@.push(id)
                    } else {
                        o.children@
                    }
                },
    {
        proof {
            use_type_invariant(&*self);
        }
        let ghost before = self.joints@;
        let id = JointId(self.joints.len() as u32);
        let mut joints: Vec<Joint> = Vec::new();
        std::mem::swap(&mut joints, &mut self.joints);
        joints.push(
            Joint {
                name: String::from_str(name),
                parent,
                children: Vec::new(),
                local_translation_mm,
                length_mm,
                radius_mm,
            },
        );
        match parent {
            Some(p) => {
                let pi = p.0 as usize;
                let mut pj = joints.remove(pi);
                pj.children.push(id);
                joints.insert(pi, pj);
            },
            None => {},
        }
        proof {
            let after = joints@;
            let n = before.len() as int;
            assert forall|q: int, m: int| 0 <= m <= n implies children_below(after, q, m)
                == children_below(before, q, m) by {
                lemma_children_below_frame(before, after, q, m);
            }
            assert forall|i: int| 0 <= i < after.len() implies (#[trigger] after[i]).children@
                == children_of(after, i) by {
                assert(children_below(after, i, n + 1) == if parent == Some(JointId(i as u32)) {
                    children_below(after, i, n).push(id)
                } else {
                    children_below(after, i, n)
                });
                if i < n {
                    assert(before[i].children@ == children_of(before, i));
                } else {
                    assert(children_below(after, i, n) =~= Seq::<JointId>::empty()) by {
                        assert forall|m: int| 0 <= m <= n implies children_below(after, i, m)
                            =~= Seq::<JointId>::empty() by {
                            lemma_children_below_empty(after, i, m);
                        }
                    }
                }
            }
        }
        self.joints = joints;
        id
    }

    /// The finished skeleton; its root is the first joint added without a
    /// parent.
    pub fn build(self) -> (s: Skeleton)
        requires
            self.joint_seq().len() > 0,
        ensures
            s.joint_seq() == self.joint_seq(),
            s.root().0 == first_root(self.joint_seq(), self.joint_seq().len() as int),
            s.root().0 == 0,
    {
        proof {
            use_type_invariant(&self);
            lemma_first_root_range(self.joints@, self.joints@.len() as int);
            assert(self.joints@[0].parent is None);
        }
        let mut i: usize = 0;
        while i < self.joints.len()
            invariant
                i <= self.joints@.len(),
                self.joints@.len() > 0,
                forall|k: int| 0 <= k < i ==> (#[trigger] self.joints@[k]).parent is Some,
            decreases self.joints@.len() - i,
        {
            if self.joints[i].parent.is_none() {
                break;
            }
            i = i + 1;
        }
        let root = JointId(i as u32);
        Skeleton { joints: self.joints, root }
    }
}

proof fn lemma_rest_position_bound(j: Seq<Joint>, i: int, a: int)
    requires
        0 <= i < j.len(),
        0 <= a < 3,
    ensures
        -(i + 1) * 2147483648 <= rest_position(j, i, a) <= (i + 1) * 2147483648,
    decreases i,
{
    match j[i].parent {
        Some(p) => if (p.0 as int) < i {
            lemma_rest_position_bound(j, p.0 as int, a);
        },
        None => {},
    }
}

proof fn lemma_children_below_empty(j: Seq<Joint>, p: int, m: int)
    requires
        0 <= m <= j.len(),
        forall|k: int| 0 <= k < m ==> match (#[trigger] j[k]).parent {
            Some(q) => (q.0 as int) < k,
            None => true,
        },
        p >= m - 1,
    ensures
        children_below(j, p, m) =~= Seq::<JointId>::empty(),
    decreases m,
{
    if m > 0 {
        lemma_children_below_empty(j, p, m - 1);
    }
}

/// A joint hierarchy in its rest pose.
#[derive(Debug)]
pub struct Skeleton {
    joints: Vec<Joint>,
    root: JointId,
}

impl Skeleton {
    /// The joints in id order.
    pub closed spec fn joint_seq(&self) -> Seq<Joint> {
        self.joints@
    }

    /// The root joint's id.
    pub closed spec fn root_spec(&self) -> JointId {
        self.root
    }

    #[verifier::type_invariant]
    closed spec fn inv(&self) -> bool {
        &&& arena_wf(self.joints@)
        &&& self.joints@.len() > 0
        &&& self.root.0 as int == first_root(self.joints@, self.joints@.len() as int)
    }

    /// The structural facts every skeleton satisfies.
    pub fn facts(&self)
        ensures
            arena_wf(self.joint_seq()),
            self.joint_seq().len() > 0,
            self.root_spec().0 == 0,
            self.joint_seq()[0].parent is None,
    {
        proof {
            use_type_invariant(self);
            lemma_first_root_range(self.joints@, self.joints@.len() as int);
            assert(self.joints@[0].parent is None);
        }
    }

    #[verifier::when_used_as_spec(root_spec)]
    pub fn root(&self) -> (r: JointId)
        ensures
            r == self.root_spec(),
    {
        self.root
    }

    /// The joint with id `id`.
    pub fn joint(&self, id: JointId) -> (j: &Joint)
        requires
            (id.0 as int) < self.joint_seq().len(),
        ensures
            *j == self.joint_seq()[id.0 as int],
    {
        &self.joints[id.0 as usize]
    }

    /// The id of the joint called `name` (the last one added under that name).
    pub fn joint_by_name(&self, name: &str) -> (r: Option<JointId>)
        ensures
            match r {
                Some(id) => id.0 == last_named(
                    self.joint_seq(),
                    name@,
                    self.joint_seq().len() as int,
                ) && last_named(self.joint_seq(), name@, self.joint_seq().len() as int) >= 0,
                None => last_named(self.joint_seq(), name@, self.joint_seq().len() as int) < 0,
            },
    {
        proof {
            use_type_invariant(self);
        }
        let target = chars_of(name);
        let mut i: usize = self.joints.len();
        while i > 0
            invariant
                i <= self.joints@.len(),
                self.joints@.len() <= u32::MAX,
                last_named(self.joints@, name@, self.joints@.len() as int) == last_named(
                    self.joints@,
                    name@,
                    i as int,
                ),
                target@ == name@,
            decreases i,
        {
            let jn = chars_of(self.joints[i - 1].name.as_str());
            if chars_eq(jn.as_slice(), target.as_slice()) {
                return Some(JointId((i - 1) as u32));
            }
            i = i - 1;
        }
        None
    }

    /// Number of joints.
    pub fn len(&self) -> (n: usize)
        ensures
            n == self.joint_seq().len(),
    {
        self.joints.len()
    }

    /// Whether the skeleton has no joints (never, for a built skeleton).
    pub fn is_empty(&self) -> (b: bool)
        ensures
            b == (self.joint_seq().len() == 0),
            !b,
    {
        proof {
            use_type_invariant(self);
        }
        self.joints.len() == 0
    }

    /// Rest position of every joint in model space (millimetres), composed
    /// from the root down: each joint's offset added to its parent's position.
    pub fn world_rest_positions_mm(&self) -> (r: Vec<[i64; 3]>)
        ensures
            r@.len() == self.joint_seq().len(),
            forall|i: int, a: int|
                0 <= i < r@.len() && 0 <= a < 3 ==> #[trigger] r@[i][a] as int == rest_position(
                    self.joint_seq(),
                    i,
                    a,
                ),
    {
        proof {
            use_type_invariant(self);
        }
        let mut r: Vec<[i64; 3]> = Vec::new();
        let mut i: usize = 0;
        while i < self.joints.len()
            invariant
                i <= self.joints@.len(),
                arena_wf(self.joints@),
                r@.len() == i,
                forall|k: int, a: int|
                    0 <= k < i && 0 <= a < 3 ==> #[trigger] r@[k][a] as int == rest_position(
                        self.joints@,
                        k,
                        a,
                    ),
            decreases self.joints@.len() - i,
        {
            let t = self.joints[i].local_translation_mm;
            proof {
                assert(match self.joints@[i as int].parent {
                    Some(p) => (p.0 as int) < i,
                    None => true,
                });
                lemma_rest_position_bound(self.joints@, i as int, 0);
                lemma_rest_position_bound(self.joints@, i as int, 1);
                lemma_rest_position_bound(self.joints@, i as int, 2);
            }
            let pos: [i64; 3] = match self.joints[i].parent {
                Some(p) => {
                    let pp = r[p.0 as usize];
                    proof {
                        lemma_rest_position_bound(self.joints@, p.0 as int, 0);
                        lemma_rest_position_bound(self.joints@, p.0 as int, 1);
                        lemma_rest_position_bound(self.joints@, p.0 as int, 2);
                        assert(pp[0] as int == rest_position(self.joints@, p.0 as int, 0));
                        assert(pp[1] as int == rest_position(self.joints@, p.0 as int, 1));
                        assert(pp[2] as int == rest_position(self.joints@, p.0 as int, 2));
                    }
                    [pp[0] + t[0] as i64, pp[1] + t[1] as i64, pp[2] + t[2] as i64]
                },
                None => [t[0] as i64, t[1] as i64, t[2] as i64],
            };
            r.push(pos);
            i = i + 1;
        }
        r
    }

    /// The joints, in id order.
    pub fn joints(&self) -> (j: &Vec<Joint>)
        ensures
            j@ == self.joint_seq(),
    {
        &self.joints
    }
}

} // verus!

verus! {

/// One row of the humanoid layout: name, parent index, rest offset (mm),
/// length (mm), radius (mm).
pub struct HumanoidRow {
    pub name: Seq<char>,
    pub parent: Option<u32>,
    pub offset: [i32; 3],
    pub length: u32,
    pub radius: u32,
}

pub open spec fn row(name: Seq<char>, parent: Option<u32>, offset: [i32; 3], length: u32, radius: u32) -> HumanoidRow {
    HumanoidRow { name, parent, offset, length, radius }
}

/// The default humanoid, joint by joint in id order: a spine of pelvis,
/// spine, chest, upper chest, neck and head; face joints under the head;
/// then for the left side and again, mirrored in x, for the right side a
/// clavicle-shoulder-elbow-wrist-hand arm under the upper chest and a
/// hip-knee-ankle-toe leg under the pelvis.
pub open spec fn humanoid_layout() -> Seq<HumanoidRow> {
    seq![
        row("pelvis"@, None, [0, 0, 0], 160, 150),
        row("spine"@, Some(0), [0, 170, 0], 170, 88),
        row("chest"@, Some(1), [0, 180, 0], 180, 115),
        row("upper_chest"@, Some(2), [0, 130, 0], 130, 92),
        row("neck"@, Some(3), [0, 85, 0], 85, 32),
        row("head"@, Some(4), [0, 130, 0], 400, 90),
        row("jaw"@, Some(5), [0, -55i32, 95], 60, 10),
        row("left_eye"@, Some(5), [45, 10, 90], 10, 10),
        row("right_eye"@, Some(5), [-45i32, 10, 90], 10, 10),
        row("left_pupil"@, Some(7), [0, 0, 12], 10, 10),
        row("right_pupil"@, Some(8), [0, 0, 12], 10, 10),
        row("left_eyelid"@, Some(7), [0, 22, 12], 10, 10),
        row("right_eyelid"@, Some(8), [0, 22, 12], 10, 10),
        row("left_eyebrow"@, Some(5), [45, 55, 95], 10, 10),
        row("right_eyebrow"@, Some(5), [-45i32, 55, 95], 10, 10),
        row("left_blush"@, Some(5), [75, -25i32, 40], 10, 10),
        row("right_blush"@, Some(5), [-75i32, -25i32, 40], 10, 10),
        row("left_clavicle"@, Some(3), [68, 20, 0], 100, 32),
        row("left_shoulder"@, Some(17), [100, 0, 0], 280, 48),
        row("left_elbow"@, Some(18), [280, 0, 0], 240, 38),
        row("left_wrist"@, Some(19), [240, 0, 0], 90, 26),
        row("left_hand"@, Some(20), [100, 0, 0], 110, 23),
        row("left_hip"@, Some(0), [90, -40i32, 0], 440, 95),
        row("left_knee"@, Some(22), [0, -440i32, 0], 420, 50),
        row("left_ankle"@, Some(23), [0, -420i32, 0], 100, 35),
        row("left_toe"@, Some(24), [0, -30i32, 150], 60, 26),
        row("right_clavicle"@, Some(3), [-68i32, 20, 0], 100, 32),
        row("right_shoulder"@, Some(26), [-100i32, 0, 0], 280, 48),
        row("right_elbow"@, Some(27), [-280i32, 0, 0], 240, 38),
        row("right_wrist"@, Some(28), [-240i32, 0, 0], 90, 26),
        row("right_hand"@, Some(29), [-100i32, 0, 0], 110, 23),
        row("right_hip"@, Some(0), [-90i32, -40i32, 0], 440, 95),
        row("right_knee"@, Some(31), [0, -440i32, 0], 420, 50),
        row("right_ankle"@, Some(32), [0, -420i32, 0], 100, 35),
        row("right_toe"@, Some(33), [0, -30i32, 150], 60, 26),
    ]
}

/// Whether joint `j` is laid out as `r`.
pub open spec fn joint_matches_row(j: Joint, r: HumanoidRow) -> bool {
    &&& j.name@ == r.name
    &&& j.parent == match r.parent {
        Some(p) => Some(JointId(p)),
        None => None,
    }
    &&& j.local_translation_mm == r.offset
    &&& j.length_mm == r.length
    &&& j.radius_mm == r.radius
}

/// Adds the rows `from..to` of the humanoid layout.
fn add_layout_rows(b: &mut SkeletonBuilder, from: usize, to: usize)
    requires
        from <= to <= 35,
        old(b).joint_seq().len() == from,
        forall|i: int| 0 <= i < from ==> joint_matches_row(#[trigger] old(b).joint_seq()[i], humanoid_layout()[i]),
    ensures
        final(b).joint_seq().len() == to,
        forall|i: int| 0 <= i < to ==> joint_matches_row(#[trigger] final(b).joint_seq()[i], humanoid_layout()[i]),
{
    let mut k: usize = from;
    while k < to
        invariant
            from <= k <= to <= 35,
            b.joint_seq().len() == k,
            forall|i: int| 0 <= i < k ==> joint_matches_row(#[trigger] b.joint_seq()[i], humanoid_layout()[i]),
        decreases to - k,
    {
        let (name, parent, offset, length, radius) = layout_row(k);
        let ghost before = b.joint_seq();
        b.add_joint(name, parent, offset, length, radius);
        assert forall|i: int| 0 <= i < k + 1 implies joint_matches_row(
            #[trigger] b.joint_seq()[i],
            humanoid_layout()[i],
        ) by {
            if i < k {
                assert(joint_matches_row(before[i], humanoid_layout()[i]));
            }
        }
        k = k + 1;
    }
}

/// Row `k` of the humanoid layout, as executable values.
fn layout_row(k: usize) -> (r: (&'static str, Option<JointId>, [i32; 3], u32, u32))
    requires
        k < 35,
    ensures
        r.0@ == humanoid_layout()[k as int].name,
        r.1 == match humanoid_layout()[k as int].parent {
            Some(p) => Some(JointId(p)),
            None => None,
        },
        r.1 matches Some(p) ==> p.0 < k,
        r.2 == humanoid_layout()[k as int].offset,
        r.3 == humanoid_layout()[k as int].length,
        r.4 == humanoid_layout()[k as int].radius,
{
    let p = |i: u32| -> (o: Option<JointId>)
        ensures
            o == Some(JointId(i)),
        { Some(JointId(i)) };
    match k {
        0 => ("pelvis", None, [0, 0, 0], 160, 150),
        1 => ("spine", p(0), [0, 170, 0], 170, 88),
        2 => ("chest", p(1), [0, 180, 0], 180, 115),
        3 => ("upper_chest", p(2), [0, 130, 0], 130, 92),
        4 => ("neck", p(3), [0, 85, 0], 85, 32),
        5 => ("head", p(4), [0, 130, 0], 400, 90),
        6 => ("jaw", p(5), [0, -55, 95], 60, 10),
        7 => ("left_eye", p(5), [45, 10, 90], 10, 10),
        8 => ("right_eye", p(5), [-45, 10, 90], 10, 10),
        9 => ("left_pupil", p(7), [0, 0, 12], 10, 10),
        10 => ("right_pupil", p(8), [0, 0, 12], 10, 10),
        11 => ("left_eyelid", p(7), [0, 22, 12], 10, 10),
        12 => ("right_eyelid", p(8), [0, 22, 12], 10, 10),
        13 => ("left_eyebrow", p(5), [45, 55, 95], 10, 10),
        14 => ("right_eyebrow", p(5), [-45, 55, 95], 10, 10),
        15 => ("left_blush", p(5), [75, -25, 40], 10, 10),
        16 => ("right_blush", p(5), [-75, -25, 40], 10, 10),
        17 => ("left_clavicle", p(3), [68, 20, 0], 100, 32),
        18 => ("left_shoulder", p(17), [100, 0, 0], 280, 48),
        19 => ("left_elbow", p(18), [280, 0, 0], 240, 38),
        20 => ("left_wrist", p(19), [240, 0, 0], 90, 26),
        21 => ("left_hand", p(20), [100, 0, 0], 110, 23),
        22 => ("left_hip", p(0), [90, -40, 0], 440, 95),
        23 => ("left_knee", p(22), [0, -440, 0], 420, 50),
        24 => ("left_ankle", p(23), [0, -420, 0], 100, 35),
        25 => ("left_toe", p(24), [0, -30, 150], 60, 26),
        26 => ("right_clavicle", p(3), [-68, 20, 0], 100, 32),
        27 => ("right_shoulder", p(26), [-100, 0, 0], 280, 48),
        28 => ("right_elbow", p(27), [-280, 0, 0], 240, 38),
        29 => ("right_wrist", p(28), [-240, 0, 0], 90, 26),
        30 => ("right_hand", p(29), [-100, 0, 0], 110, 23),
        31 => ("right_hip", p(0), [-90, -40, 0], 440, 95),
        32 => ("right_knee", p(31), [0, -440, 0], 420, 50),
        33 => ("right_ankle", p(32), [0, -420, 0], 100, 35),
        _ => ("right_toe", p(33), [0, -30, 150], 60, 26),
    }
}

impl Skeleton {
    /// The default 35-joint humanoid (about 1.55 m tall at rest), laid out
    /// as [`humanoid_layout`] lists.
    pub fn humanoid_default() -> (s: Skeleton)
        ensures
            s.joint_seq().len() == 35,
            forall|i: int| 0 <= i < 35 ==> joint_matches_row(#[trigger] s.joint_seq()[i], humanoid_layout()[i]),
    {
        let mut b = SkeletonBuilder::new();
        add_layout_rows(&mut b, 0, 35);
        b.build()
    }
}

} // verus!
