//! Binding a pose's joint names to skeleton joints.

use vstd::prelude::*;
use crate::model::{JointTarget, Pose};
use crate::skeleton::{last_named, Joint, JointId, Skeleton};
use crate::text::string_from_chars;

verus! {

/// Why a pose cannot be applied to a skeleton.
#[derive(Debug, Clone)]
pub enum PoseError {
    /// The pose names a joint the skeleton does not have.
    UnknownJoint(String),
}

/// The joint id a name denotes in the joints `j` (the last joint so named),
/// or a negative number when there is none.
pub open spec fn joint_index(j: Seq<Joint>, name: Seq<char>) -> int {
    last_named(j, name, j.len() as int)
}

/// Whether every name among the first `n` entries is a joint of `j`.
pub open spec fn all_known<S>(j: Seq<Joint>, e: Seq<(Seq<char>, JointTarget<S>)>, n: int) -> bool {
    forall|k: int| 0 <= k < n ==> joint_index(j, #[trigger] e[k].0) >= 0
}

impl<S: Copy> Pose<S> {
    /// The pose's joint targets with each name replaced by its joint id, in
    /// the pose's entry order; the first name the skeleton lacks is reported.
    pub fn resolve_joint_ids(&self, skeleton: &Skeleton) -> (r: Result<
        Vec<(JointId, JointTarget<S>)>,
        PoseError,
    >)
        ensures
            match r {
                Ok(v) => {
                    &&& all_known(
                        skeleton.joint_seq(),
                        self.joints.entries_view(),
                        self.joints.entries_view().len() as int,
                    )
                    &&& v@.len() == self.joints.entries_view().len()
                    &&& forall|k: int|
                        0 <= k < v@.len() ==> #[trigger] v@[k].0.0 == joint_index(
                            skeleton.joint_seq(),
                            self.joints.entries_view()[k].0,
                        ) && v@[k].1 == self.joints.entries_view()[k].1
                },
                Err(PoseError::UnknownJoint(name)) => exists|k: int|
                    0 <= k < self.joints.entries_view().len() && all_known(
                        skeleton.joint_seq(),
                        self.joints.entries_view(),
                        k,
                    ) && joint_index(skeleton.joint_seq(), #[trigger] self.joints.entries_view()[k].0)
                        < 0 && name@ == self.joints.entries_view()[k].0,
            },
    {
        let n = self.joints.len();
        let ghost e = self.joints.entries_view();
        let mut out: Vec<(JointId, JointTarget<S>)> = Vec::new();
        let mut i: usize = 0;
        while i < n
            invariant
                n == e.len(),
                e == self.joints.entries_view(),
                i <= n,
                out@.len() == i,
                all_known(skeleton.joint_seq(), e, i as int),
                forall|k: int|
                    0 <= k < i ==> #[trigger] out@[k].0.0 == joint_index(skeleton.joint_seq(), e[k].0)
                        && out@[k].1 == e[k].1,
            decreases n - i,
        {
            let key = self.joints.key_at(i);
            let name = string_from_chars(key.as_slice());
            match skeleton.joint_by_name(name.as_str()) {
                Some(id) => {
                    out.push((id, *self.joints.value_at(i)));
                },
                None => {
                    return Err(PoseError::UnknownJoint(name));
                },
            }
            i = i + 1;
        }
        Ok(out)
    }
}

} // verus!

verus! {

impl PoseError {
    /// The error as text: `pose references unknown joint '<name>'`.
    pub fn message(&self) -> (s: String)
        ensures
            match self {
                PoseError::UnknownJoint(n) => s@ == "pose references unknown joint '"@ + n@ + "'"@,
            },
    {
        match self {
            PoseError::UnknownJoint(n) => {
                let mut s = crate::text::concat_str("pose references unknown joint '", n.as_str());
                s.append("'");
                s
            },
        }
    }
}

} // verus!
