//! Commands sent to the rig (by the HTTP API) and the decision of what each
//! one does: switch the visual, set face weights, blend to a pose, or play an
//! animation once, or be ignored with a warning.

use vstd::prelude::*;
use crate::model::{same_animation_but_looping, Animation, Pose};
use crate::named_map::NamedMap;
use crate::pose::all_known;
use crate::skeleton::Skeleton;
use crate::text::{chars_of, concat_str};
use crate::variant::DollVariant;

verus! {

/// A request for the rig.
#[derive(Debug)]
pub enum RigCommand<S> {
    /// Blend to a library pose; `speed_deg_per_sec` overrides the transition
    /// speed for this command only.
    Pose { name: String, speed_deg_per_sec: Option<S> },
    /// Play a library animation.
    Animation { name: String },
    /// Swap to the other visual.
    SetVariant { variant: DollVariant },
    /// Set face-morph weights by preset name.
    SetExpressions { weights: NamedMap<S> },
}

/// What the rig does with one command.
#[derive(Debug)]
pub enum RigAction<S> {
    /// The requested visual is already shown.
    KeepVariant,
    SwitchVariant(DollVariant),
    ApplyExpressions(NamedMap<S>),
    /// Blend to this pose (at this speed, if one was asked for).
    PlayPose { pose: Pose<S>, speed_deg_per_sec: Option<S> },
    /// Play this copy of the animation, once.
    PlayAnimation(Animation<S>),
    /// Do nothing; the message says why.
    Ignore(String),
}

/// Whether every joint `p` names exists in `skeleton`.
pub open spec fn resolvable<S>(p: Pose<S>, skeleton: Skeleton) -> bool {
    all_known(skeleton.joint_seq(), p.joints.entries_view(), p.joints.entries_view().len() as int)
}

/// Whether a pose command naming `name` plays a pose: the library holds it
/// and every joint it names exists.
pub open spec fn pose_playable<S>(poses: Map<Seq<char>, Pose<S>>, skeleton: Skeleton, name: Seq<char>) -> bool {
    poses.contains_key(name) && resolvable(poses[name], skeleton)
}

/// Whether an animation command naming `name` plays it: the library holds
/// it, it has a keyframe, and its first keyframe's pose resolves.
pub open spec fn animation_playable<S>(animations: Map<Seq<char>, Animation<S>>, skeleton: Skeleton, name: Seq<char>) -> bool {
    &&& animations.contains_key(name)
    &&& animations[name].keyframes@.len() > 0
    &&& resolvable(animations[name].keyframes@[0].pose, skeleton)
}

/// Law: a pose or animation registered at runtime can be triggered at once
/// (when its joints exist and, for an animation, it has a keyframe).
pub proof fn lemma_registered_items_are_playable<S>(
    poses: Map<Seq<char>, Pose<S>>,
    animations: Map<Seq<char>, Animation<S>>,
    skeleton: Skeleton,
    name: Seq<char>,
    p: Pose<S>,
    a: Animation<S>,
)
    ensures
        resolvable(p, skeleton) ==> pose_playable(poses.insert(name, p), skeleton, name),
        a.keyframes@.len() > 0 && resolvable(a.keyframes@[0].pose, skeleton) ==> animation_playable(
            animations.insert(name, a),
            skeleton,
            name,
        ),
{
}

fn can_resolve<S: Copy>(p: &Pose<S>, skeleton: &Skeleton) -> (b: bool)
    ensures
        b == resolvable(*p, *skeleton),
{
    match p.resolve_joint_ids(skeleton) {
        Ok(_) => true,
        Err(_) => false,
    }
}

fn quoted(before: &str, name: &str, after: &str) -> (s: String)
    ensures
        s@ == before@ + name@ + after@,
{
    let mut s = concat_str(before, name);
    s.append(after);
    s
}

/// Decides what `command` does, given the visual now shown and the pose and
/// animation libraries. A variant already shown is kept. A pose must be in
/// the library and name only joints of the skeleton. An animation must be
/// in the library, have a keyframe, and its first keyframe's pose must
/// resolve; it is then played once, whatever its own `looping` says.
pub fn plan_rig_command<S: Copy>(
    command: RigCommand<S>,
    active: DollVariant,
    poses: &NamedMap<Pose<S>>,
    animations: &NamedMap<Animation<S>>,
    skeleton: &Skeleton,
) -> (a: RigAction<S>)
    ensures
        command matches RigCommand::Pose { name, .. } ==> (pose_playable(poses@, *skeleton, name@) <==> a is PlayPose),
        command matches RigCommand::Animation { name } ==> (animation_playable(animations@, *skeleton, name@) <==> a is PlayAnimation),
        match command {
            RigCommand::SetVariant { variant } => if variant == active {
                a is KeepVariant
            } else {
                a == RigAction::<S>::SwitchVariant(variant)
            },
            RigCommand::SetExpressions { weights } => a == RigAction::<S>::ApplyExpressions(weights),
            RigCommand::Pose { name, speed_deg_per_sec } => if !poses@.contains_key(name@) {
                a matches RigAction::Ignore(m) && m@ == "ignoring /pose command for unknown pose '"@
                    + name@ + "'"@
            } else if !resolvable(poses@[name@], *skeleton) {
                a matches RigAction::Ignore(m) && m@ == "ignoring /pose command: pose '"@ + name@
                    + "' failed to resolve"@
            } else {
                a matches RigAction::PlayPose { pose, speed_deg_per_sec: s } && pose@ == poses@[name@]@
                    && s == speed_deg_per_sec
            },
            RigCommand::Animation { name } => if !animations@.contains_key(name@) {
                a matches RigAction::Ignore(m) && m@ == "ignoring /animation command for unknown animation '"@
                    + name@ + "'"@
            } else if animations@[name@].keyframes@.len() == 0 {
                a matches RigAction::Ignore(m) && m@ == "ignoring /animation command: '"@ + name@
                    + "' has no keyframes"@
            } else if !resolvable(animations@[name@].keyframes@[0].pose, *skeleton) {
                a matches RigAction::Ignore(m) && m@ == "ignoring /animation command: '"@ + name@
                    + "' first keyframe failed to resolve"@
            } else {
                a matches RigAction::PlayAnimation(x) && !x.looping && same_animation_but_looping(
                    x,
                    animations@[name@],
                )
            },
        },
{
    match command {
        RigCommand::SetVariant { variant } => {
            if variant == active {
                RigAction::KeepVariant
            } else {
                RigAction::SwitchVariant(variant)
            }
        },
        RigCommand::SetExpressions { weights } => RigAction::ApplyExpressions(weights),
        RigCommand::Pose { name, speed_deg_per_sec } => {
            match poses.get(chars_of(name.as_str()).as_slice()) {
                None => RigAction::Ignore(
                    quoted("ignoring /pose command for unknown pose '", name.as_str(), "'"),
                ),
                Some(p) => {
                    if !can_resolve(p, skeleton) {
                        RigAction::Ignore(
                            quoted("ignoring /pose command: pose '", name.as_str(), "' failed to resolve"),
                        )
                    } else {
                        RigAction::PlayPose { pose: p.duplicate(), speed_deg_per_sec }
                    }
                },
            }
        },
        RigCommand::Animation { name } => {
            match animations.get(chars_of(name.as_str()).as_slice()) {
                None => RigAction::Ignore(
                    quoted("ignoring /animation command for unknown animation '", name.as_str(), "'"),
                ),
                Some(src) => {
                    if src.keyframes.len() == 0 {
                        RigAction::Ignore(
                            quoted("ignoring /animation command: '", name.as_str(), "' has no keyframes"),
                        )
                    } else if !can_resolve(&src.keyframes[0].pose, skeleton) {
                        RigAction::Ignore(
                            quoted(
                                "ignoring /animation command: '",
                                name.as_str(),
                                "' first keyframe failed to resolve",
                            ),
                        )
                    } else {
                        let mut once = src.duplicate();
                        once.looping = false;
                        RigAction::PlayAnimation(once)
                    }
                },
            }
        },
    }
}

} // verus!
