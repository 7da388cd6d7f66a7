//! What the rig does on its own: return to the default pose after a while
//! without commands (or right after a one-shot animation ends), and, when
//! enabled, play a random "bored" clip every so often while it rests.
//!
//! Times are milliseconds since the app started.

use vstd::prelude::*;
use crate::model::Animation;
use crate::named_map::NamedMap;

verus! {

/// Tracks when the rig last got a command, so it can go back to its default
/// pose after `timeout_ms` of inactivity.
#[derive(Debug, Clone)]
pub struct IdleRevert {
    pub timeout_ms: u64,
    pub default_pose_name: String,
    /// When the last command was applied.
    pub last_activity_ms: u64,
    /// The revert has fired and no command came since.
    pub reverted: bool,
    /// A commanded animation is playing; the rig returns when it ends.
    pub expect_return_after_animation: bool,
    /// The commanded animation ended; return without waiting.
    pub pending_after_animation: bool,
}

/// Whether the return to the default pose is due at `now_ms` (see
/// [`IdleRevert::should_revert`]).
pub open spec fn revert_due(s: IdleRevert, now_ms: u64, editor_active: bool, playback_idle: bool) -> bool {
    &&& !editor_active
    &&& playback_idle
    &&& !s.reverted
    &&& (s.pending_after_animation || (now_ms >= s.last_activity_ms && now_ms - s.last_activity_ms
        >= s.timeout_ms))
}

/// The state after a frame (see [`IdleRevert::note_frame`]).
pub open spec fn after_frame(s: IdleRevert, playback_idle: bool) -> IdleRevert {
    if s.expect_return_after_animation && playback_idle {
        IdleRevert { pending_after_animation: true, expect_return_after_animation: false, ..s }
    } else {
        s
    }
}

impl IdleRevert {
    /// Ten seconds to the `idle` pose, nothing pending.
    pub fn new() -> (s: Self)
        ensures
            s.timeout_ms == 10_000,
            s.default_pose_name@ == "idle"@,
            s.last_activity_ms == 0,
            !s.reverted,
            !s.expect_return_after_animation,
            !s.pending_after_animation,
    {
        IdleRevert {
            timeout_ms: 10_000,
            default_pose_name: String::from_str("idle"),
            last_activity_ms: 0,
            reverted: false,
            expect_return_after_animation: false,
            pending_after_animation: false,
        }
    }

    /// Keeps the rig from reverting while the editor is authoring.
    pub fn hold_for_editor(&mut self, now_ms: u64)
        ensures
            final(self).last_activity_ms == now_ms,
            !final(self).reverted,
            !final(self).expect_return_after_animation,
            !final(self).pending_after_animation,
            final(self).timeout_ms == old(self).timeout_ms,
            final(self).default_pose_name == old(self).default_pose_name,
    {
        self.last_activity_ms = now_ms;
        self.reverted = false;
        self.expect_return_after_animation = false;
        self.pending_after_animation = false;
    }

    /// Whether the rig rests on its default pose (bored autoplay may start).
    pub fn is_holding_default_pose(&self) -> (b: bool)
        ensures
            b == self.reverted,
    {
        self.reverted
    }

    /// A pose command was applied at `now_ms`.
    pub fn note_pose_command(&mut self, now_ms: u64)
        ensures
            final(self).last_activity_ms == now_ms,
            !final(self).reverted,
            !final(self).expect_return_after_animation,
            !final(self).pending_after_animation,
            final(self).timeout_ms == old(self).timeout_ms,
            final(self).default_pose_name == old(self).default_pose_name,
    {
        self.last_activity_ms = now_ms;
        self.reverted = false;
        self.expect_return_after_animation = false;
        self.pending_after_animation = false;
    }

    /// A one-shot animation command was applied at `now_ms`: the rig returns
    /// to its default pose when it ends.
    pub fn note_animation_command(&mut self, now_ms: u64)
        ensures
            final(self).last_activity_ms == now_ms,
            !final(self).reverted,
            final(self).expect_return_after_animation,
            !final(self).pending_after_animation,
            final(self).timeout_ms == old(self).timeout_ms,
            final(self).default_pose_name == old(self).default_pose_name,
    {
        self.last_activity_ms = now_ms;
        self.reverted = false;
        self.expect_return_after_animation = true;
        self.pending_after_animation = false;
    }

    /// After a frame: a commanded animation whose playback went idle makes
    /// the return pending.
    pub fn note_frame(&mut self, playback_idle: bool)
        ensures
            *final(self) == after_frame(*old(self), playback_idle),
    {
        if self.expect_return_after_animation && playback_idle {
            self.pending_after_animation = true;
            self.expect_return_after_animation = false;
        }
    }

    /// Whether to start the return to the default pose now: never while the
    /// editor is open, while playback runs, or after it already fired;
    /// otherwise at once when a commanded animation just ended, else once
    /// `timeout_ms` has passed since the last command. Going ahead clears the
    /// pending return.
    pub fn should_revert(&mut self, now_ms: u64, editor_active: bool, playback_idle: bool) -> (go: bool)
        ensures
            go == revert_due(*old(self), now_ms, editor_active, playback_idle),
            go ==> !final(self).pending_after_animation,
            !go ==> *final(self) == *old(self),
            final(self).last_activity_ms == old(self).last_activity_ms,
            final(self).reverted == old(self).reverted,
            final(self).expect_return_after_animation == old(self).expect_return_after_animation,
            final(self).timeout_ms == old(self).timeout_ms,
            final(self).default_pose_name == old(self).default_pose_name,
    {
        if editor_active {
            return false;
        }
        if !playback_idle || self.reverted {
            return false;
        }
        if !self.pending_after_animation {
            if now_ms < self.last_activity_ms || now_ms - self.last_activity_ms < self.timeout_ms {
                return false;
            }
        }
        self.pending_after_animation = false;
        true
    }

    /// The return to the default pose was started.
    pub fn note_reverted(&mut self)
        ensures
            final(self).reverted,
            final(self).last_activity_ms == old(self).last_activity_ms,
            final(self).expect_return_after_animation == old(self).expect_return_after_animation,
            final(self).pending_after_animation == old(self).pending_after_animation,
            final(self).timeout_ms == old(self).timeout_ms,
            final(self).default_pose_name == old(self).default_pose_name,
    {
        self.reverted = true;
    }
}

/// Law: once the return has fired, it is never due again, whatever the time,
/// until a command or the editor clears it.
pub proof fn lemma_revert_fires_once(s: IdleRevert, now_ms: u64, editor_active: bool, playback_idle: bool)
    requires
        s.reverted,
    ensures
        !revert_due(s, now_ms, editor_active, playback_idle),
        !revert_due(after_frame(s, playback_idle), now_ms, editor_active, playback_idle),
{
}

/// Law: when a commanded animation's frame finds playback idle, the return
/// to the default pose is due at once, however little time has passed,
/// unless the editor is open.
pub proof fn lemma_return_after_animation(s: IdleRevert, now_ms: u64)
    requires
        s.expect_return_after_animation,
        !s.reverted,
    ensures
        revert_due(after_frame(s, true), now_ms, false, true),
{
}

// ---------------------------------------------------------------------------
// Bored autoplay

/// Periodic autoplay of clips flagged `play_automatically` while the rig
/// rests on its default pose.
#[derive(Debug, Clone)]
pub struct BoredPlay {
    pub enabled: bool,
    pub interval_ms: u64,
    /// When a bored clip last started, or the timer was last reset.
    pub last_play_ms: u64,
    /// Set once a first interval has been waited out since startup.
    pub armed: bool,
}

/// What bored autoplay does on a frame.
#[derive(Debug, Clone, Copy, PartialEq, Eq, Structural)]
pub enum BoredStep {
    /// Nothing this frame.
    Wait,
    /// Start a random clip from the pool.
    PlayFromPool,
}

/// Whether bored autoplay stays out of the way this frame: disabled, the
/// editor open, playback running, or the rig not resting on its default pose.
pub open spec fn bored_quiet(s: BoredPlay, editor_open: bool, playback_idle: bool, holding_default: bool) -> bool {
    !s.enabled || editor_open || !playback_idle || !holding_default
}

/// Whether a full interval has passed since the last clip (or reset).
pub open spec fn bored_interval_passed(s: BoredPlay, now_ms: u64) -> bool {
    now_ms >= s.last_play_ms && now_ms - s.last_play_ms >= s.interval_ms
}

/// A frame's decision: a clip starts once armed, when the interval has
/// passed and the pool is not empty, unless autoplay stays quiet.
pub open spec fn bored_step(
    s: BoredPlay,
    now_ms: u64,
    editor_open: bool,
    playback_idle: bool,
    holding_default: bool,
    pool_len: usize,
) -> BoredStep {
    if !bored_quiet(s, editor_open, playback_idle, holding_default) && s.armed && bored_interval_passed(
        s,
        now_ms,
    ) && pool_len > 0 {
        BoredStep::PlayFromPool
    } else {
        BoredStep::Wait
    }
}

/// The state after a frame: the first unquiet frame arms the timer, and an
/// empty pool on a due frame restarts it.
pub open spec fn bored_next(
    s: BoredPlay,
    now_ms: u64,
    editor_open: bool,
    playback_idle: bool,
    holding_default: bool,
    pool_len: usize,
) -> BoredPlay {
    if bored_quiet(s, editor_open, playback_idle, holding_default) {
        s
    } else if !s.armed {
        BoredPlay { armed: true, last_play_ms: now_ms, ..s }
    } else if bored_interval_passed(s, now_ms) && pool_len == 0 {
        BoredPlay { last_play_ms: now_ms, ..s }
    } else {
        s
    }
}

/// Law: after a clip starts at `t`, no other starts before a full interval
/// has passed, whatever happens in between.
pub proof fn lemma_bored_spacing(
    s: BoredPlay,
    t: u64,
    now_ms: u64,
    editor_open: bool,
    playback_idle: bool,
    holding_default: bool,
    pool_len: usize,
)
    requires
        t <= now_ms < t + s.interval_ms,
    ensures
        bored_step(
            BoredPlay { last_play_ms: t, ..s },
            now_ms,
            editor_open,
            playback_idle,
            holding_default,
            pool_len,
        ) == BoredStep::Wait,
{
}

impl BoredPlay {
    /// Autoplay as launched: an interval of at least one second, not yet
    /// armed.
    pub fn from_launch(enabled: bool, interval_ms: u64) -> (b: Self)
        ensures
            b.enabled == enabled,
            b.interval_ms == if interval_ms < 1000 {
                1000
            } else {
                interval_ms
            },
            b.last_play_ms == 0,
            !b.armed,
    {
        BoredPlay {
            enabled,
            interval_ms: if interval_ms < 1000 {
                1000
            } else {
                interval_ms
            },
            last_play_ms: 0,
            armed: false,
        }
    }

    /// A commanded playback started at `now_ms`: the next bored clip waits
    /// a full interval from now.
    pub fn note_directed_playback(&mut self, now_ms: u64)
        ensures
            final(self).last_play_ms == now_ms,
            final(self).armed,
            final(self).enabled == old(self).enabled,
            final(self).interval_ms == old(self).interval_ms,
    {
        self.last_play_ms = now_ms;
        self.armed = true;
    }

    /// A bored clip was started at `now_ms`.
    pub fn note_played(&mut self, now_ms: u64)
        ensures
            final(self).last_play_ms == now_ms,
            final(self).armed == old(self).armed,
            final(self).enabled == old(self).enabled,
            final(self).interval_ms == old(self).interval_ms,
    {
        self.last_play_ms = now_ms;
    }

    /// Decides a frame (see [`bored_step`] and [`bored_next`]).
    pub fn tick(
        &mut self,
        now_ms: u64,
        editor_open: bool,
        playback_idle: bool,
        holding_default: bool,
        pool_len: usize,
    ) -> (step: BoredStep)
        ensures
            step == bored_step(*old(self), now_ms, editor_open, playback_idle, holding_default, pool_len),
            *final(self) == bored_next(*old(self), now_ms, editor_open, playback_idle, holding_default, pool_len),
    {
        if !self.enabled || editor_open {
            return BoredStep::Wait;
        }
        if !playback_idle || !holding_default {
            return BoredStep::Wait;
        }
        if !self.armed {
            self.armed = true;
            self.last_play_ms = now_ms;
            return BoredStep::Wait;
        }
        if now_ms < self.last_play_ms || now_ms - self.last_play_ms < self.interval_ms {
            return BoredStep::Wait;
        }
        if pool_len == 0 {
            self.last_play_ms = now_ms;
            return BoredStep::Wait;
        }
        BoredStep::PlayFromPool
    }
}

/// The names of the animations in `entries` that may play on their own, in
/// entry order.
pub open spec fn auto_play_names<S>(entries: Seq<(Seq<char>, Animation<S>)>) -> Seq<Seq<char>>
    decreases entries.len(),
{
    if entries.len() == 0 {
        Seq::empty()
    } else {
        let rest = auto_play_names(entries.drop_last());
        if entries.last().1.play_automatically {
            rest.push(entries.last().1.name@)
        } else {
            rest
        }
    }
}

/// The names of the library animations that may play on their own, in
/// library order: the pool an idle rig picks from.
pub fn auto_play_pool<S>(animations: &NamedMap<Animation<S>>) -> (pool: Vec<String>)
    ensures
        pool@.map_values(|n: String| n@) == auto_play_names(animations.entries_view()),
{
    let n = animations.len();
    let ghost e = animations.entries_view();
    let mut pool: Vec<String> = Vec::new();
    let mut i: usize = 0;
    while i < n
        invariant
            i <= n,
            n == e.len(),
            e == animations.entries_view(),
            pool@.map_values(|n: String| n@) == auto_play_names(e.subrange(0, i as int)),
        decreases n - i,
    {
        let a = animations.value_at(i);
        assert(e.subrange(0, i + 1).drop_last() =~= e.subrange(0, i as int));
        assert(e.subrange(0, i + 1).last() == e[i as int]);
        let ghost before = pool@;
        if a.play_automatically {
            pool.push(a.name.clone());
            assert(pool@.map_values(|n: String| n@) =~= before.map_values(|n: String| n@).push(a.name@));
        }
        i = i + 1;
    }
    assert(e.subrange(0, n as int) =~= e);
    pool
}

} // verus!
