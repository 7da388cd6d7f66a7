//! What the HTTP API decides: the expression catalog and the checks and
//! status codes of its requests. Serving the requests is the host's job.

use vstd::prelude::*;
use crate::cli::{safe_assets_relative_path, safe_relative};
use crate::command::resolvable;
use crate::model::{opt_view, Animation, AnimationFile, Pose, PoseView};
use crate::named_map::NamedMap;
use crate::pose::{all_known, joint_index};
use crate::resolve::{first_failure_at, keyframe_pose, load_error_text, resolve_animation, KeyframeFailure, YamlLoadError};
use crate::skeleton::Skeleton;
use crate::text::{chars_eq, chars_of, concat_str, has_prefix, starts_with};
use crate::variant::DollVariant;

verus! {

/// The message a playback request gets while the in-app editor is open.
pub const EDITOR_CONFLICT_MESSAGE: &'static str = "in-app pose/animation editor is open — close it (F2) before triggering playback";

/// `409 Conflict`, answered to playback requests while the editor is open.
pub const STATUS_CONFLICT: u16 = 409;

/// The status of a registration: `200 OK` when it replaced an entry of the
/// same name, `201 Created` otherwise.
pub fn registration_status(replaced: bool) -> (s: u16)
    ensures
        s == if replaced {
            200u16
        } else {
            201u16
        },
{
    if replaced {
        200
    } else {
        201
    }
}

/// An error answer: a status code and its message.
#[derive(Debug, Clone)]
pub struct ApiError {
    pub status: u16,
    pub message: String,
}

/// Checks a variant switch: v2 needs its character file
/// (`503 Service Unavailable` otherwise); an accepted switch is answered
/// `202 Accepted`.
pub fn check_variant_request(requested: DollVariant, v2_ready: bool, v2_character: &str) -> (r: Result<
    u16,
    ApiError,
>)
    ensures
        r is Err <==> (requested == DollVariant::V2 && !v2_ready),
        r matches Ok(s) ==> s == 202,
        r matches Err(e) ==> e.status == 503 && e.message@ == "variant v2 requires VRM at assets/"@
            + v2_character@ + " — file not found"@,
{
    if requested == DollVariant::V2 && !v2_ready {
        let mut m = concat_str("variant v2 requires VRM at assets/", v2_character);
        m.append(" — file not found");
        return Err(ApiError { status: 503, message: m });
    }
    Ok(202)
}

/// Checks a request to play the library pose `name`: refused with
/// `409 Conflict` while the editor is open, `404 Not Found` for a name the
/// library lacks; accepted with `202 Accepted`.
pub fn check_pose_trigger<S>(editor_active: bool, poses: &NamedMap<Pose<S>>, name: &str) -> (r: Result<u16, ApiError>)
    ensures
        editor_active ==> (r matches Err(e) && e.status == STATUS_CONFLICT && e.message@ == EDITOR_CONFLICT_MESSAGE@),
        !editor_active && !poses@.contains_key(name@) ==> (r matches Err(e) && e.status == 404
            && e.message@ == "unknown pose '"@ + name@ + "'"@),
        !editor_active && poses@.contains_key(name@) ==> r == Ok::<u16, ApiError>(202),
{
    if editor_active {
        return Err(ApiError { status: STATUS_CONFLICT, message: String::from_str(EDITOR_CONFLICT_MESSAGE) });
    }
    if !poses.contains_key(chars_of(name).as_slice()) {
        let mut m = concat_str("unknown pose '", name);
        m.append("'");
        return Err(ApiError { status: 404, message: m });
    }
    Ok(202)
}

/// Checks a request to play the library animation `name` (as
/// [`check_pose_trigger`]).
pub fn check_animation_trigger<S>(editor_active: bool, animations: &NamedMap<Animation<S>>, name: &str) -> (r: Result<u16, ApiError>)
    ensures
        editor_active ==> (r matches Err(e) && e.status == STATUS_CONFLICT && e.message@ == EDITOR_CONFLICT_MESSAGE@),
        !editor_active && !animations@.contains_key(name@) ==> (r matches Err(e) && e.status == 404
            && e.message@ == "unknown animation '"@ + name@ + "'"@),
        !editor_active && animations@.contains_key(name@) ==> r == Ok::<u16, ApiError>(202),
{
    if editor_active {
        return Err(ApiError { status: STATUS_CONFLICT, message: String::from_str(EDITOR_CONFLICT_MESSAGE) });
    }
    if !animations.contains_key(chars_of(name).as_slice()) {
        let mut m = concat_str("unknown animation '", name);
        m.append("'");
        return Err(ApiError { status: 404, message: m });
    }
    Ok(202)
}

/// Registers `pose` under its name, replacing any pose so named, once every
/// joint it names is found in `skeleton`; answers `201 Created`, or `200 OK`
/// when it replaced one. A pose naming an unknown joint is refused with
/// `400 Bad Request` and the library is left alone.
pub fn register_pose<S: Copy>(pose: Pose<S>, skeleton: &Skeleton, poses: &mut NamedMap<Pose<S>>) -> (r: Result<u16, ApiError>)
    ensures
        resolvable(pose, *skeleton) ==> {
            &&& r == Ok::<u16, ApiError>(if old(poses)@.contains_key(pose.name@) { 200u16 } else { 201u16 })
            &&& final(poses)@ == old(poses)@.insert(pose.name@, pose)
        },
        !resolvable(pose, *skeleton) ==> {
            &&& final(poses)@ == old(poses)@
            &&& r matches Err(e) && e.status == 400 && exists|k: int| 0 <= k < pose.joints.entries_view().len()
                && all_known(skeleton.joint_seq(), pose.joints.entries_view(), k)
                && joint_index(skeleton.joint_seq(), #[trigger] pose.joints.entries_view()[k].0) < 0
                && e.message@ == "pose references unknown joint '"@ + pose.joints.entries_view()[k].0 + "'"@
        },
{
    match pose.resolve_joint_ids(skeleton) {
        Err(e) => {
            let m = e.message();
            Err(ApiError { status: 400, message: m })
        },
        Ok(_) => {
            let replaced = poses.contains_key(chars_of(pose.name.as_str()).as_slice());
            let key = chars_of(pose.name.as_str());
            poses.insert(key, pose);
            Ok(registration_status(replaced))
        },
    }
}

/// Registers the animation `file` describes, resolved against `poses`,
/// under its name (replacing any so named); answers `201 Created`, or
/// `200 OK` when it replaced one. An animation with a keyframe that fails to
/// resolve is refused with `400 Bad Request` and the first such keyframe's
/// error, and the library is left alone.
pub fn register_animation<S: Copy>(
    file: AnimationFile<S>,
    poses: &NamedMap<Pose<S>>,
    animations: &mut NamedMap<Animation<S>>,
) -> (r: Result<u16, ApiError>)
    ensures
        (forall|i: int| 0 <= i < file.keyframes@.len() ==> #[trigger] keyframe_pose(file.name@, i as nat, file.keyframes@[i]@, poses@) is Ok) ==> {
            &&& r == Ok::<u16, ApiError>(if old(animations)@.contains_key(file.name@) { 200u16 } else { 201u16 })
            &&& final(animations)@.dom() == old(animations)@.dom().insert(file.name@)
            &&& forall|k: Seq<char>| #[trigger] final(animations)@.contains_key(k) && k != file.name@
                ==> final(animations)@[k] == old(animations)@[k]
            &&& ({
                let a = final(animations)@[file.name@];
                &&& a.name@ == file.name@
                &&& opt_view(a.description) == opt_view(file.description)
                &&& a.looping == file.looping
                &&& a.vrm_local_rotations == file.vrm_local_rotations
                &&& a.play_automatically == file.play_automatically
                &&& a.keyframes@.len() == file.keyframes@.len()
                &&& forall|i: int| 0 <= i < file.keyframes@.len() ==> {
                    let k = #[trigger] a.keyframes@[i];
                    &&& keyframe_pose(file.name@, i as nat, file.keyframes@[i]@, poses@) == Ok::<PoseView<S>, KeyframeFailure>(k.pose@)
                    &&& k.duration_ms == file.keyframes@[i].duration_ms
                    &&& k.easing == file.keyframes@[i].easing
                    &&& k.authoring@ == file.keyframes@[i]@
                }
            })
        },
        !(forall|i: int| 0 <= i < file.keyframes@.len() ==> #[trigger] keyframe_pose(file.name@, i as nat, file.keyframes@[i]@, poses@) is Ok) ==> {
            &&& final(animations)@ == old(animations)@
            &&& r matches Err(e) && e.status == 400 && exists|i: int, err: YamlLoadError| #[trigger] first_failure_at(file.name@, file.keyframes@, poses@, i, err)
                && e.message@ == load_error_text(err)
        },
{
    let ghost f = file;
    let key = chars_of(file.name.as_str());
    match resolve_animation(file, poses) {
        Err(e) => {
            let m = e.message();
            Err(ApiError { status: 400, message: m })
        },
        Ok(a) => {
            proof {
                assert forall|i: int| 0 <= i < f.keyframes@.len() implies #[trigger] keyframe_pose(f.name@, i as nat, f.keyframes@[i]@, poses@) is Ok by {
                    let k = a.keyframes@[i];
                }
            }
            let replaced = animations.contains_key(key.as_slice());
            animations.insert(key, a);
            Ok(registration_status(replaced))
        },
    }
}

/// What an import request's path is checked to: a safe path under `assets/`
/// that lies under `motions/`.
pub open spec fn import_request_path(path: Seq<char>) -> Result<Seq<char>, Seq<char>> {
    match safe_relative(path) {
        Err(m) => Err(m),
        Ok(rel) => if starts_with(rel, "motions/"@) {
            Ok(rel)
        } else {
            Err("import path must be under `motions/` (relative to assets/), got '"@ + rel + "'"@)
        },
    }
}

/// Checks the path of an import request (see [`import_request_path`]); a
/// refused path is `400 Bad Request`.
pub fn check_import_request_path(path: &str) -> (r: Result<String, ApiError>)
    ensures
        match import_request_path(path@) {
            Ok(rel) => r matches Ok(s) && s@ == rel,
            Err(m) => r matches Err(e) && e.status == 400 && e.message@ == m,
        },
{
    let rel = match safe_assets_relative_path(path) {
        Ok(p) => p,
        Err(e) => {
            return Err(ApiError { status: 400, message: e });
        },
    };
    let rc = chars_of(rel.as_str());
    let prefix = chars_of("motions/");
    if !has_prefix(rc.as_slice(), prefix.as_slice()) {
        let mut m = concat_str("import path must be under `motions/` (relative to assets/), got '", rel.as_str());
        m.append("'");
        return Err(ApiError { status: 400, message: m });
    }
    Ok(rel)
}

// ---------------------------------------------------------------------------
// Expression catalog

/// The face-expression catalog of the bound character and the weights last
/// applied (`W` is the weight type).
#[derive(Debug)]
pub struct ExpressionSnapshot<W> {
    /// A character with expressions is bound.
    pub ready: bool,
    /// The expression names it offers.
    pub available: Vec<String>,
    pub weights: NamedMap<W>,
    /// New weights wait to be applied to the meshes.
    pub pending: bool,
}

/// Whether `name` is in the catalog `names`.
pub open spec fn offers(names: Seq<String>, name: Seq<char>) -> bool {
    exists|i: int| 0 <= i < names.len() && #[trigger] names[i]@ == name
}

/// Every name of `names` mapped to `w`.
pub open spec fn all_at<W>(names: Seq<String>, w: W) -> Map<Seq<char>, W> {
    Map::new(|k: Seq<char>| offers(names, k), |k: Seq<char>| w)
}

/// The result of applying `weights` in entry order to `current`: `Ok` with
/// the new weights when every name is offered; otherwise `Err` with the
/// first name that is not, and the weights as updated up to it.
pub open spec fn applied_weights<W>(
    names: Seq<String>,
    current: Map<Seq<char>, W>,
    weights: Seq<(Seq<char>, W)>,
) -> Result<Map<Seq<char>, W>, (Seq<char>, Map<Seq<char>, W>)>
    decreases weights.len(),
{
    if weights.len() == 0 {
        Ok(current)
    } else {
        match applied_weights(names, current, weights.drop_last()) {
            Err(e) => Err(e),
            Ok(m) => if offers(names, weights.last().0) {
                Ok(m.insert(weights.last().0, weights.last().1))
            } else {
                Err((weights.last().0, m))
            },
        }
    }
}

fn offered(names: &Vec<String>, name: &[char]) -> (b: bool)
    ensures
        b == offers(names@, name@),
{
    let mut i: usize = 0;
    while i < names.len()
        invariant
            i <= names@.len(),
            forall|j: int| 0 <= j < i ==> #[trigger] names@[j]@ != name@,
        decreases names@.len() - i,
    {
        if chars_eq(chars_of(names[i].as_str()).as_slice(), name) {
            return true;
        }
        i = i + 1;
    }
    false
}

proof fn lemma_applied_err<W>(names: Seq<String>, current: Map<Seq<char>, W>, w: Seq<(Seq<char>, W)>, k: int)
    requires
        0 <= k <= w.len(),
        applied_weights(names, current, w.subrange(0, k)) is Err,
    ensures
        applied_weights(names, current, w) == applied_weights(names, current, w.subrange(0, k)),
    decreases w.len() - k,
{
    if k < w.len() {
        assert(w.subrange(0, k + 1).drop_last() =~= w.subrange(0, k));
        lemma_applied_err(names, current, w, k + 1);
    } else {
        assert(w.subrange(0, k) =~= w);
    }
}

impl<W: Copy> ExpressionSnapshot<W> {
    /// No catalog: not ready, nothing offered, no weights, nothing pending.
    pub fn new() -> (s: Self)
        ensures
            !s.ready,
            s.available@.len() == 0,
            s.weights@ == Map::<Seq<char>, W>::empty(),
            !s.pending,
    {
        ExpressionSnapshot { ready: false, available: Vec::new(), weights: NamedMap::new(), pending: false }
    }

    /// Installs the catalog `names`: every offered expression at weight
    /// `zero`, ready when the catalog is not empty.
    pub fn set_catalog(&mut self, names: Vec<String>, zero: W)
        ensures
            final(self).available@ == names@,
            final(self).weights@ == all_at(names@, zero),
            final(self).ready == (names@.len() > 0),
            final(self).pending == old(self).pending,
    {
        let mut weights: NamedMap<W> = NamedMap::new();
        let mut i: usize = 0;
        assert(all_at(names@.subrange(0, 0), zero) =~= Map::<Seq<char>, W>::empty());
        while i < names.len()
            invariant
                i <= names@.len(),
                weights@ == all_at(names@.subrange(0, i as int), zero),
            decreases names@.len() - i,
        {
            let ghost before = weights@;
            weights.insert(chars_of(names[i].as_str()), zero);
            assert forall|k: Seq<char>| offers(names@.subrange(0, i + 1), k) <==> (offers(
                names@.subrange(0, i as int),
                k,
            ) || k == names@[i as int]@) by {
                if offers(names@.subrange(0, i + 1), k) {
                    let j = choose|j: int| 0 <= j < i + 1 && #[trigger] names@.subrange(0, i + 1)[j]@ == k;
                    if j < i {
                        assert(names@.subrange(0, i as int)[j]@ == k);
                    }
                }
                if offers(names@.subrange(0, i as int), k) {
                    let j = choose|j: int| 0 <= j < i && #[trigger] names@.subrange(0, i as int)[j]@ == k;
                    assert(names@.subrange(0, i + 1)[j]@ == k);
                }
                if k == names@[i as int]@ {
                    assert(names@.subrange(0, i + 1)[i as int]@ == k);
                }
            }
            assert(weights@ =~= all_at(names@.subrange(0, i + 1), zero));
            i = i + 1;
        }
        assert(names@.subrange(0, names@.len() as int) =~= names@);
        let ready = names.len() > 0;
        self.available = names;
        self.weights = weights;
        self.ready = ready;
    }

    /// Forgets the catalog (back to [`ExpressionSnapshot::new`]).
    pub fn clear(&mut self)
        ensures
            !final(self).ready,
            final(self).available@.len() == 0,
            final(self).weights@ == Map::<Seq<char>, W>::empty(),
            !final(self).pending,
    {
        *self = ExpressionSnapshot::new();
    }

    /// Applies `weights` (already within the weight range) name by name.
    /// Fails, changing nothing, when no catalog is ready; fails at the first
    /// name the catalog does not offer, keeping the weights applied before
    /// it. On success the new weights are pending.
    pub fn apply_weights(&mut self, weights: &NamedMap<W>) -> (r: Result<(), String>)
        ensures
            final(self).ready == old(self).ready,
            final(self).available == old(self).available,
            !old(self).ready ==> {
                &&& r matches Err(m) && m@ == "expressions not available (v2 VRM not bound, or model has none)"@
                &&& final(self).weights@ == old(self).weights@
                &&& final(self).pending == old(self).pending
            },
            old(self).ready ==> match applied_weights(
                old(self).available@,
                old(self).weights@,
                weights.entries_view(),
            ) {
                Ok(m) => r is Ok && final(self).weights@ == m && final(self).pending,
                Err((name, m)) => {
                    &&& r matches Err(e) && e@ == "unknown expression '"@ + name + "'"@
                    &&& final(self).weights@ == m
                    &&& final(self).pending == old(self).pending
                },
            },
    {
        if !self.ready {
            return Err(String::from_str("expressions not available (v2 VRM not bound, or model has none)"));
        }
        let n = weights.len();
        let ghost ev = weights.entries_view();
        let ghost w0 = self.weights@;
        let mut i: usize = 0;
        assert(ev.subrange(0, 0) =~= Seq::<(Seq<char>, W)>::empty());
        while i < n
            invariant
                n == ev.len(),
                ev == weights.entries_view(),
                i <= n,
                self.ready == old(self).ready,
                old(self).ready,
                self.available == old(self).available,
                self.pending == old(self).pending,
                w0 == old(self).weights@,
                applied_weights(self.available@, w0, ev.subrange(0, i as int)) == Ok::<
                    Map<Seq<char>, W>,
                    (Seq<char>, Map<Seq<char>, W>),
                >(self.weights@),
            decreases n - i,
        {
            assert(ev.subrange(0, i + 1).drop_last() =~= ev.subrange(0, i as int));
            let key = weights.key_at(i);
            let v = *weights.value_at(i);
            if !offered(&self.available, key.as_slice()) {
                proof {
                    lemma_applied_err(self.available@, w0, ev, i + 1);
                }
                let name = crate::text::string_from_chars(key.as_slice());
                let mut m = concat_str("unknown expression '", name.as_str());
                m.append("'");
                return Err(m);
            }
            let k = crate::text::copy_chars(key.as_slice());
            self.weights.insert(k, v);
            i = i + 1;
        }
        assert(ev.subrange(0, n as int) =~= ev);
        self.pending = true;
        Ok(())
    }
}

/// What an expression command sets: every offered expression at `zero` when
/// `reset`, then the requested weights in entry order; `Err` with the first
/// requested name that is not offered.
pub open spec fn command_weights<W>(
    names: Seq<String>,
    reset: bool,
    zero: W,
    requested: Seq<(Seq<char>, W)>,
) -> Result<Map<Seq<char>, W>, (Seq<char>, Map<Seq<char>, W>)> {
    applied_weights(
        names,
        if reset {
            all_at(names, zero)
        } else {
            Map::empty()
        },
        requested,
    )
}

/// The `503` answer to an expression command when no catalog is ready.
pub const EXPRESSIONS_UNAVAILABLE: &'static str =
    "expressions require variant v2 with a bound VRM that has VRMC_vrm.expressions (try POST /variant {\"variant\":\"v2\"} first)";

/// Checks an expression command against the catalog: `503` when no catalog
/// is ready, `400` for a name it does not offer or when the command sets
/// nothing; otherwise the weights to apply (see [`command_weights`]).
/// `requested` holds weights already within the weight range.
pub fn check_expression_command<W: Copy>(
    catalog: &ExpressionSnapshot<W>,
    reset: bool,
    requested: &NamedMap<W>,
    zero: W,
) -> (r: Result<NamedMap<W>, ApiError>)
    ensures
        !catalog.ready ==> (r matches Err(e) && e.status == 503 && e.message@ == EXPRESSIONS_UNAVAILABLE@),
        catalog.ready ==> match command_weights(catalog.available@, reset, zero, requested.entries_view()) {
            Err((name, _)) => r matches Err(e) && e.status == 400 && e.message@ == "unknown expression '"@
                + name + "'; see GET /expressions for available presets"@,
            Ok(m) => if m.len() == 0 {
                r matches Err(e) && e.status == 400 && e.message@ == "provide weights and/or reset: true"@
            } else {
                r matches Ok(w) && w@ == m
            },
        },
{
    if !catalog.ready {
        return Err(
            ApiError {
                status: 503,
                message: String::from_str(EXPRESSIONS_UNAVAILABLE),
            },
        );
    }
    let mut scratch = ExpressionSnapshot {
        ready: true,
        available: clone_names(&catalog.available),
        weights: NamedMap::new(),
        pending: false,
    };
    if reset {
        let names = clone_names(&catalog.available);
        scratch.set_catalog(names, zero);
        scratch.ready = true;
    }
    let ghost start_w = scratch.weights@;
    assert(start_w == if reset {
        all_at(catalog.available@, zero)
    } else {
        Map::<Seq<char>, W>::empty()
    });
    match scratch.apply_weights(requested) {
        Ok(()) => {},
        Err(_) => {
            let name = first_unoffered(&catalog.available, requested);
            assert(failing_name(applied_weights(catalog.available@, start_w, requested.entries_view())) == Some(name@));
            let mut m = concat_str("unknown expression '", name.as_str());
            m.append("'; see GET /expressions for available presets");
            return Err(ApiError { status: 400, message: m });
        },
    }
    if scratch.weights.is_empty() {
        return Err(ApiError { status: 400, message: String::from_str("provide weights and/or reset: true") });
    }
    Ok(scratch.weights)
}

fn clone_names(names: &Vec<String>) -> (r: Vec<String>)
    ensures
        r@ == names@,
{
    let mut r: Vec<String> = Vec::new();
    let mut i: usize = 0;
    while i < names.len()
        invariant
            i <= names@.len(),
            r@ == names@.subrange(0, i as int),
        decreases names@.len() - i,
    {
        r.push(names[i].clone());
        assert(r@ =~= names@.subrange(0, i + 1));
        i = i + 1;
    }
    assert(names@.subrange(0, names@.len() as int) =~= names@);
    r
}

/// The name an application of weights stopped at, if it failed.
pub open spec fn failing_name<W>(r: Result<Map<Seq<char>, W>, (Seq<char>, Map<Seq<char>, W>)>) -> Option<
    Seq<char>,
> {
    match r {
        Ok(_) => None,
        Err((n, _)) => Some(n),
    }
}

/// The first requested name the catalog does not offer (the error of
/// [`applied_weights`], whatever the starting weights).
fn first_unoffered<W: Copy>(names: &Vec<String>, requested: &NamedMap<W>) -> (s: String)
    ensures
        forall|start: Map<Seq<char>, W>|
            #[trigger] failing_name(applied_weights(names@, start, requested.entries_view())) is None
                || failing_name(applied_weights(names@, start, requested.entries_view())) == Some(s@),
{
    let n = requested.len();
    let ghost ev = requested.entries_view();
    let mut i: usize = 0;
    while i < n
        invariant
            n == ev.len(),
            ev == requested.entries_view(),
            i <= n,
            forall|j: int| 0 <= j < i ==> offers(names@, #[trigger] ev[j].0),
        decreases n - i,
    {
        let key = requested.key_at(i);
        if !offered(names, key.as_slice()) {
            let s = crate::text::string_from_chars(key.as_slice());
            proof {
                assert forall|start: Map<Seq<char>, W>|
                    #[trigger] failing_name(applied_weights(names@, start, ev)) is None || failing_name(
                        applied_weights(names@, start, ev),
                    ) == Some(s@) by {
                    lemma_applied_prefix_ok(names@, start, ev, i as int);
                    assert(ev.subrange(0, i + 1).drop_last() =~= ev.subrange(0, i as int));
                    lemma_applied_err(names@, start, ev, i + 1);
                }
            }
            return s;
        }
        i = i + 1;
    }
    proof {
        assert forall|start: Map<Seq<char>, W>|
            #[trigger] failing_name(applied_weights(names@, start, ev)) is None by {
            lemma_applied_prefix_ok(names@, start, ev, n as int);
            assert(ev.subrange(0, n as int) =~= ev);
        }
    }
    String::new()
}

proof fn lemma_applied_prefix_ok<W>(names: Seq<String>, start: Map<Seq<char>, W>, w: Seq<(Seq<char>, W)>, k: int)
    requires
        0 <= k <= w.len(),
        forall|j: int| 0 <= j < k ==> offers(names, #[trigger] w[j].0),
    ensures
        applied_weights(names, start, w.subrange(0, k)) is Ok,
    decreases k,
{
    if k > 0 {
        assert(w.subrange(0, k).drop_last() =~= w.subrange(0, k - 1));
        lemma_applied_prefix_ok(names, start, w, k - 1);
        assert(w.subrange(0, k).last() == w[k - 1]);
    }
}

} // verus!

verus! {

/// Every weight is for an expression the catalog offers.
pub open spec fn catalog_wf<W>(s: ExpressionSnapshot<W>) -> bool {
    forall|k: Seq<char>| #[trigger] s.weights@.contains_key(k) ==> offers(s.available@, k)
}

proof fn lemma_applied_keys_offered<W>(names: Seq<String>, current: Map<Seq<char>, W>, w: Seq<(Seq<char>, W)>)
    requires
        forall|k: Seq<char>| #[trigger] current.contains_key(k) ==> offers(names, k),
    ensures
        match applied_weights(names, current, w) {
            Ok(m) => forall|k: Seq<char>| #[trigger] m.contains_key(k) ==> offers(names, k),
            Err((_, m)) => forall|k: Seq<char>| #[trigger] m.contains_key(k) ==> offers(names, k),
        },
    decreases w.len(),
{
    if w.len() > 0 {
        lemma_applied_keys_offered(names, current, w.drop_last());
    }
}

/// Law: applying weights, by any names, never leaves a weight for an
/// expression the catalog does not offer.
pub proof fn lemma_apply_keeps_catalog<W>(s: ExpressionSnapshot<W>, w: Seq<(Seq<char>, W)>)
    requires
        catalog_wf(s),
    ensures
        match applied_weights(s.available@, s.weights@, w) {
            Ok(m) => forall|k: Seq<char>| #[trigger] m.contains_key(k) ==> offers(s.available@, k),
            Err((_, m)) => forall|k: Seq<char>| #[trigger] m.contains_key(k) ==> offers(s.available@, k),
        },
{
    lemma_applied_keys_offered(s.available@, s.weights@, w);
}

impl<W: Copy> ExpressionSnapshot<W> {
    /// A copy of this snapshot.
    pub fn duplicate(&self) -> (c: Self)
        ensures
            c.ready == self.ready,
            c.available@ == self.available@,
            c.weights@ == self.weights@,
            c.pending == self.pending,
    {
        ExpressionSnapshot {
            ready: self.ready,
            available: clone_names(&self.available),
            weights: self.weights.duplicate(),
            pending: self.pending,
        }
    }
}

/// Lock predicate of the shared catalog: it stays well formed.
pub struct CatalogWellFormed;

impl<W> vstd::rwlock::RwLockPredicate<ExpressionSnapshot<W>> for CatalogWellFormed {
    open spec fn inv(self, v: ExpressionSnapshot<W>) -> bool {
        catalog_wf(v)
    }
}

/// What applying `weights` to the catalog `s` answers (see
/// [`ExpressionSnapshot::apply_weights`]): refused when no catalog is ready,
/// refused at the first name the catalog does not offer, accepted otherwise.
pub open spec fn apply_answer<W>(s: ExpressionSnapshot<W>, weights: Seq<(Seq<char>, W)>) -> Result<(), Seq<char>> {
    if !s.ready {
        Err("expressions not available (v2 VRM not bound, or model has none)"@)
    } else {
        match applied_weights(s.available@, s.weights@, weights) {
            Ok(_) => Ok(()),
            Err((name, _)) => Err("unknown expression '"@ + name + "'"@),
        }
    }
}

/// An answer with its message as characters.
pub open spec fn answer_view(r: Result<(), String>) -> Result<(), Seq<char>> {
    match r {
        Ok(_) => Ok(()),
        Err(m) => Err(m@),
    }
}

/// The expression catalog shared between the render loop and the HTTP side.
pub struct SharedExpressionState<W>(pub std::sync::Arc<vstd::rwlock::RwLock<ExpressionSnapshot<W>, CatalogWellFormed>>);

impl<W: Copy> SharedExpressionState<W> {
    /// An empty catalog.
    pub fn new() -> (s: Self) {
        let snap = ExpressionSnapshot::new();
        assert(catalog_wf(snap));
        SharedExpressionState(std::sync::Arc::new(vstd::rwlock::RwLock::new(snap, Ghost(CatalogWellFormed))))
    }

    /// A copy of the catalog as it is now; every weight in it is for an
    /// offered expression (other threads may change the catalog at any time).
    pub fn snapshot(&self) -> (s: ExpressionSnapshot<W>)
        ensures
            catalog_wf(s),
    {
        let h = self.0.acquire_read();
        let b = h.borrow();
        let s = b.duplicate();
        assert(catalog_wf(*b));
        h.release_read();
        s
    }

    /// Installs a new catalog (see [`ExpressionSnapshot::set_catalog`]).
    pub fn set_catalog(&self, names: Vec<String>, zero: W) {
        let (mut snap, handle) = self.0.acquire_write();
        snap.set_catalog(names, zero);
        assert(catalog_wf(snap));
        handle.release_write(snap);
    }

    /// Forgets the catalog.
    pub fn clear(&self) {
        let (mut snap, handle) = self.0.acquire_write();
        snap.clear();
        assert(catalog_wf(snap));
        handle.release_write(snap);
    }

    /// Applies weights to the catalog as it is at the time (see
    /// [`ExpressionSnapshot::apply_weights`]): the answer is the one
    /// [`apply_answer`] gives on some well-formed catalog, the one another
    /// thread last installed.
    pub fn apply_weights(&self, weights: &NamedMap<W>) -> (r: Result<(), String>)
        ensures
            exists|s: ExpressionSnapshot<W>| catalog_wf(s) && #[trigger] apply_answer(s, weights.entries_view())
                == answer_view(r),
    {
        let (mut snap, handle) = self.0.acquire_write();
        let ghost before = snap;
        let r = snap.apply_weights(weights);
        proof {
            lemma_applied_keys_offered(before.available@, before.weights@, weights.entries_view());
            assert(catalog_wf(before));
            assert(apply_answer(before, weights.entries_view()) == answer_view(r));
        }
        assert(catalog_wf(snap));
        handle.release_write(snap);
        r
    }
}

} // verus!
