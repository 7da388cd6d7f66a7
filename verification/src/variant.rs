//! The visual variant (v2 VRM skinned mesh, the default, or the v1
//! procedural doll), launch configuration, and the state shared with the
//! HTTP side. Pose and animation APIs are the same for both variants.

use vstd::prelude::*;
use vstd::rwlock::{RwLock, RwLockPredicate};
use std::sync::Arc;
use crate::cli::arg_views;
use crate::model::opt_view;
use crate::text::{ascii_lower, ascii_lowercase, chars_eq, chars_of, concat_str, has_prefix, str_eq, string_from_chars, string_from_range, trim, trim_chars, starts_with};

verus! {

/// Default asset path (under `assets/`) of the v2 character.
pub const DEFAULT_V2_CHARACTER: &'static str = "characters/default.vrm";

/// `"assets/"` joined with `asset_path` the way `Path::join` does on Unix:
/// an absolute `asset_path` replaces the base.
pub open spec fn disk_path(asset_path: Seq<char>) -> Seq<char> {
    if asset_path.len() > 0 && asset_path[0] == '/' {
        asset_path
    } else {
        "assets/"@ + asset_path
    }
}

/// On-disk path, relative to the asset root, of a v2 character asset path.
pub fn v2_character_disk_path(asset_path: &str) -> (p: String)
    ensures
        p@ == disk_path(asset_path@),
{
    let c = chars_of(asset_path);
    if c.len() > 0 && c[0] == '/' {
        String::from_str(asset_path)
    } else {
        concat_str("assets/", asset_path)
    }
}

/// Which body representation is shown.
#[derive(Debug, Clone, Copy, PartialEq, Eq, Hash, Structural)]
pub enum DollVariant {
    V1,
    V2,
}

/// The short wire name of a variant.
pub open spec fn variant_name(v: DollVariant) -> Seq<char> {
    match v {
        DollVariant::V1 => "v1"@,
        DollVariant::V2 => "v2"@,
    }
}

/// What [`DollVariant::parse`] accepts: after trimming and ASCII-lowering,
/// `v1`, `1` or `procedural` for v1 and `v2`, `2` or `vrm` for v2. Anything
/// else is reported with the normalized text.
pub open spec fn parse_variant(s: Seq<char>) -> Result<DollVariant, Seq<char>> {
    let v = ascii_lower(trim(s));
    if v == "v1"@ || v == "1"@ || v == "procedural"@ {
        Ok(DollVariant::V1)
    } else if v == "v2"@ || v == "2"@ || v == "vrm"@ {
        Ok(DollVariant::V2)
    } else {
        Err("unknown variant '"@ + v + "' (expected v1 or v2)"@)
    }
}

fn eq_lit(n: &[char], lit: &str) -> (b: bool)
    ensures
        b == (n@ == lit@),
{
    let l = chars_of(lit);
    chars_eq(n, l.as_slice())
}

impl DollVariant {
    pub fn as_str(self) -> (s: &'static str)
        ensures
            s@ == variant_name(self),
    {
        match self {
            DollVariant::V1 => "v1",
            DollVariant::V2 => "v2",
        }
    }

    /// Parses a variant name (see [`parse_variant`]).
    pub fn parse(s: &str) -> (r: Result<Self, String>)
        ensures
            match parse_variant(s@) {
                Ok(v) => r == Ok::<DollVariant, String>(v),
                Err(m) => r matches Err(e) && e@ == m,
            },
    {
        let c = chars_of(s);
        let v = ascii_lowercase(trim_chars(c.as_slice()).as_slice());
        let vs = v.as_slice();
        if eq_lit(vs, "v1") || eq_lit(vs, "1") || eq_lit(vs, "procedural") {
            Ok(DollVariant::V1)
        } else if eq_lit(vs, "v2") || eq_lit(vs, "2") || eq_lit(vs, "vrm") {
            Ok(DollVariant::V2)
        } else {
            let mut msg = concat_str("unknown variant '", string_from_chars(vs).as_str());
            msg.append("' (expected v1 or v2)");
            Err(msg)
        }
    }
}

/// Launch-time configuration.
#[derive(Debug, Clone)]
pub struct LaunchConfig {
    pub variant: DollVariant,
    /// Asset path (under `assets/`) of the v2 character.
    pub v2_character: String,
}

/// The error [`LaunchConfig::ensure_assets_for_launch`] reports.
pub open spec fn missing_asset_message(v2_character: Seq<char>) -> Seq<char> {
    "variant v2 requires VRM at '"@ + disk_path(v2_character) + "' (Bevy path '"@ + v2_character
        + "'). Place a VRM 1.0 humanoid there, or start with --variant v1."@
}

impl LaunchConfig {
    /// Fails fast when launching into v2 without its character file;
    /// `v2_file_present` tells whether the file at
    /// `v2_character_disk_path(&self.v2_character)` exists.
    pub fn ensure_assets_for_launch(&self, v2_file_present: bool) -> (r: Result<(), String>)
        ensures
            r is Err <==> (self.variant == DollVariant::V2 && !v2_file_present),
            r matches Err(m) ==> m@ == missing_asset_message(self.v2_character@),
    {
        if self.variant != DollVariant::V2 {
            return Ok(());
        }
        if !v2_file_present {
            let disk = v2_character_disk_path(self.v2_character.as_str());
            let mut m = concat_str("variant v2 requires VRM at '", disk.as_str());
            m.append("' (Bevy path '");
            m.append(self.v2_character.as_str());
            m.append("'). Place a VRM 1.0 humanoid there, or start with --variant v1.");
            return Err(m);
        }
        Ok(())
    }
}

/// What the launch arguments ask for: a launch, or the usage text.
#[derive(Debug, Clone)]
pub enum LaunchRequest {
    Launch(LaunchConfig),
    ShowHelp,
}

/// The variant after the arguments from `args[i]` on, starting from `v`:
/// `--variant <v>`, `-v <v>` or `--variant=<v>` set it, `--help`/`-h` asks
/// for the usage text (`Ok(None)`), anything else is an error.
pub open spec fn launch_variant_from(args: Seq<Seq<char>>, i: int, v: DollVariant) -> Result<
    Option<DollVariant>,
    Seq<char>,
>
    decreases args.len() - i,
{
    if i < 0 || i >= args.len() {
        Ok(Some(v))
    } else {
        let a = args[i];
        if a == "--variant"@ || a == "-v"@ {
            if i + 1 >= args.len() {
                Err("--variant requires a value (v1 or v2)"@)
            } else {
                match parse_variant(args[i + 1]) {
                    Ok(w) => launch_variant_from(args, i + 2, w),
                    Err(m) => Err(m),
                }
            }
        } else if starts_with(a, "--variant="@) {
            match parse_variant(a.subrange(10, a.len() as int)) {
                Ok(w) => launch_variant_from(args, i + 1, w),
                Err(m) => Err(m),
            }
        } else if a == "--help"@ || a == "-h"@ {
            Ok(None)
        } else {
            Err("unknown argument '"@ + a + "' (try --help)"@)
        }
    }
}

/// The variant the environment selects before any argument: v2 when unset.
pub open spec fn env_variant(env: Option<Seq<char>>) -> Result<DollVariant, Seq<char>> {
    match env {
        None => Ok(DollVariant::V2),
        Some(s) => parse_variant(s),
    }
}

impl LaunchConfig {
    /// Resolves the launch configuration from the environment
    /// (`PAPERDOLL_VARIANT`, `PAPERDOLL_V2_CHARACTER`, each `None` when unset)
    /// and then the command-line arguments (program name excluded).
    pub fn from_env_and_args(
        variant_env: Option<String>,
        character_env: Option<String>,
        args: &[String],
    ) -> (r: Result<LaunchRequest, String>)
        ensures
            match env_variant(opt_view(variant_env)) {
                Err(m) => r matches Err(e) && e@ == m,
                Ok(v0) => match launch_variant_from(arg_views(args@), 0, v0) {
                    Err(m) => r matches Err(e) && e@ == m,
                    Ok(None) => r matches Ok(LaunchRequest::ShowHelp),
                    Ok(Some(v)) => r matches Ok(LaunchRequest::Launch(c)) && c.variant == v
                        && c.v2_character@ == match character_env {
                        Some(ch) => ch@,
                        None => DEFAULT_V2_CHARACTER@,
                    },
                },
            },
    {
        let mut variant = match &variant_env {
            Some(s) => {
                match DollVariant::parse(s.as_str()) {
                    Ok(v) => v,
                    Err(e) => {
                        return Err(e);
                    },
                }
            },
            None => DollVariant::V2,
        };
        let ghost av = arg_views(args@);
        let ghost v0 = variant;
        let mut i: usize = 0;
        while i < args.len()
            invariant
                i <= args@.len() + 1,
                av == arg_views(args@),
                av.len() == args@.len(),
                launch_variant_from(av, 0, v0) == launch_variant_from(av, i as int, variant),
                env_variant(opt_view(variant_env)) == Ok::<DollVariant, Seq<char>>(v0),
            decreases args@.len() + 1 - i,
        {
            let a = args[i].as_str();
            assert(av[i as int] == a@);
            let ac = chars_of(a);
            let prefix = chars_of("--variant=");
            if str_eq(a, "--variant") || str_eq(a, "-v") {
                if i + 1 >= args.len() {
                    return Err(String::from_str("--variant requires a value (v1 or v2)"));
                }
                assert(av[i + 1] == args@[i + 1]@);
                match DollVariant::parse(args[i + 1].as_str()) {
                    Ok(v) => {
                        variant = v;
                    },
                    Err(e) => {
                        return Err(e);
                    },
                }
                i = i + 2;
            } else if has_prefix(ac.as_slice(), prefix.as_slice()) {
                proof {
                    reveal_strlit("--variant=");
                }
                let value = string_from_range(ac.as_slice(), 10, ac.len());
                match DollVariant::parse(value.as_str()) {
                    Ok(v) => {
                        variant = v;
                    },
                    Err(e) => {
                        return Err(e);
                    },
                }
                i = i + 1;
            } else if str_eq(a, "--help") || str_eq(a, "-h") {
                return Ok(LaunchRequest::ShowHelp);
            } else {
                let mut m = concat_str("unknown argument '", a);
                m.append("' (try --help)");
                return Err(m);
            }
        }
        let v2_character = match character_env {
            Some(c) => c,
            None => String::from_str(DEFAULT_V2_CHARACTER),
        };
        Ok(LaunchRequest::Launch(LaunchConfig { variant, v2_character }))
    }
}

/// Variant state shared with the HTTP side.
pub struct VariantSnapshot {
    pub variant: DollVariant,
    pub available: Vec<&'static str>,
    pub v2_character: String,
    pub v2_asset_present: bool,
    pub description: &'static str,
}

/// The description every snapshot carries.
pub open spec fn variant_description() -> Seq<char> {
    "v2 = VRM 1.0 skinned humanoid (default); v1 = procedural capsule doll. Pose/animation APIs are shared."@
}

impl VariantSnapshot {
    /// A snapshot for `active`; `v2_asset_present` tells whether the v2
    /// character's file exists on disk.
    pub fn new(active: DollVariant, v2_character: String, v2_asset_present: bool) -> (s: Self)
        ensures
            s.variant == active,
            s.available@.len() == 2,
            s.available@[0]@ == "v1"@,
            s.available@[1]@ == "v2"@,
            s.v2_character@ == v2_character@,
            s.v2_asset_present == v2_asset_present,
            s.description@ == variant_description(),
    {
        VariantSnapshot {
            variant: active,
            available: vec!["v1", "v2"],
            v2_character,
            v2_asset_present,
            description: "v2 = VRM 1.0 skinned humanoid (default); v1 = procedural capsule doll. Pose/animation APIs are shared.",
        }
    }

    /// A copy of this snapshot.
    pub fn duplicate(&self) -> (s: Self)
        ensures
            s.variant == self.variant,
            s.available@ == self.available@,
            s.v2_character@ == self.v2_character@,
            s.v2_asset_present == self.v2_asset_present,
            s.description == self.description,
    {
        let mut available: Vec<&'static str> = Vec::new();
        let mut i: usize = 0;
        while i < self.available.len()
            invariant
                i <= self.available@.len(),
                available@ == self.available@.subrange(0, i as int),
            decreases self.available@.len() - i,
        {
            available.push(self.available[i]);
            assert(available@ =~= self.available@.subrange(0, i + 1));
            i = i + 1;
        }
        assert(available@ =~= self.available@);
        VariantSnapshot {
            variant: self.variant,
            available,
            v2_character: self.v2_character.clone(),
            v2_asset_present: self.v2_asset_present,
            description: self.description,
        }
    }
}

/// Lock predicate admitting every value.
pub struct AnyValue;

impl<V> RwLockPredicate<V> for AnyValue {
    open spec fn inv(self, v: V) -> bool {
        true
    }
}

/// Lock predicate of the shared variant state: the v2 character's path, the
/// list of variants and the description stay as they were at launch (only
/// the active variant and whether the character's file is present change).
pub struct VariantFixed {
    pub character: Ghost<Seq<char>>,
}

/// Whether `v` keeps the fixed parts of a variant snapshot, with `character`
/// as the v2 character's path.
pub open spec fn keeps_fixed_parts(v: VariantSnapshot, character: Seq<char>) -> bool {
    &&& v.v2_character@ == character
    &&& v.available@.len() == 2
    &&& v.available@[0]@ == "v1"@
    &&& v.available@[1]@ == "v2"@
    &&& v.description@ == variant_description()
}

impl RwLockPredicate<VariantSnapshot> for VariantFixed {
    open spec fn inv(self, v: VariantSnapshot) -> bool {
        keeps_fixed_parts(v, self.character@)
    }
}

/// Variant snapshot shared between the render loop and the HTTP side.
pub struct SharedVariantState(pub Arc<RwLock<VariantSnapshot, VariantFixed>>);

impl SharedVariantState {
    /// The v2 character's path this state was created with.
    pub open spec fn character(&self) -> Seq<char> {
        self.0.pred().character@
    }

    /// Shared state starting at the launch variant.
    pub fn new(launch: &LaunchConfig, v2_asset_present: bool) -> (s: Self)
        ensures
            s.character() == launch.v2_character@,
    {
        let snap = VariantSnapshot::new(launch.variant, launch.v2_character.clone(), v2_asset_present);
        SharedVariantState(Arc::new(RwLock::new(snap, Ghost(VariantFixed { character: Ghost(launch.v2_character@) }))))
    }

    /// Switches the active variant, recording whether the v2 character's
    /// file is now present.
    pub fn set_active(&self, variant: DollVariant, v2_asset_present: bool) {
        let (mut snap, handle) = self.0.acquire_write();
        snap.variant = variant;
        snap.v2_asset_present = v2_asset_present;
        proof {
            assert(handle.rwlock().inv(snap));
        }
        handle.release_write(snap);
    }

    /// A copy of the current snapshot: its character path, variant list and
    /// description are the ones the state was created with; the active
    /// variant and the file's presence are whatever was last set (by any
    /// thread).
    pub fn snapshot(&self) -> (s: VariantSnapshot)
        ensures
            keeps_fixed_parts(s, self.character()),
    {
        let h = self.0.acquire_read();
        let s = h.borrow().duplicate();
        h.release_read();
        s
    }

    /// Whether the v2 character's file was present at the last update.
    pub fn v2_ready(&self) -> bool {
        let h = self.0.acquire_read();
        let b = h.borrow().v2_asset_present;
        h.release_read();
        b
    }

    /// The v2 character's asset path (the one the state was created with).
    pub fn v2_character(&self) -> (s: String)
        ensures
            s@ == self.character(),
    {
        let h = self.0.acquire_read();
        let s = h.borrow().v2_character.clone();
        h.release_read();
        s
    }
}

/// Whether the in-app editor is open, shared with the HTTP side (which then
/// refuses playback commands).
pub struct SharedEditorState(pub Arc<RwLock<bool, AnyValue>>);

impl SharedEditorState {
    /// Starts closed.
    pub fn new() -> (s: Self) {
        SharedEditorState(Arc::new(RwLock::new(false, Ghost(AnyValue))))
    }

    pub fn set_active(&self, active: bool) {
        let (_, handle) = self.0.acquire_write();
        proof {
            assert(handle.rwlock().inv(active));
        }
        handle.release_write(active);
    }

    /// The flag as last set (by any thread).
    pub fn is_active(&self) -> bool {
        let h = self.0.acquire_read();
        let b = *h.borrow();
        h.release_read();
        b
    }
}

} // verus!
