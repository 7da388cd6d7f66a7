//! Paths and command-line arguments of the `.vrma` import tool.
//!
//! Paths are handled as characters with Unix `std::path` rules: `/` is the
//! only separator and a path is absolute when it starts with one.

use vstd::prelude::*;
use crate::model::opt_view;
use crate::text::{
    ascii_lower, chars_of, lower_char, concat_str, contains_chars, contains_seq, parse_u32,
    parse_u32_spec, push_char, str_eq, string_from_chars, string_from_range, trim, trim_chars,
};

verus! {

// ---------------------------------------------------------------------------
// Paths

/// Whether `p` is an absolute path.
pub open spec fn is_absolute(p: Seq<char>) -> bool {
    p.len() > 0 && p[0] == '/'
}

/// `base.join(p)`: an absolute `p` replaces `base`; otherwise `p` is appended,
/// with a `/` in between unless `base` is empty or already ends with one.
pub open spec fn join_path(base: Seq<char>, p: Seq<char>) -> Seq<char> {
    if is_absolute(p) {
        p
    } else if base.len() > 0 && base.last() != '/' {
        base.push('/') + p
    } else {
        base + p
    }
}

/// `base` joined with `p` (see [`join_path`]).
pub fn join_path_str(base: &str, p: &str) -> (r: String)
    ensures
        r@ == join_path(base@, p@),
{
    let pc = chars_of(p);
    let bc = chars_of(base);
    if pc.len() > 0 && pc[0] == '/' {
        return String::from_str(p);
    }
    let mut out = String::from_str(base);
    if bc.len() > 0 && bc[bc.len() - 1] != '/' {
        push_char(&mut out, '/');
    }
    out.append(p);
    out
}

/// Length of the prefix of `p[..n]` left once trailing separators and
/// trailing `.` components (which `Path::file_name` looks past) are dropped.
pub open spec fn kept_len(p: Seq<char>, n: int) -> int
    decreases n,
{
    if n <= 0 {
        0
    } else if p[n - 1] == '/' {
        kept_len(p, n - 1)
    } else if p[n - 1] == '.' && (n == 1 || p[n - 2] == '/') {
        kept_len(p, n - 1)
    } else {
        n
    }
}

/// Start of the last component of `p[..n]`: just after its last `/`.
pub open spec fn segment_start(p: Seq<char>, n: int) -> int
    decreases n,
{
    if n <= 0 {
        0
    } else if p[n - 1] == '/' {
        n
    } else {
        segment_start(p, n - 1)
    }
}

/// Where `Path::file_name` lies in `p`: the final component, unless there
/// is none or it is `..`.
pub open spec fn file_name_span(p: Seq<char>) -> Option<(int, int)> {
    let e = kept_len(p, p.len() as int);
    let s = segment_start(p, e);
    if e <= s || p.subrange(s, e) == seq!['.', '.'] {
        None
    } else {
        Some((s, e))
    }
}

/// Index of the last `.` in `p[s..e]`, or `-1`.
pub open spec fn last_dot(p: Seq<char>, s: int, e: int) -> int
    decreases e - s,
{
    if e <= s {
        -1
    } else if p[e - 1] == '.' {
        e - 1
    } else {
        last_dot(p, s, e - 1)
    }
}

/// `p` with a `vrma` extension: unchanged when it has no file name or its
/// extension is already `vrma` (any ASCII case); otherwise the part after the
/// file stem is replaced by `.vrma` (`PathBuf::set_extension`).
pub open spec fn with_vrma_extension(p: Seq<char>) -> Seq<char> {
    match file_name_span(p) {
        None => p,
        Some((s, e)) => {
            let d = last_dot(p, s, e);
            if d > s && ascii_lower(p.subrange(d + 1, e)) == seq!['v', 'r', 'm', 'a'] {
                p
            } else {
                p.subrange(0, if d > s {
                    d
                } else {
                    e
                }) + seq!['.', 'v', 'r', 'm', 'a']
            }
        },
    }
}

proof fn lemma_kept_len_range(p: Seq<char>, n: int)
    requires
        0 <= n <= p.len(),
    ensures
        0 <= kept_len(p, n) <= n,
    decreases n,
{
    if n > 0 {
        lemma_kept_len_range(p, n - 1);
    }
}

proof fn lemma_segment_start_range(p: Seq<char>, n: int)
    requires
        0 <= n <= p.len(),
    ensures
        0 <= segment_start(p, n) <= n,
    decreases n,
{
    if n > 0 {
        lemma_segment_start_range(p, n - 1);
    }
}

proof fn lemma_last_dot_range(p: Seq<char>, s: int, e: int)
    requires
        0 <= s,
        e <= p.len(),
    ensures
        last_dot(p, s, e) == -1 || s <= last_dot(p, s, e) < e,
    decreases e - s,
{
    if e > s {
        lemma_last_dot_range(p, s, e - 1);
    }
}

fn kept_len_exec(p: &[char]) -> (r: usize)
    ensures
        r == kept_len(p@, p@.len() as int),
{
    let mut n: usize = p.len();
    while n > 0
        invariant
            n <= p@.len(),
            kept_len(p@, p@.len() as int) == kept_len(p@, n as int),
        decreases n,
    {
        let c = p[n - 1];
        if c == '/' || (c == '.' && (n == 1 || p[n - 2] == '/')) {
            n = n - 1;
        } else {
            return n;
        }
    }
    n
}

fn segment_start_exec(p: &[char], e: usize) -> (r: usize)
    requires
        e <= p@.len(),
    ensures
        r == segment_start(p@, e as int),
{
    let mut n: usize = e;
    while n > 0
        invariant
            n <= e,
            e <= p@.len(),
            segment_start(p@, e as int) == segment_start(p@, n as int),
        decreases n,
    {
        if p[n - 1] == '/' {
            return n;
        }
        n = n - 1;
    }
    0
}

/// `(found, index)` of the last `.` in `p[s..e]`.
fn last_dot_exec(p: &[char], s: usize, e: usize) -> (r: (bool, usize))
    requires
        s <= e <= p@.len(),
    ensures
        r.0 == (last_dot(p@, s as int, e as int) >= 0),
        r.0 ==> r.1 == last_dot(p@, s as int, e as int),
{
    let mut n: usize = e;
    while n > s
        invariant
            s <= n <= e,
            e <= p@.len(),
            last_dot(p@, s as int, e as int) == last_dot(p@, s as int, n as int),
        decreases n - s,
    {
        if p[n - 1] == '.' {
            return (true, n - 1);
        }
        n = n - 1;
    }
    (false, 0)
}

/// The path `p` given a `vrma` extension (see [`with_vrma_extension`]).
pub fn ensure_vrma_extension(p: &str) -> (r: String)
    ensures
        r@ == with_vrma_extension(p@),
{
    let c = chars_of(p);
    let e = kept_len_exec(c.as_slice());
    proof {
        lemma_kept_len_range(c@, c@.len() as int);
    }
    let s = segment_start_exec(c.as_slice(), e);
    proof {
        lemma_segment_start_range(c@, e as int);
    }
    if e <= s {
        return String::from_str(p);
    }
    if e - s == 2 && c[s] == '.' && c[s + 1] == '.' {
        assert(c@.subrange(s as int, e as int) =~= seq!['.', '.']);
        return String::from_str(p);
    }
    assert(c@.subrange(s as int, e as int) != seq!['.', '.']) by {
        if c@.subrange(s as int, e as int) == seq!['.', '.'] {
            assert(seq!['.', '.'].len() == 2);
            assert(c@.subrange(s as int, e as int).len() == e - s);
            assert(e - s == 2);
            assert(c@.subrange(s as int, e as int)[0] == c@[s as int]);
            assert(c@.subrange(s as int, e as int)[1] == c@[s + 1]);
        }
    }
    let (found, d) = last_dot_exec(c.as_slice(), s, e);
    proof {
        lemma_last_dot_range(c@, s as int, e as int);
    }
    if found && d > s && e - d == 5 {
        let l0 = lower_char(c[d + 1]);
        let l1 = lower_char(c[d + 2]);
        let l2 = lower_char(c[d + 3]);
        let l3 = lower_char(c[d + 4]);
        let ghost ext = ascii_lower(c@.subrange(d + 1, e as int));
        assert(ext.len() == 4);
        assert(ext[0] == l0 && ext[1] == l1 && ext[2] == l2 && ext[3] == l3);
        if l0 == 'v' && l1 == 'r' && l2 == 'm' && l3 == 'a' {
            assert(ext =~= seq!['v', 'r', 'm', 'a']);
            return String::from_str(p);
        }
        assert(ext != seq!['v', 'r', 'm', 'a']) by {
            if ext == seq!['v', 'r', 'm', 'a'] {
                assert(ext[0] == 'v' && ext[1] == 'r' && ext[2] == 'm' && ext[3] == 'a');
            }
        }
    }
    if found && d > s && e - d != 5 {
        assert(ascii_lower(c@.subrange(d + 1, e as int)).len() != 4);
    }
    let stem_end: usize = if found && d > s {
        d
    } else {
        e
    };
    let mut out = string_from_range(c.as_slice(), 0, stem_end);
    push_char(&mut out, '.');
    push_char(&mut out, 'v');
    push_char(&mut out, 'r');
    push_char(&mut out, 'm');
    push_char(&mut out, 'a');
    assert(out@ =~= c@.subrange(0, stem_end as int) + seq!['.', 'v', 'r', 'm', 'a']);
    out
}

/// Where a user-given `.vrma` path is read from: an absolute path as it is;
/// a relative one as it is when `found_from_cwd` (it names a file from the
/// working directory), else under `asset_root`.
pub fn resolve_vrma_input_path(asset_root: &str, path: &str, found_from_cwd: bool) -> (r: String)
    ensures
        r@ == if is_absolute(path@) || found_from_cwd {
            path@
        } else {
            join_path(asset_root@, path@)
        },
{
    let pc = chars_of(path);
    if pc.len() > 0 && pc[0] == '/' {
        return String::from_str(path);
    }
    if found_from_cwd {
        return String::from_str(path);
    }
    join_path_str(asset_root, path)
}

/// What [`safe_assets_relative_path`] gives for `user`: the trimmed path, or
/// why it is refused.
pub open spec fn safe_relative(user: Seq<char>) -> Result<Seq<char>, Seq<char>> {
    let t = trim(user);
    if t.len() == 0 {
        Err("path must not be empty"@)
    } else if contains_seq(t, seq!['.', '.']) || is_absolute(t) {
        Err("path must be relative to assets/ without '..'"@)
    } else {
        Ok(t)
    }
}

/// A path under `assets/`: trimmed, non-empty, relative and free of `..`.
pub fn safe_assets_relative_path(user: &str) -> (r: Result<String, String>)
    ensures
        match safe_relative(user@) {
            Ok(t) => r matches Ok(s) && s@ == t,
            Err(m) => r matches Err(e) && e@ == m,
        },
{
    let c = chars_of(user);
    let t = trim_chars(c.as_slice());
    if t.len() == 0 {
        return Err(String::from_str("path must not be empty"));
    }
    let mut dots: Vec<char> = Vec::new();
    dots.push('.');
    dots.push('.');
    assert(dots@ =~= seq!['.', '.']);
    if contains_chars(t.as_slice(), dots.as_slice()) || t[0] == '/' {
        return Err(String::from_str("path must be relative to assets/ without '..'"));
    }
    Ok(string_from_chars(t.as_slice()))
}

// ---------------------------------------------------------------------------
// `import-vrma` arguments

/// Options of one `import-vrma` run.
#[derive(Debug, Clone)]
pub struct ImportVrmaCli {
    pub path: String,
    pub name: Option<String>,
    pub sample_interval_ms: u32,
    pub write_yaml: bool,
    pub looping: bool,
}

/// What the arguments ask for: an import, or the usage text.
#[derive(Debug, Clone)]
pub enum ImportVrmaRequest {
    Import(ImportVrmaCli),
    ShowHelp,
}

/// The options the flags set (the path aside).
pub struct ImportOptions {
    pub name: Option<Seq<char>>,
    pub sample_interval_ms: u32,
    pub write_yaml: bool,
    pub looping: bool,
}

/// The options before any flag: every sample 100 ms apart, write the YAML,
/// do not loop.
pub open spec fn default_import_options() -> ImportOptions {
    ImportOptions { name: None, sample_interval_ms: 100, write_yaml: true, looping: false }
}

/// The characters of each argument.
pub open spec fn arg_views(args: Seq<String>) -> Seq<Seq<char>> {
    args.map_values(|a: String| a@)
}

/// The flags from `args[i]` on, applied to `o`: `Ok(None)` when help is
/// asked for, `Err` with the message of the first bad flag.
pub open spec fn import_options_from(args: Seq<Seq<char>>, i: int, o: ImportOptions) -> Result<
    Option<ImportOptions>,
    Seq<char>,
>
    decreases args.len() - i,
{
    if i < 0 || i >= args.len() {
        Ok(Some(o))
    } else {
        let a = args[i];
        if a == "--name"@ {
            if i + 1 >= args.len() {
                Err("--name requires a value"@)
            } else {
                import_options_from(
                    args,
                    i + 2,
                    ImportOptions {
                        name: Some(args[i + 1]),
                        sample_interval_ms: o.sample_interval_ms,
                        write_yaml: o.write_yaml,
                        looping: o.looping,
                    },
                )
            }
        } else if a == "--interval-ms"@ {
            if i + 1 >= args.len() {
                Err("--interval-ms requires a value"@)
            } else {
                match parse_u32_spec(args[i + 1]) {
                    Some(v) => import_options_from(
                        args,
                        i + 2,
                        ImportOptions {
                            name: o.name,
                            sample_interval_ms: v,
                            write_yaml: o.write_yaml,
                            looping: o.looping,
                        },
                    ),
                    None => Err("invalid --interval-ms"@),
                }
            }
        } else if a == "--no-write"@ {
            import_options_from(
                args,
                i + 1,
                ImportOptions {
                    name: o.name,
                    sample_interval_ms: o.sample_interval_ms,
                    write_yaml: false,
                    looping: o.looping,
                },
            )
        } else if a == "--loop"@ {
            import_options_from(
                args,
                i + 1,
                ImportOptions {
                    name: o.name,
                    sample_interval_ms: o.sample_interval_ms,
                    write_yaml: o.write_yaml,
                    looping: true,
                },
            )
        } else if a == "--help"@ || a == "-h"@ {
            Ok(None)
        } else {
            Err("unknown import-vrma argument '"@ + a + "'"@)
        }
    }
}

/// Parses the arguments after `import-vrma`: the `.vrma` path first, then
/// `--name <id>`, `--interval-ms <n>`, `--no-write`, `--loop` or
/// `--help`/`-h`. The path gets a `vrma` extension when it lacks one.
pub fn parse_import_vrma_args(args: &[String]) -> (r: Result<ImportVrmaRequest, String>)
    ensures
        args@.len() == 0 ==> (r matches Err(e) && e@ == "import-vrma requires a .vrma file path"@),
        args@.len() > 0 ==> match import_options_from(
            arg_views(args@),
            1,
            default_import_options(),
        ) {
            Err(m) => r matches Err(e) && e@ == m,
            Ok(None) => r matches Ok(ImportVrmaRequest::ShowHelp),
            Ok(Some(o)) => r matches Ok(ImportVrmaRequest::Import(c)) && c.path@
                == with_vrma_extension(args@[0]@) && opt_view(c.name) == o.name
                && c.sample_interval_ms == o.sample_interval_ms && c.write_yaml == o.write_yaml
                && c.looping == o.looping,
        },
{
    if args.len() == 0 {
        return Err(String::from_str("import-vrma requires a .vrma file path"));
    }
    let ghost av = arg_views(args@);
    let mut name: Option<String> = None;
    let mut sample_interval_ms: u32 = 100;
    let mut write_yaml = true;
    let mut looping = false;
    let mut i: usize = 1;
    while i < args.len()
        invariant
            1 <= i <= args@.len() + 1,
            av == arg_views(args@),
            av.len() == args@.len(),
            import_options_from(av, 1, default_import_options()) == import_options_from(
                av,
                i as int,
                ImportOptions {
                    name: opt_view(name),
                    sample_interval_ms,
                    write_yaml,
                    looping,
                },
            ),
        decreases args@.len() + 1 - i,
    {
        let a = args[i].as_str();
        assert(av[i as int] == a@);
        if str_eq(a, "--name") {
            if i + 1 >= args.len() {
                return Err(String::from_str("--name requires a value"));
            }
            assert(av[i + 1] == args@[i + 1]@);
            name = Some(args[i + 1].clone());
            i = i + 2;
        } else if str_eq(a, "--interval-ms") {
            if i + 1 >= args.len() {
                return Err(String::from_str("--interval-ms requires a value"));
            }
            assert(av[i + 1] == args@[i + 1]@);
            let vc = chars_of(args[i + 1].as_str());
            match parse_u32(vc.as_slice()) {
                Some(v) => {
                    sample_interval_ms = v;
                },
                None => {
                    return Err(String::from_str("invalid --interval-ms"));
                },
            }
            i = i + 2;
        } else if str_eq(a, "--no-write") {
            write_yaml = false;
            i = i + 1;
        } else if str_eq(a, "--loop") {
            looping = true;
            i = i + 1;
        } else if str_eq(a, "--help") || str_eq(a, "-h") {
            return Ok(ImportVrmaRequest::ShowHelp);
        } else {
            let mut m = concat_str("unknown import-vrma argument '", a);
            m.append("'");
            return Err(m);
        }
    }
    assert(av[0] == args@[0]@);
    let path = ensure_vrma_extension(args[0].as_str());
    Ok(
        ImportVrmaRequest::Import(
            ImportVrmaCli { path, name, sample_interval_ms, write_yaml, looping },
        ),
    )
}

} // verus!

verus! {

// ---------------------------------------------------------------------------
// Asset root

/// Where pose YAML files live, relative to the asset root.
pub const POSES_DIR: &'static str = "assets/poses";

/// Where animation YAML files live, relative to the asset root.
pub const ANIMATIONS_DIR: &'static str = "assets/animations";

/// Where `.vrma` clips live, relative to the asset root.
pub const MOTIONS_DIR: &'static str = "assets/motions";

/// Which directory serves as the asset root.
#[derive(Debug, Clone, Copy, PartialEq, Eq, Structural)]
pub enum AssetRoot {
    /// The directory `PAPERDOLL_ROOT` names.
    Env,
    /// The working directory (running from the repository).
    WorkingDir,
    /// `../share/paperdoll` beside the executable (an installed layout).
    Installed,
}

/// Picks the asset root: `PAPERDOLL_ROOT` when set (an error when it lacks
/// the pose directory), else the working directory, else the installed
/// layout, whichever holds the pose directory; an error when none does.
pub fn choose_asset_root(
    env_root: Option<&str>,
    env_has_poses: bool,
    cwd_has_poses: bool,
    installed_has_poses: bool,
) -> (r: Result<AssetRoot, String>)
    ensures
        match env_root {
            Some(root) => if env_has_poses {
                r == Ok::<AssetRoot, String>(AssetRoot::Env)
            } else {
                r matches Err(m) && m@ == "PAPERDOLL_ROOT='"@ + root@ + "' does not contain 'assets/poses'"@
            },
            None => if cwd_has_poses {
                r == Ok::<AssetRoot, String>(AssetRoot::WorkingDir)
            } else if installed_has_poses {
                r == Ok::<AssetRoot, String>(AssetRoot::Installed)
            } else {
                r matches Err(m) && m@
                    == "could not find 'assets/poses'. Run from the repo root, set PAPERDOLL_ROOT, or install with `make install`."@
            },
        },
{
    match env_root {
        Some(root) => {
            if env_has_poses {
                Ok(AssetRoot::Env)
            } else {
                let mut m = concat_str("PAPERDOLL_ROOT='", root);
                m.append("' does not contain 'assets/poses'");
                Err(m)
            }
        },
        None => {
            if cwd_has_poses {
                Ok(AssetRoot::WorkingDir)
            } else if installed_has_poses {
                Ok(AssetRoot::Installed)
            } else {
                Err(
                    String::from_str(
                        "could not find 'assets/poses'. Run from the repo root, set PAPERDOLL_ROOT, or install with `make install`.",
                    ),
                )
            }
        },
    }
}

} // verus!
