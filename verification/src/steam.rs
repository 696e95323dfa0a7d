//! SteamPipe publication of the application's development beta: where
//! SteamCMD lives, which branch and confirmation a publication needs, the
//! checks a staged application must pass, and the build scripts rendered
//! from the checked-in templates.

use vstd::prelude::*;
use crate::text::{owned, concat, concat3, str_eq, trim, trim_str, string_views, decimal, decimal_string, occurs_at, occurs_at_exec};
use crate::paths::{join, join_path};
use crate::manifest::APP_FILE_NAME;
use crate::distribution::{DistributionManifest, StageReport, DepotStage, StageOptions, SteamDepotKind, depot_for_target, depot_label, depot_of};

verus! {

/// Where the SteamPipe templates live under the source root.
pub const STEAMPIPE_TEMPLATE_ROOT: &'static str = "resources/steam/steampipe-templates";
/// The app build template.
pub const APP_BUILD_TEMPLATE: &'static str = "app_build.vdf.tpl";
/// The template of one depot entry in the app build script.
pub const APP_BUILD_DEPOT_ENTRY_TEMPLATE: &'static str = "app_build_depot_entry.vdf.tpl";
/// The depot build template.
pub const DEPOT_BUILD_TEMPLATE: &'static str = "depot_build.vdf.tpl";

/// The SteamCMD executables looked for under an app root, in order.
pub open spec fn steamcmd_candidates_spec(root: Seq<char>, windows: bool) -> Seq<Seq<char>> {
    let dirs = seq![join(root, "tools/steamcmd"@), join(root, "steam/steamcmd"@)];
    if windows {
        seq![join(dirs[0], "steamcmd.exe"@), join(dirs[1], "steamcmd.exe"@)]
    } else {
        seq![join(dirs[0], "steamcmd"@), join(dirs[0], "steamcmd.sh"@), join(dirs[1], "steamcmd"@), join(dirs[1], "steamcmd.sh"@)]
    }
}

/// The SteamCMD executables looked for under an app root, in order: under
/// `tools/steamcmd`, then `steam/steamcmd`.
pub fn steamcmd_candidates(root: &str, windows: bool) -> (r: Vec<String>)
    ensures
        string_views(r@) == steamcmd_candidates_spec(root@, windows),
{
    let tools = join_path(root, "tools/steamcmd");
    let steam = join_path(root, "steam/steamcmd");
    let r = if windows {
        vec![join_path(tools.as_str(), "steamcmd.exe"), join_path(steam.as_str(), "steamcmd.exe")]
    } else {
        vec![
            join_path(tools.as_str(), "steamcmd"),
            join_path(tools.as_str(), "steamcmd.sh"),
            join_path(steam.as_str(), "steamcmd"),
            join_path(steam.as_str(), "steamcmd.sh"),
        ]
    };
    assert(string_views(r@) =~= steamcmd_candidates_spec(root@, windows));
    r
}

/// The installation's SteamCMD: the first candidate that is a file, given
/// whether each candidate of [`steamcmd_candidates`] is.
pub fn executable_for_installation(root: &str, windows: bool, is_file: &[bool]) -> (r: Result<String, String>)
    requires
        is_file@.len() == steamcmd_candidates_spec(root@, windows).len(),
    ensures
        match r {
            Ok(p) => exists|i: int| 0 <= i < is_file@.len() && is_file@[i] && p@ == steamcmd_candidates_spec(root@, windows)[i]
                && forall|j: int| 0 <= j < i ==> !is_file@[j],
            Err(e) => e@ == "SteamCMD is not installed in the Vapor app root"@
                && forall|i: int| 0 <= i < is_file@.len() ==> !is_file@[i],
        },
{
    let candidates = steamcmd_candidates(root, windows);
    match crate::discovery::first_file(candidates.as_slice(), is_file) {
        Some(p) => {
            assert(forall|i: int| 0 <= i < candidates@.len() ==> candidates@[i]@ == string_views(candidates@)[i]);
            Ok(p)
        },
        None => Err(owned("SteamCMD is not installed in the Vapor app root")),
    }
}

/// Options for a SteamPipe publication attempt.
#[derive(Debug, Clone)]
pub struct PublishOptions {
    /// Dedicated Steam build account.
    pub account: String,
    /// Target beta branch, or the manifest default.
    pub branch: Option<String>,
    /// Internal Steam build description.
    pub description: String,
    /// Staged payload mode.
    pub stage_options: StageOptions,
    /// Whether to generate a preview VDF without uploading.
    pub dry_run: bool,
    /// Whether a real upload has been explicitly confirmed.
    pub confirmed: bool,
}

/// Result of a SteamPipe publish or dry-run preview.
#[derive(Debug, Clone)]
pub struct PublishReport {
    /// Generated SteamPipe app build script.
    pub script: String,
    /// Staged depot content roots used by this publish attempt.
    pub stage: StageReport,
}

impl PublishReport {
    /// Generated SteamPipe app build script.
    pub fn script(&self) -> (r: &str)
        ensures
            r@ == self.script@,
    {
        self.script.as_str()
    }

    /// Staged depot content roots used by this publish attempt.
    pub fn stage(&self) -> (r: &StageReport)
        ensures
            *r == self.stage,
    {
        &self.stage
    }
}

/// The branch a publication goes to, or why it may not go ahead: it must be
/// a named beta branch, and a real upload must be confirmed.
pub open spec fn publish_branch_spec(development_branch: Seq<char>, branch: Option<Seq<char>>, dry_run: bool, confirmed: bool) -> Result<Seq<char>, Seq<char>> {
    let b = match branch { Some(b) => b, None => development_branch };
    if b == "default"@ || trim(b).len() == 0 {
        Err("automatic publishing requires a non-default beta branch"@)
    } else if !dry_run && !confirmed {
        Err("publishing requires --yes after reviewing --dry-run"@)
    } else {
        Ok(b)
    }
}

/// Automatic publishing never goes to the live `default` branch nor to a
/// blank one: whenever the chosen branch (the one asked for, else the
/// development branch) is `default` or blank, the answer is the refusal
/// "automatic publishing requires a non-default beta branch", whatever the
/// dry-run and confirmation flags. Past that check, a real upload that is not
/// confirmed is refused with "publishing requires --yes after reviewing
/// --dry-run"; otherwise the publication goes ahead, to the chosen branch.
pub proof fn law_publish_never_targets_default(development_branch: Seq<char>, branch: Option<Seq<char>>, dry_run: bool, confirmed: bool)
    ensures
        ({
            let chosen = match branch { Some(b) => b, None => development_branch };
            &&& (chosen == "default"@ || trim(chosen).len() == 0) ==> publish_branch_spec(development_branch, branch, dry_run, confirmed)
                == Err::<Seq<char>, Seq<char>>("automatic publishing requires a non-default beta branch"@)
            &&& chosen != "default"@ && trim(chosen).len() > 0 && !dry_run && !confirmed
                ==> publish_branch_spec(development_branch, branch, dry_run, confirmed)
                == Err::<Seq<char>, Seq<char>>("publishing requires --yes after reviewing --dry-run"@)
            &&& chosen != "default"@ && trim(chosen).len() > 0 && (dry_run || confirmed)
                ==> publish_branch_spec(development_branch, branch, dry_run, confirmed) == Ok::<Seq<char>, Seq<char>>(chosen)
            &&& publish_branch_spec(development_branch, branch, dry_run, confirmed) is Ok ==> {
                &&& publish_branch_spec(development_branch, branch, dry_run, confirmed) == Ok::<Seq<char>, Seq<char>>(chosen)
                &&& chosen != "default"@
                &&& trim(chosen).len() > 0
                &&& dry_run || confirmed
            }
        }),
{
}

/// The branch a publication goes to: the chosen one, else the manifest's
/// development branch.
pub fn publish_branch(manifest: &DistributionManifest, options: &PublishOptions) -> (r: Result<String, String>)
    ensures
        match publish_branch_spec(manifest.application.development_branch@,
            match options.branch { Some(b) => Some(b@), None => None::<Seq<char>> }, options.dry_run, options.confirmed) {
            Ok(b) => r matches Ok(s) && s@ == b,
            Err(m) => r matches Err(e) && e@ == m,
        },
{
    let branch: &str = match &options.branch {
        Some(b) => b.as_str(),
        None => manifest.application().development_branch(),
    };
    if str_eq(branch, "default") || trim_str(branch).unicode_len() == 0 {
        return Err(owned("automatic publishing requires a non-default beta branch"));
    }
    if !options.dry_run && !options.confirmed {
        return Err(owned("publishing requires --yes after reviewing --dry-run"));
    }
    Ok(owned(branch))
}

/// The SteamCMD arguments of an upload of the app build script.
pub fn upload_arguments(account: &str, script: &str) -> (r: Vec<String>)
    ensures
        string_views(r@) == seq!["+login"@, account@, "+run_app_build"@, script@, "+quit"@],
{
    let r = vec![owned("+login"), owned(account), owned("+run_app_build"), owned(script), owned("+quit")];
    assert(string_views(r@) =~= seq!["+login"@, account@, "+run_app_build"@, script@, "+quit"@]);
    r
}

/// The outcome of the SteamCMD upload process.
pub fn upload_outcome(success: bool, status: &str) -> (r: Result<(), String>)
    ensures
        success ==> r is Ok,
        !success ==> (r matches Err(e) && e@ == "Steam publish exited with "@ + status@),
{
    if success { Ok(()) } else { Err(concat("Steam publish exited with ", status)) }
}

/// One check of the staged application, in the order they run.
#[derive(Debug)]
pub enum SmokeStep {
    /// The path must exist; otherwise fail with the message.
    Exists { path: String, error: String },
    /// The path must be a file; otherwise fail with the message.
    IsFile { path: String, error: String },
    /// Fail with the message.
    Fail { error: String },
}

/// Plain view of a smoke step: 0 for "exists", 1 for "is a file", 2 for a
/// failure; then the path (empty for a failure) and the error.
pub open spec fn step_view(s: SmokeStep) -> (int, Seq<char>, Seq<char>) {
    match s {
        SmokeStep::Exists { path, error } => (0, path@, error@),
        SmokeStep::IsFile { path, error } => (1, path@, error@),
        SmokeStep::Fail { error } => (2, Seq::empty(), error@),
    }
}

/// The first staged depot of a kind.
pub open spec fn first_depot(ds: Seq<DepotStage>, k: SteamDepotKind) -> Option<DepotStage>
    decreases ds.len(),
{
    if ds.len() == 0 {
        None
    } else if ds[0].kind == k {
        Some(ds[0])
    } else {
        first_depot(ds.drop_first(), k)
    }
}

proof fn lemma_first_depot(ds: Seq<DepotStage>, k: SteamDepotKind, i: int)
    requires
        0 <= i <= ds.len(),
        forall|j: int| 0 <= j < i ==> (#[trigger] ds[j]).kind != k,
        i < ds.len() ==> ds[i].kind == k,
    ensures
        first_depot(ds, k) == (if i < ds.len() { Some(ds[i]) } else { None::<DepotStage> }),
    decreases i,
{
    if i > 0 {
        assert(ds[0].kind != k);
        assert forall|j: int| 0 <= j < i - 1 implies (#[trigger] ds.drop_first()[j]).kind != k by {
            assert(ds.drop_first()[j] == ds[j + 1]);
        }
        if i < ds.len() {
            assert(ds.drop_first()[i - 1] == ds[i]);
        }
        lemma_first_depot(ds.drop_first(), k, i - 1);
    }
}

fn staged_depot(stage: &StageReport, kind: SteamDepotKind) -> (r: Option<&DepotStage>)
    ensures
        match first_depot(stage.depots@, kind) {
            Some(d) => r matches Some(x) && *x == d,
            None => r is None,
        },
{
    let r = stage.depot(kind);
    proof {
        match r {
            Some(d) => {
                let i = choose|i: int| 0 <= i < stage.depots@.len() && stage.depots@[i] == *d
                    && forall|j: int| 0 <= j < i ==> (#[trigger] stage.depots@[j]).kind != kind;
                lemma_first_depot(stage.depots@, kind, i);
            },
            None => {
                lemma_first_depot(stage.depots@, kind, stage.depots@.len() as int);
            },
        }
    }
    r
}

/// A file check with the shell's message.
pub open spec fn file_check(path: Seq<char>, message: Seq<char>) -> (int, Seq<char>, Seq<char>) {
    (1, path, message + ": "@ + path)
}

/// The file checks of one runtime target's depot.
pub open spec fn depot_file_checks(kind: SteamDepotKind, root: Seq<char>, target: Seq<char>) -> Seq<(int, Seq<char>, Seq<char>)> {
    let bin = join(root, "bin"@);
    let tbin = join(bin, target);
    match kind {
        SteamDepotKind::Common => Seq::empty(),
        SteamDepotKind::Linux => seq![
            file_check(join(root, "bin/vapor-launch.sh"@), "staged Linux depot has no launch wrapper"@),
            file_check(join(tbin, "vapor"@), "staged Linux depot has no target Vapor binary"@),
            file_check(join(tbin, "vapor-installer"@), "staged Linux depot has no target Vapor Installer binary"@),
        ],
        SteamDepotKind::Windows => seq![
            file_check(join(root, "bin/vapor-launch.cmd"@), "staged Windows depot has no launch wrapper"@),
            file_check(join(tbin, "vapor.exe"@), "staged Windows depot has no target Vapor binary"@),
            file_check(join(tbin, "vapor-installer.exe"@), "staged Windows depot has no target Vapor Installer binary"@),
            file_check(join(tbin, "libunwind.dll"@), "staged Windows depot has no GNU runtime DLL"@),
        ],
    }
}

/// The checks of the runtime targets from `ts` on: each target's depot
/// must exist and hold its launch wrapper and binaries; an unknown target
/// or a missing depot ends the checks with a failure.
pub open spec fn target_steps(ds: Seq<DepotStage>, ts: Seq<Seq<char>>) -> Seq<(int, Seq<char>, Seq<char>)>
    decreases ts.len(),
{
    if ts.len() == 0 {
        Seq::empty()
    } else {
        match depot_for_target(ts[0]) {
            Err(e) => seq![(2, Seq::empty(), e)],
            Ok(k) => match first_depot(ds, k) {
                None => seq![(2, Seq::empty(), "staged application has no "@ + depot_label(k) + " depot"@)],
                Some(d) => depot_file_checks(k, d.root@, ts[0]) + target_steps(ds, ts.drop_first()),
            },
        }
    }
}

/// Every check of a staged application, in order: the common depot and its
/// app manifest and documentation, then each runtime target's depot.
pub open spec fn smoke_spec(stage: StageReport, targets: Seq<Seq<char>>) -> Seq<(int, Seq<char>, Seq<char>)> {
    match first_depot(stage.depots@, SteamDepotKind::Common) {
        None => seq![(2, Seq::empty(), "staged application has no common depot"@)],
        Some(c) => seq![
            (0, join(c.root@, APP_FILE_NAME@), "staged common depot is missing required path: "@ + join(c.root@, APP_FILE_NAME@)),
            (0, join(c.root@, "docs"@), "staged common depot is missing required path: "@ + join(c.root@, "docs"@)),
        ] + target_steps(stage.depots@, targets),
    }
}

fn file_step(path: String, message: &str) -> (r: SmokeStep)
    ensures
        step_view(r) == file_check(path@, message@),
{
    let mut error = concat(message, ": ");
    error.append(path.as_str());
    SmokeStep::IsFile { path, error }
}

fn push_depot_checks(out: &mut Vec<SmokeStep>, kind: SteamDepotKind, root: &str, target: &str)
    ensures
        final(out)@.map_values(|s: SmokeStep| step_view(s)) == old(out)@.map_values(|s: SmokeStep| step_view(s)) + depot_file_checks(kind, root@, target@),
{
    let ghost before = out@.map_values(|s: SmokeStep| step_view(s));
    let bin = join_path(root, "bin");
    let tbin = join_path(bin.as_str(), target);
    match kind {
        SteamDepotKind::Common => {},
        SteamDepotKind::Linux => {
            out.push(file_step(join_path(root, "bin/vapor-launch.sh"), "staged Linux depot has no launch wrapper"));
            out.push(file_step(join_path(tbin.as_str(), "vapor"), "staged Linux depot has no target Vapor binary"));
            out.push(file_step(join_path(tbin.as_str(), "vapor-installer"), "staged Linux depot has no target Vapor Installer binary"));
        },
        SteamDepotKind::Windows => {
            out.push(file_step(join_path(root, "bin/vapor-launch.cmd"), "staged Windows depot has no launch wrapper"));
            out.push(file_step(join_path(tbin.as_str(), "vapor.exe"), "staged Windows depot has no target Vapor binary"));
            out.push(file_step(join_path(tbin.as_str(), "vapor-installer.exe"), "staged Windows depot has no target Vapor Installer binary"));
            out.push(file_step(join_path(tbin.as_str(), "libunwind.dll"), "staged Windows depot has no GNU runtime DLL"));
        },
    }
    assert(out@.map_values(|s: SmokeStep| step_view(s)) =~= before + depot_file_checks(kind, root@, target@));
}

/// The checks a staged application must pass before publication, in order;
/// the caller runs them and stops at the first that fails (a `Fail` step
/// always fails). `options` names the runtime targets that were staged.
pub fn smoke(stage: &StageReport, options: &StageOptions) -> (r: Vec<SmokeStep>)
    ensures
        r@.map_values(|s: SmokeStep| step_view(s)) == smoke_spec(*stage, string_views(options.runtime_targets@)),
{
    let mut out: Vec<SmokeStep> = Vec::new();
    let common = match staged_depot(stage, SteamDepotKind::Common) {
        None => {
            out.push(SmokeStep::Fail { error: owned("staged application has no common depot") });
            assert(out@.map_values(|s: SmokeStep| step_view(s)) =~= smoke_spec(*stage, string_views(options.runtime_targets@)));
            return out;
        },
        Some(c) => c,
    };
    let manifest_path = join_path(common.root(), APP_FILE_NAME);
    out.push(SmokeStep::Exists { path: manifest_path.clone(), error: concat("staged common depot is missing required path: ", manifest_path.as_str()) });
    let docs = join_path(common.root(), "docs");
    out.push(SmokeStep::Exists { path: docs.clone(), error: concat("staged common depot is missing required path: ", docs.as_str()) });
    let ghost head = out@.map_values(|s: SmokeStep| step_view(s));
    let targets = options.runtime_targets();
    let ghost ts = string_views(targets@);
    let mut i: usize = 0;
    assert(ts.skip(0) =~= ts);
    assert(smoke_spec(*stage, ts) == head + target_steps(stage.depots@, ts));
    while i < targets.len()
        invariant
            i <= targets@.len(),
            ts == string_views(targets@),
            ts == string_views(options.runtime_targets@),
            smoke_spec(*stage, ts) == head + target_steps(stage.depots@, ts),
            out@.map_values(|s: SmokeStep| step_view(s)) + target_steps(stage.depots@, ts.skip(i as int))
                == head + target_steps(stage.depots@, ts),
        decreases targets@.len() - i,
    {
        let ghost rest = ts.skip(i as int);
        assert(rest[0] == targets@[i as int]@);
        assert(rest.drop_first() =~= ts.skip(i + 1));
        let ghost before = out@.map_values(|s: SmokeStep| step_view(s));
        let target = targets[i].as_str();
        let kind = match SteamDepotKind::for_runtime_target(target) {
            Ok(k) => k,
            Err(e) => {
                out.push(SmokeStep::Fail { error: e });
                proof {
                    assert(out@.map_values(|s: SmokeStep| step_view(s)) =~= before + target_steps(stage.depots@, rest));
                    assert(out@.map_values(|s: SmokeStep| step_view(s)) =~= head + target_steps(stage.depots@, ts));
                }
                return out;
            },
        };
        let depot = match staged_depot(stage, kind) {
            Some(d) => d,
            None => {
                let mut e = concat("staged application has no ", kind.label());
                e.append(" depot");
                out.push(SmokeStep::Fail { error: e });
                proof {
                    assert(out@.map_values(|s: SmokeStep| step_view(s)) =~= before + target_steps(stage.depots@, rest));
                    assert(out@.map_values(|s: SmokeStep| step_view(s)) =~= head + target_steps(stage.depots@, ts));
                }
                return out;
            },
        };
        push_depot_checks(&mut out, kind, depot.root(), target);
        proof {
            assert(target_steps(stage.depots@, rest) == depot_file_checks(kind, depot.root@, target@) + target_steps(stage.depots@, ts.skip(i + 1)));
            assert(out@.map_values(|s: SmokeStep| step_view(s)) + target_steps(stage.depots@, ts.skip(i + 1))
                =~= before + target_steps(stage.depots@, rest));
        }
        i = i + 1;
    }
    proof {
        assert(ts.skip(targets@.len() as int) =~= Seq::<Seq<char>>::empty());
        assert(out@.map_values(|s: SmokeStep| step_view(s)) =~= smoke_spec(*stage, string_views(options.runtime_targets@)));
    }
    out
}

/// The VDF form of a value: `\` and `"` escaped with a backslash.
pub open spec fn escape_spec(value: Seq<char>) -> Seq<char>
    decreases value.len(),
{
    if value.len() == 0 {
        Seq::empty()
    } else {
        escape_spec(value.drop_last()) + (if value.last() == '\\' {
            seq!['\\', '\\']
        } else if value.last() == '"' {
            seq!['\\', '"']
        } else {
            seq![value.last()]
        })
    }
}

/// The VDF form of a value, as replacing `\` by `\\` and then `"` by `\"`.
pub fn escape(value: &str) -> (r: String)
    ensures
        r@ == escape_spec(value@),
{
    let n = value.unicode_len();
    let mut r = String::new();
    let mut i: usize = 0;
    proof {
        reveal_strlit("\\\\");
        reveal_strlit("\\\"");
    }
    while i < n
        invariant
            n == value@.len(),
            i <= n,
            r@ == escape_spec(value@.take(i as int)),
            "\\\\"@ == seq!['\\', '\\'],
            "\\\""@ == seq!['\\', '"'],
        decreases n - i,
    {
        let c = value.get_char(i);
        if c == '\\' {
            r.append("\\\\");
        } else if c == '"' {
            r.append("\\\"");
        } else {
            r.append(value.substring_char(i, i + 1));
        }
        proof {
            assert(value@.take(i + 1).drop_last() =~= value@.take(i as int));
            assert(r@ =~= escape_spec(value@.take(i + 1)));
        }
        i = i + 1;
    }
    proof {
        assert(value@.take(n as int) =~= value@);
    }
    r
}

/// Index of the first occurrence of `p` in `s` at or after `from`, or -1.
pub open spec fn find_from(s: Seq<char>, p: Seq<char>, from: int) -> int
    decreases s.len() + 1 - from,
{
    if from < 0 || from + p.len() > s.len() {
        -1
    } else if occurs_at(s, p, from) {
        from
    } else {
        find_from(s, p, from + 1)
    }
}

/// `s` from `from` on, with every occurrence of `p` (scanning left to right,
/// without overlap) replaced by `to`.
pub open spec fn replace_from(s: Seq<char>, p: Seq<char>, to: Seq<char>, from: int) -> Seq<char>
    recommends
        p.len() > 0,
    decreases s.len() - from,
    when p.len() > 0 && 0 <= from <= s.len()
{
    let i = find_from(s, p, from);
    if i < 0 {
        s.subrange(from, s.len() as int)
    } else {
        proof {
            lemma_find_from_bounds(s, p, from);
        }
        s.subrange(from, i) + to + replace_from(s, p, to, i + p.len())
    }
}

pub proof fn lemma_find_from_bounds(s: Seq<char>, p: Seq<char>, from: int)
    ensures
        find_from(s, p, from) == -1 || (from <= find_from(s, p, from) && find_from(s, p, from) + p.len() <= s.len()
            && occurs_at(s, p, find_from(s, p, from))),
    decreases s.len() + 1 - from,
{
    if from < 0 || from + p.len() > s.len() {
    } else if occurs_at(s, p, from) {
    } else {
        lemma_find_from_bounds(s, p, from + 1);
    }
}

/// `s` with every occurrence of `p` replaced by `to`, as `str::replace`.
pub open spec fn replace_all(s: Seq<char>, p: Seq<char>, to: Seq<char>) -> Seq<char> {
    replace_from(s, p, to, 0)
}

/// `s` with every occurrence of `p` replaced by `to`, as `str::replace`
/// does for a non-empty pattern.
pub fn replace_str(s: &str, p: &str, to: &str) -> (r: String)
    requires
        p@.len() > 0,
    ensures
        r@ == replace_all(s@, p@, to@),
{
    let n = s.unicode_len();
    let m = p.unicode_len();
    let mut r = String::new();
    let mut start: usize = 0;
    let mut i: usize = 0;
    while m <= n - i
        invariant
            n == s@.len(),
            m == p@.len(),
            m > 0,
            start <= i <= n,
            find_from(s@, p@, start as int) == find_from(s@, p@, i as int),
            r@ + replace_from(s@, p@, to@, start as int) == replace_all(s@, p@, to@),
        decreases n - i,
    {
        if occurs_at_exec(s, p, i) {
            proof {
                assert(find_from(s@, p@, i as int) == i);
                lemma_find_from_bounds(s@, p@, i + m);
            }
            r.append(s.substring_char(start, i));
            r.append(to);
            proof {
                assert(replace_from(s@, p@, to@, start as int)
                    == s@.subrange(start as int, i as int) + to@ + replace_from(s@, p@, to@, i + m));
            }
            i = i + m;
            start = i;
        } else {
            i = i + 1;
        }
    }
    proof {
        assert(find_from(s@, p@, i as int) == -1);
    }
    r.append(s.substring_char(start, n));
    r
}

/// The `{{key}}` placeholder of a template.
pub open spec fn placeholder(key: Seq<char>) -> Seq<char> {
    "{{"@ + key + "}}"@
}

/// A template with each placeholder replaced in turn by its value.
pub open spec fn render_spec(template: Seq<char>, values: Seq<(Seq<char>, Seq<char>)>) -> Seq<char>
    decreases values.len(),
{
    if values.len() == 0 {
        template
    } else {
        replace_all(render_spec(template, values.drop_last()), placeholder(values.last().0), values.last().1)
    }
}

/// A template with each `{{key}}` placeholder replaced, in the order given,
/// by its value.
pub fn render_template(template: &str, values: &[(String, String)]) -> (r: String)
    ensures
        r@ == render_spec(template@, values@.map_values(|v: (String, String)| (v.0@, v.1@))),
{
    let ghost vs = values@.map_values(|v: (String, String)| (v.0@, v.1@));
    let mut rendered = owned(template);
    let mut i: usize = 0;
    proof {
        reveal_strlit("{{");
        reveal_strlit("}}");
    }
    while i < values.len()
        invariant
            i <= values@.len(),
            vs == values@.map_values(|v: (String, String)| (v.0@, v.1@)),
            rendered@ == render_spec(template@, vs.take(i as int)),
            "{{"@ == seq!['{', '{'],
        decreases values@.len() - i,
    {
        let mut key = concat("{{", values[i].0.as_str());
        key.append("}}");
        proof {
            assert(vs.take(i + 1).drop_last() =~= vs.take(i as int));
            assert(vs.take(i + 1).last() == vs[i as int]);
            assert(key@.len() >= 2);
        }
        rendered = replace_str(rendered.as_str(), key.as_str(), values[i].1.as_str());
        i = i + 1;
    }
    proof {
        assert(vs.take(values@.len() as int) =~= vs);
    }
    rendered
}


/// The three SteamPipe templates, as read from the source root.
#[derive(Debug, Clone)]
pub struct SteamPipeTemplates {
    /// The app build script template.
    pub app_build: String,
    /// The template of one depot entry of the app build script.
    pub app_build_depot_entry: String,
    /// The depot build script template.
    pub depot_build: String,
}

/// Where the templates live under a source root.
pub fn template_dir(source_root: &str) -> (r: String)
    ensures
        r@ == join(source_root@, STEAMPIPE_TEMPLATE_ROOT@),
{
    join_path(source_root, STEAMPIPE_TEMPLATE_ROOT)
}

/// The error when a template cannot be read.
pub fn template_read_error(path: &str, error: &str) -> (r: String)
    ensures
        r@ == "failed to read SteamPipe template '"@ + path@ + "': "@ + error@
            + "\nhelp: keep Vapor-Root SteamPipe templates checked in under "@ + STEAMPIPE_TEMPLATE_ROOT@,
{
    let mut e = concat3("failed to read SteamPipe template '", path, "': ");
    e.append(error);
    e.append("\nhelp: keep Vapor-Root SteamPipe templates checked in under ");
    e.append(STEAMPIPE_TEMPLATE_ROOT);
    e
}

/// The SteamPipe build scripts of a publication: where they go and what
/// they hold.
#[derive(Debug)]
pub struct BuildScripts {
    /// Directory of the scripts.
    pub scripts_dir: String,
    /// Directory SteamPipe builds into.
    pub output_dir: String,
    /// The app build script's path.
    pub app_script: String,
    /// The app build script.
    pub app_vdf: String,
    /// Each depot build script's path and text, in depot order.
    pub depot_scripts: Vec<(String, String)>,
}

/// The line that marks a preview build.
pub open spec fn preview_line(preview: bool) -> Seq<char> {
    if preview { "    \"Preview\" \"1\"\n"@ } else { Seq::empty() }
}

/// Path of a depot's build script.
pub open spec fn depot_script_path(scripts: Seq<char>, id: nat) -> Seq<char> {
    join(scripts, "depot_build_"@ + decimal(id) + ".vdf"@)
}

/// A depot's build script, and its entry in the app build script.
pub open spec fn depot_parts(t: SteamPipeTemplates, scripts: Seq<char>, id: nat, root: Seq<char>) -> (Seq<char>, Seq<char>) {
    (
        render_spec(t.depot_build@, seq![("depot_id"@, decimal(id)), ("content_root"@, escape_spec(root))]),
        render_spec(t.app_build_depot_entry@, seq![("depot_id"@, decimal(id)), ("depot_build_script"@, escape_spec(depot_script_path(scripts, id)))]),
    )
}

/// The concatenated depot entries of the app build script.
pub open spec fn depot_entries_spec(t: SteamPipeTemplates, scripts: Seq<char>, app: crate::distribution::Application, ds: Seq<DepotStage>) -> Seq<char>
    decreases ds.len(),
{
    if ds.len() == 0 {
        Seq::empty()
    } else {
        depot_entries_spec(t, scripts, app, ds.drop_last())
            + depot_parts(t, scripts, depot_of(app.depots.unwrap(), ds.last().kind).id as nat, ds.last().root@).1
    }
}

/// The depot build scripts, path and text, in depot order.
pub open spec fn depot_scripts_spec(t: SteamPipeTemplates, scripts: Seq<char>, app: crate::distribution::Application, ds: Seq<DepotStage>) -> Seq<(Seq<char>, Seq<char>)> {
    ds.map_values(|d: DepotStage| {
        let id = depot_of(app.depots.unwrap(), d.kind).id as nat;
        (depot_script_path(scripts, id), depot_parts(t, scripts, id, d.root@).0)
    })
}

/// The app build script.
pub open spec fn app_vdf_spec(t: SteamPipeTemplates, installation_root: Seq<char>, app: crate::distribution::Application, stage: StageReport, branch: Seq<char>, description: Seq<char>, preview: bool) -> Seq<char> {
    let scripts = join(installation_root, "output/root/scripts"@);
    let output = join(installation_root, "output/root/steam-build"@);
    render_spec(t.app_build@, seq![
        ("app_id"@, decimal(app.app_id as nat)),
        ("description"@, escape_spec(description)),
        ("preview_line"@, preview_line(preview)),
        ("branch"@, escape_spec(branch)),
        ("content_root"@, escape_spec(stage.root@)),
        ("build_output"@, escape_spec(output)),
        ("depot_entries"@, depot_entries_spec(t, scripts, app, stage.depots@)),
    ])
}

fn pair(k: &str, v: String) -> (r: (String, String))
    ensures
        r.0@ == k@,
        r.1@ == v@,
{
    (owned(k), v)
}

/// The SteamPipe build scripts for a staged application: one depot build
/// script per staged depot under `output/root/scripts`, and the app build
/// script naming them, its branch, description, staged root and build
/// output, marked as a preview for a dry run.
pub fn build_scripts(
    installation_root: &str,
    manifest: &DistributionManifest,
    stage: &StageReport,
    branch: &str,
    description: &str,
    preview: bool,
    templates: &SteamPipeTemplates,
) -> (r: BuildScripts)
    requires
        manifest.application.depots.is_some(),
    ensures
        r.scripts_dir@ == join(installation_root@, "output/root/scripts"@),
        r.output_dir@ == join(installation_root@, "output/root/steam-build"@),
        r.app_script@ == join(r.scripts_dir@, "app_build_"@ + decimal(manifest.application.app_id as nat) + ".vdf"@),
        r.app_vdf@ == app_vdf_spec(*templates, installation_root@, manifest.application, *stage, branch@, description@, preview),
        r.depot_scripts@.map_values(|p: (String, String)| (p.0@, p.1@))
            == depot_scripts_spec(*templates, r.scripts_dir@, manifest.application, stage.depots@),
{
    let app = manifest.application();
    let scripts = join_path(installation_root, "output/root/scripts");
    let output = join_path(installation_root, "output/root/steam-build");
    let app_id_text = decimal_string(app.app_id() as u64);
    let mut app_name = concat("app_build_", app_id_text.as_str());
    app_name.append(".vdf");
    let app_script = join_path(scripts.as_str(), app_name.as_str());
    let depots = stage.depots();
    let mut entries = String::new();
    let mut depot_scripts: Vec<(String, String)> = Vec::new();
    let mut i: usize = 0;
    while i < depots.len()
        invariant
            i <= depots@.len(),
            depots@ == stage.depots@,
            *app == manifest.application,
            app.depots.is_some(),
            entries@ == depot_entries_spec(*templates, scripts@, *app, depots@.take(i as int)),
            depot_scripts@.map_values(|p: (String, String)| (p.0@, p.1@)) == depot_scripts_spec(*templates, scripts@, *app, depots@.take(i as int)),
        decreases depots@.len() - i,
    {
        let d = &depots[i];
        let id = app.depot_id(d.kind());
        let id_text = decimal_string(id as u64);
        let mut script_name = concat("depot_build_", id_text.as_str());
        script_name.append(".vdf");
        let depot_script = join_path(scripts.as_str(), script_name.as_str());
        let depot_values = vec![pair("depot_id", id_text.clone()), pair("content_root", escape(d.root()))];
        let depot_vdf = render_template(templates.depot_build.as_str(), depot_values.as_slice());
        let entry_values = vec![pair("depot_id", id_text.clone()), pair("depot_build_script", escape(depot_script.as_str()))];
        let entry = render_template(templates.app_build_depot_entry.as_str(), entry_values.as_slice());
        proof {
            assert(depot_values@.map_values(|v: (String, String)| (v.0@, v.1@))
                =~= seq![("depot_id"@, decimal(id as nat)), ("content_root"@, escape_spec(d.root@))]);
            assert(entry_values@.map_values(|v: (String, String)| (v.0@, v.1@))
                =~= seq![("depot_id"@, decimal(id as nat)), ("depot_build_script"@, escape_spec(depot_script_path(scripts@, id as nat)))]);
            assert(depots@.take(i + 1).drop_last() =~= depots@.take(i as int));
            assert(depots@.take(i + 1).last() == *d);
        }
        let ghost old_scripts = depot_scripts@;
        entries.append(entry.as_str());
        depot_scripts.push((depot_script, depot_vdf));
        proof {
            assert(depot_scripts@.map_values(|p: (String, String)| (p.0@, p.1@))
                =~= old_scripts.map_values(|p: (String, String)| (p.0@, p.1@)).push((depot_script_path(scripts@, id as nat), depot_parts(*templates, scripts@, id as nat, d.root@).0)));
            assert(depot_scripts_spec(*templates, scripts@, *app, depots@.take(i + 1))
                =~= depot_scripts_spec(*templates, scripts@, *app, depots@.take(i as int)).push((depot_script_path(scripts@, id as nat), depot_parts(*templates, scripts@, id as nat, d.root@).0)));
        }
        i = i + 1;
    }
    proof {
        assert(depots@.take(depots@.len() as int) =~= depots@);
    }
    let preview_text = if preview { owned("    \"Preview\" \"1\"\n") } else { String::new() };
    let values = vec![
        pair("app_id", app_id_text),
        pair("description", escape(description)),
        pair("preview_line", preview_text),
        pair("branch", escape(branch)),
        pair("content_root", escape(stage.root())),
        pair("build_output", escape(output.as_str())),
        pair("depot_entries", entries),
    ];
    proof {
        assert(values@.map_values(|v: (String, String)| (v.0@, v.1@)) =~= seq![
            ("app_id"@, decimal(app.app_id as nat)),
            ("description"@, escape_spec(description@)),
            ("preview_line"@, preview_line(preview)),
            ("branch"@, escape_spec(branch@)),
            ("content_root"@, escape_spec(stage.root@)),
            ("build_output"@, escape_spec(output@)),
            ("depot_entries"@, depot_entries_spec(*templates, scripts@, *app, stage.depots@)),
        ]);
    }
    let app_vdf = render_template(templates.app_build.as_str(), values.as_slice());
    BuildScripts { scripts_dir: scripts, output_dir: output, app_script, app_vdf, depot_scripts }
}


/// Undo VDF escaping, reading from the end.
pub open spec fn unescape_spec(s: Seq<char>) -> Seq<char>
    decreases s.len(),
{
    if s.len() == 0 {
        Seq::empty()
    } else if s.len() >= 2 && (s.last() == '\\' || s.last() == '"') {
        unescape_spec(s.subrange(0, s.len() - 2)).push(s.last())
    } else {
        unescape_spec(s.drop_last()).push(s.last())
    }
}

/// Escaping loses nothing: unescaping an escaped value gives the value back,
/// so distinct values stay distinct in the build scripts.
pub proof fn law_escape_round_trip(value: Seq<char>)
    ensures
        unescape_spec(escape_spec(value)) == value,
    decreases value.len(),
{
    if value.len() > 0 {
        law_escape_round_trip(value.drop_last());
        let e = escape_spec(value);
        let prefix = escape_spec(value.drop_last());
        if value.last() == '\\' || value.last() == '"' {
            assert(e.subrange(0, e.len() - 2) =~= prefix);
        } else {
            assert(e.drop_last() =~= prefix);
        }
        assert(value.drop_last().push(value.last()) =~= value);
    }
}

} // verus!
