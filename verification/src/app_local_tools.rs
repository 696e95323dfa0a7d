//! Readiness of the app-local tools that the installer manages (Rust/Cargo,
//! Git, the portable cross-linkers, SteamCMD), and the preflight check that
//! names what a command is missing without installing anything.

use vstd::prelude::*;
use crate::text::{string_views, joined, join_strings, str_eq, starts_with, contains, has_prefix, has_infix, concat, concat3,
    concat4, concat5, owned};

verus! {

/// App-local tool requirement used by command preflight checks.
#[derive(Debug, Clone, Copy, PartialEq, Eq, Structural)]
pub enum AppToolRequirement {
    /// Rustup, Cargo, Rustc, Rustfmt, Clippy, and Rustdoc.
    Rust,
    /// Portable Git distribution.
    Git,
    /// Portable Zig-based cross-linker wrappers.
    CrossToolchains,
    /// SteamCMD distribution.
    SteamCmd,
}

/// Diagnostic name of a tool group.
pub open spec fn requirement_label(r: AppToolRequirement) -> Seq<char> {
    match r {
        AppToolRequirement::Rust => "Rust/Cargo"@,
        AppToolRequirement::Git => "Git"@,
        AppToolRequirement::CrossToolchains => "Zig/Cross"@,
        AppToolRequirement::SteamCmd => "SteamCMD"@,
    }
}

impl AppToolRequirement {
    /// Human-readable tool-group name used in diagnostics.
    pub fn label(self) -> (r: &'static str)
        ensures
            r@ == requirement_label(self),
    {
        match self {
            AppToolRequirement::Rust => "Rust/Cargo",
            AppToolRequirement::Git => "Git",
            AppToolRequirement::CrossToolchains => "Zig/Cross",
            AppToolRequirement::SteamCmd => "SteamCMD",
        }
    }
}

/// Health of one required app-local tool group.
#[derive(Debug, Clone)]
pub struct AppToolComponentStatus {
    /// Human-readable tool-group name.
    pub label: String,
    /// Whether every required executable is present.
    pub installed: bool,
    /// Primary expected executable or setup directory.
    pub path: String,
    /// Missing executable names within the group.
    pub missing: Vec<String>,
}

impl AppToolComponentStatus {
    /// Human-readable tool-group name.
    pub fn label(&self) -> (r: &str)
        ensures
            r@ == self.label@,
    {
        self.label.as_str()
    }

    /// Whether every required executable is present.
    pub fn installed(&self) -> (r: bool)
        ensures
            r == self.installed,
    {
        self.installed
    }

    /// Primary expected executable or setup directory.
    pub fn path(&self) -> (r: &str)
        ensures
            r@ == self.path@,
    {
        self.path.as_str()
    }

    /// Missing executable names within this group.
    pub fn missing(&self) -> (r: &[String])
        ensures
            r@ == self.missing@,
    {
        self.missing.as_slice()
    }
}

/// Complete status of Rust, Git, cross-linkers, and SteamCMD.
#[derive(Debug, Clone)]
pub struct AppToolStatus {
    /// App-local Rust status.
    pub rust: AppToolComponentStatus,
    /// App-local Git status.
    pub git: AppToolComponentStatus,
    /// App-local cross-linker status.
    pub cross: AppToolComponentStatus,
    /// App-local SteamCMD status.
    pub steamcmd: AppToolComponentStatus,
}

/// The status of one tool group.
pub open spec fn component(s: AppToolStatus, r: AppToolRequirement) -> AppToolComponentStatus {
    match r {
        AppToolRequirement::Rust => s.rust,
        AppToolRequirement::Git => s.git,
        AppToolRequirement::CrossToolchains => s.cross,
        AppToolRequirement::SteamCmd => s.steamcmd,
    }
}

impl AppToolStatus {
    /// App-local Rust status.
    pub fn rust(&self) -> (r: &AppToolComponentStatus)
        ensures
            *r == self.rust,
    {
        &self.rust
    }

    /// App-local Git status.
    pub fn git(&self) -> (r: &AppToolComponentStatus)
        ensures
            *r == self.git,
    {
        &self.git
    }

    /// App-local portable cross-linker status.
    pub fn cross_toolchains(&self) -> (r: &AppToolComponentStatus)
        ensures
            *r == self.cross,
    {
        &self.cross
    }

    /// App-local SteamCMD status.
    pub fn steamcmd(&self) -> (r: &AppToolComponentStatus)
        ensures
            *r == self.steamcmd,
    {
        &self.steamcmd
    }

    /// Whether every developer tool group is installed.
    pub fn complete(&self) -> (r: bool)
        ensures
            r == (self.rust.installed && self.git.installed && self.cross.installed && self.steamcmd.installed),
    {
        self.rust.installed && self.git.installed && self.cross.installed && self.steamcmd.installed
    }

    /// Status of one requested tool group.
    pub fn requirement(&self, requirement: AppToolRequirement) -> (r: &AppToolComponentStatus)
        ensures
            *r == component(*self, requirement),
    {
        match requirement {
            AppToolRequirement::Rust => &self.rust,
            AppToolRequirement::Git => &self.git,
            AppToolRequirement::CrossToolchains => &self.cross,
            AppToolRequirement::SteamCmd => &self.steamcmd,
        }
    }
}

/// The requirements of `reqs` whose tools are not installed, in order.
pub open spec fn missing_requirements(s: AppToolStatus, reqs: Seq<AppToolRequirement>) -> Seq<AppToolRequirement>
    decreases reqs.len(),
{
    if reqs.len() == 0 {
        Seq::empty()
    } else if component(s, reqs.last()).installed {
        missing_requirements(s, reqs.drop_last())
    } else {
        missing_requirements(s, reqs.drop_last()).push(reqs.last())
    }
}

/// One line of the missing-tools listing.
pub open spec fn missing_line(c: AppToolComponentStatus) -> Seq<char> {
    "  - "@ + c.label@ + ": missing "@ + joined(string_views(c.missing@), ", "@) + " (primary path "@ + c.path@ + ")"@
}

/// The labels of `reqs`.
pub open spec fn labels_of(reqs: Seq<AppToolRequirement>) -> Seq<Seq<char>> {
    Seq::new(reqs.len(), |i: int| requirement_label(reqs[i]))
}

/// The missing-tools lines of `reqs`.
pub open spec fn lines_of(s: AppToolStatus, reqs: Seq<AppToolRequirement>) -> Seq<Seq<char>> {
    Seq::new(reqs.len(), |i: int| missing_line(component(s, reqs[i])))
}

/// The preflight error for `action` when tools are missing.
pub open spec fn msg_tools_missing(s: AppToolStatus, missing: Seq<AppToolRequirement>, action: Seq<char>) -> Seq<char> {
    "cannot "@ + action + ": the app-local "@ + joined(labels_of(missing), ", "@) + (if missing.len() == 1 { " is"@ } else { " are"@ })
        + " not installed\n"@ + joined(lines_of(s, missing), "\n"@)
        + "\nhelp: player-mode tooling uses `vapor-installer install --app-root <app-root>`\nhelp: development tooling uses `vapor-installer dev-env install --app-root <app-root>`\nnote: this command will not install prerequisites automatically"@
}

fn missing_line_text(c: &AppToolComponentStatus) -> (r: String)
    ensures
        r@ == missing_line(*c),
{
    let list = join_strings(c.missing.as_slice(), ", ");
    let head = concat4("  - ", c.label.as_str(), ": missing ", list.as_str());
    concat4(head.as_str(), " (primary path ", c.path.as_str(), ")")
}

/// Require the tools of `requirements` without installing anything; the
/// error names every missing group and where it was expected.
pub fn require_status(status: &AppToolStatus, requirements: &[AppToolRequirement], action: &str) -> (r: Result<(), String>)
    ensures
        missing_requirements(*status, requirements@).len() == 0 ==> r is Ok,
        missing_requirements(*status, requirements@).len() > 0 ==> (r matches Err(e)
            && e@ == msg_tools_missing(*status, missing_requirements(*status, requirements@), action@)),
{
    let mut missing: Vec<AppToolRequirement> = Vec::new();
    let mut i: usize = 0;
    while i < requirements.len()
        invariant
            i <= requirements@.len(),
            missing@ == missing_requirements(*status, requirements@.take(i as int)),
        decreases requirements@.len() - i,
    {
        proof {
            assert(requirements@.take(i + 1).drop_last() =~= requirements@.take(i as int));
            assert(requirements@.take(i + 1).last() == requirements@[i as int]);
        }
        let req = requirements[i];
        if !status.requirement(req).installed {
            missing.push(req);
        }
        i = i + 1;
    }
    proof {
        assert(requirements@.take(requirements@.len() as int) =~= requirements@);
    }
    if missing.len() == 0 {
        return Ok(());
    }
    let mut labels: Vec<String> = Vec::new();
    let mut lines: Vec<String> = Vec::new();
    let mut k: usize = 0;
    while k < missing.len()
        invariant
            k <= missing@.len(),
            string_views(labels@) == labels_of(missing@).take(k as int),
            string_views(lines@) == lines_of(*status, missing@).take(k as int),
        decreases missing@.len() - k,
    {
        let req = missing[k];
        let ghost before_labels = string_views(labels@);
        let ghost before_lines = string_views(lines@);
        let label = req.label().to_owned();
        let line = missing_line_text(status.requirement(req));
        labels.push(label);
        lines.push(line);
        proof {
            assert(string_views(labels@) =~= before_labels.push(label@));
            assert(string_views(lines@) =~= before_lines.push(line@));
            assert(labels_of(missing@).take(k + 1) =~= labels_of(missing@).take(k as int).push(requirement_label(req)));
            assert(lines_of(*status, missing@).take(k + 1) =~= lines_of(*status, missing@).take(k as int).push(missing_line(component(*status, req))));
            assert(string_views(labels@) =~= labels_of(missing@).take(k + 1));
            assert(string_views(lines@) =~= lines_of(*status, missing@).take(k + 1));
        }
        k = k + 1;
    }
    proof {
        assert(labels_of(missing@).take(missing@.len() as int) =~= labels_of(missing@));
        assert(lines_of(*status, missing@).take(missing@.len() as int) =~= lines_of(*status, missing@));
    }
    let label_text = join_strings(labels.as_slice(), ", ");
    let verb = if missing.len() == 1 { " is" } else { " are" };
    let line_text = join_strings(lines.as_slice(), "\n");
    let mut e = concat5("cannot ", action, ": the app-local ", label_text.as_str(), verb);
    e.append(" not installed\n");
    e.append(line_text.as_str());
    e.append("\nhelp: player-mode tooling uses `vapor-installer install --app-root <app-root>`\nhelp: development tooling uses `vapor-installer dev-env install --app-root <app-root>`\nnote: this command will not install prerequisites automatically");
    Err(e)
}

/// A small script that only hands over to a system Git: a shebang script
/// that `exec`s `/usr/bin/git` or ` git`.
pub open spec fn delegating_git_script(len: nat, source: Seq<char>) -> bool {
    len <= 4096 && has_prefix(source, "#!"@) && has_infix(source, "exec"@)
        && (has_infix(source, "/usr/bin/git"@) || has_infix(source, " git"@))
}

/// Whether a Git executable of `len` bytes whose text is `source` only
/// delegates to the system Git.
pub fn is_delegating_git_script(len: u64, source: &str) -> (r: bool)
    ensures
        r == delegating_git_script(len as nat, source@),
{
    len <= 4096 && starts_with(source, "#!") && contains(source, "exec")
        && (contains(source, "/usr/bin/git") || contains(source, " git"))
}

/// Index of the first toolchain with nothing missing, or -1.
pub open spec fn first_complete(missing: Seq<Vec<String>>) -> int
    decreases missing.len(),
{
    if missing.len() == 0 {
        -1
    } else if missing[0]@.len() == 0 {
        0
    } else if first_complete(missing.drop_first()) < 0 {
        -1
    } else {
        first_complete(missing.drop_first()) + 1
    }
}

proof fn lemma_first_complete(missing: Seq<Vec<String>>)
    ensures
        -1 <= first_complete(missing) < missing.len(),
        first_complete(missing) >= 0 ==> missing[first_complete(missing)]@.len() == 0,
        forall|k: int| 0 <= k < missing.len() && (first_complete(missing) < 0 || k < first_complete(missing))
            ==> (#[trigger] missing[k])@.len() > 0,
    decreases missing.len(),
{
    if missing.len() > 0 && missing[0]@.len() > 0 {
        lemma_first_complete(missing.drop_first());
        assert forall|k: int| 1 <= k < missing.len() implies missing[k] == missing.drop_first()[k - 1] by {}
    }
}

/// The Rust toolchain an inspection settles on, given the toolchain `bin`
/// directories in sorted order and the required tools missing in each: the
/// first complete one with nothing missing; else the first directory (if
/// any) with every required tool reported missing.
pub fn choose_rust_toolchain(candidates: &[String], missing: &[Vec<String>]) -> (r: (Option<String>, Vec<String>))
    requires
        candidates@.len() == missing@.len(),
    ensures
        first_complete(missing@) >= 0 ==> (r.0 matches Some(c) && c@ == candidates@[first_complete(missing@)]@ && r.1@.len() == 0),
        first_complete(missing@) < 0 ==> (string_views(r.1@) == required_rust_tools() && (if candidates@.len() > 0 {
            r.0 matches Some(c) && c@ == candidates@[0]@
        } else {
            r.0.is_none()
        })),
{
    proof {
        lemma_first_complete(missing@);
    }
    let mut i: usize = 0;
    while i < missing.len()
        invariant
            i <= missing@.len(),
            candidates@.len() == missing@.len(),
            forall|k: int| 0 <= k < i ==> (#[trigger] missing@[k])@.len() > 0,
            -1 <= first_complete(missing@) < missing@.len(),
            first_complete(missing@) >= 0 ==> missing@[first_complete(missing@)]@.len() == 0,
            forall|k: int| 0 <= k < missing@.len() && (first_complete(missing@) < 0 || k < first_complete(missing@))
                ==> (#[trigger] missing@[k])@.len() > 0,
        decreases missing@.len() - i,
    {
        if missing[i].len() == 0 {
            return (Some(candidates[i].clone()), Vec::new());
        }
        i = i + 1;
    }
    let required = vec![owned("cargo"), owned("rustc"), owned("rustfmt"), owned("cargo-clippy"), owned("rustdoc")];
    proof {
        assert(string_views(required@) =~= required_rust_tools());
    }
    if candidates.len() > 0 {
        (Some(candidates[0].clone()), required)
    } else {
        (None, required)
    }
}

/// The Rust tools every toolchain must provide.
pub open spec fn required_rust_tools() -> Seq<Seq<char>> {
    seq!["cargo"@, "rustc"@, "rustfmt"@, "cargo-clippy"@, "rustdoc"@]
}

/// What an inspection of the app root observed, tool by tool.
pub struct ToolObservations {
    /// Toolchain `bin` chosen by [`choose_rust_toolchain`], if any.
    pub rust_bin: Option<String>,
    /// Rust tools missing from it.
    pub rust_missing: Vec<String>,
    /// The toolchains directory.
    pub toolchains: String,
    /// Expected rustup executable.
    pub rustup: String,
    /// Whether that rustup is an executable file.
    pub rustup_executable: bool,
    /// Git candidates in order: path, whether it runs as a healthy app-owned
    /// Git, whether it is a script delegating to the system Git.
    pub git_candidates: Vec<(String, bool, bool)>,
    /// Git path to report when no candidate is healthy.
    pub preferred_git: String,
    /// SteamCMD path: the first executable candidate, else the default.
    pub steam_path: String,
    /// Whether that SteamCMD is an executable file.
    pub steam_executable: bool,
    /// Status of the portable cross-linkers.
    pub cross: AppToolComponentStatus,
}

/// Index of the first healthy Git candidate, or -1.
pub open spec fn first_healthy(c: Seq<(String, bool, bool)>) -> int
    decreases c.len(),
{
    if c.len() == 0 {
        -1
    } else if c[0].1 {
        0
    } else if first_healthy(c.drop_first()) < 0 {
        -1
    } else {
        first_healthy(c.drop_first()) + 1
    }
}

proof fn lemma_first_healthy(c: Seq<(String, bool, bool)>)
    ensures
        -1 <= first_healthy(c) < c.len(),
        first_healthy(c) >= 0 ==> c[first_healthy(c)].1,
        first_healthy(c) < 0 ==> forall|k: int| 0 <= k < c.len() ==> !(#[trigger] c[k]).1,
        forall|k: int| 0 <= k < c.len() && k < first_healthy(c) ==> !(#[trigger] c[k]).1,
    decreases c.len(),
{
    if c.len() > 0 && !c[0].1 {
        lemma_first_healthy(c.drop_first());
        assert forall|k: int| 1 <= k < c.len() implies c[k] == c.drop_first()[k - 1] by {}
    }
}

/// What an inspection of the observations `o` reports.
pub open spec fn inspected(o: ToolObservations, s: AppToolStatus) -> bool {
    &&& s.rust.label@ == "Rust/Cargo"@
    &&& string_views(s.rust.missing@) == string_views(o.rust_missing@) + (if o.rustup_executable {
            Seq::<Seq<char>>::empty()
        } else {
            seq!["rustup (expected at "@ + o.rustup@ + ")"@]
        })
    &&& s.rust.installed == (s.rust.missing@.len() == 0)
    &&& s.rust.path@ == (match o.rust_bin { Some(b) => b@, None => o.toolchains@ })
    &&& s.git.label@ == "Git"@
    &&& s.git.installed == (first_healthy(o.git_candidates@) >= 0)
    &&& s.git.path@ == (if first_healthy(o.git_candidates@) >= 0 {
            o.git_candidates@[first_healthy(o.git_candidates@)].0@
        } else {
            o.preferred_git@
        })
    &&& string_views(s.git.missing@) == (if first_healthy(o.git_candidates@) >= 0 {
            Seq::<Seq<char>>::empty()
        } else if exists|k: int| 0 <= k < o.git_candidates@.len() && (#[trigger] o.git_candidates@[k]).2 {
            seq!["app-owned Git executable (replace delegating script)"@]
        } else {
            seq!["git"@]
        })
    &&& s.steamcmd.label@ == "SteamCMD"@
    &&& s.steamcmd.installed == o.steam_executable
    &&& s.steamcmd.path == o.steam_path
    &&& string_views(s.steamcmd.missing@) == (if o.steam_executable { Seq::<Seq<char>>::empty() } else { seq!["steamcmd"@] })
    &&& s.cross.label@ == "Zig/Cross"@
    &&& s.cross.installed == o.cross.installed
    &&& s.cross.path == o.cross.path
    &&& s.cross.missing@ == o.cross.missing@
}

/// Assemble the tool status from what an inspection observed.
pub fn inspect(o: ToolObservations) -> (r: AppToolStatus)
    ensures
        inspected(o, r),
{
    let ToolObservations {
        rust_bin, rust_missing, toolchains, rustup, rustup_executable, git_candidates, preferred_git, steam_path,
        steam_executable, cross,
    } = o;
    let mut missing = rust_missing;
    let ghost before = string_views(missing@);
    if !rustup_executable {
        let m = concat3("rustup (expected at ", rustup.as_str(), ")");
        missing.push(m);
        proof {
            assert(string_views(missing@) =~= before + seq![m@]);
        }
    } else {
        proof {
            assert(string_views(missing@) =~= before + Seq::<Seq<char>>::empty());
        }
    }
    let rust_installed = missing.len() == 0;
    let rust_path = match rust_bin {
        Some(b) => b,
        None => toolchains,
    };
    let rust = AppToolComponentStatus { label: owned("Rust/Cargo"), installed: rust_installed, path: rust_path, missing };

    proof {
        lemma_first_healthy(git_candidates@);
    }
    let mut found: Option<usize> = None;
    let mut delegating = false;
    let mut i: usize = 0;
    while i < git_candidates.len()
        invariant
            i <= git_candidates@.len(),
            -1 <= first_healthy(git_candidates@) < git_candidates@.len(),
            first_healthy(git_candidates@) >= 0 ==> git_candidates@[first_healthy(git_candidates@)].1,
            first_healthy(git_candidates@) < 0 ==> forall|k: int| 0 <= k < git_candidates@.len() ==> !(#[trigger] git_candidates@[k]).1,
            forall|k: int| 0 <= k < git_candidates@.len() && k < first_healthy(git_candidates@) ==> !(#[trigger] git_candidates@[k]).1,
            match found {
                Some(f) => f as int == first_healthy(git_candidates@),
                None => forall|k: int| 0 <= k < i ==> !(#[trigger] git_candidates@[k]).1,
            },
            delegating == (exists|k: int| 0 <= k < i && (#[trigger] git_candidates@[k]).2),
        decreases git_candidates@.len() - i,
    {
        if found.is_none() && git_candidates[i].1 {
            found = Some(i);
        }
        if git_candidates[i].2 {
            delegating = true;
        }
        i = i + 1;
    }
    let git_installed = found.is_some();
    let git_path = match found {
        Some(f) => git_candidates[f].0.clone(),
        None => preferred_git,
    };
    let git_missing: Vec<String> = if git_installed {
        Vec::new()
    } else if delegating {
        vec![owned("app-owned Git executable (replace delegating script)")]
    } else {
        vec![owned("git")]
    };
    proof {
        if git_installed {
            assert(string_views(git_missing@) =~= Seq::<Seq<char>>::empty());
        } else if delegating {
            assert(string_views(git_missing@) =~= seq!["app-owned Git executable (replace delegating script)"@]);
        } else {
            assert(string_views(git_missing@) =~= seq!["git"@]);
        }
    }
    let git = AppToolComponentStatus { label: owned("Git"), installed: git_installed, path: git_path, missing: git_missing };

    let steam_missing: Vec<String> = if steam_executable { Vec::new() } else { vec![owned("steamcmd")] };
    proof {
        if steam_executable {
            assert(string_views(steam_missing@) =~= Seq::<Seq<char>>::empty());
        } else {
            assert(string_views(steam_missing@) =~= seq!["steamcmd"@]);
        }
    }
    let steamcmd = AppToolComponentStatus { label: owned("SteamCMD"), installed: steam_executable, path: steam_path, missing: steam_missing };
    let cross = AppToolComponentStatus { label: owned("Zig/Cross"), installed: cross.installed, path: cross.path, missing: cross.missing };
    AppToolStatus { rust, git, cross, steamcmd }
}


/// Inspect the installation's app-local tools and require the selected
/// groups for `action`.
pub fn require(observations: ToolObservations, requirements: &[AppToolRequirement], action: &str) -> (r: Result<(), String>)
    ensures
        exists|s: AppToolStatus| #[trigger] inspected(observations, s)
            && (missing_requirements(s, requirements@).len() == 0 ==> r is Ok)
            && (missing_requirements(s, requirements@).len() > 0 ==> (r matches Err(e)
                && e@ == msg_tools_missing(s, missing_requirements(s, requirements@), action@))),
{
    let ghost o = observations;
    let status = inspect(observations);
    let r = require_status(&status, requirements, action);
    assert(inspected(o, status));
    r
}

} // verus!
