//! Cargo workflows routed through the installation's own toolchain: which
//! Cargo workspaces a selection names, which Cargo steps a workflow expands
//! into, the exact command line of each step, and how a finished step is
//! reported.

use vstd::prelude::*;
use crate::text::{trim, trim_str, str_eq, owned, concat, concat3, concat4, concat5, is_lower, is_digit, char_is_lower, char_is_digit};
use crate::paths::{join, join_path};
use crate::workspace::{CargoProject, WorkspaceManifest};

verus! {

/// Dynamic Cargo workspace selection.
#[derive(Debug, Clone, PartialEq, Eq)]
pub enum ProjectSelection {
    /// Every Cargo workspace discovered for this source root.
    All,
    /// One named Cargo workspace discovered from the active source root.
    One(String),
}

/// Character allowed in a kebab-case Cargo workspace name.
pub open spec fn is_kebab_char(c: char) -> bool {
    is_lower(c) || is_digit(c) || c == '-'
}

/// Message for a selection that is neither `all` nor a kebab-case name.
pub open spec fn msg_bad_selection() -> Seq<char> {
    "project must be `all` or a lowercase kebab-case Cargo workspace name"@
}

/// The selection a command-line value names, after trimming whitespace.
pub open spec fn selection_of(value: Seq<char>) -> Result<Seq<char>, Seq<char>> {
    let v = trim(value);
    if v.len() == 0 || exists|i: int| 0 <= i < v.len() && !is_kebab_char(#[trigger] v[i]) {
        Err(msg_bad_selection())
    } else {
        Ok(v)
    }
}

impl ProjectSelection {
    /// Parse `all` or one lowercase kebab-case Cargo workspace name.
    pub fn parse(value: &str) -> (r: Result<ProjectSelection, String>)
        ensures
            trim(value@) == "all"@ ==> r == Ok::<ProjectSelection, String>(ProjectSelection::All),
            trim(value@) != "all"@ ==> match selection_of(value@) {
                Ok(v) => r matches Ok(ProjectSelection::One(n)) && n@ == v,
                Err(m) => r matches Err(e) && e@ == m,
            },
    {
        let v = trim_str(value);
        if str_eq(v, "all") {
            return Ok(ProjectSelection::All);
        }
        let n = v.unicode_len();
        if n == 0 {
            return Err(owned("project must be `all` or a lowercase kebab-case Cargo workspace name"));
        }
        let mut i: usize = 0;
        while i < n
            invariant
                n == v@.len(),
                v@ == trim(value@),
                trim(value@) != "all"@,
                i <= n,
                forall|k: int| 0 <= k < i ==> is_kebab_char(#[trigger] v@[k]),
            decreases n - i,
        {
            let c = v.get_char(i);
            if !(char_is_lower(c) || char_is_digit(c) || c == '-') {
                assert(!is_kebab_char(v@[i as int]));
                return Err(owned("project must be `all` or a lowercase kebab-case Cargo workspace name"));
            }
            i = i + 1;
        }
        Ok(ProjectSelection::One(v.to_owned()))
    }
}

impl std::str::FromStr for ProjectSelection {
    type Err = String;

    fn from_str(value: &str) -> Result<Self, Self::Err> {
        ProjectSelection::parse(value)
    }
}

/// Supported Cargo operation.
#[derive(Debug, Clone, Copy, PartialEq, Eq, Structural)]
pub enum CargoWorkflow {
    /// Apply Rustfmt.
    Fmt,
    /// Type-check all workspace targets.
    Check,
    /// Test all workspace targets.
    Test,
    /// Build every workspace package.
    Build,
    /// Check formatting, compile, test, lint, and build documentation.
    Validate,
}

/// Command-line name of a workflow.
pub open spec fn workflow_label(w: CargoWorkflow) -> Seq<char> {
    match w {
        CargoWorkflow::Fmt => "fmt"@,
        CargoWorkflow::Check => "check"@,
        CargoWorkflow::Test => "test"@,
        CargoWorkflow::Build => "build"@,
        CargoWorkflow::Validate => "validate"@,
    }
}

/// What to run after a workflow succeeds.
pub open spec fn workflow_hint(w: CargoWorkflow) -> Seq<char> {
    match w {
        CargoWorkflow::Fmt => "formatting completed; next run `vapor test`"@,
        CargoWorkflow::Check => "checking completed; next run `vapor test`"@,
        CargoWorkflow::Test => "tests completed; next run `vapor validate`"@,
        CargoWorkflow::Build => "build completed; use `vapor root build` to promote app binaries"@,
        CargoWorkflow::Validate => "validation passed; next run `vapor root build`"@,
    }
}

impl CargoWorkflow {
    /// Command-line name of the workflow.
    pub fn label(self) -> (r: &'static str)
        ensures
            r@ == workflow_label(self),
    {
        match self {
            CargoWorkflow::Fmt => "fmt",
            CargoWorkflow::Check => "check",
            CargoWorkflow::Test => "test",
            CargoWorkflow::Build => "build",
            CargoWorkflow::Validate => "validate",
        }
    }

    /// What to run after the workflow succeeds.
    pub fn next_hint(self) -> (r: &'static str)
        ensures
            r@ == workflow_hint(self),
    {
        match self {
            CargoWorkflow::Fmt => "formatting completed; next run `vapor test`",
            CargoWorkflow::Check => "checking completed; next run `vapor test`",
            CargoWorkflow::Test => "tests completed; next run `vapor validate`",
            CargoWorkflow::Build => "build completed; use `vapor root build` to promote app binaries",
            CargoWorkflow::Validate => "validation passed; next run `vapor root build`",
        }
    }
}

/// One Cargo invocation of a workflow.
#[derive(Debug, Clone, Copy, PartialEq, Eq, Structural)]
pub enum ValidationStep {
    /// The workflow itself (never `Validate`, which expands into steps).
    Workflow(CargoWorkflow),
    /// `cargo fmt --all -- --check`.
    FmtCheck,
    /// `cargo check`.
    Check,
    /// `cargo test`.
    Test,
    /// `cargo clippy` with warnings denied.
    Clippy,
    /// `cargo doc`.
    Doc,
}

/// Label printed before a step runs.
pub open spec fn step_label(s: ValidationStep) -> Seq<char> {
    match s {
        ValidationStep::Workflow(w) => workflow_label(w),
        ValidationStep::FmtCheck => "fmt --check"@,
        ValidationStep::Check => "check"@,
        ValidationStep::Test => "test"@,
        ValidationStep::Clippy => "clippy"@,
        ValidationStep::Doc => "doc"@,
    }
}

/// Cargo arguments of a step, before `--manifest-path`.
pub open spec fn step_cargo_args(s: ValidationStep) -> Seq<Seq<char>> {
    match s {
        ValidationStep::Workflow(CargoWorkflow::Fmt) => seq!["fmt"@, "--all"@],
        ValidationStep::Workflow(CargoWorkflow::Check) => seq!["check"@, "--workspace"@, "--all-targets"@, "--locked"@],
        ValidationStep::Check => seq!["check"@, "--workspace"@, "--all-targets"@, "--locked"@],
        ValidationStep::Workflow(CargoWorkflow::Test) => seq!["test"@, "--workspace"@, "--all-targets"@, "--locked"@],
        ValidationStep::Test => seq!["test"@, "--workspace"@, "--all-targets"@, "--locked"@],
        ValidationStep::Workflow(CargoWorkflow::Build) => seq!["build"@, "--workspace"@, "--locked"@],
        ValidationStep::Workflow(CargoWorkflow::Validate) => Seq::empty(),
        ValidationStep::FmtCheck => seq!["fmt"@, "--all"@],
        ValidationStep::Clippy => seq!["clippy"@, "--workspace"@, "--all-targets"@, "--locked"@],
        ValidationStep::Doc => seq!["doc"@, "--workspace"@, "--no-deps"@, "--locked"@],
    }
}

/// Arguments handed to the tool after `--`, if any.
pub open spec fn step_tool_args(s: ValidationStep) -> Seq<Seq<char>> {
    match s {
        ValidationStep::FmtCheck => seq!["--check"@],
        ValidationStep::Clippy => seq!["-D"@, "warnings"@],
        _ => Seq::empty(),
    }
}

/// The whole Cargo argument list of a step on one manifest.
pub open spec fn step_command(s: ValidationStep, manifest: Seq<char>) -> Seq<Seq<char>> {
    let base = step_cargo_args(s) + seq!["--manifest-path"@, manifest];
    if step_tool_args(s).len() == 0 { base } else { base + seq!["--"@] + step_tool_args(s) }
}

/// The steps a workflow runs on each selected Cargo workspace.
pub open spec fn workflow_steps(w: CargoWorkflow) -> Seq<ValidationStep> {
    if w == CargoWorkflow::Validate {
        seq![ValidationStep::FmtCheck, ValidationStep::Check, ValidationStep::Test, ValidationStep::Clippy, ValidationStep::Doc]
    } else {
        seq![ValidationStep::Workflow(w)]
    }
}

impl ValidationStep {
    /// Label printed before the step runs.
    pub fn label(self) -> (r: &'static str)
        ensures
            r@ == step_label(self),
    {
        match self {
            ValidationStep::Workflow(w) => w.label(),
            ValidationStep::FmtCheck => "fmt --check",
            ValidationStep::Check => "check",
            ValidationStep::Test => "test",
            ValidationStep::Clippy => "clippy",
            ValidationStep::Doc => "doc",
        }
    }

    /// The Cargo argument list of the step on the Cargo manifest at
    /// `manifest`: the subcommand and its flags, `--manifest-path`, and the
    /// tool's own arguments after `--` where it has any. `Validate` is never a
    /// step of its own.
    pub fn command(self, manifest: &str) -> (r: Vec<String>)
        requires
            self != ValidationStep::Workflow(CargoWorkflow::Validate),
        ensures
            r@.map_values(|s: String| s@) == step_command(self, manifest@),
    {
        let mut v: Vec<String> = Vec::new();
        match self {
            ValidationStep::Workflow(CargoWorkflow::Fmt) | ValidationStep::FmtCheck => {
                v.push(owned("fmt"));
                v.push(owned("--all"));
            },
            ValidationStep::Workflow(CargoWorkflow::Check) | ValidationStep::Check => {
                v.push(owned("check"));
                v.push(owned("--workspace"));
                v.push(owned("--all-targets"));
                v.push(owned("--locked"));
            },
            ValidationStep::Workflow(CargoWorkflow::Test) | ValidationStep::Test => {
                v.push(owned("test"));
                v.push(owned("--workspace"));
                v.push(owned("--all-targets"));
                v.push(owned("--locked"));
            },
            ValidationStep::Workflow(CargoWorkflow::Build) => {
                v.push(owned("build"));
                v.push(owned("--workspace"));
                v.push(owned("--locked"));
            },
            ValidationStep::Workflow(CargoWorkflow::Validate) => {},
            ValidationStep::Clippy => {
                v.push(owned("clippy"));
                v.push(owned("--workspace"));
                v.push(owned("--all-targets"));
                v.push(owned("--locked"));
            },
            ValidationStep::Doc => {
                v.push(owned("doc"));
                v.push(owned("--workspace"));
                v.push(owned("--no-deps"));
                v.push(owned("--locked"));
            },
        }
        proof {
            assert(v@.map_values(|s: String| s@) =~= step_cargo_args(self));
        }
        let ghost base = v@;
        v.push(owned("--manifest-path"));
        v.push(owned(manifest));
        match self {
            ValidationStep::FmtCheck => {
                v.push(owned("--"));
                v.push(owned("--check"));
            },
            ValidationStep::Clippy => {
                v.push(owned("--"));
                v.push(owned("-D"));
                v.push(owned("warnings"));
            },
            _ => {},
        }
        proof {
            let want = step_command(self, manifest@);
            assert(v@.map_values(|s: String| s@) =~= want);
        }
        v
    }
}

/// Message when the source root declares no Cargo workspaces.
pub open spec fn msg_no_cargo(id: Seq<char>) -> Seq<char> {
    "source root '"@ + id + "' declares no Cargo workspaces"@
}

/// Message when the selected Cargo workspace is not declared.
pub open spec fn msg_unknown_cargo(name: Seq<char>) -> Seq<char> {
    "source root does not declare Cargo workspace '"@ + name + "'"@
}

/// Index of the first Cargo workspace called `name`, if any.
pub open spec fn first_named(ps: Seq<CargoProject>, name: Seq<char>) -> Option<int> {
    if exists|i: int| 0 <= i < ps.len() && (#[trigger] ps[i]).name@ == name {
        let i = choose|i: int| 0 <= i < ps.len() && (#[trigger] ps[i]).name@ == name
            && forall|j: int| 0 <= j < i ==> (#[trigger] ps[j]).name@ != name;
        Some(i)
    } else {
        None
    }
}

/// Positions of the Cargo workspaces a selection names: all of them in
/// declaration order, or the first one with the selected name.
pub open spec fn selected_positions(m: WorkspaceManifest, s: ProjectSelection) -> Result<Seq<int>, Seq<char>> {
    match s {
        ProjectSelection::All => if m.cargo@.len() == 0 {
            Err(msg_no_cargo(m.id@))
        } else {
            Ok(Seq::new(m.cargo@.len(), |i: int| i))
        },
        ProjectSelection::One(name) => match first_named(m.cargo@, name@) {
            Some(i) => Ok(seq![i]),
            None => Err(msg_unknown_cargo(name@)),
        },
    }
}

proof fn lemma_first_named(ps: Seq<CargoProject>, name: Seq<char>, i: int)
    requires
        0 <= i < ps.len(),
        ps[i].name@ == name,
        forall|j: int| 0 <= j < i ==> (#[trigger] ps[j]).name@ != name,
    ensures
        first_named(ps, name) == Some(i),
{
    let k = choose|k: int| 0 <= k < ps.len() && (#[trigger] ps[k]).name@ == name
        && forall|j: int| 0 <= j < k ==> (#[trigger] ps[j]).name@ != name;
    assert(0 <= k < ps.len() && ps[k].name@ == name && forall|j: int| 0 <= j < k ==> (#[trigger] ps[j]).name@ != name);
    if k < i {
        assert(ps[k].name@ != name);
    }
    if i < k {
        assert(ps[i].name@ != name);
    }
}

/// Positions, in `manifest.cargo_projects()`, of the Cargo workspaces that
/// `selection` names.
pub fn selected_projects(manifest: &WorkspaceManifest, selection: &ProjectSelection) -> (r: Result<Vec<usize>, String>)
    ensures
        match selected_positions(*manifest, *selection) {
            Ok(p) => r matches Ok(v) && v@.map_values(|i: usize| i as int) == p,
            Err(m) => r matches Err(e) && e@ == m,
        },
{
    let projects = manifest.cargo_projects();
    match selection {
        ProjectSelection::All => {
            if projects.len() == 0 {
                return Err(concat3("source root '", manifest.id(), "' declares no Cargo workspaces"));
            }
            let mut v: Vec<usize> = Vec::new();
            let mut i: usize = 0;
            while i < projects.len()
                invariant
                    projects@ == manifest.cargo@,
                    i <= projects@.len(),
                    v@.len() == i,
                    forall|k: int| 0 <= k < i ==> #[trigger] v@[k] == k,
                decreases projects@.len() - i,
            {
                v.push(i);
                i = i + 1;
            }
            proof {
                assert(v@.map_values(|i: usize| i as int) =~= Seq::new(manifest.cargo@.len(), |i: int| i));
            }
            Ok(v)
        },
        ProjectSelection::One(name) => {
            let mut i: usize = 0;
            while i < projects.len()
                invariant
                    projects@ == manifest.cargo@,
                    *selection == ProjectSelection::One(*name),
                    i <= projects@.len(),
                    forall|j: int| 0 <= j < i ==> (#[trigger] projects@[j]).name@ != name@,
                decreases projects@.len() - i,
            {
                if str_eq(projects[i].name(), name.as_str()) {
                    proof {
                        lemma_first_named(manifest.cargo@, name@, i as int);
                    }
                    let v: Vec<usize> = vec![i];
                    proof {
                        assert(v@.map_values(|i: usize| i as int) =~= seq![i as int]);
                        assert(first_named(manifest.cargo@, name@) == Some(i as int));
                        assert(*selection == ProjectSelection::One(*name));
                        assert(selected_positions(*manifest, *selection) == Ok::<Seq<int>, Seq<char>>(seq![i as int]));
                    }
                    return Ok(v);
                }
                i = i + 1;
            }
            Err(concat3("source root does not declare Cargo workspace '", name.as_str(), "'"))
        },
    }
}

/// One Cargo invocation planned by a workflow: the position of the Cargo
/// workspace in `manifest.cargo_projects()`, and the step.
pub open spec fn planned_runs(positions: Seq<int>, w: CargoWorkflow) -> Seq<(int, ValidationStep)>
    decreases positions.len(),
{
    if positions.len() == 0 {
        Seq::empty()
    } else {
        planned_runs(positions.drop_last(), w)
            + workflow_steps(w).map_values(|s: ValidationStep| (positions.last(), s))
    }
}

/// The Cargo invocations a workflow makes, in order: for each selected Cargo
/// workspace, the workflow's own step, or for `validate` the formatting check,
/// check, tests, Clippy and Rustdoc in turn. The caller runs them and stops
/// at the first that fails.
pub fn run(manifest: &WorkspaceManifest, selection: &ProjectSelection, workflow: CargoWorkflow) -> (r: Result<Vec<(usize, ValidationStep)>, String>)
    ensures
        match selected_positions(*manifest, *selection) {
            Ok(p) => r matches Ok(v) && v@.map_values(|x: (usize, ValidationStep)| (x.0 as int, x.1)) == planned_runs(p, workflow),
            Err(m) => r matches Err(e) && e@ == m,
        },
{
    let positions = selected_projects(manifest, selection)?;
    let ghost p = positions@.map_values(|i: usize| i as int);
    let mut out: Vec<(usize, ValidationStep)> = Vec::new();
    let mut i: usize = 0;
    while i < positions.len()
        invariant
            p == positions@.map_values(|i: usize| i as int),
            i <= positions@.len(),
            out@.map_values(|x: (usize, ValidationStep)| (x.0 as int, x.1)) == planned_runs(p.take(i as int), workflow),
        decreases positions@.len() - i,
    {
        let at = positions[i];
        let ghost before = out@;
        if workflow == CargoWorkflow::Validate {
            out.push((at, ValidationStep::FmtCheck));
            out.push((at, ValidationStep::Check));
            out.push((at, ValidationStep::Test));
            out.push((at, ValidationStep::Clippy));
            out.push((at, ValidationStep::Doc));
        } else {
            out.push((at, ValidationStep::Workflow(workflow)));
        }
        proof {
            assert(p.take(i + 1).drop_last() =~= p.take(i as int));
            assert(p.take(i + 1).last() == at as int);
            assert(out@.map_values(|x: (usize, ValidationStep)| (x.0 as int, x.1)) =~= planned_runs(p.take(i + 1), workflow));
        }
        i = i + 1;
    }
    proof {
        assert(p.take(positions@.len() as int) =~= p);
    }
    Ok(out)
}

/// Message when a step could not be started.
pub open spec fn msg_step_spawn(s: ValidationStep, project: Seq<char>, error: Seq<char>) -> Seq<char> {
    "failed to run "@ + step_label(s) + " for '"@ + project + "': "@ + error
}

/// Message when a step ran and failed.
pub open spec fn msg_step_failed(s: ValidationStep, project: Seq<char>, status: Seq<char>) -> Seq<char> {
    step_label(s) + " failed for project '"@ + project + "' with "@ + status
}

/// How a finished step is reported: success, or the failure naming the step,
/// the Cargo workspace and the exit status.
pub fn step_outcome(step: ValidationStep, project: &str, success: bool, status: &str) -> (r: Result<(), String>)
    ensures
        success ==> r is Ok,
        !success ==> (r matches Err(e) && e@ == msg_step_failed(step, project@, status@)),
{
    if success {
        Ok(())
    } else {
        let mut e = owned(step.label());
        e.append(" failed for project '");
        e.append(project);
        e.append("' with ");
        e.append(status);
        Err(e)
    }
}

/// The error when a step could not be started.
pub fn step_spawn_error(step: ValidationStep, project: &str, error: &str) -> (r: String)
    ensures
        r@ == msg_step_spawn(step, project@, error@),
{
    let mut e = concat("failed to run ", step.label());
    e.append(" for '");
    e.append(project);
    e.append("': ");
    e.append(error);
    e
}

/// Directories put in front of the inherited `PATH` for Cargo children: the
/// bundled Cargo's directory when there is one, then the installation's Git,
/// Cargo-home, rustup, SteamCMD and binary directories, then `existing`.
pub open spec fn managed_path_spec(root: Seq<char>, cargo_dir: Option<Seq<char>>, existing: Seq<Seq<char>>) -> Seq<Seq<char>> {
    let fixed = seq![
        join(root, "tools/git/bin"@),
        join(root, "cargo-home/bin"@),
        join(root, "rustup/bin"@),
        join(root, "steam/steamcmd"@),
        join(root, "bin"@),
    ];
    match cargo_dir {
        Some(d) => seq![d] + fixed + existing,
        None => fixed + existing,
    }
}

/// The `PATH` entries for Cargo children, in search order.
pub fn managed_path(installation_root: &str, cargo_dir: Option<&str>, existing: &[String]) -> (r: Vec<String>)
    ensures
        r@.map_values(|s: String| s@) == managed_path_spec(installation_root@,
            match cargo_dir { Some(d) => Some(d@), None => None::<Seq<char>> }, existing@.map_values(|s: String| s@)),
{
    let mut v: Vec<String> = Vec::new();
    match cargo_dir {
        Some(d) => v.push(owned(d)),
        None => {},
    }
    v.push(join_path(installation_root, "tools/git/bin"));
    v.push(join_path(installation_root, "cargo-home/bin"));
    v.push(join_path(installation_root, "rustup/bin"));
    v.push(join_path(installation_root, "steam/steamcmd"));
    v.push(join_path(installation_root, "bin"));
    let ghost prefix = v@;
    let mut i: usize = 0;
    while i < existing.len()
        invariant
            i <= existing@.len(),
            v@ == prefix + existing@.take(i as int),
        decreases existing@.len() - i,
    {
        v.push(existing[i].clone());
        proof {
            assert(v@ =~= prefix + existing@.take(i + 1));
        }
        i = i + 1;
    }
    proof {
        assert(existing@.take(existing@.len() as int) =~= existing@);
        let want = managed_path_spec(installation_root@,
            match cargo_dir { Some(d) => Some(d@), None => None::<Seq<char>> }, existing@.map_values(|s: String| s@));
        assert(v@.map_values(|s: String| s@) =~= want);
    }
    v
}

/// One built binary to copy into the installation's `bin` directory.
#[derive(Debug, Clone)]
pub struct Promotion {
    /// Name of the Cargo workspace that built it.
    pub project: String,
    /// Where the build left it.
    pub source: String,
    /// Where it is installed.
    pub destination: String,
}

/// File name of a binary on this platform.
pub open spec fn exe_name(binary: Seq<char>, exe_suffix: Seq<char>) -> Seq<char> {
    binary + exe_suffix
}

/// The promotions of one Cargo workspace, in the order of its binaries.
pub open spec fn project_promotions(root: Seq<char>, p: CargoProject, exe_suffix: Seq<char>) -> Seq<(Seq<char>, Seq<char>, Seq<char>)> {
    p.binaries@.map_values(|b: String| (
        p.name@,
        join(join(join(join(root, "output/dev"@), p.name@), "debug"@), exe_name(b@, exe_suffix)),
        join(join(root, "bin"@), exe_name(b@, exe_suffix)),
    ))
}

/// Every promotion of a manifest, workspace by workspace.
pub open spec fn promotions_of(root: Seq<char>, ps: Seq<CargoProject>, exe_suffix: Seq<char>) -> Seq<(Seq<char>, Seq<char>, Seq<char>)>
    decreases ps.len(),
{
    if ps.len() == 0 {
        Seq::empty()
    } else {
        promotions_of(root, ps.drop_last(), exe_suffix) + project_promotions(root, ps.last(), exe_suffix)
    }
}

/// View of a promotion.
pub open spec fn promotion_view(p: Promotion) -> (Seq<char>, Seq<char>, Seq<char>) {
    (p.project@, p.source@, p.destination@)
}

/// The binaries a root build promotes: for each declared binary of each
/// Cargo workspace, from `output/dev/<project>/debug/` to `bin/` under the
/// installation root.
pub fn promotions(installation_root: &str, manifest: &WorkspaceManifest, exe_suffix: &str) -> (r: Vec<Promotion>)
    ensures
        r@.map_values(|p: Promotion| promotion_view(p)) == promotions_of(installation_root@, manifest.cargo@, exe_suffix@),
{
    let projects = manifest.cargo_projects();
    let mut out: Vec<Promotion> = Vec::new();
    let mut i: usize = 0;
    while i < projects.len()
        invariant
            projects@ == manifest.cargo@,
            i <= projects@.len(),
            out@.map_values(|p: Promotion| promotion_view(p)) == promotions_of(installation_root@, projects@.take(i as int), exe_suffix@),
        decreases projects@.len() - i,
    {
        let project = &projects[i];
        let binaries = project.binaries();
        let build_dir = join_path(&join_path(&join_path(installation_root, "output/dev"), project.name()), "debug");
        let bin_dir = join_path(installation_root, "bin");
        let ghost before = out@.map_values(|p: Promotion| promotion_view(p));
        let mut k: usize = 0;
        while k < binaries.len()
            invariant
                projects@ == manifest.cargo@,
                i < projects@.len(),
                binaries@ == projects@[i as int].binaries@,
                *project == projects@[i as int],
                build_dir@ == join(join(join(installation_root@, "output/dev"@), projects@[i as int].name@), "debug"@),
                bin_dir@ == join(installation_root@, "bin"@),
                k <= binaries@.len(),
                out@.map_values(|p: Promotion| promotion_view(p)) == before + project_promotions(installation_root@, projects@[i as int], exe_suffix@).take(k as int),
            decreases binaries@.len() - k,
        {
            let file = concat(binaries[k].as_str(), exe_suffix);
            let item = Promotion {
                project: owned(project.name()),
                source: join_path(build_dir.as_str(), file.as_str()),
                destination: join_path(bin_dir.as_str(), file.as_str()),
            };
            proof {
                let pp = project_promotions(installation_root@, projects@[i as int], exe_suffix@);
                let b = projects@[i as int].binaries@[k as int];
                assert(binaries@[k as int] == b);
                assert(file@ == exe_name(b@, exe_suffix@));
                assert(item.project@ == projects@[i as int].name@);
                assert(pp[k as int] == (projects@[i as int].name@,
                    join(join(join(join(installation_root@, "output/dev"@), projects@[i as int].name@), "debug"@), exe_name(b@, exe_suffix@)),
                    join(join(installation_root@, "bin"@), exe_name(b@, exe_suffix@))));
                assert(promotion_view(item) == pp[k as int]);
            }
            let ghost old_out = out@;
            let ghost view_item = promotion_view(item);
            out.push(item);
            proof {
                let pp = project_promotions(installation_root@, projects@[i as int], exe_suffix@);
                assert(out@.map_values(|p: Promotion| promotion_view(p)) =~= old_out.map_values(|p: Promotion| promotion_view(p)).push(view_item));
                assert(pp.take(k + 1) =~= pp.take(k as int).push(pp[k as int]));
                assert(out@.map_values(|p: Promotion| promotion_view(p)) =~= before + pp.take(k + 1));
            }
            k = k + 1;
        }
        proof {
            let pp = project_promotions(installation_root@, projects@[i as int], exe_suffix@);
            assert(pp.take(binaries@.len() as int) =~= pp);
            assert(projects@.take(i + 1).drop_last() =~= projects@.take(i as int));
        }
        i = i + 1;
    }
    proof {
        assert(projects@.take(projects@.len() as int) =~= projects@);
    }
    out
}

/// Message when a binary to promote was not built.
pub open spec fn msg_missing_binary(project: Seq<char>, source: Seq<char>) -> Seq<char> {
    "built binary is missing for project '"@ + project + "': "@ + source
}

/// The error when a binary to promote was not built.
pub fn missing_binary(p: &Promotion) -> (r: String)
    ensures
        r@ == msg_missing_binary(p.project@, p.source@),
{
    concat4("built binary is missing for project '", p.project.as_str(), "': ", p.source.as_str())
}


/// `validate` runs exactly five Cargo steps on each selected workspace, and
/// every other workflow exactly one.
pub proof fn law_workflow_step_count(positions: Seq<int>, w: CargoWorkflow)
    ensures
        planned_runs(positions, w).len() == positions.len() * (if w == CargoWorkflow::Validate { 5int } else { 1int }),
    decreases positions.len(),
{
    if positions.len() > 0 {
        law_workflow_step_count(positions.drop_last(), w);
    }
}

} // verus!
