//! Explicit self-setup of the app-local tool bundle: the accepted app-root
//! location and its lock, the health of the Rust, Git and SteamCMD groups
//! and of the distributable setup package, which groups an install or a
//! repair bootstraps, how a host Git is chosen for import, and the
//! preflight errors commands report. Nothing here installs implicitly.

use vstd::prelude::*;
use crate::text::{owned, concat, concat3, concat4, concat5, decimal, decimal_string, string_views, joined, join_strings,
    str_eq};
use crate::paths::{join, join_path, within};
use crate::discovery::{InstallationPaths, ensure_contained};
use crate::path_setup::PathSetupReport;
use crate::keyed::{sort_unique, strictly_sorted};

verus! {

/// Relationship between the running app root and its accepted location.
#[derive(Debug, Clone, PartialEq, Eq)]
pub enum LocationStatus {
    /// No location has been accepted.
    Unregistered {
        /// The running app root.
        current: String,
    },
    /// The running app root is the accepted location.
    Registered {
        /// The accepted app root.
        path: String,
    },
    /// The app root moved since it was accepted.
    Moved {
        /// The accepted location.
        locked: String,
        /// The running app root.
        current: String,
    },
}

impl LocationStatus {
    /// The running app root.
    pub fn current(&self) -> (r: &str)
        ensures
            r@ == match *self {
                LocationStatus::Unregistered { current } => current@,
                LocationStatus::Registered { path } => path@,
                LocationStatus::Moved { current, .. } => current@,
            },
    {
        match self {
            LocationStatus::Unregistered { current } => current.as_str(),
            LocationStatus::Registered { path } => path.as_str(),
            LocationStatus::Moved { current, .. } => current.as_str(),
        }
    }

    /// The accepted location, when one was accepted.
    pub fn locked(&self) -> (r: Option<&str>)
        ensures
            match *self {
                LocationStatus::Unregistered { .. } => r is None,
                LocationStatus::Registered { path } => r matches Some(p) && p@ == path@,
                LocationStatus::Moved { locked, .. } => r matches Some(p) && p@ == locked@,
            },
    {
        match self {
            LocationStatus::Unregistered { .. } => None,
            LocationStatus::Registered { path } => Some(path.as_str()),
            LocationStatus::Moved { locked, .. } => Some(locked.as_str()),
        }
    }

    /// Whether the running app root is the accepted location.
    pub fn registered(&self) -> (r: bool)
        ensures
            r == (*self is Registered),
    {
        match self {
            LocationStatus::Registered { .. } => true,
            _ => false,
        }
    }
}

/// Where the accepted location is recorded.
pub open spec fn lock_path_spec(root: Seq<char>) -> Seq<char> {
    join(join(join(root, ".vapor"@), "state"@), "vapor-home.toml"@)
}

/// Where the accepted location is recorded: `<state>/vapor-home.toml`.
pub fn lock_path(installation: &InstallationPaths) -> (r: String)
    ensures
        r@ == lock_path_spec(installation@.root),
{
    let state = installation.state_dir();
    join_path(state.as_str(), "vapor-home.toml")
}

/// The location status from the lock: absent, unreadable, or its version
/// and path. Only version 1 is understood.
pub fn location_status(installation: &InstallationPaths, lock: Option<Result<(u32, String), String>>) -> (r: Result<LocationStatus, String>)
    ensures
        match lock {
            None => r matches Ok(LocationStatus::Unregistered { current }) && current@ == installation@.root,
            Some(Err(e)) => r matches Err(m) && m == e,
            Some(Ok((version, path))) => if version != 1 {
                r matches Err(m) && m@ == "unsupported app-root lock version "@ + decimal(version as nat) + " in '"@
                    + lock_path_spec(installation@.root) + "'"@
            } else if path@ == installation@.root {
                r matches Ok(LocationStatus::Registered { path: p }) && p@ == installation@.root
            } else {
                r matches Ok(LocationStatus::Moved { locked, current }) && locked@ == path@ && current@ == installation@.root
            },
        },
{
    let current = owned(installation.root());
    match lock {
        None => Ok(LocationStatus::Unregistered { current }),
        Some(Err(e)) => Err(e),
        Some(Ok((version, path))) => {
            if version != 1 {
                let number = decimal_string(version as u64);
                let lock = lock_path(installation);
                let mut e = concat5("unsupported app-root lock version ", number.as_str(), " in '", lock.as_str(), "'");
                return Err(e);
            }
            if str_eq(path.as_str(), current.as_str()) {
                Ok(LocationStatus::Registered { path: current })
            } else {
                Ok(LocationStatus::Moved { locked: path, current })
            }
        },
    }
}

/// The refusal of `action` at an app root that is not the accepted one.
pub open spec fn msg_not_registered(status: LocationStatus, action: Seq<char>) -> Seq<char> {
    match status {
        LocationStatus::Registered { .. } => Seq::empty(),
        LocationStatus::Unregistered { current } => "cannot "@ + action
            + ": the app root has not been accepted\n  current: "@ + current@
            + "\nhelp: review this location with `vapor setup self status`\nhelp: accept it explicitly with `vapor setup self install`\nnote: no location or PATH state was changed"@,
        LocationStatus::Moved { locked, current } => "cannot "@ + action
            + ": the app root no longer matches its accepted location\n  previous: "@ + locked@ + "\n  current:  "@ + current@
            + "\nhelp: if this move was intentional, run `vapor setup self repair`\nhelp: otherwise move the Steam app back or verify its library location\nnote: no location or PATH state was changed"@,
    }
}

/// Refuse `action` unless the running app root is the accepted location.
pub fn require_registered_status(status: &LocationStatus, action: &str) -> (r: Result<(), String>)
    ensures
        *status is Registered ==> r is Ok,
        !(*status is Registered) ==> (r matches Err(e) && e@ == msg_not_registered(*status, action@)),
{
    match status {
        LocationStatus::Registered { .. } => Ok(()),
        LocationStatus::Unregistered { current } => {
            let mut e = concat3("cannot ", action, ": the app root has not been accepted\n  current: ");
            e.append(current.as_str());
            e.append("\nhelp: review this location with `vapor setup self status`\nhelp: accept it explicitly with `vapor setup self install`\nnote: no location or PATH state was changed");
            Err(e)
        },
        LocationStatus::Moved { locked, current } => {
            let mut e = concat3("cannot ", action, ": the app root no longer matches its accepted location\n  previous: ");
            e.append(locked.as_str());
            e.append("\n  current:  ");
            e.append(current.as_str());
            e.append("\nhelp: if this move was intentional, run `vapor setup self repair`\nhelp: otherwise move the Steam app back or verify its library location\nnote: no location or PATH state was changed");
            Err(e)
        },
    }
}

/// A change of the accepted location, with the `PATH` registration done
/// alongside it.
#[derive(Debug, Clone)]
pub struct LocationChange {
    /// The status after the change.
    pub status: LocationStatus,
    /// The `PATH` registration report.
    pub path_setup: PathSetupReport,
}

impl LocationChange {
    /// The status after the change.
    pub fn status(&self) -> (r: &LocationStatus)
        ensures
            *r == self.status,
    {
        &self.status
    }

    /// The `PATH` registration report.
    pub fn path_setup(&self) -> (r: &PathSetupReport)
        ensures
            *r == self.path_setup,
    {
        &self.path_setup
    }
}

/// Accepting the running app root: the lock records version 1 and the
/// root, and the status becomes registered there.
pub fn register_location(installation: &InstallationPaths, path_setup: PathSetupReport) -> (r: (LocationChange, (u32, String)))
    ensures
        r.0.status matches LocationStatus::Registered { path } && path@ == installation@.root,
        r.0.path_setup == path_setup,
        r.1.0 == 1,
        r.1.1@ == installation@.root,
{
    let root = owned(installation.root());
    let lock = (1u32, owned(installation.root()));
    (LocationChange { status: LocationStatus::Registered { path: root }, path_setup }, lock)
}

/// Forgetting the accepted location: the status becomes unregistered.
pub fn clear_location_registration(installation: &InstallationPaths, path_setup: PathSetupReport) -> (r: LocationChange)
    ensures
        r.status matches LocationStatus::Unregistered { current } && current@ == installation@.root,
        r.path_setup == path_setup,
{
    LocationChange { status: LocationStatus::Unregistered { current: owned(installation.root()) }, path_setup }
}

/// A tool group that self-setup manages.
#[derive(Debug, Clone, Copy, PartialEq, Eq, Structural)]
pub enum SetupSelfRequirement {
    /// Rustup, Cargo, Rustc, Rustfmt, Clippy and Rustdoc.
    Rust,
    /// An app-owned Git.
    Git,
    /// SteamCMD.
    SteamCmd,
}

/// Label of a tool group.
pub open spec fn setup_label(r: SetupSelfRequirement) -> Seq<char> {
    match r {
        SetupSelfRequirement::Rust => "Rust/Cargo"@,
        SetupSelfRequirement::Git => "Git"@,
        SetupSelfRequirement::SteamCmd => "SteamCMD"@,
    }
}

impl SetupSelfRequirement {
    /// Label of the tool group in diagnostics.
    pub fn label(self) -> (r: &'static str)
        ensures
            r@ == setup_label(self),
    {
        match self {
            SetupSelfRequirement::Rust => "Rust/Cargo",
            SetupSelfRequirement::Git => "Git",
            SetupSelfRequirement::SteamCmd => "SteamCMD",
        }
    }
}

/// Health of one tool group.
#[derive(Debug, Clone)]
pub struct SetupSelfComponentStatus {
    /// The group's label.
    pub label: String,
    /// Whether every tool of the group works.
    pub installed: bool,
    /// The group's primary path.
    pub path: String,
    /// What is missing.
    pub missing: Vec<String>,
}

impl SetupSelfComponentStatus {
    /// The group's label.
    pub fn label(&self) -> (r: &str)
        ensures
            r@ == self.label@,
    {
        self.label.as_str()
    }

    /// Whether every tool of the group works.
    pub fn installed(&self) -> (r: bool)
        ensures
            r == self.installed,
    {
        self.installed
    }

    /// The group's primary path.
    pub fn path(&self) -> (r: &str)
        ensures
            r@ == self.path@,
    {
        self.path.as_str()
    }

    /// What is missing.
    pub fn missing(&self) -> (r: &[String])
        ensures
            r@ == self.missing@,
    {
        self.missing.as_slice()
    }
}

/// Health of the distributable setup package under `packages/setup`.
#[derive(Debug, Clone)]
pub struct SetupSelfPackageStatus {
    /// The package root.
    pub root: String,
    /// Missing package entries, sorted without repeats.
    pub missing: Vec<String>,
}

impl SetupSelfPackageStatus {
    /// The package root.
    pub fn root(&self) -> (r: &str)
        ensures
            r@ == self.root@,
    {
        self.root.as_str()
    }

    /// Whether nothing is missing.
    pub fn complete(&self) -> (r: bool)
        ensures
            r == (self.missing@.len() == 0),
    {
        self.missing.len() == 0
    }

    /// Missing package entries.
    pub fn missing(&self) -> (r: &[String])
        ensures
            r@ == self.missing@,
    {
        self.missing.as_slice()
    }
}

/// The package directories that must exist.
pub open spec fn package_directories() -> Seq<Seq<char>> {
    seq!["rustup"@, "rustup-home"@, "cargo-home"@, "cargo-home/registry"@, "git"@, "steamcmd"@]
}

/// The package directories, in the order they are checked.
pub fn package_directory_names() -> (r: Vec<&'static str>)
    ensures
        r@.map_values(|s: &'static str| s@) == package_directories(),
{
    let r = vec!["rustup", "rustup-home", "cargo-home", "cargo-home/registry", "git", "steamcmd"];
    assert(r@.map_values(|s: &'static str| s@) =~= package_directories());
    r
}

/// The setup package root of an app root.
pub fn package_root(app_root: &str) -> (r: String)
    ensures
        r@ == join(app_root@, "packages/setup"@),
{
    join_path(app_root, "packages/setup")
}

/// The package status from what is missing: the missing directories (given
/// whether each of [`package_directory_names`] is a directory) and the
/// missing tools, sorted without repeats.
pub fn package_status(app_root: &str, directory_present: &[bool], missing_tools: Vec<String>) -> (r: SetupSelfPackageStatus)
    requires
        directory_present@.len() == package_directories().len(),
    ensures
        r.root@ == join(app_root@, "packages/setup"@),
        strictly_sorted(string_views(r.missing@)),
        forall|m: Seq<char>| #[trigger] string_views(r.missing@).contains(m) <==> (
            (exists|k: int| 0 <= k < package_directories().len() && !directory_present@[k] && package_directories()[k] == m)
            || string_views(missing_tools@).contains(m)),
{
    let names = package_directory_names();
    let mut all: Vec<String> = Vec::new();
    let mut k: usize = 0;
    while k < names.len()
        invariant
            names@.map_values(|s: &'static str| s@) == package_directories(),
            directory_present@.len() == package_directories().len(),
            k <= names@.len(),
            forall|m: Seq<char>| #[trigger] string_views(all@).contains(m) <==>
                (exists|j: int| 0 <= j < k && !directory_present@[j] && package_directories()[j] == m),
        decreases names@.len() - k,
    {
        let ghost before = string_views(all@);
        assert(names@.map_values(|s: &'static str| s@)[k as int] == names@[k as int]@);
        if !directory_present[k] {
            all.push(owned(names[k]));
        }
        proof {
            let after = string_views(all@);
            assert forall|m: Seq<char>| #[trigger] after.contains(m) <==>
                (exists|j: int| 0 <= j < k + 1 && !directory_present@[j] && package_directories()[j] == m) by {
                if after.contains(m) {
                    let i = choose|i: int| 0 <= i < after.len() && after[i] == m;
                    if i < before.len() {
                        assert(before[i] == after[i]);
                        assert(before.contains(m));
                    } else {
                        assert(package_directories()[k as int] == m);
                    }
                }
                if exists|j: int| 0 <= j < k + 1 && !directory_present@[j] && package_directories()[j] == m {
                    let j = choose|j: int| 0 <= j < k + 1 && !directory_present@[j] && package_directories()[j] == m;
                    if j < k {
                        assert(before.contains(m));
                        let i = choose|i: int| 0 <= i < before.len() && before[i] == m;
                        assert(after[i] == m);
                    } else {
                        assert(after[after.len() - 1] == m);
                    }
                }
            }
        }
        k = k + 1;
    }
    let ghost dirs = string_views(all@);
    let ghost tools = string_views(missing_tools@);
    let mut i: usize = 0;
    while i < missing_tools.len()
        invariant
            i <= missing_tools@.len(),
            tools == string_views(missing_tools@),
            forall|m: Seq<char>| #[trigger] string_views(all@).contains(m) <==> dirs.contains(m) || tools.take(i as int).contains(m),
        decreases missing_tools@.len() - i,
    {
        let ghost before = string_views(all@);
        all.push(missing_tools[i].clone());
        proof {
            let after = string_views(all@);
            let t0 = tools.take(i as int);
            let t1 = tools.take(i + 1);
            assert(tools[i as int] == missing_tools@[i as int]@);
            assert forall|m: Seq<char>| #[trigger] after.contains(m) <==> dirs.contains(m) || t1.contains(m) by {
                if after.contains(m) {
                    let x = choose|x: int| 0 <= x < after.len() && after[x] == m;
                    if x < before.len() {
                        assert(before[x] == m);
                        assert(before.contains(m));
                        if t0.contains(m) {
                            let y = choose|y: int| 0 <= y < t0.len() && t0[y] == m;
                            assert(t1[y] == m);
                        }
                    } else {
                        assert(t1[i as int] == m);
                    }
                }
                if t1.contains(m) {
                    let y = choose|y: int| 0 <= y < t1.len() && t1[y] == m;
                    if y < i {
                        assert(t0[y] == m);
                        assert(before.contains(m));
                        let x = choose|x: int| 0 <= x < before.len() && before[x] == m;
                        assert(after[x] == m);
                    } else {
                        assert(after[before.len() as int] == m);
                    }
                }
                if dirs.contains(m) {
                    assert(before.contains(m));
                    let x = choose|x: int| 0 <= x < before.len() && before[x] == m;
                    assert(after[x] == m);
                }
            }
        }
        i = i + 1;
    }
    proof {
        assert(tools.take(missing_tools@.len() as int) =~= tools);
    }
    let ghost gathered = string_views(all@);
    let missing = sort_unique(all);
    proof {
        assert forall|m: Seq<char>| #[trigger] string_views(missing@).contains(m) <==> gathered.contains(m) by {
            assert(string_views(missing@).to_set().contains(m) == gathered.to_set().contains(m));
        }
    }
    SetupSelfPackageStatus { root: package_root(app_root), missing }
}

/// Health of the app-local tool bundle and of its setup package.
#[derive(Debug, Clone)]
pub struct SetupSelfStatus {
    /// The Rust/Cargo group.
    pub rust: SetupSelfComponentStatus,
    /// The Git group.
    pub git: SetupSelfComponentStatus,
    /// The SteamCMD group.
    pub steamcmd: SetupSelfComponentStatus,
    /// The setup package.
    pub package: SetupSelfPackageStatus,
}

/// The status of one tool group.
pub open spec fn setup_component(s: SetupSelfStatus, r: SetupSelfRequirement) -> SetupSelfComponentStatus {
    match r {
        SetupSelfRequirement::Rust => s.rust,
        SetupSelfRequirement::Git => s.git,
        SetupSelfRequirement::SteamCmd => s.steamcmd,
    }
}

impl SetupSelfStatus {
    /// The Rust/Cargo group.
    pub fn rust(&self) -> (r: &SetupSelfComponentStatus)
        ensures
            *r == self.rust,
    {
        &self.rust
    }

    /// The Git group.
    pub fn git(&self) -> (r: &SetupSelfComponentStatus)
        ensures
            *r == self.git,
    {
        &self.git
    }

    /// The SteamCMD group.
    pub fn steamcmd(&self) -> (r: &SetupSelfComponentStatus)
        ensures
            *r == self.steamcmd,
    {
        &self.steamcmd
    }

    /// Whether every tool group works.
    pub fn complete(&self) -> (r: bool)
        ensures
            r == (self.rust.installed && self.git.installed && self.steamcmd.installed),
    {
        self.rust.installed && self.git.installed && self.steamcmd.installed
    }

    /// Whether the setup package is complete.
    pub fn package_complete(&self) -> (r: bool)
        ensures
            r == (self.package.missing@.len() == 0),
    {
        self.package.complete()
    }

    /// The setup package root.
    pub fn package_root(&self) -> (r: &str)
        ensures
            r@ == self.package.root@,
    {
        self.package.root()
    }

    /// Missing setup package entries.
    pub fn missing_package_entries(&self) -> (r: &[String])
        ensures
            r@ == self.package.missing@,
    {
        self.package.missing()
    }

    /// The status of one tool group.
    pub fn requirement(&self, requirement: SetupSelfRequirement) -> (r: &SetupSelfComponentStatus)
        ensures
            *r == setup_component(*self, requirement),
    {
        match requirement {
            SetupSelfRequirement::Rust => &self.rust,
            SetupSelfRequirement::Git => &self.git,
            SetupSelfRequirement::SteamCmd => &self.steamcmd,
        }
    }
}

/// The groups of `reqs` that are not installed, in order.
pub open spec fn missing_groups(s: SetupSelfStatus, reqs: Seq<SetupSelfRequirement>) -> Seq<SetupSelfRequirement>
    decreases reqs.len(),
{
    if reqs.len() == 0 {
        Seq::empty()
    } else if setup_component(s, reqs.last()).installed {
        missing_groups(s, reqs.drop_last())
    } else {
        missing_groups(s, reqs.drop_last()).push(reqs.last())
    }
}

/// One line of the missing-groups listing.
pub open spec fn group_line(c: SetupSelfComponentStatus) -> Seq<char> {
    "  - "@ + c.label@ + ": missing "@ + joined(string_views(c.missing@), ", "@) + " (primary path "@ + c.path@ + ")"@
}

/// The missing-groups listing of `reqs` (each assumed missing).
pub open spec fn group_lines(s: SetupSelfStatus, reqs: Seq<SetupSelfRequirement>) -> Seq<char> {
    joined(Seq::new(reqs.len(), |i: int| group_line(setup_component(s, reqs[i]))), "\n"@)
}

/// The preflight error for `action` when groups are missing.
pub open spec fn msg_groups_missing(s: SetupSelfStatus, missing: Seq<SetupSelfRequirement>, action: Seq<char>) -> Seq<char> {
    "cannot "@ + action + ": the app-local "@ + joined(Seq::new(missing.len(), |i: int| setup_label(missing[i])), ", "@)
        + (if missing.len() == 1 { " is"@ } else { " are"@ }) + " not installed\n"@ + group_lines(s, missing)
        + "\nhelp: inspect setup with `vapor setup self status`\nhelp: install setup explicitly with `vapor setup self install`\nnote: this command will not install or repair prerequisites automatically"@
}

fn group_line_text(c: &SetupSelfComponentStatus) -> (r: String)
    ensures
        r@ == group_line(*c),
{
    let list = join_strings(c.missing.as_slice(), ", ");
    let head = concat4("  - ", c.label.as_str(), ": missing ", list.as_str());
    concat4(head.as_str(), " (primary path ", c.path.as_str(), ")")
}

fn missing_groups_of(status: &SetupSelfStatus, requirements: &[SetupSelfRequirement]) -> (r: Vec<SetupSelfRequirement>)
    ensures
        r@ == missing_groups(*status, requirements@),
{
    let mut missing: Vec<SetupSelfRequirement> = Vec::new();
    let mut i: usize = 0;
    while i < requirements.len()
        invariant
            i <= requirements@.len(),
            missing@ == missing_groups(*status, requirements@.take(i as int)),
        decreases requirements@.len() - i,
    {
        proof {
            assert(requirements@.take(i + 1).drop_last() =~= requirements@.take(i as int));
            assert(requirements@.take(i + 1).last() == requirements@[i as int]);
        }
        let req = requirements[i];
        if !status.requirement(req).installed {
            missing.push(req);
        }
        i = i + 1;
    }
    proof {
        assert(requirements@.take(requirements@.len() as int) =~= requirements@);
    }
    missing
}

fn group_lines_text(status: &SetupSelfStatus, groups: &[SetupSelfRequirement]) -> (r: String)
    ensures
        r@ == group_lines(*status, groups@),
{
    let mut lines: Vec<String> = Vec::new();
    let mut k: usize = 0;
    while k < groups.len()
        invariant
            k <= groups@.len(),
            string_views(lines@) == Seq::new(groups@.len(), |i: int| group_line(setup_component(*status, groups@[i]))).take(k as int),
        decreases groups@.len() - k,
    {
        let ghost before = string_views(lines@);
        let line = group_line_text(status.requirement(groups[k]));
        lines.push(line);
        proof {
            assert(string_views(lines@) =~= before.push(line@));
            assert(string_views(lines@) =~= Seq::new(groups@.len(), |i: int| group_line(setup_component(*status, groups@[i]))).take(k + 1));
        }
        k = k + 1;
    }
    proof {
        assert(Seq::new(groups@.len(), |i: int| group_line(setup_component(*status, groups@[i]))).take(groups@.len() as int)
            =~= Seq::new(groups@.len(), |i: int| group_line(setup_component(*status, groups@[i]))));
    }
    join_strings(lines.as_slice(), "\n")
}

/// Require the groups of `requirements` without installing anything.
pub fn require_status(status: &SetupSelfStatus, requirements: &[SetupSelfRequirement], action: &str) -> (r: Result<(), String>)
    ensures
        missing_groups(*status, requirements@).len() == 0 ==> r is Ok,
        missing_groups(*status, requirements@).len() > 0 ==> (r matches Err(e)
            && e@ == msg_groups_missing(*status, missing_groups(*status, requirements@), action@)),
{
    let missing = missing_groups_of(status, requirements);
    if missing.len() == 0 {
        return Ok(());
    }
    let mut labels: Vec<String> = Vec::new();
    let mut k: usize = 0;
    while k < missing.len()
        invariant
            k <= missing@.len(),
            string_views(labels@) == Seq::new(missing@.len(), |i: int| setup_label(missing@[i])).take(k as int),
        decreases missing@.len() - k,
    {
        let ghost before = string_views(labels@);
        let label = owned(missing[k].label());
        labels.push(label);
        proof {
            assert(string_views(labels@) =~= before.push(label@));
            assert(string_views(labels@) =~= Seq::new(missing@.len(), |i: int| setup_label(missing@[i])).take(k + 1));
        }
        k = k + 1;
    }
    proof {
        assert(Seq::new(missing@.len(), |i: int| setup_label(missing@[i])).take(missing@.len() as int)
            =~= Seq::new(missing@.len(), |i: int| setup_label(missing@[i])));
    }
    let label_text = join_strings(labels.as_slice(), ", ");
    let verb = if missing.len() == 1 { " is" } else { " are" };
    let lines = group_lines_text(status, missing.as_slice());
    let mut e = concat5("cannot ", action, ": the app-local ", label_text.as_str(), verb);
    e.append(" not installed\n");
    e.append(lines.as_str());
    e.append("\nhelp: inspect setup with `vapor setup self status`\nhelp: install setup explicitly with `vapor setup self install`\nnote: this command will not install or repair prerequisites automatically");
    Err(e)
}

/// The groups a bootstrap installs, in order: each that is not installed,
/// or every group for a repair.
pub open spec fn bootstrap_spec(before: SetupSelfStatus, repair: bool) -> Seq<SetupSelfRequirement> {
    (if repair || !before.rust.installed { seq![SetupSelfRequirement::Rust] } else { Seq::empty() })
        + (if repair || !before.git.installed { seq![SetupSelfRequirement::Git] } else { Seq::empty() })
        + (if repair || !before.steamcmd.installed { seq![SetupSelfRequirement::SteamCmd] } else { Seq::empty() })
}

/// The groups a bootstrap installs, in order.
pub fn bootstrap_groups(before: &SetupSelfStatus, repair: bool) -> (r: Vec<SetupSelfRequirement>)
    ensures
        r@ == bootstrap_spec(*before, repair),
{
    let mut r: Vec<SetupSelfRequirement> = Vec::new();
    if repair || !before.rust.installed {
        r.push(SetupSelfRequirement::Rust);
    }
    if repair || !before.git.installed {
        r.push(SetupSelfRequirement::Git);
    }
    if repair || !before.steamcmd.installed {
        r.push(SetupSelfRequirement::SteamCmd);
    }
    assert(r@ =~= bootstrap_spec(*before, repair));
    r
}

/// Message when an installation finished but a group still fails.
pub fn verification_failed(status: &SetupSelfStatus) -> (r: String)
    ensures
        r@ == "self-setup installation completed, but verification still fails\n"@
            + group_lines(*status, missing_groups(*status, seq![SetupSelfRequirement::Rust, SetupSelfRequirement::Git, SetupSelfRequirement::SteamCmd])),
{
    let all = vec![SetupSelfRequirement::Rust, SetupSelfRequirement::Git, SetupSelfRequirement::SteamCmd];
    assert(all@ =~= seq![SetupSelfRequirement::Rust, SetupSelfRequirement::Git, SetupSelfRequirement::SteamCmd]);
    let missing = missing_groups_of(status, all.as_slice());
    let lines = group_lines_text(status, missing.as_slice());
    concat("self-setup installation completed, but verification still fails\n", lines.as_str())
}

/// What an installation or repair did.
#[derive(Debug, Clone)]
pub struct InstallReport {
    /// Labels of the groups installed, in order.
    pub installed_groups: Vec<String>,
    /// The status afterwards.
    pub status: SetupSelfStatus,
}

impl InstallReport {
    /// Labels of the groups installed.
    pub fn installed_groups(&self) -> (r: &[String])
        ensures
            r@ == self.installed_groups@,
    {
        self.installed_groups.as_slice()
    }

    /// The status afterwards.
    pub fn status(&self) -> (r: &SetupSelfStatus)
        ensures
            r == &self.status,
    {
        &self.status
    }
}

/// What an uninstallation removed.
#[derive(Debug, Clone)]
pub struct UninstallReport {
    /// How many tool directories were removed.
    pub removed_paths: usize,
    /// The cleared location.
    pub location: LocationChange,
}

impl UninstallReport {
    /// How many tool directories were removed.
    pub fn removed_paths(&self) -> (r: usize)
        ensures
            r == self.removed_paths,
    {
        self.removed_paths
    }

    /// The cleared location.
    pub fn location(&self) -> (r: &LocationChange)
        ensures
            r == &self.location,
    {
        &self.location
    }
}

/// The tool directories an uninstallation removes, relative to the app root.
pub open spec fn uninstall_relatives() -> Seq<Seq<char>> {
    seq!["rustup"@, "rustup-home"@, "cargo-home"@, "tools/git"@, "tools/steamcmd"@]
}

/// The tool directories an uninstallation removes, each inside the app root.
pub fn uninstall_paths(root: &str) -> (r: Result<Vec<String>, String>)
    ensures
        (forall|k: int| 0 <= k < uninstall_relatives().len() ==> #[trigger] within(join(root@, uninstall_relatives()[k]), root@))
            ==> (r matches Ok(v) && string_views(v@) == Seq::new(5, |k: int| join(root@, uninstall_relatives()[k]))),
        r is Err ==> exists|k: int| 0 <= k < uninstall_relatives().len() && !#[trigger] within(join(root@, uninstall_relatives()[k]), root@),
{
    let names = vec!["rustup", "rustup-home", "cargo-home", "tools/git", "tools/steamcmd"];
    assert(names@.map_values(|s: &'static str| s@) =~= uninstall_relatives());
    let mut out: Vec<String> = Vec::new();
    let mut k: usize = 0;
    while k < names.len()
        invariant
            names@.map_values(|s: &'static str| s@) == uninstall_relatives(),
            names@.len() == 5,
            k <= 5,
            string_views(out@) == Seq::new(k as nat, |j: int| join(root@, uninstall_relatives()[j])),
        decreases 5 - k,
    {
        assert(names@.map_values(|s: &'static str| s@)[k as int] == names@[k as int]@);
        let path = join_path(root, names[k]);
        match ensure_contained(root, path.as_str()) {
            Ok(()) => {},
            Err(e) => return Err(e),
        }
        let ghost before = string_views(out@);
        let ghost pv = path@;
        assert(pv == join(root@, uninstall_relatives()[k as int]));
        out.push(path);
        proof {
            assert(string_views(out@) =~= before.push(pv));
            assert(string_views(out@) =~= Seq::new((k + 1) as nat, |j: int| join(root@, uninstall_relatives()[j])));
        }
        k = k + 1;
    }
    Ok(out)
}

/// The rustup installer URL for the host (`std::env::consts::OS`, `ARCH`).
pub fn rustup_init_url(os: &str, arch: &str) -> (r: Result<&'static str, String>)
    ensures
        os@ == "linux"@ && arch@ == "x86_64"@ ==> (r matches Ok(u) && u@ == "https://static.rust-lang.org/rustup/dist/x86_64-unknown-linux-gnu/rustup-init"@),
        os@ == "linux"@ && arch@ == "aarch64"@ ==> (r matches Ok(u) && u@ == "https://static.rust-lang.org/rustup/dist/aarch64-unknown-linux-gnu/rustup-init"@),
        !(os@ == "linux"@ && (arch@ == "x86_64"@ || arch@ == "aarch64"@)) ==> (r matches Err(e)
            && e@ == "Rust/Cargo self-setup installation is not configured for "@ + arch@ + "-"@ + os@),
{
    proof {
        reveal_strlit("x86_64");
        reveal_strlit("aarch64");
        assert("aarch64"@[0] != "x86_64"@[0]);
    }
    let linux = str_eq(os, "linux");
    if linux && str_eq(arch, "x86_64") {
        Ok("https://static.rust-lang.org/rustup/dist/x86_64-unknown-linux-gnu/rustup-init")
    } else if linux && str_eq(arch, "aarch64") {
        Ok("https://static.rust-lang.org/rustup/dist/aarch64-unknown-linux-gnu/rustup-init")
    } else {
        Err(concat4("Rust/Cargo self-setup installation is not configured for ", arch, "-", os))
    }
}

/// What an inspection of one host Git candidate observed.
#[derive(Debug, Clone)]
pub enum HostGitProbe {
    /// Not an executable file.
    NotExecutable,
    /// Its canonical path could not be resolved.
    Unresolved {
        /// The candidate path.
        path: String,
        /// Why it could not be resolved.
        error: String,
    },
    /// Resolved to `canonical`.
    Resolved {
        /// Canonical path.
        canonical: String,
        /// Whether it lies inside the app root.
        inside_root: bool,
        /// Whether it only delegates to another Git.
        delegating: bool,
        /// Whether `git --version` succeeded.
        version_ok: bool,
    },
}

/// The outcome of choosing a host Git: the index of the chosen candidate,
/// or the rejections in order.
pub open spec fn choose_spec(probes: Seq<HostGitProbe>, seen: Set<Seq<char>>, rejected: Seq<Seq<char>>) -> Result<int, Seq<Seq<char>>>
    decreases probes.len(),
{
    if probes.len() == 0 {
        Err(rejected)
    } else {
        match probes[0] {
            HostGitProbe::NotExecutable => shift(choose_spec(probes.drop_first(), seen, rejected)),
            HostGitProbe::Unresolved { path, error } =>
                shift(choose_spec(probes.drop_first(), seen, rejected.push(path@ + " ("@ + error@ + ")"@))),
            HostGitProbe::Resolved { canonical, inside_root, delegating, version_ok } => if seen.contains(canonical@) || inside_root {
                shift(choose_spec(probes.drop_first(), seen, rejected))
            } else if delegating {
                shift(choose_spec(probes.drop_first(), seen.insert(canonical@), rejected.push(canonical@ + " (delegates to another Git)"@)))
            } else if !version_ok {
                shift(choose_spec(probes.drop_first(), seen.insert(canonical@), rejected.push(canonical@ + " (`git --version` failed)"@)))
            } else {
                Ok(0)
            },
        }
    }
}

/// An index found in the rest of the probes, counted from the whole list.
pub open spec fn shift(r: Result<int, Seq<Seq<char>>>) -> Result<int, Seq<Seq<char>>> {
    match r {
        Ok(i) => Ok(i + 1),
        Err(e) => Err(e),
    }
}

/// Message when no host Git can be imported.
pub open spec fn msg_no_host_git(rejected: Seq<Seq<char>>) -> Seq<char> {
    "cannot install Git: no usable host Git is available to import\n"@
        + (if rejected.len() == 0 {
            "no executable Git candidate was found on PATH or in common system locations"@
        } else {
            "rejected candidates:\n  - "@ + joined(rejected, "\n  - "@)
        })
        + "\nhelp: install Git with the operating-system package manager, then run `vapor setup self install`\nnote: Vapor imports a real Git binary into tools/git; it will not install a wrapper that delegates to system Git"@
}

proof fn lemma_views_push_set(v: Seq<String>, x: Seq<char>)
    ensures
        forall|y: String| y@ == x ==> #[trigger] string_views(v.push(y)).to_set() == string_views(v).to_set().insert(x),
{
    assert forall|y: String| y@ == x implies #[trigger] string_views(v.push(y)).to_set() == string_views(v).to_set().insert(x) by {
        let a = string_views(v);
        let b = string_views(v.push(y));
        assert(b =~= a.push(x));
        assert(b.to_set() =~= a.to_set().insert(x)) by {
            assert forall|z: Seq<char>| b.contains(z) <==> a.contains(z) || z == x by {
                if b.contains(z) {
                    let k = choose|k: int| 0 <= k < b.len() && b[k] == z;
                    if k < a.len() {
                        assert(a[k] == z);
                    }
                }
                if a.contains(z) {
                    let k = choose|k: int| 0 <= k < a.len() && a[k] == z;
                    assert(b[k] == z);
                }
                if z == x {
                    assert(b[a.len() as int] == z);
                }
            }
        }
    }
}

/// Choose the host Git to import from the probes of the sorted, deduplicated
/// candidates: the first that resolves outside the app root to a Git not
/// seen before, that does not delegate, and whose `--version` succeeds.
pub fn choose_host_git(probes: &[HostGitProbe]) -> (r: Result<usize, String>)
    ensures
        match choose_spec(probes@, Set::empty(), Seq::empty()) {
            Ok(i) => r matches Ok(j) && j == i,
            Err(rejected) => r matches Err(e) && e@ == msg_no_host_git(rejected),
        },
{
    let mut seen: Vec<String> = Vec::new();
    let mut rejected: Vec<String> = Vec::new();
    let mut i: usize = 0;
    proof {
        assert(probes@.skip(0) =~= probes@);
        assert(string_views(seen@).to_set() =~= Set::<Seq<char>>::empty());
        assert(string_views(rejected@) =~= Seq::<Seq<char>>::empty());
        match choose_spec(probes@, Set::empty(), Seq::empty()) {
            Ok(k) => assert(k + 0 == k),
            Err(_) => {},
        }
    }
    while i < probes.len()
        invariant
            i <= probes@.len(),
            choose_spec(probes@, Set::empty(), Seq::empty()) == match choose_spec(probes@.skip(i as int), string_views(seen@).to_set(), string_views(rejected@)) {
                Ok(k) => Ok(k + i),
                Err(e) => Err::<int, Seq<Seq<char>>>(e),
            },
        decreases probes@.len() - i,
    {
        let ghost rest = probes@.skip(i as int);
        let ghost s = string_views(seen@).to_set();
        let ghost rj = string_views(rejected@);
        proof {
            assert(rest[0] == probes@[i as int]);
            assert(rest.drop_first() =~= probes@.skip(i + 1));
        }
        match &probes[i] {
            HostGitProbe::NotExecutable => {},
            HostGitProbe::Unresolved { path, error } => {
                let mut m = concat3(path.as_str(), " (", error.as_str());
                m.append(")");
                rejected.push(m);
                proof {
                    assert(string_views(rejected@) =~= rj.push(path@ + " ("@ + error@ + ")"@));
                }
            },
            HostGitProbe::Resolved { canonical, inside_root, delegating, version_ok } => {
                let mut already = false;
                let mut k: usize = 0;
                while k < seen.len()
                    invariant
                        k <= seen@.len(),
                        already == exists|j: int| 0 <= j < k && seen@[j]@ == canonical@,
                    decreases seen@.len() - k,
                {
                    if str_eq(seen[k].as_str(), canonical.as_str()) {
                        already = true;
                    }
                    k = k + 1;
                }
                proof {
                    if already {
                        let j = choose|j: int| 0 <= j < seen@.len() && seen@[j]@ == canonical@;
                        assert(string_views(seen@)[j] == canonical@);
                        assert(s.contains(canonical@));
                    } else {
                        assert(!s.contains(canonical@)) by {
                            if s.contains(canonical@) {
                                let j = choose|j: int| 0 <= j < string_views(seen@).len() && string_views(seen@)[j] == canonical@;
                                assert(seen@[j]@ == canonical@);
                            }
                        }
                    }
                }
                if already || *inside_root {
                } else if *delegating {
                    let ghost before = seen@;
                    seen.push(canonical.clone());
                    rejected.push(concat(canonical.as_str(), " (delegates to another Git)"));
                    proof {
                        lemma_views_push_set(before, canonical@);
                        assert(string_views(rejected@) =~= rj.push(canonical@ + " (delegates to another Git)"@));
                    }
                } else if !*version_ok {
                    let ghost before = seen@;
                    seen.push(canonical.clone());
                    rejected.push(concat(canonical.as_str(), " (`git --version` failed)"));
                    proof {
                        lemma_views_push_set(before, canonical@);
                        assert(string_views(rejected@) =~= rj.push(canonical@ + " (`git --version` failed)"@));
                    }
                } else {
                    return Ok(i);
                }
            },
        }
        i = i + 1;
    }
    let detail = if rejected.len() == 0 {
        owned("no executable Git candidate was found on PATH or in common system locations")
    } else {
        let list = join_strings(rejected.as_slice(), "\n  - ");
        concat("rejected candidates:\n  - ", list.as_str())
    };
    let mut e = concat("cannot install Git: no usable host Git is available to import\n", detail.as_str());
    e.append("\nhelp: install Git with the operating-system package manager, then run `vapor setup self install`\nnote: Vapor imports a real Git binary into tools/git; it will not install a wrapper that delegates to system Git");
    Err(e)
}

/// Refuse `action` unless the running app root is the accepted location,
/// reading the status from the lock.
pub fn require_registered_location(installation: &InstallationPaths, lock: Option<Result<(u32, String), String>>, action: &str) -> (r: Result<(), String>)
    ensures
        match lock {
            None => r matches Err(e) && e@ == "cannot "@ + action@ + ": the app root has not been accepted\n  current: "@ + installation@.root
                + "\nhelp: review this location with `vapor setup self status`\nhelp: accept it explicitly with `vapor setup self install`\nnote: no location or PATH state was changed"@,
            Some(Err(e)) => r matches Err(m) && m == e,
            Some(Ok((version, path))) => if version != 1 {
                r matches Err(m) && m@ == "unsupported app-root lock version "@ + decimal(version as nat) + " in '"@
                    + lock_path_spec(installation@.root) + "'"@
            } else if path@ == installation@.root {
                r is Ok
            } else {
                r matches Err(e) && e@ == "cannot "@ + action@ + ": the app root no longer matches its accepted location\n  previous: "@ + path@
                    + "\n  current:  "@ + installation@.root
                    + "\nhelp: if this move was intentional, run `vapor setup self repair`\nhelp: otherwise move the Steam app back or verify its library location\nnote: no location or PATH state was changed"@
            },
        },
{
    let status = location_status(installation, lock)?;
    require_registered_status(&status, action)
}

/// Where Git templates may be found, in order: beside the host Git's exec
/// path (two levels up), then the system locations.
pub open spec fn template_candidates_spec(exec_path: Option<Seq<char>>) -> Seq<Seq<char>> {
    let system = seq!["/usr/share/git-core/templates"@, "/usr/local/share/git-core/templates"@];
    match exec_path {
        Some(e) => match crate::paths::parent(e) {
            Some(p) => match crate::paths::parent(p) {
                Some(prefix) => seq![join(prefix, "share/git-core/templates"@)] + system,
                None => system,
            },
            None => system,
        },
        None => system,
    }
}

/// Where Git templates may be found, in order.
pub fn git_template_candidates(exec_path: Option<&str>) -> (r: Vec<String>)
    ensures
        string_views(r@) == template_candidates_spec(match exec_path { Some(e) => Some(e@), None => None::<Seq<char>> }),
{
    let mut r: Vec<String> = Vec::new();
    match exec_path {
        Some(e) => match crate::paths::parent_path(e) {
            Some(p) => match crate::paths::parent_path(p.as_str()) {
                Some(prefix) => r.push(join_path(prefix.as_str(), "share/git-core/templates")),
                None => {},
            },
            None => {},
        },
        None => {},
    }
    let ghost before = string_views(r@);
    r.push(owned("/usr/share/git-core/templates"));
    r.push(owned("/usr/local/share/git-core/templates"));
    proof {
        assert(string_views(r@) =~= before + seq!["/usr/share/git-core/templates"@, "/usr/local/share/git-core/templates"@]);
        assert(string_views(r@) =~= template_candidates_spec(match exec_path { Some(e) => Some(e@), None => None::<Seq<char>> }));
    }
    r
}

/// The launcher written to `tools/git/bin/git`: it points Git at its own
/// exec path and templates, then runs the imported binary.
pub const GIT_LAUNCHER: &'static str = "#!/bin/sh\nset -eu\nself_dir=$(CDPATH= cd -- \"$(dirname -- \"$0\")\" && pwd)\ngit_root=$(CDPATH= cd -- \"$self_dir/..\" && pwd)\nif [ -d \"$git_root/libexec/git-core\" ]; then\n    GIT_EXEC_PATH=\"$git_root/libexec/git-core\"\n    export GIT_EXEC_PATH\nfi\nif [ -d \"$git_root/share/git-core/templates\" ]; then\n    GIT_TEMPLATE_DIR=\"$git_root/share/git-core/templates\"\n    export GIT_TEMPLATE_DIR\nfi\nexec \"$git_root/libexec/git-core/git\" \"$@\"\n";

/// The missing tool entries of a setup package, in order: rustup, the Rust
/// tools missing from every toolchain, Git (absent, or only a delegating
/// script), and SteamCMD. `exe` is the executable suffix.
pub open spec fn package_tools_spec(exe: Seq<char>, rustup_ok: bool, rust_missing: Seq<Seq<char>>, git_executable: bool,
    git_delegating: bool, steam_ok: bool) -> Seq<Seq<char>> {
    (if rustup_ok { Seq::empty() } else { seq!["rustup/bin/rustup"@ + exe] })
        + Seq::new(rust_missing.len(), |i: int| "rustup-home/toolchains/*/bin/"@ + rust_missing[i] + exe)
        + (if !git_executable {
            seq!["git/bin/git"@ + exe]
        } else if git_delegating {
            seq!["git/bin/git (replace with app-owned Git executable)"@]
        } else {
            Seq::empty()
        })
        + (if steam_ok { Seq::empty() } else { seq!["steamcmd/steamcmd[.sh|.exe]"@] })
}

/// The missing tool entries of a setup package.
pub fn package_tools_missing(exe: &str, rustup_ok: bool, rust_missing: &[String], git_executable: bool, git_delegating: bool,
    steam_ok: bool) -> (r: Vec<String>)
    ensures
        string_views(r@) == package_tools_spec(exe@, rustup_ok, string_views(rust_missing@), git_executable, git_delegating, steam_ok),
{
    let mut r: Vec<String> = Vec::new();
    if !rustup_ok {
        r.push(concat("rustup/bin/rustup", exe));
    }
    let ghost head = string_views(r@);
    let ghost names = string_views(rust_missing@);
    let mut i: usize = 0;
    while i < rust_missing.len()
        invariant
            i <= rust_missing@.len(),
            names == string_views(rust_missing@),
            string_views(r@) == head + Seq::new(i as nat, |k: int| "rustup-home/toolchains/*/bin/"@ + names[k] + exe@),
        decreases rust_missing@.len() - i,
    {
        let ghost before = string_views(r@);
        let entry = concat3("rustup-home/toolchains/*/bin/", rust_missing[i].as_str(), exe);
        r.push(entry);
        proof {
            assert(names[i as int] == rust_missing@[i as int]@);
            assert(string_views(r@) =~= before.push(entry@));
            assert(string_views(r@) =~= head + Seq::new((i + 1) as nat, |k: int| "rustup-home/toolchains/*/bin/"@ + names[k] + exe@));
        }
        i = i + 1;
    }
    let ghost middle = string_views(r@);
    if !git_executable {
        r.push(concat("git/bin/git", exe));
    } else if git_delegating {
        r.push(owned("git/bin/git (replace with app-owned Git executable)"));
    }
    let ghost after_git = string_views(r@);
    if !steam_ok {
        r.push(owned("steamcmd/steamcmd[.sh|.exe]"));
    }
    proof {
        assert(after_git =~= middle + (if !git_executable {
            seq!["git/bin/git"@ + exe@]
        } else if git_delegating {
            seq!["git/bin/git (replace with app-owned Git executable)"@]
        } else {
            Seq::<Seq<char>>::empty()
        }));
        assert(string_views(r@) =~= after_git + (if steam_ok { Seq::<Seq<char>>::empty() } else { seq!["steamcmd/steamcmd[.sh|.exe]"@] }));
        assert(head =~= (if rustup_ok { Seq::<Seq<char>>::empty() } else { seq!["rustup/bin/rustup"@ + exe@] }));
    }
    r
}

} // verus!
