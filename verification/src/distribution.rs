//! Declarative assembly of the self-hosting Steam application payload: the
//! `[root.steam]` policy of an app source root, its platform-split depots and
//! their allowlisted includes, and the plan of a staging run.

use vstd::prelude::*;
use crate::text::{str_eq, trim, trim_str, contains, has_infix, concat, concat3, concat4, concat5, owned};
use crate::paths::{is_safe_relative, is_safe_relative_path, join, join_path};
use crate::content::{is_target_triple, is_runtime_target};

verus! {

/// Logical Steam depot produced by root staging.
#[derive(Debug, Clone, Copy, PartialEq, Eq, Structural)]
pub enum SteamDepotKind {
    /// OS-neutral shared files.
    Common,
    /// Linux runtime files and launcher.
    Linux,
    /// Windows runtime files and launcher.
    Windows,
}

/// Stable depot label used in staged content paths.
pub open spec fn depot_label(k: SteamDepotKind) -> Seq<char> {
    match k {
        SteamDepotKind::Common => "common"@,
        SteamDepotKind::Linux => "linux"@,
        SteamDepotKind::Windows => "windows"@,
    }
}

/// Message for a runtime target that no depot serves.
pub open spec fn msg_no_depot(target: Seq<char>) -> Seq<char> {
    "runtime target has no configured Steam depot: "@ + target + "\nhelp: add a target-to-depot rule before staging this platform"@
}

/// The depot serving a runtime target: Linux targets, then Windows targets.
pub open spec fn depot_for_target(target: Seq<char>) -> Result<SteamDepotKind, Seq<char>> {
    if has_infix(target, "linux"@) {
        Ok(SteamDepotKind::Linux)
    } else if has_infix(target, "windows"@) {
        Ok(SteamDepotKind::Windows)
    } else {
        Err(msg_no_depot(target))
    }
}

impl SteamDepotKind {
    /// Stable depot label used in staged content paths.
    pub fn label(self) -> (r: &'static str)
        ensures
            r@ == depot_label(self),
    {
        match self {
            SteamDepotKind::Common => "common",
            SteamDepotKind::Linux => "linux",
            SteamDepotKind::Windows => "windows",
        }
    }

    /// Steamworks OS rule to configure for this depot.
    pub fn steam_os_rule(self) -> (r: &'static str)
        ensures
            r@ == (match self {
                SteamDepotKind::Common => "All OS"@,
                SteamDepotKind::Linux => "Linux"@,
                SteamDepotKind::Windows => "Windows"@,
            }),
    {
        match self {
            SteamDepotKind::Common => "All OS",
            SteamDepotKind::Linux => "Linux",
            SteamDepotKind::Windows => "Windows",
        }
    }

    /// Depot kind for a supported Rust runtime target triple.
    pub fn for_runtime_target(target: &str) -> (r: Result<SteamDepotKind, String>)
        ensures
            match depot_for_target(target@) {
                Ok(k) => r == Ok::<SteamDepotKind, String>(k),
                Err(m) => r matches Err(e) && e@ == m,
            },
    {
        if contains(target, "linux") {
            Ok(SteamDepotKind::Linux)
        } else if contains(target, "windows") {
            Ok(SteamDepotKind::Windows)
        } else {
            Err(concat3("runtime target has no configured Steam depot: ", target, "\nhelp: add a target-to-depot rule before staging this platform"))
        }
    }
}

/// Which root a depot include is copied from.
#[derive(Debug, Clone, Copy, PartialEq, Eq, Structural)]
pub enum PayloadRoot {
    /// The Steam installation/app root.
    Installation,
    /// The open source root.
    Source,
}

/// One manifest-declared allowlisted staging input.
#[derive(Debug, Clone)]
pub struct DepotInclude {
    /// Root the input is taken from.
    pub root: PayloadRoot,
    /// Path of the input under its root.
    pub from: String,
    /// Path under the depot content root.
    pub to: String,
    /// Runtime target the input is scoped to, if any.
    pub target: Option<String>,
    /// Whether a missing input is an error.
    pub required: bool,
    /// Paths under the input that are not copied.
    pub exclude: Vec<String>,
}

/// One logical Steam depot and its include list.
#[derive(Debug, Clone)]
pub struct SteamDepot {
    /// Steam DepotID.
    pub id: u32,
    /// Allowlisted inputs.
    pub includes: Vec<DepotInclude>,
}

impl SteamDepot {
    /// Steam DepotID.
    pub fn id(&self) -> (r: u32)
        ensures
            r == self.id,
    {
        self.id
    }

    /// Manifest-declared include list for this depot.
    pub fn includes(&self) -> (r: &[DepotInclude])
        ensures
            r@ == self.includes@,
    {
        self.includes.as_slice()
    }
}

/// Steam depot definitions for the platform-split app payload.
#[derive(Debug, Clone)]
pub struct SteamDepots {
    /// Shared content depot.
    pub common: SteamDepot,
    /// Linux runtime depot.
    pub linux: SteamDepot,
    /// Windows runtime depot.
    pub windows: SteamDepot,
}

/// The depot of a kind.
pub open spec fn depot_of(d: SteamDepots, k: SteamDepotKind) -> SteamDepot {
    match k {
        SteamDepotKind::Common => d.common,
        SteamDepotKind::Linux => d.linux,
        SteamDepotKind::Windows => d.windows,
    }
}

impl SteamDepots {
    /// Shared content depot ID.
    pub fn common(&self) -> (r: u32)
        ensures
            r == self.common.id,
    {
        self.common.id
    }

    /// Linux runtime depot ID.
    pub fn linux(&self) -> (r: u32)
        ensures
            r == self.linux.id,
    {
        self.linux.id
    }

    /// Windows runtime depot ID.
    pub fn windows(&self) -> (r: u32)
        ensures
            r == self.windows.id,
    {
        self.windows.id
    }

    /// Depot ID for one logical depot kind.
    pub fn id(&self, kind: SteamDepotKind) -> (r: u32)
        ensures
            r == depot_of(*self, kind).id,
    {
        self.depot(kind).id
    }

    /// Depot definition for one logical depot kind.
    pub fn depot(&self, kind: SteamDepotKind) -> (r: &SteamDepot)
        ensures
            *r == depot_of(*self, kind),
    {
        match kind {
            SteamDepotKind::Common => &self.common,
            SteamDepotKind::Linux => &self.linux,
            SteamDepotKind::Windows => &self.windows,
        }
    }
}

/// Message for a depot without inputs.
pub open spec fn msg_empty_depot(k: SteamDepotKind) -> Seq<char> {
    "root.steam.depots."@ + depot_label(k) + ".include must not be empty"@
}

/// Steam application identifiers and development branch.
#[derive(Debug, Clone)]
pub struct Application {
    /// Steam AppID.
    pub app_id: u32,
    /// Automatically activated development beta branch.
    pub development_branch: String,
    /// Platform-split depots.
    pub depots: Option<SteamDepots>,
}

impl Application {
    /// Steam AppID.
    pub fn app_id(&self) -> (r: u32)
        ensures
            r == self.app_id,
    {
        self.app_id
    }

    /// Automatically activated development beta branch.
    pub fn development_branch(&self) -> (r: &str)
        ensures
            r@ == self.development_branch@,
    {
        self.development_branch.as_str()
    }

    /// Platform-split Steam depots; a validated manifest always has them.
    pub fn depots(&self) -> (r: &SteamDepots)
        requires
            self.depots.is_some(),
        ensures
            *r == self.depots.unwrap(),
    {
        self.depots.as_ref().unwrap()
    }

    /// Steam DepotID for one logical depot kind.
    pub fn depot_id(&self, kind: SteamDepotKind) -> (r: u32)
        requires
            self.depots.is_some(),
        ensures
            r == depot_of(self.depots.unwrap(), kind).id,
    {
        self.depots().id(kind)
    }

    /// Steam depot definition for one logical depot kind.
    pub fn depot(&self, kind: SteamDepotKind) -> (r: &SteamDepot)
        requires
            self.depots.is_some(),
        ensures
            *r == depot_of(self.depots.unwrap(), kind),
    {
        self.depots().depot(kind)
    }
}

/// Parsed application and payload policy of a source root.
#[derive(Debug, Clone)]
pub struct DistributionManifest {
    /// Steam application policy.
    pub application: Application,
}

impl DistributionManifest {
    /// Steam application policy.
    pub fn application(&self) -> (r: &Application)
        ensures
            *r == self.application,
    {
        &self.application
    }
}

/// Message for an unsafe distribution path.
pub open spec fn msg_unsafe_distribution_path(p: Seq<char>) -> Seq<char> {
    "distribution path must be safe and relative: "@ + p
}

/// Require a distribution path to be a non-empty relative path without `..`.
pub fn validate_relative(path: &str) -> (r: Result<(), String>)
    ensures
        is_safe_relative(path@) ==> r is Ok,
        !is_safe_relative(path@) ==> (r matches Err(e) && e@ == msg_unsafe_distribution_path(path@)),
{
    if is_safe_relative_path(path) {
        Ok(())
    } else {
        Err(concat("distribution path must be safe and relative: ", path))
    }
}

/// Message for a runtime target that is not a target triple.
pub open spec fn msg_bad_runtime_target(t: Seq<char>) -> Seq<char> {
    "runtime target must be a Rust target triple such as x86_64-pc-windows-gnullvm: "@ + t
}

/// Require `target` to be a plausible Rust target triple.
pub fn validate_runtime_target(target: &str) -> (r: Result<(), String>)
    ensures
        is_target_triple(target@) ==> r is Ok,
        !is_target_triple(target@) ==> (r matches Err(e) && e@ == msg_bad_runtime_target(target@)),
{
    if is_runtime_target(target) {
        Ok(())
    } else {
        Err(concat("runtime target must be a Rust target triple such as x86_64-pc-windows-gnullvm: ", target))
    }
}

/// The first unsafe path of `ps`, if any.
pub open spec fn first_unsafe_path(ps: Seq<String>) -> Option<Seq<char>>
    decreases ps.len(),
{
    if ps.len() == 0 {
        None
    } else if !is_safe_relative(ps[0]@) {
        Some(ps[0]@)
    } else {
        first_unsafe_path(ps.drop_first())
    }
}

/// The problem of one input of the depot of kind `kind`.
pub open spec fn include_problem(kind: SteamDepotKind, item: DepotInclude) -> Option<Seq<char>> {
    if !is_safe_relative(item.from@) {
        Some(msg_unsafe_distribution_path(item.from@))
    } else if !is_safe_relative(item.to@) {
        Some(msg_unsafe_distribution_path(item.to@))
    } else if first_unsafe_path(item.exclude@).is_some() {
        Some(msg_unsafe_distribution_path(first_unsafe_path(item.exclude@).unwrap()))
    } else {
        match item.target {
            None => None,
            Some(t) => target_problem(kind, t@),
        }
    }
}

/// The problem of an input of the depot of kind `kind` scoped to target `t`.
pub open spec fn target_problem(kind: SteamDepotKind, t: Seq<char>) -> Option<Seq<char>> {
    if !is_target_triple(t) {
        Some(msg_bad_runtime_target(t))
    } else {
        match depot_for_target(t) {
            Err(m) => Some(m),
            Ok(d) => {
                if kind == SteamDepotKind::Common {
                    Some("root.steam.depots.common.include cannot be target-scoped: "@ + t)
                } else if d != kind {
                    Some("root.steam.depots."@ + depot_label(kind) + ".include target "@ + t + " belongs to the "@
                        + depot_label(d) + " depot"@)
                } else {
                    None
                }
            },
        }
    }
}

/// The first problem among the inputs of a depot.
pub open spec fn includes_problem(kind: SteamDepotKind, items: Seq<DepotInclude>) -> Option<Seq<char>>
    decreases items.len(),
{
    if items.len() == 0 {
        None
    } else {
        match include_problem(kind, items[0]) {
            Some(m) => Some(m),
            None => includes_problem(kind, items.drop_first()),
        }
    }
}

fn check_exclusions(exclude: &[String]) -> (r: Result<(), String>)
    ensures
        match first_unsafe_path(exclude@) {
            None => r is Ok,
            Some(p) => r matches Err(e) && e@ == msg_unsafe_distribution_path(p),
        },
{
    let mut i: usize = 0;
    assert(exclude@.subrange(0, exclude@.len() as int) =~= exclude@);
    while i < exclude.len()
        invariant
            i <= exclude@.len(),
            first_unsafe_path(exclude@) == first_unsafe_path(exclude@.subrange(i as int, exclude@.len() as int)),
        decreases exclude@.len() - i,
    {
        proof {
            let rest = exclude@.subrange(i as int, exclude@.len() as int);
            assert(rest.drop_first() =~= exclude@.subrange(i + 1, exclude@.len() as int));
        }
        validate_relative(exclude[i].as_str())?;
        i = i + 1;
    }
    proof {
        assert(exclude@.subrange(i as int, exclude@.len() as int).len() == 0);
    }
    Ok(())
}

fn check_include(kind: SteamDepotKind, item: &DepotInclude) -> (r: Result<(), String>)
    ensures
        match include_problem(kind, *item) {
            None => r is Ok,
            Some(m) => r matches Err(e) && e@ == m,
        },
{
    validate_relative(item.from.as_str())?;
    validate_relative(item.to.as_str())?;
    check_exclusions(item.exclude.as_slice())?;
    match &item.target {
        None => Ok(()),
        Some(t) => {
            validate_runtime_target(t.as_str())?;
            let d = SteamDepotKind::for_runtime_target(t.as_str())?;
            if kind == SteamDepotKind::Common {
                return Err(concat("root.steam.depots.common.include cannot be target-scoped: ", t.as_str()));
            }
            if d != kind {
                let head = concat4("root.steam.depots.", kind.label(), ".include target ", t.as_str());
                return Err(concat4(head.as_str(), " belongs to the ", d.label(), " depot"));
            }
            Ok(())
        },
    }
}

/// The first problem of the depots' inputs, depot by depot (common, linux,
/// windows): a depot without inputs, or an input with a problem.
pub open spec fn depots_includes_problem(d: SteamDepots) -> Option<Seq<char>> {
    if d.common.includes@.len() == 0 {
        Some(msg_empty_depot(SteamDepotKind::Common))
    } else if includes_problem(SteamDepotKind::Common, d.common.includes@).is_some() {
        includes_problem(SteamDepotKind::Common, d.common.includes@)
    } else if d.linux.includes@.len() == 0 {
        Some(msg_empty_depot(SteamDepotKind::Linux))
    } else if includes_problem(SteamDepotKind::Linux, d.linux.includes@).is_some() {
        includes_problem(SteamDepotKind::Linux, d.linux.includes@)
    } else if d.windows.includes@.len() == 0 {
        Some(msg_empty_depot(SteamDepotKind::Windows))
    } else {
        includes_problem(SteamDepotKind::Windows, d.windows.includes@)
    }
}

fn check_depot_includes(kind: SteamDepotKind, depot: &SteamDepot) -> (r: Result<(), String>)
    ensures
        depot.includes@.len() == 0 ==> (r matches Err(e) && e@ == msg_empty_depot(kind)),
        depot.includes@.len() > 0 ==> match includes_problem(kind, depot.includes@) {
            None => r is Ok,
            Some(m) => r matches Err(e) && e@ == m,
        },
{
    if depot.includes.len() == 0 {
        return Err(concat3("root.steam.depots.", kind.label(), ".include must not be empty"));
    }
    let items = depot.includes.as_slice();
    let mut i: usize = 0;
    assert(items@.subrange(0, items@.len() as int) =~= items@);
    while i < items.len()
        invariant
            i <= items@.len(),
            items@ == depot.includes@,
            includes_problem(kind, items@) == includes_problem(kind, items@.subrange(i as int, items@.len() as int)),
        decreases items@.len() - i,
    {
        proof {
            let rest = items@.subrange(i as int, items@.len() as int);
            assert(rest.drop_first() =~= items@.subrange(i + 1, items@.len() as int));
        }
        check_include(kind, &items[i])?;
        i = i + 1;
    }
    proof {
        assert(items@.subrange(i as int, items@.len() as int).len() == 0);
    }
    Ok(())
}

/// Message for a depot with a zero ID.
pub open spec fn msg_zero_depot(name: Seq<char>) -> Seq<char> {
    "root.steam.depots."@ + name + " must be non-zero"@
}

/// The outcome of validating a parsed `[root.steam]` policy: its absence is
/// no policy; a present one must have a non-zero AppID, three non-zero
/// distinct depot IDs, a non-default development branch, and valid inputs.
pub open spec fn distribution_outcome(steam: Option<Application>) -> Result<Option<Application>, Seq<char>> {
    match steam {
        None => Ok(None),
        Some(a) => {
            if a.app_id == 0 {
                Err("Steam AppID must be non-zero"@)
            } else {
                match a.depots {
                    None => Err("root.steam.depots is required; configure common, linux, and windows depot IDs"@),
                    Some(d) => depots_outcome(a, d),
                }
            }
        },
    }
}

/// The outcome of validating the depots `d` of application policy `a`.
pub open spec fn depots_outcome(a: Application, d: SteamDepots) -> Result<Option<Application>, Seq<char>> {
    if d.common.id == 0 {
        Err(msg_zero_depot("common"@))
    } else if d.linux.id == 0 {
        Err(msg_zero_depot("linux"@))
    } else if d.windows.id == 0 {
        Err(msg_zero_depot("windows"@))
    } else if d.common.id == d.linux.id || d.common.id == d.windows.id || d.linux.id == d.windows.id {
        Err("root.steam.depots IDs must be unique"@)
    } else if trim(a.development_branch@).len() == 0 || a.development_branch@ == "default"@ {
        Err("development branch must be non-empty and non-default"@)
    } else {
        match depots_includes_problem(d) {
            Some(m) => Err(m),
            None => Ok(Some(a)),
        }
    }
}

impl DistributionManifest {
    /// Validate the `[root.steam]` policy parsed from the app source manifest;
    /// a source root without one has no distribution policy.
    pub fn load_optional(steam: Option<Application>) -> (r: Result<Option<DistributionManifest>, String>)
        ensures
            match distribution_outcome(steam) {
                Ok(None) => r matches Ok(None),
                Ok(Some(a)) => r matches Ok(Some(m)) && m.application == a,
                Err(msg) => r matches Err(e) && e@ == msg,
            },
    {
        let a = match steam {
            None => {
                return Ok(None);
            },
            Some(a) => a,
        };
        if a.app_id == 0 {
            return Err(owned("Steam AppID must be non-zero"));
        }
        match &a.depots {
            None => {
                return Err(owned("root.steam.depots is required; configure common, linux, and windows depot IDs"));
            },
            Some(d) => {
                if d.common.id == 0 {
                    return Err(concat3("root.steam.depots.", "common", " must be non-zero"));
                }
                if d.linux.id == 0 {
                    return Err(concat3("root.steam.depots.", "linux", " must be non-zero"));
                }
                if d.windows.id == 0 {
                    return Err(concat3("root.steam.depots.", "windows", " must be non-zero"));
                }
                if d.common.id == d.linux.id || d.common.id == d.windows.id || d.linux.id == d.windows.id {
                    return Err(owned("root.steam.depots IDs must be unique"));
                }
                if trim_str(a.development_branch.as_str()).unicode_len() == 0 || str_eq(a.development_branch.as_str(), "default") {
                    return Err(owned("development branch must be non-empty and non-default"));
                }
                check_depot_includes(SteamDepotKind::Common, &d.common)?;
                check_depot_includes(SteamDepotKind::Linux, &d.linux)?;
                check_depot_includes(SteamDepotKind::Windows, &d.windows)?;
            },
        }
        Ok(Some(DistributionManifest { application: a }))
    }

    /// Require a validated `[root.steam]` policy for the source at
    /// `source_root`.
    pub fn load(loaded: Result<Option<DistributionManifest>, String>, source_root: &str) -> (r: Result<DistributionManifest, String>)
        ensures
            match loaded {
                Err(e) => r matches Err(m) && m == e,
                Ok(None) => r matches Err(m) && m@ == "source root '"@ + source_root@ + "' does not declare [root.steam]"@,
                Ok(Some(x)) => r matches Ok(y) && y == x,
            },
    {
        match loaded? {
            Some(m) => Ok(m),
            None => Err(concat3("source root '", source_root, "' does not declare [root.steam]")),
        }
    }
}

/// One staged depot content root.
#[derive(Debug, Clone)]
pub struct DepotStage {
    /// Logical depot kind.
    pub kind: SteamDepotKind,
    /// Staged content root of the depot.
    pub root: String,
}

impl DepotStage {
    /// Logical depot kind.
    pub fn kind(&self) -> (r: SteamDepotKind)
        ensures
            r == self.kind,
    {
        self.kind
    }

    /// Staged content root for this depot.
    pub fn root(&self) -> (r: &str)
        ensures
            r@ == self.root@,
    {
        self.root.as_str()
    }
}

/// Completed staging summary.
#[derive(Debug, Clone)]
pub struct StageReport {
    /// Staged app content root holding one directory per depot.
    pub root: String,
    /// Staged depot content roots.
    pub depots: Vec<DepotStage>,
    /// Number of copied files.
    pub files: usize,
}

impl StageReport {
    /// Staged app content root containing one directory per depot.
    pub fn root(&self) -> (r: &str)
        ensures
            r@ == self.root@,
    {
        self.root.as_str()
    }

    /// Staged depot content roots.
    pub fn depots(&self) -> (r: &[DepotStage])
        ensures
            r@ == self.depots@,
    {
        self.depots.as_slice()
    }

    /// The first staged depot of `kind`.
    pub fn depot(&self, kind: SteamDepotKind) -> (r: Option<&DepotStage>)
        ensures
            match r {
                Some(d) => d.kind == kind && exists|i: int| 0 <= i < self.depots@.len() && self.depots@[i] == *d
                    && forall|j: int| 0 <= j < i ==> (#[trigger] self.depots@[j]).kind != kind,
                None => forall|j: int| 0 <= j < self.depots@.len() ==> (#[trigger] self.depots@[j]).kind != kind,
            },
    {
        let mut i: usize = 0;
        while i < self.depots.len()
            invariant
                i <= self.depots@.len(),
                forall|j: int| 0 <= j < i ==> (#[trigger] self.depots@[j]).kind != kind,
            decreases self.depots@.len() - i,
        {
            if self.depots[i].kind == kind {
                return Some(&self.depots[i]);
            }
            i = i + 1;
        }
        None
    }

    /// Number of copied files.
    pub fn files(&self) -> (r: usize)
        ensures
            r == self.files,
    {
        self.files
    }
}

/// Options for assembling the app/depot staging tree.
#[derive(Debug, Clone)]
pub struct StageOptions {
    /// Runtime target triples the staged payload represents.
    pub runtime_targets: Vec<String>,
}

impl StageOptions {
    /// Stage only the runtime payload of the host target `host`.
    pub fn runtime(host: &str) -> (r: Self)
        ensures
            r.runtime_targets@.len() == 1,
            r.runtime_targets@[0]@ == host@,
    {
        StageOptions { runtime_targets: vec![host.to_owned()] }
    }

    /// Use an explicit runtime target set; an empty one means the host
    /// target `host`.
    pub fn with_runtime_targets(self, targets: Vec<String>, host: &str) -> (r: Self)
        ensures
            targets@.len() == 0 ==> r.runtime_targets@.len() == 1 && r.runtime_targets@[0]@ == host@,
            targets@.len() > 0 ==> r.runtime_targets@ == targets@,
    {
        if targets.len() == 0 {
            StageOptions { runtime_targets: vec![host.to_owned()] }
        } else {
            StageOptions { runtime_targets: targets }
        }
    }

    /// Runtime target triples represented by this staged payload.
    pub fn runtime_targets(&self) -> (r: &[String])
        ensures
            r@ == self.runtime_targets@,
    {
        self.runtime_targets.as_slice()
    }
}

/// The first target, in order, that no depot serves.
pub open spec fn first_undeployable(targets: Seq<String>) -> Option<Seq<char>>
    decreases targets.len(),
{
    if targets.len() == 0 {
        None
    } else if depot_for_target(targets[0]@) is Err {
        Some(targets[0]@)
    } else {
        first_undeployable(targets.drop_first())
    }
}

/// The runtime depots that `targets` need, in depot order, each once.
pub open spec fn runtime_depots(targets: Seq<String>) -> Seq<SteamDepotKind> {
    let linux = exists|i: int| 0 <= i < targets.len() && depot_for_target((#[trigger] targets[i])@) == Ok::<SteamDepotKind, Seq<char>>(SteamDepotKind::Linux);
    let windows = exists|i: int| 0 <= i < targets.len() && depot_for_target((#[trigger] targets[i])@) == Ok::<SteamDepotKind, Seq<char>>(SteamDepotKind::Windows);
    (if linux { seq![SteamDepotKind::Linux] } else { Seq::empty() }) + (if windows { seq![SteamDepotKind::Windows] } else { Seq::empty() })
}

/// The runtime depots that `targets` need, in depot order, each once; a
/// target no depot serves is an error.
pub fn depot_kinds_for_targets(targets: &[String]) -> (r: Result<Vec<SteamDepotKind>, String>)
    ensures
        match first_undeployable(targets@) {
            Some(t) => r matches Err(e) && e@ == msg_no_depot(t),
            None => r matches Ok(v) && v@ == runtime_depots(targets@),
        },
{
    let mut linux = false;
    let mut windows = false;
    let mut i: usize = 0;
    assert(targets@.subrange(0, targets@.len() as int) =~= targets@);
    while i < targets.len()
        invariant
            i <= targets@.len(),
            first_undeployable(targets@) == first_undeployable(targets@.subrange(i as int, targets@.len() as int)),
            linux == exists|k: int| 0 <= k < i && depot_for_target((#[trigger] targets@[k])@) == Ok::<SteamDepotKind, Seq<char>>(SteamDepotKind::Linux),
            windows == exists|k: int| 0 <= k < i && depot_for_target((#[trigger] targets@[k])@) == Ok::<SteamDepotKind, Seq<char>>(SteamDepotKind::Windows),
        decreases targets@.len() - i,
    {
        proof {
            let rest = targets@.subrange(i as int, targets@.len() as int);
            assert(rest.drop_first() =~= targets@.subrange(i + 1, targets@.len() as int));
            assert(rest[0] == targets@[i as int]);
        }
        match SteamDepotKind::for_runtime_target(targets[i].as_str()) {
            Ok(SteamDepotKind::Linux) => {
                linux = true;
            },
            Ok(SteamDepotKind::Windows) => {
                windows = true;
            },
            Ok(SteamDepotKind::Common) => {},
            Err(e) => {
                return Err(e);
            },
        }
        i = i + 1;
    }
    let mut kinds: Vec<SteamDepotKind> = Vec::new();
    if linux {
        kinds.push(SteamDepotKind::Linux);
    }
    if windows {
        kinds.push(SteamDepotKind::Windows);
    }
    proof {
        assert(kinds@ =~= runtime_depots(targets@));
    }
    Ok(kinds)
}

/// Root of the staged app content under an installation.
pub fn stage_root(installation_root: &str) -> (r: String)
    ensures
        r@ == join(installation_root@, "output/root/content"@),
{
    join_path(installation_root, "output/root/content")
}

/// The depots a staging run fills under `stage_root`: common first, then the
/// runtime depots that the selected targets need.
pub fn stage_depots(stage_root: &str, targets: &[String]) -> (r: Result<Vec<DepotStage>, String>)
    ensures
        match first_undeployable(targets@) {
            Some(t) => r matches Err(e) && e@ == msg_no_depot(t),
            None => r matches Ok(v) && v@.len() == runtime_depots(targets@).len() + 1
                && v@[0].kind == SteamDepotKind::Common && v@[0].root@ == join(stage_root@, "common"@)
                && forall|i: int| 0 <= i < runtime_depots(targets@).len() ==> (#[trigger] v@[i + 1]).kind == runtime_depots(targets@)[i]
                    && v@[i + 1].root@ == join(stage_root@, depot_label(runtime_depots(targets@)[i])),
        },
{
    let kinds = depot_kinds_for_targets(targets)?;
    let mut v: Vec<DepotStage> = Vec::new();
    v.push(DepotStage { kind: SteamDepotKind::Common, root: join_path(stage_root, SteamDepotKind::Common.label()) });
    let mut i: usize = 0;
    while i < kinds.len()
        invariant
            i <= kinds@.len(),
            v@.len() == i + 1,
            v@[0].kind == SteamDepotKind::Common && v@[0].root@ == join(stage_root@, "common"@),
            forall|j: int| 0 <= j < i ==> (#[trigger] v@[j + 1]).kind == kinds@[j] && v@[j + 1].root@ == join(stage_root@, depot_label(kinds@[j])),
        decreases kinds@.len() - i,
    {
        let k = kinds[i];
        v.push(DepotStage { kind: k, root: join_path(stage_root, k.label()) });
        i = i + 1;
    }
    Ok(v)
}

/// Whether an input is staged for `selected` targets: an untargeted input
/// always is, a targeted one (whose target must be a triple) when its target
/// is selected.
pub fn include_selected(item: &DepotInclude, selected: &[String]) -> (r: Result<bool, String>)
    ensures
        match item.target {
            None => r matches Ok(b) && b,
            Some(t) => if !is_target_triple(t@) {
                r matches Err(e) && e@ == msg_bad_runtime_target(t@)
            } else {
                r matches Ok(b) && b == crate::text::string_views(selected@).contains(t@)
            },
        },
{
    match &item.target {
        None => Ok(true),
        Some(t) => {
            validate_runtime_target(t.as_str())?;
            proof {
                assert(crate::text::string_views(selected@).take(selected@.len() as int) =~= crate::text::string_views(selected@));
            }
            Ok(crate::text::strings_contain(selected, selected.len(), t.as_str()))
        },
    }
}

/// What a missing input means: an error when required, else nothing copied.
pub fn missing_include(required: bool, source: &str) -> (r: Result<usize, String>)
    ensures
        required ==> (r matches Err(e) && e@ == "required depot include is missing: "@ + source@),
        !required ==> (r matches Ok(n) && n == 0),
{
    if required {
        Err(concat("required depot include is missing: ", source))
    } else {
        Ok(0)
    }
}

} // verus!
