//! Launching the selected Loo-Cast packagepack: which engine the packagepack
//! names, which engine binary serves the host's runtime target, whether the
//! installed content is fit to launch, and what the engine is told.

use vstd::prelude::*;
use crate::text::{owned, concat, concat3, str_eq, contains, has_infix, string_views};
use crate::paths::{join, join_path};
use crate::manifest::{ENGINE_FILE_NAME, PACKAGEPACK_FILE_NAME};
use crate::content::VerifyReport;

verus! {

/// Artifact ID of the first-party Loo-Cast packagepack.
pub const LOO_CAST_PACKAGEPACK_ID: &'static str = "ghf-studios/loo-cast/loo-cast-packagepack";

/// The parts of an installed content manifest that a launch reads.
#[derive(Debug)]
pub struct LaunchManifest {
    /// The `[packagepack]` section, when present.
    pub packagepack: Option<LaunchContent>,
    /// The `[engine]` section, when present.
    pub engine: Option<LaunchContent>,
}

/// Runtime payloads and dependencies of one content section.
#[derive(Debug)]
pub struct LaunchContent {
    /// Runtime payloads, one per runtime target.
    pub runtime: Vec<LaunchRuntime>,
    /// Declared dependencies.
    pub dependencies: Vec<LaunchReference>,
}

/// The binaries of one runtime target.
#[derive(Debug)]
pub struct LaunchRuntime {
    /// Rust target triple.
    pub target: String,
    /// Binary file names, the first being the launch binary.
    pub binaries: Vec<String>,
}

/// One dependency reference.
#[derive(Debug)]
pub struct LaunchReference {
    /// Referenced artifact ID.
    pub id: String,
    /// Relationship, such as `engine`.
    pub relationship: String,
}

/// The relationship of a dependency that declares none.
pub fn default_launch_relationship() -> (r: String)
    ensures
        r@ == "dependency"@,
{
    owned("dependency")
}

/// Index of the first dependency whose relationship is `engine`.
pub open spec fn first_engine(deps: Seq<LaunchReference>) -> Option<int> {
    if exists|i: int| 0 <= i < deps.len() && (#[trigger] deps[i]).relationship@ == "engine"@ {
        Some(choose|i: int| 0 <= i < deps.len() && (#[trigger] deps[i]).relationship@ == "engine"@
            && forall|j: int| 0 <= j < i ==> (#[trigger] deps[j]).relationship@ != "engine"@)
    } else {
        None
    }
}

proof fn lemma_first_engine(deps: Seq<LaunchReference>, i: int)
    requires
        0 <= i < deps.len(),
        deps[i].relationship@ == "engine"@,
        forall|j: int| 0 <= j < i ==> (#[trigger] deps[j]).relationship@ != "engine"@,
    ensures
        first_engine(deps) == Some(i),
{
    let k = choose|k: int| 0 <= k < deps.len() && (#[trigger] deps[k]).relationship@ == "engine"@
        && forall|j: int| 0 <= j < k ==> (#[trigger] deps[j]).relationship@ != "engine"@;
    assert(0 <= k < deps.len() && deps[k].relationship@ == "engine"@);
    if k < i {
        assert(deps[k].relationship@ != "engine"@);
    }
    if i < k {
        assert(deps[i].relationship@ != "engine"@);
    }
}

/// The engine a packagepack at `root` names, from its parsed manifest.
pub open spec fn engine_id_spec(root: Seq<char>, m: LaunchManifest) -> Result<Seq<char>, Seq<char>> {
    let path = join(root, PACKAGEPACK_FILE_NAME@);
    match m.packagepack {
        None => Err("selected packagepack manifest '"@ + path + "' has no [packagepack] section"@),
        Some(p) => match first_engine(p.dependencies@) {
            Some(i) => Ok(p.dependencies@[i].id@),
            None => Err("selected packagepack '"@ + path + "' has no required engine dependency"@),
        },
    }
}

/// The engine the selected packagepack at `packagepack_root` runs on: the
/// first dependency related as `engine` in its parsed manifest.
pub fn selected_packagepack_engine_id(packagepack_root: &str, parsed: &LaunchManifest) -> (r: Result<String, String>)
    ensures
        match engine_id_spec(packagepack_root@, *parsed) {
            Ok(id) => r matches Ok(s) && s@ == id,
            Err(m) => r matches Err(e) && e@ == m,
        },
{
    let path = join_path(packagepack_root, PACKAGEPACK_FILE_NAME);
    match &parsed.packagepack {
        None => Err(concat3("selected packagepack manifest '", path.as_str(), "' has no [packagepack] section")),
        Some(p) => {
            let deps = &p.dependencies;
            let mut i: usize = 0;
            while i < deps.len()
                invariant
                    parsed.packagepack == Some(*p),
                    *deps == p.dependencies,
                    i <= deps@.len(),
                    forall|j: int| 0 <= j < i ==> (#[trigger] deps@[j]).relationship@ != "engine"@,
                decreases deps@.len() - i,
            {
                if str_eq(deps[i].relationship.as_str(), "engine") {
                    proof {
                        lemma_first_engine(deps@, i as int);
                    }
                    return Ok(owned(deps[i].id.as_str()));
                }
                i = i + 1;
            }
            Err(concat3("selected packagepack '", path.as_str(), "' has no required engine dependency"))
        },
    }
}

/// Index of the first runtime payload for `target`.
pub open spec fn first_runtime(rs: Seq<LaunchRuntime>, target: Seq<char>) -> Option<int> {
    if exists|i: int| 0 <= i < rs.len() && (#[trigger] rs[i]).target@ == target {
        Some(choose|i: int| 0 <= i < rs.len() && (#[trigger] rs[i]).target@ == target
            && forall|j: int| 0 <= j < i ==> (#[trigger] rs[j]).target@ != target)
    } else {
        None
    }
}

proof fn lemma_first_runtime(rs: Seq<LaunchRuntime>, target: Seq<char>, i: int)
    requires
        0 <= i < rs.len(),
        rs[i].target@ == target,
        forall|j: int| 0 <= j < i ==> (#[trigger] rs[j]).target@ != target,
    ensures
        first_runtime(rs, target) == Some(i),
{
    let k = choose|k: int| 0 <= k < rs.len() && (#[trigger] rs[k]).target@ == target
        && forall|j: int| 0 <= j < k ==> (#[trigger] rs[j]).target@ != target;
    assert(0 <= k < rs.len() && rs[k].target@ == target);
    if k < i {
        assert(rs[k].target@ != target);
    }
    if i < k {
        assert(rs[i].target@ != target);
    }
}

/// The engine binary that serves `target`, under the engine at `root`.
pub open spec fn engine_binary_spec(root: Seq<char>, m: LaunchManifest, target: Seq<char>) -> Result<Seq<char>, Seq<char>> {
    let path = join(root, ENGINE_FILE_NAME@);
    match m.engine {
        None => Err("selected packagepack engine manifest '"@ + path + "' has no [engine] section"@),
        Some(e) => match first_runtime(e.runtime@, target) {
            None => Err("selected packagepack engine '"@ + path + "' has no runtime payload for "@ + target
                + "\nhelp: install content built for this platform"@),
            Some(i) => if e.runtime@[i].binaries@.len() == 0 {
                Err("selected packagepack engine '"@ + path + "' declares no runtime binary for "@ + target)
            } else {
                Ok(join(join(join(root, "bin"@), target), e.runtime@[i].binaries@[0]@))
            },
        },
    }
}

/// The binary the launch hands off to: the first binary of the engine's
/// runtime payload for `runtime_target`, under `bin/<target>/` of the
/// installed engine at `engine_root`.
pub fn engine_launch_binary(engine_root: &str, parsed: &LaunchManifest, runtime_target: &str) -> (r: Result<String, String>)
    ensures
        match engine_binary_spec(engine_root@, *parsed, runtime_target@) {
            Ok(b) => r matches Ok(s) && s@ == b,
            Err(m) => r matches Err(e) && e@ == m,
        },
{
    let path = join_path(engine_root, ENGINE_FILE_NAME);
    match &parsed.engine {
        None => Err(concat3("selected packagepack engine manifest '", path.as_str(), "' has no [engine] section")),
        Some(e) => {
            let rs = &e.runtime;
            let mut i: usize = 0;
            while i < rs.len()
                invariant
                    parsed.engine == Some(*e),
                    *rs == e.runtime,
                    path@ == join(engine_root@, ENGINE_FILE_NAME@),
                    i <= rs@.len(),
                    forall|j: int| 0 <= j < i ==> (#[trigger] rs@[j]).target@ != runtime_target@,
                decreases rs@.len() - i,
            {
                if str_eq(rs[i].target.as_str(), runtime_target) {
                    proof {
                        lemma_first_runtime(rs@, runtime_target@, i as int);
                    }
                    if rs[i].binaries.len() == 0 {
                        let mut m = concat3("selected packagepack engine '", path.as_str(), "' declares no runtime binary for ");
                        m.append(runtime_target);
                        return Err(m);
                    }
                    let dir = join_path(&join_path(engine_root, "bin"), runtime_target);
                    return Ok(join_path(dir.as_str(), rs[i].binaries[0].as_str()));
                }
                i = i + 1;
            }
            let mut m = concat3("selected packagepack engine '", path.as_str(), "' has no runtime payload for ");
            m.append(runtime_target);
            m.append("\nhelp: install content built for this platform");
            Err(m)
        },
    }
}

/// Refuse to hand off to an engine binary that is not a file.
pub fn require_engine_binary(binary: &str, is_file: bool) -> (r: Result<(), String>)
    ensures
        is_file ==> r is Ok,
        !is_file ==> (r matches Err(e) && e@ == "selected packagepack engine binary is missing: "@ + binary@
            + "\nhelp: deploy or install content with runtime outputs"@),
{
    if is_file {
        Ok(())
    } else {
        Err(concat3("selected packagepack engine binary is missing: ", binary, "\nhelp: deploy or install content with runtime outputs"))
    }
}

/// Whether installed content is fit to launch.
#[derive(Debug)]
pub enum LaunchReadiness {
    /// No installed content was verified: first-run guidance instead.
    NothingInstalled,
    /// Some installed content failed verification: the artifact IDs and
    /// details of those that did, in order.
    NeedsRepair(Vec<(String, String)>),
    /// Every installed artifact verified; the count of them.
    Ready(usize),
}

/// The failed reports, as artifact ID and detail, in order.
pub open spec fn broken_reports(rs: Seq<VerifyReport>) -> Seq<(Seq<char>, Seq<char>)>
    decreases rs.len(),
{
    if rs.len() == 0 {
        Seq::empty()
    } else {
        broken_reports(rs.drop_last()) + (if rs.last().ok { Seq::empty() } else { seq![(rs.last().artifact_id@, rs.last().detail@)] })
    }
}

/// View of a readiness verdict.
pub open spec fn readiness_view(r: LaunchReadiness) -> Option<Result<nat, Seq<(Seq<char>, Seq<char>)>>> {
    match r {
        LaunchReadiness::NothingInstalled => None,
        LaunchReadiness::NeedsRepair(v) => Some(Err(v@.map_values(|p: (String, String)| (p.0@, p.1@)))),
        LaunchReadiness::Ready(n) => Some(Ok(n as nat)),
    }
}

/// Whether installed content is fit to launch, from the verification of
/// every installed artifact.
pub fn launch_readiness(reports: &[VerifyReport]) -> (r: LaunchReadiness)
    ensures
        reports@.len() == 0 ==> r is NothingInstalled,
        reports@.len() > 0 && broken_reports(reports@).len() > 0 ==> readiness_view(r) == Some(Err::<nat, Seq<(Seq<char>, Seq<char>)>>(broken_reports(reports@))),
        reports@.len() > 0 && broken_reports(reports@).len() == 0 ==> readiness_view(r) == Some(Ok::<nat, Seq<(Seq<char>, Seq<char>)>>(reports@.len())),
{
    if reports.len() == 0 {
        return LaunchReadiness::NothingInstalled;
    }
    let mut broken: Vec<(String, String)> = Vec::new();
    let mut i: usize = 0;
    while i < reports.len()
        invariant
            i <= reports@.len(),
            broken@.map_values(|p: (String, String)| (p.0@, p.1@)) == broken_reports(reports@.take(i as int)),
        decreases reports@.len() - i,
    {
        let ghost before = broken@;
        let report = &reports[i];
        if !report.ok {
            broken.push((owned(report.artifact_id.as_str()), owned(report.detail.as_str())));
            proof {
                assert(broken@.map_values(|p: (String, String)| (p.0@, p.1@)) =~= before.map_values(|p: (String, String)| (p.0@, p.1@)).push((report.artifact_id@, report.detail@)));
            }
        }
        proof {
            assert(reports@.take(i + 1).drop_last() =~= reports@.take(i as int));
        }
        i = i + 1;
    }
    proof {
        assert(reports@.take(reports@.len() as int) =~= reports@);
    }
    if broken.len() > 0 {
        LaunchReadiness::NeedsRepair(broken)
    } else {
        LaunchReadiness::Ready(reports.len())
    }
}

/// The outcome of the engine process: success, or its exit status.
pub fn launch_exit(success: bool, status: &str) -> (r: Result<(), String>)
    ensures
        success ==> r is Ok,
        !success ==> (r matches Err(e) && e@ == "Spacetime Engine exited with "@ + status@),
{
    if success {
        Ok(())
    } else {
        Err(concat("Spacetime Engine exited with ", status))
    }
}

/// Whether an install failed because SteamCMD is missing, which calls for
/// first-run guidance.
pub fn steamcmd_missing(error: &str) -> (r: bool)
    ensures
        r == has_infix(error@, "SteamCMD is not installed"@),
{
    contains(error, "SteamCMD is not installed")
}

/// The environment the engine is started with, in order.
pub open spec fn launch_env_spec(packagepack_id: Seq<char>, packagepack_root: Seq<char>, engine_id: Seq<char>, engine_root: Seq<char>, target: Seq<char>) -> Seq<(Seq<char>, Seq<char>)> {
    seq![
        ("VAPOR_LAUNCH_TARGET"@, "loo-cast"@),
        ("VAPOR_PACKAGEPACK_ID"@, packagepack_id),
        ("VAPOR_PACKAGEPACK_ROOT"@, packagepack_root),
        ("VAPOR_ENGINE_ID"@, engine_id),
        ("VAPOR_ENGINE_ROOT"@, engine_root),
        ("VAPOR_RUNTIME_TARGET"@, target),
    ]
}

/// The environment variables the engine is started with: the launch
/// target, the packagepack and engine IDs and roots, and the runtime target.
pub fn launch_environment(packagepack_id: &str, packagepack_root: &str, engine_id: &str, engine_root: &str, runtime_target: &str) -> (r: Vec<(String, String)>)
    ensures
        r@.map_values(|p: (String, String)| (p.0@, p.1@)) == launch_env_spec(packagepack_id@, packagepack_root@, engine_id@, engine_root@, runtime_target@),
{
    let mut v: Vec<(String, String)> = Vec::new();
    v.push((owned("VAPOR_LAUNCH_TARGET"), owned("loo-cast")));
    v.push((owned("VAPOR_PACKAGEPACK_ID"), owned(packagepack_id)));
    v.push((owned("VAPOR_PACKAGEPACK_ROOT"), owned(packagepack_root)));
    v.push((owned("VAPOR_ENGINE_ID"), owned(engine_id)));
    v.push((owned("VAPOR_ENGINE_ROOT"), owned(engine_root)));
    v.push((owned("VAPOR_RUNTIME_TARGET"), owned(runtime_target)));
    proof {
        assert(v@.map_values(|p: (String, String)| (p.0@, p.1@)) =~= launch_env_spec(packagepack_id@, packagepack_root@, engine_id@, engine_root@, runtime_target@));
    }
    v
}


/// Installed content is reported fit to launch exactly when every installed
/// artifact verified.
pub proof fn law_no_broken_means_all_verified(reports: Seq<VerifyReport>)
    ensures
        (broken_reports(reports).len() == 0) == (forall|i: int| 0 <= i < reports.len() ==> (#[trigger] reports[i]).ok),
    decreases reports.len(),
{
    if reports.len() > 0 {
        law_no_broken_means_all_verified(reports.drop_last());
        if broken_reports(reports).len() == 0 {
            assert forall|i: int| 0 <= i < reports.len() implies (#[trigger] reports[i]).ok by {
                if i < reports.len() - 1 {
                    assert(reports.drop_last()[i] == reports[i]);
                }
            }
        }
        if forall|i: int| 0 <= i < reports.len() ==> (#[trigger] reports[i]).ok {
            assert forall|i: int| 0 <= i < reports.drop_last().len() implies (#[trigger] reports.drop_last()[i]).ok by {
                assert(reports.drop_last()[i] == reports[i]);
            }
            assert(reports[reports.len() - 1].ok);
        }
    }
}

} // verus!
