//! The manifests section of the human-readable metadata report: the
//! workspace manifest with its Cargo workspaces and registered Vapor
//! projects, and the Steam application with its depots.

use vstd::prelude::*;
use crate::text::{owned, concat, decimal, decimal_string, string_views};

verus! {

/// Whether a manifest was found and read.
#[derive(Debug, Clone, Copy, PartialEq, Eq, Structural)]
pub enum ResourceState {
    /// Read and valid.
    Ready,
    /// Not there.
    Absent,
    /// There but refused, with an error.
    Invalid,
}

/// A registered Vapor project as the report lists it.
#[derive(Debug)]
pub struct RegisteredProjectReport {
    /// Local project name.
    pub name: String,
    /// Project kind label.
    pub kind: String,
}

/// The workspace manifest as the report sees it.
#[derive(Debug)]
pub struct WorkspaceManifestReport {
    /// Whether the manifest was read.
    pub status: ResourceState,
    /// Names of the Cargo workspaces it declares.
    pub projects: Vec<String>,
    /// The Vapor projects it registers.
    pub registered_projects: Vec<RegisteredProjectReport>,
    /// Why it was refused.
    pub error: Option<String>,
}

/// One Steam depot of the application.
#[derive(Debug)]
pub struct SteamDepotReport {
    /// Depot kind label.
    pub kind: String,
    /// Depot ID.
    pub depot_id: u32,
    /// SteamOS rule of the depot.
    pub steam_os_rule: String,
}

/// The Steam application as the report sees it.
#[derive(Debug)]
pub struct ApplicationReport {
    /// Steam AppID.
    pub app_id: u32,
    /// The depots, in order.
    pub depots: Vec<SteamDepotReport>,
    /// The development branch.
    pub development_branch: String,
}

/// The distribution manifest as the report sees it.
#[derive(Debug)]
pub struct DistributionManifestReport {
    /// Whether the manifest was read.
    pub status: ResourceState,
    /// The application it declares (present when ready).
    pub application: Option<ApplicationReport>,
    /// Why it was refused.
    pub error: Option<String>,
}

/// Both manifests of the report.
#[derive(Debug)]
pub struct ManifestReport {
    /// The workspace manifest.
    pub workspace: WorkspaceManifestReport,
    /// The distribution manifest.
    pub distribution: DistributionManifestReport,
}

/// `s` for a count other than one.
pub open spec fn plural(count: nat) -> Seq<char> {
    if count == 1 { Seq::empty() } else { "s"@ }
}

/// An error's text, or `unknown error`.
pub open spec fn error_text(error: Option<String>) -> Seq<char> {
    match error {
        Some(e) => e@,
        None => "unknown error"@,
    }
}

/// The lines describing the workspace manifest.
pub open spec fn workspace_lines(w: WorkspaceManifestReport) -> Seq<Seq<char>> {
    match w.status {
        ResourceState::Ready => {
            let p = w.projects@.len();
            let n = w.registered_projects@.len();
            let head = seq!["  Workspace manifest: ready ("@ + decimal(p) + " Cargo workspace"@ + plural(p) + ", "@
                + decimal(n) + " registered project"@ + plural(n) + ")"@];
            let cargo = if p == 0 { Seq::empty() } else {
                seq!["    Cargo workspaces:"@] + Seq::new(p, |i: int| "      - "@ + w.projects@[i]@)
            };
            let vapor = if n == 0 { Seq::empty() } else {
                seq!["    Vapor projects:"@] + Seq::new(n, |i: int| "      - "@ + w.registered_projects@[i].name@ + " ("@
                    + w.registered_projects@[i].kind@ + ")"@)
            };
            head + cargo + vapor
        },
        ResourceState::Absent => seq!["  Workspace manifest: not open"@],
        ResourceState::Invalid => seq!["  Workspace manifest: invalid ("@ + error_text(w.error) + ")"@],
    }
}

/// The lines describing the Steam application.
pub open spec fn distribution_lines(d: DistributionManifestReport) -> Seq<Seq<char>> {
    match d.status {
        ResourceState::Ready => {
            let a = d.application.unwrap();
            seq!["  Steam app: "@ + decimal(a.app_id as nat) + " / branch "@ + a.development_branch@]
                + Seq::new(a.depots@.len(), |i: int| "    depot "@ + a.depots@[i].kind@ + ": "@
                    + decimal(a.depots@[i].depot_id as nat) + " ("@ + a.depots@[i].steam_os_rule@ + ")"@)
        },
        ResourceState::Absent => Seq::empty(),
        ResourceState::Invalid => seq!["  Steam app: invalid ("@ + error_text(d.error) + ")"@],
    }
}

/// The manifests section of the report, line by line.
pub open spec fn manifests_lines_spec(report: ManifestReport) -> Seq<Seq<char>> {
    workspace_lines(report.workspace) + distribution_lines(report.distribution)
}

fn plural_str(count: usize) -> (r: &'static str)
    ensures
        r@ == plural(count as nat),
{
    proof {
        reveal_strlit("");
    }
    if count == 1 { "" } else { "s" }
}

fn error_str(error: &Option<String>) -> (r: &str)
    ensures
        r@ == error_text(*error),
{
    match error {
        Some(e) => e.as_str(),
        None => "unknown error",
    }
}

/// The manifests section of the metadata report, one line per entry. A
/// ready distribution manifest carries its application.
pub fn manifests_report_lines(report: &ManifestReport) -> (r: Vec<String>)
    requires
        report.distribution.status == ResourceState::Ready ==> report.distribution.application is Some,
    ensures
        string_views(r@) == manifests_lines_spec(*report),
{
    let mut out = workspace_report_lines(&report.workspace);
    let more = distribution_report_lines(&report.distribution);
    let ghost first = out@;
    let mut i: usize = 0;
    while i < more.len()
        invariant
            i <= more@.len(),
            string_views(out@) == string_views(first) + string_views(more@).take(i as int),
        decreases more@.len() - i,
    {
        let ghost before = out@;
        out.push(more[i].clone());
        proof {
            assert(string_views(out@) =~= string_views(before).push(more@[i as int]@));
            assert(string_views(more@).take(i + 1) =~= string_views(more@).take(i as int).push(more@[i as int]@));
        }
        i = i + 1;
    }
    proof {
        assert(string_views(more@).take(more@.len() as int) =~= string_views(more@));
    }
    out
}

fn workspace_report_lines(w: &WorkspaceManifestReport) -> (r: Vec<String>)
    ensures
        string_views(r@) == workspace_lines(*w),
{
    let mut out: Vec<String> = Vec::new();
    match w.status {
        ResourceState::Ready => {
            let p = w.projects.len();
            let n = w.registered_projects.len();
            let mut head = owned("  Workspace manifest: ready (");
            head.append(decimal_string(p as u64).as_str());
            head.append(" Cargo workspace");
            head.append(plural_str(p));
            head.append(", ");
            head.append(decimal_string(n as u64).as_str());
            head.append(" registered project");
            head.append(plural_str(n));
            head.append(")");
            out.push(head);
            let ghost head_only = string_views(out@);
            if p > 0 {
                out.push(owned("    Cargo workspaces:"));
                let mut i: usize = 0;
                while i < p
                    invariant
                        i <= p,
                        p == w.projects@.len(),
                        string_views(out@) == head_only + seq!["    Cargo workspaces:"@]
                            + Seq::new(i as nat, |k: int| "      - "@ + w.projects@[k]@),
                    decreases p - i,
                {
                    let ghost before = string_views(out@);
                    out.push(concat("      - ", w.projects[i].as_str()));
                    proof {
                        assert(string_views(out@) =~= before.push("      - "@ + w.projects@[i as int]@));
                        assert(string_views(out@) =~= head_only + seq!["    Cargo workspaces:"@]
                            + Seq::new((i + 1) as nat, |k: int| "      - "@ + w.projects@[k]@));
                    }
                    i = i + 1;
                }
            }
            let ghost with_cargo = string_views(out@);
            if n > 0 {
                out.push(owned("    Vapor projects:"));
                let mut i: usize = 0;
                while i < n
                    invariant
                        i <= n,
                        n == w.registered_projects@.len(),
                        string_views(out@) == with_cargo + seq!["    Vapor projects:"@]
                            + Seq::new(i as nat, |k: int| "      - "@ + w.registered_projects@[k].name@ + " ("@
                                + w.registered_projects@[k].kind@ + ")"@),
                    decreases n - i,
                {
                    let project = &w.registered_projects[i];
                    let mut line = concat("      - ", project.name.as_str());
                    line.append(" (");
                    line.append(project.kind.as_str());
                    line.append(")");
                    let ghost before = string_views(out@);
                    let ghost lv = line@;
                    out.push(line);
                    proof {
                        assert(string_views(out@) =~= before.push(lv));
                        assert(string_views(out@) =~= with_cargo + seq!["    Vapor projects:"@]
                            + Seq::new((i + 1) as nat, |k: int| "      - "@ + w.registered_projects@[k].name@ + " ("@
                                + w.registered_projects@[k].kind@ + ")"@));
                    }
                    i = i + 1;
                }
            }
            proof {
                if p == 0 {
                    assert(with_cargo =~= head_only + Seq::<Seq<char>>::empty());
                }
                if n == 0 {
                    assert(string_views(out@) =~= with_cargo + Seq::<Seq<char>>::empty());
                }
                assert(string_views(out@) =~= workspace_lines(*w));
            }
        },
        ResourceState::Absent => {
            out.push(owned("  Workspace manifest: not open"));
            proof {
                assert(string_views(out@) =~= workspace_lines(*w));
            }
        },
        ResourceState::Invalid => {
            let mut line = owned("  Workspace manifest: invalid (");
            line.append(error_str(&w.error));
            line.append(")");
            out.push(line);
            proof {
                assert(string_views(out@) =~= workspace_lines(*w));
            }
        },
    }
    out
}

fn distribution_report_lines(d: &DistributionManifestReport) -> (r: Vec<String>)
    requires
        d.status == ResourceState::Ready ==> d.application is Some,
    ensures
        string_views(r@) == distribution_lines(*d),
{
    let mut out: Vec<String> = Vec::new();
    match d.status {
        ResourceState::Ready => {
            let a = match &d.application {
                Some(a) => a,
                None => {
                    proof {
                        assert(false);
                    }
                    return out;
                },
            };
            let mut head = owned("  Steam app: ");
            head.append(decimal_string(a.app_id as u64).as_str());
            head.append(" / branch ");
            head.append(a.development_branch.as_str());
            out.push(head);
            let ghost head_only = string_views(out@);
            let mut i: usize = 0;
            while i < a.depots.len()
                invariant
                    i <= a.depots@.len(),
                    string_views(out@) == head_only + Seq::new(i as nat, |k: int| "    depot "@ + a.depots@[k].kind@ + ": "@
                        + decimal(a.depots@[k].depot_id as nat) + " ("@ + a.depots@[k].steam_os_rule@ + ")"@),
                decreases a.depots@.len() - i,
            {
                let depot = &a.depots[i];
                let mut line = concat("    depot ", depot.kind.as_str());
                line.append(": ");
                line.append(decimal_string(depot.depot_id as u64).as_str());
                line.append(" (");
                line.append(depot.steam_os_rule.as_str());
                line.append(")");
                let ghost before = string_views(out@);
                let ghost lv = line@;
                out.push(line);
                proof {
                    assert(string_views(out@) =~= before.push(lv));
                    assert(string_views(out@) =~= head_only + Seq::new((i + 1) as nat, |k: int| "    depot "@ + a.depots@[k].kind@
                        + ": "@ + decimal(a.depots@[k].depot_id as nat) + " ("@ + a.depots@[k].steam_os_rule@ + ")"@));
                }
                i = i + 1;
            }
            proof {
                assert(string_views(out@) =~= distribution_lines(*d));
            }
        },
        ResourceState::Absent => {
            proof {
                assert(string_views(out@) =~= distribution_lines(*d));
            }
        },
        ResourceState::Invalid => {
            let mut line = owned("  Steam app: invalid (");
            line.append(error_str(&d.error));
            line.append(")");
            out.push(line);
            proof {
                assert(string_views(out@) =~= distribution_lines(*d));
            }
        },
    }
    out
}

} // verus!
