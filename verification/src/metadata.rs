//! One coherent snapshot of the active environment (source root, workspace
//! policy, distribution policy, app-local tools), and the command-specific
//! preflight checks that read it without changing anything.

use vstd::prelude::*;
use crate::text::{concat3, owned};
use crate::app_local_tools::{AppToolRequirement, AppToolStatus, require_status, missing_requirements, msg_tools_missing};
use crate::workspace::WorkspaceManifest;
use crate::distribution::DistributionManifest;

verus! {

/// Output representation supported by `vapor metadata`.
#[derive(Debug, Clone, Copy, PartialEq, Eq, Structural)]
pub enum MetadataFormat {
    /// Concise output intended for people.
    Human,
    /// Stable structured output intended for scripts and agents.
    Json,
}

impl MetadataFormat {
    /// The default representation: for people.
    pub fn default_format() -> (r: Self)
        ensures
            r == MetadataFormat::Human,
    {
        MetadataFormat::Human
    }
}

/// Requirements checked before one command performs side effects.
#[derive(Debug, Clone)]
pub struct ValidationPlan {
    /// The user action named in diagnostics.
    pub action: String,
    /// App-local tool groups the action needs, in order.
    pub app_local_tools: Vec<AppToolRequirement>,
    /// Whether valid workspace policy is needed.
    pub workspace: bool,
    /// Whether valid Steam distribution policy is needed.
    pub distribution: bool,
}

impl ValidationPlan {
    /// A plan for the named user action that requires nothing yet.
    pub fn new(action: &str) -> (r: Self)
        ensures
            r.action@ == action@,
            r.app_local_tools@.len() == 0,
            !r.workspace,
            !r.distribution,
    {
        ValidationPlan { action: action.to_owned(), app_local_tools: Vec::new(), workspace: false, distribution: false }
    }

    /// Also require the selected app-local tool groups.
    pub fn app_local_tools(self, requirements: &[AppToolRequirement]) -> (r: Self)
        ensures
            r.action == self.action,
            r.app_local_tools@ == self.app_local_tools@ + requirements@,
            r.workspace == self.workspace,
            r.distribution == self.distribution,
    {
        let mut tools = self.app_local_tools;
        let mut i: usize = 0;
        let ghost start = tools@;
        while i < requirements.len()
            invariant
                i <= requirements@.len(),
                tools@ == start + requirements@.take(i as int),
            decreases requirements@.len() - i,
        {
            tools.push(requirements[i]);
            proof {
                assert(tools@ =~= start + requirements@.take(i + 1));
            }
            i = i + 1;
        }
        proof {
            assert(requirements@.take(requirements@.len() as int) =~= requirements@);
        }
        ValidationPlan { action: self.action, app_local_tools: tools, workspace: self.workspace, distribution: self.distribution }
    }

    /// Also require valid workspace policy.
    pub fn workspace(self) -> (r: Self)
        ensures
            r.action == self.action,
            r.app_local_tools == self.app_local_tools,
            r.workspace,
            r.distribution == self.distribution,
    {
        ValidationPlan { workspace: true, ..self }
    }

    /// Also require valid Steam distribution policy.
    pub fn distribution(self) -> (r: Self)
        ensures
            r.action == self.action,
            r.app_local_tools == self.app_local_tools,
            r.workspace == self.workspace,
            r.distribution,
    {
        ValidationPlan { distribution: true, ..self }
    }
}

/// One coherent snapshot of the active environment.
#[derive(Debug)]
pub struct ResolvedMetadata {
    /// Root of the open source, if any.
    pub source_root: Option<String>,
    /// Workspace policy, or why it is unavailable.
    pub workspace: Result<WorkspaceManifest, String>,
    /// Steam distribution policy (absent when not declared), or why it is
    /// unavailable.
    pub distribution: Result<Option<DistributionManifest>, String>,
    /// App-local tool status.
    pub tools: AppToolStatus,
}

/// Message when distribution policy is asked for with no source open.
pub open spec fn msg_no_distribution_source() -> Seq<char> {
    "cannot load distribution policy: no Vapor source is open\nhelp: open an application source root with `open NAME` or `open PATH`"@
}

/// The distribution policy of a snapshot, or why there is none.
pub open spec fn distribution_of(m: ResolvedMetadata) -> Result<DistributionManifest, Seq<char>> {
    match m.distribution {
        Err(e) => Err(e@),
        Ok(Some(d)) => Ok(d),
        Ok(None) => match m.source_root {
            Some(root) => Err("source root '"@ + root@ + "' does not declare [root.steam]"@),
            None => Err(msg_no_distribution_source()),
        },
    }
}

/// The outcome of checking `plan` against a snapshot: tools first, then
/// workspace policy, then distribution policy.
pub open spec fn validation_outcome(m: ResolvedMetadata, plan: ValidationPlan) -> Result<(), Seq<char>> {
    let missing = missing_requirements(m.tools, plan.app_local_tools@);
    if plan.app_local_tools@.len() > 0 && missing.len() > 0 {
        Err(msg_tools_missing(m.tools, missing, plan.action@))
    } else if plan.workspace && m.workspace is Err {
        Err(m.workspace->Err_0@)
    } else if plan.distribution && distribution_of(m) is Err {
        Err(distribution_of(m)->Err_0)
    } else {
        Ok(())
    }
}

impl ResolvedMetadata {
    /// A snapshot of what was resolved for the session.
    pub fn resolve(
        source_root: Option<String>,
        workspace: Result<WorkspaceManifest, String>,
        distribution: Result<Option<DistributionManifest>, String>,
        tools: AppToolStatus,
    ) -> (r: Self)
        ensures
            r.source_root == source_root,
            r.workspace == workspace,
            r.distribution == distribution,
            r.tools == tools,
    {
        ResolvedMetadata { source_root, workspace, distribution, tools }
    }

    /// Check the capabilities one command needs, stopping at the first unmet
    /// one; nothing is installed, repaired, or accepted.
    pub fn validate(&self, plan: &ValidationPlan) -> (r: Result<(), String>)
        ensures
            match validation_outcome(*self, *plan) {
                Ok(()) => r is Ok,
                Err(m) => r matches Err(e) && e@ == m,
            },
    {
        if plan.app_local_tools.len() > 0 {
            require_status(&self.tools, plan.app_local_tools.as_slice(), plan.action.as_str())?;
        }
        if plan.workspace {
            match &self.workspace {
                Err(e) => {
                    return Err(e.clone());
                },
                Ok(_) => {},
            }
        }
        if plan.distribution {
            match self.distribution_manifest() {
                Err(e) => {
                    return Err(e);
                },
                Ok(_) => {},
            }
        }
        Ok(())
    }

    /// Validated workspace policy of the snapshot.
    pub fn workspace_manifest(&self) -> (r: Result<&WorkspaceManifest, String>)
        ensures
            match self.workspace {
                Ok(w) => r matches Ok(x) && *x == w,
                Err(e) => r matches Err(m) && m@ == e@,
            },
    {
        match &self.workspace {
            Ok(w) => Ok(w),
            Err(e) => Err(e.clone()),
        }
    }

    /// App-local tool status of the snapshot.
    pub fn setup_status(&self) -> (r: &AppToolStatus)
        ensures
            *r == self.tools,
    {
        &self.tools
    }

    /// Validated Steam distribution policy of the snapshot.
    pub fn distribution_manifest(&self) -> (r: Result<&DistributionManifest, String>)
        ensures
            match distribution_of(*self) {
                Ok(d) => r matches Ok(x) && *x == d,
                Err(m) => r matches Err(e) && e@ == m,
            },
    {
        match &self.distribution {
            Err(e) => Err(e.clone()),
            Ok(Some(d)) => Ok(d),
            Ok(None) => match &self.source_root {
                Some(root) => Err(concat3("source root '", root.as_str(), "' does not declare [root.steam]")),
                None => Err(owned("cannot load distribution policy: no Vapor source is open\nhelp: open an application source root with `open NAME` or `open PATH`")),
            },
        }
    }
}

} // verus!
