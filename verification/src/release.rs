//! Publishing the application/depot root and releasing content to the
//! Workshop, as state machines: each step takes what the previous effect
//! reported and answers with the next effect to perform. Every failure ends
//! the run with that failure, and the upload is asked for only once every
//! earlier step succeeded.

use vstd::prelude::*;
use crate::text::{owned, string_views};
use crate::content::copy_strings;
use crate::workflow::CargoWorkflow;
use crate::command::{
    account_present, msg_publish_needs_account, msg_publish_skip_build, resolve_publish_spec,
    resolve_publish_runtime_targets_from, resolve_runtime_targets_from, resolve_targets_spec, root_publish_preflight,
};

verus! {

/// What a `root publish` asks for.
#[derive(Debug)]
pub struct RootPublishRequest {
    /// Steam account for a real upload.
    pub account: Option<String>,
    /// Explicit runtime targets.
    pub target: Vec<String>,
    /// Use the declared release target matrix.
    pub release_targets: bool,
    /// Use the host target only.
    pub host_only: bool,
    /// Reuse already-promoted binaries (dry runs only).
    pub skip_build: bool,
    /// Stage and preview without uploading.
    pub dry_run: bool,
}

/// Where a root publication stands.
#[derive(Debug, Clone, Copy, PartialEq, Eq, Structural)]
pub enum RootPhase {
    /// Nothing done yet.
    Start,
    /// Waiting for the metadata validation, which reports the declared targets.
    AwaitingValidation,
    /// Waiting for the `validate` workflow over the targets.
    AwaitingValidateWorkflow,
    /// Waiting for the `build` workflow over the targets.
    AwaitingBuildWorkflow,
    /// Waiting for the built binaries to be promoted.
    AwaitingPromote,
    /// Waiting for the documentation build.
    AwaitingDocs,
    /// Waiting for the Steam stage and upload (or its preview).
    AwaitingUpload,
    /// The run is over.
    Finished,
}

/// A root publication in progress: its phase and the runtime targets it
/// resolved.
#[derive(Debug)]
pub struct RootPublishState {
    /// Where the run stands.
    pub phase: RootPhase,
    /// Resolved runtime targets (empty before resolution).
    pub targets: Vec<String>,
}

/// What the last effect reported.
#[derive(Debug)]
pub enum RootPublishEvent {
    /// The run is asked to start.
    Begin,
    /// Validation passed; the workspace declares these runtime targets.
    Validated { declared_targets: Vec<String> },
    /// The asked-for effect succeeded.
    Succeeded,
    /// The asked-for effect failed with this error.
    Failed { error: String },
}

/// The next effect to perform.
#[derive(Debug)]
pub enum RootPublishAction {
    /// Validate metadata, workspace, distribution and app-local tools.
    Validate,
    /// Run a Cargo workflow over the targets.
    RunWorkflow { workflow: CargoWorkflow, targets: Vec<String> },
    /// Promote the built binaries for the targets.
    Promote { targets: Vec<String> },
    /// Build the documentation.
    BuildDocs,
    /// Stage the depots for the targets and upload them (or preview).
    Upload { targets: Vec<String> },
    /// The run succeeded.
    Done,
    /// The run failed with this error.
    Fail { error: String },
}

/// The meaning of an action: the effect and the runtime targets or error
/// text it carries.
pub enum ActionView {
    /// Validate before anything else.
    Validate,
    /// Run a Cargo workflow over the targets.
    RunWorkflow(CargoWorkflow, Seq<Seq<char>>),
    /// Promote built binaries for the targets.
    Promote(Seq<Seq<char>>),
    /// Build the documentation.
    BuildDocs,
    /// Upload (or preview) for the targets.
    Upload(Seq<Seq<char>>),
    /// The run succeeded.
    Done,
    /// The run failed with this error.
    Fail(Seq<char>),
}

/// The meaning of a root publication action.
pub open spec fn root_action_view(a: RootPublishAction) -> ActionView {
    match a {
        RootPublishAction::Validate => ActionView::Validate,
        RootPublishAction::RunWorkflow { workflow, targets } => ActionView::RunWorkflow(workflow, string_views(targets@)),
        RootPublishAction::Promote { targets } => ActionView::Promote(string_views(targets@)),
        RootPublishAction::BuildDocs => ActionView::BuildDocs,
        RootPublishAction::Upload { targets } => ActionView::Upload(string_views(targets@)),
        RootPublishAction::Done => ActionView::Done,
        RootPublishAction::Fail { error } => ActionView::Fail(error@),
    }
}

/// The account of a request, as text.
pub open spec fn account_view(account: Option<String>) -> Option<Seq<char>> {
    match account {
        Some(a) => Some(a@),
        None => None,
    }
}

/// The events each phase waits for: the start for `Start`, the validation
/// (or its failure) for `AwaitingValidation`, the effect's outcome for the
/// other waiting phases; nothing once finished.
pub open spec fn root_event_fits(phase: RootPhase, event: RootPublishEvent) -> bool {
    match phase {
        RootPhase::Start => event is Begin,
        RootPhase::AwaitingValidation => event is Validated || event is Failed,
        RootPhase::Finished => false,
        _ => event is Succeeded || event is Failed,
    }
}

/// The next phase, resolved targets, and action of a root publication.
pub open spec fn root_publish_next(req: RootPublishRequest, phase: RootPhase, targets: Seq<Seq<char>>, event: RootPublishEvent)
    -> (RootPhase, Seq<Seq<char>>, ActionView)
{
    match event {
        RootPublishEvent::Failed { error } => (RootPhase::Finished, targets, ActionView::Fail(error@)),
        RootPublishEvent::Begin =>
            if !req.dry_run && !account_present(account_view(req.account)) {
                (RootPhase::Finished, targets, ActionView::Fail(msg_publish_needs_account()))
            } else if !req.dry_run && req.skip_build {
                (RootPhase::Finished, targets, ActionView::Fail(msg_publish_skip_build()))
            } else {
                (RootPhase::AwaitingValidation, targets, ActionView::Validate)
            },
        RootPublishEvent::Validated { declared_targets } =>
            match resolve_publish_spec(string_views(declared_targets@), string_views(req.target@), req.release_targets,
                req.host_only, req.dry_run, "app publication"@) {
                Err(m) => (RootPhase::Finished, targets, ActionView::Fail(m)),
                Ok(t) => if req.skip_build {
                    (RootPhase::AwaitingDocs, t, ActionView::BuildDocs)
                } else {
                    (RootPhase::AwaitingValidateWorkflow, t, ActionView::RunWorkflow(CargoWorkflow::Validate, t))
                },
            },
        RootPublishEvent::Succeeded => match phase {
            RootPhase::AwaitingValidateWorkflow =>
                (RootPhase::AwaitingBuildWorkflow, targets, ActionView::RunWorkflow(CargoWorkflow::Build, targets)),
            RootPhase::AwaitingBuildWorkflow => (RootPhase::AwaitingPromote, targets, ActionView::Promote(targets)),
            RootPhase::AwaitingPromote => (RootPhase::AwaitingDocs, targets, ActionView::BuildDocs),
            RootPhase::AwaitingDocs => (RootPhase::AwaitingUpload, targets, ActionView::Upload(targets)),
            _ => (RootPhase::Finished, targets, ActionView::Done),
        },
    }
}

/// A root publication before its first step.
pub fn root_publish_start() -> (r: RootPublishState)
    ensures
        r.phase == RootPhase::Start,
        r.targets@.len() == 0,
{
    RootPublishState { phase: RootPhase::Start, targets: Vec::new() }
}

/// One step of a root publication: what the last effect reported decides the
/// next phase and the next effect. The arguments are checked first (a real
/// upload needs an account and a build); validation then reports the
/// declared targets, from which the publication targets are resolved; the
/// `validate` and `build` workflows, the promotion of binaries and the
/// documentation build follow (all but the documentation skipped for a
/// `--skip-build` preview); the upload comes last. Any failure ends the run
/// with that failure.
pub fn root_publish_step(req: &RootPublishRequest, state: RootPublishState, event: RootPublishEvent) -> (r: (RootPublishState, RootPublishAction))
    requires
        root_event_fits(state.phase, event),
    ensures
        (r.0.phase, string_views(r.0.targets@), root_action_view(r.1))
            == root_publish_next(*req, state.phase, string_views(state.targets@), event),
{
    let RootPublishState { phase, targets } = state;
    match event {
        RootPublishEvent::Failed { error } =>
            (RootPublishState { phase: RootPhase::Finished, targets }, RootPublishAction::Fail { error }),
        RootPublishEvent::Begin => {
            let account = match &req.account {
                Some(a) => Some(a.as_str()),
                None => None,
            };
            proof {
                assert((match account { Some(a) => Some(a@), None => None::<Seq<char>> }) == account_view(req.account));
            }
            match root_publish_preflight(req.dry_run, account, req.skip_build) {
                Err(error) => (RootPublishState { phase: RootPhase::Finished, targets }, RootPublishAction::Fail { error }),
                Ok(()) => (RootPublishState { phase: RootPhase::AwaitingValidation, targets }, RootPublishAction::Validate),
            }
        },
        RootPublishEvent::Validated { declared_targets } => {
            match resolve_publish_runtime_targets_from(declared_targets.as_slice(), req.target.as_slice(), req.release_targets,
                req.host_only, req.dry_run, "app publication") {
                Err(error) => (RootPublishState { phase: RootPhase::Finished, targets }, RootPublishAction::Fail { error }),
                Ok(resolved) => {
                    let copy = copy_strings(resolved.as_slice());
                    if req.skip_build {
                        (RootPublishState { phase: RootPhase::AwaitingDocs, targets: resolved }, RootPublishAction::BuildDocs)
                    } else {
                        (RootPublishState { phase: RootPhase::AwaitingValidateWorkflow, targets: resolved },
                            RootPublishAction::RunWorkflow { workflow: CargoWorkflow::Validate, targets: copy })
                    }
                },
            }
        },
        RootPublishEvent::Succeeded => {
            let copy = copy_strings(targets.as_slice());
            match phase {
                RootPhase::AwaitingValidateWorkflow => (RootPublishState { phase: RootPhase::AwaitingBuildWorkflow, targets },
                    RootPublishAction::RunWorkflow { workflow: CargoWorkflow::Build, targets: copy }),
                RootPhase::AwaitingBuildWorkflow => (RootPublishState { phase: RootPhase::AwaitingPromote, targets },
                    RootPublishAction::Promote { targets: copy }),
                RootPhase::AwaitingPromote => (RootPublishState { phase: RootPhase::AwaitingDocs, targets },
                    RootPublishAction::BuildDocs),
                RootPhase::AwaitingDocs => (RootPublishState { phase: RootPhase::AwaitingUpload, targets },
                    RootPublishAction::Upload { targets: copy }),
                _ => (RootPublishState { phase: RootPhase::Finished, targets }, RootPublishAction::Done),
            }
        },
    }
}

/// The order of the phases.
pub open spec fn root_rank(p: RootPhase) -> int {
    match p {
        RootPhase::Start => 0,
        RootPhase::AwaitingValidation => 1,
        RootPhase::AwaitingValidateWorkflow => 2,
        RootPhase::AwaitingBuildWorkflow => 3,
        RootPhase::AwaitingPromote => 4,
        RootPhase::AwaitingDocs => 5,
        RootPhase::AwaitingUpload => 6,
        RootPhase::Finished => 7,
    }
}

/// Every step of a root publication moves it forward, so a run ends within
/// seven steps; a failure ends it with that failure; each phase is reached
/// only from the one before it on success (the documentation build also
/// straight from validation for a `--skip-build` preview), so the upload is
/// asked for only after validation, target resolution, both workflows, the
/// promotion (unless skipped) and the documentation build all succeeded; and
/// the targets resolved at validation are the ones every later effect gets.
pub proof fn law_root_publish_order(req: RootPublishRequest, phase: RootPhase, targets: Seq<Seq<char>>, event: RootPublishEvent)
    requires
        root_event_fits(phase, event),
    ensures
        ({
            let (next, t, action) = root_publish_next(req, phase, targets, event);
            &&& root_rank(next) > root_rank(phase)
            &&& (event matches RootPublishEvent::Failed { error } ==> next == RootPhase::Finished && action == ActionView::Fail(error@))
            &&& (action is Upload ==> phase == RootPhase::AwaitingDocs && event is Succeeded && action == ActionView::Upload(targets))
            &&& (next == RootPhase::AwaitingDocs ==> (phase == RootPhase::AwaitingPromote && event is Succeeded)
                || (phase == RootPhase::AwaitingValidation && event is Validated && req.skip_build))
            &&& (next == RootPhase::AwaitingPromote ==> phase == RootPhase::AwaitingBuildWorkflow && event is Succeeded)
            &&& (next == RootPhase::AwaitingBuildWorkflow ==> phase == RootPhase::AwaitingValidateWorkflow && event is Succeeded)
            &&& (next == RootPhase::AwaitingValidateWorkflow ==> phase == RootPhase::AwaitingValidation && event is Validated
                && !req.skip_build)
            &&& (next == RootPhase::AwaitingValidation ==> phase == RootPhase::Start
                && (req.dry_run || (account_present(account_view(req.account)) && !req.skip_build)))
            &&& (root_rank(phase) >= 2 && !(event is Failed) ==> t == targets)
        }),
{
}

/// Which Workshop release a content command makes.
#[derive(Debug, Clone, Copy, PartialEq, Eq, Structural)]
pub enum ContentRelease {
    /// `content create`: create a Workshop item.
    Create,
    /// `content publish`: update Workshop items.
    Publish,
}

/// The name of a Workshop release in target-matrix diagnostics.
pub open spec fn release_label(kind: ContentRelease) -> Seq<char> {
    match kind {
        ContentRelease::Create => "Workshop item creation"@,
        ContentRelease::Publish => "Workshop publication"@,
    }
}

fn release_label_str(kind: ContentRelease) -> (r: &'static str)
    ensures
        r@ == release_label(kind),
{
    match kind {
        ContentRelease::Create => "Workshop item creation",
        ContentRelease::Publish => "Workshop publication",
    }
}

/// What a `content create` or `content publish` asks for.
#[derive(Debug)]
pub struct ContentReleaseRequest {
    /// Create or publish.
    pub kind: ContentRelease,
    /// Explicit runtime targets.
    pub target: Vec<String>,
    /// Use the declared release target matrix.
    pub release_targets: bool,
    /// Use the host target only.
    pub host_only: bool,
    /// Write the package and provider script without uploading.
    pub dry_run: bool,
}

/// Where a content release stands.
#[derive(Debug, Clone, Copy, PartialEq, Eq, Structural)]
pub enum ContentPhase {
    /// Nothing done yet.
    Start,
    /// Waiting for the workspace (validated with the release tools for a
    /// real release), which reports the declared targets.
    AwaitingWorkspace,
    /// Waiting for the `validate` workflow over the targets.
    AwaitingValidateWorkflow,
    /// Waiting for the `build` workflow over the targets.
    AwaitingBuildWorkflow,
    /// Waiting for the Workshop operation (or its preview).
    AwaitingRelease,
    /// The run is over.
    Finished,
}

/// A content release in progress.
#[derive(Debug)]
pub struct ContentReleaseState {
    /// Where the run stands.
    pub phase: ContentPhase,
    /// Resolved runtime targets (empty before resolution).
    pub targets: Vec<String>,
}

/// What the last effect reported.
#[derive(Debug)]
pub enum ContentReleaseEvent {
    /// The run is asked to start.
    Begin,
    /// The workspace is ready; it declares these runtime targets.
    WorkspaceReady { declared_targets: Vec<String> },
    /// The asked-for effect succeeded.
    Succeeded,
    /// The asked-for effect failed with this error.
    Failed { error: String },
}

/// The next effect of a content release.
#[derive(Debug)]
pub enum ContentReleaseAction {
    /// Load the workspace, validating metadata and the release tools first
    /// when `validate` is set.
    ResolveWorkspace { validate: bool },
    /// Run a Cargo workflow over the targets.
    RunWorkflow { workflow: CargoWorkflow, targets: Vec<String> },
    /// Package for the targets and create or publish the Workshop item(s).
    Release { targets: Vec<String> },
    /// The run succeeded.
    Done,
    /// The run failed with this error.
    Fail { error: String },
}

/// The meaning of a content release action.
pub enum ContentActionView {
    /// Load (and for a real release validate) the workspace.
    ResolveWorkspace(bool),
    /// Run a Cargo workflow over the targets.
    RunWorkflow(CargoWorkflow, Seq<Seq<char>>),
    /// Package and release for the targets.
    Release(Seq<Seq<char>>),
    /// The run succeeded.
    Done,
    /// The run failed with this error.
    Fail(Seq<char>),
}

/// The meaning of a content release action.
pub open spec fn content_action_view(a: ContentReleaseAction) -> ContentActionView {
    match a {
        ContentReleaseAction::ResolveWorkspace { validate } => ContentActionView::ResolveWorkspace(validate),
        ContentReleaseAction::RunWorkflow { workflow, targets } => ContentActionView::RunWorkflow(workflow, string_views(targets@)),
        ContentReleaseAction::Release { targets } => ContentActionView::Release(string_views(targets@)),
        ContentReleaseAction::Done => ContentActionView::Done,
        ContentReleaseAction::Fail { error } => ContentActionView::Fail(error@),
    }
}

/// The events each phase waits for.
pub open spec fn content_event_fits(phase: ContentPhase, event: ContentReleaseEvent) -> bool {
    match phase {
        ContentPhase::Start => event is Begin,
        ContentPhase::AwaitingWorkspace => event is WorkspaceReady || event is Failed,
        ContentPhase::Finished => false,
        _ => event is Succeeded || event is Failed,
    }
}

/// The next phase, resolved targets, and action of a content release: the
/// workspace first (validated with the release tools unless previewing), then
/// the publication targets; a real release runs the `validate` and `build`
/// workflows before the Workshop operation, a preview goes straight to it.
pub open spec fn content_release_next(req: ContentReleaseRequest, phase: ContentPhase, targets: Seq<Seq<char>>, event: ContentReleaseEvent)
    -> (ContentPhase, Seq<Seq<char>>, ContentActionView)
{
    match event {
        ContentReleaseEvent::Failed { error } => (ContentPhase::Finished, targets, ContentActionView::Fail(error@)),
        ContentReleaseEvent::Begin => (ContentPhase::AwaitingWorkspace, targets, ContentActionView::ResolveWorkspace(!req.dry_run)),
        ContentReleaseEvent::WorkspaceReady { declared_targets } =>
            match resolve_publish_spec(string_views(declared_targets@), string_views(req.target@), req.release_targets,
                req.host_only, req.dry_run, release_label(req.kind)) {
                Err(m) => (ContentPhase::Finished, targets, ContentActionView::Fail(m)),
                Ok(t) => if req.dry_run {
                    (ContentPhase::AwaitingRelease, t, ContentActionView::Release(t))
                } else {
                    (ContentPhase::AwaitingValidateWorkflow, t, ContentActionView::RunWorkflow(CargoWorkflow::Validate, t))
                },
            },
        ContentReleaseEvent::Succeeded => match phase {
            ContentPhase::AwaitingValidateWorkflow =>
                (ContentPhase::AwaitingBuildWorkflow, targets, ContentActionView::RunWorkflow(CargoWorkflow::Build, targets)),
            ContentPhase::AwaitingBuildWorkflow => (ContentPhase::AwaitingRelease, targets, ContentActionView::Release(targets)),
            _ => (ContentPhase::Finished, targets, ContentActionView::Done),
        },
    }
}

/// A content release before its first step.
pub fn content_release_start() -> (r: ContentReleaseState)
    ensures
        r.phase == ContentPhase::Start,
        r.targets@.len() == 0,
{
    ContentReleaseState { phase: ContentPhase::Start, targets: Vec::new() }
}

/// One step of a Workshop create or publish: what the last effect reported
/// decides the next phase and the next effect. Any failure ends the run with
/// that failure.
pub fn content_release_step(req: &ContentReleaseRequest, state: ContentReleaseState, event: ContentReleaseEvent)
    -> (r: (ContentReleaseState, ContentReleaseAction))
    requires
        content_event_fits(state.phase, event),
    ensures
        (r.0.phase, string_views(r.0.targets@), content_action_view(r.1))
            == content_release_next(*req, state.phase, string_views(state.targets@), event),
{
    let ContentReleaseState { phase, targets } = state;
    match event {
        ContentReleaseEvent::Failed { error } =>
            (ContentReleaseState { phase: ContentPhase::Finished, targets }, ContentReleaseAction::Fail { error }),
        ContentReleaseEvent::Begin =>
            (ContentReleaseState { phase: ContentPhase::AwaitingWorkspace, targets },
                ContentReleaseAction::ResolveWorkspace { validate: !req.dry_run }),
        ContentReleaseEvent::WorkspaceReady { declared_targets } => {
            match resolve_publish_runtime_targets_from(declared_targets.as_slice(), req.target.as_slice(), req.release_targets,
                req.host_only, req.dry_run, release_label_str(req.kind)) {
                Err(error) => (ContentReleaseState { phase: ContentPhase::Finished, targets }, ContentReleaseAction::Fail { error }),
                Ok(resolved) => {
                    let copy = copy_strings(resolved.as_slice());
                    if req.dry_run {
                        (ContentReleaseState { phase: ContentPhase::AwaitingRelease, targets: resolved },
                            ContentReleaseAction::Release { targets: copy })
                    } else {
                        (ContentReleaseState { phase: ContentPhase::AwaitingValidateWorkflow, targets: resolved },
                            ContentReleaseAction::RunWorkflow { workflow: CargoWorkflow::Validate, targets: copy })
                    }
                },
            }
        },
        ContentReleaseEvent::Succeeded => {
            let copy = copy_strings(targets.as_slice());
            match phase {
                ContentPhase::AwaitingValidateWorkflow => (ContentReleaseState { phase: ContentPhase::AwaitingBuildWorkflow, targets },
                    ContentReleaseAction::RunWorkflow { workflow: CargoWorkflow::Build, targets: copy }),
                ContentPhase::AwaitingBuildWorkflow => (ContentReleaseState { phase: ContentPhase::AwaitingRelease, targets },
                    ContentReleaseAction::Release { targets: copy }),
                _ => (ContentReleaseState { phase: ContentPhase::Finished, targets }, ContentReleaseAction::Done),
            }
        },
    }
}

/// The order of the phases.
pub open spec fn content_rank(p: ContentPhase) -> int {
    match p {
        ContentPhase::Start => 0,
        ContentPhase::AwaitingWorkspace => 1,
        ContentPhase::AwaitingValidateWorkflow => 2,
        ContentPhase::AwaitingBuildWorkflow => 3,
        ContentPhase::AwaitingRelease => 4,
        ContentPhase::Finished => 5,
    }
}

/// Every step of a content release moves it forward; a failure ends it
/// with that failure; the workspace is validated with the release tools
/// exactly when the release is real; and the Workshop operation is asked for
/// only once the workspace was ready and the targets resolved, and, for a
/// real release, only after the `validate` and then the `build` workflow
/// succeeded over those targets.
pub proof fn law_content_release_order(req: ContentReleaseRequest, phase: ContentPhase, targets: Seq<Seq<char>>, event: ContentReleaseEvent)
    requires
        content_event_fits(phase, event),
    ensures
        ({
            let (next, t, action) = content_release_next(req, phase, targets, event);
            &&& content_rank(next) > content_rank(phase)
            &&& (event matches ContentReleaseEvent::Failed { error } ==> next == ContentPhase::Finished
                && action == ContentActionView::Fail(error@))
            &&& (action matches ContentActionView::ResolveWorkspace(validate) ==> validate == !req.dry_run)
            &&& (action is Release ==> (phase == ContentPhase::AwaitingBuildWorkflow && event is Succeeded
                && action == ContentActionView::Release(targets))
                || (phase == ContentPhase::AwaitingWorkspace && event is WorkspaceReady && req.dry_run))
            &&& (next == ContentPhase::AwaitingBuildWorkflow ==> phase == ContentPhase::AwaitingValidateWorkflow && event is Succeeded)
            &&& (next == ContentPhase::AwaitingValidateWorkflow ==> phase == ContentPhase::AwaitingWorkspace
                && event is WorkspaceReady && !req.dry_run)
            &&& (content_rank(phase) >= 2 && !(event is Failed) ==> t == targets)
        }),
{
}

/// Which local root command runs: a build, or a build then a depot package.
#[derive(Debug, Clone, Copy, PartialEq, Eq, Structural)]
pub enum RootOutput {
    /// `root build`, skipping the documentation when asked.
    Build { skip_docs: bool },
    /// `root package`.
    Package,
}

/// What a `root build` or `root package` asks for.
#[derive(Debug)]
pub struct RootBuildRequest {
    /// Build or package.
    pub output: RootOutput,
    /// Explicit runtime targets.
    pub target: Vec<String>,
    /// Use the declared release target matrix.
    pub release_targets: bool,
    /// Use the host target only.
    pub host_only: bool,
}

/// Where a local root build stands.
#[derive(Debug, Clone, Copy, PartialEq, Eq, Structural)]
pub enum BuildPhase {
    /// Nothing done yet.
    Start,
    /// Waiting for the metadata validation, which reports the declared targets.
    AwaitingValidation,
    /// Waiting for the `build` workflow over the targets.
    AwaitingBuild,
    /// Waiting for the built binaries to be promoted.
    AwaitingPromote,
    /// Waiting for the documentation build.
    AwaitingDocs,
    /// Waiting for the root scripts and launch scripts to be installed.
    AwaitingScripts,
    /// Waiting for the depots to be staged and smoke-checked.
    AwaitingStage,
    /// The run is over.
    Finished,
}

/// A local root build in progress.
#[derive(Debug)]
pub struct RootBuildState {
    /// Where the run stands.
    pub phase: BuildPhase,
    /// Resolved runtime targets (empty before resolution).
    pub targets: Vec<String>,
}

/// The next effect of a local root build.
#[derive(Debug)]
pub enum RootBuildAction {
    /// Validate metadata, workspace (and for a package the distribution) and tools.
    Validate,
    /// Run the `build` workflow over the targets.
    Build { targets: Vec<String> },
    /// Promote the built binaries for the targets.
    Promote { targets: Vec<String> },
    /// Build the documentation.
    BuildDocs,
    /// Install the root scripts and the launch scripts of the targets' platforms.
    SyncScripts { targets: Vec<String> },
    /// Stage the depots for the targets and smoke-check them.
    Stage { targets: Vec<String> },
    /// The run succeeded.
    Done,
    /// The run failed with this error.
    Fail { error: String },
}

/// The meaning of a local root build action.
pub enum BuildActionView {
    /// Validate first.
    Validate,
    /// Build for the targets.
    Build(Seq<Seq<char>>),
    /// Promote for the targets.
    Promote(Seq<Seq<char>>),
    /// Build the documentation.
    BuildDocs,
    /// Install scripts for the targets.
    SyncScripts(Seq<Seq<char>>),
    /// Stage depots for the targets.
    Stage(Seq<Seq<char>>),
    /// The run succeeded.
    Done,
    /// The run failed with this error.
    Fail(Seq<char>),
}

/// The meaning of a local root build action.
pub open spec fn build_action_view(a: RootBuildAction) -> BuildActionView {
    match a {
        RootBuildAction::Validate => BuildActionView::Validate,
        RootBuildAction::Build { targets } => BuildActionView::Build(string_views(targets@)),
        RootBuildAction::Promote { targets } => BuildActionView::Promote(string_views(targets@)),
        RootBuildAction::BuildDocs => BuildActionView::BuildDocs,
        RootBuildAction::SyncScripts { targets } => BuildActionView::SyncScripts(string_views(targets@)),
        RootBuildAction::Stage { targets } => BuildActionView::Stage(string_views(targets@)),
        RootBuildAction::Done => BuildActionView::Done,
        RootBuildAction::Fail { error } => BuildActionView::Fail(error@),
    }
}

/// The events each phase of a local root build waits for.
pub open spec fn build_event_fits(phase: BuildPhase, event: RootPublishEvent) -> bool {
    match phase {
        BuildPhase::Start => event is Begin,
        BuildPhase::AwaitingValidation => event is Validated || event is Failed,
        BuildPhase::Finished => false,
        _ => event is Succeeded || event is Failed,
    }
}

/// Whether the documentation is built.
pub open spec fn builds_docs(output: RootOutput) -> bool {
    !(output matches RootOutput::Build { skip_docs } && skip_docs)
}

/// The next phase, targets, and action of a local root build: validation,
/// target resolution, the `build` workflow, promotion, the documentation
/// (unless skipped), the scripts, and for a package the depot stage.
pub open spec fn root_build_next(req: RootBuildRequest, phase: BuildPhase, targets: Seq<Seq<char>>, event: RootPublishEvent)
    -> (BuildPhase, Seq<Seq<char>>, BuildActionView)
{
    match event {
        RootPublishEvent::Failed { error } => (BuildPhase::Finished, targets, BuildActionView::Fail(error@)),
        RootPublishEvent::Begin => (BuildPhase::AwaitingValidation, targets, BuildActionView::Validate),
        RootPublishEvent::Validated { declared_targets } =>
            match resolve_targets_spec(string_views(declared_targets@), string_views(req.target@), req.release_targets, req.host_only) {
                Err(m) => (BuildPhase::Finished, targets, BuildActionView::Fail(m)),
                Ok(t) => (BuildPhase::AwaitingBuild, t, BuildActionView::Build(t)),
            },
        RootPublishEvent::Succeeded => match phase {
            BuildPhase::AwaitingBuild => (BuildPhase::AwaitingPromote, targets, BuildActionView::Promote(targets)),
            BuildPhase::AwaitingPromote => if builds_docs(req.output) {
                (BuildPhase::AwaitingDocs, targets, BuildActionView::BuildDocs)
            } else {
                (BuildPhase::AwaitingScripts, targets, BuildActionView::SyncScripts(targets))
            },
            BuildPhase::AwaitingDocs => (BuildPhase::AwaitingScripts, targets, BuildActionView::SyncScripts(targets)),
            BuildPhase::AwaitingScripts => if req.output == RootOutput::Package {
                (BuildPhase::AwaitingStage, targets, BuildActionView::Stage(targets))
            } else {
                (BuildPhase::Finished, targets, BuildActionView::Done)
            },
            _ => (BuildPhase::Finished, targets, BuildActionView::Done),
        },
    }
}

/// A local root build before its first step.
pub fn root_build_start() -> (r: RootBuildState)
    ensures
        r.phase == BuildPhase::Start,
        r.targets@.len() == 0,
{
    RootBuildState { phase: BuildPhase::Start, targets: Vec::new() }
}

/// One step of a `root build` or `root package`: what the last effect
/// reported decides the next phase and effect. Any failure ends the run with
/// that failure.
pub fn root_build_step(req: &RootBuildRequest, state: RootBuildState, event: RootPublishEvent) -> (r: (RootBuildState, RootBuildAction))
    requires
        build_event_fits(state.phase, event),
    ensures
        (r.0.phase, string_views(r.0.targets@), build_action_view(r.1))
            == root_build_next(*req, state.phase, string_views(state.targets@), event),
{
    let RootBuildState { phase, targets } = state;
    match event {
        RootPublishEvent::Failed { error } =>
            (RootBuildState { phase: BuildPhase::Finished, targets }, RootBuildAction::Fail { error }),
        RootPublishEvent::Begin => (RootBuildState { phase: BuildPhase::AwaitingValidation, targets }, RootBuildAction::Validate),
        RootPublishEvent::Validated { declared_targets } => {
            match resolve_runtime_targets_from(declared_targets.as_slice(), req.target.as_slice(), req.release_targets, req.host_only) {
                Err(error) => (RootBuildState { phase: BuildPhase::Finished, targets }, RootBuildAction::Fail { error }),
                Ok(resolved) => {
                    let copy = copy_strings(resolved.as_slice());
                    (RootBuildState { phase: BuildPhase::AwaitingBuild, targets: resolved }, RootBuildAction::Build { targets: copy })
                },
            }
        },
        RootPublishEvent::Succeeded => {
            let copy = copy_strings(targets.as_slice());
            let docs = match req.output {
                RootOutput::Build { skip_docs } => !skip_docs,
                RootOutput::Package => true,
            };
            let package = match req.output {
                RootOutput::Package => true,
                RootOutput::Build { .. } => false,
            };
            match phase {
                BuildPhase::AwaitingBuild => (RootBuildState { phase: BuildPhase::AwaitingPromote, targets },
                    RootBuildAction::Promote { targets: copy }),
                BuildPhase::AwaitingPromote => if docs {
                    (RootBuildState { phase: BuildPhase::AwaitingDocs, targets }, RootBuildAction::BuildDocs)
                } else {
                    (RootBuildState { phase: BuildPhase::AwaitingScripts, targets }, RootBuildAction::SyncScripts { targets: copy })
                },
                BuildPhase::AwaitingDocs => (RootBuildState { phase: BuildPhase::AwaitingScripts, targets },
                    RootBuildAction::SyncScripts { targets: copy }),
                BuildPhase::AwaitingScripts => if package {
                    (RootBuildState { phase: BuildPhase::AwaitingStage, targets }, RootBuildAction::Stage { targets: copy })
                } else {
                    (RootBuildState { phase: BuildPhase::Finished, targets }, RootBuildAction::Done)
                },
                _ => (RootBuildState { phase: BuildPhase::Finished, targets }, RootBuildAction::Done),
            }
        },
    }
}

/// The order of the phases of a local root build.
pub open spec fn build_rank(p: BuildPhase) -> int {
    match p {
        BuildPhase::Start => 0,
        BuildPhase::AwaitingValidation => 1,
        BuildPhase::AwaitingBuild => 2,
        BuildPhase::AwaitingPromote => 3,
        BuildPhase::AwaitingDocs => 4,
        BuildPhase::AwaitingScripts => 5,
        BuildPhase::AwaitingStage => 6,
        BuildPhase::Finished => 7,
    }
}

/// Every step of a local root build moves it forward; a failure ends it with
/// that failure; binaries are promoted only after the `build` workflow
/// succeeded, the documentation is built exactly when not skipped, and the
/// depots are staged only for a package, after the scripts were installed.
pub proof fn law_root_build_order(req: RootBuildRequest, phase: BuildPhase, targets: Seq<Seq<char>>, event: RootPublishEvent)
    requires
        build_event_fits(phase, event),
    ensures
        ({
            let (next, t, action) = root_build_next(req, phase, targets, event);
            &&& build_rank(next) > build_rank(phase)
            &&& (event matches RootPublishEvent::Failed { error } ==> next == BuildPhase::Finished
                && action == BuildActionView::Fail(error@))
            &&& (action is Promote ==> phase == BuildPhase::AwaitingBuild && event is Succeeded)
            &&& (action is BuildDocs ==> phase == BuildPhase::AwaitingPromote && builds_docs(req.output))
            &&& (action is Stage ==> phase == BuildPhase::AwaitingScripts && event is Succeeded && req.output == RootOutput::Package)
            &&& (build_rank(phase) >= 2 && !(event is Failed) ==> t == targets)
        }),
{
}

} // verus!
