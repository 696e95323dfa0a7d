use vapor_shell::authored::{discover_catalog, AuthoredContent, AuthoredManifest, AuthoredVersion, ProjectObservation};
use vapor_shell::content::{ContentLayout, Fingerprint, WorkshopPolicy};
use vapor_shell::content_state::{ContentIndex, InstalledRecord};
use vapor_shell::discovery::{InstallationPaths, InstallationProbe};
use vapor_shell::lifecycle::{delete_workshop_item, verify_all};
use vapor_shell::manifest::{ContentKind, VaporEntity};
use vapor_shell::metadata_report::{
    manifests_report_lines, ApplicationReport, DistributionManifestReport, ManifestReport, RegisteredProjectReport,
    ResourceState, SteamDepotReport, WorkspaceManifestReport,
};
use vapor_shell::release::{
    root_build_start, root_build_step, RootBuildAction, RootBuildRequest, RootOutput,
    content_release_start, content_release_step, root_publish_start, root_publish_step, ContentRelease,
    ContentReleaseAction, ContentReleaseEvent, ContentReleaseRequest, RootPublishAction, RootPublishEvent,
    RootPublishRequest,
};
use vapor_shell::workflow::CargoWorkflow;
use vapor_shell::workspace::{SourceRootKind, WorkspaceManifest, WorkspaceProject, WorkspaceProjectKind};

fn strings(v: &[&str]) -> Vec<String> {
    v.iter().map(|s| s.to_string()).collect()
}

fn matrix() -> Vec<String> {
    strings(&["x86_64-unknown-linux-gnu", "x86_64-pc-windows-gnullvm"])
}

fn root_request(dry_run: bool, account: Option<&str>, skip_build: bool) -> RootPublishRequest {
    RootPublishRequest {
        account: account.map(str::to_owned),
        target: Vec::new(),
        release_targets: false,
        host_only: false,
        skip_build,
        dry_run,
    }
}

fn label(action: &RootPublishAction) -> String {
    match action {
        RootPublishAction::Validate => "validate".to_owned(),
        RootPublishAction::RunWorkflow { workflow, targets } => format!("{}:{}", workflow.label(), targets.join(",")),
        RootPublishAction::Promote { targets } => format!("promote:{}", targets.join(",")),
        RootPublishAction::BuildDocs => "docs".to_owned(),
        RootPublishAction::Upload { targets } => format!("upload:{}", targets.join(",")),
        RootPublishAction::Done => "done".to_owned(),
        RootPublishAction::Fail { error } => format!("fail:{error}"),
    }
}

fn run_root(request: &RootPublishRequest, fail_at: Option<usize>) -> Vec<String> {
    let mut state = root_publish_start();
    let mut event = RootPublishEvent::Begin;
    let mut seen = Vec::new();
    loop {
        let (next, action) = root_publish_step(request, state, event);
        state = next;
        let text = label(&action);
        seen.push(text.clone());
        if matches!(action, RootPublishAction::Done | RootPublishAction::Fail { .. }) {
            return seen;
        }
        event = if fail_at == Some(seen.len()) {
            RootPublishEvent::Failed { error: format!("step {} failed", seen.len()) }
        } else if matches!(action, RootPublishAction::Validate) {
            RootPublishEvent::Validated { declared_targets: matrix() }
        } else {
            RootPublishEvent::Succeeded
        };
    }
}

#[test]
fn root_publication_uploads_after_every_step() {
    let all = "x86_64-unknown-linux-gnu,x86_64-pc-windows-gnullvm";
    assert_eq!(
        run_root(&root_request(false, Some("me"), false), None),
        vec![
            "validate".to_owned(),
            format!("validate:{all}"),
            format!("build:{all}"),
            format!("promote:{all}"),
            "docs".to_owned(),
            format!("upload:{all}"),
            "done".to_owned(),
        ]
    );
    assert_eq!(run_root(&root_request(true, None, true), None), vec![
        "validate".to_owned(),
        "docs".to_owned(),
        format!("upload:{all}"),
        "done".to_owned()
    ]);
    assert_eq!(run_root(&root_request(false, Some("me"), false), Some(3)), vec![
        "validate".to_owned(),
        format!("validate:{all}"),
        format!("build:{all}"),
        "fail:step 3 failed".to_owned()
    ]);
}

#[test]
fn root_publication_checks_its_arguments_first() {
    assert_eq!(
        run_root(&root_request(false, None, false), None),
        vec!["fail:real app publication requires --account ACCOUNT after reviewing --dry-run".to_owned()]
    );
    assert_eq!(
        run_root(&root_request(false, Some("me"), true), None),
        vec!["fail:real app publication must validate, build, and promote the complete runtime matrix; --skip-build is only for dry-run previews".to_owned()]
    );
    let mut request = root_request(false, Some("me"), false);
    request.host_only = true;
    assert_eq!(
        run_root(&request, None),
        vec![
            "validate".to_owned(),
            "fail:real app publication requires the complete declared runtime target matrix; --host-only is only for dry-run/local smoke paths".to_owned()
        ]
    );
}

fn run_content(request: &ContentReleaseRequest) -> Vec<String> {
    let mut state = content_release_start();
    let mut event = ContentReleaseEvent::Begin;
    let mut seen = Vec::new();
    loop {
        let (next, action) = content_release_step(request, state, event);
        state = next;
        let text = match &action {
            ContentReleaseAction::ResolveWorkspace { validate } => format!("workspace:{validate}"),
            ContentReleaseAction::RunWorkflow { workflow, targets } => format!("{}:{}", workflow.label(), targets.len()),
            ContentReleaseAction::Release { targets } => format!("release:{}", targets.len()),
            ContentReleaseAction::Done => "done".to_owned(),
            ContentReleaseAction::Fail { error } => format!("fail:{error}"),
        };
        seen.push(text);
        event = match action {
            ContentReleaseAction::Done | ContentReleaseAction::Fail { .. } => return seen,
            ContentReleaseAction::ResolveWorkspace { .. } => ContentReleaseEvent::WorkspaceReady { declared_targets: matrix() },
            _ => ContentReleaseEvent::Succeeded,
        };
    }
}

#[test]
fn workshop_releases_build_before_a_real_upload() {
    let real = ContentReleaseRequest { kind: ContentRelease::Publish, target: Vec::new(), release_targets: false, host_only: false, dry_run: false };
    assert_eq!(run_content(&real), vec!["workspace:true", "validate:2", "build:2", "release:2", "done"]);
    let preview = ContentReleaseRequest { kind: ContentRelease::Create, target: Vec::new(), release_targets: false, host_only: true, dry_run: true };
    assert_eq!(run_content(&preview), vec!["workspace:false", "release:0", "done"]);
    let custom = ContentReleaseRequest { kind: ContentRelease::Create, target: strings(&["x86_64-unknown-linux-gnu"]), release_targets: false, host_only: false, dry_run: false };
    assert_eq!(
        run_content(&custom),
        vec!["workspace:true", "fail:real Workshop item creation requires the complete declared runtime target matrix; remove --target or use --dry-run for custom target previews"]
    );
    assert_eq!(CargoWorkflow::Build.label(), "build");
}

#[test]
fn manifests_section_lists_workspaces_projects_and_depots() {
    let report = ManifestReport {
        workspace: WorkspaceManifestReport {
            status: ResourceState::Ready,
            projects: strings(&["vapor"]),
            registered_projects: vec![
                RegisteredProjectReport { name: "loo".to_owned(), kind: "engine".to_owned() },
                RegisteredProjectReport { name: "cast".to_owned(), kind: "game".to_owned() },
            ],
            error: None,
        },
        distribution: DistributionManifestReport {
            status: ResourceState::Ready,
            application: Some(ApplicationReport {
                app_id: 480,
                depots: vec![SteamDepotReport { kind: "common".to_owned(), depot_id: 481, steam_os_rule: "all".to_owned() }],
                development_branch: "dev".to_owned(),
            }),
            error: None,
        },
    };
    assert_eq!(
        manifests_report_lines(&report),
        strings(&[
            "  Workspace manifest: ready (1 Cargo workspace, 2 registered projects)",
            "    Cargo workspaces:",
            "      - vapor",
            "    Vapor projects:",
            "      - loo (engine)",
            "      - cast (game)",
            "  Steam app: 480 / branch dev",
            "    depot common: 481 (all)",
        ])
    );
    let broken = ManifestReport {
        workspace: WorkspaceManifestReport { status: ResourceState::Invalid, projects: Vec::new(), registered_projects: Vec::new(), error: None },
        distribution: DistributionManifestReport { status: ResourceState::Absent, application: None, error: None },
    };
    assert_eq!(manifests_report_lines(&broken), strings(&["  Workspace manifest: invalid (unknown error)"]));
}

fn section(binary: &str) -> AuthoredContent {
    AuthoredContent {
        version: AuthoredVersion::Workspace { workspace: true },
        binaries: strings(&[binary]),
        libraries: Vec::new(),
        workshop: WorkshopPolicy::empty(),
        dependencies: Vec::new(),
        conflicts: Vec::new(),
        engine: None,
        enginepack: None,
        game: None,
        gamepack: None,
    }
}

fn manifest_with(sections: (Option<AuthoredContent>, Option<AuthoredContent>)) -> AuthoredManifest {
    AuthoredManifest {
        engine: sections.0,
        game: sections.1,
        packagepack: None,
        enginepack: None,
        gamepack: None,
        modpack: None,
        engine_mod: None,
        game_mod: None,
        extension_mod: None,
    }
}

fn project(name: &str, kind: WorkspaceProjectKind) -> WorkspaceProject {
    WorkspaceProject {
        path: format!("projects/{name}"),
        manifest: format!("projects/{name}/vapor.toml"),
        id: format!("ghf/{name}"),
        name: name.to_owned(),
        kind,
    }
}

fn workspace(projects: Vec<WorkspaceProject>) -> WorkspaceManifest {
    WorkspaceManifest {
        kind: SourceRootKind::Workspace,
        id: "ghf/games".to_owned(),
        name: "games".to_owned(),
        organization: "ghf".to_owned(),
        runtime_targets: Vec::new(),
        cargo: Vec::new(),
        projects,
    }
}

fn content(kind: ContentKind, id: &str, name: &str) -> Result<VaporEntity, String> {
    Ok(VaporEntity::Content { kind, id: id.to_owned(), name: name.to_owned() })
}

#[test]
fn catalog_takes_each_content_project_in_id_order() {
    let manifest = workspace(vec![
        project("zeta", WorkspaceProjectKind::Content(ContentKind::Game)),
        project("tools", WorkspaceProjectKind::Project),
        project("alpha", WorkspaceProjectKind::Content(ContentKind::Engine)),
    ]);
    let observations = vec![
        Some(ProjectObservation { entity: content(ContentKind::Game, "ghf/zeta", "zeta"), authored: Ok(manifest_with((None, Some(section("z"))))) }),
        None,
        Some(ProjectObservation { entity: content(ContentKind::Engine, "ghf/alpha", "alpha"), authored: Ok(manifest_with((Some(section("a")), None))) }),
    ];
    let catalog = discover_catalog(&manifest, "/src", Some("0.3.0"), observations).unwrap();
    let ids: Vec<&str> = catalog.artifacts().iter().map(|a| a.id()).collect();
    assert_eq!(ids, vec!["ghf/alpha", "ghf/zeta"]);
    assert_eq!(catalog.artifacts()[0].root(), "/src/projects/alpha");
    assert_eq!(catalog.artifacts()[0].manifest(), "/src/projects/alpha/vapor.toml");
    assert_eq!(catalog.artifacts()[0].version(), Some("0.3.0"));
    assert_eq!(catalog.artifacts()[1].binaries(), &strings(&["z"])[..]);
}

#[test]
fn catalog_stops_at_the_first_refused_project() {
    let manifest = workspace(vec![
        project("one", WorkspaceProjectKind::Content(ContentKind::Game)),
        project("two", WorkspaceProjectKind::Content(ContentKind::Game)),
    ]);
    let observations = vec![
        Some(ProjectObservation { entity: content(ContentKind::Engine, "ghf/one", "one"), authored: Err("unused".to_owned()) }),
        Some(ProjectObservation { entity: Err("unreadable".to_owned()), authored: Err("unused".to_owned()) }),
    ];
    assert_eq!(
        discover_catalog(&manifest, "/src", None, observations).err(),
        Some("registered workspace project 'projects/one' changed kind from game to engine".to_owned())
    );
    let observations = vec![
        Some(ProjectObservation { entity: content(ContentKind::Game, "ghf/one", "one"), authored: Ok(manifest_with((None, None))) }),
        Some(ProjectObservation { entity: Err("unreadable".to_owned()), authored: Err("unused".to_owned()) }),
    ];
    assert_eq!(
        discover_catalog(&manifest, "/src", None, observations).err(),
        Some("content manifest '/src/projects/one/vapor.toml' did not contain expected [game] section".to_owned())
    );
    let observations = vec![
        Some(ProjectObservation {
            entity: Ok(VaporEntity::Registry { id: "ghf/reg".to_owned(), name: "reg".to_owned(), organization: "ghf".to_owned() }),
            authored: Err("unused".to_owned()),
        }),
        None,
    ];
    let manifest = workspace(vec![project("one", WorkspaceProjectKind::Content(ContentKind::Game)), project("tools", WorkspaceProjectKind::Project)]);
    assert_eq!(
        discover_catalog(&manifest, "/src", None, observations).err(),
        Some("registered workspace project 'projects/one' declares registry 'ghf/reg'".to_owned())
    );
}

fn installation() -> InstallationPaths {
    let probe = InstallationProbe {
        marker_is_file: true,
        marker: Ok(VaporEntity::Root { id: "ghf/vapor".to_owned(), name: "vapor".to_owned(), organization: "ghf".to_owned() }),
        libraries: Ok(None),
        cargo: None,
    };
    InstallationPaths::from_executable("/app/bin/vapor", "", &probe).unwrap()
}

fn fingerprint(hash: &str) -> Fingerprint {
    Fingerprint { algorithm: "vapor-fnv1a-64-v1".to_owned(), hash: hash.to_owned(), files: 1, bytes: 2 }
}

#[test]
fn verification_reports_each_target_in_order() {
    let mut index = ContentIndex::new();
    index.insert_installed("demo".to_owned(), InstalledRecord {
        artifact_id: "demo".to_owned(),
        kind: "mod".to_owned(),
        version: None,
        workshop_id: None,
        enabled: true,
        installed_root: "/app/content/installed/demo".to_owned(),
        fingerprint: fingerprint("aa"),
        dependencies: Vec::new(),
        conflicts: Vec::new(),
        installed_at: 1,
        source: "cache".to_owned(),
    });
    let targets = strings(&["demo", "demo", "gone"]);
    let reports = verify_all(&index, &targets, vec![Some(Ok(fingerprint("aa"))), None, None]);
    assert_eq!(reports.len(), 3);
    assert!(reports[0].ok);
    assert_eq!(reports[0].detail, "fingerprint matches");
    assert!(!reports[1].ok);
    assert_eq!(reports[1].detail, "installed artifact root is missing: /app/content/installed/demo");
    assert_eq!(reports[2].detail, "not installed");
}

#[test]
fn workshop_deletion_is_only_a_preview() {
    let layout = ContentLayout::new(&installation());
    assert_eq!(
        delete_workshop_item(&layout, "123", false, false, 9).err(),
        Some("real Workshop deletion requires --yes after reviewing --dry-run".to_owned())
    );
    assert_eq!(
        delete_workshop_item(&layout, "123", false, true, 9).err(),
        Some("real Workshop deletion requires the controlled SteamUGC provider; this build can only preview deletion".to_owned())
    );
    let report = delete_workshop_item(&layout, "123", true, false, 9).unwrap();
    assert_eq!(report.artifact_id, "123");
    assert!(report.script.is_none() && !report.uploaded && report.published_file_id.is_none());
    assert_eq!(report.receipt, format!("{}/9-workshop-delete-123.toml", layout.receipts()));
}

#[test]
fn root_builds_promote_document_and_install_scripts() {
    let run = |output: RootOutput| {
        let request = RootBuildRequest { output, target: Vec::new(), release_targets: false, host_only: true };
        let mut state = root_build_start();
        let mut event = RootPublishEvent::Begin;
        let mut seen = Vec::new();
        loop {
            let (next, action) = root_build_step(&request, state, event);
            state = next;
            seen.push(match &action {
                RootBuildAction::Validate => "validate",
                RootBuildAction::Build { .. } => "build",
                RootBuildAction::Promote { .. } => "promote",
                RootBuildAction::BuildDocs => "docs",
                RootBuildAction::SyncScripts { .. } => "scripts",
                RootBuildAction::Stage { .. } => "stage",
                RootBuildAction::Done => "done",
                RootBuildAction::Fail { .. } => "fail",
            });
            event = match action {
                RootBuildAction::Done | RootBuildAction::Fail { .. } => return seen,
                RootBuildAction::Validate => RootPublishEvent::Validated { declared_targets: Vec::new() },
                _ => RootPublishEvent::Succeeded,
            };
        }
    };
    assert_eq!(run(RootOutput::Build { skip_docs: false }), vec!["validate", "build", "promote", "docs", "scripts", "done"]);
    assert_eq!(run(RootOutput::Build { skip_docs: true }), vec!["validate", "build", "promote", "scripts", "done"]);
    assert_eq!(run(RootOutput::Package), vec!["validate", "build", "promote", "docs", "scripts", "stage", "done"]);
}
