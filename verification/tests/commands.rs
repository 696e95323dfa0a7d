use vapor_shell::app_local_tools::AppToolRequirement;
use vapor_shell::command::{
    check_script_command, command_targets, content_list_next, control_after, deploy_selection_candidates,
    diagnostics_status_lines, diagnostics_submit_lines, download_hint, launch_script_mapping, prebuild_workflows,
    require_release_runtime_matrix, resolve_publish_runtime_targets, resolve_runtime_targets, root_publish_preflight,
    script_candidates, script_command_allowed, script_line, script_line_split, script_not_found, source_repair_next,
    source_status_next, source_type_label, target_platforms, validate_command_runtime_targets, validate_script_name,
    validation_plan, workflow_next_command, ContentCommand, Control, DiagnosticsCommand, IdeCommand, RootCommand,
    ScriptCommand, ScriptLine, ShellCommand,
};
use vapor_shell::metadata::MetadataFormat;
use vapor_shell::workflow::{CargoWorkflow, ProjectSelection};
use vapor_shell::workspace::{SourceRootKind, WorkspaceManifest};

fn manifest(targets: &[&str]) -> WorkspaceManifest {
    WorkspaceManifest {
        kind: SourceRootKind::Root,
        id: "ghf/vapor".to_owned(),
        name: "vapor".to_owned(),
        organization: "ghf".to_owned(),
        runtime_targets: targets.iter().map(|t| t.to_string()).collect(),
        cargo: Vec::new(),
        projects: Vec::new(),
    }
}

fn strings(v: &[&str]) -> Vec<String> {
    v.iter().map(|s| s.to_string()).collect()
}

fn publish(dry_run: bool) -> ShellCommand {
    ShellCommand::Root {
        command: RootCommand::Publish {
            account: None,
            branch: None,
            target: Vec::new(),
            release_targets: false,
            host_only: false,
            skip_build: false,
            description: "Vapor development build".to_owned(),
            dry_run,
            yes: false,
        },
    }
}

#[test]
fn exit_ends_the_session_and_nothing_else_does() {
    assert_eq!(control_after(&ShellCommand::Exit), Control::Exit);
    assert_eq!(control_after(&ShellCommand::Installation), Control::Continue);
    assert_eq!(control_after(&ShellCommand::Metadata { format: MetadataFormat::Json }), Control::Continue);
}

#[test]
fn scripts_may_not_run_real_releases_or_leave_the_shell() {
    assert!(!script_command_allowed(&ShellCommand::Exit));
    assert!(!script_command_allowed(&ShellCommand::Script {
        command: ScriptCommand::Run { name: "x".to_owned(), dry_run: true }
    }));
    assert!(!script_command_allowed(&publish(false)));
    assert!(script_command_allowed(&publish(true)));
    assert!(!script_command_allowed(&ShellCommand::Ide { command: IdeCommand::Repair { dry_run: false } }));
    assert!(script_command_allowed(&ShellCommand::Ide { command: IdeCommand::Repair { dry_run: true } }));
    assert!(!script_command_allowed(&ShellCommand::Diagnostics {
        command: DiagnosticsCommand::Submit { registry: None, all: false, push: true, dry_run: false }
    }));
    assert!(script_command_allowed(&ShellCommand::Diagnostics {
        command: DiagnosticsCommand::Submit { registry: None, all: false, push: false, dry_run: false }
    }));
    assert!(!script_command_allowed(&ShellCommand::Content {
        command: ContentCommand::Delete { target: "x".to_owned(), dry_run: false, yes: true }
    }));
    assert!(script_command_allowed(&ShellCommand::Fmt { project: ProjectSelection::All }));
    assert_eq!(
        check_script_command(&ShellCommand::Exit),
        Err("scripts may not invoke scripts, exit the host shell, perform real publishes, delete Workshop items, or apply IDE repairs".to_owned())
    );
    assert_eq!(check_script_command(&ShellCommand::Binaries), Ok(()));
}

#[test]
fn script_names_must_be_simple_stems() {
    assert_eq!(validate_script_name("build"), Ok(()));
    let error = Err("script name must be a simple filename stem".to_owned());
    assert_eq!(validate_script_name("a/b"), error);
    assert_eq!(validate_script_name("a\\b"), error);
    assert_eq!(validate_script_name(".."), error);
    assert_eq!(validate_script_name("."), error);
}

#[test]
fn scripts_are_searched_in_source_then_installation() {
    assert_eq!(
        script_candidates(Some("/src"), "/app", "ci"),
        strings(&["/src/resources/vapor/vapor-scripts/ci.vapor", "/app/resources/vapor/vapor-scripts/ci.vapor"])
    );
    assert_eq!(script_candidates(None, "/app", "ci"), strings(&["/app/resources/vapor/vapor-scripts/ci.vapor"]));
    assert_eq!(
        script_not_found("ci", &strings(&["/a/ci.vapor", "/b/ci.vapor"])),
        "script not found: ci\nsearched:\n  - /a/ci.vapor\n  - /b/ci.vapor"
    );
}

#[test]
fn script_lines_skip_comments_and_split_words() {
    assert!(matches!(script_line("s.vapor", 1, "   ", false), ScriptLine::Skip));
    assert!(matches!(script_line("s.vapor", 1, "  # note", false), ScriptLine::Skip));
    match script_line("s.vapor", 2, "  content publish \"my art\" --dry-run ", false) {
        ScriptLine::Run { echo, args } => {
            assert_eq!(echo, "s.vapor:2: content publish \"my art\" --dry-run");
            assert_eq!(args, strings(&["content", "publish", "my art", "--dry-run"]));
        }
        other => panic!("unexpected {other:?}"),
    }
    match script_line("s.vapor", 12, "source status", true) {
        ScriptLine::Show { echo } => assert_eq!(echo, "s.vapor:12: source status"),
        other => panic!("unexpected {other:?}"),
    }
    match script_line("s.vapor", 4, "echo \"unterminated", false) {
        ScriptLine::Invalid { echo, error } => {
            assert_eq!(echo, "s.vapor:4: echo \"unterminated");
            assert_eq!(error, "invalid quoting at s.vapor:4");
        }
        other => panic!("unexpected {other:?}"),
    }
    match script_line_split("p", 7, "a b", None) {
        ScriptLine::Invalid { error, .. } => assert_eq!(error, "invalid quoting at p:7"),
        other => panic!("unexpected {other:?}"),
    }
}

#[test]
fn runtime_target_modes_are_exclusive() {
    let m = manifest(&["x86_64-unknown-linux-gnu", "x86_64-pc-windows-gnullvm"]);
    assert_eq!(
        resolve_runtime_targets(&m, &strings(&["x86_64-unknown-linux-gnu"]), true, false),
        Err("use only one of --target, --release-targets, or --host-only".to_owned())
    );
    assert_eq!(resolve_runtime_targets(&m, &[], false, true), Ok(Vec::new()));
    assert_eq!(resolve_runtime_targets(&m, &[], false, false), Ok(m.runtime_targets.clone()));
    assert_eq!(resolve_runtime_targets(&m, &[], true, false), Ok(m.runtime_targets.clone()));
    assert_eq!(
        resolve_runtime_targets(&m, &strings(&["aarch64-apple-darwin"]), false, false),
        Ok(strings(&["aarch64-apple-darwin"]))
    );
    let empty = manifest(&[]);
    assert_eq!(resolve_runtime_targets(&empty, &[], false, false), Ok(Vec::new()));
    assert_eq!(
        resolve_runtime_targets(&empty, &[], true, false),
        Err("source manifest declares no runtime targets; add [root.runtime]/[workspace.runtime] targets or pass --target".to_owned())
    );
}

#[test]
fn explicit_targets_must_be_triples_and_distinct() {
    assert_eq!(
        validate_command_runtime_targets(&strings(&["x86_64-unknown-linux-gnu", "x86_64-unknown-linux-gnu"])),
        Err("duplicate runtime target: x86_64-unknown-linux-gnu".to_owned())
    );
    assert_eq!(
        validate_command_runtime_targets(&strings(&["bad target"])),
        Err("runtime target must be a Rust target triple such as x86_64-pc-windows-gnullvm: bad target".to_owned())
    );
    assert_eq!(
        validate_command_runtime_targets(&strings(&[""])),
        Err("runtime target must be a Rust target triple such as x86_64-pc-windows-gnullvm: ".to_owned())
    );
    assert_eq!(validate_command_runtime_targets(&strings(&["a_b-c1"])), Ok(()));
}

#[test]
fn real_releases_need_the_full_declared_matrix() {
    let linux_only = manifest(&["x86_64-unknown-linux-gnu"]);
    assert_eq!(
        resolve_publish_runtime_targets(&linux_only, &[], false, false, false, "app publication"),
        Err("real app publication requires a declared release runtime matrix containing both Linux and Windows targets; current targets: x86_64-unknown-linux-gnu".to_owned())
    );
    assert_eq!(
        require_release_runtime_matrix("Workshop publication", &[]),
        Err("real Workshop publication requires a declared release runtime matrix containing both Linux and Windows targets; current targets: <none>".to_owned())
    );
    let full = manifest(&["x86_64-unknown-linux-gnu", "x86_64-pc-windows-gnullvm"]);
    assert_eq!(
        resolve_publish_runtime_targets(&full, &[], false, false, false, "app publication"),
        Ok(full.runtime_targets.clone())
    );
    assert_eq!(
        resolve_publish_runtime_targets(&full, &strings(&["x86_64-unknown-linux-gnu"]), false, false, false, "app publication"),
        Err("real app publication requires the complete declared runtime target matrix; remove --target or use --dry-run for custom target previews".to_owned())
    );
    assert_eq!(
        resolve_publish_runtime_targets(&full, &[], false, true, false, "app publication"),
        Err("real app publication requires the complete declared runtime target matrix; --host-only is only for dry-run/local smoke paths".to_owned())
    );
    assert_eq!(resolve_publish_runtime_targets(&linux_only, &[], false, true, true, "app publication"), Ok(Vec::new()));
}

#[test]
fn command_plans_name_tools_and_policy() {
    let plan = validation_plan(&publish(false)).unwrap();
    assert_eq!(plan.action, "publish the Vapor application");
    assert_eq!(
        plan.app_local_tools,
        vec![AppToolRequirement::Rust, AppToolRequirement::CrossToolchains, AppToolRequirement::SteamCmd]
    );
    assert!(plan.workspace && plan.distribution);
    let preview = validation_plan(&publish(true)).unwrap();
    assert_eq!(preview.app_local_tools, vec![AppToolRequirement::Rust]);
    let check = validation_plan(&ShellCommand::Check { project: ProjectSelection::All }).unwrap();
    assert_eq!(check.action, "check");
    assert!(check.workspace && !check.distribution);
    assert!(validation_plan(&ShellCommand::Installation).is_none());
    let create_preview = ShellCommand::Content {
        command: ContentCommand::Create {
            artifact: "a".to_owned(),
            account: None,
            target: Vec::new(),
            release_targets: false,
            host_only: false,
            dry_run: true,
            yes: false,
        },
    };
    assert!(validation_plan(&create_preview).is_none());
    assert!(prebuild_workflows(&create_preview).is_empty());
    assert_eq!(prebuild_workflows(&publish(false)), vec![CargoWorkflow::Validate, CargoWorkflow::Build]);
    let m = manifest(&["x86_64-unknown-linux-gnu", "x86_64-pc-windows-gnullvm"]);
    assert_eq!(command_targets(&m, &publish(false)), Some(Ok(m.runtime_targets.clone())));
    assert_eq!(command_targets(&m, &ShellCommand::Binaries), None);
}

#[test]
fn root_publish_needs_an_account_and_a_build() {
    assert_eq!(
        root_publish_preflight(false, None, false),
        Err("real app publication requires --account ACCOUNT after reviewing --dry-run".to_owned())
    );
    assert_eq!(
        root_publish_preflight(false, Some(""), false),
        Err("real app publication requires --account ACCOUNT after reviewing --dry-run".to_owned())
    );
    assert_eq!(
        root_publish_preflight(false, Some("builder"), true),
        Err("real app publication must validate, build, and promote the complete runtime matrix; --skip-build is only for dry-run previews".to_owned())
    );
    assert_eq!(root_publish_preflight(true, None, true), Ok(()));
    assert_eq!(root_publish_preflight(false, Some("builder"), false), Ok(()));
}

#[test]
fn next_steps_follow_the_source_kind() {
    assert_eq!(source_type_label(SourceRootKind::Root, true), "application root");
    assert_eq!(source_type_label(SourceRootKind::Workspace, true), "content workspace");
    assert_eq!(source_type_label(SourceRootKind::Workspace, false), "workspace");
    assert_eq!(workflow_next_command(CargoWorkflow::Fmt, SourceRootKind::Root, false), "test");
    assert_eq!(workflow_next_command(CargoWorkflow::Test, SourceRootKind::Root, false), "validate");
    assert_eq!(workflow_next_command(CargoWorkflow::Build, SourceRootKind::Root, false), "root build");
    assert_eq!(workflow_next_command(CargoWorkflow::Build, SourceRootKind::Workspace, true), "content package ARTIFACT");
    assert_eq!(workflow_next_command(CargoWorkflow::Validate, SourceRootKind::Workspace, true), "content validate");
    assert_eq!(workflow_next_command(CargoWorkflow::Validate, SourceRootKind::Workspace, false), "build");
    assert_eq!(source_status_next(true, 0), "metadata");
    assert_eq!(source_status_next(false, 0), "source open /path/to/source");
    assert_eq!(source_status_next(false, 2), "source list");
    assert_eq!(source_repair_next(true, Some(2), false, 0), "source repair --write");
    assert_eq!(source_repair_next(true, Some(2), true, 0), "source status");
    assert_eq!(source_repair_next(true, None, false, 0), "source status");
    assert_eq!(source_repair_next(false, None, false, 3), "source list");
    assert_eq!(content_list_next(Some(3)), "content validate");
    assert_eq!(content_list_next(Some(0)), "source open /path/to/content-workspace");
    assert_eq!(content_list_next(None), "source open /path/to/content-workspace");
    assert_eq!(download_hint(&strings(&["a/b"])), "hint: install it with `content install a/b`");
    assert_eq!(
        download_hint(&strings(&["a", "b"])),
        "hint: install a packagepack with `content install ARTIFACT_OR_WORKSHOP_ID`"
    );
    assert_eq!(deploy_selection_candidates("pp", &strings(&["e", "g"])), strings(&["pp", "e", "g"]));
}

#[test]
fn launch_scripts_follow_target_platforms() {
    assert_eq!(target_platforms(&[], "x86_64-unknown-linux-gnu"), strings(&["linux"]));
    assert_eq!(target_platforms(&[], "aarch64-apple-darwin"), Vec::<String>::new());
    assert_eq!(
        target_platforms(
            &strings(&["x86_64-pc-windows-gnullvm", "x86_64-unknown-linux-gnu", "aarch64-unknown-linux-gnu"]),
            "x86_64-unknown-linux-gnu"
        ),
        strings(&["linux", "windows"])
    );
    assert_eq!(launch_script_mapping("linux"), Ok(("linux/vapor-launch.sh", "vapor-launch.sh")));
    assert_eq!(launch_script_mapping("windows"), Ok(("windows/vapor-launch.cmd", "vapor-launch.cmd")));
    assert_eq!(
        launch_script_mapping("macos"),
        Err("no launch script mapping exists for platform 'macos'".to_owned())
    );
}

#[test]
fn diagnostics_reports_are_rendered_line_by_line() {
    let status = diagnostics_status_lines("/app/.vapor/diagnostics", None, true, None, Some("/reg"), Some(("/git", "linked")));
    assert_eq!(
        status,
        strings(&[
            "Diagnostics",
            "",
            "Status",
            "  Local logs: /app/.vapor/diagnostics",
            "  Latest run: none",
            "  Automatic capture: active",
            "  Automatic submit: off",
            "  Registry target: /reg",
            "  Git provider: /git",
            "    source: linked",
            "",
            "Next",
            "  diagnostics submit --registry /path/to/Vapor-Registry",
            "  diagnostics submit --registry /path/to/Vapor-Registry --push",
            "  provider git link /path/to/git",
        ])
    );
    let submit = diagnostics_submit_lines("/reg", "/reg/runs", &strings(&["a.log"]), true, true, false, false);
    assert_eq!(
        submit,
        strings(&[
            "Diagnostics Submit",
            "",
            "Status",
            "  Registry: /reg",
            "  Target: /reg/runs",
            "  Logs: 1 (dry-run)",
            "    - a.log",
            "  Commit: not needed",
            "  Push: skipped",
            "",
            "Next",
            "  diagnostics submit --registry /reg --push",
        ])
    );
}
