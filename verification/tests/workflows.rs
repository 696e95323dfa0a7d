use vapor_shell::discovery::{bundled_cargo_candidates, first_file};
use vapor_shell::workflow::{
    managed_path, missing_binary, promotions, run, selected_projects, step_outcome, step_spawn_error, CargoWorkflow,
    ProjectSelection, ValidationStep,
};
use vapor_shell::workspace::{CargoProject, SourceRootKind, WorkspaceManifest};

fn strings(v: &[&str]) -> Vec<String> {
    v.iter().map(|s| s.to_string()).collect()
}

fn project(name: &str, binaries: &[&str]) -> CargoProject {
    CargoProject {
        name: name.to_owned(),
        manifest: format!("{name}/Cargo.toml"),
        documentation: true,
        binaries: strings(binaries),
    }
}

fn manifest(cargo: Vec<CargoProject>) -> WorkspaceManifest {
    WorkspaceManifest {
        kind: SourceRootKind::Root,
        id: "ghf/vapor".to_owned(),
        name: "vapor".to_owned(),
        organization: "ghf".to_owned(),
        runtime_targets: Vec::new(),
        cargo,
        projects: Vec::new(),
    }
}

#[test]
fn selections_are_all_or_one_kebab_name() {
    assert_eq!(ProjectSelection::parse(" all "), Ok(ProjectSelection::All));
    assert_eq!(ProjectSelection::parse("vapor-shell2"), Ok(ProjectSelection::One("vapor-shell2".to_owned())));
    let error = Err("project must be `all` or a lowercase kebab-case Cargo workspace name".to_owned());
    assert_eq!(ProjectSelection::parse("Vapor_Shell"), error);
    assert_eq!(ProjectSelection::parse("   "), error);
    let parsed: ProjectSelection = "game".parse().unwrap();
    assert_eq!(parsed, ProjectSelection::One("game".to_owned()));
}

#[test]
fn workflows_have_labels_and_hints() {
    assert_eq!(CargoWorkflow::Fmt.label(), "fmt");
    assert_eq!(CargoWorkflow::Validate.label(), "validate");
    assert_eq!(CargoWorkflow::Build.next_hint(), "build completed; use `vapor root build` to promote app binaries");
    assert_eq!(ValidationStep::FmtCheck.label(), "fmt --check");
    assert_eq!(ValidationStep::Workflow(CargoWorkflow::Test).label(), "test");
}

#[test]
fn each_step_has_its_cargo_command_line() {
    assert_eq!(
        ValidationStep::Clippy.command("a/Cargo.toml"),
        strings(&["clippy", "--workspace", "--all-targets", "--locked", "--manifest-path", "a/Cargo.toml", "--", "-D", "warnings"])
    );
    assert_eq!(
        ValidationStep::FmtCheck.command("m"),
        strings(&["fmt", "--all", "--manifest-path", "m", "--", "--check"])
    );
    assert_eq!(
        ValidationStep::Workflow(CargoWorkflow::Build).command("m"),
        strings(&["build", "--workspace", "--locked", "--manifest-path", "m"])
    );
    assert_eq!(
        ValidationStep::Doc.command("m"),
        strings(&["doc", "--workspace", "--no-deps", "--locked", "--manifest-path", "m"])
    );
}

#[test]
fn selections_pick_declared_workspaces() {
    let m = manifest(vec![project("a", &[]), project("b", &["vapor"]), project("b", &[])]);
    assert_eq!(selected_projects(&m, &ProjectSelection::All), Ok(vec![0, 1, 2]));
    assert_eq!(selected_projects(&m, &ProjectSelection::One("b".to_owned())), Ok(vec![1]));
    assert_eq!(
        selected_projects(&m, &ProjectSelection::One("c".to_owned())),
        Err("source root does not declare Cargo workspace 'c'".to_owned())
    );
    assert_eq!(
        selected_projects(&manifest(Vec::new()), &ProjectSelection::All),
        Err("source root 'ghf/vapor' declares no Cargo workspaces".to_owned())
    );
}

#[test]
fn validate_runs_five_steps_per_workspace() {
    let m = manifest(vec![project("a", &[]), project("b", &[])]);
    let runs = run(&m, &ProjectSelection::All, CargoWorkflow::Validate).unwrap();
    assert_eq!(runs.len(), 10);
    assert_eq!(runs[0], (0, ValidationStep::FmtCheck));
    assert_eq!(runs[4], (0, ValidationStep::Doc));
    assert_eq!(runs[5], (1, ValidationStep::FmtCheck));
    assert_eq!(
        run(&m, &ProjectSelection::One("b".to_owned()), CargoWorkflow::Build),
        Ok(vec![(1, ValidationStep::Workflow(CargoWorkflow::Build))])
    );
}

#[test]
fn steps_report_their_outcome() {
    assert_eq!(step_outcome(ValidationStep::Clippy, "a", true, "exit status: 0"), Ok(()));
    assert_eq!(
        step_outcome(ValidationStep::Clippy, "a", false, "exit status: 101"),
        Err("clippy failed for project 'a' with exit status: 101".to_owned())
    );
    assert_eq!(
        step_spawn_error(ValidationStep::Workflow(CargoWorkflow::Check), "a", "not found"),
        "failed to run check for 'a': not found"
    );
}

#[test]
fn cargo_children_get_the_managed_path() {
    assert_eq!(
        managed_path("/app", Some("/app/rustup-home/toolchains/s/bin"), &strings(&["/usr/bin"])),
        strings(&[
            "/app/rustup-home/toolchains/s/bin",
            "/app/tools/git/bin",
            "/app/cargo-home/bin",
            "/app/rustup/bin",
            "/app/steam/steamcmd",
            "/app/bin",
            "/usr/bin",
        ])
    );
    assert_eq!(managed_path("/app", None, &[]).len(), 5);
}

#[test]
fn built_binaries_are_promoted_into_bin() {
    let m = manifest(vec![project("shell", &["vapor", "vapor-installer"]), project("docs", &[])]);
    let p = promotions("/app", &m, ".exe");
    assert_eq!(p.len(), 2);
    assert_eq!(p[0].project, "shell");
    assert_eq!(p[0].source, "/app/output/dev/shell/debug/vapor.exe");
    assert_eq!(p[0].destination, "/app/bin/vapor.exe");
    assert_eq!(p[1].destination, "/app/bin/vapor-installer.exe");
    assert_eq!(
        missing_binary(&p[0]),
        "built binary is missing for project 'shell': /app/output/dev/shell/debug/vapor.exe"
    );
}

#[test]
fn cargo_is_looked_for_in_the_selected_toolchain_first() {
    assert_eq!(
        bundled_cargo_candidates("/app", "", strings(&["stable-x86_64", "nightly-x86_64", "beta"]), Some("nightly")),
        strings(&[
            "/app/rustup-home/toolchains/nightly-x86_64/bin/cargo",
            "/app/rustup-home/toolchains/beta/bin/cargo",
            "/app/rustup-home/toolchains/stable-x86_64/bin/cargo",
            "/app/cargo-home/bin/cargo",
            "/app/bin/cargo",
        ])
    );
    assert_eq!(
        bundled_cargo_candidates("/app", ".exe", Vec::new(), None),
        strings(&["/app/cargo-home/bin/cargo.exe", "/app/bin/cargo.exe"])
    );
    assert_eq!(first_file(&strings(&["a", "b", "c"]), &[false, true, true]), Some("b".to_owned()));
    assert_eq!(first_file(&strings(&["a"]), &[false]), None);
}
