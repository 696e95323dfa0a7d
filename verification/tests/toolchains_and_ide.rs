use vapor_shell::cross_toolchain::{
    cargo_linker_env, cross_checks, host_runtime_target, inspect, linker_env, linker_script_name, require_ready,
    runtime_dll_plan, stage_runtime_dll, wrapper_plan, CrossToolchainStatus,
};
use vapor_shell::discovery::{EnvironmentPaths, InstallationProbe};
use vapor_shell::git_provider::{
    canonical_file, config_path, git_candidates, health_check, not_linked, resolved, GitProviderSource,
};
use vapor_shell::ide::{
    build_plan, cargo_projects_value, file_state, needs_write, preview, rust_stdlib_source, status, xml_escape,
    xml_option, IdeFileState, IdeTemplates,
};
use vapor_shell::manifest::VaporEntity;
use vapor_shell::workspace::{CargoProject, SourceRootKind, WorkspaceManifest};

fn environment(cargo: Option<&str>) -> EnvironmentPaths {
    let probe = InstallationProbe {
        marker_is_file: true,
        marker: Ok(VaporEntity::Root {
            id: "ghf/vapor".to_owned(),
            name: "vapor".to_owned(),
            organization: "ghf".to_owned(),
        }),
        libraries: Ok(None),
        cargo: cargo.map(|c| c.to_owned()),
    };
    let highest = Some((
        "/src/ghf/Vapor.toml".to_owned(),
        Ok(VaporEntity::Workspace {
            id: "ghf/mods".to_owned(),
            name: "mods".to_owned(),
            organization: "ghf".to_owned(),
        }),
    ));
    EnvironmentPaths::from_paths("/app/bin/vapor", "", &probe, "/src/ghf", &highest).unwrap()
}

fn manifest() -> WorkspaceManifest {
    WorkspaceManifest {
        kind: SourceRootKind::Workspace,
        id: "ghf/mods".to_owned(),
        name: "mods".to_owned(),
        organization: "ghf".to_owned(),
        runtime_targets: Vec::new(),
        cargo: vec![
            CargoProject { name: "a".to_owned(), manifest: "a/Cargo.toml".to_owned(), documentation: true, binaries: Vec::new() },
            CargoProject { name: "b".to_owned(), manifest: "b&c/Cargo.toml".to_owned(), documentation: false, binaries: Vec::new() },
        ],
        projects: Vec::new(),
    }
}

#[test]
fn cross_checks_name_each_expected_tool() {
    let checks = cross_checks("/app", "", false);
    let paths: Vec<&str> = checks.iter().map(|c| c.0.as_str()).collect();
    assert_eq!(
        paths,
        vec![
            "/app/tools/zig/zig",
            "/app/tools/llvm-mingw/bin/x86_64-w64-mingw32-clang",
            "/app/tools/llvm-mingw/bin/x86_64-w64-mingw32-dlltool",
            "/app/tools/llvm-mingw/bin/llvm-dlltool",
            "/app/tools/cross/bin/x86_64-unknown-linux-gnu-zig-cc",
        ]
    );
    assert_eq!(checks[0].1, "zig (expected at /app/tools/zig/zig)");
    assert_eq!(checks[4].1, "x86_64-unknown-linux-gnu linker wrapper (expected at /app/tools/cross/bin/x86_64-unknown-linux-gnu-zig-cc)");
    let windows = cross_checks("/app", ".exe", true);
    assert_eq!(windows[0].0, "/app/tools/zig/zig.exe");
    assert_eq!(windows[4].0, "/app/tools/cross/bin/x86_64-unknown-linux-gnu-zig-cc.cmd");
}

#[test]
fn cross_inspection_reports_missing_tools() {
    let ready = inspect("/app", "", false, &[true, true, true, true, true]);
    assert!(ready.installed);
    assert!(ready.missing.is_empty());
    assert_eq!(ready.path, "/app/tools/zig/zig");
    let partial = inspect("/app", "", false, &[true, false, true, true, false]);
    assert!(!partial.installed);
    assert_eq!(partial.missing.len(), 2);
    assert!(partial.missing[0].starts_with("llvm-mingw clang"));
    let err = require_ready(&partial, "x86_64-pc-windows-gnullvm").unwrap_err();
    assert!(err.starts_with("cannot build target x86_64-pc-windows-gnullvm: app-local cross toolchains are missing\nmissing entries:\n  - llvm-mingw clang"));
    assert!(err.contains("\n  - x86_64-unknown-linux-gnu linker wrapper"));
    assert_eq!(require_ready(&ready, "x86_64-pc-windows-gnullvm"), Ok(()));
}

#[test]
fn linker_environment_per_target() {
    assert_eq!(cargo_linker_env("x86_64-pc-windows-gnullvm"), "CARGO_TARGET_X86_64_PC_WINDOWS_GNULLVM_LINKER");
    assert_eq!(linker_script_name("x86_64-unknown-linux-gnu", true), "x86_64-unknown-linux-gnu-zig-cc.cmd");
    let ready = CrossToolchainStatus { installed: true, path: String::new(), missing: Vec::new() };
    assert_eq!(
        linker_env("/app", "x86_64-pc-windows-gnullvm", "x86_64-unknown-linux-gnu", "", false, &ready),
        Ok(Some((
            "CARGO_TARGET_X86_64_PC_WINDOWS_GNULLVM_LINKER".to_owned(),
            "/app/tools/llvm-mingw/bin/x86_64-w64-mingw32-clang".to_owned()
        )))
    );
    assert_eq!(
        linker_env("/app", "x86_64-unknown-linux-gnu", "x86_64-pc-windows-gnullvm", ".exe", true, &ready),
        Ok(Some((
            "CARGO_TARGET_X86_64_UNKNOWN_LINUX_GNU_LINKER".to_owned(),
            "/app/tools/cross/bin/x86_64-unknown-linux-gnu-zig-cc.cmd".to_owned()
        )))
    );
    assert_eq!(linker_env("/app", "x86_64-unknown-linux-gnu", "x86_64-unknown-linux-gnu", "", false, &ready), Ok(None));
    assert_eq!(linker_env("/app", "aarch64-apple-darwin", "x86_64-unknown-linux-gnu", "", false, &ready), Ok(None));
    let missing = CrossToolchainStatus { installed: false, path: String::new(), missing: vec!["zig".to_owned()] };
    assert!(linker_env("/app", "x86_64-pc-windows-gnullvm", "x86_64-unknown-linux-gnu", "", false, &missing).is_err());
}

#[test]
fn host_targets() {
    assert_eq!(host_runtime_target("x86_64", "linux", "unix"), "x86_64-unknown-linux-gnu");
    assert_eq!(host_runtime_target("x86_64", "windows", "windows"), "x86_64-pc-windows-gnullvm");
    assert_eq!(host_runtime_target("aarch64", "macos", "unix"), "aarch64-apple-darwin");
    assert_eq!(host_runtime_target("riscv64", "linux", "unix"), "riscv64-linux-unix");
}

#[test]
fn wrappers_and_runtime_dlls() {
    let plan = wrapper_plan("/app", false).unwrap();
    assert_eq!(plan.len(), 1);
    assert_eq!(plan[0].0, "/app/tools/cross/bin/x86_64-unknown-linux-gnu-zig-cc");
    assert!(plan[0].1.starts_with("#!/bin/sh\n"));
    assert!(plan[0].1.contains("cc -target x86_64-linux-gnu \"$@\""));
    let cmd = wrapper_plan("/app", true).unwrap();
    assert!(cmd[0].1.starts_with("@echo off\r\n"));
    assert!(runtime_dll_plan("/app", "x86_64-unknown-linux-gnu", "/app/out").unwrap().is_empty());
    let dlls = runtime_dll_plan("/app", "x86_64-pc-windows-gnullvm", "/app/out").unwrap();
    assert_eq!(dlls.len(), 1);
    assert_eq!(dlls[0].source, "/app/tools/llvm-mingw/x86_64-w64-mingw32/bin/libunwind.dll");
    assert_eq!(dlls[0].target, "/app/out/libunwind.dll");
    assert!(runtime_dll_plan("/app", "x86_64-pc-windows-gnullvm", "/tmp/out").is_err());
    let missing = stage_runtime_dll("/app", &dlls[0], false).unwrap_err();
    assert!(missing.starts_with("cannot stage Windows runtime DLL 'libunwind.dll': missing /app/tools/llvm-mingw"));
    assert_eq!(stage_runtime_dll("/app", &dlls[0], true), Ok(()));
}

#[test]
fn git_candidates_in_order() {
    let env_only = git_candidates(Some("/opt/git"), Some("/linked/git"), &["/usr/bin".to_owned()], "", false);
    assert_eq!(env_only.len(), 1);
    assert_eq!(env_only[0].path, "/opt/git");
    assert_eq!(env_only[0].source, GitProviderSource::Environment);
    let linked = git_candidates(Some(""), Some("/linked/git"), &[], "", false);
    assert_eq!(linked.len(), 1);
    assert_eq!(linked[0].source, GitProviderSource::Linked);
    let search = git_candidates(None, None, &["/home/u/bin".to_owned(), "/usr/bin".to_owned()], "", false);
    let paths: Vec<&str> = search.iter().map(|c| c.path.as_str()).collect();
    assert_eq!(paths, vec!["/home/u/bin/git", "/usr/bin/git", "/usr/bin/git", "/usr/local/bin/git", "/bin/git"]);
    assert_eq!(search[1].source, GitProviderSource::Path);
    assert_eq!(search[2].source, GitProviderSource::CommonLocation);
    let windows = git_candidates(None, None, &[], ".exe", true);
    assert_eq!(windows[0].path, "C:\\Program Files\\Git\\cmd\\git.exe");
    assert_eq!(GitProviderSource::CommonLocation.label(), "common location");
}

#[test]
fn git_health_and_resolution() {
    assert_eq!(health_check("/g", false, Ok((true, String::new()))), Err("Git provider is not executable: /g".to_owned()));
    assert_eq!(health_check("/g", true, Err("denied".to_owned())), Err("failed to start Git '/g': denied".to_owned()));
    assert_eq!(
        health_check("/g", true, Ok((false, "exit status: 1".to_owned()))),
        Err("Git provider '/g' failed health check with exit status: 1".to_owned())
    );
    assert_eq!(health_check("/g", true, Ok((true, "exit status: 0".to_owned()))), Ok(()));
    let candidates = git_candidates(None, None, &["/usr/bin".to_owned()], "", false);
    assert!(resolved(candidates[0].clone(), Err("bad".to_owned())).is_none());
    let found = resolved(candidates[1].clone(), Ok(())).unwrap().unwrap();
    assert_eq!(found.path(), "/usr/bin/git");
    let explicit = git_candidates(Some("/opt/git"), None, &[], "", false);
    assert_eq!(resolved(explicit[0].clone(), Err("bad".to_owned())).unwrap().unwrap_err(), "bad");
    assert!(not_linked().starts_with("developer Git provider is not linked"));
    assert_eq!(canonical_file("g", "Git executable", Ok("/usr/bin/git".to_owned()), true), Ok("/usr/bin/git".to_owned()));
    assert_eq!(
        canonical_file("g", "Git executable", Ok("/usr/bin".to_owned()), false),
        Err("Git executable is not a file: /usr/bin".to_owned())
    );
    assert_eq!(
        canonical_file("g", "Git executable", Err("no such file".to_owned()), false),
        Err("failed to resolve Git executable 'g': no such file".to_owned())
    );
    assert_eq!(config_path(environment(None).installation()), "/app/.vapor/state/providers/git.toml");
}

#[test]
fn xml_rendering_pieces() {
    assert_eq!(xml_escape("a&\"<>"), "a&amp;&quot;&lt;&gt;");
    assert_eq!(xml_option("rustStdlibSource", None), "");
    assert_eq!(xml_option("n", Some("/p&q")), "    <option name=\"n\" value=\"/p&amp;q\" />\n");
    assert_eq!(rust_stdlib_source("/app/rust/bin"), Some("/app/rust/lib/rustlib/src/rust/library".to_owned()));
    assert_eq!(
        cargo_projects_value(&manifest()),
        "    <cargoProject FILE=\"$PROJECT_DIR$/a/Cargo.toml\" />\n    <cargoProject FILE=\"$PROJECT_DIR$/b&amp;c/Cargo.toml\" />\n"
    );
}

#[test]
fn ide_plan_status_and_repair() {
    let templates = IdeTemplates {
        cargo_projects: "<projects>\n{{cargo_projects}}</projects>".to_owned(),
        rust: "<rust bin=\"{{rust_bin_directory}}\">\n{{stdlib_option}}</rust>".to_owned(),
        vapor: "{{source_id}}|{{app_root}}|{{cargo_home}}|{{rustup_home}}|{{cargo_path}}|{{rustc_path}}|{{rustup_path}}|{{stdlib_option}}".to_owned(),
    };
    assert_eq!(
        build_plan(&environment(None), &manifest(), "/app/rust/bin", true, "", &templates).err(),
        Some("cannot configure IDE: bundled Cargo is missing".to_owned())
    );
    let plan = build_plan(&environment(Some("/app/cargo")), &manifest(), "/app/rust/bin", false, "", &templates).unwrap();
    assert_eq!(plan.idea_dir, "/src/ghf/.idea");
    assert_eq!(plan.files[0].path, "/src/ghf/.idea/cargoProjects.xml");
    assert!(plan.files[0].contents.contains("$PROJECT_DIR$/a/Cargo.toml"));
    assert_eq!(plan.files[1].contents, "<rust bin=\"/app/rust/bin\">\n</rust>");
    assert_eq!(
        plan.files[2].contents,
        "ghf/mods|/app|/app/cargo-home|/app/rustup-home|/app/cargo|/app/rust/bin/rustc|/app/rustup/bin/rustup|"
    );
    let observed = vec![None, Some(plan.files[1].contents.clone()), Some("old".to_owned())];
    let s = status(&plan, &observed);
    let states: Vec<IdeFileState> = s.files.iter().map(|f| f.state()).collect();
    assert_eq!(states, vec![IdeFileState::Missing, IdeFileState::Current, IdeFileState::Outdated]);
    assert!(!s.complete());
    assert_eq!(preview(&plan, &observed), vec!["/src/ghf/.idea/cargoProjects.xml".to_owned(), "/src/ghf/.idea/vapor.xml".to_owned()]);
    assert_eq!(needs_write(&plan, 1, Some(plan.files[1].contents.as_str())), Ok(false));
    assert_eq!(needs_write(&plan, 0, None), Ok(true));
    assert_eq!(file_state(Some("x"), &plan.files[0]), IdeFileState::Outdated);
    assert_eq!(IdeFileState::Missing.label(), "missing");
    let all = vec![
        Some(plan.files[0].contents.clone()),
        Some(plan.files[1].contents.clone()),
        Some(plan.files[2].contents.clone()),
    ];
    assert!(status(&plan, &all).complete());
}
