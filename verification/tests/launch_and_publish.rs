use vapor_shell::content::VerifyReport;
use vapor_shell::distribution::{DepotStage, StageOptions, StageReport, SteamDepotKind};
use vapor_shell::entrypoint::{
    discover_app_root, entry_log_path, exit_code, host_loader_candidates, linux_child_path, platform_script,
    terminal_plan, HostPlatform, TerminalHost,
};
use vapor_shell::launch::{
    default_launch_relationship, engine_launch_binary, launch_environment, launch_exit, launch_readiness,
    require_engine_binary, selected_packagepack_engine_id, steamcmd_missing, LaunchContent, LaunchManifest,
    LaunchReadiness, LaunchReference, LaunchRuntime, LOO_CAST_PACKAGEPACK_ID,
};
use vapor_shell::steam::{
    escape, executable_for_installation, render_template, replace_str, smoke, steamcmd_candidates, upload_arguments,
    upload_outcome, SmokeStep,
};

fn strings(v: &[&str]) -> Vec<String> {
    v.iter().map(|s| s.to_string()).collect()
}

fn reference(id: &str, relationship: &str) -> LaunchReference {
    LaunchReference { id: id.to_owned(), relationship: relationship.to_owned() }
}

fn report(id: &str, ok: bool, detail: &str) -> VerifyReport {
    VerifyReport { artifact_id: id.to_owned(), ok, expected: None, observed: None, detail: detail.to_owned() }
}

#[test]
fn the_packagepack_names_its_engine() {
    let parsed = LaunchManifest {
        packagepack: Some(LaunchContent {
            runtime: Vec::new(),
            dependencies: vec![reference("ghf/game", "dependency"), reference("ghf/engine", "engine"), reference("x", "engine")],
        }),
        engine: None,
    };
    assert_eq!(selected_packagepack_engine_id("/pp", &parsed), Ok("ghf/engine".to_owned()));
    let none = LaunchManifest { packagepack: None, engine: None };
    assert_eq!(
        selected_packagepack_engine_id("/pp", &none),
        Err("selected packagepack manifest '/pp/Packagepack.vapor.toml' has no [packagepack] section".to_owned())
    );
    let no_engine = LaunchManifest {
        packagepack: Some(LaunchContent { runtime: Vec::new(), dependencies: vec![reference("g", "dependency")] }),
        engine: None,
    };
    assert_eq!(
        selected_packagepack_engine_id("/pp", &no_engine),
        Err("selected packagepack '/pp/Packagepack.vapor.toml' has no required engine dependency".to_owned())
    );
    assert_eq!(default_launch_relationship(), "dependency");
    assert_eq!(LOO_CAST_PACKAGEPACK_ID, "ghf-studios/loo-cast/loo-cast-packagepack");
}

#[test]
fn the_engine_binary_serves_the_host_target() {
    let parsed = LaunchManifest {
        packagepack: None,
        engine: Some(LaunchContent {
            runtime: vec![
                LaunchRuntime { target: "x86_64-pc-windows-gnullvm".to_owned(), binaries: strings(&["engine.exe"]) },
                LaunchRuntime { target: "x86_64-unknown-linux-gnu".to_owned(), binaries: strings(&["spacetime", "tool"]) },
                LaunchRuntime { target: "aarch64-unknown-linux-gnu".to_owned(), binaries: Vec::new() },
            ],
            dependencies: Vec::new(),
        }),
    };
    assert_eq!(
        engine_launch_binary("/eng", &parsed, "x86_64-unknown-linux-gnu"),
        Ok("/eng/bin/x86_64-unknown-linux-gnu/spacetime".to_owned())
    );
    assert_eq!(
        engine_launch_binary("/eng", &parsed, "aarch64-unknown-linux-gnu"),
        Err("selected packagepack engine '/eng/Engine.vapor.toml' declares no runtime binary for aarch64-unknown-linux-gnu".to_owned())
    );
    assert_eq!(
        engine_launch_binary("/eng", &parsed, "riscv64"),
        Err("selected packagepack engine '/eng/Engine.vapor.toml' has no runtime payload for riscv64\nhelp: install content built for this platform".to_owned())
    );
    assert_eq!(
        engine_launch_binary("/eng", &LaunchManifest { packagepack: None, engine: None }, "t"),
        Err("selected packagepack engine manifest '/eng/Engine.vapor.toml' has no [engine] section".to_owned())
    );
    assert_eq!(require_engine_binary("/eng/bin/t/e", true), Ok(()));
    assert_eq!(
        require_engine_binary("/eng/bin/t/e", false),
        Err("selected packagepack engine binary is missing: /eng/bin/t/e\nhelp: deploy or install content with runtime outputs".to_owned())
    );
}

#[test]
fn launch_needs_every_installed_artifact_verified() {
    assert!(matches!(launch_readiness(&[]), LaunchReadiness::NothingInstalled));
    match launch_readiness(&[report("a", true, "ok"), report("b", false, "hash mismatch"), report("c", false, "missing")]) {
        LaunchReadiness::NeedsRepair(broken) => assert_eq!(
            broken,
            vec![("b".to_owned(), "hash mismatch".to_owned()), ("c".to_owned(), "missing".to_owned())]
        ),
        other => panic!("unexpected {other:?}"),
    }
    assert!(matches!(launch_readiness(&[report("a", true, ""), report("b", true, "")]), LaunchReadiness::Ready(2)));
    assert_eq!(launch_exit(true, "exit status: 0"), Ok(()));
    assert_eq!(launch_exit(false, "exit status: 3"), Err("Spacetime Engine exited with exit status: 3".to_owned()));
    assert!(steamcmd_missing("download failed: SteamCMD is not installed in the Vapor app root"));
    assert!(!steamcmd_missing("network down"));
    let env = launch_environment("pp", "/pp", "eng", "/eng", "t");
    assert_eq!(env[0], ("VAPOR_LAUNCH_TARGET".to_owned(), "loo-cast".to_owned()));
    assert_eq!(env[5], ("VAPOR_RUNTIME_TARGET".to_owned(), "t".to_owned()));
    assert_eq!(env.len(), 6);
}

fn host(platform: HostPlatform) -> TerminalHost {
    TerminalHost {
        platform,
        os_name: "macos".to_owned(),
        has_display: true,
        pressure_vessel: false,
        host_konsole: false,
        host_loader: None,
        system_konsole: true,
        path: Some("/usr/bin".to_owned()),
        comspec: None,
    }
}

#[test]
fn the_entrypoint_opens_the_platform_terminal() {
    assert_eq!(discover_app_root("/app/bin/vapor-entrypoint"), Some("/app".to_owned()));
    assert_eq!(discover_app_root("/app/bin/x86_64-unknown-linux-gnu/vapor-entrypoint"), Some("/app".to_owned()));
    assert_eq!(discover_app_root("/usr/local/vapor-entrypoint"), None);
    assert_eq!(platform_script("/app", false), "/app/bin/vapor-launch.sh");
    assert_eq!(platform_script("/app", true), "/app/bin/vapor-launch.cmd");
    assert_eq!(entry_log_path("/app"), "/app/.vapor/logs/entrypoint.log");
    let args = strings(&["launch", "loo-cast"]);
    assert_eq!(
        terminal_plan("/app", "/app/bin/vapor-launch.sh", &args, "/log", &host(HostPlatform::Other)).err(),
        Some("vapor-entrypoint has no terminal adapter for macos".to_owned())
    );
    let mut dark = host(HostPlatform::Linux);
    dark.has_display = false;
    assert_eq!(
        terminal_plan("/app", "/s", &args, "/log", &dark).err(),
        Some("Konsole launch requires DISPLAY or WAYLAND_DISPLAY".to_owned())
    );
    let konsole = terminal_plan("/app", "/app/bin/vapor-launch.sh", &args, "/log", &host(HostPlatform::Linux)).unwrap();
    assert_eq!(konsole.program, "/usr/bin/konsole");
    assert_eq!(
        konsole.args,
        strings(&["--nofork", "--hold", "-p", "tabtitle=Vapor", "--workdir", "/app", "-e", "/app/bin/vapor-launch.sh", "launch", "loo-cast"])
    );
    assert_eq!(konsole.label, "Konsole");
    assert_eq!(konsole.set_env[0], ("VAPOR_APP_ROOT".to_owned(), "/app".to_owned()));
    assert_eq!(konsole.notes, strings(&["launching Konsole through /usr/bin/konsole"]));
    let mut vessel = host(HostPlatform::Linux);
    vessel.pressure_vessel = true;
    vessel.host_konsole = true;
    vessel.system_konsole = false;
    let fallback = terminal_plan("/app", "/s", &[], "/log", &vessel).unwrap();
    assert_eq!(fallback.program, "konsole");
    assert_eq!(
        fallback.notes,
        strings(&["host Konsole exists but no /run/host dynamic loader was found", "launching Konsole through konsole"])
    );
    vessel.host_loader = Some("/run/host/lib64/ld-linux-x86-64.so.2".to_owned());
    let hosted = terminal_plan("/app", "/s", &[], "/log", &vessel).unwrap();
    assert_eq!(hosted.program, "/run/host/lib64/ld-linux-x86-64.so.2");
    assert_eq!(hosted.label, "host Konsole");
    assert_eq!(hosted.args[2], "/run/host/usr/bin/konsole");
    assert!(hosted.args.contains(&"VAPOR_ENTRYPOINT_LOG=/log".to_owned()));
    assert_eq!(hosted.args.last().unwrap(), "/s");
    assert_eq!(hosted.set_env[0].1, "/run/host/usr/local/bin:/run/host/usr/bin:/run/host/bin:/usr/bin");
    assert_eq!(hosted.remove_env.len(), 4);
    let windows = terminal_plan("C:/app", "C:/app/bin/vapor-launch.cmd", &args, "/log", &host(HostPlatform::Windows)).unwrap();
    assert_eq!(windows.program, "cmd.exe");
    assert_eq!(windows.args, strings(&["/D", "/K", "call", "C:/app/bin/vapor-launch.cmd", "launch", "loo-cast"]));
    assert_eq!(windows.label, "Command Prompt");
    assert_eq!(host_loader_candidates().len(), 6);
    assert_eq!(
        linux_child_path("/app", Some("/usr/bin")),
        "/app/bin/x86_64-unknown-linux-gnu:/app/cargo-home/bin:/app/rustup/bin:/app/tools/steamcmd:/usr/bin:/bin:/usr/bin"
    );
    assert_eq!(linux_child_path("/a:b", None), "/usr/bin:/bin");
    assert_eq!(exit_code(Some(3)), 3);
    assert_eq!(exit_code(None), 1);
}

#[test]
fn steamcmd_is_found_in_the_app_root() {
    assert_eq!(
        steamcmd_candidates("/app", false),
        strings(&["/app/tools/steamcmd/steamcmd", "/app/tools/steamcmd/steamcmd.sh", "/app/steam/steamcmd/steamcmd", "/app/steam/steamcmd/steamcmd.sh"])
    );
    assert_eq!(steamcmd_candidates("/app", true), strings(&["/app/tools/steamcmd/steamcmd.exe", "/app/steam/steamcmd/steamcmd.exe"]));
    assert_eq!(
        executable_for_installation("/app", false, &[false, false, true, true]),
        Ok("/app/steam/steamcmd/steamcmd".to_owned())
    );
    assert_eq!(
        executable_for_installation("/app", true, &[false, false]),
        Err("SteamCMD is not installed in the Vapor app root".to_owned())
    );
    assert_eq!(upload_arguments("builder", "/s.vdf"), strings(&["+login", "builder", "+run_app_build", "/s.vdf", "+quit"]));
    assert_eq!(upload_outcome(false, "exit status: 5"), Err("Steam publish exited with exit status: 5".to_owned()));
}

#[test]
fn templates_are_rendered_with_escaped_values() {
    assert_eq!(escape(r#"a"b\c"#), r#"a\"b\\c"#);
    assert_eq!(escape("plain"), "plain");
    assert_eq!(replace_str("aaa", "aa", "b"), "ba");
    assert_eq!(replace_str("x{{k}}y{{k}}", "{{k}}", ""), "xy");
    let values = vec![("depot_id".to_owned(), "7".to_owned()), ("root".to_owned(), "/s".to_owned())];
    assert_eq!(render_template("id={{depot_id}} {{depot_id}} at {{root}} {{other}}", &values), "id=7 7 at /s {{other}}");
}

fn stage(depots: Vec<(SteamDepotKind, &str)>) -> StageReport {
    StageReport {
        root: "/s".to_owned(),
        depots: depots.into_iter().map(|(kind, root)| DepotStage { kind, root: root.to_owned() }).collect(),
        files: 0,
    }
}

fn view(steps: &[SmokeStep]) -> Vec<(u8, String, String)> {
    steps
        .iter()
        .map(|s| match s {
            SmokeStep::Exists { path, error } => (0, path.clone(), error.clone()),
            SmokeStep::IsFile { path, error } => (1, path.clone(), error.clone()),
            SmokeStep::Fail { error } => (2, String::new(), error.clone()),
        })
        .collect()
}

#[test]
fn staged_applications_are_smoke_checked_in_order() {
    let options = StageOptions::runtime("x86_64-unknown-linux-gnu");
    let none = smoke(&stage(Vec::new()), &options);
    assert_eq!(view(&none), vec![(2, String::new(), "staged application has no common depot".to_owned())]);
    let steps = smoke(&stage(vec![(SteamDepotKind::Common, "/s/common"), (SteamDepotKind::Linux, "/s/linux")]), &options);
    assert_eq!(
        view(&steps),
        vec![
            (0, "/s/common/App.vapor.toml".to_owned(), "staged common depot is missing required path: /s/common/App.vapor.toml".to_owned()),
            (0, "/s/common/docs".to_owned(), "staged common depot is missing required path: /s/common/docs".to_owned()),
            (1, "/s/linux/bin/vapor-launch.sh".to_owned(), "staged Linux depot has no launch wrapper: /s/linux/bin/vapor-launch.sh".to_owned()),
            (1, "/s/linux/bin/x86_64-unknown-linux-gnu/vapor".to_owned(), "staged Linux depot has no target Vapor binary: /s/linux/bin/x86_64-unknown-linux-gnu/vapor".to_owned()),
            (1, "/s/linux/bin/x86_64-unknown-linux-gnu/vapor-installer".to_owned(), "staged Linux depot has no target Vapor Installer binary: /s/linux/bin/x86_64-unknown-linux-gnu/vapor-installer".to_owned()),
        ]
    );
    let missing = smoke(&stage(vec![(SteamDepotKind::Common, "/s/common")]), &options);
    assert_eq!(view(&missing).last().unwrap().2, "staged application has no linux depot");
}
