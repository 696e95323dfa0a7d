use vapor_shell::discovery::{InstallationPaths, InstallationProbe};
use vapor_shell::keyed::{dedup_sorted, sort_unique};
use vapor_shell::manifest::VaporEntity;
use vapor_shell::path_setup::{install_text, remove_block, PathSetup, PathSetupReport};
use vapor_shell::setup_self::{
    bootstrap_groups, choose_host_git, clear_location_registration, git_template_candidates, location_status, lock_path,
    package_status, package_tools_missing, register_location, require_registered_location, require_registered_status,
    require_status, rustup_init_url, uninstall_paths, verification_failed, HostGitProbe, LocationStatus,
    SetupSelfComponentStatus, SetupSelfPackageStatus, SetupSelfRequirement, SetupSelfStatus,
};

fn installation() -> InstallationPaths {
    let probe = InstallationProbe {
        marker_is_file: true,
        marker: Ok(VaporEntity::Root {
            id: "ghf/vapor".to_owned(),
            name: "vapor".to_owned(),
            organization: "ghf".to_owned(),
        }),
        libraries: Ok(None),
        cargo: None,
    };
    InstallationPaths::from_executable("/app/bin/vapor", "", &probe).unwrap()
}

fn report() -> PathSetupReport {
    PathSetupReport {
        command: "/app/bin/vapor".to_owned(),
        binaries: "/app/bin".to_owned(),
        profiles: vec!["/home/u/.profile".to_owned()],
        registered: true,
        changed: true,
        path_active: false,
    }
}

fn component(label: &str, installed: bool) -> SetupSelfComponentStatus {
    SetupSelfComponentStatus {
        label: label.to_owned(),
        installed,
        path: format!("/app/{label}"),
        missing: if installed { Vec::new() } else { vec!["tool".to_owned()] },
    }
}

fn status(rust: bool, git: bool, steam: bool) -> SetupSelfStatus {
    SetupSelfStatus {
        rust: component("Rust/Cargo", rust),
        git: component("Git", git),
        steamcmd: component("SteamCMD", steam),
        package: SetupSelfPackageStatus { root: "/app/packages/setup".to_owned(), missing: Vec::new() },
    }
}

#[test]
fn location_lock_decides_status() {
    let app = installation();
    assert_eq!(lock_path(&app), "/app/.vapor/state/vapor-home.toml");
    assert_eq!(location_status(&app, None), Ok(LocationStatus::Unregistered { current: "/app".to_owned() }));
    assert_eq!(
        location_status(&app, Some(Ok((1, "/app".to_owned())))),
        Ok(LocationStatus::Registered { path: "/app".to_owned() })
    );
    let moved = location_status(&app, Some(Ok((1, "/old".to_owned())))).unwrap();
    assert_eq!(moved.current(), "/app");
    assert_eq!(moved.locked(), Some("/old"));
    assert!(!moved.registered());
    assert_eq!(
        location_status(&app, Some(Ok((2, "/app".to_owned())))),
        Err("unsupported app-root lock version 2 in '/app/.vapor/state/vapor-home.toml'".to_owned())
    );
    assert_eq!(location_status(&app, Some(Err("bad".to_owned()))), Err("bad".to_owned()));
}

#[test]
fn registration_is_required() {
    let app = installation();
    assert_eq!(require_registered_status(&LocationStatus::Registered { path: "/app".to_owned() }, "install setup"), Ok(()));
    let err = require_registered_location(&app, None, "install setup").unwrap_err();
    assert!(err.starts_with("cannot install setup: the app root has not been accepted\n  current: /app\n"));
    let err = require_registered_location(&app, Some(Ok((1, "/old".to_owned()))), "install setup").unwrap_err();
    assert!(err.contains("  previous: /old\n  current:  /app\n"));
    assert_eq!(require_registered_location(&app, Some(Ok((1, "/app".to_owned()))), "install setup"), Ok(()));
    let (change, lock) = register_location(&app, report());
    assert!(change.status().registered());
    assert_eq!(lock, (1, "/app".to_owned()));
    let cleared = clear_location_registration(&app, report());
    assert_eq!(cleared.status(), &LocationStatus::Unregistered { current: "/app".to_owned() });
}

#[test]
fn preflight_names_missing_groups() {
    let s = status(true, false, false);
    assert!(!s.complete());
    assert_eq!(require_status(&s, &[SetupSelfRequirement::Rust], "build"), Ok(()));
    let err = require_status(&s, &[SetupSelfRequirement::Rust, SetupSelfRequirement::Git, SetupSelfRequirement::SteamCmd], "publish")
        .unwrap_err();
    assert!(err.starts_with("cannot publish: the app-local Git, SteamCMD are not installed\n  - Git: missing tool (primary path /app/Git)\n  - SteamCMD: missing tool (primary path /app/SteamCMD)\nhelp: inspect setup"));
    let one = require_status(&s, &[SetupSelfRequirement::Git], "link").unwrap_err();
    assert!(one.starts_with("cannot link: the app-local Git is not installed\n"));
    assert_eq!(
        verification_failed(&status(false, true, true)),
        "self-setup installation completed, but verification still fails\n  - Rust/Cargo: missing tool (primary path /app/Rust/Cargo)"
    );
    assert_eq!(SetupSelfRequirement::SteamCmd.label(), "SteamCMD");
}

#[test]
fn bootstrap_installs_missing_or_all_on_repair() {
    assert_eq!(bootstrap_groups(&status(true, false, true), false), vec![SetupSelfRequirement::Git]);
    assert_eq!(
        bootstrap_groups(&status(true, true, true), true),
        vec![SetupSelfRequirement::Rust, SetupSelfRequirement::Git, SetupSelfRequirement::SteamCmd]
    );
    assert!(bootstrap_groups(&status(true, true, true), false).is_empty());
}

#[test]
fn package_status_is_sorted_and_unique() {
    let p = package_status("/app", &[true, false, true, true, false, true], vec!["zz".to_owned(), "git".to_owned()]);
    assert_eq!(p.root(), "/app/packages/setup");
    assert_eq!(p.missing(), &["git".to_owned(), "rustup-home".to_owned(), "zz".to_owned()]);
    assert!(!p.complete());
    assert_eq!(
        package_tools_missing("", false, &["cargo".to_owned()], true, true, false),
        vec![
            "rustup/bin/rustup".to_owned(),
            "rustup-home/toolchains/*/bin/cargo".to_owned(),
            "git/bin/git (replace with app-owned Git executable)".to_owned(),
            "steamcmd/steamcmd[.sh|.exe]".to_owned(),
        ]
    );
    assert_eq!(sort_unique(vec!["b".to_owned(), "a".to_owned(), "b".to_owned()]), vec!["a".to_owned(), "b".to_owned()]);
    assert_eq!(dedup_sorted(vec!["a".to_owned(), "a".to_owned(), "c".to_owned()]), vec!["a".to_owned(), "c".to_owned()]);
}

#[test]
fn uninstall_and_downloads() {
    assert_eq!(
        uninstall_paths("/app").unwrap(),
        vec!["/app/rustup", "/app/rustup-home", "/app/cargo-home", "/app/tools/git", "/app/tools/steamcmd"]
    );
    assert_eq!(
        rustup_init_url("linux", "aarch64"),
        Ok("https://static.rust-lang.org/rustup/dist/aarch64-unknown-linux-gnu/rustup-init")
    );
    assert_eq!(
        rustup_init_url("windows", "x86_64"),
        Err("Rust/Cargo self-setup installation is not configured for x86_64-windows".to_owned())
    );
    assert_eq!(
        git_template_candidates(Some("/usr/lib/git-core")),
        vec!["/usr/share/git-core/templates", "/usr/share/git-core/templates", "/usr/local/share/git-core/templates"]
    );
    assert_eq!(git_template_candidates(None).len(), 2);
}

#[test]
fn host_git_choice() {
    let probes = vec![
        HostGitProbe::NotExecutable,
        HostGitProbe::Unresolved { path: "/x/git".to_owned(), error: "denied".to_owned() },
        HostGitProbe::Resolved { canonical: "/app/tools/git".to_owned(), inside_root: true, delegating: false, version_ok: true },
        HostGitProbe::Resolved { canonical: "/usr/bin/git".to_owned(), inside_root: false, delegating: true, version_ok: true },
        HostGitProbe::Resolved { canonical: "/usr/bin/git".to_owned(), inside_root: false, delegating: false, version_ok: true },
        HostGitProbe::Resolved { canonical: "/opt/git".to_owned(), inside_root: false, delegating: false, version_ok: true },
    ];
    assert_eq!(choose_host_git(&probes), Ok(5));
    let err = choose_host_git(&probes[..5]).unwrap_err();
    assert!(err.contains("rejected candidates:\n  - /x/git (denied)\n  - /usr/bin/git (delegates to another Git)\n"));
    let none = choose_host_git(&[]).unwrap_err();
    assert!(none.contains("no executable Git candidate was found"));
}

#[test]
fn managed_block_install_is_idempotent() {
    let setup = PathSetup::new("/home/u".to_owned(), "/app/bin".to_owned(), None);
    let block = setup.profile_block("/home/u/.profile");
    let (once, changed) = install_text("export A=1", &block);
    assert!(changed);
    assert_eq!(once, format!("export A=1\n{block}"));
    let (twice, changed_again) = install_text(&once, &block);
    assert_eq!(twice, once);
    assert!(!changed_again);
    assert_eq!(remove_block(&once), "export A=1\n");
}
