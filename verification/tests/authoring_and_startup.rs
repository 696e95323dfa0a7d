use vapor_shell::authored::{
    authored_content, composition_edges, discover, project_artifact, AuthoredContent, AuthoredManifest,
    AuthoredReference, AuthoredVersion,
};
use vapor_shell::command::ShellCommand;
use vapor_shell::content::{ContentArtifact, ContentReference, WorkshopPolicy};
use vapor_shell::manifest::{ContentKind, VaporEntity};
use vapor_shell::startup::{
    installer_bootstrap_failure, posix_quote, shell_only_error, startup_mode, startup_next, windows_quote,
    StartupMode,
};

fn reference(id: &str, optional: bool) -> AuthoredReference {
    AuthoredReference {
        id: id.to_owned(),
        optional,
        version: Some("^1".to_owned()),
        workshop_id: None,
        reason: None,
    }
}

fn section(version: AuthoredVersion) -> AuthoredContent {
    AuthoredContent {
        version,
        binaries: vec!["game".to_owned()],
        libraries: Vec::new(),
        workshop: WorkshopPolicy::empty(),
        dependencies: vec![ContentReference {
            id: "ghf/base/core".to_owned(),
            relationship: "requires".to_owned(),
            optional: false,
            version: None,
            workshop_id: None,
            reason: None,
        }],
        conflicts: Vec::new(),
        engine: None,
        enginepack: None,
        game: None,
        gamepack: None,
    }
}

fn empty_manifest() -> AuthoredManifest {
    AuthoredManifest {
        engine: None,
        game: None,
        packagepack: None,
        enginepack: None,
        gamepack: None,
        modpack: None,
        engine_mod: None,
        game_mod: None,
        extension_mod: None,
    }
}

fn artifact(id: &str, manifest: &str) -> ContentArtifact {
    ContentArtifact {
        id: id.to_owned(),
        name: id.rsplit('/').next().unwrap().to_owned(),
        kind: ContentKind::Game,
        root: String::new(),
        manifest: manifest.to_owned(),
        version: None,
        binaries: Vec::new(),
        libraries: Vec::new(),
        runtime: Vec::new(),
        dependencies: Vec::new(),
        conflicts: Vec::new(),
        workshop: WorkshopPolicy::empty(),
    }
}

#[test]
fn version_resolution_follows_the_declaration() {
    let exact = AuthoredVersion::Exact("1.2.3".to_owned());
    assert_eq!(exact.resolve(Some("9.9.9")), Some("1.2.3".to_owned()));
    let inherited = AuthoredVersion::Workspace { workspace: true };
    assert_eq!(inherited.resolve(Some("0.4.0")), Some("0.4.0".to_owned()));
    assert_eq!(inherited.resolve(None), None);
    let declined = AuthoredVersion::Workspace { workspace: false };
    assert_eq!(declined.resolve(Some("0.4.0")), None);
    assert_eq!(AuthoredVersion::Missing.resolve(Some("0.4.0")), None);
}

#[test]
fn reference_keeps_fields_and_widens_optional() {
    let r = reference("ghf/engines/loo", false).to_content_reference("engine", true);
    assert_eq!(r.id, "ghf/engines/loo");
    assert_eq!(r.relationship, "engine");
    assert!(r.optional);
    assert_eq!(r.version.as_deref(), Some("^1"));
    let strict = reference("ghf/engines/loo", false).to_content_reference("engine", false);
    assert!(!strict.optional);
}

#[test]
fn packagepack_composition_edges_in_order() {
    let mut content = section(AuthoredVersion::Missing);
    content.engine = Some(reference("e", false));
    content.game = Some(reference("g", true));
    content.gamepack = Some(reference("gp", false));
    let edges = composition_edges(ContentKind::Packagepack, &content);
    let rels: Vec<&str> = edges.iter().map(|e| e.relationship.as_str()).collect();
    assert_eq!(rels, vec!["engine", "game", "gamepack"]);
    assert!(edges[1].optional);
    let game_edges = composition_edges(ContentKind::Game, &content);
    assert_eq!(game_edges.len(), 1);
    assert_eq!(game_edges[0].id, "e");
    assert!(composition_edges(ContentKind::Modpack, &content).is_empty());
}

#[test]
fn authored_content_appends_composition_to_dependencies() {
    let mut content = section(AuthoredVersion::Workspace { workspace: true });
    content.engine = Some(reference("ghf/engines/loo", false));
    let mut manifest = empty_manifest();
    manifest.game = Some(content);
    let c = authored_content(manifest, ContentKind::Game, "src/game/Vapor.toml").unwrap();
    assert_eq!(c.dependencies.len(), 2);
    assert_eq!(c.dependencies[0].id, "ghf/base/core");
    assert_eq!(c.dependencies[1].id, "ghf/engines/loo");
    assert_eq!(c.dependencies[1].relationship, "engine");
}

#[test]
fn authored_content_without_section_is_refused() {
    let err = authored_content(empty_manifest(), ContentKind::Engine, "src/e/Vapor.toml").unwrap_err();
    assert_eq!(err, "content manifest 'src/e/Vapor.toml' did not contain expected [engine] section");
}

#[test]
fn project_artifact_from_content_manifest() {
    let entity = VaporEntity::Content {
        kind: ContentKind::Game,
        id: "ghf/games/loo-cast".to_owned(),
        name: "loo-cast".to_owned(),
    };
    let content = section(AuthoredVersion::Workspace { workspace: true });
    let a = project_artifact("games/loo-cast", "/src/games/loo-cast/Vapor.toml", ContentKind::Game, &entity, content, Some("0.2.0"))
        .unwrap();
    assert_eq!(a.id, "ghf/games/loo-cast");
    assert_eq!(a.root, "/src/games/loo-cast");
    assert_eq!(a.manifest, "/src/games/loo-cast/Vapor.toml");
    assert_eq!(a.version.as_deref(), Some("0.2.0"));
    assert_eq!(a.binaries, vec!["game".to_owned()]);
    assert!(a.runtime.is_empty());
}

#[test]
fn project_artifact_errors() {
    let changed = VaporEntity::Content { kind: ContentKind::Engine, id: "x".to_owned(), name: "x".to_owned() };
    let err = project_artifact("p", "/s/p/Vapor.toml", ContentKind::Game, &changed, section(AuthoredVersion::Missing), None)
        .unwrap_err();
    assert_eq!(err, "registered workspace project 'p' changed kind from game to engine");
    let nested = VaporEntity::Workspace { id: "ghf/w".to_owned(), name: "w".to_owned(), organization: "ghf".to_owned() };
    let err = project_artifact("p", "/s/p/Vapor.toml", ContentKind::Game, &nested, section(AuthoredVersion::Missing), None)
        .unwrap_err();
    assert_eq!(err, "registered workspace project 'p' declares nested source root 'ghf/w'");
    let registry = VaporEntity::Registry { id: "ghf/r".to_owned(), name: "r".to_owned(), organization: "ghf".to_owned() };
    let err = project_artifact("p", "/s/p/Vapor.toml", ContentKind::Game, &registry, section(AuthoredVersion::Missing), None)
        .unwrap_err();
    assert_eq!(err, "registered workspace project 'p' declares registry 'ghf/r'");
    let content = VaporEntity::Content { kind: ContentKind::Game, id: "x".to_owned(), name: "x".to_owned() };
    let err = project_artifact("p", "", ContentKind::Game, &content, section(AuthoredVersion::Missing), None).unwrap_err();
    assert_eq!(err, "manifest has no parent: ");
}

#[test]
fn discovered_artifacts_are_sorted_by_id() {
    let catalog = discover(vec![
        artifact("ghf/w/zeta", "a"),
        artifact("ghf/w/alpha", "b"),
        artifact("ghf/w/mid", "c"),
        artifact("ghf/w/alpha", "d"),
    ]);
    let ids: Vec<&str> = catalog.artifacts.iter().map(|a| a.id.as_str()).collect();
    assert_eq!(ids, vec!["ghf/w/alpha", "ghf/w/alpha", "ghf/w/mid", "ghf/w/zeta"]);
    let manifests: Vec<&str> = catalog.artifacts.iter().map(|a| a.manifest.as_str()).collect();
    assert_eq!(manifests, vec!["b", "d", "c", "a"]);
    assert!(discover(Vec::new()).artifacts.is_empty());
}

#[test]
fn startup_modes() {
    match startup_mode(Some("boot".to_owned()), None).unwrap() {
        StartupMode::Repl { startup_script } => assert_eq!(startup_script.as_deref(), Some("boot")),
        _ => panic!("expected the shell"),
    }
    assert!(matches!(startup_mode(None, None).unwrap(), StartupMode::Repl { startup_script: None }));
    assert!(matches!(startup_mode(None, Some(ShellCommand::Installation)).unwrap(), StartupMode::Direct(ShellCommand::Installation)));
    let err = startup_mode(Some("boot".to_owned()), Some(ShellCommand::Installation)).unwrap_err();
    assert_eq!(err, "--startup-script enters the interactive shell and cannot be combined with a one-shot command");
    assert_eq!(StartupMode::Exit.diagnostic_label(), "exit");
    assert_eq!(StartupMode::Repl { startup_script: Some("x".to_owned()) }.diagnostic_label(), "repl-with-startup-script");
    assert!(shell_only_error().starts_with("this command must run inside the interactive Vapor shell"));
}

#[test]
fn shell_quoting() {
    assert_eq!(posix_quote("/opt/vapor"), "/opt/vapor");
    assert_eq!(posix_quote("my app"), "'my app'");
    assert_eq!(posix_quote("it's"), "'it'\\''s'");
    assert_eq!(posix_quote(""), "''");
    assert_eq!(windows_quote("C:\\Vapor"), "C:\\Vapor");
    assert_eq!(windows_quote("C:\\Program Files\\Vapor"), "\"C:\\Program Files\\Vapor\"");
    assert_eq!(windows_quote("a \"b\""), "\"a \"\"b\"\"\"");
    assert_eq!(windows_quote(""), "\"\"");
}

#[test]
fn startup_suggestions() {
    assert_eq!(startup_next(true, false, false, false, "/a"), "reinstall the Steam app, or run the installer command shown above");
    assert_eq!(startup_next(false, false, false, true, "/a"), "vapor-installer install --app-root /a");
    assert_eq!(startup_next(false, true, false, true, "/a"), "vapor-installer dev-env install --app-root /a");
    assert_eq!(startup_next(false, true, false, false, "/a"), "launch loo-cast");
    assert_eq!(startup_next(false, true, true, true, "/a"), "validate");
}

#[test]
fn bootstrap_failure_record() {
    assert_eq!(
        installer_bootstrap_failure("  runtime missing \n /logs/install.log\n"),
        Some(("runtime missing".to_owned(), Some("/logs/install.log".to_owned())))
    );
    assert_eq!(installer_bootstrap_failure("failed\n  \n"), Some(("failed".to_owned(), None)));
    assert_eq!(installer_bootstrap_failure("   \nlog"), None);
    assert_eq!(installer_bootstrap_failure(""), None);
}
