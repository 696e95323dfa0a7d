use vapor_shell::content::{ContentArtifact, ContentLayout, ContentReference, Fingerprint, RuntimePayload, WorkshopPolicy};
use vapor_shell::deployed::DeployedManifest;
use vapor_shell::fingerprint::{fingerprint_order, path_before};
use vapor_shell::content_state::{ContentIndex, InstalledRecord};
use vapor_shell::diagnostics::{civil_from_days, date_text, redact_text};
use vapor_shell::discovery::{ensure_contained, InstallationPaths, InstallationProbe};
use vapor_shell::lifecycle::{disable, enable, record_move};
use vapor_shell::manifest::{ContentKind, VaporEntity};
use vapor_shell::source_registry::{remove, SourceEntry, SourceRegistry};

fn installation() -> InstallationPaths {
    let probe = InstallationProbe {
        marker_is_file: true,
        marker: Ok(VaporEntity::Root {
            id: "ghf/vapor".to_owned(),
            name: "vapor".to_owned(),
            organization: "ghf".to_owned(),
        }),
        libraries: Ok(None),
        cargo: None,
    };
    InstallationPaths::from_executable("/app/bin/vapor", "", &probe).unwrap()
}

fn fingerprint(hash: &str) -> Fingerprint {
    Fingerprint { algorithm: "vapor-fnv1a-64-v1".to_owned(), hash: hash.to_owned(), files: 3, bytes: 40 }
}

#[test]
fn days_before_the_epoch_fall_in_earlier_years() {
    assert_eq!(civil_from_days(-1), (1969, 12, 31));
    assert_eq!(civil_from_days(-365), (1969, 1, 1));
    assert_eq!(civil_from_days(-719_468), (0, 3, 1));
    assert_eq!(civil_from_days(-719_469), (0, 2, 29));
    assert_eq!(civil_from_days(-719_529), (-1, 12, 31));
    assert_eq!(date_text(-1, 12, 31), "-001-12-31");
    assert_eq!(date_text(-12_345, 6, 7), "-12345-06-07");
    assert_eq!(date_text(0, 3, 1), "0000-03-01");
}

#[test]
fn a_root_with_a_trailing_separator_contains_itself() {
    assert_eq!(ensure_contained("/app/", "/app"), Ok(()));
    assert_eq!(ensure_contained("/app/", "/app/x"), Ok(()));
    assert_eq!(ensure_contained("/app", "/app/"), Ok(()));
    assert_eq!(ensure_contained("/", "/x"), Ok(()));
    assert_eq!(
        ensure_contained("/app/", "/apps"),
        Err("Vapor source boundary violation: '/apps' is outside '/app/'".to_owned())
    );
}

#[test]
fn redacting_twice_is_redacting_once() {
    let text = "login --password hunter2 token: abc -x=key user=bob api_key=1 access:";
    let once = redact_text(text);
    assert_eq!(once, "login --password <redacted> token:<redacted> <redacted> -x=<redacted> user=bob api_key=<redacted> access:");
    assert_eq!(redact_text(&once), once);
    let flags = "--token: secret --token x";
    let once = redact_text(flags);
    assert_eq!(redact_text(&once), once);
}

#[test]
fn adding_then_removing_a_source_restores_the_registry() {
    let mut r = SourceRegistry::new();
    r.insert("vapor".to_owned(), SourceEntry { id: "ghf/vapor".to_owned(), path: "/src/vapor".to_owned() });
    let before = r.names();
    r.insert("loo-cast".to_owned(), SourceEntry { id: "ghf/games/loo-cast".to_owned(), path: "/src/loo-cast".to_owned() });
    assert_eq!(remove(&mut r, "ghf/games/loo-cast"), Some("loo-cast".to_owned()));
    assert_eq!(r.names(), before);
    r.insert("loo-cast".to_owned(), SourceEntry { id: "ghf/games/loo-cast".to_owned(), path: "/src/loo-cast".to_owned() });
    assert_eq!(remove(&mut r, "loo-cast"), Some("loo-cast".to_owned()));
    assert_eq!(r.names(), before);
    assert_eq!(remove(&mut r, "nothing"), None);
    assert_eq!(r.names(), before);
}

#[test]
fn disabling_then_enabling_restores_the_content() {
    let installation = installation();
    let layout = ContentLayout::new(&installation);
    let root = format!("{}/demo", layout.installed());
    let record_at = |root: &str| InstalledRecord {
        artifact_id: "demo".to_owned(),
        kind: "mod".to_owned(),
        version: Some("1.0.0".to_owned()),
        workshop_id: None,
        enabled: true,
        installed_root: root.to_owned(),
        fingerprint: fingerprint("00aa"),
        dependencies: Vec::new(),
        conflicts: Vec::new(),
        installed_at: 7,
        source: "cache".to_owned(),
    };
    let original = record_at(&root);
    let mut index = ContentIndex::new();
    index.insert_installed("demo".to_owned(), record_at(&root));

    let off = disable(&index, &layout, "demo").unwrap();
    assert_eq!(off.artifact_id, "demo");
    assert_eq!(off.from_root, root);
    assert_eq!(off.to_root, format!("{}/demo", layout.disabled()));
    let mut record = record_at(&root);
    record_move(&mut record, false, off.to_root.clone(), fingerprint("00aa"));
    assert!(!record.enabled);
    assert_eq!(record.installed_root, off.to_root);
    index.insert_installed("demo".to_owned(), record);
    let mut record = record_at(&off.to_root);
    record.enabled = false;
    assert!(!index.is_enabled("demo"));

    let on = enable(&index, &layout, "demo").unwrap();
    assert_eq!(on.from_root, off.to_root);
    assert_eq!(on.to_root, off.from_root);
    record_move(&mut record, true, on.to_root.clone(), fingerprint("00aa"));
    assert_eq!(record.enabled, original.enabled);
    assert_eq!(record.installed_root, original.installed_root);
    assert_eq!(record.fingerprint.hash, original.fingerprint.hash);
    assert_eq!(record.artifact_id, original.artifact_id);
    assert_eq!(record.version, original.version);
}

fn staged_artifact() -> ContentArtifact {
    let mut workshop = WorkshopPolicy::empty();
    workshop.app_id = Some(480);
    workshop.tags = vec!["Mod".to_owned()];
    ContentArtifact {
        id: "ghf/mods/demo".to_owned(),
        name: "demo".to_owned(),
        kind: ContentKind::GameMod,
        root: "/src/mods/demo".to_owned(),
        manifest: "/src/mods/demo/game-mod.toml".to_owned(),
        version: Some("0.2.0".to_owned()),
        binaries: vec!["demo-tool".to_owned()],
        libraries: vec!["demo".to_owned()],
        runtime: Vec::new(),
        dependencies: vec![ContentReference {
            id: "ghf/games/loo".to_owned(),
            relationship: "game".to_owned(),
            optional: false,
            version: None,
            workshop_id: None,
            reason: None,
        }],
        conflicts: Vec::new(),
        workshop,
    }
}

#[test]
fn a_deployed_manifest_reads_back_as_its_artifact() {
    let artifact = staged_artifact();
    let runtime = vec![RuntimePayload {
        target: "x86_64-unknown-linux-gnu".to_owned(),
        binaries: vec!["demo-tool".to_owned()],
        libraries: vec!["libdemo.so".to_owned()],
    }];
    let deployed = DeployedManifest::from_artifact(&artifact, runtime);
    assert_eq!(deployed.schema, 1);
    assert!(deployed.game_mod.is_some() && deployed.game.is_none() && deployed.engine_mod.is_none());
    let back = deployed.into_artifact("/app/cache/demo".to_owned(), "/app/cache/demo/game-mod.toml".to_owned()).unwrap();
    assert_eq!(back.id, artifact.id);
    assert_eq!(back.name, artifact.name);
    assert_eq!(back.kind, artifact.kind);
    assert_eq!(back.root, "/app/cache/demo");
    assert_eq!(back.manifest, "/app/cache/demo/game-mod.toml");
    assert_eq!(back.version, artifact.version);
    assert_eq!(back.binaries, artifact.binaries);
    assert_eq!(back.libraries, artifact.libraries);
    assert_eq!(back.runtime.len(), 1);
    assert_eq!(back.runtime[0].libraries, vec!["libdemo.so".to_owned()]);
    assert_eq!(back.workshop.app_id, Some(480));
    assert_eq!(back.workshop.tags, vec!["Mod".to_owned()]);
    assert_eq!(back.dependencies.len(), 1);
    assert_eq!(back.dependencies[0].id, "ghf/games/loo");
}

#[test]
fn a_deployed_manifest_needs_one_section_and_a_schema() {
    let artifact = staged_artifact();
    let mut zero = DeployedManifest::from_artifact(&artifact, Vec::new());
    zero.schema = 0;
    assert_eq!(
        zero.into_artifact("/r".to_owned(), "/r/m.toml".to_owned()).err(),
        Some("deployed content manifest '/r/m.toml' has invalid schema 0".to_owned())
    );
    assert_eq!(
        DeployedManifest::empty().into_artifact("/r".to_owned(), "/r/m.toml".to_owned()).err(),
        Some("deployed content manifest has no content section".to_owned())
    );
    let mut two = DeployedManifest::from_artifact(&artifact, Vec::new());
    two.engine = DeployedManifest::from_artifact(&artifact, Vec::new()).game_mod;
    assert_eq!(
        two.into_artifact("/r".to_owned(), "/r/m.toml".to_owned()).err(),
        Some("deployed content manifest has multiple content sections".to_owned())
    );
}

#[test]
fn fingerprint_files_are_read_in_path_order() {
    let names = ["b", "a/b", "a-b", "a", "a/a", "a/b/c"];
    let sorted = fingerprint_order(names.iter().map(|n| n.to_string()).collect());
    assert_eq!(sorted, vec!["a", "a/a", "a/b", "a/b/c", "a-b", "b"]);
    assert!(path_before("a/b", "a-b"));
    assert!(!path_before("a-b", "a/b"));
    assert!(!path_before("a", "a"));
    assert!(fingerprint_order(Vec::new()).is_empty());
}
