use vapor_shell::discovery::{EnvironmentPaths, InstallationProbe};
use vapor_shell::documentation::{
    build_start, candidate, doc_build_failed, doc_section, html_escape, index_html, path, section_index_html,
};
use vapor_shell::manifest::VaporEntity;
use vapor_shell::workspace::{CargoProject, SourceRootKind, WorkspaceManifest};

fn environment(cargo: Option<&str>) -> EnvironmentPaths {
    let probe = InstallationProbe {
        marker_is_file: true,
        marker: Ok(VaporEntity::Root {
            id: "ghf/vapor".to_owned(),
            name: "vapor".to_owned(),
            organization: "ghf".to_owned(),
        }),
        libraries: Ok(None),
        cargo: cargo.map(|c| c.to_owned()),
    };
    let highest = Some((
        "/src/ghf/Vapor.toml".to_owned(),
        Ok(VaporEntity::Workspace {
            id: "ghf/mods".to_owned(),
            name: "mods".to_owned(),
            organization: "ghf".to_owned(),
        }),
    ));
    EnvironmentPaths::from_paths("/app/bin/vapor", "", &probe, "/src/ghf", &highest).unwrap()
}

fn project(name: &str, documentation: bool) -> CargoProject {
    CargoProject {
        name: name.to_owned(),
        manifest: format!("{name}/Cargo.toml"),
        documentation,
        binaries: Vec::new(),
    }
}

#[test]
fn documentation_candidates_and_paths() {
    let paths = environment(Some("/app/cargo/bin/cargo"));
    assert_eq!(candidate(&paths, None), "/app/docs/index.html");
    assert_eq!(candidate(&paths, Some("engine")), "/app/docs/engine/index.html");
    assert_eq!(path(&paths, Some("engine"), true), Ok("/app/docs/engine/index.html".to_owned()));
    assert_eq!(
        path(&paths, None, false),
        Err("documentation is not built: /app/docs/index.html".to_owned())
    );
}

#[test]
fn html_escaping_covers_markup_characters() {
    assert_eq!(html_escape("a&b<c>\"d\""), "a&amp;b&lt;c&gt;&quot;d&quot;");
    assert_eq!(html_escape("plain"), "plain");
    assert_eq!(html_escape("&amp;"), "&amp;amp;");
    assert_eq!(html_escape(""), "");
}

#[test]
fn aggregate_index_links_documented_projects() {
    let manifest = WorkspaceManifest {
        kind: SourceRootKind::Root,
        id: "ghf/vapor".to_owned(),
        name: "vapor".to_owned(),
        organization: "ghf".to_owned(),
        runtime_targets: Vec::new(),
        cargo: vec![project("engine", true), project("tools", false), project("game", true)],
        projects: Vec::new(),
    };
    assert_eq!(
        index_html(&manifest),
        "<!doctype html><title>Vapor documentation</title><h1>Vapor documentation</h1><ul>\
<li><a href=\"engine/index.html\">engine</a></li><li><a href=\"game/index.html\">game</a></li></ul>"
    );
}

#[test]
fn section_index_is_sorted_and_escaped() {
    let html = section_index_html("A&B", vec!["zeta".to_owned(), "alpha".to_owned(), "m<n".to_owned()]);
    assert_eq!(
        html,
        "<!doctype html><title>A&amp;B documentation</title><h1>A&amp;B documentation</h1><ul>\
<li><a href=\"alpha/index.html\">alpha</a></li>\
<li><a href=\"m&lt;n/index.html\">m&lt;n</a></li>\
<li><a href=\"zeta/index.html\">zeta</a></li></ul>"
    );
}

#[test]
fn documentation_build_steps() {
    let paths = environment(Some("/app/cargo/bin/cargo"));
    assert_eq!(build_start(&paths), Ok(("/app/cargo/bin/cargo".to_owned(), "/app/docs".to_owned())));
    assert_eq!(build_start(&environment(None)), Err("bundled Cargo is unavailable".to_owned()));
    assert!(doc_section(&paths, &project("tools", false)).unwrap().is_none());
    let section = doc_section(&paths, &project("engine", true)).unwrap().unwrap();
    assert_eq!(section.name, "engine");
    assert_eq!(section.cargo_manifest, "/src/ghf/engine/Cargo.toml");
    assert_eq!(section.target, "/app/output/docs/engine");
    assert_eq!(section.section_root, "/app/docs/engine");
    assert_eq!(section.args, vec!["doc", "--workspace", "--no-deps", "--manifest-path", "/src/ghf/engine/Cargo.toml"]);
    let escaping = doc_section(&paths, &project("/elsewhere", true));
    assert_eq!(
        escaping.err(),
        Some("Vapor source boundary violation: '/elsewhere' is outside '/app'".to_owned())
    );
    assert_eq!(doc_build_failed("engine", "exit status: 101"), "documentation build for 'engine' failed with exit status: 101");
}
