use vapor_shell::fingerprint::FingerprintBuilder;
use vapor_shell::path_setup::{install_text, remove_block, shell_quote, PathSetup, BLOCK_END, BLOCK_START};
use vapor_shell::source_registry::{active_source, local_name, remove, resolve_key, resolve_target, SourceEntry, SourceRegistry};

fn setup(shell: Option<&str>) -> PathSetup {
    PathSetup::new("/home/u".to_owned(), "/app/bin".to_owned(), shell.map(str::to_owned))
}

#[test]
fn profiles_follow_the_login_shell() {
    assert_eq!(setup(Some("/bin/bash")).profile_paths(false), vec!["/home/u/.profile".to_owned(), "/home/u/.bashrc".to_owned()]);
    assert_eq!(setup(Some("/usr/bin/zsh")).profile_paths(false), vec!["/home/u/.zprofile".to_owned(), "/home/u/.zshrc".to_owned()]);
    assert_eq!(setup(Some("/usr/bin/fish")).profile_paths(false), vec!["/home/u/.config/fish/conf.d/vapor.fish".to_owned()]);
    assert_eq!(setup(None).profile_paths(false), vec!["/home/u/.profile".to_owned()]);
    assert!(setup(Some("/bin/bash")).profile_paths(true).is_empty());
    assert_eq!(setup(None).command(false), "/app/bin/vapor");
    assert_eq!(setup(None).command(true), "/app/bin/vapor.exe");
}

#[test]
fn blocks_are_marked_and_quoted() {
    assert_eq!(shell_quote("it's"), "it'\"'\"'s");
    let fish = setup(None).profile_block("/home/u/.config/fish/conf.d/vapor.fish");
    assert_eq!(fish, format!("{BLOCK_START}\nfish_add_path --prepend --global '/app/bin'\n{BLOCK_END}\n"));
    let posix = setup(None).profile_block("/home/u/.profile");
    assert!(posix.starts_with(&format!("{BLOCK_START}\nVAPOR_BIN='/app/bin'\n")));
    assert!(posix.ends_with(&format!("{BLOCK_END}\n")));
    assert!(posix.contains("export PATH=\"$VAPOR_BIN${PATH:+:$PATH}\""));
}

#[test]
fn only_the_marked_block_is_removed() {
    let text = format!("a\n{BLOCK_START}\nx\n{BLOCK_END}\nb\n");
    assert_eq!(remove_block(&text), "a\nb\n");
    assert_eq!(remove_block("plain\n"), "plain\n");
    let unterminated = format!("a\n{BLOCK_START}\nx\n");
    assert_eq!(remove_block(&unterminated), unterminated);
    let block = setup(None).profile_block("/home/u/.profile");
    let (first, changed) = install_text("export X=1", &block);
    assert!(changed);
    assert_eq!(first, format!("export X=1\n{block}"));
    let (second, changed_again) = install_text(&first, &block);
    assert!(!changed_again);
    assert_eq!(second, first);
    assert_eq!(remove_block(&first), "export X=1\n");
}

#[test]
fn install_writes_every_profile_and_uninstall_restores_them() {
    let s = setup(Some("/bin/bash"));
    assert_eq!(
        s.install(false, false, &["".to_owned(), "".to_owned()], false).err(),
        Some("app-owned Vapor command is missing: /app/bin/vapor\nhelp: rebuild or verify the Steam application before registering PATH".to_owned())
    );
    let (report, updated) = s.install(false, true, &["".to_owned(), "alias l=ls\n".to_owned()], true).unwrap();
    assert!(report.registered() && report.changed() && report.path_active());
    assert_eq!(report.profiles().len(), 2);
    assert!(updated[1].starts_with("alias l=ls\n# >>> Vapor managed PATH >>>"));
    let status = s.status(false, &[Some(updated[0].clone()), None], false);
    assert!(status.registered() && !status.changed());
    let (after, restored) = s.uninstall(false, &[Some(updated[0].clone()), Some(updated[1].clone())], false);
    assert!(!after.registered() && after.changed());
    assert_eq!(restored, vec![Some(String::new()), Some("alias l=ls\n".to_owned())]);
}

#[test]
fn fingerprints_do_not_depend_on_read_boundaries() {
    let mut b = FingerprintBuilder::new();
    b.start_file(b"a.txt");
    b.add_contents(b"hel");
    b.add_contents(b"lo");
    b.end_file();
    b.start_file(b"b");
    b.end_file();
    let f = b.finish();
    assert_eq!(f.algorithm, "vapor-fnv1a-64-v1");
    assert_eq!(f.hash, "0610c75b1dda5aac");
    assert_eq!(f.files, 2);
    assert_eq!(f.bytes, 5);
    let mut whole = FingerprintBuilder::new();
    whole.start_file(b"a.txt");
    whole.add_contents(b"hello");
    whole.end_file();
    whole.start_file(b"b");
    whole.end_file();
    assert_eq!(whole.finish().hash, f.hash);
    assert_eq!(FingerprintBuilder::new().finish().hash, "cbf29ce484222325");
}

fn entry(id: &str, path: &str) -> SourceEntry {
    SourceEntry { id: id.to_owned(), path: path.to_owned() }
}

#[test]
fn indexed_sources_resolve_by_name_or_id() {
    assert_eq!(local_name("ghf/games/loo-cast"), "loo-cast");
    let mut r = SourceRegistry::new();
    r.insert("loo-cast".to_owned(), entry("ghf/games/loo-cast", "/src/loo-cast"));
    r.insert("vapor".to_owned(), entry("ghf/vapor", "/src/vapor"));
    assert_eq!(resolve_key(&r, "vapor"), Some("vapor".to_owned()));
    assert_eq!(resolve_key(&r, "ghf/games/loo-cast"), Some("loo-cast".to_owned()));
    assert_eq!(resolve_key(&r, "nope"), None);
    let loaded: Result<SourceRegistry, String> = Ok(r);
    assert_eq!(resolve_target("loo-cast", false, &loaded), Ok("/src/loo-cast".to_owned()));
    assert_eq!(resolve_target("./here", false, &loaded), Ok("./here".to_owned()));
    assert_eq!(
        resolve_target("nope", false, &loaded),
        Err("unknown Vapor source 'nope'\nhelp: index it with `vapor source add PATH`, or open by path".to_owned())
    );
    let mut r = loaded.unwrap();
    assert_eq!(remove(&mut r, "ghf/vapor"), Some("vapor".to_owned()));
    assert_eq!(resolve_key(&r, "vapor"), None);
    assert_eq!(remove(&mut r, "vapor"), None);
    assert_eq!(active_source(Some("ws"), None), Ok(Some("ws".to_owned())));
}
