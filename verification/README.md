# vapor_shell

The Vapor shell manages an app-owned Vapor installation: its source
workspaces, authored content and its lifecycle (acquire and install
decisions, enable, disable, select, verify, uninstall, Workshop create and
publish), publication of the application root, documentation, IDE files,
cross toolchains, diagnostics capture and `PATH` registration.

## Layout

- `src/` is the library, written in Verus. Each public function carries a
  contract over spec functions and views, and Verus proves it. Functions that
  would read files, run processes or talk to Steam are split: the library
  takes what was observed (file contents, whether a path exists, a process
  result) as plain values and returns a plan or an answer. The properties
  that relate several operations are stated as public proof functions named
  `law_*`. Multi-step commands (`root publish`, `content create`/`publish`,
  installs) are state machines in `release` and `install`: the library
  decides each next effect from what the last one reported. Some laws:
  - `path_setup::law_path_setup_round_trip`: registering `PATH` and then
    unregistering it restores every profile.
  - `path_setup::law_path_setup_install_twice`: registering twice changes
    nothing the second time.
  - `lifecycle::law_disable_then_enable`: disabling and then enabling content
    restores its record.
  - `source_registry::law_add_then_remove`: indexing a source and then
    removing it restores the registry.
  - `diagnostics::law_redact_text_idempotent`: redacting recorded text twice
    gives the same text as redacting it once.
  - `release::law_root_publish_order` and `release::law_content_release_order`:
    uploads come only after every earlier step succeeded, and any failure
    ends the run with that failure.
- The library reaches one outside crate itself: `shlex`, for splitting script
  lines into words. `command::split_words` is the single trusted item around
  that call.
- `app/` is the program around the library: argument parsing (clap), the
  interactive prompt (clap-repl), TOML and JSON files (serde, toml,
  serde_json), and the file-system and process work the library plans.
  Packaging content, installing packages, Steam depot staging and SteamCMD
  uploads are not performed by this build; those commands stop with a
  message saying so once the library's checks and earlier steps passed.
- `tests/` runs the library on concrete values, including each law.
