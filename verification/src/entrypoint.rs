//! The Steam-facing entrypoint: it finds the app root from its own
//! executable, picks the platform launch script, and decides which terminal
//! to open around it, with which arguments and environment.

use vstd::prelude::*;
use crate::text::{owned, concat, concat3, has_char, contains_char, string_views, joined, join_strings};
use crate::paths::{join, join_path, parent, parent_path, file_name, file_name_of};

verus! {

/// The app root of an entrypoint at `executable` (already canonical): the
/// parent of a `bin` directory holding it, directly or one level down.
pub open spec fn entry_app_root_spec(executable: Seq<char>) -> Option<Seq<char>> {
    match parent(executable) {
        None => None,
        Some(dir) => if file_name(dir) == Some("bin"@) {
            parent(dir)
        } else {
            match parent(dir) {
                Some(up) => if file_name(up) == Some("bin"@) { parent(up) } else { None },
                None => None,
            }
        },
    }
}

fn is_bin_dir(p: &str) -> (r: bool)
    ensures
        r == (file_name(p@) == Some("bin"@)),
{
    match file_name_of(p) {
        Some(n) => crate::text::str_eq(n, "bin"),
        None => false,
    }
}

/// The app root of an entrypoint at the canonical path `executable`.
pub fn discover_app_root(executable: &str) -> (r: Option<String>)
    ensures
        match entry_app_root_spec(executable@) {
            None => r is None,
            Some(p) => r matches Some(s) && s@ == p,
        },
{
    let dir = parent_path(executable)?;
    if is_bin_dir(dir.as_str()) {
        return parent_path(dir.as_str());
    }
    let up = parent_path(dir.as_str())?;
    if is_bin_dir(up.as_str()) {
        parent_path(up.as_str())
    } else {
        None
    }
}

/// The launch script the entrypoint opens in a terminal.
pub fn platform_script(app_root: &str, windows: bool) -> (r: String)
    ensures
        r@ == join(join(app_root@, "bin"@), if windows { "vapor-launch.cmd"@ } else { "vapor-launch.sh"@ }),
{
    let bin = join_path(app_root, "bin");
    if windows {
        join_path(bin.as_str(), "vapor-launch.cmd")
    } else {
        join_path(bin.as_str(), "vapor-launch.sh")
    }
}

/// Where the entrypoint logs.
pub fn entry_log_path(app_root: &str) -> (r: String)
    ensures
        r@ == join(join(app_root@, ".vapor/logs"@), "entrypoint.log"@),
{
    join_path(&join_path(app_root, ".vapor/logs"), "entrypoint.log")
}

/// The host's platform, as far as the terminal choice goes.
#[derive(Debug, Clone, Copy, PartialEq, Eq, Structural)]
pub enum HostPlatform {
    /// Linux, where Konsole is opened.
    Linux,
    /// Windows, where the command prompt is opened.
    Windows,
    /// Any other system, which has no terminal adapter.
    Other,
}

/// What the entrypoint observed about its host before choosing a terminal.
#[derive(Debug)]
pub struct TerminalHost {
    /// The platform.
    pub platform: HostPlatform,
    /// Operating system name, for the message on other systems.
    pub os_name: String,
    /// Whether `DISPLAY` or `WAYLAND_DISPLAY` is set.
    pub has_display: bool,
    /// Whether Steam's pressure-vessel container is running.
    pub pressure_vessel: bool,
    /// Whether the host's Konsole is visible at `/run/host/usr/bin/konsole`.
    pub host_konsole: bool,
    /// The first host dynamic loader found under `/run/host`, if any.
    pub host_loader: Option<String>,
    /// Whether `/usr/bin/konsole` is a file.
    pub system_konsole: bool,
    /// The inherited `PATH`, if set.
    pub path: Option<String>,
    /// The inherited `ComSpec`, if set.
    pub comspec: Option<String>,
}

/// The terminal command the entrypoint runs and waits for.
#[derive(Debug)]
pub struct TerminalCommand {
    /// Program to start.
    pub program: String,
    /// Its arguments.
    pub args: Vec<String>,
    /// Environment variables set for it.
    pub set_env: Vec<(String, String)>,
    /// Environment variables removed for it.
    pub remove_env: Vec<String>,
    /// Name of the terminal in log lines.
    pub label: String,
    /// Log lines written before it starts.
    pub notes: Vec<String>,
}

/// The host's dynamic loaders, in the order they are looked for.
pub open spec fn host_loader_candidates_spec() -> Seq<Seq<char>> {
    seq![
        "/run/host/lib64/ld-linux-x86-64.so.2"@,
        "/run/host/usr/lib64/ld-linux-x86-64.so.2"@,
        "/run/host/lib/ld-linux-x86-64.so.2"@,
        "/run/host/usr/lib/ld-linux-x86-64.so.2"@,
        "/run/host/lib/x86_64-linux-gnu/ld-linux-x86-64.so.2"@,
        "/run/host/usr/lib/x86_64-linux-gnu/ld-linux-x86-64.so.2"@,
    ]
}

/// The host's dynamic loaders, in the order they are looked for; the first
/// that is a file is used.
pub fn host_loader_candidates() -> (r: Vec<String>)
    ensures
        string_views(r@) == host_loader_candidates_spec(),
{
    let r = vec![
        owned("/run/host/lib64/ld-linux-x86-64.so.2"),
        owned("/run/host/usr/lib64/ld-linux-x86-64.so.2"),
        owned("/run/host/lib/ld-linux-x86-64.so.2"),
        owned("/run/host/usr/lib/ld-linux-x86-64.so.2"),
        owned("/run/host/lib/x86_64-linux-gnu/ld-linux-x86-64.so.2"),
        owned("/run/host/usr/lib/x86_64-linux-gnu/ld-linux-x86-64.so.2"),
    ];
    assert(string_views(r@) =~= host_loader_candidates_spec());
    r
}

/// Library path handed to the host loader.
pub open spec fn host_library_path() -> Seq<char> {
    "/run/host/usr/lib:/run/host/usr/lib64:/run/host/usr/lib/x86_64-linux-gnu:/run/host/usr/lib/pulseaudio:/run/host/usr/lib/libproxy:/run/host/usr/lib/qt6/plugins:/run/host/usr/lib/x86_64-linux-gnu/qt6/plugins:/run/host/lib:/run/host/lib64:/run/host/lib/x86_64-linux-gnu"@
}

/// The `PATH` given to the launch script inside the host terminal: the
/// app's own tool directories, the system's, then the inherited entries.
/// An app root holding `:` cannot be joined into a `PATH`, and the plain
/// system path is used instead.
pub open spec fn linux_child_path_spec(app_root: Seq<char>, existing: Option<Seq<char>>) -> Seq<char> {
    if has_char(app_root, ':') {
        "/usr/bin:/bin"@
    } else {
        joined(seq![
            join(app_root, "bin/x86_64-unknown-linux-gnu"@),
            join(app_root, "cargo-home/bin"@),
            join(app_root, "rustup/bin"@),
            join(app_root, "tools/steamcmd"@),
            "/usr/bin"@,
            "/bin"@,
        ], ":"@) + match existing { Some(p) => ":"@ + p, None => Seq::empty() }
    }
}

/// The `PATH` given to the launch script inside the host terminal.
pub fn linux_child_path(app_root: &str, existing: Option<&str>) -> (r: String)
    ensures
        r@ == linux_child_path_spec(app_root@, match existing { Some(p) => Some(p@), None => None::<Seq<char>> }),
{
    if contains_char(app_root, ':') {
        return owned("/usr/bin:/bin");
    }
    let parts = vec![
        join_path(app_root, "bin/x86_64-unknown-linux-gnu"),
        join_path(app_root, "cargo-home/bin"),
        join_path(app_root, "rustup/bin"),
        join_path(app_root, "tools/steamcmd"),
        owned("/usr/bin"),
        owned("/bin"),
    ];
    proof {
        assert(string_views(parts@) =~= seq![
            join(app_root@, "bin/x86_64-unknown-linux-gnu"@),
            join(app_root@, "cargo-home/bin"@),
            join(app_root@, "rustup/bin"@),
            join(app_root@, "tools/steamcmd"@),
            "/usr/bin"@,
            "/bin"@,
        ]);
    }
    let mut r = join_strings(parts.as_slice(), ":");
    match existing {
        Some(p) => {
            r.append(":");
            r.append(p);
        },
        None => {},
    }
    r
}

/// The environment every terminal's launch script gets.
pub open spec fn child_env_spec(app_root: Seq<char>, log_path: Seq<char>) -> Seq<(Seq<char>, Seq<char>)> {
    seq![
        ("VAPOR_APP_ROOT"@, app_root),
        ("VAPOR_STEAM_LAUNCH"@, "1"@),
        ("VAPOR_TERMINAL_RELAUNCHED"@, "1"@),
        ("VAPOR_LAUNCHER_TERMINAL"@, "1"@),
        ("VAPOR_LAUNCHER_HOLD_ON_EXIT"@, "1"@),
        ("VAPOR_ENTRYPOINT_LOG"@, log_path),
    ]
}

/// View of an environment list.
pub open spec fn env_view(v: Seq<(String, String)>) -> Seq<(Seq<char>, Seq<char>)> {
    v.map_values(|p: (String, String)| (p.0@, p.1@))
}

fn child_env(app_root: &str, log_path: &str) -> (r: Vec<(String, String)>)
    ensures
        env_view(r@) == child_env_spec(app_root@, log_path@),
{
    let r = vec![
        (owned("VAPOR_APP_ROOT"), owned(app_root)),
        (owned("VAPOR_STEAM_LAUNCH"), owned("1")),
        (owned("VAPOR_TERMINAL_RELAUNCHED"), owned("1")),
        (owned("VAPOR_LAUNCHER_TERMINAL"), owned("1")),
        (owned("VAPOR_LAUNCHER_HOLD_ON_EXIT"), owned("1")),
        (owned("VAPOR_ENTRYPOINT_LOG"), owned(log_path)),
    ];
    assert(env_view(r@) =~= child_env_spec(app_root@, log_path@));
    r
}

/// View of a terminal command: program, arguments, environment set and
/// removed, label, and log notes.
pub open spec fn terminal_view(c: TerminalCommand) -> (Seq<char>, Seq<Seq<char>>, Seq<(Seq<char>, Seq<char>)>, Seq<Seq<char>>, Seq<char>, Seq<Seq<char>>) {
    (c.program@, string_views(c.args@), env_view(c.set_env@), string_views(c.remove_env@), c.label@, string_views(c.notes@))
}

/// Konsole's own arguments before `-e`.
pub open spec fn konsole_args(app_root: Seq<char>) -> Seq<Seq<char>> {
    seq!["--nofork"@, "--hold"@, "-p"@, "tabtitle=Vapor"@, "--workdir"@, app_root, "-e"@]
}

/// The host Konsole command inside Steam's pressure-vessel container: the
/// host loader runs the host's Konsole with the host's libraries, and
/// `env` gives the launch script its path and environment.
pub open spec fn host_konsole_spec(app_root: Seq<char>, script: Seq<char>, arguments: Seq<Seq<char>>, log_path: Seq<char>, loader: Seq<char>, path: Option<Seq<char>>) -> (Seq<char>, Seq<Seq<char>>, Seq<(Seq<char>, Seq<char>)>, Seq<Seq<char>>, Seq<char>, Seq<Seq<char>>) {
    (
        loader,
        seq!["--library-path"@, host_library_path(), "/run/host/usr/bin/konsole"@] + konsole_args(app_root)
            + seq![
                "/usr/bin/env"@,
                "PATH="@ + linux_child_path_spec(app_root, path),
                "VAPOR_APP_ROOT="@ + app_root,
                "VAPOR_STEAM_LAUNCH=1"@,
                "VAPOR_TERMINAL_RELAUNCHED=1"@,
                "VAPOR_LAUNCHER_TERMINAL=1"@,
                "VAPOR_LAUNCHER_HOLD_ON_EXIT=1"@,
                "VAPOR_ENTRYPOINT_LOG="@ + log_path,
                script,
            ] + arguments,
        seq![
            ("PATH"@, "/run/host/usr/local/bin:/run/host/usr/bin:/run/host/bin:"@ + match path { Some(p) => p, None => "/usr/bin:/bin"@ }),
            ("QT_PLUGIN_PATH"@, "/run/host/usr/lib/qt6/plugins:/run/host/usr/lib/x86_64-linux-gnu/qt6/plugins"@),
            ("XDG_DATA_DIRS"@, "/run/host/usr/local/share:/run/host/usr/share:/usr/share"@),
        ],
        seq!["LD_LIBRARY_PATH"@, "LD_PRELOAD"@, "LD_AUDIT"@, "STEAM_RUNTIME_LIBRARY_PATH"@],
        "host Konsole"@,
        seq!["launching host Konsole through loader "@ + loader],
    )
}

/// The terminal a host gets: none without a display on Linux; the host's
/// Konsole through the host loader inside pressure-vessel when both are
/// visible; else the system Konsole (by path when installed, else by name);
/// the command prompt on Windows; and nothing on other systems.
pub open spec fn terminal_plan_spec(app_root: Seq<char>, script: Seq<char>, arguments: Seq<Seq<char>>, log_path: Seq<char>, h: TerminalHost)
    -> Result<(Seq<char>, Seq<Seq<char>>, Seq<(Seq<char>, Seq<char>)>, Seq<Seq<char>>, Seq<char>, Seq<Seq<char>>), Seq<char>> {
    let path = match h.path { Some(p) => Some(p@), None => None::<Seq<char>> };
    match h.platform {
        HostPlatform::Other => Err("vapor-entrypoint has no terminal adapter for "@ + h.os_name@),
        HostPlatform::Windows => {
            let shell = match h.comspec { Some(c) => c@, None => "cmd.exe"@ };
            Ok((shell, seq!["/D"@, "/K"@, "call"@, script] + arguments, child_env_spec(app_root, log_path), Seq::empty(),
                "Command Prompt"@, seq!["launching command prompt through "@ + shell]))
        },
        HostPlatform::Linux => if !h.has_display {
            Err("Konsole launch requires DISPLAY or WAYLAND_DISPLAY"@)
        } else if h.pressure_vessel && h.host_konsole && h.host_loader is Some {
            Ok(host_konsole_spec(app_root, script, arguments, log_path, h.host_loader->Some_0@, path))
        } else {
            let konsole = if h.system_konsole { "/usr/bin/konsole"@ } else { "konsole"@ };
            let fallback_note = if h.pressure_vessel && h.host_konsole {
                seq!["host Konsole exists but no /run/host dynamic loader was found"@]
            } else {
                Seq::empty()
            };
            Ok((konsole, konsole_args(app_root) + seq![script] + arguments, child_env_spec(app_root, log_path), Seq::empty(),
                "Konsole"@, fallback_note + seq!["launching Konsole through "@ + konsole]))
        },
    }
}

fn push_strs(v: &mut Vec<String>, items: &[String])
    ensures
        string_views(final(v)@) == string_views(old(v)@) + string_views(items@),
{
    let mut i: usize = 0;
    while i < items.len()
        invariant
            i <= items@.len(),
            string_views(v@) == string_views(old(v)@) + string_views(items@).take(i as int),
        decreases items@.len() - i,
    {
        let ghost before = v@;
        v.push(owned(items[i].as_str()));
        proof {
            assert(string_views(v@) =~= string_views(before).push(items@[i as int]@));
            assert(string_views(v@) =~= string_views(old(v)@) + string_views(items@).take(i + 1));
        }
        i = i + 1;
    }
    proof {
        assert(string_views(items@).take(items@.len() as int) =~= string_views(items@));
    }
}

/// The terminal the entrypoint opens around the launch script `script`
/// with the entrypoint's own `arguments`.
pub fn terminal_plan(app_root: &str, script: &str, arguments: &[String], log_path: &str, host: &TerminalHost) -> (r: Result<TerminalCommand, String>)
    ensures
        match terminal_plan_spec(app_root@, script@, string_views(arguments@), log_path@, *host) {
            Ok(v) => r matches Ok(c) && terminal_view(c) == v,
            Err(m) => r matches Err(e) && e@ == m,
        },
{
    match host.platform {
        HostPlatform::Other => Err(concat("vapor-entrypoint has no terminal adapter for ", host.os_name.as_str())),
        HostPlatform::Windows => {
            let shell = match &host.comspec {
                Some(c) => owned(c.as_str()),
                None => owned("cmd.exe"),
            };
            let mut args = vec![owned("/D"), owned("/K"), owned("call"), owned(script)];
            let ghost head = string_views(args@);
            assert(head =~= seq!["/D"@, "/K"@, "call"@, script@]);
            push_strs(&mut args, arguments);
            let notes = vec![concat("launching command prompt through ", shell.as_str())];
            let r = TerminalCommand {
                program: shell,
                args,
                set_env: child_env(app_root, log_path),
                remove_env: Vec::new(),
                label: owned("Command Prompt"),
                notes,
            };
            assert(string_views(r.remove_env@) =~= Seq::<Seq<char>>::empty());
            assert(string_views(r.notes@) =~= seq!["launching command prompt through "@ + r.program@]);
            Ok(r)
        },
        HostPlatform::Linux => {
            if !host.has_display {
                return Err(owned("Konsole launch requires DISPLAY or WAYLAND_DISPLAY"));
            }
            let path: Option<&str> = match &host.path {
                Some(p) => Some(p.as_str()),
                None => None,
            };
            if host.pressure_vessel && host.host_konsole {
                match &host.host_loader {
                    Some(loader) => {
                        let mut args = vec![
                            owned("--library-path"),
                            owned("/run/host/usr/lib:/run/host/usr/lib64:/run/host/usr/lib/x86_64-linux-gnu:/run/host/usr/lib/pulseaudio:/run/host/usr/lib/libproxy:/run/host/usr/lib/qt6/plugins:/run/host/usr/lib/x86_64-linux-gnu/qt6/plugins:/run/host/lib:/run/host/lib64:/run/host/lib/x86_64-linux-gnu"),
                            owned("/run/host/usr/bin/konsole"),
                            owned("--nofork"),
                            owned("--hold"),
                            owned("-p"),
                            owned("tabtitle=Vapor"),
                            owned("--workdir"),
                            owned(app_root),
                            owned("-e"),
                            owned("/usr/bin/env"),
                            concat("PATH=", linux_child_path(app_root, path).as_str()),
                            concat("VAPOR_APP_ROOT=", app_root),
                            owned("VAPOR_STEAM_LAUNCH=1"),
                            owned("VAPOR_TERMINAL_RELAUNCHED=1"),
                            owned("VAPOR_LAUNCHER_TERMINAL=1"),
                            owned("VAPOR_LAUNCHER_HOLD_ON_EXIT=1"),
                            concat("VAPOR_ENTRYPOINT_LOG=", log_path),
                            owned(script),
                        ];
                        push_strs(&mut args, arguments);
                        let host_path = match path {
                            Some(p) => concat("/run/host/usr/local/bin:/run/host/usr/bin:/run/host/bin:", p),
                            None => owned("/run/host/usr/local/bin:/run/host/usr/bin:/run/host/bin:/usr/bin:/bin"),
                        };
                        proof {
                            reveal_strlit("/run/host/usr/local/bin:/run/host/usr/bin:/run/host/bin:/usr/bin:/bin");
                            reveal_strlit("/run/host/usr/local/bin:/run/host/usr/bin:/run/host/bin:");
                            reveal_strlit("/usr/bin:/bin");
                            assert("/run/host/usr/local/bin:/run/host/usr/bin:/run/host/bin:/usr/bin:/bin"@
                                =~= "/run/host/usr/local/bin:/run/host/usr/bin:/run/host/bin:"@ + "/usr/bin:/bin"@);
                        }
                        let set_env = vec![
                            (owned("PATH"), host_path),
                            (owned("QT_PLUGIN_PATH"), owned("/run/host/usr/lib/qt6/plugins:/run/host/usr/lib/x86_64-linux-gnu/qt6/plugins")),
                            (owned("XDG_DATA_DIRS"), owned("/run/host/usr/local/share:/run/host/usr/share:/usr/share")),
                        ];
                        let remove_env = vec![owned("LD_LIBRARY_PATH"), owned("LD_PRELOAD"), owned("LD_AUDIT"), owned("STEAM_RUNTIME_LIBRARY_PATH")];
                        let notes = vec![concat("launching host Konsole through loader ", loader.as_str())];
                        let r = TerminalCommand { program: owned(loader.as_str()), args, set_env, remove_env, label: owned("host Konsole"), notes };
                        proof {
                            let want = host_konsole_spec(app_root@, script@, string_views(arguments@), log_path@, loader@,
                                match &host.path { Some(p) => Some(p@), None => None::<Seq<char>> });
                            assert(string_views(r.args@) =~= want.1);
                            assert(env_view(r.set_env@) =~= want.2);
                            assert(string_views(r.remove_env@) =~= want.3);
                            assert(string_views(r.notes@) =~= want.5);
                        }
                        return Ok(r);
                    },
                    None => {},
                }
            }
            let konsole = if host.system_konsole { owned("/usr/bin/konsole") } else { owned("konsole") };
            let mut notes: Vec<String> = Vec::new();
            if host.pressure_vessel && host.host_konsole {
                notes.push(owned("host Konsole exists but no /run/host dynamic loader was found"));
            }
            let ghost before_notes = string_views(notes@);
            notes.push(concat("launching Konsole through ", konsole.as_str()));
            let mut args = vec![
                owned("--nofork"),
                owned("--hold"),
                owned("-p"),
                owned("tabtitle=Vapor"),
                owned("--workdir"),
                owned(app_root),
                owned("-e"),
                owned(script),
            ];
            assert(string_views(args@) =~= konsole_args(app_root@) + seq![script@]);
            push_strs(&mut args, arguments);
            let r = TerminalCommand {
                program: konsole,
                args,
                set_env: child_env(app_root, log_path),
                remove_env: Vec::new(),
                label: owned("Konsole"),
                notes,
            };
            proof {
                assert(string_views(r.remove_env@) =~= Seq::<Seq<char>>::empty());
                let fallback_note = if host.pressure_vessel && host.host_konsole {
                    seq!["host Konsole exists but no /run/host dynamic loader was found"@]
                } else {
                    Seq::<Seq<char>>::empty()
                };
                assert(before_notes =~= fallback_note);
                assert(string_views(r.notes@) =~= fallback_note + seq!["launching Konsole through "@ + r.program@]);
            }
            Ok(r)
        },
    }
}

/// The process exit code for the terminal's status: its code, or 1 when it
/// has none (killed by a signal) or could not be started.
pub fn exit_code(code: Option<i32>) -> (r: i32)
    ensures
        r == (match code { Some(c) => c, None => 1 }),
{
    match code {
        Some(c) => c,
        None => 1,
    }
}

} // verus!
