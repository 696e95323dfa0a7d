//! How a shell session starts: one-shot command, startup script, or plain
//! interactive shell; what the opening overview suggests; how paths are
//! quoted when the shell prints a command to copy; and what a failed
//! installer bootstrap left behind.

use vstd::prelude::*;
use crate::text::{owned, concat3, trim, trim_str, lines, split_lines, string_views};
use crate::command::ShellCommand;

verus! {

/// How the session runs.
#[derive(Debug)]
pub enum StartupMode {
    /// The interactive shell, after a startup script when one is named.
    Repl { startup_script: Option<String> },
    /// One command, then exit.
    Direct(ShellCommand),
    /// Nothing (help or version was printed).
    Exit,
}

impl StartupMode {
    /// Label of the mode in diagnostics.
    pub fn diagnostic_label(&self) -> (r: &'static str)
        ensures
            r@ == (match *self {
                StartupMode::Repl { startup_script: Some(_) } => "repl-with-startup-script"@,
                StartupMode::Repl { startup_script: None } => "repl"@,
                StartupMode::Direct(_) => "direct"@,
                StartupMode::Exit => "exit"@,
            }),
    {
        match self {
            StartupMode::Repl { startup_script: Some(_) } => "repl-with-startup-script",
            StartupMode::Repl { startup_script: None } => "repl",
            StartupMode::Direct(_) => "direct",
            StartupMode::Exit => "exit",
        }
    }
}

/// Message when a startup script is combined with a one-shot command.
pub open spec fn msg_script_with_command() -> Seq<char> {
    "--startup-script enters the interactive shell and cannot be combined with a one-shot command"@
}

/// The session a host command line asks for: a startup script opens the
/// shell after running it, a command runs once, and nothing opens the
/// shell; a script and a command together are refused.
pub fn startup_mode(startup_script: Option<String>, command: Option<ShellCommand>) -> (r: Result<StartupMode, String>)
    ensures
        match (startup_script, command) {
            (Some(s), None) => r matches Ok(StartupMode::Repl { startup_script: Some(t) }) && t == s,
            (None, Some(c)) => r matches Ok(StartupMode::Direct(d)) && d == c,
            (None, None) => r matches Ok(StartupMode::Repl { startup_script: None }),
            (Some(_), Some(_)) => r matches Err(e) && e@ == msg_script_with_command(),
        },
{
    match (startup_script, command) {
        (Some(script), None) => Ok(StartupMode::Repl { startup_script: Some(script) }),
        (None, Some(command)) => Ok(StartupMode::Direct(command)),
        (None, None) => Ok(StartupMode::Repl { startup_script: None }),
        (Some(_), Some(_)) => Err(owned("--startup-script enters the interactive shell and cannot be combined with a one-shot command")),
    }
}

/// Message for a shell-only command given on the host command line.
pub fn shell_only_error() -> (r: String)
    ensures
        r@ == "this command must run inside the interactive Vapor shell\nhelp: run `vapor` to enter the shell, or put repeatable commands in `resources/vapor/vapor-scripts/NAME.vapor` and run `vapor script run NAME`"@,
{
    owned("this command must run inside the interactive Vapor shell\nhelp: run `vapor` to enter the shell, or put repeatable commands in `resources/vapor/vapor-scripts/NAME.vapor` and run `vapor script run NAME`")
}

/// Byte that may appear unquoted in a POSIX shell word.
pub open spec fn posix_safe_char(c: char) -> bool {
    ('a' <= c && c <= 'z') || ('A' <= c && c <= 'Z') || ('0' <= c && c <= '9')
        || c == '_' || c == '@' || c == '%' || c == '+' || c == '=' || c == ':' || c == ',' || c == '.' || c == '/' || c == '-'
}

/// A value quoted for a POSIX shell: as it is when every character is safe,
/// else in single quotes with each `'` written as `'\''`.
pub open spec fn posix_quote_spec(value: Seq<char>) -> Seq<char> {
    if value.len() > 0 && forall|i: int| 0 <= i < value.len() ==> posix_safe_char(#[trigger] value[i]) {
        value
    } else {
        "'"@ + crate::steam::replace_all(value, "'"@, "'\\''"@) + "'"@
    }
}

/// A value quoted for a POSIX shell.
pub fn posix_quote(value: &str) -> (r: String)
    ensures
        r@ == posix_quote_spec(value@),
{
    let n = value.unicode_len();
    let mut safe = n > 0;
    let mut i: usize = 0;
    while i < n
        invariant
            n == value@.len(),
            i <= n,
            safe == (n > 0 && forall|k: int| 0 <= k < i ==> posix_safe_char(#[trigger] value@[k])),
        decreases n - i,
    {
        let c = value.get_char(i);
        let ok = ('a' <= c && c <= 'z') || ('A' <= c && c <= 'Z') || ('0' <= c && c <= '9')
            || c == '_' || c == '@' || c == '%' || c == '+' || c == '=' || c == ':' || c == ',' || c == '.' || c == '/' || c == '-';
        if !ok {
            assert(!posix_safe_char(value@[i as int]));
            safe = false;
        }
        i = i + 1;
    }
    if safe {
        owned(value)
    } else {
        proof {
            reveal_strlit("'");
        }
        let inner = crate::steam::replace_str(value, "'", "'\\''");
        concat3("'", inner.as_str(), "'")
    }
}

/// Character that makes a Windows command argument need quotes.
pub open spec fn windows_special_char(c: char) -> bool {
    c == ' ' || c == '\t' || c == '\r' || c == '\n' || c == '(' || c == ')' || c == '&' || c == '|' || c == '<' || c == '>' || c == '^'
}

/// A value quoted for the Windows command prompt: in double quotes (each
/// `"` doubled) when empty or holding a special character, else as it is.
pub open spec fn windows_quote_spec(value: Seq<char>) -> Seq<char> {
    if value.len() == 0 || exists|i: int| 0 <= i < value.len() && windows_special_char(#[trigger] value[i]) {
        "\""@ + crate::steam::replace_all(value, "\""@, "\"\""@) + "\""@
    } else {
        value
    }
}

/// A value quoted for the Windows command prompt.
pub fn windows_quote(value: &str) -> (r: String)
    ensures
        r@ == windows_quote_spec(value@),
{
    let n = value.unicode_len();
    let mut special = n == 0;
    let mut i: usize = 0;
    while i < n
        invariant
            n == value@.len(),
            i <= n,
            special == (n == 0 || exists|k: int| 0 <= k < i && windows_special_char(#[trigger] value@[k])),
        decreases n - i,
    {
        let c = value.get_char(i);
        if c == ' ' || c == '\t' || c == '\r' || c == '\n' || c == '(' || c == ')' || c == '&' || c == '|' || c == '<' || c == '>' || c == '^' {
            assert(windows_special_char(value@[i as int]));
            special = true;
        }
        i = i + 1;
    }
    if special {
        proof {
            reveal_strlit("\"");
        }
        let inner = crate::steam::replace_str(value, "\"", "\"\"");
        concat3("\"", inner.as_str(), "\"")
    } else {
        owned(value)
    }
}

/// What the opening overview suggests first: recovering a failed install,
/// installing player tools, installing development tools for an open
/// source, launching the game, or validating the open source.
pub open spec fn startup_next_spec(installer_failed: bool, runtime_ready: bool, tools_complete: bool, source_open: bool, app_root: Seq<char>) -> Seq<char> {
    if installer_failed {
        "reinstall the Steam app, or run the installer command shown above"@
    } else if !runtime_ready {
        "vapor-installer install --app-root "@ + app_root
    } else if !tools_complete && source_open {
        "vapor-installer dev-env install --app-root "@ + app_root
    } else if !source_open {
        "launch loo-cast"@
    } else {
        "validate"@
    }
}

/// What the opening overview suggests first; `app_root` is already quoted
/// for the platform's shell.
pub fn startup_next(installer_failed: bool, runtime_ready: bool, tools_complete: bool, source_open: bool, app_root: &str) -> (r: String)
    ensures
        r@ == startup_next_spec(installer_failed, runtime_ready, tools_complete, source_open, app_root@),
{
    if installer_failed {
        owned("reinstall the Steam app, or run the installer command shown above")
    } else if !runtime_ready {
        crate::text::concat("vapor-installer install --app-root ", app_root)
    } else if !tools_complete && source_open {
        crate::text::concat("vapor-installer dev-env install --app-root ", app_root)
    } else if !source_open {
        owned("launch loo-cast")
    } else {
        owned("validate")
    }
}

/// Where a failed installer bootstrap records itself under the app root.
pub const BOOTSTRAP_FAILURE: &'static str = ".vapor/state/installer/bootstrap-failure.txt";

/// What a failed bootstrap recorded: its message (the first line, trimmed,
/// when not blank) and its log (the second line, trimmed, when present and
/// not blank).
pub open spec fn bootstrap_failure_spec(text: Seq<char>) -> Option<(Seq<char>, Option<Seq<char>>)> {
    let ls = lines(text);
    if ls.len() == 0 || trim(ls[0]).len() == 0 {
        None
    } else {
        Some((trim(ls[0]), if ls.len() > 1 && trim(ls[1]).len() > 0 { Some(trim(ls[1])) } else { None }))
    }
}

/// What a failed bootstrap recorded in its failure file.
pub fn installer_bootstrap_failure(text: &str) -> (r: Option<(String, Option<String>)>)
    ensures
        match bootstrap_failure_spec(text@) {
            None => r is None,
            Some((m, log)) => r matches Some((rm, rl)) && rm@ == m && match log {
                None => rl is None,
                Some(l) => rl matches Some(x) && x@ == l,
            },
        },
{
    let ls = split_lines(text);
    proof {
        assert(string_views(ls@) == lines(text@));
        if ls@.len() > 0 {
            assert(string_views(ls@)[0] == ls@[0]@);
        }
        if ls@.len() > 1 {
            assert(string_views(ls@)[1] == ls@[1]@);
        }
    }
    if ls.len() == 0 {
        return None;
    }
    let message = trim_str(ls[0].as_str());
    if message.unicode_len() == 0 {
        return None;
    }
    let log = if ls.len() > 1 {
        let l = trim_str(ls[1].as_str());
        if l.unicode_len() > 0 { Some(owned(l)) } else { None }
    } else {
        None
    };
    Some((owned(message), log))
}

} // verus!
