//! The interactive command grammar, and every decision the shell takes about
//! a command before and between its effects: whether the session goes on,
//! what a command script may run, how a script line is read, which
//! preflight checks and runtime target matrix a command needs, which Cargo
//! workflows it runs first, and what the shell suggests next.

use vstd::prelude::*;
use crate::text::{trim, trim_str, owned, concat, concat3, decimal, decimal_string, has_char, contains_char, str_eq,
    has_infix, contains, joined, string_views, join_strings, is_alnum, char_is_alnum, strings_contain};
use crate::paths::{join, join_path};
use crate::metadata::{MetadataFormat, ValidationPlan};
use crate::app_local_tools::AppToolRequirement;
use crate::workflow::{CargoWorkflow, ProjectSelection, workflow_label};
use crate::workspace::{SourceRootKind, WorkspaceManifest};
use crate::checks::{first_problem, lemma_first_problem_step, lemma_first_problem_prefix, lemma_first_problem_whole};

verus! {

/// Commands accepted by the Vapor shell and its narrow host facades.
#[derive(Debug)]
pub enum ShellCommand {
    /// Launch a playable Vapor composition.
    Launch { command: LaunchCommand },
    /// Open, index, inspect, sync, or repair authored source roots.
    Source { command: SourceCommand },
    /// Print the Steam installation/app root.
    Installation,
    /// Print the directory containing the running Vapor shell binary.
    Binaries,
    /// Print the installation's conventional library directory, when present.
    Libraries,
    /// Show resolved source, installation, setup, and Cargo metadata.
    Metadata { format: MetadataFormat },
    /// Format Cargo workspaces through app-local Rust/Cargo.
    Fmt { project: ProjectSelection },
    /// Check Cargo workspaces through app-local Rust/Cargo.
    Check { project: ProjectSelection },
    /// Test Cargo workspaces through app-local Rust/Cargo.
    Test { project: ProjectSelection },
    /// Build Cargo workspaces through app-local Rust/Cargo.
    Build { project: ProjectSelection },
    /// Run formatting, checking, tests, Clippy, and Rustdoc.
    Validate { project: ProjectSelection },
    /// Build, locate, or open installed documentation.
    Docs { command: DocsCommand },
    /// Inspect or repair project-local IDE settings.
    Ide { command: IdeCommand },
    /// Build, package, or publish the application/depot root.
    Root { command: RootCommand },
    /// Inspect or operate on typed Workshop/content nodes.
    Content { command: ContentCommand },
    /// Run a source-controlled sequence of Vapor commands.
    Script { command: ScriptCommand },
    /// Inspect or link external developer providers.
    Provider { command: ProviderCommand },
    /// Inspect or ship private-test launch diagnostics.
    Diagnostics { command: DiagnosticsCommand },
    /// Exit the Vapor sub-shell.
    Exit,
}

/// Playable launch targets.
#[derive(Debug)]
pub enum LaunchCommand {
    /// Launch the selected Loo-Cast packagepack composition, installing the
    /// first-party one when needed.
    LooCast { account: Option<String> },
}

/// Private-test diagnostics operations.
#[derive(Debug)]
pub enum DiagnosticsCommand {
    /// Report local diagnostics capture and shipping state.
    Status,
    /// Copy diagnostics into a registry checkout; `push` also commits and pushes.
    Submit { registry: Option<String>, all: bool, push: bool, dry_run: bool },
}

/// External developer provider operations.
#[derive(Debug)]
pub enum ProviderCommand {
    /// Inspect or link the developer Git provider.
    Git { command: GitProviderCommand },
}

/// Developer Git provider operations.
#[derive(Debug)]
pub enum GitProviderCommand {
    /// Report how Git is currently resolved.
    Status,
    /// Persist an explicit Git executable path.
    Link { path: String },
    /// Remove the persisted Git executable path.
    Clear,
}

/// Documentation operations.
#[derive(Debug)]
pub enum DocsCommand {
    /// Build all declared Rustdoc into the installation.
    Build,
    /// Print an installed documentation path.
    Path { topic: Option<String> },
    /// Open installed documentation without blocking the shell.
    Open { topic: Option<String> },
}

/// Authored source-root operations.
#[derive(Debug)]
pub enum SourceCommand {
    /// Create a new authored source workspace from a Vapor template.
    Init { template: SourceTemplate, path: String, organization: String, name: String, app_id: Option<u32> },
    /// Report active source and indexed source state.
    Status,
    /// Open an indexed source name or external source path.
    Open { source: String },
    /// Close the active source while keeping the app shell alive.
    Close,
    /// List indexed source roots.
    List,
    /// Index a source root without opening it.
    Add { path: Option<String> },
    /// Remove an indexed source by local name or full ID.
    Remove { source: String },
    /// Synchronize authored source through controlled source providers.
    Sync,
    /// Inspect or repair source registration and authored metadata.
    Repair { write: bool },
}

/// Built-in source workspace templates.
#[derive(Debug, Clone, Copy, PartialEq, Eq, Structural)]
pub enum SourceTemplate {
    /// Basic engine, game, and packagepack content workspace.
    BasicContent,
}

/// Project-local IDE setup operations.
#[derive(Debug)]
pub enum IdeCommand {
    /// Report RustRover/JetBrains project-local setup state.
    Status,
    /// Write project-local settings for app-local Rust/Cargo.
    Repair { dry_run: bool },
}

/// Complete application/depot root operations.
#[derive(Debug)]
pub enum RootCommand {
    /// Build every project and refresh local installation outputs.
    Build { skip_docs: bool, target: Vec<String>, release_targets: bool, host_only: bool },
    /// Assemble and smoke-check the local application/depot package.
    Package { target: Vec<String>, release_targets: bool, host_only: bool },
    /// Validate, build, stage, preview, or upload the complete Steam app/depot.
    Publish {
        account: Option<String>,
        branch: Option<String>,
        target: Vec<String>,
        release_targets: bool,
        host_only: bool,
        skip_build: bool,
        description: String,
        dry_run: bool,
        yes: bool,
    },
}

/// Typed content-node operations.
#[derive(Debug)]
pub enum ContentCommand {
    /// Report the active Workshop/content node.
    Status,
    /// List source artifacts and installed content state.
    List,
    /// Validate source content metadata, dependencies, conflicts, and publication intent.
    Validate { artifact: Option<String> },
    /// Build the active content workspace through app-local Cargo.
    Build { target: Vec<String>, release_targets: bool, host_only: bool },
    /// Build and locally install source content without Workshop publication.
    Deploy { artifact: String, select: bool, target: Vec<String>, release_targets: bool, host_only: bool },
    /// Stage a content package under the app root.
    Package { artifact: String, target: Vec<String>, release_targets: bool, host_only: bool, dry_run: bool },
    /// Acquire content into the app-owned cache.
    Acquire { target: String, account: Option<String> },
    /// Subscribe to or otherwise acquire content through controlled providers.
    Subscribe { target: String, account: Option<String> },
    /// Download content into the app-owned cache.
    Download { targets: Vec<String>, account: Option<String> },
    /// Install source or cached content into the app root.
    Install { target: String, account: Option<String> },
    /// Update installed content from source or cache.
    Update { target: Option<String> },
    /// Verify installed content fingerprints and receipts.
    Verify { target: Option<String> },
    /// Report the selected packagepack.
    Selected,
    /// Select an installed packagepack for play.
    Select { target: String },
    /// Clear the selected packagepack.
    Deselect,
    /// Repair corrupted installed content from source or cache.
    Repair { target: Option<String> },
    /// Disable installed content without deleting it.
    Disable { target: String },
    /// Enable disabled content.
    Enable { target: String },
    /// Uninstall content and remove installed-state records.
    Uninstall { target: String },
    /// Preview creation of a new Workshop item.
    Create {
        artifact: String,
        account: Option<String>,
        target: Vec<String>,
        release_targets: bool,
        host_only: bool,
        dry_run: bool,
        yes: bool,
    },
    /// Publish or preview a Workshop item update.
    Publish {
        artifacts: Vec<String>,
        account: Option<String>,
        target: Vec<String>,
        release_targets: bool,
        host_only: bool,
        change_note: Option<String>,
        dry_run: bool,
        yes: bool,
    },
    /// Preview deletion or retirement of a Workshop item.
    Delete { target: String, dry_run: bool, yes: bool },
}

/// Vapor command-script operations.
#[derive(Debug)]
pub enum ScriptCommand {
    /// Run `resources/vapor/vapor-scripts/<NAME>.vapor`.
    Run { name: String, dry_run: bool },
}

/// Whether the application loop should read another command.
#[derive(Debug, Clone, Copy, PartialEq, Eq, Structural)]
pub enum Control {
    /// Read another command.
    Continue,
    /// End the interactive session.
    Exit,
}

/// What the loop does after a command succeeds: only `exit` ends it.
pub fn control_after(command: &ShellCommand) -> (r: Control)
    ensures
        r == (if *command is Exit { Control::Exit } else { Control::Continue }),
{
    match command {
        ShellCommand::Exit => Control::Exit,
        _ => Control::Continue,
    }
}

/// Whether a command script may run `c`: scripts may not run scripts, end
/// the host shell, publish or create for real, delete Workshop items for
/// real, write IDE repairs, or push diagnostics for real.
pub open spec fn script_allowed(c: ShellCommand) -> bool {
    !{
        ||| c is Script
        ||| c is Exit
        ||| (c matches ShellCommand::Root { command: RootCommand::Publish { dry_run, .. } } && !dry_run)
        ||| (c matches ShellCommand::Content { command: ContentCommand::Create { dry_run, .. } } && !dry_run)
        ||| (c matches ShellCommand::Content { command: ContentCommand::Publish { dry_run, .. } } && !dry_run)
        ||| (c matches ShellCommand::Content { command: ContentCommand::Delete { dry_run, .. } } && !dry_run)
        ||| (c matches ShellCommand::Ide { command: IdeCommand::Repair { dry_run } } && !dry_run)
        ||| (c matches ShellCommand::Diagnostics { command: DiagnosticsCommand::Submit { push, dry_run, .. } } && push && !dry_run)
    }
}

/// Whether a command script may run `command`.
pub fn script_command_allowed(command: &ShellCommand) -> (r: bool)
    ensures
        r == script_allowed(*command),
{
    match command {
        ShellCommand::Script { .. } => false,
        ShellCommand::Exit => false,
        ShellCommand::Root { command: RootCommand::Publish { dry_run, .. } } => *dry_run,
        ShellCommand::Content { command: ContentCommand::Create { dry_run, .. } } => *dry_run,
        ShellCommand::Content { command: ContentCommand::Publish { dry_run, .. } } => *dry_run,
        ShellCommand::Content { command: ContentCommand::Delete { dry_run, .. } } => *dry_run,
        ShellCommand::Ide { command: IdeCommand::Repair { dry_run } } => *dry_run,
        ShellCommand::Diagnostics { command: DiagnosticsCommand::Submit { push, dry_run, .. } } => !*push || *dry_run,
        _ => true,
    }
}

/// Message when a script tries to run a command it may not.
pub open spec fn msg_script_refused() -> Seq<char> {
    "scripts may not invoke scripts, exit the host shell, perform real publishes, delete Workshop items, or apply IDE repairs"@
}

/// Refuse, with the shell's message, a command that scripts may not run.
pub fn check_script_command(command: &ShellCommand) -> (r: Result<(), String>)
    ensures
        script_allowed(*command) ==> r is Ok,
        !script_allowed(*command) ==> (r matches Err(e) && e@ == msg_script_refused()),
{
    if script_command_allowed(command) {
        Ok(())
    } else {
        Err(owned("scripts may not invoke scripts, exit the host shell, perform real publishes, delete Workshop items, or apply IDE repairs"))
    }
}

/// Whether a script name is a simple file-name stem.
pub open spec fn simple_script_name(name: Seq<char>) -> bool {
    !has_char(name, '/') && !has_char(name, '\\') && name != "."@ && name != ".."@
}

/// Refuse a script name that is not a simple file-name stem.
pub fn validate_script_name(name: &str) -> (r: Result<(), String>)
    ensures
        simple_script_name(name@) ==> r is Ok,
        !simple_script_name(name@) ==> (r matches Err(e) && e@ == "script name must be a simple filename stem"@),
{
    if contains_char(name, '/') || contains_char(name, '\\') || str_eq(name, ".") || str_eq(name, "..") {
        Err(owned("script name must be a simple filename stem"))
    } else {
        Ok(())
    }
}

/// Where scripts live, relative to a source or installation root.
pub open spec fn scripts_dir() -> Seq<char> {
    "resources/vapor/vapor-scripts"@
}

/// The places searched for script `name`, in order: the open source's
/// scripts, then the installation's.
pub open spec fn script_candidates_spec(source_root: Option<Seq<char>>, installation_root: Seq<char>, name: Seq<char>) -> Seq<Seq<char>> {
    let file = name + ".vapor"@;
    let installed = seq![join(join(installation_root, scripts_dir()), file)];
    match source_root {
        Some(s) => seq![join(join(s, scripts_dir()), file)] + installed,
        None => installed,
    }
}

/// The places searched for script `name`, in order.
pub fn script_candidates(source_root: Option<&str>, installation_root: &str, name: &str) -> (r: Vec<String>)
    ensures
        string_views(r@) == script_candidates_spec(
            match source_root { Some(s) => Some(s@), None => None::<Seq<char>> }, installation_root@, name@),
{
    let file = concat(name, ".vapor");
    let mut v: Vec<String> = Vec::new();
    match source_root {
        Some(s) => {
            v.push(join_path(&join_path(s, "resources/vapor/vapor-scripts"), file.as_str()));
        },
        None => {},
    }
    v.push(join_path(&join_path(installation_root, "resources/vapor/vapor-scripts"), file.as_str()));
    proof {
        assert(string_views(v@) =~= script_candidates_spec(
            match source_root { Some(s) => Some(s@), None => None::<Seq<char>> }, installation_root@, name@));
    }
    v
}

/// Each searched place on a line of its own.
pub open spec fn searched_lines(c: Seq<Seq<char>>) -> Seq<Seq<char>> {
    c.map_values(|p: Seq<char>| "  - "@ + p)
}

/// Message when no candidate holds the script.
pub open spec fn msg_script_not_found(name: Seq<char>, candidates: Seq<Seq<char>>) -> Seq<char> {
    "script not found: "@ + name + "\nsearched:\n"@ + joined(searched_lines(candidates), "\n"@)
}

/// The error when no candidate holds the script.
pub fn script_not_found(name: &str, candidates: &[String]) -> (r: String)
    ensures
        r@ == msg_script_not_found(name@, string_views(candidates@)),
{
    let mut lines: Vec<String> = Vec::new();
    let mut i: usize = 0;
    while i < candidates.len()
        invariant
            i <= candidates@.len(),
            string_views(lines@) == searched_lines(string_views(candidates@)).take(i as int),
        decreases candidates@.len() - i,
    {
        let ghost old_lines = lines@;
        lines.push(concat("  - ", candidates[i].as_str()));
        proof {
            assert(string_views(lines@) =~= string_views(old_lines).push(lines@.last()@));
            assert(string_views(lines@) =~= searched_lines(string_views(candidates@)).take(i + 1));
        }
        i = i + 1;
    }
    proof {
        assert(searched_lines(string_views(candidates@)).take(candidates@.len() as int) =~= searched_lines(string_views(candidates@)));
    }
    let searched = join_strings(lines.as_slice(), "\n");
    let mut r = concat3("script not found: ", name, "\nsearched:\n");
    r.append(searched.as_str());
    r
}

/// What the shell does with one line of a command script.
#[derive(Debug)]
pub enum ScriptLine {
    /// A blank line or a comment.
    Skip,
    /// Echo the line and go on (a dry run).
    Show { echo: String },
    /// Echo the line, then parse and run these arguments.
    Run { echo: String, args: Vec<String> },
    /// Echo the line, then stop with this error.
    Invalid { echo: String, error: String },
}

/// How a script line is echoed: `PATH:LINE: TEXT`.
pub open spec fn script_echo(path: Seq<char>, line_number: nat, text: Seq<char>) -> Seq<char> {
    path + ":"@ + decimal(line_number) + ": "@ + text
}

/// Message for a line whose quoting does not close.
pub open spec fn msg_invalid_quoting(path: Seq<char>, line_number: nat) -> Seq<char> {
    "invalid quoting at "@ + path + ":"@ + decimal(line_number)
}

/// Whether a trimmed script line carries no command.
pub open spec fn script_line_blank(text: Seq<char>) -> bool {
    text.len() == 0 || text[0] == '#'
}

/// What a script line that was split into words (or failed to split) runs.
pub open spec fn script_line_run(path: Seq<char>, line_number: nat, text: Seq<char>, split: Option<Seq<Seq<char>>>) -> (Seq<char>, Result<Seq<Seq<char>>, Seq<char>>) {
    (script_echo(path, line_number, text), match split {
        Some(words) => Ok(words),
        None => Err(msg_invalid_quoting(path, line_number)),
    })
}

/// View of a script line outcome: `None` for a skipped line, else the echo
/// and what follows it (`Ok(None)` for a dry run, `Ok(Some(args))` for a
/// command, `Err` for a line that cannot be split).
pub open spec fn script_line_view(l: ScriptLine) -> Option<(Seq<char>, Result<Option<Seq<Seq<char>>>, Seq<char>>)> {
    match l {
        ScriptLine::Skip => None,
        ScriptLine::Show { echo } => Some((echo@, Ok(None))),
        ScriptLine::Run { echo, args } => Some((echo@, Ok(Some(string_views(args@))))),
        ScriptLine::Invalid { echo, error } => Some((echo@, Err(error@))),
    }
}

/// The outcome of a non-blank script line that has been split into shell
/// words (`Some`) or whose quoting did not close (`None`).
pub fn script_line_split(path: &str, line_number: usize, text: &str, split: Option<Vec<String>>) -> (r: ScriptLine)
    ensures
        script_line_view(r) == Some((script_echo(path@, line_number as nat, text@), match split {
            Some(words) => Ok::<Option<Seq<Seq<char>>>, Seq<char>>(Some(string_views(words@))),
            None => Err(msg_invalid_quoting(path@, line_number as nat)),
        })),
{
    let number = decimal_string(line_number as u64);
    let mut echo = concat3(path, ":", number.as_str());
    echo.append(": ");
    echo.append(text);
    match split {
        Some(words) => ScriptLine::Run { echo, args: words },
        None => {
            let mut error = concat3("invalid quoting at ", path, ":");
            error.append(number.as_str());
            ScriptLine::Invalid { echo, error }
        },
    }
}

/// The shell words of a line as `shlex::split` reads them, or `None` where
/// its quoting or escaping is erroneous.
pub uninterp spec fn shlex_split(line: Seq<char>) -> Option<Seq<Seq<char>>>;

/// `shlex::split`: the line split into words by POSIX shell rules, or `None`
/// for erroneous input. The contract names the result and says nothing more
/// of it.
#[verifier::external_body]
fn split_words(line: &str) -> (r: Option<Vec<String>>)
    ensures
        match shlex_split(line@) {
            Some(words) => r matches Some(v) && string_views(v@) == words,
            None => r is None,
        },
{
    shlex::split(line)
}

/// What the shell does with line `line_number` (counted from one) of the
/// script at `path`: blank lines and `#` comments are skipped; any other
/// line, trimmed, is echoed, and unless this is a dry run it is split into
/// shell words to be parsed as a command.
pub fn script_line(path: &str, line_number: usize, raw: &str, dry_run: bool) -> (r: ScriptLine)
    ensures
        script_line_blank(trim(raw@)) ==> r is Skip,
        !script_line_blank(trim(raw@)) && dry_run ==> script_line_view(r) == Some((script_echo(path@, line_number as nat, trim(raw@)), Ok::<Option<Seq<Seq<char>>>, Seq<char>>(None))),
        !script_line_blank(trim(raw@)) && !dry_run ==> script_line_view(r) == Some((script_echo(path@, line_number as nat, trim(raw@)), match shlex_split(trim(raw@)) {
            Some(words) => Ok::<Option<Seq<Seq<char>>>, Seq<char>>(Some(words)),
            None => Err(msg_invalid_quoting(path@, line_number as nat)),
        })),
{
    let text = trim_str(raw);
    if text.unicode_len() == 0 || text.get_char(0) == '#' {
        return ScriptLine::Skip;
    }
    if dry_run {
        let number = decimal_string(line_number as u64);
        let mut echo = concat3(path, ":", number.as_str());
        echo.append(": ");
        echo.append(text);
        return ScriptLine::Show { echo };
    }
    let split = split_words(text);
    script_line_split(path, line_number, text, split)
}


/// Character allowed in a command-line runtime target.
pub open spec fn is_target_char(c: char) -> bool {
    is_alnum(c) || c == '-' || c == '_'
}

/// The problem of one command-line runtime target, given those before it.
pub open spec fn command_target_problem() -> spec_fn(Seq<Seq<char>>, Seq<char>) -> Option<Seq<char>> {
    |before: Seq<Seq<char>>, t: Seq<char>|
        if t.len() == 0 || exists|i: int| 0 <= i < t.len() && !is_target_char(#[trigger] t[i]) {
            Some("runtime target must be a Rust target triple such as x86_64-pc-windows-gnullvm: "@ + t)
        } else if before.contains(t) {
            Some("duplicate runtime target: "@ + t)
        } else {
            None
        }
}

fn target_chars_ok(t: &str) -> (r: bool)
    ensures
        r == (t@.len() > 0 && forall|i: int| 0 <= i < t@.len() ==> is_target_char(#[trigger] t@[i])),
{
    let n = t.unicode_len();
    if n == 0 {
        return false;
    }
    let mut i: usize = 0;
    while i < n
        invariant
            n == t@.len(),
            i <= n,
            forall|k: int| 0 <= k < i ==> is_target_char(#[trigger] t@[k]),
        decreases n - i,
    {
        let c = t.get_char(i);
        if !(char_is_alnum(c) || c == '-' || c == '_') {
            assert(!is_target_char(t@[i as int]));
            return false;
        }
        i = i + 1;
    }
    true
}

/// Require explicit runtime targets to be well-formed and distinct.
pub fn validate_command_runtime_targets(targets: &[String]) -> (r: Result<(), String>)
    ensures
        match first_problem(string_views(targets@), command_target_problem()) {
            None => r is Ok,
            Some(m) => r matches Err(e) && e@ == m,
        },
{
    let ghost views = string_views(targets@);
    let ghost p = command_target_problem();
    let mut i: usize = 0;
    while i < targets.len()
        invariant
            i <= targets@.len(),
            views == string_views(targets@),
            p == command_target_problem(),
            first_problem(views.take(i as int), p).is_none(),
        decreases targets@.len() - i,
    {
        proof {
            lemma_first_problem_step(views, p, i as int);
        }
        let t = targets[i].as_str();
        assert(views[i as int] == t@);
        if !target_chars_ok(t) {
            proof {
                lemma_first_problem_prefix(views, p, i + 1);
            }
            return Err(concat("runtime target must be a Rust target triple such as x86_64-pc-windows-gnullvm: ", t));
        }
        if strings_contain(targets, i, t) {
            proof {
                lemma_first_problem_prefix(views, p, i + 1);
            }
            return Err(concat("duplicate runtime target: ", t));
        }
        i = i + 1;
    }
    proof {
        lemma_first_problem_whole(views, p);
    }
    Ok(())
}

/// Message when more than one target mode is given.
pub open spec fn msg_one_target_mode() -> Seq<char> {
    "use only one of --target, --release-targets, or --host-only"@
}

/// Message when the release matrix is asked for and none is declared.
pub open spec fn msg_no_declared_targets() -> Seq<char> {
    "source manifest declares no runtime targets; add [root.runtime]/[workspace.runtime] targets or pass --target"@
}

/// The runtime targets a command works on: the explicit `--target` list
/// (checked), nothing beyond the host for `--host-only`, else the declared
/// matrix (an error for `--release-targets` when none is declared). At most
/// one of the three modes may be given.
pub open spec fn resolve_targets_spec(declared: Seq<Seq<char>>, explicit: Seq<Seq<char>>, release_targets: bool, host_only: bool) -> Result<Seq<Seq<char>>, Seq<char>> {
    let modes = (if explicit.len() > 0 { 1int } else { 0int }) + (if release_targets { 1int } else { 0int }) + (if host_only { 1int } else { 0int });
    if modes > 1 {
        Err(msg_one_target_mode())
    } else if explicit.len() > 0 {
        match first_problem(explicit, command_target_problem()) {
            Some(e) => Err(e),
            None => Ok(explicit),
        }
    } else if host_only {
        Ok(Seq::empty())
    } else if release_targets && declared.len() == 0 {
        Err(msg_no_declared_targets())
    } else {
        Ok(declared)
    }
}

fn copy_targets(v: &[String]) -> (r: Vec<String>)
    ensures
        string_views(r@) == string_views(v@),
{
    let mut out: Vec<String> = Vec::new();
    let mut i: usize = 0;
    while i < v.len()
        invariant
            i <= v@.len(),
            string_views(out@) == string_views(v@).take(i as int),
        decreases v@.len() - i,
    {
        let ghost before = out@;
        out.push(owned(v[i].as_str()));
        proof {
            assert(string_views(out@) =~= string_views(before).push(v@[i as int]@));
            assert(string_views(out@) =~= string_views(v@).take(i + 1));
        }
        i = i + 1;
    }
    proof {
        assert(string_views(v@).take(v@.len() as int) =~= string_views(v@));
    }
    out
}

/// The runtime targets a build, deploy or package command works on.
pub fn resolve_runtime_targets(manifest: &WorkspaceManifest, explicit_targets: &[String], release_targets: bool, host_only: bool) -> (r: Result<Vec<String>, String>)
    ensures
        match resolve_targets_spec(string_views(manifest.runtime_targets@), string_views(explicit_targets@), release_targets, host_only) {
            Ok(t) => r matches Ok(v) && string_views(v@) == t,
            Err(m) => r matches Err(e) && e@ == m,
        },
{
    resolve_runtime_targets_from(manifest.runtime_targets(), explicit_targets, release_targets, host_only)
}

/// The runtime targets a command resolves, from the declared target matrix.
pub fn resolve_runtime_targets_from(declared: &[String], explicit_targets: &[String], release_targets: bool, host_only: bool) -> (r: Result<Vec<String>, String>)
    ensures
        match resolve_targets_spec(string_views(declared@), string_views(explicit_targets@), release_targets, host_only) {
            Ok(t) => r matches Ok(v) && string_views(v@) == t,
            Err(m) => r matches Err(e) && e@ == m,
        },
{
    let explicit_mode: u8 = if explicit_targets.len() > 0 { 1 } else { 0 };
    let release_mode: u8 = if release_targets { 1 } else { 0 };
    let host_mode: u8 = if host_only { 1 } else { 0 };
    if explicit_mode + release_mode + host_mode > 1 {
        return Err(owned("use only one of --target, --release-targets, or --host-only"));
    }
    if explicit_targets.len() > 0 {
        validate_command_runtime_targets(explicit_targets)?;
        return Ok(copy_targets(explicit_targets));
    }
    if host_only {
        let v: Vec<String> = Vec::new();
        proof {
            assert(string_views(v@) =~= Seq::<Seq<char>>::empty());
        }
        return Ok(v);
    }
    if release_targets && declared.len() == 0 {
        return Err(owned("source manifest declares no runtime targets; add [root.runtime]/[workspace.runtime] targets or pass --target"));
    }
    Ok(copy_targets(declared))
}

/// Whether some target names a platform.
pub open spec fn any_target_with(targets: Seq<Seq<char>>, platform: Seq<char>) -> bool {
    exists|i: int| 0 <= i < targets.len() && has_infix(#[trigger] targets[i], platform)
}

/// Message when a real release lacks the Linux and Windows matrix.
pub open spec fn msg_release_matrix(command: Seq<char>, targets: Seq<Seq<char>>) -> Seq<char> {
    "real "@ + command + " requires a declared release runtime matrix containing both Linux and Windows targets; current targets: "@
        + (if targets.len() == 0 { "<none>"@ } else { joined(targets, ", "@) })
}

fn any_contains(targets: &[String], platform: &str) -> (r: bool)
    ensures
        r == any_target_with(string_views(targets@), platform@),
{
    let mut i: usize = 0;
    while i < targets.len()
        invariant
            i <= targets@.len(),
            forall|k: int| 0 <= k < i ==> !has_infix(#[trigger] string_views(targets@)[k], platform@),
        decreases targets@.len() - i,
    {
        if contains(targets[i].as_str(), platform) {
            assert(has_infix(string_views(targets@)[i as int], platform@));
            return true;
        }
        i = i + 1;
    }
    false
}

/// A real release needs a target matrix holding both a Linux and a Windows
/// target.
pub fn require_release_runtime_matrix(command: &str, targets: &[String]) -> (r: Result<(), String>)
    ensures
        any_target_with(string_views(targets@), "linux"@) && any_target_with(string_views(targets@), "windows"@) ==> r is Ok,
        !(any_target_with(string_views(targets@), "linux"@) && any_target_with(string_views(targets@), "windows"@))
            ==> (r matches Err(e) && e@ == msg_release_matrix(command@, string_views(targets@))),
{
    let has_linux = any_contains(targets, "linux");
    let has_windows = any_contains(targets, "windows");
    if has_linux && has_windows {
        return Ok(());
    }
    let declared = if targets.len() == 0 { owned("<none>") } else { join_strings(targets, ", ") };
    let mut e = concat3("real ", command, " requires a declared release runtime matrix containing both Linux and Windows targets; current targets: ");
    e.append(declared.as_str());
    Err(e)
}

/// Message when a real release names its own targets.
pub open spec fn msg_release_explicit(command: Seq<char>) -> Seq<char> {
    "real "@ + command + " requires the complete declared runtime target matrix; remove --target or use --dry-run for custom target previews"@
}

/// Message when a real release asks for the host alone.
pub open spec fn msg_release_host_only(command: Seq<char>) -> Seq<char> {
    "real "@ + command + " requires the complete declared runtime target matrix; --host-only is only for dry-run/local smoke paths"@
}

/// The runtime targets a publication works on: as for a build on a dry run;
/// for a real one, the declared matrix alone, which must hold Linux and
/// Windows targets.
pub open spec fn resolve_publish_spec(declared: Seq<Seq<char>>, explicit: Seq<Seq<char>>, release_targets: bool, host_only: bool, dry_run: bool, command: Seq<char>) -> Result<Seq<Seq<char>>, Seq<char>> {
    if dry_run {
        resolve_targets_spec(declared, explicit, release_targets, host_only)
    } else if explicit.len() > 0 {
        Err(msg_release_explicit(command))
    } else if host_only {
        Err(msg_release_host_only(command))
    } else {
        match resolve_targets_spec(declared, Seq::empty(), release_targets, false) {
            Err(e) => Err(e),
            Ok(t) => if any_target_with(t, "linux"@) && any_target_with(t, "windows"@) {
                Ok(t)
            } else {
                Err(msg_release_matrix(command, t))
            },
        }
    }
}

/// The runtime targets a publication works on.
pub fn resolve_publish_runtime_targets(
    manifest: &WorkspaceManifest,
    explicit_targets: &[String],
    release_targets: bool,
    host_only: bool,
    dry_run: bool,
    command: &str,
) -> (r: Result<Vec<String>, String>)
    ensures
        match resolve_publish_spec(string_views(manifest.runtime_targets@), string_views(explicit_targets@), release_targets, host_only, dry_run, command@) {
            Ok(t) => r matches Ok(v) && string_views(v@) == t,
            Err(m) => r matches Err(e) && e@ == m,
        },
{
    resolve_publish_runtime_targets_from(manifest.runtime_targets(), explicit_targets, release_targets, host_only, dry_run, command)
}

/// The runtime targets a release resolves, from the declared target matrix.
pub fn resolve_publish_runtime_targets_from(
    declared: &[String],
    explicit_targets: &[String],
    release_targets: bool,
    host_only: bool,
    dry_run: bool,
    command: &str,
) -> (r: Result<Vec<String>, String>)
    ensures
        match resolve_publish_spec(string_views(declared@), string_views(explicit_targets@), release_targets, host_only, dry_run, command@) {
            Ok(t) => r matches Ok(v) && string_views(v@) == t,
            Err(m) => r matches Err(e) && e@ == m,
        },
{
    if dry_run {
        return resolve_runtime_targets_from(declared, explicit_targets, release_targets, host_only);
    }
    if explicit_targets.len() > 0 {
        return Err(concat3("real ", command, " requires the complete declared runtime target matrix; remove --target or use --dry-run for custom target previews"));
    }
    if host_only {
        return Err(concat3("real ", command, " requires the complete declared runtime target matrix; --host-only is only for dry-run/local smoke paths"));
    }
    let none: Vec<String> = Vec::new();
    proof {
        assert(string_views(none@) =~= Seq::<Seq<char>>::empty());
    }
    let targets = resolve_runtime_targets_from(declared, none.as_slice(), release_targets, false)?;
    require_release_runtime_matrix(command, targets.as_slice())?;
    Ok(targets)
}

/// How the finished workflow describes the source root.
pub open spec fn source_type_label_spec(kind: SourceRootKind, has_content: bool) -> Seq<char> {
    match kind {
        SourceRootKind::Root => "application root"@,
        SourceRootKind::Workspace => if has_content { "content workspace"@ } else { "workspace"@ },
    }
}

/// How the finished workflow describes the source root; `has_content` says
/// whether the root holds source content artifacts.
pub fn source_type_label(kind: SourceRootKind, has_content: bool) -> (r: &'static str)
    ensures
        r@ == source_type_label_spec(kind, has_content),
{
    match kind {
        SourceRootKind::Root => "application root",
        SourceRootKind::Workspace => if has_content { "content workspace" } else { "workspace" },
    }
}

/// The command suggested after a workflow succeeds.
pub open spec fn workflow_next_spec(w: CargoWorkflow, kind: SourceRootKind, has_content: bool) -> Seq<char> {
    match w {
        CargoWorkflow::Fmt => "test"@,
        CargoWorkflow::Check => "test"@,
        CargoWorkflow::Test => "validate"@,
        CargoWorkflow::Build => match kind {
            SourceRootKind::Root => "root build"@,
            SourceRootKind::Workspace => if has_content { "content package ARTIFACT"@ } else { "validate"@ },
        },
        CargoWorkflow::Validate => match kind {
            SourceRootKind::Root => "root build"@,
            SourceRootKind::Workspace => if has_content { "content validate"@ } else { "build"@ },
        },
    }
}

/// The command suggested after a workflow succeeds.
pub fn workflow_next_command(workflow: CargoWorkflow, kind: SourceRootKind, has_content: bool) -> (r: &'static str)
    ensures
        r@ == workflow_next_spec(workflow, kind, has_content),
{
    match workflow {
        CargoWorkflow::Fmt => "test",
        CargoWorkflow::Check => "test",
        CargoWorkflow::Test => "validate",
        CargoWorkflow::Build => match kind {
            SourceRootKind::Root => "root build",
            SourceRootKind::Workspace => if has_content { "content package ARTIFACT" } else { "validate" },
        },
        CargoWorkflow::Validate => match kind {
            SourceRootKind::Root => "root build",
            SourceRootKind::Workspace => if has_content { "content validate" } else { "build" },
        },
    }
}


/// View of a preflight plan: the action, the tool groups, and whether
/// workspace and distribution policy are needed.
pub open spec fn plan_view(p: ValidationPlan) -> (Seq<char>, Seq<AppToolRequirement>, bool, bool) {
    (p.action@, p.app_local_tools@, p.workspace, p.distribution)
}

/// App-local Rust/Cargo alone.
pub open spec fn rust_tools() -> Seq<AppToolRequirement> {
    seq![AppToolRequirement::Rust]
}

/// The tool groups a real release needs.
pub open spec fn release_tools() -> Seq<AppToolRequirement> {
    seq![AppToolRequirement::Rust, AppToolRequirement::CrossToolchains, AppToolRequirement::SteamCmd]
}

/// The preflight a command runs before its effects, if any.
pub open spec fn command_plan(c: ShellCommand) -> Option<(Seq<char>, Seq<AppToolRequirement>, bool, bool)> {
    match c {
        ShellCommand::Fmt { .. } => Some((workflow_label(CargoWorkflow::Fmt), rust_tools(), true, false)),
        ShellCommand::Check { .. } => Some((workflow_label(CargoWorkflow::Check), rust_tools(), true, false)),
        ShellCommand::Test { .. } => Some((workflow_label(CargoWorkflow::Test), rust_tools(), true, false)),
        ShellCommand::Build { .. } => Some((workflow_label(CargoWorkflow::Build), rust_tools(), true, false)),
        ShellCommand::Validate { .. } => Some((workflow_label(CargoWorkflow::Validate), rust_tools(), true, false)),
        ShellCommand::Docs { command: DocsCommand::Build } => Some(("build documentation"@, rust_tools(), true, false)),
        ShellCommand::Ide { command: IdeCommand::Status } => Some(("inspect IDE setup"@, Seq::empty(), true, false)),
        ShellCommand::Ide { command: IdeCommand::Repair { .. } } => Some(("repair IDE setup"@, rust_tools(), true, false)),
        ShellCommand::Root { command: RootCommand::Build { .. } } => Some(("build the Vapor application"@, rust_tools(), true, false)),
        ShellCommand::Root { command: RootCommand::Package { .. } } => Some(("package the Vapor application"@, rust_tools(), true, true)),
        ShellCommand::Root { command: RootCommand::Publish { dry_run, .. } } =>
            Some(("publish the Vapor application"@, if dry_run { rust_tools() } else { release_tools() }, true, true)),
        ShellCommand::Content { command: ContentCommand::Build { .. } } => Some(("build content"@, rust_tools(), true, false)),
        ShellCommand::Content { command: ContentCommand::Deploy { .. } } => Some(("locally deploy content"@, rust_tools(), true, false)),
        ShellCommand::Content { command: ContentCommand::Create { dry_run, .. } } =>
            if dry_run { None } else { Some(("create Workshop item"@, release_tools(), true, false)) },
        ShellCommand::Content { command: ContentCommand::Publish { dry_run, .. } } =>
            if dry_run { None } else { Some(("publish Workshop items"@, release_tools(), true, false)) },
        _ => None,
    }
}

fn plan(action: &str, tools: Vec<AppToolRequirement>, workspace: bool, distribution: bool) -> (r: ValidationPlan)
    ensures
        plan_view(r) == (action@, tools@, workspace, distribution),
{
    ValidationPlan { action: owned(action), app_local_tools: tools, workspace, distribution }
}

fn rust_vec() -> (r: Vec<AppToolRequirement>)
    ensures
        r@ == rust_tools(),
{
    let r = vec![AppToolRequirement::Rust];
    assert(r@ =~= rust_tools());
    r
}

fn release_vec() -> (r: Vec<AppToolRequirement>)
    ensures
        r@ == release_tools(),
{
    let r = vec![AppToolRequirement::Rust, AppToolRequirement::CrossToolchains, AppToolRequirement::SteamCmd];
    assert(r@ =~= release_tools());
    r
}

/// The preflight checks a command needs before its effects: the action named
/// in diagnostics, the app-local tool groups, and whether workspace and
/// distribution policy must be valid. Real releases need the cross linkers
/// and SteamCMD as well as Rust; previews need Rust alone, or nothing.
pub fn validation_plan(command: &ShellCommand) -> (r: Option<ValidationPlan>)
    ensures
        match command_plan(*command) {
            None => r is None,
            Some(v) => r matches Some(p) && plan_view(p) == v,
        },
{
    match command {
        ShellCommand::Fmt { .. } => Some(plan(CargoWorkflow::Fmt.label(), rust_vec(), true, false)),
        ShellCommand::Check { .. } => Some(plan(CargoWorkflow::Check.label(), rust_vec(), true, false)),
        ShellCommand::Test { .. } => Some(plan(CargoWorkflow::Test.label(), rust_vec(), true, false)),
        ShellCommand::Build { .. } => Some(plan(CargoWorkflow::Build.label(), rust_vec(), true, false)),
        ShellCommand::Validate { .. } => Some(plan(CargoWorkflow::Validate.label(), rust_vec(), true, false)),
        ShellCommand::Docs { command: DocsCommand::Build } => Some(plan("build documentation", rust_vec(), true, false)),
        ShellCommand::Ide { command: IdeCommand::Status } => {
            let none: Vec<AppToolRequirement> = Vec::new();
            assert(none@ =~= Seq::<AppToolRequirement>::empty());
            Some(plan("inspect IDE setup", none, true, false))
        },
        ShellCommand::Ide { command: IdeCommand::Repair { .. } } => Some(plan("repair IDE setup", rust_vec(), true, false)),
        ShellCommand::Root { command: RootCommand::Build { .. } } => Some(plan("build the Vapor application", rust_vec(), true, false)),
        ShellCommand::Root { command: RootCommand::Package { .. } } => Some(plan("package the Vapor application", rust_vec(), true, true)),
        ShellCommand::Root { command: RootCommand::Publish { dry_run, .. } } => {
            let tools = if *dry_run { rust_vec() } else { release_vec() };
            Some(plan("publish the Vapor application", tools, true, true))
        },
        ShellCommand::Content { command: ContentCommand::Build { .. } } => Some(plan("build content", rust_vec(), true, false)),
        ShellCommand::Content { command: ContentCommand::Deploy { .. } } => Some(plan("locally deploy content", rust_vec(), true, false)),
        ShellCommand::Content { command: ContentCommand::Create { dry_run, .. } } =>
            if *dry_run { None } else { Some(plan("create Workshop item", release_vec(), true, false)) },
        ShellCommand::Content { command: ContentCommand::Publish { dry_run, .. } } =>
            if *dry_run { None } else { Some(plan("publish Workshop items", release_vec(), true, false)) },
        _ => None,
    }
}

/// Whether an account was given and is not empty.
pub open spec fn account_present(account: Option<Seq<char>>) -> bool {
    account matches Some(a) && a.len() > 0
}

/// Message when a real app publication names no account.
pub open spec fn msg_publish_needs_account() -> Seq<char> {
    "real app publication requires --account ACCOUNT after reviewing --dry-run"@
}

/// Message when a real app publication asks to skip the build.
pub open spec fn msg_publish_skip_build() -> Seq<char> {
    "real app publication must validate, build, and promote the complete runtime matrix; --skip-build is only for dry-run previews"@
}

/// The checks on `root publish` arguments made before anything else: a real
/// upload needs an account and a full build.
pub fn root_publish_preflight(dry_run: bool, account: Option<&str>, skip_build: bool) -> (r: Result<(), String>)
    ensures
        !dry_run && !account_present(match account { Some(a) => Some(a@), None => None::<Seq<char>> })
            ==> (r matches Err(e) && e@ == msg_publish_needs_account()),
        !dry_run && account_present(match account { Some(a) => Some(a@), None => None::<Seq<char>> }) && skip_build
            ==> (r matches Err(e) && e@ == msg_publish_skip_build()),
        dry_run || (account_present(match account { Some(a) => Some(a@), None => None::<Seq<char>> }) && !skip_build) ==> r is Ok,
{
    let has_account = match account {
        Some(a) => a.unicode_len() > 0,
        None => false,
    };
    if !dry_run && !has_account {
        return Err(owned("real app publication requires --account ACCOUNT after reviewing --dry-run"));
    }
    if !dry_run && skip_build {
        return Err(owned("real app publication must validate, build, and promote the complete runtime matrix; --skip-build is only for dry-run previews"));
    }
    Ok(())
}

/// The Cargo workflows a command runs over its runtime targets before its
/// own effects.
pub open spec fn prebuild_spec(c: ShellCommand) -> Seq<CargoWorkflow> {
    match c {
        ShellCommand::Root { command: RootCommand::Build { .. } } => seq![CargoWorkflow::Build],
        ShellCommand::Root { command: RootCommand::Package { .. } } => seq![CargoWorkflow::Build],
        ShellCommand::Root { command: RootCommand::Publish { skip_build, .. } } =>
            if skip_build { Seq::empty() } else { seq![CargoWorkflow::Validate, CargoWorkflow::Build] },
        ShellCommand::Content { command: ContentCommand::Build { .. } } => seq![CargoWorkflow::Build],
        ShellCommand::Content { command: ContentCommand::Deploy { .. } } => seq![CargoWorkflow::Build],
        ShellCommand::Content { command: ContentCommand::Create { dry_run, .. } } =>
            if dry_run { Seq::empty() } else { seq![CargoWorkflow::Validate, CargoWorkflow::Build] },
        ShellCommand::Content { command: ContentCommand::Publish { dry_run, .. } } =>
            if dry_run { Seq::empty() } else { seq![CargoWorkflow::Validate, CargoWorkflow::Build] },
        _ => Seq::empty(),
    }
}

/// The Cargo workflows a command runs, in order, before its own effects:
/// a build for root and content builds, deploys and packages; validation
/// then a build for real releases; nothing for previews and skipped builds.
pub fn prebuild_workflows(command: &ShellCommand) -> (r: Vec<CargoWorkflow>)
    ensures
        r@ == prebuild_spec(*command),
{
    let r: Vec<CargoWorkflow> = match command {
        ShellCommand::Root { command: RootCommand::Build { .. } } => vec![CargoWorkflow::Build],
        ShellCommand::Root { command: RootCommand::Package { .. } } => vec![CargoWorkflow::Build],
        ShellCommand::Root { command: RootCommand::Publish { skip_build, .. } } =>
            if *skip_build { Vec::new() } else { vec![CargoWorkflow::Validate, CargoWorkflow::Build] },
        ShellCommand::Content { command: ContentCommand::Build { .. } } => vec![CargoWorkflow::Build],
        ShellCommand::Content { command: ContentCommand::Deploy { .. } } => vec![CargoWorkflow::Build],
        ShellCommand::Content { command: ContentCommand::Create { dry_run, .. } } =>
            if *dry_run { Vec::new() } else { vec![CargoWorkflow::Validate, CargoWorkflow::Build] },
        ShellCommand::Content { command: ContentCommand::Publish { dry_run, .. } } =>
            if *dry_run { Vec::new() } else { vec![CargoWorkflow::Validate, CargoWorkflow::Build] },
        _ => Vec::new(),
    };
    assert(r@ =~= prebuild_spec(*command));
    r
}

/// The runtime targets a command resolves, if it resolves any.
pub open spec fn command_targets_spec(declared: Seq<Seq<char>>, c: ShellCommand) -> Option<Result<Seq<Seq<char>>, Seq<char>>> {
    match c {
        ShellCommand::Root { command: RootCommand::Build { target, release_targets, host_only, .. } } =>
            Some(resolve_targets_spec(declared, string_views(target@), release_targets, host_only)),
        ShellCommand::Root { command: RootCommand::Package { target, release_targets, host_only } } =>
            Some(resolve_targets_spec(declared, string_views(target@), release_targets, host_only)),
        ShellCommand::Root { command: RootCommand::Publish { target, release_targets, host_only, dry_run, .. } } =>
            Some(resolve_publish_spec(declared, string_views(target@), release_targets, host_only, dry_run, "app publication"@)),
        ShellCommand::Content { command: ContentCommand::Build { target, release_targets, host_only } } =>
            Some(resolve_targets_spec(declared, string_views(target@), release_targets, host_only)),
        ShellCommand::Content { command: ContentCommand::Deploy { target, release_targets, host_only, .. } } =>
            Some(resolve_targets_spec(declared, string_views(target@), release_targets, host_only)),
        ShellCommand::Content { command: ContentCommand::Package { target, release_targets, host_only, .. } } =>
            Some(resolve_targets_spec(declared, string_views(target@), release_targets, host_only)),
        ShellCommand::Content { command: ContentCommand::Create { target, release_targets, host_only, dry_run, .. } } =>
            Some(resolve_publish_spec(declared, string_views(target@), release_targets, host_only, dry_run, "Workshop item creation"@)),
        ShellCommand::Content { command: ContentCommand::Publish { target, release_targets, host_only, dry_run, .. } } =>
            Some(resolve_publish_spec(declared, string_views(target@), release_targets, host_only, dry_run, "Workshop publication"@)),
        _ => None,
    }
}

/// The runtime targets a command works on, resolved against the manifest's
/// declared matrix; `None` for commands that build nothing.
pub fn command_targets(manifest: &WorkspaceManifest, command: &ShellCommand) -> (r: Option<Result<Vec<String>, String>>)
    ensures
        match command_targets_spec(string_views(manifest.runtime_targets@), *command) {
            None => r is None,
            Some(Ok(t)) => r matches Some(Ok(v)) && string_views(v@) == t,
            Some(Err(m)) => r matches Some(Err(e)) && e@ == m,
        },
{
    match command {
        ShellCommand::Root { command: RootCommand::Build { target, release_targets, host_only, .. } } =>
            Some(resolve_runtime_targets(manifest, target.as_slice(), *release_targets, *host_only)),
        ShellCommand::Root { command: RootCommand::Package { target, release_targets, host_only } } =>
            Some(resolve_runtime_targets(manifest, target.as_slice(), *release_targets, *host_only)),
        ShellCommand::Root { command: RootCommand::Publish { target, release_targets, host_only, dry_run, .. } } =>
            Some(resolve_publish_runtime_targets(manifest, target.as_slice(), *release_targets, *host_only, *dry_run, "app publication")),
        ShellCommand::Content { command: ContentCommand::Build { target, release_targets, host_only } } =>
            Some(resolve_runtime_targets(manifest, target.as_slice(), *release_targets, *host_only)),
        ShellCommand::Content { command: ContentCommand::Deploy { target, release_targets, host_only, .. } } =>
            Some(resolve_runtime_targets(manifest, target.as_slice(), *release_targets, *host_only)),
        ShellCommand::Content { command: ContentCommand::Package { target, release_targets, host_only, .. } } =>
            Some(resolve_runtime_targets(manifest, target.as_slice(), *release_targets, *host_only)),
        ShellCommand::Content { command: ContentCommand::Create { target, release_targets, host_only, dry_run, .. } } =>
            Some(resolve_publish_runtime_targets(manifest, target.as_slice(), *release_targets, *host_only, *dry_run, "Workshop item creation")),
        ShellCommand::Content { command: ContentCommand::Publish { target, release_targets, host_only, dry_run, .. } } =>
            Some(resolve_publish_runtime_targets(manifest, target.as_slice(), *release_targets, *host_only, *dry_run, "Workshop publication")),
        _ => None,
    }
}


/// The targets whose platforms a root build serves: the given ones, or the
/// host alone when none are given.
pub open spec fn platform_sources(targets: Seq<Seq<char>>, host: Seq<char>) -> Seq<Seq<char>> {
    if targets.len() == 0 { seq![host] } else { targets }
}

/// Whether some target is a Linux target.
pub open spec fn serves_linux(ts: Seq<Seq<char>>) -> bool {
    exists|i: int| 0 <= i < ts.len() && has_infix(#[trigger] ts[i], "linux"@)
}

/// Whether some target that is not a Linux target is a Windows target.
pub open spec fn serves_windows(ts: Seq<Seq<char>>) -> bool {
    exists|i: int| 0 <= i < ts.len() && !has_infix(#[trigger] ts[i], "linux"@) && has_infix(ts[i], "windows"@)
}

/// The launch-script platforms of a target matrix, in order and without
/// repeats: `linux` for a target naming Linux, `windows` for one naming
/// Windows (and not Linux); other targets have none.
pub open spec fn target_platforms_spec(targets: Seq<Seq<char>>, host: Seq<char>) -> Seq<Seq<char>> {
    let ts = platform_sources(targets, host);
    (if serves_linux(ts) { seq!["linux"@] } else { Seq::empty() })
        + (if serves_windows(ts) { seq!["windows"@] } else { Seq::empty() })
}

/// The launch-script platforms of a target matrix; `host` is the runtime
/// target of the machine, used when no target is given.
pub fn target_platforms(targets: &[String], host: &str) -> (r: Vec<String>)
    ensures
        string_views(r@) == target_platforms_spec(string_views(targets@), host@),
{
    let mut linux = false;
    let mut windows = false;
    if targets.len() == 0 {
        if contains(host, "linux") {
            linux = true;
        } else if contains(host, "windows") {
            windows = true;
        }
        proof {
            let ts = platform_sources(string_views(targets@), host@);
            assert(ts =~= seq![host@]);
            if linux {
                assert(has_infix(ts[0], "linux"@));
            }
            if windows {
                assert(!has_infix(ts[0], "linux"@) && has_infix(ts[0], "windows"@));
            }
        }
    } else {
        let mut i: usize = 0;
        while i < targets.len()
            invariant
                i <= targets@.len(),
                linux == exists|k: int| 0 <= k < i && has_infix(#[trigger] string_views(targets@)[k], "linux"@),
                windows == exists|k: int| 0 <= k < i && !has_infix(#[trigger] string_views(targets@)[k], "linux"@)
                    && has_infix(string_views(targets@)[k], "windows"@),
            decreases targets@.len() - i,
        {
            let t = targets[i].as_str();
            assert(string_views(targets@)[i as int] == t@);
            if contains(t, "linux") {
                linux = true;
            } else if contains(t, "windows") {
                windows = true;
            }
            i = i + 1;
        }
        proof {
            assert(platform_sources(string_views(targets@), host@) == string_views(targets@));
        }
    }
    let mut r: Vec<String> = Vec::new();
    if linux {
        r.push(owned("linux"));
    }
    if windows {
        r.push(owned("windows"));
    }
    proof {
        assert(string_views(r@) =~= target_platforms_spec(string_views(targets@), host@));
    }
    r
}

/// The launch script of a platform: where it lies under the source's
/// `resources/vapor/shell-scripts`, and its installed file name.
pub open spec fn launch_script_spec(platform: Seq<char>) -> Option<(Seq<char>, Seq<char>)> {
    if platform == "linux"@ {
        Some(("linux/vapor-launch.sh"@, "vapor-launch.sh"@))
    } else if platform == "windows"@ {
        Some(("windows/vapor-launch.cmd"@, "vapor-launch.cmd"@))
    } else {
        None
    }
}

/// The launch script of a platform, or the error for a platform that has none.
pub fn launch_script_mapping(platform: &str) -> (r: Result<(&'static str, &'static str), String>)
    ensures
        match launch_script_spec(platform@) {
            Some((from, to)) => r matches Ok((a, b)) && a@ == from && b@ == to,
            None => r matches Err(e) && e@ == "no launch script mapping exists for platform '"@ + platform@ + "'"@,
        },
{
    if str_eq(platform, "linux") {
        Ok(("linux/vapor-launch.sh", "vapor-launch.sh"))
    } else if str_eq(platform, "windows") {
        Ok(("windows/vapor-launch.cmd", "vapor-launch.cmd"))
    } else {
        Err(concat3("no launch script mapping exists for platform '", platform, "'"))
    }
}

/// What `source status` suggests next.
pub open spec fn source_status_next_spec(source_open: bool, saved_sources: nat) -> Seq<char> {
    if source_open {
        "metadata"@
    } else if saved_sources == 0 {
        "source open /path/to/source"@
    } else {
        "source list"@
    }
}

/// What `source status` suggests next.
pub fn source_status_next(source_open: bool, saved_sources: usize) -> (r: &'static str)
    ensures
        r@ == source_status_next_spec(source_open, saved_sources as nat),
{
    if source_open {
        "metadata"
    } else if saved_sources == 0 {
        "source open /path/to/source"
    } else {
        "source list"
    }
}

/// What `source repair` suggests next: applying the repairs it found when it
/// only reported them, else the same as an inspection.
pub open spec fn source_repair_next_spec(source_open: bool, repairs: Option<nat>, write: bool, saved_sources: nat) -> Seq<char> {
    if source_open {
        if (repairs matches Some(n) && n > 0) && !write { "source repair --write"@ } else { "source status"@ }
    } else if saved_sources == 0 {
        "source open /path/to/source"@
    } else {
        "source list"@
    }
}

/// What `source repair` suggests next; `repairs` is the number of metadata
/// repairs found, when they could be inspected.
pub fn source_repair_next(source_open: bool, repairs: Option<usize>, write: bool, saved_sources: usize) -> (r: &'static str)
    ensures
        r@ == source_repair_next_spec(source_open, match repairs { Some(n) => Some(n as nat), None => None::<nat> }, write, saved_sources as nat),
{
    if source_open {
        let pending = match repairs {
            Some(n) => n > 0 && !write,
            None => false,
        };
        if pending { "source repair --write" } else { "source status" }
    } else if saved_sources == 0 {
        "source open /path/to/source"
    } else {
        "source list"
    }
}

/// What `content list` suggests next, given how many source artifacts the
/// open source holds (none open: `None`).
pub fn content_list_next(source_count: Option<usize>) -> (r: &'static str)
    ensures
        (source_count matches Some(n) && n > 0) ==> r@ == "content validate"@,
        !(source_count matches Some(n) && n > 0) ==> r@ == "source open /path/to/content-workspace"@,
{
    match source_count {
        Some(n) => if n > 0 { "content validate" } else { "source open /path/to/content-workspace" },
        None => "source open /path/to/content-workspace",
    }
}

/// The hint after `content download`: install the one artifact fetched, or
/// a packagepack in general.
pub open spec fn download_hint_spec(ids: Seq<Seq<char>>) -> Seq<char> {
    if ids.len() == 1 {
        "hint: install it with `content install "@ + ids[0] + "`"@
    } else {
        "hint: install a packagepack with `content install ARTIFACT_OR_WORKSHOP_ID`"@
    }
}

/// The hint after `content download` of the artifacts `ids`.
pub fn download_hint(ids: &[String]) -> (r: String)
    ensures
        r@ == download_hint_spec(string_views(ids@)),
{
    if ids.len() == 1 {
        concat3("hint: install it with `content install ", ids[0].as_str(), "`")
    } else {
        owned("hint: install a packagepack with `content install ARTIFACT_OR_WORKSHOP_ID`")
    }
}

/// The installed packagepacks `content deploy --select` tries to select, in
/// order: the deployed selector itself, then each installed artifact. The
/// first that selects wins; when none does, the selector's own error is
/// reported.
pub fn deploy_selection_candidates(target: &str, installed: &[String]) -> (r: Vec<String>)
    ensures
        string_views(r@) == seq![target@] + string_views(installed@),
{
    let mut r: Vec<String> = Vec::new();
    r.push(owned(target));
    let mut i: usize = 0;
    while i < installed.len()
        invariant
            i <= installed@.len(),
            string_views(r@) == seq![target@] + string_views(installed@).take(i as int),
        decreases installed@.len() - i,
    {
        let ghost before = r@;
        r.push(owned(installed[i].as_str()));
        proof {
            assert(string_views(r@) =~= string_views(before).push(installed@[i as int]@));
            assert(string_views(r@) =~= seq![target@] + string_views(installed@).take(i + 1));
        }
        i = i + 1;
    }
    proof {
        assert(string_views(installed@).take(installed@.len() as int) =~= string_views(installed@));
    }
    r
}


/// The lines `diagnostics status` prints.
pub open spec fn diagnostics_status_spec(
    local_logs: Seq<char>,
    latest_run: Option<Seq<char>>,
    capture_active: bool,
    auto_submit: Option<Seq<char>>,
    registry: Option<Seq<char>>,
    git: Option<(Seq<char>, Seq<char>)>,
) -> Seq<Seq<char>> {
    seq!["Diagnostics"@, ""@, "Status"@, "  Local logs: "@ + local_logs,
        match latest_run { Some(p) => "  Latest run: "@ + p, None => "  Latest run: none"@ },
        if capture_active { "  Automatic capture: active"@ } else { "  Automatic capture: off for this process"@ },
        match auto_submit { Some(m) => "  Automatic submit: "@ + m, None => "  Automatic submit: off"@ },
        match registry { Some(p) => "  Registry target: "@ + p, None => "  Registry target: not set"@ }]
    + match git {
        Some((path, source)) => seq!["  Git provider: "@ + path, "    source: "@ + source],
        None => seq!["  Git provider: not linked"@],
    }
    + seq![""@, "Next"@, "  diagnostics submit --registry /path/to/Vapor-Registry"@,
        "  diagnostics submit --registry /path/to/Vapor-Registry --push"@, "  provider git link /path/to/git"@]
}

/// The lines `diagnostics status` prints: where local logs live, the latest
/// run (the current one, else the last recorded), whether capture and
/// automatic submission are on, the registry target, and the Git provider
/// (its path and how it was found), then what to run next.
pub fn diagnostics_status_lines(
    local_logs: &str,
    latest_run: Option<&str>,
    capture_active: bool,
    auto_submit: Option<&str>,
    registry: Option<&str>,
    git: Option<(&str, &str)>,
) -> (r: Vec<String>)
    ensures
        string_views(r@) == diagnostics_status_spec(local_logs@,
            match latest_run { Some(s) => Some(s@), None => None::<Seq<char>> }, capture_active,
            match auto_submit { Some(s) => Some(s@), None => None::<Seq<char>> },
            match registry { Some(s) => Some(s@), None => None::<Seq<char>> },
            match git { Some((a, b)) => Some((a@, b@)), None => None::<(Seq<char>, Seq<char>)> }),
{
    let mut v: Vec<String> = Vec::new();
    v.push(owned("Diagnostics"));
    v.push(owned(""));
    v.push(owned("Status"));
    v.push(concat("  Local logs: ", local_logs));
    v.push(match latest_run { Some(p) => concat("  Latest run: ", p), None => owned("  Latest run: none") });
    v.push(if capture_active { owned("  Automatic capture: active") } else { owned("  Automatic capture: off for this process") });
    v.push(match auto_submit { Some(m) => concat("  Automatic submit: ", m), None => owned("  Automatic submit: off") });
    v.push(match registry { Some(p) => concat("  Registry target: ", p), None => owned("  Registry target: not set") });
    match git {
        Some((path, source)) => {
            v.push(concat("  Git provider: ", path));
            v.push(concat("    source: ", source));
        },
        None => v.push(owned("  Git provider: not linked")),
    }
    v.push(owned(""));
    v.push(owned("Next"));
    v.push(owned("  diagnostics submit --registry /path/to/Vapor-Registry"));
    v.push(owned("  diagnostics submit --registry /path/to/Vapor-Registry --push"));
    v.push(owned("  provider git link /path/to/git"));
    proof {
        assert(string_views(v@) =~= diagnostics_status_spec(local_logs@,
            match latest_run { Some(s) => Some(s@), None => None::<Seq<char>> }, capture_active,
            match auto_submit { Some(s) => Some(s@), None => None::<Seq<char>> },
            match registry { Some(s) => Some(s@), None => None::<Seq<char>> },
            match git { Some((a, b)) => Some((a@, b@)), None => None::<(Seq<char>, Seq<char>)> }));
    }
    v
}

/// The lines `diagnostics submit` prints.
pub open spec fn diagnostics_submit_spec(registry: Seq<char>, target: Seq<char>, logs: Seq<Seq<char>>, dry_run: bool, push: bool, committed: bool, pushed: bool) -> Seq<Seq<char>> {
    seq!["Diagnostics Submit"@, ""@, "Status"@, "  Registry: "@ + registry, "  Target: "@ + target,
        "  Logs: "@ + decimal(logs.len()) + (if dry_run { " (dry-run)"@ } else { Seq::empty() })]
    + logs.map_values(|l: Seq<char>| "    - "@ + l)
    + (if push {
        seq![if committed { "  Commit: created"@ } else { "  Commit: not needed"@ },
            if pushed { "  Push: complete"@ } else { "  Push: skipped"@ }]
    } else {
        seq!["  Push: skipped"@]
    })
    + (if dry_run {
        seq![""@, "Next"@, "  diagnostics submit --registry "@ + registry + (if push { " --push"@ } else { Seq::empty() })]
    } else {
        Seq::empty()
    })
}

/// The lines `diagnostics submit` prints: the registry and target, the logs
/// copied (or that a dry run would copy), the commit and push outcome when
/// pushing, and for a dry run the command that would do it.
pub fn diagnostics_submit_lines(registry: &str, target: &str, logs: &[String], dry_run: bool, push: bool, committed: bool, pushed: bool) -> (r: Vec<String>)
    requires
        logs@.len() <= u64::MAX,
    ensures
        string_views(r@) == diagnostics_submit_spec(registry@, target@, string_views(logs@), dry_run, push, committed, pushed),
{
    let mut v: Vec<String> = Vec::new();
    v.push(owned("Diagnostics Submit"));
    v.push(owned(""));
    v.push(owned("Status"));
    v.push(concat("  Registry: ", registry));
    v.push(concat("  Target: ", target));
    let mut count = concat("  Logs: ", decimal_string(logs.len() as u64).as_str());
    if dry_run {
        count.append(" (dry-run)");
    }
    v.push(count);
    let ghost head = string_views(v@);
    assert(head =~= seq!["Diagnostics Submit"@, ""@, "Status"@, "  Registry: "@ + registry@, "  Target: "@ + target@,
        "  Logs: "@ + decimal(logs@.len()) + (if dry_run { " (dry-run)"@ } else { Seq::<char>::empty() })]);
    let mut i: usize = 0;
    while i < logs.len()
        invariant
            i <= logs@.len(),
            string_views(v@) == head + string_views(logs@).take(i as int).map_values(|l: Seq<char>| "    - "@ + l),
        decreases logs@.len() - i,
    {
        let ghost before = v@;
        v.push(concat("    - ", logs[i].as_str()));
        proof {
            assert(string_views(v@) =~= string_views(before).push(v@.last()@));
            assert(string_views(logs@).take(i + 1).map_values(|l: Seq<char>| "    - "@ + l)
                =~= string_views(logs@).take(i as int).map_values(|l: Seq<char>| "    - "@ + l).push("    - "@ + logs@[i as int]@));
        }
        i = i + 1;
    }
    proof {
        assert(string_views(logs@).take(logs@.len() as int) =~= string_views(logs@));
    }
    let ghost mid = string_views(v@);
    if push {
        v.push(if committed { owned("  Commit: created") } else { owned("  Commit: not needed") });
        v.push(if pushed { owned("  Push: complete") } else { owned("  Push: skipped") });
    } else {
        v.push(owned("  Push: skipped"));
    }
    let ghost after_push = string_views(v@);
    assert(after_push =~= mid + (if push {
        seq![if committed { "  Commit: created"@ } else { "  Commit: not needed"@ },
            if pushed { "  Push: complete"@ } else { "  Push: skipped"@ }]
    } else {
        seq!["  Push: skipped"@]
    }));
    if dry_run {
        v.push(owned(""));
        v.push(owned("Next"));
        let mut next = concat("  diagnostics submit --registry ", registry);
        if push {
            next.append(" --push");
        }
        v.push(next);
    }
    proof {
        let tail = if dry_run {
            seq![""@, "Next"@, "  diagnostics submit --registry "@ + registry@ + (if push { " --push"@ } else { Seq::<char>::empty() })]
        } else {
            Seq::<Seq<char>>::empty()
        };
        assert(string_views(v@) =~= after_push + tail);
        assert(string_views(v@) =~= diagnostics_submit_spec(registry@, target@, string_views(logs@), dry_run, push, committed, pushed));
    }
    v
}


/// A command script can never end the host shell: every command a script
/// may run leaves the session running.
pub proof fn law_scripts_cannot_end_the_shell(c: ShellCommand)
    requires
        script_allowed(c),
    ensures
        (if c is Exit { Control::Exit } else { Control::Continue }) == Control::Continue,
{
}

/// A real release (not a dry run) only ever works on a matrix that holds
/// both a Linux and a Windows target.
pub proof fn law_real_release_has_full_matrix(declared: Seq<Seq<char>>, explicit: Seq<Seq<char>>, release_targets: bool, host_only: bool, command: Seq<char>)
    requires
        resolve_publish_spec(declared, explicit, release_targets, host_only, false, command) is Ok,
    ensures
        any_target_with(resolve_publish_spec(declared, explicit, release_targets, host_only, false, command)->Ok_0, "linux"@),
        any_target_with(resolve_publish_spec(declared, explicit, release_targets, host_only, false, command)->Ok_0, "windows"@),
{
}

proof fn lemma_no_problem_distinct(s: Seq<Seq<char>>)
    requires
        first_problem(s, command_target_problem()).is_none(),
    ensures
        forall|i: int, j: int| 0 <= i < j < s.len() ==> s[i] != s[j],
    decreases s.len(),
{
    if s.len() > 0 {
        let p = command_target_problem();
        assert(first_problem(s.drop_last(), p).is_none());
        lemma_no_problem_distinct(s.drop_last());
        assert(p(s.drop_last(), s.last()).is_none());
        assert(!s.drop_last().contains(s.last()));
        assert forall|i: int, j: int| 0 <= i < j < s.len() implies s[i] != s[j] by {
            if j == s.len() - 1 {
                assert(s.drop_last()[i] == s[i]);
            } else {
                assert(s.drop_last()[i] == s[i] && s.drop_last()[j] == s[j]);
            }
        }
    }
}

/// Explicit runtime targets that are accepted are pairwise distinct.
pub proof fn law_explicit_targets_distinct(declared: Seq<Seq<char>>, explicit: Seq<Seq<char>>, release_targets: bool, host_only: bool)
    requires
        explicit.len() > 0,
        resolve_targets_spec(declared, explicit, release_targets, host_only) is Ok,
    ensures
        forall|i: int, j: int| 0 <= i < j < explicit.len() ==> explicit[i] != explicit[j],
        resolve_targets_spec(declared, explicit, release_targets, host_only)->Ok_0 == explicit,
{
    lemma_no_problem_distinct(explicit);
}

} // verus!
