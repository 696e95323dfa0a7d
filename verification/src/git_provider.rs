//! The developer Git provider: where it is looked for and in which order
//! (`VAPOR_GIT`, the linked provider, `PATH`, common install locations),
//! how a candidate's health check decides, and where the linked provider is
//! recorded. Normal play never needs Git.

use vstd::prelude::*;
use crate::text::{owned, concat, concat3, string_views};
use crate::paths::{join, join_path};
use crate::discovery::InstallationPaths;

verus! {

/// Where a Git provider was resolved from.
#[derive(Debug, Clone, Copy, PartialEq, Eq, Structural)]
pub enum GitProviderSource {
    /// Explicit `VAPOR_GIT`.
    Environment,
    /// Persisted app-local provider state.
    Linked,
    /// Executable found through `PATH`.
    Path,
    /// Executable found in an OS-specific common location.
    CommonLocation,
}

/// Human-readable label of a provider source.
pub open spec fn source_label(s: GitProviderSource) -> Seq<char> {
    match s {
        GitProviderSource::Environment => "VAPOR_GIT"@,
        GitProviderSource::Linked => "linked provider"@,
        GitProviderSource::Path => "PATH"@,
        GitProviderSource::CommonLocation => "common location"@,
    }
}

impl GitProviderSource {
    /// Human-readable source label.
    pub fn label(self) -> (r: &'static str)
        ensures
            r@ == source_label(self),
    {
        match self {
            GitProviderSource::Environment => "VAPOR_GIT",
            GitProviderSource::Linked => "linked provider",
            GitProviderSource::Path => "PATH",
            GitProviderSource::CommonLocation => "common location",
        }
    }
}

/// A resolved developer Git provider.
#[derive(Debug, Clone)]
pub struct GitProvider {
    /// Git executable.
    pub path: String,
    /// Where it was resolved from.
    pub source: GitProviderSource,
}

impl GitProvider {
    /// Git executable path.
    pub fn path(&self) -> (r: &str)
        ensures
            r@ == self.path@,
    {
        self.path.as_str()
    }

    /// Where the provider was resolved from.
    pub fn source(&self) -> (r: GitProviderSource)
        ensures
            r == self.source,
    {
        self.source
    }
}

/// Where the linked provider is recorded: `<state>/providers/git.toml`.
pub fn config_path(installation: &InstallationPaths) -> (r: String)
    ensures
        r@ == join(join(join(installation@.root, ".vapor"@), "state"@), "providers/git.toml"@),
{
    let state = installation.state_dir();
    join_path(state.as_str(), "providers/git.toml")
}

/// The common install locations searched last.
pub open spec fn common_locations(windows: bool) -> Seq<Seq<char>> {
    if windows {
        seq![
            "C:\\Program Files\\Git\\cmd\\git.exe"@,
            "C:\\Program Files\\Git\\bin\\git.exe"@,
            "C:\\Program Files (x86)\\Git\\cmd\\git.exe"@,
            "C:\\Program Files (x86)\\Git\\bin\\git.exe"@,
        ]
    } else {
        seq!["/usr/bin/git"@, "/usr/local/bin/git"@, "/bin/git"@]
    }
}

/// The candidates tried in order: a non-empty `VAPOR_GIT` alone; else the
/// linked provider alone; else `git` in each `PATH` directory, then the
/// common install locations.
pub open spec fn candidates_spec(
    env_value: Option<Seq<char>>,
    linked: Option<Seq<char>>,
    path_dirs: Seq<Seq<char>>,
    exe: Seq<char>,
    windows: bool,
) -> Seq<(Seq<char>, GitProviderSource)> {
    match env_value {
        Some(v) if v.len() > 0 => seq![(v, GitProviderSource::Environment)],
        _ => match linked {
            Some(p) => seq![(p, GitProviderSource::Linked)],
            None => path_dirs.map_values(|d: Seq<char>| (join(d, "git"@ + exe), GitProviderSource::Path))
                + common_locations(windows).map_values(|c: Seq<char>| (c, GitProviderSource::CommonLocation)),
        },
    }
}

/// View of a candidate list.
pub open spec fn candidate_views(v: Seq<GitProvider>) -> Seq<(Seq<char>, GitProviderSource)> {
    v.map_values(|c: GitProvider| (c.path@, c.source))
}

fn push_candidate(v: &mut Vec<GitProvider>, path: String, source: GitProviderSource)
    ensures
        candidate_views(final(v)@) == candidate_views(old(v)@).push((path@, source)),
{
    v.push(GitProvider { path, source });
    assert(candidate_views(v@) =~= candidate_views(old(v)@).push((path@, source)));
}

/// The Git candidates to try, in order. `env_value` is `VAPOR_GIT`,
/// `linked` the recorded provider, `path_dirs` the `PATH` entries, `exe`
/// the executable suffix.
pub fn git_candidates(
    env_value: Option<&str>,
    linked: Option<&str>,
    path_dirs: &[String],
    exe: &str,
    windows: bool,
) -> (r: Vec<GitProvider>)
    ensures
        candidate_views(r@) == candidates_spec(
            match env_value { Some(v) => Some(v@), None => None::<Seq<char>> },
            match linked { Some(p) => Some(p@), None => None::<Seq<char>> },
            string_views(path_dirs@), exe@, windows),
{
    let mut r: Vec<GitProvider> = Vec::new();
    match env_value {
        Some(v) => {
            if v.unicode_len() > 0 {
                push_candidate(&mut r, owned(v), GitProviderSource::Environment);
                assert(candidate_views(r@) =~= seq![(v@, GitProviderSource::Environment)]);
                return r;
            }
        },
        None => {},
    }
    match linked {
        Some(p) => {
            push_candidate(&mut r, owned(p), GitProviderSource::Linked);
            assert(candidate_views(r@) =~= seq![(p@, GitProviderSource::Linked)]);
            return r;
        },
        None => {},
    }
    let name = concat("git", exe);
    let ghost dirs = string_views(path_dirs@);
    let mut i: usize = 0;
    while i < path_dirs.len()
        invariant
            i <= path_dirs@.len(),
            dirs == string_views(path_dirs@),
            name@ == "git"@ + exe@,
            candidate_views(r@) == dirs.take(i as int).map_values(|d: Seq<char>| (join(d, "git"@ + exe@), GitProviderSource::Path)),
        decreases path_dirs@.len() - i,
    {
        push_candidate(&mut r, join_path(path_dirs[i].as_str(), name.as_str()), GitProviderSource::Path);
        proof {
            assert(dirs[i as int] == path_dirs@[i as int]@);
            assert(dirs.take(i + 1).map_values(|d: Seq<char>| (join(d, "git"@ + exe@), GitProviderSource::Path))
                =~= dirs.take(i as int).map_values(|d: Seq<char>| (join(d, "git"@ + exe@), GitProviderSource::Path))
                    .push((join(dirs[i as int], "git"@ + exe@), GitProviderSource::Path)));
        }
        i = i + 1;
    }
    let ghost from_path = candidate_views(r@);
    proof {
        assert(dirs.take(dirs.len() as int) =~= dirs);
    }
    if windows {
        push_candidate(&mut r, owned("C:\\Program Files\\Git\\cmd\\git.exe"), GitProviderSource::CommonLocation);
        push_candidate(&mut r, owned("C:\\Program Files\\Git\\bin\\git.exe"), GitProviderSource::CommonLocation);
        push_candidate(&mut r, owned("C:\\Program Files (x86)\\Git\\cmd\\git.exe"), GitProviderSource::CommonLocation);
        push_candidate(&mut r, owned("C:\\Program Files (x86)\\Git\\bin\\git.exe"), GitProviderSource::CommonLocation);
    } else {
        push_candidate(&mut r, owned("/usr/bin/git"), GitProviderSource::CommonLocation);
        push_candidate(&mut r, owned("/usr/local/bin/git"), GitProviderSource::CommonLocation);
        push_candidate(&mut r, owned("/bin/git"), GitProviderSource::CommonLocation);
    }
    assert(candidate_views(r@) =~= from_path
        + common_locations(windows).map_values(|c: Seq<char>| (c, GitProviderSource::CommonLocation)));
    r
}

/// Outcome of a candidate's health check: it must be executable, start,
/// and exit successfully from `git --version`.
pub open spec fn health_spec(path: Seq<char>, executable: bool, run: Result<(bool, Seq<char>), Seq<char>>) -> Result<(), Seq<char>> {
    if !executable {
        Err("Git provider is not executable: "@ + path)
    } else {
        match run {
            Err(e) => Err("failed to start Git '"@ + path + "': "@ + e),
            Ok((success, status)) => if success {
                Ok(())
            } else {
                Err("Git provider '"@ + path + "' failed health check with "@ + status)
            },
        }
    }
}

/// The health check of one candidate, from whether it is an executable file
/// and what running `git --version` gave: whether it succeeded and its
/// exit status, or why it did not start (`run` is not consulted for a
/// non-executable candidate).
pub fn health_check(path: &str, executable: bool, run: Result<(bool, String), String>) -> (r: Result<(), String>)
    ensures
        match health_spec(path@, executable, match run { Ok((s, t)) => Ok((s, t@)), Err(e) => Err(e@) }) {
            Ok(()) => r is Ok,
            Err(m) => r matches Err(e) && e@ == m,
        },
{
    if !executable {
        return Err(concat("Git provider is not executable: ", path));
    }
    match run {
        Err(e) => {
            let mut m = concat3("failed to start Git '", path, "': ");
            m.append(e.as_str());
            Err(m)
        },
        Ok((success, status)) => {
            if success {
                Ok(())
            } else {
                let mut e = concat3("Git provider '", path, "' failed health check with ");
                e.append(status.as_str());
                Err(e)
            }
        },
    }
}

/// Whether a failed check of a candidate from this source ends the search
/// (an explicit or linked provider), rather than moving to the next one.
pub open spec fn decisive(source: GitProviderSource) -> bool {
    source == GitProviderSource::Environment || source == GitProviderSource::Linked
}

/// What a candidate's health check decides: a healthy candidate is the
/// provider; a failed explicit or linked one is the error; any other
/// failure moves on to the next candidate (`None`).
pub fn resolved(candidate: GitProvider, check: Result<(), String>) -> (r: Option<Result<GitProvider, String>>)
    ensures
        check is Ok ==> (r matches Some(Ok(p)) && p.path@ == candidate.path@ && p.source == candidate.source),
        match check {
            Err(e) => decisive(candidate.source) ==> (r matches Some(Err(m)) && m@ == e@),
            Ok(_) => true,
        },
        check is Err && !decisive(candidate.source) ==> r is None,
{
    match check {
        Ok(()) => Some(Ok(candidate)),
        Err(e) => {
            match candidate.source {
                GitProviderSource::Environment => Some(Err(e)),
                GitProviderSource::Linked => Some(Err(e)),
                _ => None,
            }
        },
    }
}

/// Message when no candidate yields a healthy Git.
pub fn not_linked() -> (r: String)
    ensures
        r@ == "developer Git provider is not linked\nhelp: run `provider git link /path/to/git` inside Vapor Shell, or set VAPOR_GIT=/path/to/git\nnote: normal Steam play does not require Git"@,
{
    owned("developer Git provider is not linked\nhelp: run `provider git link /path/to/git` inside Vapor Shell, or set VAPOR_GIT=/path/to/git\nnote: normal Steam play does not require Git")
}

/// The file a provider link records, from canonicalizing the given path:
/// the canonical path must be a file.
pub fn canonical_file(path: &str, label: &str, canonical: Result<String, String>, is_file: bool) -> (r: Result<String, String>)
    ensures
        match canonical {
            Err(e) => r matches Err(m) && m@ == "failed to resolve "@ + label@ + " '"@ + path@ + "': "@ + e@,
            Ok(c) => if is_file {
                r matches Ok(p) && p@ == c@
            } else {
                r matches Err(m) && m@ == label@ + " is not a file: "@ + c@
            },
        },
{
    match canonical {
        Err(e) => {
            let mut m = concat3("failed to resolve ", label, " '");
            m.append(path);
            m.append("': ");
            m.append(e.as_str());
            Err(m)
        },
        Ok(c) => {
            if is_file {
                Ok(c)
            } else {
                Err(concat3(label, " is not a file: ", c.as_str()))
            }
        },
    }
}

} // verus!
