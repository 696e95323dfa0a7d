//! Source-root policy: the identity a source root declares, its runtime target
//! matrix, the Cargo workspaces it governs (a root's direct Git submodules, or
//! the workspace itself), and the Vapor-managed projects a workspace
//! registers.

use vstd::prelude::*;
use crate::text::{string_views, strings_contain, str_eq, trim, trim_str, trim_start, trim_start_str, has_prefix, starts_with,
    lines, split_lines, concat, concat3, concat4, concat5, is_lower, is_digit, char_is_lower, char_is_digit};
use crate::paths::{is_safe_relative, is_safe_relative_path, last_component, last_segment, join, join_path};
use crate::manifest::{ContentKind, VaporEntity, kind_label};
use crate::content::{is_target_triple, is_runtime_target};
use crate::checks::{first_problem, lemma_first_problem_step, lemma_first_problem_prefix, lemma_first_problem_whole};

verus! {

/// Kind of source root.
#[derive(Debug, Clone, Copy, PartialEq, Eq, Structural)]
pub enum SourceRootKind {
    /// Vapor application source/depot root.
    Root,
    /// Normal source workspace.
    Workspace,
}

/// Canonical role of a registered workspace project.
#[derive(Debug, Clone, Copy, PartialEq, Eq, Structural)]
pub enum WorkspaceProjectKind {
    /// Non-content local project.
    Project,
    /// Content artifact project.
    Content(ContentKind),
}

/// Display label of a project role.
pub open spec fn project_kind_label(k: WorkspaceProjectKind) -> Seq<char> {
    match k {
        WorkspaceProjectKind::Project => "project"@,
        WorkspaceProjectKind::Content(c) => kind_label(c),
    }
}

impl WorkspaceProjectKind {
    /// The content kind when this project is a content artifact.
    /// The content kind of a content project.
    pub open spec fn content_kind_spec(self) -> Option<ContentKind> {
        match self {
            WorkspaceProjectKind::Project => None,
            WorkspaceProjectKind::Content(k) => Some(k),
        }
    }

    pub fn content_kind(self) -> (r: Option<ContentKind>)
        ensures
            r == (match self {
                WorkspaceProjectKind::Project => None::<ContentKind>,
                WorkspaceProjectKind::Content(k) => Some(k),
            }),
    {
        match self {
            WorkspaceProjectKind::Project => None,
            WorkspaceProjectKind::Content(k) => Some(k),
        }
    }

    /// Display label: `project`, or the content kind.
    pub fn label(self) -> (r: &'static str)
        ensures
            r@ == project_kind_label(self),
    {
        match self {
            WorkspaceProjectKind::Project => "project",
            WorkspaceProjectKind::Content(k) => k.label(),
        }
    }
}

/// One Cargo workspace that Vapor can route workflows through.
#[derive(Debug, Clone)]
pub struct CargoProject {
    /// Stable command-line project name.
    pub name: String,
    /// Cargo manifest path relative to the source root.
    pub manifest: String,
    /// Whether this project contributes installed Rustdoc.
    pub documentation: bool,
    /// Binary package names promoted into the installation after a root build.
    pub binaries: Vec<String>,
}

impl CargoProject {
    /// Stable command-line project name.
    pub fn name(&self) -> (r: &str)
        ensures
            r@ == self.name@,
    {
        self.name.as_str()
    }

    /// Cargo manifest path relative to the source root.
    pub fn manifest(&self) -> (r: &str)
        ensures
            r@ == self.manifest@,
    {
        self.manifest.as_str()
    }

    /// Whether this project contributes installed Rustdoc.
    pub fn documentation(&self) -> (r: bool)
        ensures
            r == self.documentation,
    {
        self.documentation
    }

    /// Binary package names promoted into the installation after a root build.
    pub fn binaries(&self) -> (r: &[String])
        ensures
            r@ == self.binaries@,
    {
        self.binaries.as_slice()
    }
}

/// One Vapor-managed child project registered by a workspace.
#[derive(Debug, Clone)]
pub struct WorkspaceProject {
    /// Project path relative to the source root.
    pub path: String,
    /// Project manifest path relative to the source root.
    pub manifest: String,
    /// Fully-qualified project or content ID.
    pub id: String,
    /// Local project name.
    pub name: String,
    /// Canonical project role.
    pub kind: WorkspaceProjectKind,
}

impl WorkspaceProject {
    /// Project path relative to the source root.
    pub fn path(&self) -> (r: &str)
        ensures
            r@ == self.path@,
    {
        self.path.as_str()
    }

    /// Project manifest path relative to the source root.
    pub fn manifest(&self) -> (r: &str)
        ensures
            r@ == self.manifest@,
    {
        self.manifest.as_str()
    }

    /// Fully-qualified project or content ID.
    pub fn id(&self) -> (r: &str)
        ensures
            r@ == self.id@,
    {
        self.id.as_str()
    }

    /// Local project name.
    pub fn name(&self) -> (r: &str)
        ensures
            r@ == self.name@,
    {
        self.name.as_str()
    }

    /// Canonical project role.
    pub fn kind(&self) -> (r: WorkspaceProjectKind)
        ensures
            r == self.kind,
    {
        self.kind
    }
}

/// Message for an unsafe source-relative path.
pub open spec fn msg_unsafe_path(p: Seq<char>) -> Seq<char> {
    "source path must be safe and relative: "@ + p
}

/// Require `path` to be a non-empty relative path without `..`.
pub fn validate_relative(path: &str) -> (r: Result<(), String>)
    ensures
        is_safe_relative(path@) ==> r is Ok,
        !is_safe_relative(path@) ==> (r matches Err(e) && e@ == msg_unsafe_path(path@)),
{
    if is_safe_relative_path(path) {
        Ok(())
    } else {
        Err(concat("source path must be safe and relative: ", path))
    }
}

/// The problem of one declared runtime target of the manifest at `path`.
pub open spec fn runtime_target_problem(path: Seq<char>) -> spec_fn(Seq<Seq<char>>, Seq<char>) -> Option<Seq<char>> {
    |before: Seq<Seq<char>>, t: Seq<char>|
        if !is_target_triple(t) {
            Some("runtime target must be a Rust target triple such as x86_64-pc-windows-gnullvm in '"@ + path + "': "@ + t)
        } else if before.contains(t) {
            Some("duplicate runtime target in '"@ + path + "': "@ + t)
        } else {
            None
        }
}

/// Require the runtime targets declared in the manifest at `path` to be
/// distinct target triples; they are kept as declared.
pub fn validate_runtime_targets(path: &str, targets: Vec<String>) -> (r: Result<Vec<String>, String>)
    ensures
        match first_problem(string_views(targets@), runtime_target_problem(path@)) {
            None => r matches Ok(v) && v@ == targets@,
            Some(m) => r matches Err(e) && e@ == m,
        },
{
    let ghost views = string_views(targets@);
    let ghost p = runtime_target_problem(path@);
    let mut i: usize = 0;
    while i < targets.len()
        invariant
            i <= targets@.len(),
            views == string_views(targets@),
            p == runtime_target_problem(path@),
            first_problem(views.take(i as int), p).is_none(),
        decreases targets@.len() - i,
    {
        proof {
            lemma_first_problem_step(views, p, i as int);
        }
        let t = targets[i].as_str();
        assert(views[i as int] == t@);
        if !is_runtime_target(t) {
            proof {
                lemma_first_problem_prefix(views, p, i + 1);
            }
            return Err(concat4("runtime target must be a Rust target triple such as x86_64-pc-windows-gnullvm in '", path, "': ", t));
        }
        if strings_contain(targets.as_slice(), i, t) {
            proof {
                lemma_first_problem_prefix(views, p, i + 1);
            }
            return Err(concat4("duplicate runtime target in '", path, "': ", t));
        }
        i = i + 1;
    }
    proof {
        lemma_first_problem_whole(views, p);
    }
    Ok(targets)
}

/// A name of lowercase ASCII letters, digits, and `-`.
pub open spec fn is_cargo_name(n: Seq<char>) -> bool {
    n.len() > 0 && forall|i: int| 0 <= i < n.len() ==> (is_lower(#[trigger] n[i]) || is_digit(n[i]) || n[i] == '-')
}

/// A binary name of lowercase ASCII letters, digits, `-`, and `_`.
pub open spec fn is_binary_name(n: Seq<char>) -> bool {
    n.len() > 0 && forall|i: int| 0 <= i < n.len() ==> (is_lower(#[trigger] n[i]) || is_digit(n[i]) || n[i] == '-' || n[i] == '_')
}

fn cargo_name_ok(n: &str, underscore: bool) -> (r: bool)
    ensures
        r == (if underscore { is_binary_name(n@) } else { is_cargo_name(n@) }),
{
    let len = n.unicode_len();
    if len == 0 {
        return false;
    }
    let mut i: usize = 0;
    while i < len
        invariant
            len == n@.len(),
            i <= len,
            forall|k: int| 0 <= k < i ==> (is_lower(#[trigger] n@[k]) || is_digit(n@[k]) || n@[k] == '-' || (underscore && n@[k] == '_')),
        decreases len - i,
    {
        let c = n.get_char(i);
        if !(char_is_lower(c) || char_is_digit(c) || c == '-' || (underscore && c == '_')) {
            return false;
        }
        i = i + 1;
    }
    true
}

/// Names of the Cargo projects.
pub open spec fn cargo_names(ps: Seq<CargoProject>) -> Seq<Seq<char>> {
    Seq::new(ps.len(), |i: int| ps[i].name@)
}

/// The problem of one Cargo workspace of a source root.
pub open spec fn cargo_project_problem() -> spec_fn(Seq<CargoProject>, CargoProject) -> Option<Seq<char>> {
    |before: Seq<CargoProject>, p: CargoProject|
        if !is_cargo_name(p.name@) {
            Some("invalid Cargo workspace name: "@ + p.name@)
        } else if cargo_names(before).contains(p.name@) {
            Some("duplicate Cargo workspace name: "@ + p.name@)
        } else if !is_safe_relative(p.manifest@) {
            Some(msg_unsafe_path(p.manifest@))
        } else {
            None
        }
}

fn cargo_name_taken(ps: &[CargoProject], upto: usize, name: &str) -> (r: bool)
    requires
        upto <= ps@.len(),
    ensures
        r == cargo_names(ps@.take(upto as int)).contains(name@),
{
    let ghost names = cargo_names(ps@.take(upto as int));
    let mut i: usize = 0;
    while i < upto
        invariant
            i <= upto <= ps@.len(),
            names == cargo_names(ps@.take(upto as int)),
            forall|k: int| 0 <= k < i ==> names[k] != name@,
        decreases upto - i,
    {
        if str_eq(ps[i].name.as_str(), name) {
            assert(names[i as int] == name@);
            return true;
        }
        i = i + 1;
    }
    false
}

/// Require Cargo workspace names to be valid and distinct, and their manifests
/// safe relative paths.
pub fn validate_projects(projects: &[CargoProject]) -> (r: Result<(), String>)
    ensures
        match first_problem(projects@, cargo_project_problem()) {
            None => r is Ok,
            Some(m) => r matches Err(e) && e@ == m,
        },
{
    let ghost p = cargo_project_problem();
    let mut i: usize = 0;
    while i < projects.len()
        invariant
            i <= projects@.len(),
            p == cargo_project_problem(),
            first_problem(projects@.take(i as int), p).is_none(),
        decreases projects@.len() - i,
    {
        proof {
            lemma_first_problem_step(projects@, p, i as int);
        }
        let project = &projects[i];
        if !cargo_name_ok(project.name.as_str(), false) {
            proof {
                lemma_first_problem_prefix(projects@, p, i + 1);
            }
            return Err(concat("invalid Cargo workspace name: ", project.name.as_str()));
        }
        if cargo_name_taken(projects, i, project.name.as_str()) {
            proof {
                lemma_first_problem_prefix(projects@, p, i + 1);
            }
            return Err(concat("duplicate Cargo workspace name: ", project.name.as_str()));
        }
        match validate_relative(project.manifest.as_str()) {
            Err(e) => {
                proof {
                    lemma_first_problem_prefix(projects@, p, i + 1);
                }
                return Err(e);
            },
            Ok(()) => {},
        }
        i = i + 1;
    }
    proof {
        lemma_first_problem_whole(projects@, p);
    }
    Ok(())
}

/// The problem of one registered workspace project.
pub open spec fn workspace_project_problem() -> spec_fn(Seq<WorkspaceProject>, WorkspaceProject) -> Option<Seq<char>> {
    |before: Seq<WorkspaceProject>, p: WorkspaceProject|
        if !is_safe_relative(p.path@) {
            Some(msg_unsafe_path(p.path@))
        } else if !is_safe_relative(p.manifest@) {
            Some(msg_unsafe_path(p.manifest@))
        } else if Seq::new(before.len(), |i: int| before[i].path@).contains(p.path@) {
            Some("duplicate workspace project path: "@ + p.path@)
        } else if Seq::new(before.len(), |i: int| before[i].id@).contains(p.id@) {
            Some("duplicate workspace project id: "@ + p.id@)
        } else {
            None
        }
}

fn project_field_taken(ps: &[WorkspaceProject], upto: usize, value: &str, by_path: bool) -> (r: bool)
    requires
        upto <= ps@.len(),
    ensures
        by_path ==> r == Seq::new(ps@.take(upto as int).len(), |i: int| ps@.take(upto as int)[i].path@).contains(value@),
        !by_path ==> r == Seq::new(ps@.take(upto as int).len(), |i: int| ps@.take(upto as int)[i].id@).contains(value@),
{
    let ghost before = ps@.take(upto as int);
    let ghost paths = Seq::new(before.len(), |i: int| before[i].path@);
    let ghost ids = Seq::new(before.len(), |i: int| before[i].id@);
    let mut i: usize = 0;
    while i < upto
        invariant
            i <= upto <= ps@.len(),
            before == ps@.take(upto as int),
            paths == Seq::new(before.len(), |i: int| before[i].path@),
            ids == Seq::new(before.len(), |i: int| before[i].id@),
            by_path ==> forall|k: int| 0 <= k < i ==> paths[k] != value@,
            !by_path ==> forall|k: int| 0 <= k < i ==> ids[k] != value@,
        decreases upto - i,
    {
        let field = if by_path { ps[i].path.as_str() } else { ps[i].id.as_str() };
        if str_eq(field, value) {
            if by_path {
                assert(paths[i as int] == value@);
            } else {
                assert(ids[i as int] == value@);
            }
            return true;
        }
        i = i + 1;
    }
    false
}

/// Require registered workspace projects to have safe relative paths and
/// manifests, and distinct paths and IDs.
pub fn validate_workspace_projects(projects: &[WorkspaceProject]) -> (r: Result<(), String>)
    ensures
        match first_problem(projects@, workspace_project_problem()) {
            None => r is Ok,
            Some(m) => r matches Err(e) && e@ == m,
        },
{
    let ghost p = workspace_project_problem();
    let mut i: usize = 0;
    while i < projects.len()
        invariant
            i <= projects@.len(),
            p == workspace_project_problem(),
            first_problem(projects@.take(i as int), p).is_none(),
        decreases projects@.len() - i,
    {
        proof {
            lemma_first_problem_step(projects@, p, i as int);
        }
        let project = &projects[i];
        let checked = validate_relative(project.path.as_str());
        if checked.is_err() {
            proof {
                lemma_first_problem_prefix(projects@, p, i + 1);
            }
            return checked;
        }
        let checked = validate_relative(project.manifest.as_str());
        if checked.is_err() {
            proof {
                lemma_first_problem_prefix(projects@, p, i + 1);
            }
            return checked;
        }
        if project_field_taken(projects, i, project.path.as_str(), true) {
            proof {
                lemma_first_problem_prefix(projects@, p, i + 1);
            }
            return Err(concat("duplicate workspace project path: ", project.path.as_str()));
        }
        if project_field_taken(projects, i, project.id.as_str(), false) {
            proof {
                lemma_first_problem_prefix(projects@, p, i + 1);
            }
            return Err(concat("duplicate workspace project id: ", project.id.as_str()));
        }
        i = i + 1;
    }
    proof {
        lemma_first_problem_whole(projects@, p);
    }
    Ok(())
}

/// The problem of one declared binary name of the manifest at `marker`.
pub open spec fn binary_name_problem(marker: Seq<char>) -> spec_fn(Seq<Seq<char>>, Seq<char>) -> Option<Seq<char>> {
    |before: Seq<Seq<char>>, n: Seq<char>|
        if !is_binary_name(n) {
            Some("workspace binary names in '"@ + marker + "' must be non-empty lowercase ASCII names"@)
        } else if before.contains(n) {
            Some("duplicate workspace binary '"@ + n + "' in '"@ + marker + "'"@)
        } else {
            None
        }
}

/// Require the binaries a workspace manifest at `marker` promotes to have
/// distinct lowercase names.
pub fn validate_binary_names(names: &[String], marker: &str) -> (r: Result<(), String>)
    ensures
        match first_problem(string_views(names@), binary_name_problem(marker@)) {
            None => r is Ok,
            Some(m) => r matches Err(e) && e@ == m,
        },
{
    let ghost views = string_views(names@);
    let ghost p = binary_name_problem(marker@);
    let mut i: usize = 0;
    while i < names.len()
        invariant
            i <= names@.len(),
            views == string_views(names@),
            p == binary_name_problem(marker@),
            first_problem(views.take(i as int), p).is_none(),
        decreases names@.len() - i,
    {
        proof {
            lemma_first_problem_step(views, p, i as int);
        }
        let n = names[i].as_str();
        assert(views[i as int] == n@);
        if !cargo_name_ok(n, true) {
            proof {
                lemma_first_problem_prefix(views, p, i + 1);
            }
            return Err(concat3("workspace binary names in '", marker, "' must be non-empty lowercase ASCII names"));
        }
        if strings_contain(names, i, n) {
            proof {
                lemma_first_problem_prefix(views, p, i + 1);
            }
            return Err(concat5("duplicate workspace binary '", n, "' in '", marker, "'"));
        }
        i = i + 1;
    }
    proof {
        lemma_first_problem_whole(views, p);
    }
    Ok(())
}

/// The path a `.gitmodules` line declares: `path`, optional whitespace, `=`,
/// then the trimmed rest, on the trimmed line.
pub open spec fn submodule_line_path(line: Seq<char>) -> Option<Seq<char>> {
    let t = trim(line);
    if has_prefix(t, "path"@) {
        let tail = trim_start(t.subrange(4, t.len() as int));
        if has_prefix(tail, "="@) {
            Some(trim(tail.subrange(1, tail.len() as int)))
        } else {
            None
        }
    } else {
        None
    }
}

/// The submodule paths that `.gitmodules` lines declare, in order.
pub open spec fn submodule_paths_of(ls: Seq<Seq<char>>) -> Seq<Seq<char>>
    decreases ls.len(),
{
    if ls.len() == 0 {
        Seq::empty()
    } else {
        match submodule_line_path(ls.last()) {
            Some(p) => submodule_paths_of(ls.drop_last()).push(p),
            None => submodule_paths_of(ls.drop_last()),
        }
    }
}

/// The first unsafe path of `ps`, or -1.
pub open spec fn first_unsafe(ps: Seq<Seq<char>>) -> int
    decreases ps.len(),
{
    if ps.len() == 0 {
        -1
    } else if first_unsafe(ps.drop_last()) >= 0 {
        first_unsafe(ps.drop_last())
    } else if !is_safe_relative(ps.last()) {
        ps.len() - 1
    } else {
        -1
    }
}

fn submodule_path(line: &str) -> (r: Option<&str>)
    ensures
        match submodule_line_path(line@) {
            Some(p) => r matches Some(s) && s@ == p,
            None => r.is_none(),
        },
{
    let t = trim_str(line);
    if !starts_with(t, "path") {
        return None;
    }
    proof {
        reveal_strlit("path");
    }
    let tail = trim_start_str(t.substring_char(4, t.unicode_len()));
    if !starts_with(tail, "=") {
        return None;
    }
    proof {
        reveal_strlit("=");
    }
    Some(trim_str(tail.substring_char(1, tail.unicode_len())))
}

/// The submodule paths declared by the text of a `.gitmodules` file, each
/// required to be a safe relative path.
pub fn submodule_paths(text: &str) -> (r: Result<Vec<String>, String>)
    ensures
        ({
            let ps = submodule_paths_of(lines(text@));
            if first_unsafe(ps) >= 0 {
                r matches Err(e) && e@ == msg_unsafe_path(ps[first_unsafe(ps)])
            } else {
                r matches Ok(v) && string_views(v@) == ps
            }
        }),
{
    let ls = split_lines(text);
    let ghost lv = lines(text@);
    assert(string_views(ls@) =~= lv);
    let mut out: Vec<String> = Vec::new();
    let mut i: usize = 0;
    while i < ls.len()
        invariant
            i <= ls@.len(),
            lv == lines(text@),
            string_views(ls@) == lv,
            string_views(out@) == submodule_paths_of(lv.take(i as int)),
            first_unsafe(submodule_paths_of(lv.take(i as int))) < 0,
        decreases ls@.len() - i,
    {
        assert(lv.take(i + 1).drop_last() =~= lv.take(i as int));
        assert(lv.take(i + 1).last() == lv[i as int]);
        assert(lv[i as int] == ls@[i as int]@);
        match submodule_path(ls[i].as_str()) {
            Some(p) => {
                let ghost before = string_views(out@);
                if !is_safe_relative_path(p) {
                    proof {
                        let ps = submodule_paths_of(lv.take(i + 1));
                        assert(ps == before.push(p@));
                        assert(ps.drop_last() =~= before);
                        assert(first_unsafe(ps) == ps.len() - 1);
                        lemma_unsafe_prefix(lv, i + 1);
                    }
                    return Err(concat("source path must be safe and relative: ", p));
                }
                out.push(p.to_owned());
                proof {
                    assert(string_views(out@) =~= before.push(p@));
                    assert(before.push(p@).drop_last() =~= before);
                }
            },
            None => {},
        }
        i = i + 1;
    }
    proof {
        assert(lv.take(lv.len() as int) =~= lv);
    }
    Ok(out)
}

proof fn lemma_unsafe_prefix(ls: Seq<Seq<char>>, k: int)
    requires
        0 <= k <= ls.len(),
        first_unsafe(submodule_paths_of(ls.take(k))) >= 0,
    ensures
        first_unsafe(submodule_paths_of(ls)) == first_unsafe(submodule_paths_of(ls.take(k))),
        submodule_paths_of(ls)[first_unsafe(submodule_paths_of(ls))] == submodule_paths_of(ls.take(k))[first_unsafe(submodule_paths_of(ls.take(k)))],
    decreases ls.len(),
{
    if k == ls.len() {
        assert(ls.take(k) =~= ls);
    } else {
        assert(ls.drop_last().take(k) =~= ls.take(k));
        lemma_unsafe_prefix(ls.drop_last(), k);
        lemma_paths_prefix(ls.drop_last(), submodule_line_path(ls.last()));
    }
}

proof fn lemma_paths_prefix(ls: Seq<Seq<char>>, extra: Option<Seq<char>>)
    requires
        first_unsafe(submodule_paths_of(ls)) >= 0,
    ensures
        ({
            let ps = submodule_paths_of(ls);
            let qs = match extra {
                Some(p) => ps.push(p),
                None => ps,
            };
            first_unsafe(qs) == first_unsafe(ps) && qs[first_unsafe(qs)] == ps[first_unsafe(ps)]
        }),
{
    let ps = submodule_paths_of(ls);
    match extra {
        Some(p) => {
            assert(ps.push(p).drop_last() =~= ps);
            lemma_first_unsafe_bounds(ps);
        },
        None => {},
    }
}

proof fn lemma_first_unsafe_bounds(ps: Seq<Seq<char>>)
    ensures
        -1 <= first_unsafe(ps) < ps.len(),
    decreases ps.len(),
{
    if ps.len() > 0 {
        lemma_first_unsafe_bounds(ps.drop_last());
    }
}

/// Source-root configuration and its governed Cargo workspaces.
#[derive(Debug, Clone)]
pub struct WorkspaceManifest {
    /// Source root kind.
    pub kind: SourceRootKind,
    /// Inferred source-root identifier.
    pub id: String,
    /// Local source-root name.
    pub name: String,
    /// Owning organization namespace.
    pub organization: String,
    /// Declared release/runtime target matrix.
    pub runtime_targets: Vec<String>,
    /// Cargo workspaces governed by the source root.
    pub cargo: Vec<CargoProject>,
    /// Vapor-managed child projects registered by the source root.
    pub projects: Vec<WorkspaceProject>,
}

impl WorkspaceManifest {
    /// Source root kind.
    pub fn kind(&self) -> (r: SourceRootKind)
        ensures
            r == self.kind,
    {
        self.kind
    }

    /// Inferred source-root identifier.
    pub fn id(&self) -> (r: &str)
        ensures
            r@ == self.id@,
    {
        self.id.as_str()
    }

    /// Local source-root name.
    pub fn name(&self) -> (r: &str)
        ensures
            r@ == self.name@,
    {
        self.name.as_str()
    }

    /// Owning organization namespace.
    pub fn organization(&self) -> (r: &str)
        ensures
            r@ == self.organization@,
    {
        self.organization.as_str()
    }

    /// Declared release/runtime target matrix for this source root.
    pub fn runtime_targets(&self) -> (r: &[String])
        ensures
            r@ == self.runtime_targets@,
    {
        self.runtime_targets.as_slice()
    }

    /// Cargo workspaces governed by this source root.
    pub fn cargo_projects(&self) -> (r: &[CargoProject])
        ensures
            r@ == self.cargo@,
    {
        self.cargo.as_slice()
    }

    /// Vapor-managed child projects registered by this source root.
    pub fn projects(&self) -> (r: &[WorkspaceProject])
        ensures
            r@ == self.projects@,
    {
        self.projects.as_slice()
    }
}

/// The kind and identity a source-root manifest declares, or why it is not a
/// source root.
pub open spec fn source_root_of(e: VaporEntity) -> Result<(SourceRootKind, Seq<char>, Seq<char>, Seq<char>), Seq<char>> {
    match e {
        VaporEntity::Root { id, name, organization } => Ok((SourceRootKind::Root, id@, name@, organization@)),
        VaporEntity::Workspace { id, name, organization } => Ok((SourceRootKind::Workspace, id@, name@, organization@)),
        VaporEntity::Registry { id, .. } => Err("registry '"@ + id@ + "' is not a buildable source root"@),
        VaporEntity::Content { kind, id, .. } => Err(kind_label(kind) + " '"@ + id@ + "' is not a source root"@),
    }
}

/// The kind and identity (ID, name, organization) a source-root manifest declares.
pub fn source_root_identity(entity: &VaporEntity) -> (r: Result<(SourceRootKind, String, String, String), String>)
    ensures
        match source_root_of(*entity) {
            Ok((k, i, n, o)) => r matches Ok((k2, i2, n2, o2)) && k2 == k && i2@ == i && n2@ == n && o2@ == o,
            Err(m) => r matches Err(e) && e@ == m,
        },
{
    match entity {
        VaporEntity::Root { id, name, organization } => Ok((SourceRootKind::Root, id.clone(), name.clone(), organization.clone())),
        VaporEntity::Workspace { id, name, organization } => Ok((SourceRootKind::Workspace, id.clone(), name.clone(), organization.clone())),
        VaporEntity::Registry { id, .. } => Err(concat3("registry '", id.as_str(), "' is not a buildable source root")),
        VaporEntity::Content { kind, id, .. } => Err(concat4(kind.label(), " '", id.as_str(), "' is not a source root")),
    }
}

/// Message for a source identity that changed between discovery and loading.
pub open spec fn msg_identity_changed(discovered: Seq<char>, loaded: Seq<char>) -> Seq<char> {
    "source identity changed during startup: discovered '"@ + discovered + "' but loaded '"@ + loaded + "'"@
}

impl WorkspaceManifest {
    /// Load and validate source-root policy from what the source root holds:
    /// the entity its manifest declares, the ID startup discovery found, the
    /// runtime targets its manifest declares, its Cargo workspaces, and (for a
    /// workspace) its registered projects. Checks run in that order and the
    /// first failure is the error.
    pub fn load(
    entity: &VaporEntity,
    discovered_id: &str,
    runtime_targets: Result<Vec<String>, String>,
    cargo: Result<Vec<CargoProject>, String>,
    projects: Result<Vec<WorkspaceProject>, String>,
) -> (r: Result<WorkspaceManifest, String>)
    ensures
        match source_root_of(*entity) {
            Err(m) => r matches Err(e) && e@ == m,
            Ok((kind, id, name, organization)) => if id != discovered_id@ {
                r matches Err(e) && e@ == msg_identity_changed(discovered_id@, id)
            } else {
                match runtime_targets {
                    Err(m) => r matches Err(e) && e@ == m@,
                    Ok(t) => match cargo {
                        Err(m) => r matches Err(e) && e@ == m@,
                        Ok(c) => match first_problem(c@, cargo_project_problem()) {
                            Some(m) => r matches Err(e) && e@ == m,
                            None => if kind == SourceRootKind::Root {
                                r matches Ok(w) && w.kind == kind && w.id@ == id && w.name@ == name && w.organization@ == organization
                                    && w.runtime_targets@ == t@ && w.cargo@ == c@ && w.projects@.len() == 0
                            } else {
                                match projects {
                                    Err(m) => r matches Err(e) && e@ == m@,
                                    Ok(p) => match first_problem(p@, workspace_project_problem()) {
                                        Some(m) => r matches Err(e) && e@ == m,
                                        None => r matches Ok(w) && w.kind == kind && w.id@ == id && w.name@ == name
                                            && w.organization@ == organization && w.runtime_targets@ == t@ && w.cargo@ == c@
                                            && w.projects@ == p@,
                                    },
                                }
                            },
                        },
                    },
                }
            },
        },
{
    let (kind, id, name, organization) = source_root_identity(entity)?;
    if !str_eq(id.as_str(), discovered_id) {
        return Err(concat5("source identity changed during startup: discovered '", discovered_id, "' but loaded '", id.as_str(), "'"));
    }
    let runtime_targets = runtime_targets?;
    let cargo = cargo?;
    validate_projects(cargo.as_slice())?;
    let projects = match kind {
        SourceRootKind::Root => Vec::new(),
        SourceRootKind::Workspace => {
            let projects = projects?;
            validate_workspace_projects(projects.as_slice())?;
            projects
        },
    };
    Ok(WorkspaceManifest { kind, id, name, organization, runtime_targets, cargo, projects })
}
}

/// Message for a Vapor workspace that is not also a Cargo workspace.
pub open spec fn msg_not_cargo_workspace(root: Seq<char>) -> Seq<char> {
    "Vapor workspace '"@ + root + "' must also be a Cargo workspace with '"@ + join(root, "Cargo.toml"@) + "'"@
}

/// The Cargo workspace of a `[workspace]` source root: the root itself, named
/// after the workspace, when its `Cargo.toml` exists.
pub fn workspace_cargo(root: &str, name: &str, cargo_manifest_exists: bool, binaries: Result<Vec<String>, String>) -> (r: Result<Vec<CargoProject>, String>)
    ensures
        !cargo_manifest_exists ==> (r matches Err(e) && e@ == msg_not_cargo_workspace(root@)),
        cargo_manifest_exists ==> match binaries {
            Err(m) => r matches Err(e) && e@ == m@,
            Ok(b) => r matches Ok(v) && v@.len() == 1 && v@[0].name@ == name@ && v@[0].manifest@ == "Cargo.toml"@
                && v@[0].documentation && v@[0].binaries@ == b@,
        },
{
    if !cargo_manifest_exists {
        let absolute = join_path(root, "Cargo.toml");
        return Err(concat5("Vapor workspace '", root, "' must also be a Cargo workspace with '", absolute.as_str(), "'"));
    }
    let binaries = binaries?;
    let mut v: Vec<CargoProject> = Vec::new();
    v.push(CargoProject { name: name.to_owned(), manifest: "Cargo.toml".to_owned(), documentation: true, binaries });
    Ok(v)
}

/// The binaries a workspace manifest at `marker` promotes, once validated.
pub fn workspace_binaries(names: Vec<String>, marker: &str) -> (r: Result<Vec<String>, String>)
    ensures
        match first_problem(string_views(names@), binary_name_problem(marker@)) {
            None => r matches Ok(v) && v@ == names@,
            Some(m) => r matches Err(e) && e@ == m,
        },
{
    validate_binary_names(names.as_slice(), marker)?;
    Ok(names)
}

/// The word for what a non-workspace entity declares.
pub open spec fn entity_word(e: VaporEntity) -> Seq<char> {
    match e {
        VaporEntity::Root { .. } => "nested root"@,
        VaporEntity::Registry { .. } => "registry"@,
        VaporEntity::Workspace { .. } => "workspace"@,
        VaporEntity::Content { kind, .. } => kind_label(kind),
    }
}

/// The Cargo workspace that a root's submodule at `path` provides: named by
/// the `[workspace]` its manifest declares when it has one, else by the
/// lowercased final path segment.
pub fn root_cargo_project(
    path: &str,
    marker: Option<Result<VaporEntity, String>>,
    binaries: Result<Vec<String>, String>,
) -> (r: Result<CargoProject, String>)
    ensures
        match marker {
            Some(Err(m)) => r matches Err(e) && e@ == m@,
            Some(Ok(VaporEntity::Workspace { name, .. })) => match binaries {
                Err(m) => r matches Err(e) && e@ == m@,
                Ok(b) => r matches Ok(p) && p.name@ == name@ && p.manifest@ == join(path@, "Cargo.toml"@)
                    && p.documentation && p.binaries@ == b@,
            },
            Some(Ok(other)) => r matches Err(e) && e@ == "root submodule '"@ + path@ + "' declares "@ + entity_word(other)
                + " '"@ + crate::manifest::entity_id(other) + "'; direct app children must be [workspace]"@,
            None => if last_component(path@).len() == 0 {
                r matches Err(e) && e@ == "invalid submodule path '"@ + path@ + "'"@
            } else {
                r matches Ok(p) && p.name@ == crate::text::ascii_lowercase(last_component(path@))
                    && p.manifest@ == join(path@, "Cargo.toml"@) && p.documentation && p.binaries@.len() == 0
            },
        },
{
    let manifest = join_path(path, "Cargo.toml");
    match marker {
        Some(Err(e)) => Err(e),
        Some(Ok(entity)) => {
            let name = match &entity {
                VaporEntity::Workspace { name, .. } => name.clone(),
                VaporEntity::Root { id, .. } => {
                    let head = concat4("root submodule '", path, "' declares ", "nested root");
                    return Err(concat4(head.as_str(), " '", id.as_str(), "'; direct app children must be [workspace]"));
                },
                VaporEntity::Registry { id, .. } => {
                    let head = concat4("root submodule '", path, "' declares ", "registry");
                    return Err(concat4(head.as_str(), " '", id.as_str(), "'; direct app children must be [workspace]"));
                },
                VaporEntity::Content { kind, id, .. } => {
                    let head = concat4("root submodule '", path, "' declares ", kind.label());
                    return Err(concat4(head.as_str(), " '", id.as_str(), "'; direct app children must be [workspace]"));
                },
            };
            let binaries = binaries?;
            Ok(CargoProject { name, manifest, documentation: true, binaries })
        },
        None => {
            let last = last_segment(path);
            if last.unicode_len() == 0 {
                return Err(concat3("invalid submodule path '", path, "'"));
            }
            Ok(CargoProject { name: crate::text::to_ascii_lowercase(last), manifest, documentation: true, binaries: Vec::new() })
        },
    }
}

/// A workspace project registered at `path`, given whether it is a directory,
/// the content manifest found there (relative to the source root), and the
/// entity that manifest declares.
pub fn load_workspace_project(
    path: &str,
    is_dir: bool,
    manifest: Option<String>,
    entity: Result<VaporEntity, String>,
) -> (r: Result<WorkspaceProject, String>)
    ensures
        !is_safe_relative(path@) ==> (r matches Err(e) && e@ == msg_unsafe_path(path@)),
        is_safe_relative(path@) && !is_dir ==> (r matches Err(e) && e@ == "registered workspace project '"@ + path@ + "' is not a directory"@),
        is_safe_relative(path@) && is_dir && manifest.is_none() ==> (r matches Err(e)
            && e@ == "registered workspace project '"@ + path@ + "' is missing its content manifest"@),
        is_safe_relative(path@) && is_dir && manifest.is_some() ==> match entity {
            Err(m) => r matches Err(e) && e@ == m@,
            Ok(VaporEntity::Content { kind, id, name }) => r matches Ok(p) && p.path@ == path@ && p.manifest == manifest.unwrap()
                && p.id@ == id@ && p.name@ == name@ && p.kind == WorkspaceProjectKind::Content(kind),
            Ok(other) => r matches Err(e) && e@ == "registered workspace project '"@ + path@ + "' declares "@
                + entity_word(other) + " '"@ + crate::manifest::entity_id(other) + "'; workspace projects must use a content section"@,
        },
{
    validate_relative(path)?;
    if !is_dir {
        return Err(concat3("registered workspace project '", path, "' is not a directory"));
    }
    let manifest = match manifest {
        Some(m) => m,
        None => {
            return Err(concat3("registered workspace project '", path, "' is missing its content manifest"));
        },
    };
    match entity {
        Err(e) => Err(e),
        Ok(VaporEntity::Content { kind, id, name }) => Ok(WorkspaceProject {
            path: path.to_owned(),
            manifest,
            id,
            name,
            kind: WorkspaceProjectKind::Content(kind),
        }),
        Ok(other) => {
            let word = match &other {
                VaporEntity::Root { .. } => "nested root",
                VaporEntity::Registry { .. } => "registry",
                VaporEntity::Workspace { .. } => "workspace",
                VaporEntity::Content { kind, .. } => kind.label(),
            };
            let head = concat4("registered workspace project '", path, "' declares ", word);
            Err(concat4(head.as_str(), " '", other.id(), "'; workspace projects must use a content section"))
        },
    }
}

} // verus!
