//! Authored content manifests as the source tree declares them, and the
//! catalog of content artifacts discovered from a workspace's registered
//! projects: versions inherited from the workspace, composition references
//! turned into dependencies, and artifacts ordered by ID.

use vstd::prelude::*;
use crate::text::{owned, concat, concat3, concat4, concat5, string_views, text_lt, text_order, Order, lemma_text_lt_order, lemma_text_lt_transitive};
use crate::paths::{join, join_path, parent, parent_path};
use crate::manifest::{ContentKind, VaporEntity, kind_label};
use crate::content::{ContentArtifact, ContentCatalog, ContentReference, WorkshopPolicy, copy_optional};
use crate::workspace::{WorkspaceManifest, WorkspaceProject};

verus! {

/// How a content manifest declares its version.
#[derive(Debug, Clone)]
pub enum AuthoredVersion {
    /// An exact version.
    Exact(String),
    /// `version.workspace = true` inherits the workspace's; `false` declares none.
    Workspace { workspace: bool },
    /// No version key.
    Missing,
}

/// The version an artifact ends up with.
pub open spec fn resolved_version(v: AuthoredVersion, workspace_version: Option<Seq<char>>) -> Option<Seq<char>> {
    match v {
        AuthoredVersion::Exact(s) => Some(s@),
        AuthoredVersion::Workspace { workspace } => if workspace { workspace_version } else { None },
        AuthoredVersion::Missing => None,
    }
}

impl AuthoredVersion {
    /// The version an artifact ends up with: the exact one, the workspace's
    /// when inherited, else none.
    pub fn resolve(&self, workspace_version: Option<&str>) -> (r: Option<String>)
        ensures
            match resolved_version(*self, match workspace_version { Some(w) => Some(w@), None => None::<Seq<char>> }) {
                Some(v) => r matches Some(s) && s@ == v,
                None => r is None,
            },
    {
        match self {
            AuthoredVersion::Exact(v) => Some(v.clone()),
            AuthoredVersion::Workspace { workspace } => {
                if *workspace {
                    match workspace_version {
                        Some(w) => Some(owned(w)),
                        None => None,
                    }
                } else {
                    None
                }
            },
            AuthoredVersion::Missing => None,
        }
    }
}

/// A composition reference (`engine`, `enginepack`, `game`, `gamepack`).
#[derive(Debug, Clone)]
pub struct AuthoredReference {
    /// Referenced artifact ID.
    pub id: String,
    /// Whether the reference may be missing.
    pub optional: bool,
    /// Required version expression.
    pub version: Option<String>,
    /// Referenced Workshop item.
    pub workshop_id: Option<String>,
    /// Human-readable reason.
    pub reason: Option<String>,
}

/// View of a content reference: ID, relationship, optional, version,
/// Workshop ID, reason.
pub open spec fn reference_view(r: ContentReference) -> (Seq<char>, Seq<char>, bool, Option<Seq<char>>, Option<Seq<char>>, Option<Seq<char>>) {
    (r.id@, r.relationship@, r.optional, crate::manifest::opt_view(r.version), crate::manifest::opt_view(r.workshop_id), crate::manifest::opt_view(r.reason))
}

/// The dependency a composition reference stands for.
pub open spec fn composition_view(a: AuthoredReference, relationship: Seq<char>, default_optional: bool) -> (Seq<char>, Seq<char>, bool, Option<Seq<char>>, Option<Seq<char>>, Option<Seq<char>>) {
    (a.id@, relationship, a.optional || default_optional, crate::manifest::opt_view(a.version), crate::manifest::opt_view(a.workshop_id), crate::manifest::opt_view(a.reason))
}

impl AuthoredReference {
    /// The dependency this reference stands for, under `relationship`.
    pub fn to_content_reference(&self, relationship: &str, default_optional: bool) -> (r: ContentReference)
        ensures
            reference_view(r) == composition_view(*self, relationship@, default_optional),
    {
        ContentReference {
            id: self.id.clone(),
            relationship: owned(relationship),
            optional: self.optional || default_optional,
            version: copy_optional(&self.version),
            workshop_id: copy_optional(&self.workshop_id),
            reason: copy_optional(&self.reason),
        }
    }
}

/// One content section of an authored manifest.
#[derive(Debug, Clone)]
pub struct AuthoredContent {
    /// Declared version.
    pub version: AuthoredVersion,
    /// Runtime executables.
    pub binaries: Vec<String>,
    /// Runtime libraries.
    pub libraries: Vec<String>,
    /// Workshop publication policy (`[*.steam]`).
    pub workshop: WorkshopPolicy,
    /// Declared dependencies.
    pub dependencies: Vec<ContentReference>,
    /// Declared conflicts.
    pub conflicts: Vec<ContentReference>,
    /// Engine composition reference.
    pub engine: Option<AuthoredReference>,
    /// Enginepack composition reference.
    pub enginepack: Option<AuthoredReference>,
    /// Game composition reference.
    pub game: Option<AuthoredReference>,
    /// Gamepack composition reference.
    pub gamepack: Option<AuthoredReference>,
}

/// An authored content manifest: at most one section per content kind.
#[derive(Debug, Clone)]
pub struct AuthoredManifest {
    /// `[engine]`.
    pub engine: Option<AuthoredContent>,
    /// `[game]`.
    pub game: Option<AuthoredContent>,
    /// `[packagepack]`.
    pub packagepack: Option<AuthoredContent>,
    /// `[enginepack]`.
    pub enginepack: Option<AuthoredContent>,
    /// `[gamepack]`.
    pub gamepack: Option<AuthoredContent>,
    /// `[modpack]`.
    pub modpack: Option<AuthoredContent>,
    /// `[engine-mod]`.
    pub engine_mod: Option<AuthoredContent>,
    /// `[game-mod]`.
    pub game_mod: Option<AuthoredContent>,
    /// `[extension-mod]`.
    pub extension_mod: Option<AuthoredContent>,
}

/// The section of a manifest for a content kind.
pub open spec fn section_of(m: AuthoredManifest, kind: ContentKind) -> Option<AuthoredContent> {
    match kind {
        ContentKind::Engine => m.engine,
        ContentKind::Game => m.game,
        ContentKind::Packagepack => m.packagepack,
        ContentKind::Enginepack => m.enginepack,
        ContentKind::Gamepack => m.gamepack,
        ContentKind::Modpack => m.modpack,
        ContentKind::EngineMod => m.engine_mod,
        ContentKind::GameMod => m.game_mod,
        ContentKind::ExtensionMod => m.extension_mod,
    }
}

impl AuthoredManifest {
    /// The section for a content kind.
    pub fn content(self, kind: ContentKind) -> (r: Option<AuthoredContent>)
        ensures
            r == section_of(self, kind),
    {
        match kind {
            ContentKind::Engine => self.engine,
            ContentKind::Game => self.game,
            ContentKind::Packagepack => self.packagepack,
            ContentKind::Enginepack => self.enginepack,
            ContentKind::Gamepack => self.gamepack,
            ContentKind::Modpack => self.modpack,
            ContentKind::EngineMod => self.engine_mod,
            ContentKind::GameMod => self.game_mod,
            ContentKind::ExtensionMod => self.extension_mod,
        }
    }
}

/// Composition references as dependencies: a packagepack depends on its
/// engine, enginepack, game and gamepack (in that order); a game on its
/// engine; other kinds have none.
pub open spec fn composition_spec(kind: ContentKind, c: AuthoredContent) -> Seq<(Seq<char>, Seq<char>, bool, Option<Seq<char>>, Option<Seq<char>>, Option<Seq<char>>)> {
    let edge = |r: Option<AuthoredReference>, rel: Seq<char>|
        match r { Some(a) => seq![composition_view(a, rel, false)], None => Seq::empty() };
    match kind {
        ContentKind::Packagepack => edge(c.engine, "engine"@) + edge(c.enginepack, "enginepack"@) + edge(c.game, "game"@) + edge(c.gamepack, "gamepack"@),
        ContentKind::Game => edge(c.engine, "engine"@),
        _ => Seq::empty(),
    }
}

fn push_edge(v: &mut Vec<ContentReference>, r: &Option<AuthoredReference>, relationship: &str)
    ensures
        final(v)@.map_values(|x: ContentReference| reference_view(x)) == old(v)@.map_values(|x: ContentReference| reference_view(x))
            + match *r { Some(a) => seq![composition_view(a, relationship@, false)], None => Seq::empty() },
{
    let ghost before = v@.map_values(|x: ContentReference| reference_view(x));
    match r {
        Some(a) => {
            v.push(a.to_content_reference(relationship, false));
        },
        None => {},
    }
    assert(v@.map_values(|x: ContentReference| reference_view(x)) =~= before
        + match *r { Some(a) => seq![composition_view(a, relationship@, false)], None => Seq::empty() });
}

/// The dependencies a content section's composition references stand for.
pub fn composition_edges(kind: ContentKind, content: &AuthoredContent) -> (r: Vec<ContentReference>)
    ensures
        r@.map_values(|x: ContentReference| reference_view(x)) == composition_spec(kind, *content),
{
    let mut edges: Vec<ContentReference> = Vec::new();
    match kind {
        ContentKind::Packagepack => {
            push_edge(&mut edges, &content.engine, "engine");
            push_edge(&mut edges, &content.enginepack, "enginepack");
            push_edge(&mut edges, &content.game, "game");
            push_edge(&mut edges, &content.gamepack, "gamepack");
        },
        ContentKind::Game => {
            push_edge(&mut edges, &content.engine, "engine");
        },
        _ => {},
    }
    assert(edges@.map_values(|x: ContentReference| reference_view(x)) =~= composition_spec(kind, *content));
    edges
}

/// Message when a content manifest lacks the section of its kind.
pub open spec fn msg_missing_section(path: Seq<char>, kind: ContentKind) -> Seq<char> {
    "content manifest '"@ + path + "' did not contain expected ["@ + kind_label(kind) + "] section"@
}

/// The section of a parsed content manifest (at `path`) for its kind, its
/// composition references appended to its dependencies.
pub fn authored_content(parsed: AuthoredManifest, kind: ContentKind, path: &str) -> (r: Result<AuthoredContent, String>)
    ensures
        match section_of(parsed, kind) {
            None => r matches Err(e) && e@ == msg_missing_section(path@, kind),
            Some(c) => r matches Ok(x) && x.version == c.version && x.binaries == c.binaries && x.libraries == c.libraries
                && x.workshop == c.workshop && x.conflicts == c.conflicts && x.engine == c.engine && x.enginepack == c.enginepack
                && x.game == c.game && x.gamepack == c.gamepack
                && x.dependencies@.map_values(|d: ContentReference| reference_view(d))
                    == c.dependencies@.map_values(|d: ContentReference| reference_view(d)) + composition_spec(kind, c),
        },
{
    let mut content = match parsed.content(kind) {
        Some(c) => c,
        None => {
            let mut e = concat3("content manifest '", path, "' did not contain expected [");
            e.append(kind.label());
            e.append("] section");
            return Err(e);
        },
    };
    let ghost original = content;
    let edges = composition_edges(kind, &content);
    let mut deps: Vec<ContentReference> = Vec::new();
    std::mem::swap(&mut deps, &mut content.dependencies);
    let ghost start = deps@.map_values(|d: ContentReference| reference_view(d));
    let mut i: usize = 0;
    while i < edges.len()
        invariant
            i <= edges@.len(),
            deps@.map_values(|d: ContentReference| reference_view(d))
                == start + edges@.take(i as int).map_values(|d: ContentReference| reference_view(d)),
        decreases edges@.len() - i,
    {
        let e = &edges[i];
        let copy = ContentReference {
            id: e.id.clone(),
            relationship: e.relationship.clone(),
            optional: e.optional,
            version: copy_optional(&e.version),
            workshop_id: copy_optional(&e.workshop_id),
            reason: copy_optional(&e.reason),
        };
        let ghost before = deps@;
        deps.push(copy);
        proof {
            assert(deps@.map_values(|d: ContentReference| reference_view(d))
                =~= before.map_values(|d: ContentReference| reference_view(d)).push(reference_view(edges@[i as int])));
            assert(edges@.take(i + 1).map_values(|d: ContentReference| reference_view(d))
                =~= edges@.take(i as int).map_values(|d: ContentReference| reference_view(d)).push(reference_view(edges@[i as int])));
        }
        i = i + 1;
    }
    proof {
        assert(edges@.take(edges@.len() as int) =~= edges@);
    }
    content.dependencies = deps;
    Ok(content)
}

/// Message when a registered project's manifest changed kind.
pub open spec fn msg_changed_kind(project: Seq<char>, expected: ContentKind, actual: ContentKind) -> Seq<char> {
    "registered workspace project '"@ + project + "' changed kind from "@ + kind_label(expected) + " to "@ + kind_label(actual)
}

/// The artifact a registered content project contributes, from the entity
/// its manifest declares and its parsed content section: the manifest must
/// still declare content of the registered kind, and the artifact lives in
/// the manifest's directory.
pub fn project_artifact(
    project_path: &str,
    manifest_path: &str,
    expected: ContentKind,
    entity: &VaporEntity,
    content: AuthoredContent,
    workspace_version: Option<&str>,
) -> (r: Result<ContentArtifact, String>)
    ensures
        match *entity {
            VaporEntity::Content { kind, id, name } => if kind != expected {
                r matches Err(e) && e@ == msg_changed_kind(project_path@, expected, kind)
            } else if parent(manifest_path@) is None {
                r matches Err(e) && e@ == "manifest has no parent: "@ + manifest_path@
            } else {
                r matches Ok(a) && a.id@ == id@ && a.name@ == name@ && a.kind == kind
                    && parent(manifest_path@) == Some(a.root@)
                    && a.manifest@ == manifest_path@
                    && crate::manifest::opt_view(a.version) == resolved_version(content.version,
                        match workspace_version { Some(w) => Some(w@), None => None::<Seq<char>> })
                    && a.binaries == content.binaries && a.libraries == content.libraries && a.runtime@.len() == 0
                    && a.dependencies == content.dependencies && a.conflicts == content.conflicts && a.workshop == content.workshop
            },
            VaporEntity::Root { id, .. } => r matches Err(e) && e@ == "registered workspace project '"@ + project_path@
                + "' declares nested source root '"@ + id@ + "'"@,
            VaporEntity::Workspace { id, .. } => r matches Err(e) && e@ == "registered workspace project '"@ + project_path@
                + "' declares nested source root '"@ + id@ + "'"@,
            VaporEntity::Registry { id, .. } => r matches Err(e) && e@ == "registered workspace project '"@ + project_path@
                + "' declares registry '"@ + id@ + "'"@,
        },
{
    match entity {
        VaporEntity::Content { kind, id, name } => {
            if *kind != expected {
                let mut e = concat3("registered workspace project '", project_path, "' changed kind from ");
                e.append(expected.label());
                e.append(" to ");
                e.append(kind.label());
                return Err(e);
            }
            let root = match parent_path(manifest_path) {
                Some(p) => p,
                None => return Err(concat("manifest has no parent: ", manifest_path)),
            };
            let version = content.version.resolve(workspace_version);
            Ok(ContentArtifact {
                id: id.clone(),
                name: name.clone(),
                kind: *kind,
                root,
                manifest: owned(manifest_path),
                version,
                binaries: content.binaries,
                libraries: content.libraries,
                runtime: Vec::new(),
                dependencies: content.dependencies,
                conflicts: content.conflicts,
                workshop: content.workshop,
            })
        },
        VaporEntity::Root { id, .. } => Err(concat5("registered workspace project '", project_path, "' declares nested source root '", id.as_str(), "'")),
        VaporEntity::Workspace { id, .. } => Err(concat5("registered workspace project '", project_path, "' declares nested source root '", id.as_str(), "'")),
        VaporEntity::Registry { id, .. } => Err(concat5("registered workspace project '", project_path, "' declares registry '", id.as_str(), "'")),
    }
}

/// Artifact IDs in ascending order.
pub open spec fn ids_ascending(v: Seq<ContentArtifact>) -> bool {
    forall|i: int, j: int| 0 <= i < j < v.len() ==> !text_lt(#[trigger] v[j].id@, #[trigger] v[i].id@)
}

/// The catalog of discovered artifacts, ordered by ID.
pub fn discover(artifacts: Vec<ContentArtifact>) -> (r: ContentCatalog)
    ensures
        ids_ascending(r.artifacts@),
        r.artifacts@.to_multiset() == artifacts@.to_multiset(),
{
    let ghost input = artifacts@;
    let mut out: Vec<ContentArtifact> = Vec::new();
    let mut rest = artifacts;
    proof {
        assert(input =~= out@ + rest@);
        vstd::seq_lib::lemma_multiset_commutative(out@, rest@);
    }
    while rest.len() > 0
        invariant
            ids_ascending(out@),
            out@.to_multiset().add(rest@.to_multiset()) == input.to_multiset(),
        decreases rest@.len(),
    {
        let ghost rest_before = rest@;
        let item = rest.remove(0);
        proof {
            assert(rest@ =~= rest_before.remove(0));
            vstd::seq_lib::to_multiset_remove(rest_before, 0);
            assert(rest_before[0] == item);
            vstd::seq_lib::to_multiset_contains(rest_before, item);
        }
        let mut pos = out.len();
        while pos > 0 && text_order(out[pos - 1].id.as_str(), item.id.as_str()) == Order::Greater
            invariant
                pos <= out@.len(),
                ids_ascending(out@),
                forall|k: int| pos <= k < out@.len() ==> text_lt(item.id@, #[trigger] out@[k].id@),
            decreases pos,
        {
            proof {
                lemma_text_lt_order(out@[pos - 1].id@, item.id@);
            }
            pos = pos - 1;
        }
        proof {
            if pos > 0 {
                lemma_text_lt_order(out@[pos - 1].id@, item.id@);
            }
        }
        let ghost out_before = out@;
        out.insert(pos, item);
        proof {
            assert forall|i: int, j: int| 0 <= i < j < out@.len() implies !text_lt(#[trigger] out@[j].id@, #[trigger] out@[i].id@) by {
                if j < pos {
                    assert(out@[i] == out_before[i] && out@[j] == out_before[j]);
                } else if j == pos {
                    assert(out@[i] == out_before[i]);
                    assert(!text_lt(item.id@, out_before[pos - 1].id@));
                    if i < pos - 1 {
                        assert(!text_lt(out_before[pos - 1].id@, out_before[i].id@));
                        lemma_text_lt_order(out_before[i].id@, out_before[pos - 1].id@);
                        if text_lt(item.id@, out_before[i].id@) {
                            lemma_text_lt_order(item.id@, out_before[pos - 1].id@);
                            lemma_text_lt_transitive(item.id@, out_before[i].id@, out_before[pos - 1].id@);
                        }
                    }
                } else if i == pos {
                    assert(out@[j] == out_before[j - 1]);
                    assert(text_lt(item.id@, out_before[j - 1].id@));
                    lemma_text_lt_order(item.id@, out_before[j - 1].id@);
                } else if i < pos {
                    assert(out@[i] == out_before[i] && out@[j] == out_before[j - 1]);
                } else {
                    assert(out@[i] == out_before[i - 1] && out@[j] == out_before[j - 1]);
                }
            }
            assert(out@ =~= out_before.insert(pos as int, item));
            vstd::seq_lib::to_multiset_insert(out_before, pos as int, item);
            broadcast use vstd::multiset::group_multiset_axioms;
            assert(out@.to_multiset().add(rest@.to_multiset()) =~= input.to_multiset());
        }
    }
    proof {
        assert(out@ + rest@ =~= out@);
        vstd::seq_lib::lemma_multiset_commutative(out@, rest@);
    }
    ContentCatalog { artifacts: out }
}

/// What was read for one registered project: the entity its manifest
/// declares, and its content sections parsed (consulted only when the
/// manifest still declares content of the registered kind).
#[derive(Debug)]
pub struct ProjectObservation {
    /// The entity the manifest declares, or why it could not be read.
    pub entity: Result<VaporEntity, String>,
    /// The manifest's content sections, or why they could not be read.
    pub authored: Result<AuthoredManifest, String>,
}

/// Where a registered project's manifest lies under the source root.
pub open spec fn project_manifest_path(source_root: Seq<char>, project: WorkspaceProject) -> Seq<char> {
    join(source_root, project.manifest@)
}

/// Why a registered project stops discovery, if it does: its manifest could
/// not be read, declares another kind, a nested source root or a registry,
/// has no parent directory, or lacks the section of its kind.
pub open spec fn project_error(source_root: Seq<char>, project: WorkspaceProject, o: ProjectObservation) -> Option<Seq<char>> {
    let path = project_manifest_path(source_root, project);
    match project.kind.content_kind_spec() {
        None => None,
        Some(expected) => match o.entity {
            Err(e) => Some(e@),
            Ok(VaporEntity::Content { kind, .. }) => if kind != expected {
                Some(msg_changed_kind(project.path@, expected, kind))
            } else if parent(path) is None {
                Some("manifest has no parent: "@ + path)
            } else {
                match o.authored {
                    Err(e) => Some(e@),
                    Ok(m) => if section_of(m, expected) is None { Some(msg_missing_section(path, expected)) } else { None },
                }
            },
            Ok(VaporEntity::Root { id, .. }) => Some("registered workspace project '"@ + project.path@
                + "' declares nested source root '"@ + id@ + "'"@),
            Ok(VaporEntity::Workspace { id, .. }) => Some("registered workspace project '"@ + project.path@
                + "' declares nested source root '"@ + id@ + "'"@),
            Ok(VaporEntity::Registry { id, .. }) => Some("registered workspace project '"@ + project.path@
                + "' declares registry '"@ + id@ + "'"@),
        },
    }
}

/// The first error among the projects, in order.
pub open spec fn catalog_error(source_root: Seq<char>, projects: Seq<WorkspaceProject>, obs: Seq<ProjectObservation>) -> Option<Seq<char>>
    decreases projects.len(),
{
    if projects.len() == 0 {
        None
    } else if catalog_error(source_root, projects.drop_last(), obs.drop_last()) is Some {
        catalog_error(source_root, projects.drop_last(), obs.drop_last())
    } else {
        project_error(source_root, projects.last(), obs.last())
    }
}

/// `a` is the artifact a registered content project contributes.
pub open spec fn artifact_from(a: ContentArtifact, source_root: Seq<char>, project: WorkspaceProject, o: ProjectObservation, version: Option<Seq<char>>) -> bool {
    let path = project_manifest_path(source_root, project);
    &&& project.kind.content_kind_spec() matches Some(expected)
    &&& o.entity matches Ok(VaporEntity::Content { kind, id, name })
    &&& o.authored matches Ok(m)
    &&& section_of(m, expected) matches Some(c)
    &&& a.id@ == id@ && a.name@ == name@ && a.kind == kind && a.kind == expected
    &&& parent(path) == Some(a.root@) && a.manifest@ == path
    &&& crate::manifest::opt_view(a.version) == resolved_version(c.version, version)
    &&& a.binaries == c.binaries && a.libraries == c.libraries && a.runtime@.len() == 0
    &&& a.dependencies@.map_values(|d: ContentReference| reference_view(d))
        == c.dependencies@.map_values(|d: ContentReference| reference_view(d)) + composition_spec(expected, c)
    &&& a.conflicts == c.conflicts && a.workshop == c.workshop
}

/// Once a prefix of the projects holds an error, the first error of all
/// the projects is that one.
proof fn lemma_catalog_error_prefix(source_root: Seq<char>, projects: Seq<WorkspaceProject>, obs: Seq<ProjectObservation>, n: int)
    requires
        0 <= n <= projects.len(),
        projects.len() == obs.len(),
        catalog_error(source_root, projects.take(n), obs.take(n)) is Some,
    ensures
        catalog_error(source_root, projects, obs) == catalog_error(source_root, projects.take(n), obs.take(n)),
    decreases projects.len(),
{
    if projects.len() == n {
        assert(projects.take(n) =~= projects);
        assert(obs.take(n) =~= obs);
    } else {
        assert(projects.drop_last().take(n) =~= projects.take(n));
        assert(obs.drop_last().take(n) =~= obs.take(n));
        lemma_catalog_error_prefix(source_root, projects.drop_last(), obs.drop_last(), n);
    }
}

/// A project contributes an artifact: it is registered as content and its
/// manifest declares content.
pub open spec fn contributes(project: WorkspaceProject, o: ProjectObservation) -> bool {
    project.kind.content_kind_spec() is Some && o.entity matches Ok(VaporEntity::Content { .. })
}

/// `produced` holds, in project order, the artifact of each contributing
/// project.
pub open spec fn produced_by(source_root: Seq<char>, projects: Seq<WorkspaceProject>, obs: Seq<ProjectObservation>,
    version: Option<Seq<char>>, produced: Seq<ContentArtifact>) -> bool
    decreases projects.len(),
{
    if projects.len() == 0 {
        produced.len() == 0
    } else if contributes(projects.last(), obs.last()) {
        produced.len() > 0 && artifact_from(produced.last(), source_root, projects.last(), obs.last(), version)
            && produced_by(source_root, projects.drop_last(), obs.drop_last(), version, produced.drop_last())
    } else {
        produced_by(source_root, projects.drop_last(), obs.drop_last(), version, produced)
    }
}

/// The observations of the projects registered as content, each at its
/// project's position (the others stand for nothing read).
pub open spec fn observed(observations: Seq<Option<ProjectObservation>>) -> Seq<ProjectObservation> {
    Seq::new(observations.len(), |i: int| observations[i].unwrap())
}

/// The content catalog of a workspace: for each registered content project,
/// in order, the artifact its manifest and content section describe, the
/// first problem of any project ending discovery with that error; the
/// artifacts then ordered by ID. `observations[i]` is what was read for
/// `projects[i]` when that project is registered as content (nothing is read
/// for other projects).
pub fn discover_catalog(
    manifest: &WorkspaceManifest,
    source_root: &str,
    workspace_version: Option<&str>,
    observations: Vec<Option<ProjectObservation>>,
) -> (r: Result<ContentCatalog, String>)
    requires
        observations@.len() == manifest.projects@.len(),
        forall|i: int| 0 <= i < observations@.len() ==>
            (#[trigger] observations@[i] is Some <==> manifest.projects@[i].kind.content_kind_spec() is Some),
    ensures
        catalog_error(source_root@, manifest.projects@, observed(observations@)) matches Some(e) ==> (r matches Err(m) && m@ == e),
        catalog_error(source_root@, manifest.projects@, observed(observations@)) is None ==> (r matches Ok(c) && ids_ascending(c.artifacts@)),
        r matches Ok(c) ==> exists|produced: Seq<ContentArtifact>| #[trigger] produced_by(source_root@, manifest.projects@,
            observed(observations@), crate::lifecycle::opt_str(workspace_version), produced)
            && c.artifacts@.to_multiset() == produced.to_multiset(),
{
    let ghost all = observations@;
    let ghost obs = observed(observations@);
    let ghost version = crate::lifecycle::opt_str(workspace_version);
    let ghost projects = manifest.projects@;
    let mut rest = observations;
    let mut out: Vec<ContentArtifact> = Vec::new();
    let mut i: usize = 0;
    proof {
        assert(rest@ =~= all.subrange(0, all.len() as int));
        assert(projects.take(0) =~= Seq::<WorkspaceProject>::empty());
        assert(obs.take(0) =~= Seq::<ProjectObservation>::empty());
    }
    while i < manifest.projects.len()
        invariant
            i <= projects.len(),
            projects == manifest.projects@,
            all.len() == projects.len(),
            obs.len() == all.len(),
            forall|k: int| 0 <= k < all.len() ==> (#[trigger] all[k] is Some <==> projects[k].kind.content_kind_spec() is Some),
            forall|k: int| 0 <= k < all.len() ==> #[trigger] obs[k] == all[k].unwrap(),
            rest@ == all.subrange(i as int, all.len() as int),
            all == observations@,
            obs == observed(all),
            version == crate::lifecycle::opt_str(workspace_version),
            catalog_error(source_root@, projects.take(i as int), obs.take(i as int)) is None,
            produced_by(source_root@, projects.take(i as int), obs.take(i as int), version, out@),
        decreases projects.len() - i,
    {
        let project = &manifest.projects[i];
        let item = rest.remove(0);
        let ghost pt = projects.take(i + 1);
        let ghost ot = obs.take(i + 1);
        proof {
            assert(item == all[i as int]);
            assert(rest@ =~= all.subrange(i + 1, all.len() as int));
            assert(pt.drop_last() =~= projects.take(i as int));
            assert(ot.drop_last() =~= obs.take(i as int));
            assert(pt.last() == projects[i as int]);
            assert(ot.last() == obs[i as int]);
        }
        match project.kind.content_kind() {
            None => {
                assert(project_error(source_root@, *project, obs[i as int]) is None);
                assert(!contributes(*project, obs[i as int]));
            },
            Some(expected) => {
                let o = match item {
                    Some(o) => o,
                    None => {
                        proof {
                            assert(false);
                        }
                        return Err(owned(""));
                    },
                };
                assert(obs[i as int] == o);
                let path = join_path(source_root, project.manifest.as_str());
                let entity = match o.entity {
                    Ok(e) => e,
                    Err(e) => {
                        proof {
                            assert(catalog_error(source_root@, pt, ot) == Some(e@));
                            lemma_catalog_error_prefix(source_root@, projects, obs, i + 1);
                                assert(catalog_error(source_root@, manifest.projects@, observed(all)) == Some(e@));
                            assert(catalog_error(source_root@, projects, obs) == Some(e@));
                                                    }
                        return Err(e);
                    },
                };
                match &entity {
                    VaporEntity::Content { kind, .. } => {
                        if *kind == expected && parent_path(path.as_str()).is_some() {
                            let parsed = match o.authored {
                                Ok(m) => m,
                                Err(e) => {
                                    proof {
                                        assert(catalog_error(source_root@, pt, ot) == Some(e@));
                                        lemma_catalog_error_prefix(source_root@, projects, obs, i + 1);
                                assert(catalog_error(source_root@, manifest.projects@, observed(all)) == Some(e@));
                                                                            }
                                    return Err(e);
                                },
                            };
                            let content = match authored_content(parsed, expected, path.as_str()) {
                                Ok(c) => c,
                                Err(e) => {
                                    proof {
                                        assert(catalog_error(source_root@, pt, ot) == Some(e@));
                                        lemma_catalog_error_prefix(source_root@, projects, obs, i + 1);
                                assert(catalog_error(source_root@, manifest.projects@, observed(all)) == Some(e@));
                                    }
                                    return Err(e);
                                },
                            };
                            let a = match project_artifact(project.path.as_str(), path.as_str(), expected, &entity, content, workspace_version) {
                                Ok(a) => a,
                                Err(e) => {
                                    proof {
                                        assert(false);
                                    }
                                    return Err(e);
                                },
                            };
                            let ghost before = out@;
                            out.push(a);
                            proof {
                                assert(out@.drop_last() =~= before);
                                assert(contributes(pt.last(), ot.last()));
                                assert(artifact_from(out@.last(), source_root@, pt.last(), ot.last(), version));
                            }
                        } else {
                            let a = project_artifact(project.path.as_str(), path.as_str(), expected, &entity, empty_authored(), workspace_version);
                            match a {
                                Err(e) => {
                                    proof {
                                        assert(catalog_error(source_root@, pt, ot) == Some(e@));
                                        lemma_catalog_error_prefix(source_root@, projects, obs, i + 1);
                                assert(catalog_error(source_root@, manifest.projects@, observed(all)) == Some(e@));
                                    }
                                    return Err(e);
                                },
                                Ok(_) => {
                                    proof {
                                        assert(false);
                                    }
                                },
                            }
                        }
                    },
                    _ => {
                        let a = project_artifact(project.path.as_str(), path.as_str(), expected, &entity, empty_authored(), workspace_version);
                        match a {
                            Err(e) => {
                                proof {
                                    assert(catalog_error(source_root@, pt, ot) == Some(e@));
                                    lemma_catalog_error_prefix(source_root@, projects, obs, i + 1);
                                assert(catalog_error(source_root@, manifest.projects@, observed(all)) == Some(e@));
                                }
                                return Err(e);
                            },
                            Ok(_) => {
                                proof {
                                    assert(false);
                                }
                            },
                        }
                    },
                }
            },
        }
        i = i + 1;
    }
    proof {
        assert(projects.take(projects.len() as int) =~= projects);
        assert(obs.take(obs.len() as int) =~= obs);
    }
    let ghost produced = out@;
    let c = discover(out);
    proof {
        assert(produced_by(source_root@, projects, obs, version, produced));
        assert(produced_by(source_root@, manifest.projects@, observed(all), version, produced));
        assert(catalog_error(source_root@, manifest.projects@, observed(all)) is None);
    }
    Ok(c)
}

/// Content with nothing declared, for projects whose manifest is refused
/// before its content is read.
fn empty_authored() -> AuthoredContent {
    AuthoredContent {
        version: AuthoredVersion::Missing,
        binaries: Vec::new(),
        libraries: Vec::new(),
        workshop: WorkshopPolicy::empty(),
        dependencies: Vec::new(),
        conflicts: Vec::new(),
        engine: None,
        enginepack: None,
        game: None,
        gamepack: None,
    }
}

} // verus!
