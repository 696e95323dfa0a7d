//! State of one interactive shell session: the open source root (if any),
//! the current directory inside it, the nearest content above that
//! directory, and the Cargo index of the source.

use vstd::prelude::*;
use crate::text::{str_eq, concat, concat3, concat5, owned};
use crate::manifest::{ContentKind, VaporEntity, kind_label};
use crate::discovery::{InstallationPaths, EnvironmentPaths};
use crate::cargo_metadata::{CargoIndex, CargoWorkspace};

verus! {

/// Kind of source root selected for the session.
#[derive(Debug, Clone, Copy, PartialEq, Eq, Structural)]
pub enum SourceRootKind {
    /// The Vapor application source/depot root.
    Root,
    /// A normal source workspace.
    Workspace,
}

/// Validated identity of the external source root.
#[derive(Debug, Clone)]
pub struct SourceContext {
    /// Source root kind.
    pub kind: SourceRootKind,
    /// Stable source-root identifier.
    pub id: String,
    /// Canonical source root.
    pub root: String,
}

impl SourceContext {
    /// Source root kind.
    pub fn kind(&self) -> (r: SourceRootKind)
        ensures
            r == self.kind,
    {
        self.kind
    }

    /// Stable source-root identifier.
    pub fn id(&self) -> (r: &str)
        ensures
            r@ == self.id@,
    {
        self.id.as_str()
    }

    /// Canonical source root.
    pub fn root(&self) -> (r: &str)
        ensures
            r@ == self.root@,
    {
        self.root.as_str()
    }
}

/// Nearest content marker above the current directory.
#[derive(Debug, Clone)]
pub struct ContentContext {
    /// Stable content identifier.
    pub id: String,
    /// Canonical content category.
    pub kind: ContentKind,
    /// Directory containing the content manifest.
    pub root: String,
}

impl ContentContext {
    /// Stable content identifier.
    pub fn id(&self) -> (r: &str)
        ensures
            r@ == self.id@,
    {
        self.id.as_str()
    }

    /// Canonical content category.
    pub fn kind(&self) -> (r: ContentKind)
        ensures
            r == self.kind,
    {
        self.kind
    }

    /// Directory containing this content's manifest.
    pub fn root(&self) -> (r: &str)
        ensures
            r@ == self.root@,
    {
        self.root.as_str()
    }
}

/// The error when a command needs an open source and none is.
pub open spec fn msg_no_source() -> Seq<char> {
    "no Vapor source is open\nhelp: open an indexed source with `source open NAME`, open a path with `source open PATH`, or index one with `source add PATH`"@
}

fn no_source_error() -> (r: String)
    ensures
        r@ == msg_no_source(),
{
    owned("no Vapor source is open\nhelp: open an indexed source with `source open NAME`, open a path with `source open PATH`, or index one with `source add PATH`")
}

/// The source context of a source root at `root` whose manifest declares
/// `entity`, or why it cannot be a session's source.
pub open spec fn source_context_of(root: Seq<char>, e: VaporEntity) -> Result<(SourceRootKind, Seq<char>), Seq<char>> {
    match e {
        VaporEntity::Root { id, .. } => Ok((SourceRootKind::Root, id@)),
        VaporEntity::Workspace { id, .. } => Ok((SourceRootKind::Workspace, id@)),
        VaporEntity::Registry { id, .. } => Err("source root unexpectedly describes registry '"@ + id@ + "'"@),
        VaporEntity::Content { kind, id, .. } => Err("source root '"@ + root + "' unexpectedly describes "@ + kind_label(kind) + " '"@ + id@ + "'"@),
    }
}

/// What one manifest found while looking for the nearest content does.
pub enum MarkerEffect {
    /// It becomes the nearest content.
    Content(ContentKind, Seq<char>),
    /// It is reported.
    Warn(Seq<char>),
    /// It changes nothing.
    Nothing,
}

/// The effect of the manifest `marker` in `directory`, read as `entity`,
/// given the source root and whether nearer content was already found.
pub open spec fn marker_effect(
    entity: Result<VaporEntity, String>,
    directory: Seq<char>,
    marker: Seq<char>,
    source_root: Seq<char>,
    source_kind: Option<SourceRootKind>,
    content_found: bool,
) -> MarkerEffect {
    match entity {
        Ok(VaporEntity::Content { kind, id, .. }) => if !content_found {
            MarkerEffect::Content(kind, id@)
        } else {
            MarkerEffect::Nothing
        },
        Ok(VaporEntity::Workspace { .. }) => if directory != source_root && source_kind == Some(SourceRootKind::Workspace) {
            MarkerEffect::Warn("nested workspace manifest '"@ + marker + "' is not allowed inside source workspace '"@ + source_root + "'"@)
        } else {
            MarkerEffect::Nothing
        },
        Ok(VaporEntity::Root { .. }) => if directory != source_root {
            MarkerEffect::Warn("nested root manifest '"@ + marker + "' is not allowed inside source root '"@ + source_root + "'"@)
        } else {
            MarkerEffect::Nothing
        },
        Ok(VaporEntity::Registry { .. }) => MarkerEffect::Nothing,
        Err(e) => MarkerEffect::Warn(e@),
    }
}

/// One manifest met on the way from the current directory up to the source
/// root: its directory, its path, and what reading it gave.
pub struct FoundMarker {
    /// Directory holding the manifest.
    pub directory: String,
    /// Manifest path.
    pub marker: String,
    /// The entity it declares, or the error reading it.
    pub entity: Result<VaporEntity, String>,
}

/// The nearest content and the warnings after considering `found` in order.
pub open spec fn context_after(
    found: Seq<FoundMarker>,
    source_root: Seq<char>,
    source_kind: Option<SourceRootKind>,
) -> (Option<(ContentKind, Seq<char>, Seq<char>)>, Seq<Seq<char>>)
    decreases found.len(),
{
    if found.len() == 0 {
        (None, Seq::empty())
    } else {
        let (content, warnings) = context_after(found.drop_last(), source_root, source_kind);
        let m = found.last();
        match marker_effect(m.entity, m.directory@, m.marker@, source_root, source_kind, content.is_some()) {
            MarkerEffect::Content(kind, id) => (Some((kind, id, m.directory@)), warnings),
            MarkerEffect::Warn(w) => (content, warnings.push(w)),
            MarkerEffect::Nothing => (content, warnings),
        }
    }
}

/// The optional content of a session, as a value.
pub open spec fn content_view(c: Option<ContentContext>) -> Option<(ContentKind, Seq<char>, Seq<char>)> {
    match c {
        Some(c) => Some((c.kind, c.id@, c.root@)),
        None => None,
    }
}

/// State owned by one interactive shell session.
#[derive(Debug, Clone)]
pub struct ShellState {
    /// Steam installation/app root of the session.
    pub installation: InstallationPaths,
    /// Installation and source roots, when a source is open.
    pub paths: Option<EnvironmentPaths>,
    /// Current directory inside the source root, when a source is open.
    pub current_dir: Option<String>,
    /// Validated source-root identity, when a source is open.
    pub source: Option<SourceContext>,
    /// Nearest content above the current directory.
    pub content: Option<ContentContext>,
    /// Cargo index of the open source.
    pub cargo: CargoIndex,
}

impl ShellState {
    /// A session with no source open.
    pub fn closed(installation: InstallationPaths) -> (r: Self)
        ensures
            r.installation == installation,
            r.paths.is_none(),
            r.current_dir.is_none(),
            r.source.is_none(),
            r.content.is_none(),
            r.cargo is NotPresent,
    {
        ShellState { installation, paths: None, current_dir: None, source: None, content: None, cargo: CargoIndex::NotPresent }
    }

    /// Open the source of `paths`, whose root manifest declares `entity`, with
    /// its Cargo index: the current directory becomes the source root and the
    /// nearest content is cleared until the next refresh.
    pub fn open_paths(&mut self, paths: EnvironmentPaths, entity: &VaporEntity, cargo: CargoIndex) -> (r: Result<(), String>)
        ensures
            match source_context_of(paths.source_spec()@.root, *entity) {
                Err(m) => r matches Err(e) && e@ == m && *final(self) == *old(self),
                Ok((kind, id)) => {
                    &&& r is Ok
                    &&& final(self).installation == paths.installation_spec()
                    &&& final(self).paths == Some(paths)
                    &&& (final(self).current_dir matches Some(d) && d@ == paths.source_spec()@.root)
                    &&& (final(self).source matches Some(s) && s.kind == kind && s.id@ == id && s.root@ == paths.source_spec()@.root)
                    &&& final(self).content.is_none()
                    &&& final(self).cargo == cargo
                },
            },
    {
        let root = paths.source().root();
        let source = match entity {
            VaporEntity::Root { id, .. } => SourceContext { kind: SourceRootKind::Root, id: id.clone(), root: root.to_owned() },
            VaporEntity::Workspace { id, .. } => SourceContext { kind: SourceRootKind::Workspace, id: id.clone(), root: root.to_owned() },
            VaporEntity::Registry { id, .. } => {
                return Err(concat3("source root unexpectedly describes registry '", id.as_str(), "'"));
            },
            VaporEntity::Content { kind, id, .. } => {
                let head = concat5("source root '", root, "' unexpectedly describes ", kind.label(), " '");
                return Err(concat(head.as_str(), concat(id.as_str(), "'").as_str()));
            },
        };
        self.installation = paths.installation().duplicate();
        self.current_dir = Some(root.to_owned());
        self.paths = Some(paths);
        self.source = Some(source);
        self.content = None;
        self.cargo = cargo;
        Ok(())
    }
}

/// The semantic part of the prompt: `[source::content] `, with `closed` and
/// `none` for what is missing.
pub open spec fn prompt_text(source: Option<SourceContext>, content: Option<ContentContext>) -> Seq<char> {
    match source {
        None => "[closed::none] "@,
        Some(s) => "["@ + s.id@ + "::"@ + (match content {
            Some(c) => c.id@,
            None => "none"@,
        }) + "] "@,
    }
}

impl ShellState {
    /// Start a session on the source of `paths`, whose root manifest declares
    /// `entity`, with its Cargo index.
    pub fn new(paths: EnvironmentPaths, entity: &VaporEntity, cargo: CargoIndex) -> (r: Result<Self, String>)
        ensures
            match source_context_of(paths.source_spec()@.root, *entity) {
                Err(m) => r matches Err(e) && e@ == m,
                Ok((kind, id)) => r matches Ok(st) && {
                    &&& st.installation == paths.installation_spec()
                    &&& st.paths == Some(paths)
                    &&& (st.current_dir matches Some(d) && d@ == paths.source_spec()@.root)
                    &&& (st.source matches Some(s) && s.kind == kind && s.id@ == id && s.root@ == paths.source_spec()@.root)
                    &&& st.content.is_none()
                    &&& st.cargo == cargo
                },
            },
    {
        let mut state = ShellState::closed(paths.installation().duplicate());
        state.open_paths(paths, entity, cargo)?;
        Ok(state)
    }

    /// Close the active source while keeping the session alive.
    pub fn close_source(&mut self)
        ensures
            final(self).installation == old(self).installation,
            final(self).paths.is_none(),
            final(self).current_dir.is_none(),
            final(self).source.is_none(),
            final(self).content.is_none(),
            final(self).cargo is NotPresent,
    {
        self.paths = None;
        self.current_dir = None;
        self.source = None;
        self.content = None;
        self.cargo = CargoIndex::NotPresent;
    }

    /// Steam installation/app root of the session.
    pub fn installation(&self) -> (r: &InstallationPaths)
        ensures
            *r == self.installation,
    {
        &self.installation
    }

    /// Installation and source roots of the open source.
    pub fn active_paths(&self) -> (r: Result<&EnvironmentPaths, String>)
        ensures
            match self.paths {
                Some(p) => r matches Ok(q) && *q == p,
                None => r matches Err(e) && e@ == msg_no_source(),
            },
    {
        match &self.paths {
            Some(p) => Ok(p),
            None => Err(no_source_error()),
        }
    }

    /// Current directory inside the open source.
    pub fn current_dir(&self) -> (r: Result<&str, String>)
        ensures
            match self.current_dir {
                Some(d) => r matches Ok(q) && q@ == d@,
                None => r matches Err(e) && e@ == msg_no_source(),
            },
    {
        match &self.current_dir {
            Some(d) => Ok(d.as_str()),
            None => Err(no_source_error()),
        }
    }

    /// Validated source-root identity.
    pub fn source(&self) -> (r: Option<&SourceContext>)
        ensures
            match self.source {
                Some(s) => r matches Some(q) && *q == s,
                None => r.is_none(),
            },
    {
        match &self.source {
            Some(s) => Some(s),
            None => None,
        }
    }

    /// Nearest active content identity, if any.
    pub fn content(&self) -> (r: Option<&ContentContext>)
        ensures
            match self.content {
                Some(c) => r matches Some(q) && *q == c,
                None => r.is_none(),
            },
    {
        match &self.content {
            Some(c) => Some(c),
            None => None,
        }
    }

    /// Cargo index of the open source.
    pub fn cargo_index(&self) -> (r: &CargoIndex)
        ensures
            *r == self.cargo,
    {
        &self.cargo
    }

    /// Replace the Cargo index after installer-managed tools changed: the new
    /// one when a source is open, else none.
    pub fn refresh_cargo_index(&mut self, index: CargoIndex)
        ensures
            old(self).paths.is_some() ==> final(self).cargo == index,
            old(self).paths.is_none() ==> final(self).cargo is NotPresent,
            final(self).installation == old(self).installation,
            final(self).paths == old(self).paths,
            final(self).current_dir == old(self).current_dir,
            final(self).source == old(self).source,
            final(self).content == old(self).content,
    {
        if self.paths.is_some() {
            self.cargo = index;
        } else {
            self.cargo = CargoIndex::NotPresent;
        }
    }

    /// Loaded Cargo metadata, if any.
    pub fn cargo_workspace(&self) -> (r: Option<&CargoWorkspace>)
        ensures
            match self.cargo {
                CargoIndex::Loaded(w) => r matches Some(q) && *q == w,
                _ => r.is_none(),
            },
    {
        match &self.cargo {
            CargoIndex::Loaded(w) => Some(w),
            _ => None,
        }
    }

    /// The semantic part of the interactive prompt.
    pub fn prompt_context(&self) -> (r: String)
        ensures
            r@ == prompt_text(self.source, self.content),
    {
        match &self.source {
            None => owned("[closed::none] "),
            Some(s) => {
                let content_id = match &self.content {
                    Some(c) => c.id.as_str(),
                    None => "none",
                };
                concat5("[", s.id.as_str(), "::", content_id, "] ")
            },
        }
    }

    /// Recompute the nearest content from the manifests met walking from the
    /// current directory up to the source root (nearest first, each
    /// directory's content manifest before its source-root manifests); the
    /// warnings are returned. Without an open source nothing is considered.
    pub fn refresh_context(&mut self, found: &[FoundMarker]) -> (r: Vec<String>)
        ensures
            final(self).installation == old(self).installation,
            final(self).paths == old(self).paths,
            final(self).current_dir == old(self).current_dir,
            final(self).source == old(self).source,
            final(self).cargo == old(self).cargo,
            (old(self).paths.is_none() || old(self).current_dir.is_none()) ==> final(self).content.is_none() && r@.len() == 0,
            (old(self).paths.is_some() && old(self).current_dir.is_some()) ==> ({
                let (content, warnings) = context_after(found@, old(self).paths.unwrap().source_spec()@.root,
                    match old(self).source { Some(s) => Some(s.kind), None => None });
                content_view(final(self).content) == content && crate::text::string_views(r@) == warnings
            }),
    {
        self.content = None;
        let mut warnings: Vec<String> = Vec::new();
        let source_root = match &self.paths {
            Some(p) => p.source().root().to_owned(),
            None => {
                return warnings;
            },
        };
        if self.current_dir.is_none() {
            return warnings;
        }
        let kind = match &self.source {
            Some(s) => Some(s.kind),
            None => None,
        };
        let mut content: Option<ContentContext> = None;
        let mut i: usize = 0;
        while i < found.len()
            invariant
                i <= found@.len(),
                (content_view(content), crate::text::string_views(warnings@))
                    == context_after(found@.take(i as int), source_root@, kind),
            decreases found@.len() - i,
        {
            let m = &found[i];
            proof {
                assert(found@.take(i + 1).drop_last() =~= found@.take(i as int));
                assert(found@.take(i + 1).last() == found@[i as int]);
            }
            let ghost before = crate::text::string_views(warnings@);
            match &m.entity {
                Ok(VaporEntity::Content { kind: k, id, .. }) => {
                    if content.is_none() {
                        content = Some(ContentContext { id: id.clone(), kind: *k, root: m.directory.clone() });
                    }
                },
                Ok(VaporEntity::Workspace { .. }) => {
                    if !str_eq(m.directory.as_str(), source_root.as_str()) && kind == Some(SourceRootKind::Workspace) {
                        let w = concat5("nested workspace manifest '", m.marker.as_str(), "' is not allowed inside source workspace '", source_root.as_str(), "'");
                        warnings.push(w);
                        proof {
                            assert(crate::text::string_views(warnings@) =~= before.push(w@));
                        }
                    }
                },
                Ok(VaporEntity::Root { .. }) => {
                    if !str_eq(m.directory.as_str(), source_root.as_str()) {
                        let w = concat5("nested root manifest '", m.marker.as_str(), "' is not allowed inside source root '", source_root.as_str(), "'");
                        warnings.push(w);
                        proof {
                            assert(crate::text::string_views(warnings@) =~= before.push(w@));
                        }
                    }
                },
                Ok(VaporEntity::Registry { .. }) => {},
                Err(e) => {
                    warnings.push(e.clone());
                    proof {
                        assert(crate::text::string_views(warnings@) =~= before.push(e@));
                    }
                },
            }
            i = i + 1;
        }
        proof {
            assert(found@.take(found@.len() as int) =~= found@);
        }
        self.content = content;
        warnings
    }
}

} // verus!
