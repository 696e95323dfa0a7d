//! The manifest deployed with a staged package: the artifact it was staged
//! from, kept under the section named after its kind, with the runtime
//! payloads the staging produced. Reading it back gives the artifact again.

use vstd::prelude::*;
use crate::content::{
    ContentArtifact, ContentReference, RuntimePayload, WorkshopPolicy, CONTENT_STATE_SCHEMA,
    copy_optional, copy_strings, copy_references,
};
use crate::manifest::ContentKind;
use crate::text::{concat3, owned};

verus! {

/// The content section of a deployed manifest.
#[derive(Debug)]
pub struct DeployedContent {
    /// Fully-qualified content ID.
    pub id: String,
    /// Local artifact name.
    pub name: String,
    /// Resolved artifact version, when declared.
    pub version: Option<String>,
    /// Runtime executables under `bin/`.
    pub binaries: Vec<String>,
    /// Runtime libraries under `lib/`.
    pub libraries: Vec<String>,
    /// Target-specific runtime payloads.
    pub runtime: Vec<RuntimePayload>,
    /// Workshop publication policy.
    pub workshop: WorkshopPolicy,
    /// Content dependencies and composition edges.
    pub dependencies: Vec<ContentReference>,
    /// Declared content conflicts.
    pub conflicts: Vec<ContentReference>,
}

/// A deployed manifest: its schema and one optional section per kind.
#[derive(Debug)]
pub struct DeployedManifest {
    /// Content state schema version.
    pub schema: u32,
    /// Engine section.
    pub engine: Option<DeployedContent>,
    /// Game section.
    pub game: Option<DeployedContent>,
    /// Packagepack section.
    pub packagepack: Option<DeployedContent>,
    /// Enginepack section.
    pub enginepack: Option<DeployedContent>,
    /// Gamepack section.
    pub gamepack: Option<DeployedContent>,
    /// Modpack section.
    pub modpack: Option<DeployedContent>,
    /// Engine mod section.
    pub engine_mod: Option<DeployedContent>,
    /// Game mod section.
    pub game_mod: Option<DeployedContent>,
    /// Extension mod section.
    pub extension_mod: Option<DeployedContent>,
}

/// `s` with `(kind, content)` appended when the section is present.
pub open spec fn push_section(s: Seq<(ContentKind, DeployedContent)>, kind: ContentKind, section: Option<DeployedContent>) -> Seq<(ContentKind, DeployedContent)> {
    match section {
        Some(c) => s.push((kind, c)),
        None => s,
    }
}

/// The present sections of a manifest with their kinds, in kind order.
pub open spec fn sections(m: DeployedManifest) -> Seq<(ContentKind, DeployedContent)> {
    let s0 = push_section(Seq::empty(), ContentKind::Engine, m.engine);
    let s1 = push_section(s0, ContentKind::Game, m.game);
    let s2 = push_section(s1, ContentKind::Packagepack, m.packagepack);
    let s3 = push_section(s2, ContentKind::Enginepack, m.enginepack);
    let s4 = push_section(s3, ContentKind::Gamepack, m.gamepack);
    let s5 = push_section(s4, ContentKind::Modpack, m.modpack);
    let s6 = push_section(s5, ContentKind::EngineMod, m.engine_mod);
    let s7 = push_section(s6, ContentKind::GameMod, m.game_mod);
    push_section(s7, ContentKind::ExtensionMod, m.extension_mod)
}

/// `c` holds what `artifact` declares, with `runtime` as its payloads.
pub open spec fn content_of(c: DeployedContent, artifact: ContentArtifact, runtime: Seq<RuntimePayload>) -> bool {
    &&& c.id@ == artifact.id@
    &&& c.name@ == artifact.name@
    &&& c.version == artifact.version
    &&& c.binaries@ == artifact.binaries@
    &&& c.libraries@ == artifact.libraries@
    &&& c.runtime@ == runtime
    &&& same_policy(c.workshop, artifact.workshop)
    &&& c.dependencies@ == artifact.dependencies@
    &&& c.conflicts@ == artifact.conflicts@
}

/// `a` is the artifact that section `c` of kind `kind` describes, deployed
/// at `root` with its manifest at `manifest`.
pub open spec fn artifact_of(a: ContentArtifact, kind: ContentKind, c: DeployedContent, root: Seq<char>, manifest: Seq<char>) -> bool {
    &&& a.id@ == c.id@
    &&& a.name@ == c.name@
    &&& a.kind == kind
    &&& a.root@ == root
    &&& a.manifest@ == manifest
    &&& a.version == c.version
    &&& a.binaries@ == c.binaries@
    &&& a.libraries@ == c.libraries@
    &&& a.runtime@ == c.runtime@
    &&& same_policy(a.workshop, c.workshop)
    &&& a.dependencies@ == c.dependencies@
    &&& a.conflicts@ == c.conflicts@
}

/// Message for a deployed manifest with schema 0.
pub open spec fn msg_invalid_schema(manifest: Seq<char>) -> Seq<char> {
    "deployed content manifest '"@ + manifest + "' has invalid schema 0"@
}

/// A copy of a Workshop policy.
fn copy_policy(p: &WorkshopPolicy) -> (r: WorkshopPolicy)
    ensures
        r.app_id == p.app_id,
        r.published_file_id == p.published_file_id,
        r.visibility == p.visibility,
        r.title == p.title,
        r.description == p.description,
        r.tags@ == p.tags@,
        r.change_note == p.change_note,
{
    WorkshopPolicy {
        app_id: p.app_id,
        published_file_id: copy_optional(&p.published_file_id),
        visibility: copy_optional(&p.visibility),
        title: copy_optional(&p.title),
        description: copy_optional(&p.description),
        tags: copy_strings(p.tags.as_slice()),
        change_note: copy_optional(&p.change_note),
    }
}

/// Two Workshop policies agree in every field, the tags compared as lists.
pub open spec fn same_policy(a: WorkshopPolicy, b: WorkshopPolicy) -> bool {
    &&& a.app_id == b.app_id
    &&& a.published_file_id == b.published_file_id
    &&& a.visibility == b.visibility
    &&& a.title == b.title
    &&& a.description == b.description
    &&& a.tags@ == b.tags@
    &&& a.change_note == b.change_note
}

impl DeployedManifest {
    /// A manifest of the current schema with no section.
    pub fn empty() -> (r: Self)
        ensures
            r.schema == CONTENT_STATE_SCHEMA,
            sections(r).len() == 0,
    {
        DeployedManifest {
            schema: CONTENT_STATE_SCHEMA,
            engine: None,
            game: None,
            packagepack: None,
            enginepack: None,
            gamepack: None,
            modpack: None,
            engine_mod: None,
            game_mod: None,
            extension_mod: None,
        }
    }

    /// The manifest deployed with a package staged from `artifact`: the
    /// current schema and one section, under the artifact's kind, holding
    /// what the artifact declares and the given runtime payloads.
    pub fn from_artifact(artifact: &ContentArtifact, runtime: Vec<RuntimePayload>) -> (r: Self)
        ensures
            r.schema == CONTENT_STATE_SCHEMA,
            sections(r).len() == 1,
            sections(r)[0].0 == artifact.kind,
            content_of(sections(r)[0].1, *artifact, runtime@),
    {
        let content = DeployedContent {
            id: artifact.id.clone(),
            name: artifact.name.clone(),
            version: copy_optional(&artifact.version),
            binaries: copy_strings(artifact.binaries.as_slice()),
            libraries: copy_strings(artifact.libraries.as_slice()),
            runtime,
            workshop: copy_policy(&artifact.workshop),
            dependencies: copy_references(artifact.dependencies.as_slice()),
            conflicts: copy_references(artifact.conflicts.as_slice()),
        };
        let mut m = Self::empty();
        match artifact.kind {
            ContentKind::Engine => m.engine = Some(content),
            ContentKind::Game => m.game = Some(content),
            ContentKind::Packagepack => m.packagepack = Some(content),
            ContentKind::Enginepack => m.enginepack = Some(content),
            ContentKind::Gamepack => m.gamepack = Some(content),
            ContentKind::Modpack => m.modpack = Some(content),
            ContentKind::EngineMod => m.engine_mod = Some(content),
            ContentKind::GameMod => m.game_mod = Some(content),
            ContentKind::ExtensionMod => m.extension_mod = Some(content),
        }
        m
    }

    /// The artifact a deployed manifest describes, deployed at `root` with
    /// the manifest at `manifest`. Schema 0 is refused; so is a manifest with
    /// no section or with more than one.
    pub fn into_artifact(self, root: String, manifest: String) -> (r: Result<ContentArtifact, String>)
        ensures
            self.schema == 0 ==> (r matches Err(e) && e@ == msg_invalid_schema(manifest@)),
            self.schema != 0 && sections(self).len() == 0 ==> (r matches Err(e)
                && e@ == "deployed content manifest has no content section"@),
            self.schema != 0 && sections(self).len() > 1 ==> (r matches Err(e)
                && e@ == "deployed content manifest has multiple content sections"@),
            self.schema != 0 && sections(self).len() == 1 ==> (r matches Ok(a)
                && artifact_of(a, sections(self)[0].0, sections(self)[0].1, root@, manifest@)),
    {
        if self.schema == 0 {
            return Err(concat3("deployed content manifest '", manifest.as_str(), "' has invalid schema 0"));
        }
        let ghost all = sections(self);
        let mut count: usize = 0;
        let mut found: Option<(ContentKind, DeployedContent)> = None;
        let ghost s0 = push_section(Seq::empty(), ContentKind::Engine, self.engine);
        let ghost s1 = push_section(s0, ContentKind::Game, self.game);
        let ghost s2 = push_section(s1, ContentKind::Packagepack, self.packagepack);
        let ghost s3 = push_section(s2, ContentKind::Enginepack, self.enginepack);
        let ghost s4 = push_section(s3, ContentKind::Gamepack, self.gamepack);
        let ghost s5 = push_section(s4, ContentKind::Modpack, self.modpack);
        let ghost s6 = push_section(s5, ContentKind::EngineMod, self.engine_mod);
        let ghost s7 = push_section(s6, ContentKind::GameMod, self.game_mod);
        let (c, f) = take_section(count, found, ContentKind::Engine, self.engine, Ghost(Seq::empty()));
        count = c;
        found = f;
        let (c, f) = take_section(count, found, ContentKind::Game, self.game, Ghost(s0));
        count = c;
        found = f;
        let (c, f) = take_section(count, found, ContentKind::Packagepack, self.packagepack, Ghost(s1));
        count = c;
        found = f;
        let (c, f) = take_section(count, found, ContentKind::Enginepack, self.enginepack, Ghost(s2));
        count = c;
        found = f;
        let (c, f) = take_section(count, found, ContentKind::Gamepack, self.gamepack, Ghost(s3));
        count = c;
        found = f;
        let (c, f) = take_section(count, found, ContentKind::Modpack, self.modpack, Ghost(s4));
        count = c;
        found = f;
        let (c, f) = take_section(count, found, ContentKind::EngineMod, self.engine_mod, Ghost(s5));
        count = c;
        found = f;
        let (c, f) = take_section(count, found, ContentKind::GameMod, self.game_mod, Ghost(s6));
        count = c;
        found = f;
        let (c, f) = take_section(count, found, ContentKind::ExtensionMod, self.extension_mod, Ghost(s7));
        count = c;
        found = f;
        assert(count == all.len());
        if count == 0 {
            return Err(owned("deployed content manifest has no content section"));
        }
        if count > 1 {
            return Err(owned("deployed content manifest has multiple content sections"));
        }
        match found {
            Some((kind, content)) => Ok(ContentArtifact {
                id: content.id,
                name: content.name,
                kind,
                root,
                manifest,
                version: content.version,
                binaries: content.binaries,
                libraries: content.libraries,
                runtime: content.runtime,
                dependencies: content.dependencies,
                conflicts: content.conflicts,
                workshop: content.workshop,
            }),
            None => Err(owned("deployed content manifest has no content section")),
        }
    }
}

/// One step of collecting the present sections: `count` sections and the
/// last of them (`found`) so far, as `before` lists them.
fn take_section(
    count: usize,
    found: Option<(ContentKind, DeployedContent)>,
    kind: ContentKind,
    section: Option<DeployedContent>,
    Ghost(before): Ghost<Seq<(ContentKind, DeployedContent)>>,
) -> (r: (usize, Option<(ContentKind, DeployedContent)>))
    requires
        count == before.len(),
        count < 9,
        before.len() > 0 ==> found == Some(before.last()),
        before.len() == 0 ==> found.is_none(),
    ensures
        r.0 == push_section(before, kind, section).len(),
        push_section(before, kind, section).len() > 0 ==> r.1 == Some(push_section(before, kind, section).last()),
        push_section(before, kind, section).len() == 0 ==> r.1.is_none(),
        push_section(before, kind, section).len() == 1 ==> r.1 == Some(push_section(before, kind, section)[0]),
{
    match section {
        Some(c) => (count + 1, Some((kind, c))),
        None => (count, found),
    }
}

/// Staging an artifact and reading back the manifest deployed with it gives
/// the artifact again: every declared field, with the staged runtime
/// payloads, at the root and manifest path it was read from.
pub proof fn law_deployed_round_trip(
    artifact: ContentArtifact,
    runtime: Seq<RuntimePayload>,
    deployed: DeployedManifest,
    back: ContentArtifact,
)
    requires
        deployed.schema == CONTENT_STATE_SCHEMA,
        sections(deployed).len() == 1,
        sections(deployed)[0].0 == artifact.kind,
        content_of(sections(deployed)[0].1, artifact, runtime),
        artifact_of(back, sections(deployed)[0].0, sections(deployed)[0].1, artifact.root@, artifact.manifest@),
    ensures
        deployed.schema != 0,
        back.id@ == artifact.id@,
        back.name@ == artifact.name@,
        back.kind == artifact.kind,
        back.root@ == artifact.root@,
        back.manifest@ == artifact.manifest@,
        back.version == artifact.version,
        back.binaries@ == artifact.binaries@,
        back.libraries@ == artifact.libraries@,
        back.runtime@ == runtime,
        same_policy(back.workshop, artifact.workshop),
        back.dependencies@ == artifact.dependencies@,
        back.conflicts@ == artifact.conflicts@,
{
}

} // verus!
