//! Identity-bearing Vapor manifest files.
//!
//! Vapor manifest filenames are role-specific: the filename selects the role,
//! and the single identity section inside the file must match that role.

use vstd::prelude::*;
use crate::text::{is_lower, is_digit, trim, trim_str, concat, concat3, concat5, owned, str_eq};
use crate::paths::{join, join_path, within, is_within, file_name, file_name_of};

verus! {

/// Canonical filename for the Vapor application source/depot authority.
pub const APP_SOURCE_FILE_NAME: &'static str = "App-Source.vapor.toml";
/// Canonical filename for the installed Vapor application runtime manifest.
pub const APP_FILE_NAME: &'static str = "App.vapor.toml";
/// Canonical filename for a normal source workspace.
pub const WORKSPACE_FILE_NAME: &'static str = "Workspace.vapor.toml";
/// Canonical filename for a Vapor Registry checkout.
pub const REGISTRY_FILE_NAME: &'static str = "Registry.vapor.toml";
/// Canonical filename for an engine content root.
pub const ENGINE_FILE_NAME: &'static str = "Engine.vapor.toml";
/// Canonical filename for a game content root.
pub const GAME_FILE_NAME: &'static str = "Game.vapor.toml";
/// Canonical filename for a packagepack content root.
pub const PACKAGEPACK_FILE_NAME: &'static str = "Packagepack.vapor.toml";
/// Canonical filename for an enginepack content root.
pub const ENGINEPACK_FILE_NAME: &'static str = "Enginepack.vapor.toml";
/// Canonical filename for a gamepack content root.
pub const GAMEPACK_FILE_NAME: &'static str = "Gamepack.vapor.toml";
/// Canonical filename for a modpack content root.
pub const MODPACK_FILE_NAME: &'static str = "Modpack.vapor.toml";
/// Canonical filename for an engine-mod content root.
pub const ENGINE_MOD_FILE_NAME: &'static str = "Engine-Mod.vapor.toml";
/// Canonical filename for a game-mod content root.
pub const GAME_MOD_FILE_NAME: &'static str = "Game-Mod.vapor.toml";
/// Canonical filename for an extension-mod content root.
pub const EXTENSION_MOD_FILE_NAME: &'static str = "Extension-Mod.vapor.toml";

/// Canonical content kinds shared by Vapor manifests and shell context.
#[derive(Debug, Clone, Copy, PartialEq, Eq, Structural)]
pub enum ContentKind {
    /// Runtime engine source.
    Engine,
    /// Game source.
    Game,
    /// Root playable composition pack.
    Packagepack,
    /// Pack containing one engine and compatible engine mods.
    Enginepack,
    /// Pack containing one game and compatible game mods.
    Gamepack,
    /// Pack containing compatible mods.
    Modpack,
    /// Mod that targets an engine.
    EngineMod,
    /// Mod that targets a game.
    GameMod,
    /// Extension mod shared across supported targets.
    ExtensionMod,
}

/// The role-specific manifest filename of a content kind.
pub open spec fn kind_file_name(kind: ContentKind) -> Seq<char> {
    match kind {
        ContentKind::Engine => ENGINE_FILE_NAME@,
        ContentKind::Game => GAME_FILE_NAME@,
        ContentKind::Packagepack => PACKAGEPACK_FILE_NAME@,
        ContentKind::Enginepack => ENGINEPACK_FILE_NAME@,
        ContentKind::Gamepack => GAMEPACK_FILE_NAME@,
        ContentKind::Modpack => MODPACK_FILE_NAME@,
        ContentKind::EngineMod => ENGINE_MOD_FILE_NAME@,
        ContentKind::GameMod => GAME_MOD_FILE_NAME@,
        ContentKind::ExtensionMod => EXTENSION_MOD_FILE_NAME@,
    }
}

/// The lowercase label of a content kind, which is also its TOML section.
pub open spec fn kind_label(kind: ContentKind) -> Seq<char> {
    match kind {
        ContentKind::Engine => "engine"@,
        ContentKind::Game => "game"@,
        ContentKind::Packagepack => "packagepack"@,
        ContentKind::Enginepack => "enginepack"@,
        ContentKind::Gamepack => "gamepack"@,
        ContentKind::Modpack => "modpack"@,
        ContentKind::EngineMod => "engine-mod"@,
        ContentKind::GameMod => "game-mod"@,
        ContentKind::ExtensionMod => "extension-mod"@,
    }
}

impl ContentKind {
    /// Role-specific manifest filename for this content kind.
    pub fn manifest_file_name(self) -> (r: &'static str)
        ensures
            r@ == kind_file_name(self),
    {
        match self {
            Self::Engine => ENGINE_FILE_NAME,
            Self::Game => GAME_FILE_NAME,
            Self::Packagepack => PACKAGEPACK_FILE_NAME,
            Self::Enginepack => ENGINEPACK_FILE_NAME,
            Self::Gamepack => GAMEPACK_FILE_NAME,
            Self::Modpack => MODPACK_FILE_NAME,
            Self::EngineMod => ENGINE_MOD_FILE_NAME,
            Self::GameMod => GAME_MOD_FILE_NAME,
            Self::ExtensionMod => EXTENSION_MOD_FILE_NAME,
        }
    }

    /// Lowercase label, as the kind is displayed and named in TOML sections.
    pub fn label(self) -> (r: &'static str)
        ensures
            r@ == kind_label(self),
    {
        match self {
            Self::Engine => "engine",
            Self::Game => "game",
            Self::Packagepack => "packagepack",
            Self::Enginepack => "enginepack",
            Self::Gamepack => "gamepack",
            Self::Modpack => "modpack",
            Self::EngineMod => "engine-mod",
            Self::GameMod => "game-mod",
            Self::ExtensionMod => "extension-mod",
        }
    }
}

/// The single identity declared by one marker file.
#[derive(Debug, Clone)]
pub enum VaporEntity {
    /// The source and Steam-depot root of the Vapor application itself.
    Root {
        /// Inferred identifier, `organization/name`.
        id: String,
        /// Local source-root name.
        name: String,
        /// Owning organization namespace.
        organization: String,
    },
    /// Registry authority root.
    Registry {
        /// Inferred identifier, `organization/name`.
        id: String,
        /// Local registry name.
        name: String,
        /// Owning organization namespace.
        organization: String,
    },
    /// A normal source workspace.
    Workspace {
        /// Inferred identifier, `organization/name`.
        id: String,
        /// Local workspace name.
        name: String,
        /// Owning organization namespace.
        organization: String,
    },
    /// One content Cargo package inside a source root.
    Content {
        /// Canonical content category.
        kind: ContentKind,
        /// Inferred identifier, `organization/workspace/content`.
        id: String,
        /// Local content name.
        name: String,
    },
}

/// The inferred identifier of an entity.
pub open spec fn entity_id(e: VaporEntity) -> Seq<char> {
    match e {
        VaporEntity::Root { id, .. } => id@,
        VaporEntity::Registry { id, .. } => id@,
        VaporEntity::Workspace { id, .. } => id@,
        VaporEntity::Content { id, .. } => id@,
    }
}

impl VaporEntity {
    /// Inferred fully-qualified identifier.
    pub fn id(&self) -> (r: &str)
        ensures
            r@ == entity_id(*self),
    {
        match self {
            Self::Root { id, .. } => id.as_str(),
            Self::Registry { id, .. } => id.as_str(),
            Self::Workspace { id, .. } => id.as_str(),
            Self::Content { id, .. } => id.as_str(),
        }
    }
}

/// Role selected by a manifest filename.
#[derive(Debug, Clone, Copy, PartialEq, Eq, Structural)]
pub enum ManifestRole {
    /// `App-Source.vapor.toml`.
    AppSource,
    /// `App.vapor.toml`.
    App,
    /// `Registry.vapor.toml`.
    Registry,
    /// `Workspace.vapor.toml`.
    Workspace,
    /// One of the content filenames.
    Content(ContentKind),
}

/// The role that a manifest filename selects, if it is a Vapor filename.
pub open spec fn role_of_file_name(name: Seq<char>) -> Option<ManifestRole> {
    if name == APP_SOURCE_FILE_NAME@ { Some(ManifestRole::AppSource) }
    else if name == APP_FILE_NAME@ { Some(ManifestRole::App) }
    else if name == REGISTRY_FILE_NAME@ { Some(ManifestRole::Registry) }
    else if name == WORKSPACE_FILE_NAME@ { Some(ManifestRole::Workspace) }
    else if name == ENGINE_FILE_NAME@ { Some(ManifestRole::Content(ContentKind::Engine)) }
    else if name == GAME_FILE_NAME@ { Some(ManifestRole::Content(ContentKind::Game)) }
    else if name == PACKAGEPACK_FILE_NAME@ { Some(ManifestRole::Content(ContentKind::Packagepack)) }
    else if name == ENGINEPACK_FILE_NAME@ { Some(ManifestRole::Content(ContentKind::Enginepack)) }
    else if name == GAMEPACK_FILE_NAME@ { Some(ManifestRole::Content(ContentKind::Gamepack)) }
    else if name == MODPACK_FILE_NAME@ { Some(ManifestRole::Content(ContentKind::Modpack)) }
    else if name == ENGINE_MOD_FILE_NAME@ { Some(ManifestRole::Content(ContentKind::EngineMod)) }
    else if name == GAME_MOD_FILE_NAME@ { Some(ManifestRole::Content(ContentKind::GameMod)) }
    else if name == EXTENSION_MOD_FILE_NAME@ { Some(ManifestRole::Content(ContentKind::ExtensionMod)) }
    else { None }
}

/// The identity section that a role requires.
pub open spec fn role_section(role: ManifestRole) -> Seq<char> {
    match role {
        ManifestRole::AppSource => "root"@,
        ManifestRole::App => "root"@,
        ManifestRole::Registry => "registry"@,
        ManifestRole::Workspace => "workspace"@,
        ManifestRole::Content(kind) => kind_label(kind),
    }
}

/// Message for a path without a filename.
pub open spec fn msg_no_file_name(path: Seq<char>) -> Seq<char> {
    "manifest path has no filename: "@ + path
}

/// Message for a filename that selects no role.
pub open spec fn msg_unknown_file_name(name: Seq<char>, path: Seq<char>) -> Seq<char> {
    "unknown Vapor manifest filename '"@ + name + "' at '"@ + path
        + "'; use role-specific *.vapor.toml filenames"@
}

impl ManifestRole {
    /// Role selected by the filename of `path`.
    ///
    /// # Errors
    ///
    /// Fails when `path` has no filename or the filename is not a Vapor role.
    pub fn from_path(path: &str) -> (r: Result<ManifestRole, String>)
        ensures
            match file_name(path@) {
                None => r matches Err(e) && e@ == msg_no_file_name(path@),
                Some(name) => match role_of_file_name(name) {
                    Some(role) => r == Ok::<ManifestRole, String>(role),
                    None => r matches Err(e) && e@ == msg_unknown_file_name(name, path@),
                },
            },
    {
        let Some(name) = file_name_of(path) else {
            return Err(concat("manifest path has no filename: ", path));
        };
        if str_eq(name, APP_SOURCE_FILE_NAME) { return Ok(Self::AppSource); }
        if str_eq(name, APP_FILE_NAME) { return Ok(Self::App); }
        if str_eq(name, REGISTRY_FILE_NAME) { return Ok(Self::Registry); }
        if str_eq(name, WORKSPACE_FILE_NAME) { return Ok(Self::Workspace); }
        if str_eq(name, ENGINE_FILE_NAME) { return Ok(Self::Content(ContentKind::Engine)); }
        if str_eq(name, GAME_FILE_NAME) { return Ok(Self::Content(ContentKind::Game)); }
        if str_eq(name, PACKAGEPACK_FILE_NAME) { return Ok(Self::Content(ContentKind::Packagepack)); }
        if str_eq(name, ENGINEPACK_FILE_NAME) { return Ok(Self::Content(ContentKind::Enginepack)); }
        if str_eq(name, GAMEPACK_FILE_NAME) { return Ok(Self::Content(ContentKind::Gamepack)); }
        if str_eq(name, MODPACK_FILE_NAME) { return Ok(Self::Content(ContentKind::Modpack)); }
        if str_eq(name, ENGINE_MOD_FILE_NAME) { return Ok(Self::Content(ContentKind::EngineMod)); }
        if str_eq(name, GAME_MOD_FILE_NAME) { return Ok(Self::Content(ContentKind::GameMod)); }
        if str_eq(name, EXTENSION_MOD_FILE_NAME) { return Ok(Self::Content(ContentKind::ExtensionMod)); }
        let mut e = concat3("unknown Vapor manifest filename '", name, "' at '");
        e.append(path);
        e.append("'; use role-specific *.vapor.toml filenames");
        Err(e)
    }

    /// Identity section required by this role.
    pub fn expected_section(self) -> (r: &'static str)
        ensures
            r@ == role_section(self),
    {
        match self {
            Self::AppSource => "root",
            Self::App => "root",
            Self::Registry => "registry",
            Self::Workspace => "workspace",
            Self::Content(kind) => kind.label(),
        }
    }
}

/// Every content kind's filename selects exactly that content role.
pub proof fn lemma_content_file_name_roundtrip(kind: ContentKind)
    ensures
        role_of_file_name(kind_file_name(kind)) == Some(ManifestRole::Content(kind)),
{
    reveal_strlit("App-Source.vapor.toml");
    reveal_strlit("App.vapor.toml");
    reveal_strlit("Workspace.vapor.toml");
    reveal_strlit("Registry.vapor.toml");
    reveal_strlit("Engine.vapor.toml");
    reveal_strlit("Game.vapor.toml");
    reveal_strlit("Packagepack.vapor.toml");
    reveal_strlit("Enginepack.vapor.toml");
    reveal_strlit("Gamepack.vapor.toml");
    reveal_strlit("Modpack.vapor.toml");
    reveal_strlit("Engine-Mod.vapor.toml");
    reveal_strlit("Game-Mod.vapor.toml");
    reveal_strlit("Extension-Mod.vapor.toml");
    assert(APP_SOURCE_FILE_NAME@[0] == 'A' && APP_SOURCE_FILE_NAME@[3] == '-');
    assert(APP_FILE_NAME@[0] == 'A' && APP_FILE_NAME@[3] == '.');
    assert(WORKSPACE_FILE_NAME@[0] == 'W');
    assert(REGISTRY_FILE_NAME@[0] == 'R');
    assert(ENGINE_FILE_NAME@[0] == 'E' && ENGINE_FILE_NAME@[6] == '.' && ENGINE_FILE_NAME@[1] == 'n');
    assert(ENGINEPACK_FILE_NAME@[0] == 'E' && ENGINEPACK_FILE_NAME@[6] == 'p');
    assert(ENGINE_MOD_FILE_NAME@[0] == 'E' && ENGINE_MOD_FILE_NAME@[6] == '-');
    assert(EXTENSION_MOD_FILE_NAME@[0] == 'E' && EXTENSION_MOD_FILE_NAME@[1] == 'x');
    assert(GAME_FILE_NAME@[0] == 'G' && GAME_FILE_NAME@[4] == '.');
    assert(GAMEPACK_FILE_NAME@[0] == 'G' && GAMEPACK_FILE_NAME@[4] == 'p');
    assert(GAME_MOD_FILE_NAME@[0] == 'G' && GAME_MOD_FILE_NAME@[4] == '-');
    assert(PACKAGEPACK_FILE_NAME@[0] == 'P');
    assert(MODPACK_FILE_NAME@[0] == 'M');
}

/// Every content kind's filename is distinct from every other kind's.
pub proof fn lemma_content_file_names_distinct(a: ContentKind, b: ContentKind)
    requires
        a != b,
    ensures
        kind_file_name(a) != kind_file_name(b),
{
    lemma_content_file_name_roundtrip(a);
    lemma_content_file_name_roundtrip(b);
}

/// Recognized source-root manifest filenames in precedence order.
pub open spec fn source_root_names() -> Seq<Seq<char>> {
    seq![APP_SOURCE_FILE_NAME@, WORKSPACE_FILE_NAME@, REGISTRY_FILE_NAME@]
}

/// Recognized root-level manifest filenames in precedence order.
pub open spec fn root_names() -> Seq<Seq<char>> {
    seq![APP_SOURCE_FILE_NAME@, APP_FILE_NAME@, WORKSPACE_FILE_NAME@, REGISTRY_FILE_NAME@]
}

/// Role-specific content manifest filenames in deterministic order.
pub open spec fn content_names() -> Seq<Seq<char>> {
    seq![ENGINE_FILE_NAME@, GAME_FILE_NAME@, PACKAGEPACK_FILE_NAME@, ENGINEPACK_FILE_NAME@,
        GAMEPACK_FILE_NAME@, MODPACK_FILE_NAME@, ENGINE_MOD_FILE_NAME@, GAME_MOD_FILE_NAME@,
        EXTENSION_MOD_FILE_NAME@]
}

/// Each of `names` joined onto `root`.
pub open spec fn joined_all(root: Seq<char>, names: Seq<Seq<char>>) -> Seq<Seq<char>> {
    Seq::new(names.len(), |i: int| join(root, names[i]))
}

/// The string views of a vector of strings.
pub open spec fn views(v: Seq<String>) -> Seq<Seq<char>> {
    Seq::new(v.len(), |i: int| v[i]@)
}

fn join_all(root: &str, names: &Vec<&'static str>) -> (r: Vec<String>)
    ensures
        views(r@) == joined_all(root@, Seq::new(names@.len(), |i: int| names@[i]@)),
{
    let mut r: Vec<String> = Vec::new();
    let mut i: usize = 0;
    while i < names.len()
        invariant
            i <= names@.len(),
            r@.len() == i,
            forall|k: int| 0 <= k < i ==> r@[k]@ == join(root@, names@[k]@),
        decreases names@.len() - i,
    {
        r.push(join_path(root, names[i]));
        i = i + 1;
    }
    assert(views(r@) =~= joined_all(root@, Seq::new(names@.len(), |i: int| names@[i]@)));
    r
}

/// Recognized source-root manifest paths in precedence order.
pub fn source_root_marker_candidates(root: &str) -> (r: Vec<String>)
    ensures
        views(r@) == joined_all(root@, source_root_names()),
{
    let names = vec![APP_SOURCE_FILE_NAME, WORKSPACE_FILE_NAME, REGISTRY_FILE_NAME];
    let r = join_all(root, &names);
    assert(Seq::new(names@.len(), |i: int| names@[i]@) =~= source_root_names());
    r
}

/// Recognized root-level manifest paths in precedence order.
pub fn root_marker_candidates(root: &str) -> (r: Vec<String>)
    ensures
        views(r@) == joined_all(root@, root_names()),
{
    let names = vec![APP_SOURCE_FILE_NAME, APP_FILE_NAME, WORKSPACE_FILE_NAME, REGISTRY_FILE_NAME];
    let r = join_all(root, &names);
    assert(Seq::new(names@.len(), |i: int| names@[i]@) =~= root_names());
    r
}

/// Role-specific content manifest paths in deterministic order.
pub fn content_marker_candidates(root: &str) -> (r: Vec<String>)
    ensures
        views(r@) == joined_all(root@, content_names()),
{
    let names = vec![
        ENGINE_FILE_NAME,
        GAME_FILE_NAME,
        PACKAGEPACK_FILE_NAME,
        ENGINEPACK_FILE_NAME,
        GAMEPACK_FILE_NAME,
        MODPACK_FILE_NAME,
        ENGINE_MOD_FILE_NAME,
        GAME_MOD_FILE_NAME,
        EXTENSION_MOD_FILE_NAME,
    ];
    let r = join_all(root, &names);
    assert(Seq::new(names@.len(), |i: int| names@[i]@) =~= content_names());
    r
}

/// Index of the first `true` flag, if any.
pub open spec fn first_true(flags: Seq<bool>) -> Option<int>
    decreases flags.len(),
{
    if flags.len() == 0 {
        None
    } else if flags[0] {
        Some(0)
    } else {
        match first_true(flags.drop_first()) {
            Some(i) => Some(i + 1),
            None => None,
        }
    }
}

proof fn lemma_first_true(flags: Seq<bool>)
    ensures
        match first_true(flags) {
            Some(i) => 0 <= i < flags.len() && flags[i] && forall|k: int| 0 <= k < i ==> !flags[k],
            None => forall|k: int| 0 <= k < flags.len() ==> !flags[k],
        },
    decreases flags.len(),
{
    if flags.len() > 0 && !flags[0] {
        lemma_first_true(flags.drop_first());
        assert forall|k: int| 1 <= k < flags.len() implies flags[k] == flags.drop_first()[k - 1] by {}
    }
}

/// Position of the first candidate that exists, given one flag per candidate.
pub fn first_existing(exists: &[bool]) -> (r: Option<usize>)
    ensures
        match first_true(exists@) {
            Some(i) => r == Some(i as usize),
            None => r.is_none(),
        },
{
    proof {
        lemma_first_true(exists@);
    }
    let mut i: usize = 0;
    while i < exists.len()
        invariant
            i <= exists@.len(),
            forall|k: int| 0 <= k < i ==> !exists@[k],
            match first_true(exists@) {
                Some(j) => 0 <= j < exists@.len() && exists@[j] && forall|k: int| 0 <= k < j ==> !exists@[k],
                None => forall|k: int| 0 <= k < exists@.len() ==> !exists@[k],
            },
        decreases exists@.len() - i,
    {
        if exists[i] {
            return Some(i);
        }
        i = i + 1;
    }
    None
}

/// Message when no source-root marker exists.
pub open spec fn msg_no_source_root(root: Seq<char>) -> Seq<char> {
    "no Vapor source-root manifest found in '"@ + root + "'; expected "@ + APP_SOURCE_FILE_NAME@
        + ", "@ + WORKSPACE_FILE_NAME@ + ", or "@ + REGISTRY_FILE_NAME@
}

/// Resolve the manifest that identifies a source root, given which of
/// [`source_root_marker_candidates`] exist as files.
///
/// # Errors
///
/// Fails when no recognized source-root marker exists at `root`.
pub fn source_root_marker(root: &str, is_file: &[bool]) -> (r: Result<String, String>)
    requires
        is_file@.len() == 3,
    ensures
        match first_true(is_file@) {
            Some(i) => r matches Ok(p) && p@ == join(root@, source_root_names()[i]),
            None => r matches Err(e) && e@ == msg_no_source_root(root@),
        },
{
    let candidates = source_root_marker_candidates(root);
    assert(source_root_names().len() == 3);
    assert(views(candidates@).len() == candidates@.len());
    match first_existing(is_file) {
        Some(i) => {
            proof {
                lemma_first_true(is_file@);
            }
            assert(candidates@[i as int]@ == views(candidates@)[i as int]);
            Ok(candidates[i].clone())
        },
        None => {
            let mut e = concat3("no Vapor source-root manifest found in '", root, "'; expected ");
            e.append(APP_SOURCE_FILE_NAME);
            e.append(", ");
            e.append(WORKSPACE_FILE_NAME);
            e.append(", or ");
            e.append(REGISTRY_FILE_NAME);
            Err(e)
        },
    }
}

/// Locate a role-specific content manifest in one directory, given which of
/// [`content_marker_candidates`] exist as files.
pub fn content_marker_at(root: &str, is_file: &[bool]) -> (r: Option<String>)
    requires
        is_file@.len() == 9,
    ensures
        match first_true(is_file@) {
            Some(i) => r matches Some(p) && p@ == join(root@, content_names()[i]),
            None => r.is_none(),
        },
{
    let candidates = content_marker_candidates(root);
    assert(content_names().len() == 9);
    assert(views(candidates@).len() == candidates@.len());
    match first_existing(is_file) {
        Some(i) => {
            proof {
                lemma_first_true(is_file@);
            }
            assert(candidates@[i as int]@ == views(candidates@)[i as int]);
            Some(candidates[i].clone())
        },
        None => None,
    }
}

} // verus!

verus! {

/// `[root]`, `[registry]` or `[workspace]` metadata.
#[derive(Debug, Clone)]
pub struct GlobalMetadata {
    /// Declared local name.
    pub name: String,
    /// Declared owning organization.
    pub organization: String,
    /// Removed declaration-side identifier; its presence is rejected.
    pub id: Option<String>,
}

/// Metadata of one content section.
#[derive(Debug, Clone)]
pub struct LocalMetadata {
    /// Declared local name.
    pub name: String,
    /// Removed declaration-side identifier; its presence is rejected.
    pub id: Option<String>,
    /// Removed role field; its presence is rejected.
    pub kind: Option<String>,
}

/// Parsed identity sections of one Vapor manifest.
#[derive(Debug, Clone)]
pub struct VaporToml {
    /// `[root]`.
    pub root: Option<GlobalMetadata>,
    /// `[registry]`.
    pub registry: Option<GlobalMetadata>,
    /// `[workspace]`.
    pub workspace: Option<GlobalMetadata>,
    /// `[engine]`.
    pub engine: Option<LocalMetadata>,
    /// `[game]`.
    pub game: Option<LocalMetadata>,
    /// `[packagepack]`.
    pub packagepack: Option<LocalMetadata>,
    /// `[enginepack]`.
    pub enginepack: Option<LocalMetadata>,
    /// `[gamepack]`.
    pub gamepack: Option<LocalMetadata>,
    /// `[modpack]`.
    pub modpack: Option<LocalMetadata>,
    /// `[engine-mod]`.
    pub engine_mod: Option<LocalMetadata>,
    /// `[game-mod]`.
    pub game_mod: Option<LocalMetadata>,
    /// `[extension-mod]`.
    pub extension_mod: Option<LocalMetadata>,
}

/// The characters of a valid declared name.
pub open spec fn is_name_char(c: char) -> bool {
    is_lower(c) || is_digit(c) || c == '-' || c == '_'
}

/// Every character of `s` is a valid name character.
pub open spec fn all_name_chars(s: Seq<char>) -> bool {
    forall|i: int| 0 <= i < s.len() ==> is_name_char(#[trigger] s[i])
}

/// The character view of a string result.
pub open spec fn str_result(r: Result<String, String>) -> Result<Seq<char>, Seq<char>> {
    match r {
        Ok(s) => Ok(s@),
        Err(e) => Err(e@),
    }
}

/// The character view of an optional string.
pub open spec fn opt_view(o: Option<String>) -> Option<Seq<char>> {
    match o {
        Some(s) => Some(s@),
        None => None,
    }
}

/// The outcome of validating a declared name: trimmed, non-empty, and made
/// only of lowercase letters, digits, `-` and `_`.
pub open spec fn name_outcome(value: Seq<char>, label: Seq<char>, path: Seq<char>) -> Result<Seq<char>, Seq<char>> {
    let t = trim(value);
    if t.len() == 0 {
        Err(label + " in '"@ + path + "' must not be empty"@)
    } else if !all_name_chars(t) {
        Err(label + " in '"@ + path + "' must use lowercase ASCII letters, digits, '-' or '_'"@)
    } else {
        Ok(t)
    }
}

/// Validate a declared name.
///
/// # Errors
///
/// Fails for an empty name or one with characters outside `a-z0-9-_`.
pub fn validate_name(value: &str, label: &str, path: &str) -> (r: Result<String, String>)
    ensures
        str_result(r) == name_outcome(value@, label@, path@),
{
    let trimmed = trim_str(value);
    let n = trimmed.unicode_len();
    if n == 0 {
        let mut e = concat3(label, " in '", path);
        e.append("' must not be empty");
        return Err(e);
    }
    let mut i: usize = 0;
    while i < n
        invariant
            n == trimmed@.len(),
            trimmed@ == trim(value@),
            i <= n,
            forall|k: int| 0 <= k < i ==> is_name_char(#[trigger] trimmed@[k]),
        decreases n - i,
    {
        let c = trimmed.get_char(i);
        if !(('a' <= c && c <= 'z') || ('0' <= c && c <= '9') || c == '-' || c == '_') {
            assert(!is_name_char(trimmed@[i as int]));
            assert(!all_name_chars(trimmed@));
            assert(trimmed@ == trim(value@));
            let mut e = concat3(label, " in '", path);
            e.append("' must use lowercase ASCII letters, digits, '-' or '_'");
            return Err(e);
        }
        i = i + 1;
    }
    Ok(owned(trimmed))
}

/// Message for a removed `id` field.
pub open spec fn msg_removed_id(section: Seq<char>, path: Seq<char>) -> Seq<char> {
    section + " in '"@ + path + "' uses removed field `id`; declarations use `name`, and full IDs are inferred"@
}

/// Message for a removed `kind` field.
pub open spec fn msg_removed_kind(section: Seq<char>, path: Seq<char>) -> Seq<char> {
    section + " in '"@ + path + "' uses removed field `kind`; content role is selected by the manifest filename"@
}

/// Outcome of validating global metadata: `(name, organization)`.
pub open spec fn global_outcome(m: GlobalMetadata, section: Seq<char>, path: Seq<char>) -> Result<(Seq<char>, Seq<char>), Seq<char>> {
    if m.id.is_some() {
        Err(msg_removed_id(section, path))
    } else {
        match name_outcome(m.name@, section + " name"@, path) {
            Err(e) => Err(e),
            Ok(name) => match name_outcome(m.organization@, section + " organization"@, path) {
                Err(e) => Err(e),
                Ok(org) => Ok((name, org)),
            },
        }
    }
}

/// Outcome of validating content metadata: the name.
pub open spec fn local_outcome(m: LocalMetadata, section: Seq<char>, path: Seq<char>) -> Result<Seq<char>, Seq<char>> {
    if m.id.is_some() {
        Err(msg_removed_id(section, path))
    } else if m.kind.is_some() {
        Err(msg_removed_kind(section, path))
    } else {
        name_outcome(m.name@, section + " name"@, path)
    }
}

fn validate_global(m: &GlobalMetadata, section: &str, path: &str) -> (r: Result<(String, String), String>)
    ensures
        match r {
            Ok((a, b)) => global_outcome(*m, section@, path@) == Ok::<(Seq<char>, Seq<char>), Seq<char>>((a@, b@)),
            Err(e) => global_outcome(*m, section@, path@) == Err::<(Seq<char>, Seq<char>), Seq<char>>(e@),
        },
{
    if m.id.is_some() {
        let mut e = concat3(section, " in '", path);
        e.append("' uses removed field `id`; declarations use `name`, and full IDs are inferred");
        return Err(e);
    }
    let name_label = concat(section, " name");
    let name = match validate_name(m.name.as_str(), name_label.as_str(), path) {
        Ok(n) => n,
        Err(e) => return Err(e),
    };
    let org_label = concat(section, " organization");
    let org = match validate_name(m.organization.as_str(), org_label.as_str(), path) {
        Ok(n) => n,
        Err(e) => return Err(e),
    };
    Ok((name, org))
}

fn validate_local(m: &LocalMetadata, section: &str, path: &str) -> (r: Result<String, String>)
    ensures
        str_result(r) == local_outcome(*m, section@, path@),
{
    if m.id.is_some() {
        let mut e = concat3(section, " in '", path);
        e.append("' uses removed field `id`; declarations use `name`, and full IDs are inferred");
        return Err(e);
    }
    if m.kind.is_some() {
        let mut e = concat3(section, " in '", path);
        e.append("' uses removed field `kind`; content role is selected by the manifest filename");
        return Err(e);
    }
    let label = concat(section, " name");
    validate_name(m.name.as_str(), label.as_str(), path)
}

/// `s` with `x` appended when `cond` holds.
pub open spec fn push_if(s: Seq<Seq<char>>, cond: bool, x: Seq<char>) -> Seq<Seq<char>> {
    if cond { s.push(x) } else { s }
}

/// Identity sections present in a document, in declaration order.
pub open spec fn present_sections(d: VaporToml) -> Seq<Seq<char>> {
    push_if(push_if(push_if(push_if(push_if(push_if(push_if(push_if(push_if(push_if(push_if(push_if(
        Seq::empty(),
        d.root.is_some(), "root"@),
        d.registry.is_some(), "registry"@),
        d.workspace.is_some(), "workspace"@),
        d.engine.is_some(), "engine"@),
        d.game.is_some(), "game"@),
        d.packagepack.is_some(), "packagepack"@),
        d.enginepack.is_some(), "enginepack"@),
        d.gamepack.is_some(), "gamepack"@),
        d.modpack.is_some(), "modpack"@),
        d.engine_mod.is_some(), "engine-mod"@),
        d.game_mod.is_some(), "game-mod"@),
        d.extension_mod.is_some(), "extension-mod"@)
}

/// Character views of a vector of string slices.
pub open spec fn str_views(v: Seq<&str>) -> Seq<Seq<char>> {
    Seq::new(v.len(), |i: int| v[i]@)
}

fn push_label(v: &mut Vec<&'static str>, cond: bool, label: &'static str)
    ensures
        str_views(final(v)@) == push_if(str_views(old(v)@), cond, label@),
{
    if cond {
        v.push(label);
    }
    assert(str_views(v@) =~= push_if(str_views(old(v)@), cond, label@));
}

/// Message for a missing identity section.
pub open spec fn msg_missing_section(section: Seq<char>, path: Seq<char>) -> Seq<char> {
    "'"@ + path + "' must declare ["@ + section + "] because of its role-specific filename"@
}

/// The filename shown in section diagnostics.
pub open spec fn shown_file_name(path: Seq<char>) -> Seq<char> {
    match file_name(path) {
        Some(n) => n,
        None => "manifest"@,
    }
}

/// Outcome of checking that a document declares exactly its role's section.
pub open spec fn sections_outcome(d: VaporToml, role: ManifestRole, path: Seq<char>) -> Result<(), Seq<char>> {
    let present = present_sections(d);
    let expected = role_section(role);
    if present.len() == 0 {
        Err(msg_missing_section(expected, path))
    } else if present.len() > 1 {
        Err("'"@ + path + "' declares multiple Vapor identity sections; "@ + shown_file_name(path)
            + " must contain exactly ["@ + expected + "]"@)
    } else if present[0] != expected {
        Err("'"@ + path + "' declares ["@ + present[0] + "], but "@ + shown_file_name(path)
            + " requires ["@ + expected + "]"@)
    } else {
        Ok(())
    }
}

fn present_identity_sections(d: &VaporToml) -> (r: Vec<&'static str>)
    ensures
        str_views(r@) == present_sections(*d),
{
    let mut v: Vec<&'static str> = Vec::new();
    assert(str_views(v@) =~= Seq::<Seq<char>>::empty());
    push_label(&mut v, d.root.is_some(), "root");
    push_label(&mut v, d.registry.is_some(), "registry");
    push_label(&mut v, d.workspace.is_some(), "workspace");
    push_label(&mut v, d.engine.is_some(), "engine");
    push_label(&mut v, d.game.is_some(), "game");
    push_label(&mut v, d.packagepack.is_some(), "packagepack");
    push_label(&mut v, d.enginepack.is_some(), "enginepack");
    push_label(&mut v, d.gamepack.is_some(), "gamepack");
    push_label(&mut v, d.modpack.is_some(), "modpack");
    push_label(&mut v, d.engine_mod.is_some(), "engine-mod");
    push_label(&mut v, d.game_mod.is_some(), "game-mod");
    push_label(&mut v, d.extension_mod.is_some(), "extension-mod");
    v
}

fn shown_name(path: &str) -> (r: &str)
    ensures
        r@ == shown_file_name(path@),
{
    match file_name_of(path) {
        Some(n) => n,
        None => "manifest",
    }
}

fn missing_section(section: &str, path: &str) -> (r: String)
    ensures
        r@ == msg_missing_section(section@, path@),
{
    let mut e = concat3("'", path, "' must declare [");
    e.append(section);
    e.append("] because of its role-specific filename");
    e
}

fn reject_extra_sections(d: &VaporToml, role: ManifestRole, path: &str) -> (r: Result<(), String>)
    ensures
        match r {
            Ok(()) => sections_outcome(*d, role, path@) == Ok::<(), Seq<char>>(()),
            Err(e) => sections_outcome(*d, role, path@) == Err::<(), Seq<char>>(e@),
        },
{
    let expected = role.expected_section();
    let present = present_identity_sections(d);
    assert(present@.len() == str_views(present@).len());
    if present.len() == 0 {
        return Err(missing_section(expected, path));
    }
    if present.len() > 1 {
        let mut e = concat3("'", path, "' declares multiple Vapor identity sections; ");
        e.append(shown_name(path));
        e.append(" must contain exactly [");
        e.append(expected);
        e.append("]");
        return Err(e);
    }
    assert(present@[0]@ == present_sections(*d)[0]);
    if !str_eq(present[0], expected) {
        let mut e = concat3("'", path, "' declares [");
        e.append(present[0]);
        e.append("], but ");
        e.append(shown_name(path));
        e.append(" requires [");
        e.append(expected);
        e.append("]");
        return Err(e);
    }
    Ok(())
}

/// The metadata of one content section of a document.
pub open spec fn content_section(d: VaporToml, kind: ContentKind) -> Option<LocalMetadata> {
    match kind {
        ContentKind::Engine => d.engine,
        ContentKind::Game => d.game,
        ContentKind::Packagepack => d.packagepack,
        ContentKind::Enginepack => d.enginepack,
        ContentKind::Gamepack => d.gamepack,
        ContentKind::Modpack => d.modpack,
        ContentKind::EngineMod => d.engine_mod,
        ContentKind::GameMod => d.game_mod,
        ContentKind::ExtensionMod => d.extension_mod,
    }
}

/// The global section that a non-content role reads.
pub open spec fn global_section(d: VaporToml, role: ManifestRole) -> Option<GlobalMetadata> {
    match role {
        ManifestRole::AppSource => d.root,
        ManifestRole::App => d.root,
        ManifestRole::Registry => d.registry,
        ManifestRole::Workspace => d.workspace,
        ManifestRole::Content(_) => None,
    }
}

/// `organization/name`.
pub open spec fn qualified(org: Seq<char>, name: Seq<char>) -> Seq<char> {
    org + "/"@ + name
}

/// Message for a manifest that cannot identify a source root.
pub open spec fn msg_not_source_root(path: Seq<char>) -> Seq<char> {
    "'"@ + path + "' cannot identify a source root; expected "@ + APP_SOURCE_FILE_NAME@ + ", "@
        + WORKSPACE_FILE_NAME@ + ", or "@ + REGISTRY_FILE_NAME@
}

/// Message for content declared in a source-root marker.
pub open spec fn msg_content_without_prefix(section: Seq<char>, path: Seq<char>) -> Seq<char> {
    section + " in '"@ + path + "' cannot be the source root identity; declare [root] in "@
        + APP_SOURCE_FILE_NAME@ + ", or [workspace] in "@ + WORKSPACE_FILE_NAME@ + ", and move "@
        + section + " into a Cargo package directory"@
}

/// Outcome of identifying a source root: its `organization/name`.
pub open spec fn source_identity_outcome(d: VaporToml, role: ManifestRole, path: Seq<char>) -> Result<Seq<char>, Seq<char>> {
    match sections_outcome(d, role, path) {
        Err(e) => Err(e),
        Ok(()) => match role {
            ManifestRole::App => Err(msg_not_source_root(path)),
            ManifestRole::Content(_) => Err(msg_not_source_root(path)),
            _ => match global_section(d, role) {
                None => Err(msg_missing_section(role_section(role), path)),
                Some(m) => match global_outcome(m, "["@ + role_section(role) + "]"@, path) {
                    Err(e) => Err(e),
                    Ok((name, org)) => Ok(qualified(org, name)),
                },
            },
        },
    }
}

/// What a manifest identifies, with plain character fields.
pub enum EntityView {
    /// `[root]`: id, name, organization.
    Root(Seq<char>, Seq<char>, Seq<char>),
    /// `[registry]`: id, name, organization.
    Registry(Seq<char>, Seq<char>, Seq<char>),
    /// `[workspace]`: id, name, organization.
    Workspace(Seq<char>, Seq<char>, Seq<char>),
    /// Content: kind, id, name.
    Content(ContentKind, Seq<char>, Seq<char>),
}

/// The plain view of an entity.
pub open spec fn entity_view(e: VaporEntity) -> EntityView {
    match e {
        VaporEntity::Root { id, name, organization } => EntityView::Root(id@, name@, organization@),
        VaporEntity::Registry { id, name, organization } => EntityView::Registry(id@, name@, organization@),
        VaporEntity::Workspace { id, name, organization } => EntityView::Workspace(id@, name@, organization@),
        VaporEntity::Content { kind, id, name } => EntityView::Content(kind, id@, name@),
    }
}

/// Outcome of reading a document in its role: the entity it declares.
pub open spec fn entity_outcome(d: VaporToml, role: ManifestRole, path: Seq<char>, prefix: Option<Seq<char>>) -> Result<EntityView, Seq<char>> {
    match sections_outcome(d, role, path) {
        Err(e) => Err(e),
        Ok(()) => match role {
            ManifestRole::Content(kind) => {
                let section = "["@ + kind_label(kind) + "]"@;
                match content_section(d, kind) {
                    None => Err(msg_missing_section(role_section(role), path)),
                    Some(m) => match local_outcome(m, section, path) {
                        Err(e) => Err(e),
                        Ok(name) => match prefix {
                            None => Err(msg_content_without_prefix(section, path)),
                            Some(p) => Ok(EntityView::Content(kind, p + "/"@ + name, name)),
                        },
                    },
                }
            },
            _ => match global_section(d, role) {
                None => Err(msg_missing_section(role_section(role), path)),
                Some(m) => match global_outcome(m, "["@ + role_section(role) + "]"@, path) {
                    Err(e) => Err(e),
                    Ok((name, org)) => Ok(
                        match role {
                            ManifestRole::Registry => EntityView::Registry(qualified(org, name), name, org),
                            ManifestRole::Workspace => EntityView::Workspace(qualified(org, name), name, org),
                            _ => EntityView::Root(qualified(org, name), name, org),
                        },
                    ),
                },
            },
        },
    }
}

fn global_for(d: &VaporToml, role: ManifestRole) -> (r: Option<&GlobalMetadata>)
    ensures
        match global_section(*d, role) {
            Some(m) => r == Some(&m),
            None => r.is_none(),
        },
{
    match role {
        ManifestRole::AppSource => d.root.as_ref(),
        ManifestRole::App => d.root.as_ref(),
        ManifestRole::Registry => d.registry.as_ref(),
        ManifestRole::Workspace => d.workspace.as_ref(),
        ManifestRole::Content(_) => None,
    }
}

fn content_for(d: &VaporToml, kind: ContentKind) -> (r: Option<&LocalMetadata>)
    ensures
        match content_section(*d, kind) {
            Some(m) => r == Some(&m),
            None => r.is_none(),
        },
{
    match kind {
        ContentKind::Engine => d.engine.as_ref(),
        ContentKind::Game => d.game.as_ref(),
        ContentKind::Packagepack => d.packagepack.as_ref(),
        ContentKind::Enginepack => d.enginepack.as_ref(),
        ContentKind::Gamepack => d.gamepack.as_ref(),
        ContentKind::Modpack => d.modpack.as_ref(),
        ContentKind::EngineMod => d.engine_mod.as_ref(),
        ContentKind::GameMod => d.game_mod.as_ref(),
        ContentKind::ExtensionMod => d.extension_mod.as_ref(),
    }
}

fn not_source_root(path: &str) -> (r: String)
    ensures
        r@ == msg_not_source_root(path@),
{
    let mut e = concat3("'", path, "' cannot identify a source root; expected ");
    e.append(APP_SOURCE_FILE_NAME);
    e.append(", ");
    e.append(WORKSPACE_FILE_NAME);
    e.append(", or ");
    e.append(REGISTRY_FILE_NAME);
    e
}

impl VaporToml {
    /// The `organization/name` identity of a source-root marker.
    ///
    /// # Errors
    ///
    /// Fails when the document does not declare exactly its role's section,
    /// the role cannot identify a source root, or the metadata is invalid.
    pub fn source_identity(&self, role: ManifestRole, path: &str) -> (r: Result<String, String>)
        ensures
            str_result(r) == source_identity_outcome(*self, role, path@),
    {
        match reject_extra_sections(self, role, path) {
            Ok(()) => {},
            Err(e) => return Err(e),
        }
        match role {
            ManifestRole::App => return Err(not_source_root(path)),
            ManifestRole::Content(_) => return Err(not_source_root(path)),
            _ => {},
        }
        let expected = role.expected_section();
        let Some(m) = global_for(self, role) else {
            return Err(missing_section(expected, path));
        };
        let section = concat3("[", expected, "]");
        match validate_global(m, section.as_str(), path) {
            Ok((name, org)) => Ok(concat3(org.as_str(), "/", name.as_str())),
            Err(e) => Err(e),
        }
    }

    /// The entity that this document declares in `role`; `prefix` is the
    /// owning source-root identity, absent when the document is itself a
    /// root-level marker.
    ///
    /// # Errors
    ///
    /// Fails when the document does not declare exactly its role's section,
    /// its metadata is invalid, or content appears without an owning prefix.
    pub fn into_entity(&self, role: ManifestRole, path: &str, prefix: Option<&str>) -> (r: Result<VaporEntity, String>)
        ensures
            match r {
                Ok(e) => entity_outcome(*self, role, path@, match prefix { Some(p) => Some(p@), None => None }) == Ok::<EntityView, Seq<char>>(entity_view(e)),
                Err(e) => entity_outcome(*self, role, path@, match prefix { Some(p) => Some(p@), None => None }) == Err::<EntityView, Seq<char>>(e@),
            },
    {
        match reject_extra_sections(self, role, path) {
            Ok(()) => {},
            Err(e) => return Err(e),
        }
        let expected = role.expected_section();
        match role {
            ManifestRole::Content(kind) => {
                let section = concat3("[", kind.label(), "]");
                let Some(m) = content_for(self, kind) else {
                    return Err(missing_section(expected, path));
                };
                let name = match validate_local(m, section.as_str(), path) {
                    Ok(n) => n,
                    Err(e) => return Err(e),
                };
                let Some(p) = prefix else {
                    let mut e = concat3(section.as_str(), " in '", path);
                    e.append("' cannot be the source root identity; declare [root] in ");
                    e.append(APP_SOURCE_FILE_NAME);
                    e.append(", or [workspace] in ");
                    e.append(WORKSPACE_FILE_NAME);
                    e.append(", and move ");
                    e.append(section.as_str());
                    e.append(" into a Cargo package directory");
                    return Err(e);
                };
                let id = concat3(p, "/", name.as_str());
                Ok(VaporEntity::Content { kind, id, name })
            },
            _ => {
                let Some(m) = global_for(self, role) else {
                    return Err(missing_section(expected, path));
                };
                let section = concat3("[", expected, "]");
                let (name, organization) = match validate_global(m, section.as_str(), path) {
                    Ok(v) => v,
                    Err(e) => return Err(e),
                };
                let id = concat3(organization.as_str(), "/", name.as_str());
                match role {
                    ManifestRole::Registry => Ok(VaporEntity::Registry { id, name, organization }),
                    ManifestRole::Workspace => Ok(VaporEntity::Workspace { id, name, organization }),
                    _ => Ok(VaporEntity::Root { id, name, organization }),
                }
            },
        }
    }
}

/// Message for a manifest outside its source root.
pub open spec fn msg_boundary(path: Seq<char>, root: Seq<char>) -> Seq<char> {
    "Vapor source boundary violation: '"@ + path + "' is outside '"@ + root + "'"@
}

/// Check a resolved manifest path against its source root before reading it.
///
/// # Errors
///
/// Fails when the manifest escapes `source_root` or is not a file.
pub fn check_manifest_location(canonical_path: &str, source_root: &str, is_file: bool) -> (r: Result<(), String>)
    ensures
        !within(canonical_path@, source_root@) ==> (r matches Err(e) && e@ == msg_boundary(canonical_path@, source_root@)),
        within(canonical_path@, source_root@) && !is_file ==> (r matches Err(e) && e@ == "metadata path is not a file: "@ + canonical_path@),
        within(canonical_path@, source_root@) && is_file ==> r is Ok,
{
    if !is_within(canonical_path, source_root) {
        let mut e = concat3("Vapor source boundary violation: '", canonical_path, "' is outside '");
        e.append(source_root);
        e.append("'");
        return Err(e);
    }
    if !is_file {
        return Err(concat("metadata path is not a file: ", canonical_path));
    }
    Ok(())
}

} // verus!
