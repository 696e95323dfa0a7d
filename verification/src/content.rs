//! Workshop/content artifacts, their lifecycle reports, and the rules that
//! decide validation, installation order, selection, and generated files.

use vstd::prelude::*;
use crate::text::{strings_contain, concat, concat3, owned, str_eq, is_alnum, is_lower, is_upper, is_digit, has_char, contains_char, contains, has_infix, decimal, decimal_string, trim, trim_str};
use crate::paths::{join, join_path};
use crate::manifest::{ContentKind, kind_label, opt_view};
use crate::discovery::InstallationPaths;

verus! {

/// Schema version written into generated content state.
pub const CONTENT_STATE_SCHEMA: u32 = 1;
/// Identifier of the tree fingerprint algorithm.
pub const FINGERPRINT_ALGORITHM: &'static str = "vapor-fnv1a-64-v1";

/// Canonical app-root layout for generated content state.
#[derive(Debug, Clone)]
pub struct ContentLayout {
    /// Runtime content root.
    pub app_content: String,
    /// Provider-observed Steam Workshop download records.
    pub steam_downloads: String,
    /// Vapor-managed package cache root.
    pub cache: String,
    /// Active installed content root.
    pub installed: String,
    /// Disabled but retained content root.
    pub disabled: String,
    /// Corrupted or incomplete content quarantine root.
    pub quarantine: String,
    /// Content package staging output.
    pub output_packages: String,
    /// Steam/Workshop script preview output.
    pub output_scripts: String,
    /// Generated content state root.
    pub state: String,
    /// Generated resolution lock directory.
    pub locks: String,
    /// Operation receipt directory.
    pub receipts: String,
    /// Selected packagepack state path.
    pub selection: String,
    /// Installed-content index path.
    pub index: String,
}

impl ContentLayout {
    /// Build layout paths under the Steam installation/app root.
    pub fn new(installation: &InstallationPaths) -> (r: Self)
        ensures
            ({
                let app_content = join(installation@.root, "content"@);
                let state = join(join(join(installation@.root, ".vapor"@), "state"@), "content"@);
                &&& r.app_content@ == app_content
                &&& r.steam_downloads@ == join(app_content, "workshop/downloads"@)
                &&& r.cache@ == join(app_content, "cache"@)
                &&& r.installed@ == join(app_content, "installed"@)
                &&& r.disabled@ == join(app_content, "disabled"@)
                &&& r.quarantine@ == join(app_content, "quarantine"@)
                &&& r.output_packages@ == join(installation@.root, "output/content/packages"@)
                &&& r.output_scripts@ == join(installation@.root, "output/content/scripts"@)
                &&& r.state@ == state
                &&& r.locks@ == join(state, "locks"@)
                &&& r.receipts@ == join(state, "receipts"@)
                &&& r.selection@ == join(state, "selection.toml"@)
                &&& r.index@ == join(state, "index.toml"@)
            }),
    {
        let app_content = join_path(installation.root(), "content");
        let state_dir = installation.state_dir();
        let state = join_path(state_dir.as_str(), "content");
        Self {
            steam_downloads: join_path(app_content.as_str(), "workshop/downloads"),
            cache: join_path(app_content.as_str(), "cache"),
            installed: join_path(app_content.as_str(), "installed"),
            disabled: join_path(app_content.as_str(), "disabled"),
            quarantine: join_path(app_content.as_str(), "quarantine"),
            output_packages: join_path(installation.root(), "output/content/packages"),
            output_scripts: join_path(installation.root(), "output/content/scripts"),
            app_content,
            locks: join_path(state.as_str(), "locks"),
            receipts: join_path(state.as_str(), "receipts"),
            selection: join_path(state.as_str(), "selection.toml"),
            index: join_path(state.as_str(), "index.toml"),
            state,
        }
    }

    /// Runtime content root.
    pub fn app_content(&self) -> (r: &str)
        ensures
            r@ == self.app_content@,
    {
        self.app_content.as_str()
    }

    /// Provider-observed Steam Workshop download records.
    pub fn steam_downloads(&self) -> (r: &str)
        ensures
            r@ == self.steam_downloads@,
    {
        self.steam_downloads.as_str()
    }

    /// Vapor-managed package cache root.
    pub fn cache(&self) -> (r: &str)
        ensures
            r@ == self.cache@,
    {
        self.cache.as_str()
    }

    /// Active installed content root.
    pub fn installed(&self) -> (r: &str)
        ensures
            r@ == self.installed@,
    {
        self.installed.as_str()
    }

    /// Disabled but retained content root.
    pub fn disabled(&self) -> (r: &str)
        ensures
            r@ == self.disabled@,
    {
        self.disabled.as_str()
    }

    /// Corrupted or incomplete content quarantine root.
    pub fn quarantine(&self) -> (r: &str)
        ensures
            r@ == self.quarantine@,
    {
        self.quarantine.as_str()
    }

    /// Content package staging output.
    pub fn output_packages(&self) -> (r: &str)
        ensures
            r@ == self.output_packages@,
    {
        self.output_packages.as_str()
    }

    /// Steam/Workshop script preview output.
    pub fn output_scripts(&self) -> (r: &str)
        ensures
            r@ == self.output_scripts@,
    {
        self.output_scripts.as_str()
    }

    /// Generated content state root.
    pub fn state(&self) -> (r: &str)
        ensures
            r@ == self.state@,
    {
        self.state.as_str()
    }

    /// Generated resolution lock directory.
    pub fn locks(&self) -> (r: &str)
        ensures
            r@ == self.locks@,
    {
        self.locks.as_str()
    }

    /// Operation receipt directory.
    pub fn receipts(&self) -> (r: &str)
        ensures
            r@ == self.receipts@,
    {
        self.receipts.as_str()
    }

    /// Selected packagepack state path.
    pub fn selection(&self) -> (r: &str)
        ensures
            r@ == self.selection@,
    {
        self.selection.as_str()
    }

    /// Installed-content index path.
    pub fn index(&self) -> (r: &str)
        ensures
            r@ == self.index@,
    {
        self.index.as_str()
    }

}

/// Target-specific deployed runtime payload.
#[derive(Debug, Clone)]
pub struct RuntimePayload {
    /// Rust target triple.
    pub target: String,
    /// Runtime executables under `bin/<target>`.
    pub binaries: Vec<String>,
    /// Runtime libraries under `lib/<target>`.
    pub libraries: Vec<String>,
}

/// Authored dependency, conflict, or composition reference.
#[derive(Debug, Clone)]
pub struct ContentReference {
    /// Referenced artifact ID.
    pub id: String,
    /// Relationship label, such as `dependency`, `engine`, or `conflict`.
    pub relationship: String,
    /// Whether missing referenced content is acceptable.
    pub optional: bool,
    /// Required version expression, when declared.
    pub version: Option<String>,
    /// Referenced Workshop item ID, when declared.
    pub workshop_id: Option<String>,
    /// Human-readable reason, when declared.
    pub reason: Option<String>,
}

/// The relationship of a reference that declares none.
pub fn default_reference_relationship() -> (r: String)
    ensures
        r@ == "dependency"@,
{
    owned("dependency")
}

impl ContentReference {
    /// Referenced artifact ID.
    pub fn id(&self) -> (r: &str)
        ensures
            r@ == self.id@,
    {
        self.id.as_str()
    }

    /// Relationship label, such as `dependency`, `engine`, or `conflict`.
    pub fn relationship(&self) -> (r: &str)
        ensures
            r@ == self.relationship@,
    {
        self.relationship.as_str()
    }

    /// Whether missing referenced content is acceptable.
    pub fn optional(&self) -> (r: bool)
        ensures
            r == self.optional,
    {
        self.optional
    }

    /// Required version expression, when declared.
    pub fn version(&self) -> (r: Option<&str>)
        ensures
            match self.version {
                Some(v) => r matches Some(s) && s@ == v@,
                None => r.is_none(),
            },
    {
        match &self.version {
            Some(v) => Some(v.as_str()),
            None => None,
        }
    }

    /// Referenced Workshop item ID, when declared.
    pub fn workshop_id(&self) -> (r: Option<&str>)
        ensures
            match self.workshop_id {
                Some(v) => r matches Some(s) && s@ == v@,
                None => r.is_none(),
            },
    {
        match &self.workshop_id {
            Some(v) => Some(v.as_str()),
            None => None,
        }
    }

    /// Human-readable reason, when declared.
    pub fn reason(&self) -> (r: Option<&str>)
        ensures
            match self.reason {
                Some(v) => r matches Some(s) && s@ == v@,
                None => r.is_none(),
            },
    {
        match &self.reason {
            Some(v) => Some(v.as_str()),
            None => None,
        }
    }

}

/// A copy of an optional string.
pub fn copy_optional(o: &Option<String>) -> (r: Option<String>)
    ensures
        r == *o,
{
    match o {
        Some(s) => Some(s.clone()),
        None => None,
    }
}

/// A copy of a list of strings.
pub fn copy_strings(v: &[String]) -> (r: Vec<String>)
    ensures
        r@ == v@,
{
    let mut r: Vec<String> = Vec::new();
    let mut i: usize = 0;
    while i < v.len()
        invariant
            i <= v@.len(),
            r@ == v@.subrange(0, i as int),
        decreases v@.len() - i,
    {
        r.push(v[i].clone());
        proof {
            assert(r@ =~= v@.subrange(0, i + 1));
        }
        i = i + 1;
    }
    proof {
        assert(v@.subrange(0, v@.len() as int) =~= v@);
    }
    r
}

impl ContentReference {
    /// A field-for-field copy.
    pub fn duplicate(&self) -> (r: Self)
        ensures
            r == *self,
    {
        ContentReference {
            id: self.id.clone(),
            relationship: self.relationship.clone(),
            optional: self.optional,
            version: copy_optional(&self.version),
            workshop_id: copy_optional(&self.workshop_id),
            reason: copy_optional(&self.reason),
        }
    }
}

/// A copy of a list of references.
pub fn copy_references(v: &[ContentReference]) -> (r: Vec<ContentReference>)
    ensures
        r@ == v@,
{
    let mut r: Vec<ContentReference> = Vec::new();
    let mut i: usize = 0;
    while i < v.len()
        invariant
            i <= v@.len(),
            r@ == v@.subrange(0, i as int),
        decreases v@.len() - i,
    {
        r.push(v[i].duplicate());
        proof {
            assert(r@ =~= v@.subrange(0, i + 1));
        }
        i = i + 1;
    }
    proof {
        assert(v@.subrange(0, v@.len() as int) =~= v@);
    }
    r
}

/// Authored Workshop publication policy for one artifact.
#[derive(Debug, Clone)]
pub struct WorkshopPolicy {
    /// Steam AppID targeted by this Workshop item.
    pub app_id: Option<u32>,
    /// PublishedFileId for an existing Workshop item.
    pub published_file_id: Option<String>,
    /// Authored visibility string.
    pub visibility: Option<String>,
    /// Authored Workshop title.
    pub title: Option<String>,
    /// Authored Workshop description.
    pub description: Option<String>,
    /// Authored Workshop tags.
    pub tags: Vec<String>,
    /// Default update note.
    pub change_note: Option<String>,
}

impl WorkshopPolicy {
    /// Steam AppID targeted by this Workshop item.
    pub fn app_id(&self) -> (r: Option<u32>)
        ensures
            r == self.app_id,
    {
        self.app_id
    }

    /// PublishedFileId for an existing Workshop item.
    pub fn published_file_id(&self) -> (r: Option<&str>)
        ensures
            match self.published_file_id {
                Some(v) => r matches Some(s) && s@ == v@,
                None => r.is_none(),
            },
    {
        match &self.published_file_id {
            Some(v) => Some(v.as_str()),
            None => None,
        }
    }

    /// Authored visibility string.
    pub fn visibility(&self) -> (r: Option<&str>)
        ensures
            match self.visibility {
                Some(v) => r matches Some(s) && s@ == v@,
                None => r.is_none(),
            },
    {
        match &self.visibility {
            Some(v) => Some(v.as_str()),
            None => None,
        }
    }

    /// Authored Workshop title.
    pub fn title(&self) -> (r: Option<&str>)
        ensures
            match self.title {
                Some(v) => r matches Some(s) && s@ == v@,
                None => r.is_none(),
            },
    {
        match &self.title {
            Some(v) => Some(v.as_str()),
            None => None,
        }
    }

    /// Authored Workshop description.
    pub fn description(&self) -> (r: Option<&str>)
        ensures
            match self.description {
                Some(v) => r matches Some(s) && s@ == v@,
                None => r.is_none(),
            },
    {
        match &self.description {
            Some(v) => Some(v.as_str()),
            None => None,
        }
    }

    /// Authored Workshop tags.
    pub fn tags(&self) -> (r: &[String])
        ensures
            r@ == self.tags@,
    {
        self.tags.as_slice()
    }

    /// Default update note.
    pub fn change_note(&self) -> (r: Option<&str>)
        ensures
            match self.change_note {
                Some(v) => r matches Some(s) && s@ == v@,
                None => r.is_none(),
            },
    {
        match &self.change_note {
            Some(v) => Some(v.as_str()),
            None => None,
        }
    }

    /// A policy with no field set.
    pub fn empty() -> (r: Self)
        ensures
            r.is_empty_spec(),
    {
        Self {
            app_id: None,
            published_file_id: None,
            visibility: None,
            title: None,
            description: None,
            tags: Vec::new(),
            change_note: None,
        }
    }

    /// No field of the policy is set.
    pub open spec fn is_empty_spec(&self) -> bool {
        &&& self.app_id.is_none()
        &&& self.published_file_id.is_none()
        &&& self.visibility.is_none()
        &&& self.title.is_none()
        &&& self.description.is_none()
        &&& self.tags@.len() == 0
        &&& self.change_note.is_none()
    }

    /// Whether no field of the policy is set.
    pub fn is_empty(&self) -> (r: bool)
        ensures
            r == self.is_empty_spec(),
    {
        self.app_id.is_none() && self.published_file_id.is_none() && self.visibility.is_none()
            && self.title.is_none() && self.description.is_none() && self.tags.len() == 0
            && self.change_note.is_none()
    }

}

/// One source-authored or deployed Vapor content artifact.
#[derive(Debug, Clone)]
pub struct ContentArtifact {
    /// Fully-qualified content ID.
    pub id: String,
    /// Local artifact name.
    pub name: String,
    /// Canonical content kind.
    pub kind: ContentKind,
    /// Source directory containing the artifact manifest.
    pub root: String,
    /// Artifact manifest path.
    pub manifest: String,
    /// Resolved artifact version, when declared.
    pub version: Option<String>,
    /// Runtime executables copied from app-local Cargo output into `bin/`.
    pub binaries: Vec<String>,
    /// Runtime libraries copied from app-local Cargo output into `lib/`.
    pub libraries: Vec<String>,
    /// Target-specific deployed runtime payloads.
    pub runtime: Vec<RuntimePayload>,
    /// Required or optional content dependencies and composition edges.
    pub dependencies: Vec<ContentReference>,
    /// Declared content conflicts.
    pub conflicts: Vec<ContentReference>,
    /// Authored Workshop publication policy.
    pub workshop: WorkshopPolicy,
}

impl ContentArtifact {
    /// Fully-qualified content ID.
    pub fn id(&self) -> (r: &str)
        ensures
            r@ == self.id@,
    {
        self.id.as_str()
    }

    /// Local artifact name.
    pub fn name(&self) -> (r: &str)
        ensures
            r@ == self.name@,
    {
        self.name.as_str()
    }

    /// Canonical content kind.
    pub fn kind(&self) -> (r: ContentKind)
        ensures
            r == self.kind,
    {
        self.kind
    }

    /// Source directory containing the artifact manifest.
    pub fn root(&self) -> (r: &str)
        ensures
            r@ == self.root@,
    {
        self.root.as_str()
    }

    /// Source artifact manifest path.
    pub fn manifest(&self) -> (r: &str)
        ensures
            r@ == self.manifest@,
    {
        self.manifest.as_str()
    }

    /// Resolved artifact version, when declared.
    pub fn version(&self) -> (r: Option<&str>)
        ensures
            match self.version {
                Some(v) => r matches Some(s) && s@ == v@,
                None => r.is_none(),
            },
    {
        match &self.version {
            Some(v) => Some(v.as_str()),
            None => None,
        }
    }

    /// Runtime executables copied from app-local Cargo output into `bin/`.
    pub fn binaries(&self) -> (r: &[String])
        ensures
            r@ == self.binaries@,
    {
        self.binaries.as_slice()
    }

    /// Runtime libraries copied from app-local Cargo output into `lib/`.
    pub fn libraries(&self) -> (r: &[String])
        ensures
            r@ == self.libraries@,
    {
        self.libraries.as_slice()
    }

    /// Target-specific deployed runtime payloads.
    pub fn runtime(&self) -> (r: &[RuntimePayload])
        ensures
            r@ == self.runtime@,
    {
        self.runtime.as_slice()
    }

    /// Required or optional content dependencies and composition edges.
    pub fn dependencies(&self) -> (r: &[ContentReference])
        ensures
            r@ == self.dependencies@,
    {
        self.dependencies.as_slice()
    }

    /// Declared content conflicts.
    pub fn conflicts(&self) -> (r: &[ContentReference])
        ensures
            r@ == self.conflicts@,
    {
        self.conflicts.as_slice()
    }

    /// Authored Workshop publication policy.
    pub fn workshop(&self) -> (r: &WorkshopPolicy)
        ensures
            *r == self.workshop,
    {
        &self.workshop
    }

}

/// Stable tree fingerprint used by packages, locks, and receipts.
#[derive(Debug, Clone)]
pub struct Fingerprint {
    /// Fingerprint algorithm identifier.
    pub algorithm: String,
    /// Hex-encoded fingerprint hash.
    pub hash: String,
    /// Number of regular files included.
    pub files: u64,
    /// Number of file-content bytes included.
    pub bytes: u64,
}

/// Two fingerprints agree on every field.
pub open spec fn same_fingerprint(a: Fingerprint, b: Fingerprint) -> bool {
    a.algorithm@ == b.algorithm@ && a.hash@ == b.hash@ && a.files == b.files && a.bytes == b.bytes
}

impl Fingerprint {
    /// Fingerprint algorithm identifier.
    pub fn algorithm(&self) -> (r: &str)
        ensures
            r@ == self.algorithm@,
    {
        self.algorithm.as_str()
    }

    /// Hex-encoded fingerprint hash.
    pub fn hash(&self) -> (r: &str)
        ensures
            r@ == self.hash@,
    {
        self.hash.as_str()
    }

    /// Number of regular files included.
    pub fn files(&self) -> (r: u64)
        ensures
            r == self.files,
    {
        self.files
    }

    /// Number of file-content bytes included.
    pub fn bytes(&self) -> (r: u64)
        ensures
            r == self.bytes,
    {
        self.bytes
    }

    /// A field-for-field copy.
    pub fn duplicate(&self) -> (r: Self)
        ensures
            r == *self,
    {
        Fingerprint {
            algorithm: self.algorithm.clone(),
            hash: self.hash.clone(),
            files: self.files,
            bytes: self.bytes,
        }
    }

    /// Whether two fingerprints agree on every field.
    pub fn matches(&self, other: &Fingerprint) -> (r: bool)
        ensures
            r == same_fingerprint(*self, *other),
    {
        str_eq(self.algorithm.as_str(), other.algorithm.as_str()) && str_eq(self.hash.as_str(), other.hash.as_str())
            && self.files == other.files && self.bytes == other.bytes
    }

}

/// Two fingerprints match exactly when they agree on the algorithm, the hash,
/// the file count and the byte count; in particular, fingerprints with
/// different hashes never match, whatever their sizes.
pub proof fn law_fingerprints_match_field_by_field(a: Fingerprint, b: Fingerprint)
    ensures
        same_fingerprint(a, b) <==> (a.algorithm@ == b.algorithm@ && a.hash@ == b.hash@ && a.files == b.files
            && a.bytes == b.bytes),
        a.hash@ != b.hash@ ==> !same_fingerprint(a, b),
        same_fingerprint(a, a),
{
}

/// Package staging result.
#[derive(Debug, Clone)]
pub struct PackageReport {
    /// Packaged artifact ID.
    pub artifact_id: String,
    /// Staged artifact root.
    pub root: String,
    /// Staged artifact fingerprint.
    pub fingerprint: Fingerprint,
    /// Operation receipt path, absent for dry-runs.
    pub receipt: Option<String>,
    /// Whether the package was only previewed.
    pub dry_run: bool,
    /// Runtime target triple used for copied binaries and libraries.
    pub runtime_target: String,
}

impl PackageReport {
    /// Packaged artifact ID.
    pub fn artifact_id(&self) -> (r: &str)
        ensures
            r@ == self.artifact_id@,
    {
        self.artifact_id.as_str()
    }

    /// Staged artifact root.
    pub fn root(&self) -> (r: &str)
        ensures
            r@ == self.root@,
    {
        self.root.as_str()
    }

    /// Staged artifact fingerprint.
    pub fn fingerprint(&self) -> (r: &Fingerprint)
        ensures
            *r == self.fingerprint,
    {
        &self.fingerprint
    }

    /// Operation receipt path, absent for dry-runs.
    pub fn receipt(&self) -> (r: Option<&str>)
        ensures
            match self.receipt {
                Some(v) => r matches Some(s) && s@ == v@,
                None => r.is_none(),
            },
    {
        match &self.receipt {
            Some(v) => Some(v.as_str()),
            None => None,
        }
    }

    /// Whether the package was only previewed.
    pub fn dry_run(&self) -> (r: bool)
        ensures
            r == self.dry_run,
    {
        self.dry_run
    }

    /// Runtime target triple used for copied binaries and libraries.
    pub fn runtime_target(&self) -> (r: &str)
        ensures
            r@ == self.runtime_target@,
    {
        self.runtime_target.as_str()
    }

}

/// Validation result for one or more source artifacts.
#[derive(Debug, Clone)]
pub struct ValidationReport {
    /// Artifact IDs that were checked.
    pub checked: Vec<String>,
    /// Non-fatal validation diagnostics.
    pub diagnostics: Vec<String>,
}

impl ValidationReport {
    /// Artifact IDs that were checked.
    pub fn checked(&self) -> (r: &[String])
        ensures
            r@ == self.checked@,
    {
        self.checked.as_slice()
    }

    /// Non-fatal validation diagnostics.
    pub fn diagnostics(&self) -> (r: &[String])
        ensures
            r@ == self.diagnostics@,
    {
        self.diagnostics.as_slice()
    }

}

/// Result of acquiring content into the app-owned cache.
#[derive(Debug, Clone)]
pub struct AcquireReport {
    /// Acquired artifact ID.
    pub artifact_id: String,
    /// Cache root containing the package.
    pub cache_root: String,
    /// Cached artifact-root fingerprint.
    pub fingerprint: Fingerprint,
    /// Operation receipt path.
    pub receipt: String,
}

impl AcquireReport {
    /// Acquired artifact ID.
    pub fn artifact_id(&self) -> (r: &str)
        ensures
            r@ == self.artifact_id@,
    {
        self.artifact_id.as_str()
    }

    /// Cache root containing the package.
    pub fn cache_root(&self) -> (r: &str)
        ensures
            r@ == self.cache_root@,
    {
        self.cache_root.as_str()
    }

    /// Cached artifact-root fingerprint.
    pub fn fingerprint(&self) -> (r: &Fingerprint)
        ensures
            *r == self.fingerprint,
    {
        &self.fingerprint
    }

    /// Operation receipt path.
    pub fn receipt(&self) -> (r: &str)
        ensures
            r@ == self.receipt@,
    {
        self.receipt.as_str()
    }

}

/// Result of installing or updating content.
#[derive(Debug, Clone)]
pub struct InstallReport {
    /// Installed artifact ID.
    pub artifact_id: String,
    /// Installed artifact root.
    pub installed_root: String,
    /// Installed artifact-root fingerprint.
    pub fingerprint: Fingerprint,
    /// Operation receipt path.
    pub receipt: String,
}

impl InstallReport {
    /// Installed artifact ID.
    pub fn artifact_id(&self) -> (r: &str)
        ensures
            r@ == self.artifact_id@,
    {
        self.artifact_id.as_str()
    }

    /// Installed artifact root.
    pub fn installed_root(&self) -> (r: &str)
        ensures
            r@ == self.installed_root@,
    {
        self.installed_root.as_str()
    }

    /// Installed artifact-root fingerprint.
    pub fn fingerprint(&self) -> (r: &Fingerprint)
        ensures
            *r == self.fingerprint,
    {
        &self.fingerprint
    }

    /// Operation receipt path.
    pub fn receipt(&self) -> (r: &str)
        ensures
            r@ == self.receipt@,
    {
        self.receipt.as_str()
    }

}

/// Result of uninstalling content.
#[derive(Debug, Clone)]
pub struct UninstallReport {
    /// Uninstalled artifact ID.
    pub artifact_id: String,
    /// Whether an installed or disabled artifact root was removed.
    pub removed: bool,
    /// Operation receipt path.
    pub receipt: String,
}

impl UninstallReport {
    /// Uninstalled artifact ID.
    pub fn artifact_id(&self) -> (r: &str)
        ensures
            r@ == self.artifact_id@,
    {
        self.artifact_id.as_str()
    }

    /// Whether an installed or disabled artifact root was removed.
    pub fn removed(&self) -> (r: bool)
        ensures
            r == self.removed,
    {
        self.removed
    }

    /// Operation receipt path.
    pub fn receipt(&self) -> (r: &str)
        ensures
            r@ == self.receipt@,
    {
        self.receipt.as_str()
    }

}

/// Selected installed packagepack.
#[derive(Debug, Clone)]
pub struct PackagepackSelection {
    /// Schema version of the selection record.
    pub schema_version: u32,
    /// Selected packagepack artifact ID.
    pub artifact_id: String,
    /// Installed artifact root selected for play.
    pub installed_root: String,
    /// Fingerprint selected at the time of selection.
    pub fingerprint: Fingerprint,
    /// Selection time in seconds since the Unix epoch.
    pub selected_at: u64,
}

impl PackagepackSelection {
    /// Selected packagepack artifact ID.
    pub fn artifact_id(&self) -> (r: &str)
        ensures
            r@ == self.artifact_id@,
    {
        self.artifact_id.as_str()
    }

    /// Installed artifact root selected for play.
    pub fn installed_root(&self) -> (r: &str)
        ensures
            r@ == self.installed_root@,
    {
        self.installed_root.as_str()
    }

    /// Fingerprint selected at the time of selection.
    pub fn fingerprint(&self) -> (r: &Fingerprint)
        ensures
            *r == self.fingerprint,
    {
        &self.fingerprint
    }

}

/// Verification result for one installed artifact.
#[derive(Debug, Clone)]
pub struct VerifyReport {
    /// Verified artifact ID.
    pub artifact_id: String,
    /// Whether the installed artifact root matches its receipt/index fingerprint.
    pub ok: bool,
    /// Expected fingerprint from app-owned state.
    pub expected: Option<Fingerprint>,
    /// Observed fingerprint from the installed artifact root.
    pub observed: Option<Fingerprint>,
    /// Diagnostic detail.
    pub detail: String,
}

impl VerifyReport {
    /// Verified artifact ID.
    pub fn artifact_id(&self) -> (r: &str)
        ensures
            r@ == self.artifact_id@,
    {
        self.artifact_id.as_str()
    }

    /// Whether the installed artifact root matches its receipt/index fingerprint.
    pub fn ok(&self) -> (r: bool)
        ensures
            r == self.ok,
    {
        self.ok
    }

    /// Expected fingerprint from app-owned state.
    pub fn expected(&self) -> (r: Option<&Fingerprint>)
        ensures
            match self.expected {
                Some(v) => r == Some(&v),
                None => r.is_none(),
            },
    {
        self.expected.as_ref()
    }

    /// Observed fingerprint from the installed artifact root.
    pub fn observed(&self) -> (r: Option<&Fingerprint>)
        ensures
            match self.observed {
                Some(v) => r == Some(&v),
                None => r.is_none(),
            },
    {
        self.observed.as_ref()
    }

    /// Diagnostic detail.
    pub fn detail(&self) -> (r: &str)
        ensures
            r@ == self.detail@,
    {
        self.detail.as_str()
    }

}

/// Publish, create, or delete preview/execution result.
#[derive(Debug, Clone)]
pub struct WorkshopOperationReport {
    /// Target artifact or Workshop ID.
    pub artifact_id: String,
    /// Generated provider script, when one exists.
    pub script: Option<String>,
    /// Operation receipt path.
    pub receipt: String,
    /// Whether a provider upload was attempted and accepted.
    pub uploaded: bool,
    /// PublishedFileId created or used by the provider, when known.
    pub published_file_id: Option<String>,
}

impl WorkshopOperationReport {
    /// Target artifact or Workshop ID.
    pub fn artifact_id(&self) -> (r: &str)
        ensures
            r@ == self.artifact_id@,
    {
        self.artifact_id.as_str()
    }

    /// Generated provider script, when one exists.
    pub fn script(&self) -> (r: Option<&str>)
        ensures
            match self.script {
                Some(v) => r matches Some(s) && s@ == v@,
                None => r.is_none(),
            },
    {
        match &self.script {
            Some(v) => Some(v.as_str()),
            None => None,
        }
    }

    /// Operation receipt path.
    pub fn receipt(&self) -> (r: &str)
        ensures
            r@ == self.receipt@,
    {
        self.receipt.as_str()
    }

    /// Whether a provider upload was attempted and accepted.
    pub fn uploaded(&self) -> (r: bool)
        ensures
            r == self.uploaded,
    {
        self.uploaded
    }

    /// PublishedFileId created or used by the provider, when known.
    pub fn published_file_id(&self) -> (r: Option<&str>)
        ensures
            match self.published_file_id {
                Some(v) => r matches Some(s) && s@ == v@,
                None => r.is_none(),
            },
    {
        match &self.published_file_id {
            Some(v) => Some(v.as_str()),
            None => None,
        }
    }

}

/// Source-discovered content artifact catalog.
#[derive(Debug, Clone)]
pub struct ContentCatalog {
    /// Discovered artifacts, sorted by ID.
    pub artifacts: Vec<ContentArtifact>,
}

/// `artifact` answers to `selector` by ID, local name, or PublishedFileId.
pub open spec fn selects(artifact: ContentArtifact, selector: Seq<char>) -> bool {
    ||| artifact.id@ == selector
    ||| artifact.name@ == selector
    ||| (artifact.workshop.published_file_id matches Some(p) && p@ == selector)
}

/// Index of the first artifact in `v` that `selector` selects, or -1.
pub open spec fn first_selected(v: Seq<ContentArtifact>, selector: Seq<char>) -> int
    decreases v.len(),
{
    if v.len() == 0 {
        -1
    } else if selects(v[0], selector) {
        0
    } else if first_selected(v.drop_first(), selector) < 0 {
        -1
    } else {
        first_selected(v.drop_first(), selector) + 1
    }
}

/// Bounds and meaning of `first_selected`.
pub proof fn lemma_first_selected(v: Seq<ContentArtifact>, selector: Seq<char>)
    ensures
        -1 <= first_selected(v, selector) < v.len(),
        first_selected(v, selector) >= 0 ==> selects(v[first_selected(v, selector)], selector),
        forall|k: int| 0 <= k < v.len() && (first_selected(v, selector) < 0 || k < first_selected(v, selector))
            ==> !selects(#[trigger] v[k], selector),
    decreases v.len(),
{
    if v.len() > 0 && !selects(v[0], selector) {
        lemma_first_selected(v.drop_first(), selector);
        assert forall|k: int| 1 <= k < v.len() implies v[k] == v.drop_first()[k - 1] by {}
    }
}

/// Whether `artifact` answers to `selector`.
pub fn artifact_selected(artifact: &ContentArtifact, selector: &str) -> (r: bool)
    ensures
        r == selects(*artifact, selector@),
{
    if str_eq(artifact.id.as_str(), selector) || str_eq(artifact.name.as_str(), selector) {
        return true;
    }
    match &artifact.workshop.published_file_id {
        Some(p) => str_eq(p.as_str(), selector),
        None => false,
    }
}

impl ContentCatalog {
    /// Discovered publishable or installable source artifacts.
    pub fn artifacts(&self) -> (r: &[ContentArtifact])
        ensures
            r@ == self.artifacts@,
    {
        self.artifacts.as_slice()
    }

    /// Position of the first artifact selected by full ID, local name, or
    /// published Workshop ID.
    pub fn position(&self, selector: &str) -> (r: Option<usize>)
        ensures
            first_selected(self.artifacts@, selector@) < 0 ==> r.is_none(),
            first_selected(self.artifacts@, selector@) >= 0 ==> r == Some(first_selected(self.artifacts@, selector@) as usize),
            r matches Some(i) ==> i < self.artifacts@.len(),
    {
        proof {
            lemma_first_selected(self.artifacts@, selector@);
        }
        let mut i: usize = 0;
        while i < self.artifacts.len()
            invariant
                i <= self.artifacts@.len(),
                forall|k: int| 0 <= k < i ==> !selects(#[trigger] self.artifacts@[k], selector@),
                -1 <= first_selected(self.artifacts@, selector@) < self.artifacts@.len(),
                first_selected(self.artifacts@, selector@) >= 0 ==> selects(self.artifacts@[first_selected(self.artifacts@, selector@)], selector@),
                forall|k: int| 0 <= k < self.artifacts@.len() && (first_selected(self.artifacts@, selector@) < 0 || k < first_selected(self.artifacts@, selector@))
                    ==> !selects(#[trigger] self.artifacts@[k], selector@),
            decreases self.artifacts@.len() - i,
        {
            if artifact_selected(&self.artifacts[i], selector) {
                return Some(i);
            }
            i = i + 1;
        }
        None
    }

    /// Find an artifact by full ID, local name, or published Workshop ID.
    pub fn find(&self, selector: &str) -> (r: Option<&ContentArtifact>)
        ensures
            first_selected(self.artifacts@, selector@) < 0 ==> r.is_none(),
            first_selected(self.artifacts@, selector@) >= 0 ==> (r matches Some(a) && *a == self.artifacts@[first_selected(self.artifacts@, selector@)]),
    {
        proof {
            lemma_first_selected(self.artifacts@, selector@);
        }
        let n = self.artifacts.len();
        match self.position(selector) {
            Some(i) => Some(&self.artifacts[i]),
            None => None,
        }
    }

    /// Find an artifact by full ID.
    pub fn by_id(&self, id: &str) -> (r: Option<&ContentArtifact>)
        ensures
            match r {
                Some(a) => a.id@ == id@ && self.artifacts@.contains(*a),
                None => forall|k: int| 0 <= k < self.artifacts@.len() ==> #[trigger] self.artifacts@[k].id@ != id@,
            },
    {
        let mut i: usize = 0;
        while i < self.artifacts.len()
            invariant
                i <= self.artifacts@.len(),
                forall|k: int| 0 <= k < i ==> #[trigger] self.artifacts@[k].id@ != id@,
            decreases self.artifacts@.len() - i,
        {
            if str_eq(self.artifacts[i].id.as_str(), id) {
                return Some(&self.artifacts[i]);
            }
            i = i + 1;
        }
        None
    }
}

} // verus!

verus! {

/// Some artifact of the catalog has ID `id`.
pub open spec fn catalog_has_id(artifacts: Seq<ContentArtifact>, id: Seq<char>) -> bool {
    exists|k: int| 0 <= k < artifacts.len() && #[trigger] artifacts[k].id@ == id
}

/// Errors that one reference of `artifact` raises during validation.
pub open spec fn dependency_errors(artifact: ContentArtifact, d: ContentReference, artifacts: Seq<ContentArtifact>) -> Seq<Seq<char>> {
    if !d.optional && !catalog_has_id(artifacts, d.id@) && d.workshop_id.is_none() {
        seq![artifact.id@ + " requires missing "@ + d.relationship@ + " reference '"@ + d.id@ + "'"@]
    } else {
        Seq::empty()
    }
}

/// Diagnostics that one reference of `artifact` raises during validation.
pub open spec fn dependency_notes(artifact: ContentArtifact, d: ContentReference, artifacts: Seq<ContentArtifact>) -> Seq<Seq<char>> {
    if d.optional && !catalog_has_id(artifacts, d.id@) {
        seq![artifact.id@ + " has optional "@ + d.relationship@ + " reference '"@ + d.id@ + "' outside this workspace"@]
    } else {
        Seq::empty()
    }
}

/// Concatenated per-reference errors over a prefix of references.
pub open spec fn all_dependency_errors(artifact: ContentArtifact, deps: Seq<ContentReference>, artifacts: Seq<ContentArtifact>) -> Seq<Seq<char>>
    decreases deps.len(),
{
    if deps.len() == 0 {
        Seq::empty()
    } else {
        all_dependency_errors(artifact, deps.drop_last(), artifacts) + dependency_errors(artifact, deps.last(), artifacts)
    }
}

/// Concatenated per-reference diagnostics over a prefix of references.
pub open spec fn all_dependency_notes(artifact: ContentArtifact, deps: Seq<ContentReference>, artifacts: Seq<ContentArtifact>) -> Seq<Seq<char>>
    decreases deps.len(),
{
    if deps.len() == 0 {
        Seq::empty()
    } else {
        all_dependency_notes(artifact, deps.drop_last(), artifacts) + dependency_notes(artifact, deps.last(), artifacts)
    }
}

/// Self-conflict errors over a prefix of conflicts.
pub open spec fn conflict_errors(artifact: ContentArtifact, conflicts: Seq<ContentReference>) -> Seq<Seq<char>>
    decreases conflicts.len(),
{
    if conflicts.len() == 0 {
        Seq::empty()
    } else {
        conflict_errors(artifact, conflicts.drop_last()) + if conflicts.last().id@ == artifact.id@ {
            seq![artifact.id@ + " conflicts with itself"@]
        } else {
            Seq::empty()
        }
    }
}

/// Validation errors of one artifact.
pub open spec fn artifact_errors(a: ContentArtifact, artifacts: Seq<ContentArtifact>) -> Seq<Seq<char>> {
    all_dependency_errors(a, a.dependencies@, artifacts) + conflict_errors(a, a.conflicts@)
}

/// Validation diagnostics of one artifact.
pub open spec fn artifact_notes(a: ContentArtifact, artifacts: Seq<ContentArtifact>) -> Seq<Seq<char>> {
    all_dependency_notes(a, a.dependencies@, artifacts) + if a.workshop.app_id.is_none() {
        seq![a.id@ + " has no ["@ + kind_label(a.kind) + ".steam].app-id; local lifecycle is available but Workshop publish is not"@]
    } else {
        Seq::empty()
    }
}

/// Validation errors over a sequence of selected artifacts.
pub open spec fn selection_errors(selected: Seq<ContentArtifact>, artifacts: Seq<ContentArtifact>) -> Seq<Seq<char>>
    decreases selected.len(),
{
    if selected.len() == 0 {
        Seq::empty()
    } else {
        selection_errors(selected.drop_last(), artifacts) + artifact_errors(selected.last(), artifacts)
    }
}

/// Validation diagnostics over a sequence of selected artifacts.
pub open spec fn selection_notes(selected: Seq<ContentArtifact>, artifacts: Seq<ContentArtifact>) -> Seq<Seq<char>>
    decreases selected.len(),
{
    if selected.len() == 0 {
        Seq::empty()
    } else {
        selection_notes(selected.drop_last(), artifacts) + artifact_notes(selected.last(), artifacts)
    }
}

/// Message for an unknown content selector.
pub open spec fn msg_unknown_artifact(selector: Seq<char>) -> Seq<char> {
    "unknown content artifact '"@ + selector + "'\nhelp: inspect source content with `content list`"@
}

/// The artifacts that a validation selector covers.
pub open spec fn selection_of(artifacts: Seq<ContentArtifact>, selector: Option<Seq<char>>) -> Result<Seq<ContentArtifact>, Seq<char>> {
    match selector {
        None => Ok(artifacts),
        Some(s) => if first_selected(artifacts, s) < 0 {
            Err(msg_unknown_artifact(s))
        } else {
            Ok(seq![artifacts[first_selected(artifacts, s)]])
        },
    }
}

/// The error for a selector that names no source artifact.
pub fn unknown_artifact(selector: &str) -> (r: String)
    ensures
        r@ == msg_unknown_artifact(selector@),
{
    concat3("unknown content artifact '", selector, "'\nhelp: inspect source content with `content list`")
}

fn catalog_contains_id(artifacts: &Vec<ContentArtifact>, id: &str) -> (r: bool)
    ensures
        r == catalog_has_id(artifacts@, id@),
{
    let mut i: usize = 0;
    while i < artifacts.len()
        invariant
            i <= artifacts@.len(),
            forall|k: int| 0 <= k < i ==> #[trigger] artifacts@[k].id@ != id@,
        decreases artifacts@.len() - i,
    {
        if str_eq(artifacts[i].id.as_str(), id) {
            return true;
        }
        i = i + 1;
    }
    false
}

fn push_artifact_findings(
    a: &ContentArtifact,
    artifacts: &Vec<ContentArtifact>,
    errors: &mut Vec<String>,
    notes: &mut Vec<String>,
)
    ensures
        crate::text::string_views(final(errors)@) == crate::text::string_views(old(errors)@) + artifact_errors(*a, artifacts@),
        crate::text::string_views(final(notes)@) == crate::text::string_views(old(notes)@) + artifact_notes(*a, artifacts@),
{
    let ghost e0 = crate::text::string_views(errors@);
    let ghost n0 = crate::text::string_views(notes@);
    let mut i: usize = 0;
    while i < a.dependencies.len()
        invariant
            i <= a.dependencies@.len(),
            crate::text::string_views(errors@) == e0 + all_dependency_errors(*a, a.dependencies@.take(i as int), artifacts@),
            crate::text::string_views(notes@) == n0 + all_dependency_notes(*a, a.dependencies@.take(i as int), artifacts@),
        decreases a.dependencies@.len() - i,
    {
        let d = &a.dependencies[i];
        let present = catalog_contains_id(artifacts, d.id.as_str());
        let ghost eb = crate::text::string_views(errors@);
        let ghost nb = crate::text::string_views(notes@);
        if !d.optional && !present && d.workshop_id.is_none() {
            let mut m = concat3(a.id.as_str(), " requires missing ", d.relationship.as_str());
            m.append(" reference '");
            m.append(d.id.as_str());
            m.append("'");
            errors.push(m);
        }
        if d.optional && !present {
            let mut m = concat3(a.id.as_str(), " has optional ", d.relationship.as_str());
            m.append(" reference '");
            m.append(d.id.as_str());
            m.append("' outside this workspace");
            notes.push(m);
        }
        proof {
            let t = a.dependencies@.take(i + 1);
            assert(t.drop_last() =~= a.dependencies@.take(i as int));
            assert(crate::text::string_views(errors@) =~= eb + dependency_errors(*a, *d, artifacts@));
            assert(crate::text::string_views(notes@) =~= nb + dependency_notes(*a, *d, artifacts@));
        }
        i = i + 1;
    }
    assert(a.dependencies@.take(a.dependencies@.len() as int) =~= a.dependencies@);
    let ghost e1 = crate::text::string_views(errors@);
    let mut j: usize = 0;
    while j < a.conflicts.len()
        invariant
            j <= a.conflicts@.len(),
            crate::text::string_views(errors@) == e1 + conflict_errors(*a, a.conflicts@.take(j as int)),
        decreases a.conflicts@.len() - j,
    {
        let ghost eb = crate::text::string_views(errors@);
        let hit = str_eq(a.conflicts[j].id.as_str(), a.id.as_str());
        if hit {
            errors.push(concat(a.id.as_str(), " conflicts with itself"));
            assert(crate::text::string_views(errors@) =~= eb.push(a.id@ + " conflicts with itself"@));
        } else {
            assert(crate::text::string_views(errors@) =~= eb);
        }
        proof {
            let t = a.conflicts@.take(j + 1);
            assert(t.drop_last() =~= a.conflicts@.take(j as int));
            assert(t.last() == a.conflicts@[j as int]);
        }
        assert(crate::text::string_views(errors@) =~= e1 + conflict_errors(*a, a.conflicts@.take(j + 1)));
        j = j + 1;
    }
    assert(a.conflicts@.take(a.conflicts@.len() as int) =~= a.conflicts@);
    let ghost nb = crate::text::string_views(notes@);
    assert(nb == n0 + all_dependency_notes(*a, a.dependencies@, artifacts@));
    if a.workshop.app_id.is_none() {
        let mut m = concat3(a.id.as_str(), " has no [", a.kind.label());
        m.append(".steam].app-id; local lifecycle is available but Workshop publish is not");
        let ghost mv = m@;
        notes.push(m);
        assert(crate::text::string_views(notes@) =~= nb.push(mv));
    } else {
        assert(crate::text::string_views(notes@) =~= nb);
    }
    assert(crate::text::string_views(errors@) =~= e0 + artifact_errors(*a, artifacts@));
    assert(crate::text::string_views(notes@) =~= n0 + artifact_notes(*a, artifacts@));
}

/// Validate content dependency, conflict, and Workshop metadata of the
/// catalog's artifacts, or of the one artifact that `selector` selects.
///
/// # Errors
///
/// Fails for an unknown selector, or with every error line joined by `\n`
/// when a required reference is missing from the catalog without a Workshop
/// ID or an artifact conflicts with itself.
pub fn validate(catalog: &ContentCatalog, selector: Option<&str>) -> (r: Result<ValidationReport, String>)
    ensures
        match selection_of(catalog.artifacts@, match selector { Some(s) => Some(s@), None => None }) {
            Err(e) => r matches Err(m) && m@ == e,
            Ok(selected) => {
                let errors = selection_errors(selected, catalog.artifacts@);
                if errors.len() == 0 {
                    r matches Ok(report) && crate::text::string_views(report.checked@) == Seq::new(selected.len(), |i: int| selected[i].id@)
                        && crate::text::string_views(report.diagnostics@) == selection_notes(selected, catalog.artifacts@)
                } else {
                    r matches Err(m) && m@ == crate::text::joined(errors, "\n"@)
                }
            },
        },
{
    let selected: Vec<&ContentArtifact> = match selector {
        Some(s) => match catalog.find(s) {
            Some(a) => {
                proof {
                    lemma_first_selected(catalog.artifacts@, s@);
                }
                vec![a]
            },
            None => return Err(unknown_artifact(s)),
        },
        None => {
            let mut v: Vec<&ContentArtifact> = Vec::new();
            let mut k: usize = 0;
            while k < catalog.artifacts.len()
                invariant
                    k <= catalog.artifacts@.len(),
                    v@.len() == k,
                    forall|x: int| 0 <= x < k ==> *v@[x] == catalog.artifacts@[x],
                decreases catalog.artifacts@.len() - k,
            {
                v.push(&catalog.artifacts[k]);
                k = k + 1;
            }
            v
        },
    };
    let ghost sel = Seq::new(selected@.len(), |i: int| *selected@[i]);
    assert(Ok::<Seq<ContentArtifact>, Seq<char>>(sel) == selection_of(catalog.artifacts@, match selector { Some(s) => Some(s@), None => None })) by {
        if selector.is_none() {
            assert(sel =~= catalog.artifacts@);
        } else {
            assert(sel =~= seq![*selected@[0]]);
        }
    }
    let mut errors: Vec<String> = Vec::new();
    let mut notes: Vec<String> = Vec::new();
    let mut checked: Vec<String> = Vec::new();
    let mut i: usize = 0;
    while i < selected.len()
        invariant
            i <= selected@.len(),
            sel == Seq::new(selected@.len(), |x: int| *selected@[x]),
            crate::text::string_views(errors@) == selection_errors(sel.take(i as int), catalog.artifacts@),
            crate::text::string_views(notes@) == selection_notes(sel.take(i as int), catalog.artifacts@),
            crate::text::string_views(checked@) == Seq::new(i as nat, |x: int| sel[x].id@),
        decreases selected@.len() - i,
    {
        push_artifact_findings(selected[i], &catalog.artifacts, &mut errors, &mut notes);
        let ghost cb = crate::text::string_views(checked@);
        let id = selected[i].id.clone();
        assert(id@ == sel[i as int].id@);
        checked.push(id);
        assert(crate::text::string_views(checked@) =~= cb.push(sel[i as int].id@));
        proof {
            assert(sel.take(i + 1).drop_last() =~= sel.take(i as int));
            assert(sel.take(i + 1).last() == *selected@[i as int]);
        }
        assert(crate::text::string_views(checked@) =~= Seq::new((i + 1) as nat, |x: int| sel[x].id@));
        i = i + 1;
    }
    assert(sel.take(selected@.len() as int) =~= sel);
    if errors.len() == 0 {
        assert(crate::text::string_views(checked@) =~= Seq::new(sel.len(), |x: int| sel[x].id@));
        Ok(ValidationReport { checked, diagnostics: notes })
    } else {
        Err(crate::text::join_strings(errors.as_slice(), "\n"))
    }
}

} // verus!

verus! {

/// A character allowed in a runtime target triple.
pub open spec fn is_target_char(c: char) -> bool {
    is_alnum(c) || c == '-' || c == '_'
}

/// A plausible Rust target triple: non-empty, `A-Za-z0-9-_` only.
pub open spec fn is_target_triple(t: Seq<char>) -> bool {
    t.len() > 0 && forall|i: int| 0 <= i < t.len() ==> is_target_char(#[trigger] t[i])
}

/// Whether `target` is a plausible Rust target triple.
pub fn is_runtime_target(target: &str) -> (r: bool)
    ensures
        r == is_target_triple(target@),
{
    let n = target.unicode_len();
    if n == 0 {
        return false;
    }
    let mut i: usize = 0;
    while i < n
        invariant
            n == target@.len(),
            i <= n,
            forall|k: int| 0 <= k < i ==> is_target_char(#[trigger] target@[k]),
        decreases n - i,
    {
        let c = target.get_char(i);
        if !(crate::text::char_is_alnum(c) || c == '-' || c == '_') {
            assert(!is_target_char(target@[i as int]));
            return false;
        }
        i = i + 1;
    }
    true
}

/// Reject a runtime target that is not a plausible Rust target triple.
///
/// # Errors
///
/// Fails for an empty target or one with characters outside `A-Za-z0-9-_`.
pub fn validate_runtime_target(target: &str) -> (r: Result<(), String>)
    ensures
        r is Ok <==> is_target_triple(target@),
        r matches Err(e) ==> e@ == "runtime target must be a Rust target triple such as x86_64-pc-windows-msvc: "@ + target@,
{
    if is_runtime_target(target) {
        Ok(())
    } else {
        Err(concat("runtime target must be a Rust target triple such as x86_64-pc-windows-msvc: ", target))
    }
}

/// A runtime target and whether it was named explicitly.
#[derive(Debug, Clone)]
pub struct RuntimeTarget {
    /// Rust target triple.
    pub triple: String,
    /// Whether the target was requested explicitly rather than defaulted to the host.
    pub explicit: bool,
}

/// `s` holds no element twice.
pub open spec fn distinct(s: Seq<Seq<char>>) -> bool {
    forall|i: int, j: int| 0 <= i < j < s.len() ==> s[i] != s[j]
}

/// Index of the first element of `s` that repeats an earlier one, or -1.
pub open spec fn first_repeat(s: Seq<Seq<char>>) -> int
    decreases s.len(),
{
    if s.len() == 0 {
        -1
    } else if first_repeat(s.drop_last()) >= 0 {
        first_repeat(s.drop_last())
    } else if s.drop_last().contains(s.last()) {
        s.len() - 1
    } else {
        -1
    }
}

/// Index of the first element of `s` that is not a target triple, or -1.
pub open spec fn first_invalid_target(s: Seq<Seq<char>>) -> int
    decreases s.len(),
{
    if s.len() == 0 {
        -1
    } else if first_invalid_target(s.drop_last()) >= 0 {
        first_invalid_target(s.drop_last())
    } else if !is_target_triple(s.last()) {
        s.len() - 1
    } else {
        -1
    }
}

/// The first problem of an explicit target list, checked in order: an
/// invalid target, then a repeated one.
pub open spec fn first_target_problem(s: Seq<Seq<char>>) -> Option<Seq<char>>
    decreases s.len(),
{
    if s.len() == 0 {
        None
    } else {
        match first_target_problem(s.drop_last()) {
            Some(e) => Some(e),
            None => if !is_target_triple(s.last()) {
                Some("runtime target must be a Rust target triple such as x86_64-pc-windows-msvc: "@ + s.last())
            } else if s.drop_last().contains(s.last()) {
                Some("duplicate runtime target: "@ + s.last())
            } else {
                None
            },
        }
    }
}

proof fn lemma_no_problem_distinct(s: Seq<Seq<char>>)
    requires
        first_target_problem(s).is_none(),
    ensures
        distinct(s),
        forall|i: int| 0 <= i < s.len() ==> is_target_triple(#[trigger] s[i]),
    decreases s.len(),
{
    if s.len() > 0 {
        let p = s.drop_last();
        lemma_no_problem_distinct(p);
        assert forall|i: int, j: int| 0 <= i < j < s.len() implies s[i] != s[j] by {
            if j == s.len() - 1 {
                assert(p[i] == s[i]);
                if s[i] == s[j] {
                    assert(p.contains(s.last()));
                }
            } else {
                assert(p[i] == s[i] && p[j] == s[j]);
            }
        }
        assert forall|i: int| 0 <= i < s.len() implies is_target_triple(#[trigger] s[i]) by {
            if i < s.len() - 1 {
                assert(p[i] == s[i]);
            }
        }
    }
}

proof fn lemma_target_problem_prefix(s: Seq<Seq<char>>, k: int)
    requires
        0 <= k <= s.len(),
        first_target_problem(s.take(k)).is_some(),
    ensures
        first_target_problem(s) == first_target_problem(s.take(k)),
    decreases s.len(),
{
    if k == s.len() {
        assert(s.take(k) =~= s);
    } else {
        assert(s.drop_last().take(k) =~= s.take(k));
        lemma_target_problem_prefix(s.drop_last(), k);
    }
}

proof fn lemma_output_problem_prefix(label: Seq<char>, s: Seq<Seq<char>>, k: int)
    requires
        0 <= k <= s.len(),
        first_output_problem(label, s.take(k)).is_some(),
    ensures
        first_output_problem(label, s) == first_output_problem(label, s.take(k)),
    decreases s.len(),
{
    if k == s.len() {
        assert(s.take(k) =~= s);
    } else {
        assert(s.drop_last().take(k) =~= s.take(k));
        lemma_output_problem_prefix(label, s.drop_last(), k);
    }
}

fn seq_contains_str(v: &Vec<RuntimeTarget>, t: &str) -> (r: bool)
    ensures
        r == Seq::new(v@.len(), |i: int| v@[i].triple@).contains(t@),
{
    let ghost view = Seq::new(v@.len(), |i: int| v@[i].triple@);
    let mut i: usize = 0;
    while i < v.len()
        invariant
            i <= v@.len(),
            view == Seq::new(v@.len(), |i: int| v@[i].triple@),
            forall|k: int| 0 <= k < i ==> view[k] != t@,
        decreases v@.len() - i,
    {
        if str_eq(v[i].triple.as_str(), t) {
            assert(view[i as int] == t@);
            return true;
        }
        i = i + 1;
    }
    false
}

impl RuntimeTarget {
    /// Resolve requested runtime targets: the host target when none is
    /// requested, otherwise every requested target, marked explicit.
    ///
    /// # Errors
    ///
    /// Fails at the first target that is not a plausible triple or repeats
    /// an earlier one.
    pub fn many(target_triples: &[String], host: &str) -> (r: Result<Vec<RuntimeTarget>, String>)
        ensures
            target_triples@.len() == 0 ==> (r matches Ok(v) && v@.len() == 1 && v@[0].triple@ == host@ && !v@[0].explicit),
            target_triples@.len() > 0 ==> match first_target_problem(crate::text::string_views(target_triples@)) {
                Some(e) => r matches Err(m) && m@ == e,
                None => r matches Ok(v) && v@.len() == target_triples@.len()
                    && forall|i: int| 0 <= i < v@.len() ==> (#[trigger] v@[i]).triple@ == target_triples@[i]@ && v@[i].explicit,
            },
    {
        if target_triples.len() == 0 {
            return Ok(vec![RuntimeTarget { triple: owned(host), explicit: false }]);
        }
        let ghost all = crate::text::string_views(target_triples@);
        let mut targets: Vec<RuntimeTarget> = Vec::new();
        let mut i: usize = 0;
        while i < target_triples.len()
            invariant
                i <= target_triples@.len(),
                all == crate::text::string_views(target_triples@),
                first_target_problem(all.take(i as int)).is_none(),
                targets@.len() == i,
                forall|k: int| 0 <= k < i ==> (#[trigger] targets@[k]).triple@ == target_triples@[k]@ && targets@[k].explicit,
            decreases target_triples@.len() - i,
        {
            let t = target_triples[i].as_str();
            let ghost prefix = all.take(i as int);
            proof {
                assert(all.take(i + 1).drop_last() =~= prefix);
                assert(all.take(i + 1).last() == t@);
                assert(Seq::new(targets@.len(), |k: int| targets@[k].triple@) =~= prefix);
            }
            match validate_runtime_target(t) {
                Ok(()) => {},
                Err(e) => {
                    proof {
                        lemma_target_problem_prefix(all, i + 1);
                    }
                    return Err(e);
                },
            }
            if seq_contains_str(&targets, t) {
                proof {
                    lemma_target_problem_prefix(all, i + 1);
                }
                return Err(concat("duplicate runtime target: ", t));
            }
            targets.push(RuntimeTarget { triple: owned(t), explicit: true });
            i = i + 1;
        }
        assert(all.take(target_triples@.len() as int) =~= all);
        Ok(targets)
    }

    /// Target triple.
    pub fn triple(&self) -> (r: &str)
        ensures
            r@ == self.triple@,
    {
        self.triple.as_str()
    }
}

/// Comma-separated triples of the resolved runtime targets.
pub fn runtime_target_label(runtime_targets: &[RuntimeTarget]) -> (r: String)
    ensures
        r@ == crate::text::joined(Seq::new(runtime_targets@.len(), |i: int| runtime_targets@[i].triple@), ","@),
{
    let mut triples: Vec<String> = Vec::new();
    let mut i: usize = 0;
    while i < runtime_targets.len()
        invariant
            i <= runtime_targets@.len(),
            triples@.len() == i,
            forall|k: int| 0 <= k < i ==> (#[trigger] triples@[k])@ == runtime_targets@[k].triple@,
        decreases runtime_targets@.len() - i,
    {
        triples.push(runtime_targets[i].triple.clone());
        i = i + 1;
    }
    assert(crate::text::string_views(triples@) =~= Seq::new(runtime_targets@.len(), |i: int| runtime_targets@[i].triple@));
    crate::text::join_strings(triples.as_slice(), ",")
}

/// Executable suffix for a target: `.exe` on Windows targets.
pub fn binary_suffix(target: &str) -> (r: &'static str)
    ensures
        r@ == if has_infix(target@, "windows"@) { ".exe"@ } else { ""@ },
{
    if contains(target, "windows") { ".exe" } else { "" }
}

/// Library file names that Cargo produces for a library stem on a target.
pub fn library_file_names(stem: &str, target: &str) -> (r: Vec<String>)
    ensures
        crate::text::string_views(r@) == if has_infix(target@, "windows"@) {
            seq![stem@ + ".dll"@, stem@ + ".lib"@]
        } else if has_infix(target@, "darwin"@) || has_infix(target@, "apple"@) {
            seq!["lib"@ + stem@ + ".dylib"@, "lib"@ + stem@ + ".rlib"@]
        } else {
            seq!["lib"@ + stem@ + ".so"@, "lib"@ + stem@ + ".rlib"@]
        },
{
    let r = if contains(target, "windows") {
        vec![concat(stem, ".dll"), concat(stem, ".lib")]
    } else if contains(target, "darwin") || contains(target, "apple") {
        vec![concat3("lib", stem, ".dylib"), concat3("lib", stem, ".rlib")]
    } else {
        vec![concat3("lib", stem, ".so"), concat3("lib", stem, ".rlib")]
    };
    assert(crate::text::string_views(r@) =~= seq![r@[0]@, r@[1]@]);
    r
}

/// A valid runtime output name: one plain path component.
pub open spec fn is_plain_file_name(name: Seq<char>) -> bool {
    &&& name.len() > 0
    &&& !has_char(name, '/')
    &&& name != "."@
    &&& name != ".."@
}

/// Whether `name` is one plain path component.
pub fn plain_file_name(name: &str) -> (r: bool)
    ensures
        r == is_plain_file_name(name@),
{
    let n = name.unicode_len();
    if n == 0 || contains_char(name, '/') {
        return false;
    }
    proof {
        reveal_strlit(".");
        reveal_strlit("..");
    }
    if n == 1 && name.get_char(0) == '.' {
        assert(name@ =~= "."@);
        return false;
    }
    if n == 2 && name.get_char(0) == '.' && name.get_char(1) == '.' {
        assert(name@ =~= ".."@);
        return false;
    }
    proof {
        if name@ == "."@ {
            assert(name@[0] == '.');
        }
        if name@ == ".."@ {
            assert(name@[0] == '.' && name@[1] == '.');
        }
    }
    true
}

/// The first problem of a runtime output name list, in order: a name that is
/// not one plain component, then a repeated name.
pub open spec fn first_output_problem(label: Seq<char>, s: Seq<Seq<char>>) -> Option<Seq<char>>
    decreases s.len(),
{
    if s.len() == 0 {
        None
    } else {
        match first_output_problem(label, s.drop_last()) {
            Some(e) => Some(e),
            None => if !is_plain_file_name(s.last()) {
                Some("content "@ + label + " must be file names, not paths: "@ + s.last())
            } else if s.drop_last().contains(s.last()) {
                Some("duplicate content "@ + label + " entry: "@ + s.last())
            } else {
                None
            },
        }
    }
}

/// Require runtime output entries to be distinct plain file names.
///
/// # Errors
///
/// Fails at the first entry that is a path or repeats an earlier entry.
pub fn validate_runtime_output_names(label: &str, names: &[String]) -> (r: Result<(), String>)
    ensures
        match first_output_problem(label@, crate::text::string_views(names@)) {
            Some(e) => r matches Err(m) && m@ == e,
            None => r is Ok,
        },
{
    let ghost all = crate::text::string_views(names@);
    let mut i: usize = 0;
    while i < names.len()
        invariant
            i <= names@.len(),
            all == crate::text::string_views(names@),
            first_output_problem(label@, all.take(i as int)).is_none(),
        decreases names@.len() - i,
    {
        let name = names[i].as_str();
        proof {
            assert(all.take(i + 1).drop_last() =~= all.take(i as int));
            assert(all.take(i + 1).last() == name@);
        }
        if !plain_file_name(name) {
            let mut e = concat3("content ", label, " must be file names, not paths: ");
            e.append(name);
            proof {
                lemma_output_problem_prefix(label@, all, i + 1);
            }
            return Err(e);
        }
        if strings_contain(names, i, name) {
            let mut e = concat3("duplicate content ", label, " entry: ");
            e.append(name);
            proof {
                lemma_output_problem_prefix(label@, all, i + 1);
            }
            return Err(e);
        }
        i = i + 1;
    }
    assert(all.take(names@.len() as int) =~= all);
    Ok(())
}

/// `c` kept by a slug: ASCII letters, digits and `-`.
pub open spec fn slug_keeps(c: char) -> bool {
    is_alnum(c) || c == '-'
}

/// A filesystem-safe slug of an ID: every character outside
/// `A-Za-z0-9-` becomes `_`.
pub open spec fn slug_of(id: Seq<char>) -> Seq<char> {
    Seq::new(id.len(), |i: int| if slug_keeps(id[i]) { id[i] } else { '_' })
}

/// Filesystem-safe slug of an ID.
pub fn slug(id: &str) -> (r: String)
    ensures
        r@ == slug_of(id@),
{
    let n = id.unicode_len();
    let mut r = String::new();
    let mut i: usize = 0;
    while i < n
        invariant
            n == id@.len(),
            i <= n,
            r@ == slug_of(id@).take(i as int),
        decreases n - i,
    {
        let c = id.get_char(i);
        if crate::text::char_is_alnum(c) || c == '-' {
            r.append(id.substring_char(i, i + 1));
        } else {
            r.append("_");
            proof {
                reveal_strlit("_");
            }
        }
        assert(r@ =~= slug_of(id@).take(i + 1));
        i = i + 1;
    }
    assert(slug_of(id@).take(n as int) =~= slug_of(id@));
    r
}

/// A slug keeps the length of its ID and contains only `A-Za-z0-9-_`, so
/// it is one plain path component; slugging a slug changes nothing.
pub proof fn lemma_slug_safe(id: Seq<char>)
    ensures
        slug_of(id).len() == id.len(),
        forall|i: int| 0 <= i < id.len() ==> is_target_char(#[trigger] slug_of(id)[i]),
        slug_of(slug_of(id)) == slug_of(id),
        !has_char(slug_of(id), '/'),
{
    assert(slug_of(slug_of(id)) =~= slug_of(id));
}

/// A numeric Workshop PublishedFileId.
pub open spec fn is_published_id(s: Seq<char>) -> bool {
    s.len() > 0 && forall|i: int| 0 <= i < s.len() ==> is_digit(#[trigger] s[i])
}

/// Whether `selector` is a numeric Workshop PublishedFileId.
pub fn is_published_file_id(selector: &str) -> (r: bool)
    ensures
        r == is_published_id(selector@),
{
    let n = selector.unicode_len();
    if n == 0 {
        return false;
    }
    let mut i: usize = 0;
    while i < n
        invariant
            n == selector@.len(),
            i <= n,
            forall|k: int| 0 <= k < i ==> is_digit(#[trigger] selector@[k]),
        decreases n - i,
    {
        if !crate::text::char_is_digit(selector.get_char(i)) {
            return false;
        }
        i = i + 1;
    }
    true
}

/// The account used for Workshop downloads: the trimmed account, or
/// `anonymous` when none or a blank one is given.
pub fn workshop_download_account(account: Option<&str>) -> (r: String)
    ensures
        r@ == match account {
            Some(a) => if trim(a@).len() == 0 { "anonymous"@ } else { trim(a@) },
            None => "anonymous"@,
        },
{
    let a = match account {
        Some(a) => trim_str(a),
        None => {
            let r = owned("anonymous");
            return r;
        },
    };
    if a.unicode_len() == 0 {
        owned("anonymous")
    } else {
        owned(a)
    }
}

/// Escape backslashes and double quotes for a Steam VDF string.
pub open spec fn steam_escaped(s: Seq<char>) -> Seq<char>
    decreases s.len(),
{
    if s.len() == 0 {
        Seq::empty()
    } else {
        steam_escaped(s.drop_last()) + if s.last() == '\\' {
            seq!['\\', '\\']
        } else if s.last() == '"' {
            seq!['\\', '"']
        } else {
            seq![s.last()]
        }
    }
}

/// Escape a value for a Steam VDF string.
pub fn steam_escape(value: &str) -> (r: String)
    ensures
        r@ == steam_escaped(value@),
{
    let n = value.unicode_len();
    let mut r = String::new();
    let mut i: usize = 0;
    proof {
        reveal_strlit("\\\\");
        reveal_strlit("\\\"");
    }
    while i < n
        invariant
            n == value@.len(),
            i <= n,
            r@ == steam_escaped(value@.take(i as int)),
        decreases n - i,
    {
        let c = value.get_char(i);
        proof {
            reveal_strlit("\\\\");
            reveal_strlit("\\\"");
        }
        if c == '\\' {
            r.append("\\\\");
        } else if c == '"' {
            r.append("\\\"");
        } else {
            r.append(value.substring_char(i, i + 1));
        }
        proof {
            assert(value@.take(i + 1).drop_last() =~= value@.take(i as int));
        }
        assert(r@ =~= steam_escaped(value@.take(i + 1)));
        i = i + 1;
    }
    assert(value@.take(n as int) =~= value@);
    r
}

} // verus!
