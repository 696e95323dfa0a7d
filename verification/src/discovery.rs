//! The two roots of a shell session: the Steam installation/app root,
//! anchored to the running executable, and the external authored source
//! root, which must be disjoint from it.

use vstd::prelude::*;
use crate::text::{concat, concat3, owned, str_eq, trim, trim_str, starts_with, has_prefix, split_lines, lines, string_views};
use crate::keyed::{ascending, sort_strings};
use crate::paths::{join, join_path, within, is_within, parent, parent_path, file_name, file_name_of};
use crate::manifest::{APP_FILE_NAME, WORKSPACE_FILE_NAME, VaporEntity, kind_label, msg_boundary};

verus! {

/// Conventional installation directory containing runtime libraries.
pub const LIBRARY_DIR: &'static str = "lib";

/// Paths owned by the Steam installation/app root.
#[derive(Debug, Clone)]
pub struct InstallationPaths {
    executable: String,
    root: String,
    binaries: String,
    libraries: Option<String>,
    cargo: Option<String>,
    identity_id: String,
}

/// Critical authored source that is managed separately from the installation.
#[derive(Debug, Clone)]
pub struct SourceWorkspace {
    invocation: String,
    root: String,
    identity_id: String,
}

/// Both independent roots required by one shell session.
#[derive(Debug, Clone)]
pub struct EnvironmentPaths {
    installation: InstallationPaths,
    source: SourceWorkspace,
}

/// Plain view of [`InstallationPaths`].
pub struct InstallationView {
    /// Canonical running executable.
    pub executable: Seq<char>,
    /// App root.
    pub root: Seq<char>,
    /// Directory of the running executable.
    pub binaries: Seq<char>,
    /// Library directory, when installed.
    pub libraries: Option<Seq<char>>,
    /// Bundled Cargo, when found.
    pub cargo: Option<Seq<char>>,
    /// Identity declared by the app-root marker.
    pub identity_id: Seq<char>,
}

impl View for InstallationPaths {
    type V = InstallationView;

    closed spec fn view(&self) -> InstallationView {
        InstallationView {
            executable: self.executable@,
            root: self.root@,
            binaries: self.binaries@,
            libraries: crate::manifest::opt_view(self.libraries),
            cargo: crate::manifest::opt_view(self.cargo),
            identity_id: self.identity_id@,
        }
    }
}

/// Plain view of [`SourceWorkspace`].
pub struct SourceView {
    /// Directory from which the shell was invoked.
    pub invocation: Seq<char>,
    /// Source root.
    pub root: Seq<char>,
    /// Identity declared by the source marker.
    pub identity_id: Seq<char>,
}

impl View for SourceWorkspace {
    type V = SourceView;

    closed spec fn view(&self) -> SourceView {
        SourceView { invocation: self.invocation@, root: self.root@, identity_id: self.identity_id@ }
    }
}

impl EnvironmentPaths {
    /// The installation half.
    pub closed spec fn installation_spec(&self) -> InstallationPaths {
        self.installation
    }

    /// The source half.
    pub closed spec fn source_spec(&self) -> SourceWorkspace {
        self.source
    }
}

/// Reject a canonical path outside the given boundary.
///
/// # Errors
///
/// Returns an error containing both paths when `candidate` is not below `root`.
pub fn ensure_contained(root: &str, candidate: &str) -> (r: Result<(), String>)
    ensures
        within(candidate@, root@) <==> r is Ok,
        r matches Err(e) ==> e@ == msg_boundary(candidate@, root@),
{
    if is_within(candidate, root) {
        Ok(())
    } else {
        let mut e = concat3("Vapor source boundary violation: '", candidate, "' is outside '");
        e.append(root);
        e.append("'");
        Err(e)
    }
}

/// Whether either root contains the other.
pub open spec fn overlap(a: Seq<char>, b: Seq<char>) -> bool {
    within(a, b) || within(b, a)
}

/// Whether either root contains the other.
pub fn roots_overlap(left: &str, right: &str) -> (r: bool)
    ensures
        r == overlap(left@, right@),
{
    is_within(left, right) || is_within(right, left)
}

/// The app root and binary directory implied by an executable location:
/// `<root>/bin/vapor[.exe]` or `<root>/bin/<target>/vapor[.exe]`.
pub open spec fn layout_outcome(exe: Seq<char>, suffix: Seq<char>) -> Result<(Seq<char>, Seq<char>), Seq<char>> {
    match parent(exe) {
        None => Err("executable has no parent: "@ + exe),
        Some(binaries) => {
            let expected_name = "vapor"@ + suffix;
            let in_bin = file_name(binaries) == Some("bin"@);
            let under_bin = match parent(binaries) {
                Some(p) => file_name(p) == Some("bin"@),
                None => false,
            };
            let root: Result<Seq<char>, Seq<char>> = if in_bin {
                match parent(binaries) {
                    Some(r) => Ok(r),
                    None => Err("binary directory has no parent: "@ + binaries),
                }
            } else if under_bin {
                match parent(binaries) {
                    Some(p) => match parent(p) {
                        Some(r) => Ok(r),
                        None => Err("target binary directory has no app-root parent: "@ + binaries),
                    },
                    None => Err("target binary directory has no app-root parent: "@ + binaries),
                }
            } else {
                Ok(binaries)
            };
            match root {
                Err(e) => Err(e),
                Ok(root) => {
                    let flat = join(join(root, "bin"@), expected_name);
                    let targeted = under_bin && exe == join(binaries, expected_name);
                    if exe == flat || targeted {
                        Ok((root, binaries))
                    } else {
                        Err(msg_bad_layout(exe, root, flat, join(join(join(root, "bin"@), "<target>"@), expected_name)))
                    }
                },
            }
        },
    }
}

/// Message for an executable outside the installed layout.
pub open spec fn msg_bad_layout(exe: Seq<char>, root: Seq<char>, flat: Seq<char>, target: Seq<char>) -> Seq<char> {
    "the running executable is not laid out as an installed Vapor application\n  executable: "@ + exe
        + "\n  candidate app root: "@ + root + "\n  expected command: "@ + flat
        + "\n  expected target command: "@ + target
        + "\nnote: this usually means a source-built target/debug/vapor was run directly\nhelp: place the bootstrap application outside every source root and run a packaged Vapor command"@
}

/// Check that a canonical executable path is laid out as an installed app,
/// returning `(app root, binary directory)`. `exe_suffix` is the platform's
/// executable suffix (empty or `.exe`).
///
/// # Errors
///
/// Fails when the executable is not `<root>/bin/vapor` or
/// `<root>/bin/<target>/vapor` (with the suffix).
pub fn installation_layout(executable: &str, exe_suffix: &str) -> (r: Result<(String, String), String>)
    ensures
        match r {
            Ok((root, bin)) => layout_outcome(executable@, exe_suffix@) == Ok::<(Seq<char>, Seq<char>), Seq<char>>((root@, bin@)),
            Err(e) => layout_outcome(executable@, exe_suffix@) == Err::<(Seq<char>, Seq<char>), Seq<char>>(e@),
        },
{
    proof {
        reveal_strlit("bin");
    }
    let Some(binaries) = parent_path(executable) else {
        return Err(concat("executable has no parent: ", executable));
    };
    let expected_name = concat("vapor", exe_suffix);
    let in_bin = match file_name_of(binaries.as_str()) {
        Some(n) => str_eq(n, "bin"),
        None => false,
    };
    let bin_parent = parent_path(binaries.as_str());
    let under_bin = match &bin_parent {
        Some(p) => match file_name_of(p.as_str()) {
            Some(n) => str_eq(n, "bin"),
            None => false,
        },
        None => false,
    };
    let root = if in_bin {
        match bin_parent {
            Some(r) => r,
            None => return Err(concat("binary directory has no parent: ", binaries.as_str())),
        }
    } else if under_bin {
        let p = bin_parent.unwrap();
        match parent_path(p.as_str()) {
            Some(r) => r,
            None => return Err(concat("target binary directory has no app-root parent: ", binaries.as_str())),
        }
    } else {
        binaries.clone()
    };
    let bin_dir = join_path(root.as_str(), "bin");
    let flat = join_path(bin_dir.as_str(), expected_name.as_str());
    let targeted = under_bin && {
        let candidate = join_path(binaries.as_str(), expected_name.as_str());
        str_eq(executable, candidate.as_str())
    };
    if str_eq(executable, flat.as_str()) || targeted {
        Ok((root, binaries))
    } else {
        let target_dir = join_path(bin_dir.as_str(), "<target>");
        let target = join_path(target_dir.as_str(), expected_name.as_str());
        let mut e = concat(
            "the running executable is not laid out as an installed Vapor application\n  executable: ",
            executable,
        );
        e.append("\n  candidate app root: ");
        e.append(root.as_str());
        e.append("\n  expected command: ");
        e.append(flat.as_str());
        e.append("\n  expected target command: ");
        e.append(target.as_str());
        e.append(
            "\nnote: this usually means a source-built target/debug/vapor was run directly\nhelp: place the bootstrap application outside every source root and run a packaged Vapor command",
        );
        Err(e)
    }
}

/// Message for a highest manifest that is not `[root]`.
pub open spec fn msg_not_installation(marker: Seq<char>, what: Seq<char>, id: Seq<char>) -> Seq<char> {
    "highest Vapor manifest '"@ + marker + "' describes "@ + what + " '"@ + id
        + "', not the Steam installation/app root; the installation must contain [root]"@
}

/// Identity of an installation marker: the id of a `[root]` entity.
pub open spec fn installation_identity(marker: Seq<char>, e: VaporEntity) -> Result<Seq<char>, Seq<char>> {
    match e {
        VaporEntity::Root { id, .. } => Ok(id@),
        VaporEntity::Registry { id, .. } => Err(msg_not_installation(marker, "registry"@, id@)),
        VaporEntity::Workspace { id, .. } => Err(msg_not_installation(marker, "workspace"@, id@)),
        VaporEntity::Content { kind, id, .. } => Err(msg_not_installation(marker, kind_label(kind), id@)),
    }
}

/// Require that the installation marker declares `[root]`.
///
/// # Errors
///
/// Fails when the marker describes a registry, workspace, or content.
pub fn require_installation_marker(marker: &str, entity: &VaporEntity) -> (r: Result<String, String>)
    ensures
        match r {
            Ok(id) => installation_identity(marker@, *entity) == Ok::<Seq<char>, Seq<char>>(id@),
            Err(e) => installation_identity(marker@, *entity) == Err::<Seq<char>, Seq<char>>(e@),
        },
{
    let (what, id): (&str, &String) = match entity {
        VaporEntity::Root { id, .. } => return Ok(id.clone()),
        VaporEntity::Registry { id, .. } => ("registry", id),
        VaporEntity::Workspace { id, .. } => ("workspace", id),
        VaporEntity::Content { kind, id, .. } => (kind.label(), id),
    };
    let mut e = concat3("highest Vapor manifest '", marker, "' describes ");
    e.append(what);
    e.append(" '");
    e.append(id.as_str());
    e.append("', not the Steam installation/app root; the installation must contain [root]");
    Err(e)
}

/// What the host observed at a candidate app root.
#[derive(Debug)]
pub struct InstallationProbe {
    /// Whether `<root>/App.vapor.toml` is a file.
    pub marker_is_file: bool,
    /// The entity read from that marker (read only when it is a file).
    pub marker: Result<VaporEntity, String>,
    /// The canonical, contained `lib` directory, when present.
    pub libraries: Result<Option<String>, String>,
    /// The first bundled Cargo executable found.
    pub cargo: Option<String>,
}

/// Message for an installation without its root manifest.
pub open spec fn msg_missing_app_manifest(exe: Seq<char>, root: Seq<char>, marker: Seq<char>) -> Seq<char> {
    "the installed Vapor application is missing its root manifest\n  executable: "@ + exe
        + "\n  app root:   "@ + root + "\n  expected:   "@ + marker
        + "\nhelp: install or bootstrap the app root with a [root] "@ + APP_FILE_NAME@ + " beside bin/"@
}

/// The installation anchored at a canonical executable, from what the host
/// observed at the implied app root, or why there is none.
pub open spec fn installation_outcome(executable: Seq<char>, exe_suffix: Seq<char>, probe: InstallationProbe) -> Result<InstallationView, Seq<char>> {
    match layout_outcome(executable, exe_suffix) {
        Err(e) => Err(e),
        Ok((root, bin)) => {
            let marker = join(root, APP_FILE_NAME@);
            if !probe.marker_is_file {
                Err(msg_missing_app_manifest(executable, root, marker))
            } else {
                match probe.marker {
                    Err(e) => Err(e@),
                    Ok(entity) => match installation_identity(marker, entity) {
                        Err(e) => Err(e),
                        Ok(id) => match probe.libraries {
                            Err(e) => Err(e@),
                            Ok(libraries) => Ok(InstallationView {
                                executable,
                                root,
                                binaries: bin,
                                libraries: crate::manifest::opt_view(libraries),
                                cargo: crate::manifest::opt_view(probe.cargo),
                                identity_id: id,
                            }),
                        },
                    },
                }
            }
        },
    }
}

impl InstallationPaths {
    /// Build the installation anchored at a canonical executable, from what
    /// the host observed at the implied app root.
    ///
    /// # Errors
    ///
    /// Fails for an executable outside the installed layout, a missing or
    /// invalid app-root marker, a marker that describes anything except the
    /// app root, or an invalid library directory.
    pub fn from_executable(executable: &str, exe_suffix: &str, probe: &InstallationProbe) -> (r: Result<Self, String>)
        ensures
            match installation_outcome(executable@, exe_suffix@, *probe) {
                Err(e) => r matches Err(m) && m@ == e,
                Ok(v) => r matches Ok(p) && p@ == v,
            },
    {
        let (root, binaries) = match installation_layout(executable, exe_suffix) {
            Ok(v) => v,
            Err(e) => return Err(e),
        };
        let marker = join_path(root.as_str(), APP_FILE_NAME);
        if !probe.marker_is_file {
            let mut e = concat(
                "the installed Vapor application is missing its root manifest\n  executable: ",
                executable,
            );
            e.append("\n  app root:   ");
            e.append(root.as_str());
            e.append("\n  expected:   ");
            e.append(marker.as_str());
            e.append("\nhelp: install or bootstrap the app root with a [root] ");
            e.append(APP_FILE_NAME);
            e.append(" beside bin/");
            return Err(e);
        }
        let identity_id = match &probe.marker {
            Err(e) => return Err(e.clone()),
            Ok(entity) => match require_installation_marker(marker.as_str(), entity) {
                Ok(id) => id,
                Err(e) => return Err(e),
            },
        };
        let libraries = match &probe.libraries {
            Err(e) => return Err(e.clone()),
            Ok(l) => l.clone(),
        };
        Ok(Self {
            executable: owned(executable),
            root,
            binaries,
            libraries,
            cargo: probe.cargo.clone(),
            identity_id,
        })
    }

    /// A field-for-field copy.
    pub fn duplicate(&self) -> (r: Self)
        ensures
            r == *self,
    {
        InstallationPaths {
            executable: self.executable.clone(),
            root: self.root.clone(),
            binaries: self.binaries.clone(),
            libraries: crate::content::copy_optional(&self.libraries),
            cargo: crate::content::copy_optional(&self.cargo),
            identity_id: self.identity_id.clone(),
        }
    }

    /// Canonical running executable.
    pub fn executable(&self) -> (r: &str)
        ensures
            r@ == self@.executable,
    {
        self.executable.as_str()
    }

    /// Steam installation/app-root machinery boundary.
    pub fn root(&self) -> (r: &str)
        ensures
            r@ == self@.root,
    {
        self.root.as_str()
    }

    /// Directory containing the running shell executable.
    pub fn binaries(&self) -> (r: &str)
        ensures
            r@ == self@.binaries,
    {
        self.binaries.as_str()
    }

    /// App-local Vapor metadata directory.
    pub fn vapor_dir(&self) -> (r: String)
        ensures
            r@ == join(self@.root, ".vapor"@),
    {
        join_path(self.root.as_str(), ".vapor")
    }

    /// App-local mutable Vapor state directory.
    pub fn state_dir(&self) -> (r: String)
        ensures
            r@ == join(join(self@.root, ".vapor"@), "state"@),
    {
        let v = self.vapor_dir();
        join_path(v.as_str(), "state")
    }

    /// Conventional `lib` directory, when installed.
    pub fn libraries(&self) -> (r: Option<&str>)
        ensures
            match self@.libraries {
                Some(l) => r matches Some(s) && s@ == l,
                None => r.is_none(),
            },
    {
        match &self.libraries {
            Some(l) => Some(l.as_str()),
            None => None,
        }
    }

    /// Bundled Cargo executable: the first of the candidates (see
    /// [`bundled_cargo_candidates`]) that was a file when the installation
    /// was discovered.
    pub fn bundled_cargo(&self) -> (r: Option<&str>)
        ensures
            match self@.cargo {
                Some(c) => r matches Some(s) && s@ == c,
                None => r.is_none(),
            },
    {
        match &self.cargo {
            Some(c) => Some(c.as_str()),
            None => None,
        }
    }

    /// Stable identity declared by the installation marker.
    pub fn identity_id(&self) -> (r: &str)
        ensures
            r@ == self@.identity_id,
    {
        self.identity_id.as_str()
    }
}

/// Message for a highest manifest that is not a source root.
pub open spec fn msg_not_source(marker: Seq<char>, what: Seq<char>, id: Seq<char>, tail: Seq<char>) -> Seq<char> {
    "highest Vapor manifest '"@ + marker + "' describes "@ + what + " '"@ + id + "', not a source root; "@ + tail
}

/// Identity of a source marker: the id of a `[root]` or `[workspace]` entity.
pub open spec fn source_identity_of(marker: Seq<char>, e: VaporEntity) -> Result<Seq<char>, Seq<char>> {
    match e {
        VaporEntity::Root { id, .. } => Ok(id@),
        VaporEntity::Workspace { id, .. } => Ok(id@),
        VaporEntity::Registry { id, .. } => Err(msg_not_source(marker, "registry"@, id@, "open a [root] or [workspace] repository"@)),
        VaporEntity::Content { kind, id, .. } => Err(msg_not_source(marker, kind_label(kind), id@, "content must live inside a [workspace] repository"@)),
    }
}

/// Require that a source marker declares `[root]` or `[workspace]`.
///
/// # Errors
///
/// Fails when the marker describes a registry or content.
pub fn require_source_marker(marker: &str, entity: &VaporEntity) -> (r: Result<String, String>)
    ensures
        match r {
            Ok(id) => source_identity_of(marker@, *entity) == Ok::<Seq<char>, Seq<char>>(id@),
            Err(e) => source_identity_of(marker@, *entity) == Err::<Seq<char>, Seq<char>>(e@),
        },
{
    let (what, id, tail): (&str, &String, &str) = match entity {
        VaporEntity::Root { id, .. } => return Ok(id.clone()),
        VaporEntity::Workspace { id, .. } => return Ok(id.clone()),
        VaporEntity::Registry { id, .. } => ("registry", id, "open a [root] or [workspace] repository"),
        VaporEntity::Content { kind, id, .. } => (kind.label(), id, "content must live inside a [workspace] repository"),
    };
    let mut e = concat3("highest Vapor manifest '", marker, "' describes ");
    e.append(what);
    e.append(" '");
    e.append(id.as_str());
    e.append("', not a source root; ");
    e.append(tail);
    Err(e)
}

/// Message when the source resolved to the app root itself.
pub open spec fn msg_source_is_app(root: Seq<char>) -> Seq<char> {
    "no external source root is selected: invocation resolved the Steam installation/app root itself\n  app root: "@
        + root
        + "\nhelp: invoke Vapor from a separate source repository, or open the shell and select a remembered source root"@
}

/// Message when the source and app roots overlap.
pub open spec fn msg_roots_overlap(root: Seq<char>, app: Seq<char>) -> Seq<char> {
    "the selected source root and Steam installation/app root are not disjoint\n  source root: "@ + root
        + "\n  app root:    "@ + app + "\nhelp: keep authored repositories outside the Steam installation/app root"@
}

/// Message when no source marker exists above the invocation directory.
pub open spec fn msg_no_source_marker(invocation: Seq<char>) -> Seq<char> {
    "'"@ + invocation + "' is not inside an external Vapor source root: no "@ + WORKSPACE_FILE_NAME@
        + " exists in any ancestor\nhelp: invoke Vapor from a source repository, not from the Steam app directory"@
}

/// Outcome of anchoring a source root at a marker.
pub open spec fn marker_outcome(marker: Seq<char>, entity: VaporEntity, app_root: Seq<char>) -> Result<(Seq<char>, Seq<char>), Seq<char>> {
    let root = match parent(marker) { Some(p) => p, None => Seq::empty() };
    match source_identity_of(marker, entity) {
        Err(e) => Err(e),
        Ok(id) => if overlap(root, app_root) {
            if root == app_root {
                Err(msg_source_is_app(root))
            } else {
                Err(msg_roots_overlap(root, app_root))
            }
        } else {
            Ok((root, id))
        },
    }
}

impl SourceWorkspace {
    fn from_marker(invocation: &str, marker: &str, entity: &VaporEntity, installation: &InstallationPaths) -> (r: Result<Self, String>)
        ensures
            match marker_outcome(marker@, *entity, installation@.root) {
                Err(e) => r matches Err(m) && m@ == e,
                Ok((root, id)) => r matches Ok(s) && s@.invocation == invocation@ && s@.root == root && s@.identity_id == id,
            },
    {
        let root = match parent_path(marker) {
            Some(p) => p,
            None => String::new(),
        };
        let identity_id = match require_source_marker(marker, entity) {
            Ok(id) => id,
            Err(e) => return Err(e),
        };
        if roots_overlap(root.as_str(), installation.root()) {
            if str_eq(root.as_str(), installation.root()) {
                let mut e = concat(
                    "no external source root is selected: invocation resolved the Steam installation/app root itself\n  app root: ",
                    root.as_str(),
                );
                e.append(
                    "\nhelp: invoke Vapor from a separate source repository, or open the shell and select a remembered source root",
                );
                return Err(e);
            }
            let mut e = concat(
                "the selected source root and Steam installation/app root are not disjoint\n  source root: ",
                root.as_str(),
            );
            e.append("\n  app root:    ");
            e.append(installation.root());
            e.append("\nhelp: keep authored repositories outside the Steam installation/app root");
            return Err(e);
        }
        Ok(Self { invocation: owned(invocation), root, identity_id })
    }

    /// Anchor the source root at the highest source marker above a canonical
    /// invocation directory; `highest` is that marker and the entity read from it.
    ///
    /// # Errors
    ///
    /// Fails when no marker exists, the entity could not be read, the marker is
    /// not a source root, or the source root overlaps the installation.
    pub fn from_invocation(
        invocation: &str,
        highest: &Option<(String, Result<VaporEntity, String>)>,
        installation: &InstallationPaths,
    ) -> (r: Result<Self, String>)
        ensures
            match highest {
                None => r matches Err(m) && m@ == msg_no_source_marker(invocation@),
                Some((marker, Err(e))) => r matches Err(m) && m@ == e@,
                Some((marker, Ok(entity))) => match marker_outcome(marker@, *entity, installation@.root) {
                    Err(e) => r matches Err(m) && m@ == e,
                    Ok((root, id)) => r matches Ok(s) && s@.invocation == invocation@ && s@.root == root && s@.identity_id == id,
                },
            },
    {
        match highest {
            None => {
                let mut e = concat3("'", invocation, "' is not inside an external Vapor source root: no ");
                e.append(WORKSPACE_FILE_NAME);
                e.append(" exists in any ancestor\nhelp: invoke Vapor from a source repository, not from the Steam app directory");
                Err(e)
            },
            Some((_, Err(e))) => Err(e.clone()),
            Some((marker, Ok(entity))) => Self::from_marker(invocation, marker.as_str(), entity, installation),
        }
    }

    /// Anchor the source root at an explicitly selected directory: an exact
    /// `[root]`/`[workspace]` marker there wins, otherwise the highest marker
    /// above it is used as for [`Self::from_invocation`].
    ///
    /// # Errors
    ///
    /// Fails with the same diagnostics as [`Self::from_invocation`].
    pub fn from_source_path(
        invocation: &str,
        exact: &Option<(String, Result<VaporEntity, String>)>,
        highest: &Option<(String, Result<VaporEntity, String>)>,
        installation: &InstallationPaths,
    ) -> (r: Result<Self, String>)
        ensures
            match exact {
                Some((marker, Err(e))) => r matches Err(m) && m@ == e@,
                Some((marker, Ok(entity))) => match marker_outcome(marker@, *entity, installation@.root) {
                    Err(e) => r matches Err(m) && m@ == e,
                    Ok((root, id)) => r matches Ok(s) && s@.invocation == invocation@ && s@.root == root && s@.identity_id == id,
                },
                None => match highest {
                    None => r matches Err(m) && m@ == msg_no_source_marker(invocation@),
                    Some((marker, Err(e))) => r matches Err(m) && m@ == e@,
                    Some((marker, Ok(entity))) => match marker_outcome(marker@, *entity, installation@.root) {
                        Err(e) => r matches Err(m) && m@ == e,
                        Ok((root, id)) => r matches Ok(s) && s@.invocation == invocation@ && s@.root == root && s@.identity_id == id,
                    },
                },
            },
    {
        match exact {
            Some((_, Err(e))) => Err(e.clone()),
            Some((marker, Ok(entity))) => Self::from_marker(invocation, marker.as_str(), entity, installation),
            None => Self::from_invocation(invocation, highest, installation),
        }
    }

    /// A field-for-field copy.
    pub fn duplicate(&self) -> (r: Self)
        ensures
            r == *self,
    {
        SourceWorkspace { invocation: self.invocation.clone(), root: self.root.clone(), identity_id: self.identity_id.clone() }
    }

    /// Directory from which the shell was invoked.
    pub fn invocation(&self) -> (r: &str)
        ensures
            r@ == self@.invocation,
    {
        self.invocation.as_str()
    }

    /// Highest external Vapor source root containing authored source.
    pub fn root(&self) -> (r: &str)
        ensures
            r@ == self@.root,
    {
        self.root.as_str()
    }

    /// Stable identity declared by the source marker.
    pub fn identity_id(&self) -> (r: &str)
        ensures
            r@ == self@.identity_id,
    {
        self.identity_id.as_str()
    }

    /// Whether a canonical path belongs to this source workspace.
    pub fn contains(&self, path: &str) -> (r: bool)
        ensures
            r == within(path@, self@.root),
    {
        is_within(path, self.root.as_str())
    }
}

impl EnvironmentPaths {
    /// Build an active environment from an installation and a source
    /// anchored by [`SourceWorkspace::from_invocation`].
    ///
    /// # Errors
    ///
    /// Fails when the selected source is invalid or overlaps the installation.
    pub fn from_installation_and_invocation(
        installation: InstallationPaths,
        invocation: &str,
        highest: &Option<(String, Result<VaporEntity, String>)>,
    ) -> (r: Result<Self, String>)
        ensures
            match SourceWorkspace::from_invocation_spec(invocation@, *highest, installation@.root) {
                Err(e) => r matches Err(m) && m@ == e,
                Ok((root, id)) => r matches Ok(p) && p.installation_spec() == installation
                    && p.source_spec()@.invocation == invocation@ && p.source_spec()@.root == root && p.source_spec()@.identity_id == id,
            },
    {
        let source = match SourceWorkspace::from_invocation(invocation, highest, &installation) {
            Ok(s) => s,
            Err(e) => return Err(e),
        };
        Ok(Self { installation, source })
    }

    /// Build an active environment from an explicitly selected source path,
    /// anchored by [`SourceWorkspace::from_source_path`].
    ///
    /// # Errors
    ///
    /// Fails when the selected source is invalid or overlaps the installation.
    pub fn from_installation_and_source_path(
        installation: InstallationPaths,
        source_path: &str,
        exact: &Option<(String, Result<VaporEntity, String>)>,
        highest: &Option<(String, Result<VaporEntity, String>)>,
    ) -> (r: Result<Self, String>)
        ensures
            match exact {
                Some((marker, Err(e))) => r matches Err(m) && m@ == e@,
                Some((marker, Ok(entity))) => match marker_outcome(marker@, *entity, installation@.root) {
                    Err(e) => r matches Err(m) && m@ == e,
                    Ok((root, id)) => r matches Ok(p) && p.installation_spec() == installation
                        && p.source_spec()@.invocation == source_path@ && p.source_spec()@.root == root && p.source_spec()@.identity_id == id,
                },
                None => match SourceWorkspace::from_invocation_spec(source_path@, *highest, installation@.root) {
                    Err(e) => r matches Err(m) && m@ == e,
                    Ok((root, id)) => r matches Ok(p) && p.installation_spec() == installation
                        && p.source_spec()@.invocation == source_path@ && p.source_spec()@.root == root && p.source_spec()@.identity_id == id,
                },
            },
    {
        let source = match SourceWorkspace::from_source_path(source_path, exact, highest, &installation) {
            Ok(s) => s,
            Err(e) => return Err(e),
        };
        Ok(Self { installation, source })
    }

    /// A field-for-field copy.
    pub fn duplicate(&self) -> (r: Self)
        ensures
            r == *self,
    {
        EnvironmentPaths { installation: self.installation.duplicate(), source: self.source.duplicate() }
    }

    /// Steam installation/app-root paths.
    pub fn installation(&self) -> (r: &InstallationPaths)
        ensures
            *r == self.installation_spec(),
    {
        &self.installation
    }

    /// External authored-source workspace.
    pub fn source(&self) -> (r: &SourceWorkspace)
        ensures
            *r == self.source_spec(),
    {
        &self.source
    }
}

impl SourceWorkspace {
    /// Outcome of [`Self::from_invocation`]: `(root, identity)`.
    pub open spec fn from_invocation_spec(
        invocation: Seq<char>,
        highest: Option<(String, Result<VaporEntity, String>)>,
        app_root: Seq<char>,
    ) -> Result<(Seq<char>, Seq<char>), Seq<char>> {
        match highest {
            None => Err(msg_no_source_marker(invocation)),
            Some((marker, Err(e))) => Err(e@),
            Some((marker, Ok(entity))) => marker_outcome(marker@, entity, app_root),
        }
    }
}

/// The lines of `source` declare a top-level `[expected]` table.
pub open spec fn declares_table(source: Seq<char>, expected: Seq<char>) -> bool {
    exists|i: int| 0 <= i < lines(source).len() && #[trigger] line_is_table(lines(source)[i], expected)
}

/// One line is `[expected]`, allowing surrounding whitespace.
pub open spec fn line_is_table(line: Seq<char>, expected: Seq<char>) -> bool {
    let t = trim(line);
    &&& t.len() >= 2
    &&& t[0] == '['
    &&& t.last() == ']'
    &&& !(t.len() > 2 && t[1] == '[')
    &&& trim(t.subrange(1, t.len() - 1)) == expected
}

fn is_table_line(line: &str, expected: &str) -> (r: bool)
    ensures
        r == line_is_table(line@, expected@),
{
    let t = trim_str(line);
    let n = t.unicode_len();
    if n < 2 || t.get_char(0) != '[' || t.get_char(n - 1) != ']' {
        return false;
    }
    if n > 2 && t.get_char(1) == '[' {
        return false;
    }
    let inner = t.substring_char(1, n - 1);
    str_eq(trim_str(inner), expected)
}

/// Whether `source` declares a top-level `[expected]` table.
pub fn has_top_level_table(source: &str, expected: &str) -> (r: bool)
    ensures
        r == declares_table(source@, expected@),
{
    let all = split_lines(source);
    let mut i: usize = 0;
    while i < all.len()
        invariant
            Seq::new(all@.len(), |j: int| all@[j]@) == lines(source@),
            i <= all@.len(),
            forall|k: int| 0 <= k < i ==> !line_is_table(#[trigger] lines(source@)[k], expected@),
        decreases all@.len() - i,
    {
        assert(all@[i as int]@ == lines(source@)[i as int]);
        if is_table_line(all[i].as_str(), expected) {
            return true;
        }
        i = i + 1;
    }
    assert(all@.len() == lines(source@).len());
    false
}

/// The last entry that holds a value.
pub open spec fn last_some(found: Seq<Option<String>>) -> Option<String>
    decreases found.len(),
{
    if found.len() == 0 {
        None
    } else {
        match found.last() {
            Some(m) => Some(m),
            None => last_some(found.drop_last()),
        }
    }
}

/// The highest marker among ancestors listed from the start directory up:
/// the last ancestor at which a marker was found.
pub fn highest_marker(found: &Vec<Option<String>>) -> (r: Option<String>)
    ensures
        r == last_some(found@),
{
    let mut j = found.len();
    assert(found@.subrange(0, j as int) =~= found@);
    while j > 0
        invariant
            j <= found@.len(),
            last_some(found@) == last_some(found@.subrange(0, j as int)),
        decreases j,
    {
        assert(found@.subrange(0, j as int).drop_last() =~= found@.subrange(0, j - 1));
        match &found[j - 1] {
            Some(m) => return Some(m.clone()),
            None => {},
        }
        j = j - 1;
    }
    None
}


impl EnvironmentPaths {
    /// Discover the installation from a canonical executable and the source
    /// from the highest marker above the invocation directory.
    ///
    /// # Errors
    ///
    /// Returns the installation's errors first, then the source's.
    pub fn from_paths(
        executable: &str,
        exe_suffix: &str,
        probe: &InstallationProbe,
        invocation: &str,
        highest: &Option<(String, Result<VaporEntity, String>)>,
    ) -> (r: Result<Self, String>)
        ensures
            match installation_outcome(executable@, exe_suffix@, *probe) {
                Err(e) => r matches Err(m) && m@ == e,
                Ok(v) => match SourceWorkspace::from_invocation_spec(invocation@, *highest, v.root) {
                    Err(e) => r matches Err(m) && m@ == e,
                    Ok((root, id)) => r matches Ok(p) && p.installation_spec()@ == v
                        && p.source_spec()@.invocation == invocation@ && p.source_spec()@.root == root && p.source_spec()@.identity_id == id,
                },
            },
    {
        let installation = InstallationPaths::from_executable(executable, exe_suffix, probe)?;
        Self::from_installation_and_invocation(installation, invocation, highest)
    }
}

/// Whether a toolchain directory name starts with the selected toolchain.
pub open spec fn toolchain_selected(name: Seq<char>, selected: Option<Seq<char>>) -> bool {
    selected matches Some(s) && has_prefix(name, s)
}

/// The bundled Cargo executables to try, in order: each rustup toolchain's
/// (the selected toolchain's first, each group by name), then the Cargo
/// home's, then the installation's own `bin`.
pub open spec fn cargo_candidates_spec(root: Seq<char>, exe_suffix: Seq<char>, ordered: Seq<Seq<char>>) -> Seq<Seq<char>> {
    let exe = "cargo"@ + exe_suffix;
    ordered.map_values(|t: Seq<char>| join(join(join(join(root, "rustup-home/toolchains"@), t), "bin"@), exe))
        + seq![join(join(root, "cargo-home/bin"@), exe), join(join(root, "bin"@), exe)]
}

/// Toolchain names ordered for the Cargo search: the selected ones first,
/// then the rest, each group in name order.
pub open spec fn toolchain_order(names: Seq<Seq<char>>, selected: Option<Seq<char>>, ordered: Seq<Seq<char>>) -> bool {
    exists|k: int| 0 <= k <= ordered.len()
        && ascending(ordered.take(k)) && ascending(ordered.skip(k))
        && ordered.take(k).to_multiset() == names.filter(|n: Seq<char>| toolchain_selected(n, selected)).to_multiset()
        && ordered.skip(k).to_multiset() == names.filter(|n: Seq<char>| !toolchain_selected(n, selected)).to_multiset()
}

/// The bundled Cargo executables to try, in order, given the directory
/// names under `rustup-home/toolchains` and the selected toolchain
/// (`RUSTUP_TOOLCHAIN`), if any.
pub fn bundled_cargo_candidates(root: &str, exe_suffix: &str, toolchains: Vec<String>, selected: Option<&str>) -> (r: Vec<String>)
    ensures
        exists|ordered: Seq<Seq<char>>|
            toolchain_order(string_views(toolchains@), match selected { Some(s) => Some(s@), None => None::<Seq<char>> }, ordered)
            && string_views(r@) == #[trigger] cargo_candidates_spec(root@, exe_suffix@, ordered),
{
    let ghost sel = match selected { Some(s) => Some(s@), None => None::<Seq<char>> };
    let ghost names = string_views(toolchains@);
    let mut first: Vec<String> = Vec::new();
    let mut rest: Vec<String> = Vec::new();
    let mut i: usize = 0;
    while i < toolchains.len()
        invariant
            i <= toolchains@.len(),
            names == string_views(toolchains@),
            sel == match selected { Some(s) => Some(s@), None => None::<Seq<char>> },
            string_views(first@) == names.take(i as int).filter(|n: Seq<char>| toolchain_selected(n, sel)),
            string_views(rest@) == names.take(i as int).filter(|n: Seq<char>| !toolchain_selected(n, sel)),
        decreases toolchains@.len() - i,
    {
        let name = toolchains[i].as_str();
        let is_selected = match selected {
            Some(s) => starts_with(name, s),
            None => false,
        };
        let ghost f1 = first@;
        let ghost r1 = rest@;
        proof {
            assert(names.take(i + 1) =~= names.take(i as int).push(name@));
            names.take(i as int).lemma_filter_push(name@, |n: Seq<char>| toolchain_selected(n, sel));
            names.take(i as int).lemma_filter_push(name@, |n: Seq<char>| !toolchain_selected(n, sel));
            assert(is_selected == toolchain_selected(name@, sel));
        }
        if is_selected {
            first.push(owned(name));
            proof {
                assert(string_views(first@) =~= string_views(f1).push(name@));
            }
        } else {
            rest.push(owned(name));
            proof {
                assert(string_views(rest@) =~= string_views(r1).push(name@));
            }
        }
        i = i + 1;
    }
    proof {
        assert(names.take(toolchains@.len() as int) =~= names);
    }
    let first = sort_strings(first);
    let rest = sort_strings(rest);
    let ghost ordered = string_views(first@) + string_views(rest@);
    proof {
        let k = string_views(first@).len() as int;
        assert(ordered.take(k) =~= string_views(first@));
        assert(ordered.skip(k) =~= string_views(rest@));
        assert(toolchain_order(names, sel, ordered));
    }
    let exe = concat("cargo", exe_suffix);
    let base = join_path(root, "rustup-home/toolchains");
    let mut out: Vec<String> = Vec::new();
    let mut j: usize = 0;
    while j < first.len()
        invariant
            j <= first@.len(),
            exe@ == "cargo"@ + exe_suffix@,
            base@ == join(root@, "rustup-home/toolchains"@),
            string_views(out@) == string_views(first@).take(j as int).map_values(|t: Seq<char>| join(join(join(base@, t), "bin"@), exe@)),
        decreases first@.len() - j,
    {
        let ghost before = out@;
        out.push(join_path(&join_path(&join_path(base.as_str(), first[j].as_str()), "bin"), exe.as_str()));
        proof {
            assert(string_views(out@) =~= string_views(before).push(out@.last()@));
            assert(string_views(first@).take(j + 1) =~= string_views(first@).take(j as int).push(first@[j as int]@));
            assert(string_views(out@) =~= string_views(first@).take(j + 1).map_values(|t: Seq<char>| join(join(join(base@, t), "bin"@), exe@)));
        }
        j = j + 1;
    }
    proof {
        assert(string_views(first@).take(first@.len() as int) =~= string_views(first@));
    }
    let ghost mid = string_views(out@);
    let mut j: usize = 0;
    while j < rest.len()
        invariant
            j <= rest@.len(),
            exe@ == "cargo"@ + exe_suffix@,
            base@ == join(root@, "rustup-home/toolchains"@),
            string_views(out@) == mid + string_views(rest@).take(j as int).map_values(|t: Seq<char>| join(join(join(base@, t), "bin"@), exe@)),
        decreases rest@.len() - j,
    {
        let ghost before = out@;
        out.push(join_path(&join_path(&join_path(base.as_str(), rest[j].as_str()), "bin"), exe.as_str()));
        proof {
            assert(string_views(out@) =~= string_views(before).push(out@.last()@));
            assert(string_views(rest@).take(j + 1) =~= string_views(rest@).take(j as int).push(rest@[j as int]@));
            assert(string_views(out@) =~= mid + string_views(rest@).take(j + 1).map_values(|t: Seq<char>| join(join(join(base@, t), "bin"@), exe@)));
        }
        j = j + 1;
    }
    proof {
        assert(string_views(rest@).take(rest@.len() as int) =~= string_views(rest@));
    }
    let ghost toolchain_part = string_views(out@);
    out.push(join_path(&join_path(root, "cargo-home/bin"), exe.as_str()));
    out.push(join_path(&join_path(root, "bin"), exe.as_str()));
    proof {
        assert(toolchain_part =~= ordered.map_values(|t: Seq<char>| join(join(join(join(root@, "rustup-home/toolchains"@), t), "bin"@), "cargo"@ + exe_suffix@)));
        assert(string_views(out@) =~= cargo_candidates_spec(root@, exe_suffix@, ordered));
    }
    out
}

/// The first candidate that is a file, given whether each one is.
pub fn first_file(candidates: &[String], is_file: &[bool]) -> (r: Option<String>)
    requires
        candidates@.len() == is_file@.len(),
    ensures
        match r {
            Some(c) => exists|i: int| 0 <= i < candidates@.len() && is_file@[i] && c@ == candidates@[i]@
                && forall|j: int| 0 <= j < i ==> !is_file@[j],
            None => forall|i: int| 0 <= i < is_file@.len() ==> !is_file@[i],
        },
{
    let mut i: usize = 0;
    while i < candidates.len()
        invariant
            candidates@.len() == is_file@.len(),
            i <= candidates@.len(),
            forall|j: int| 0 <= j < i ==> !is_file@[j],
        decreases candidates@.len() - i,
    {
        if is_file[i] {
            return Some(owned(candidates[i].as_str()));
        }
        i = i + 1;
    }
    None
}


/// A source root is only ever anchored when it is disjoint from the Steam
/// installation: neither lies inside the other.
pub proof fn law_anchored_source_is_disjoint(marker: Seq<char>, entity: VaporEntity, app_root: Seq<char>)
    requires
        marker_outcome(marker, entity, app_root) is Ok,
    ensures
        !overlap(marker_outcome(marker, entity, app_root)->Ok_0.0, app_root),
{
}

} // verus!
