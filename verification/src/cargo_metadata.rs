//! Optional Cargo workspace index of the open source: what `cargo metadata`
//! reports about packages and targets. It is rebuildable; the Vapor manifests
//! stay the authority on identity.

use vstd::prelude::*;
use crate::text::{str_eq, trim, trim_str, concat, concat3, concat4, concat5};

verus! {

/// One target declared by a Cargo package.
#[derive(Debug, Clone)]
pub struct CargoTarget {
    /// Target name passed to Cargo commands.
    pub name: String,
    /// Cargo target kinds such as `lib`, `bin`, or `test`.
    pub kinds: Vec<String>,
}

impl CargoTarget {
    /// Target name passed to Cargo commands.
    pub fn name(&self) -> (r: &str)
        ensures
            r@ == self.name@,
    {
        self.name.as_str()
    }

    /// Cargo target kinds such as `lib`, `bin`, or `test`.
    pub fn kinds(&self) -> (r: &[String])
        ensures
            r@ == self.kinds@,
    {
        self.kinds.as_slice()
    }
}

/// Cargo package and its declared build targets.
#[derive(Debug, Clone)]
pub struct CargoPackage {
    /// Package name from `[package]`.
    pub name: String,
    /// Absolute package manifest path.
    pub manifest_path: String,
    /// Library, binary, example, test, and other Cargo targets.
    pub targets: Vec<CargoTarget>,
}

impl CargoPackage {
    /// Package name from `[package]`.
    pub fn name(&self) -> (r: &str)
        ensures
            r@ == self.name@,
    {
        self.name.as_str()
    }

    /// Absolute package manifest path.
    pub fn manifest_path(&self) -> (r: &str)
        ensures
            r@ == self.manifest_path@,
    {
        self.manifest_path.as_str()
    }

    /// Library, binary, example, test, and other Cargo targets.
    pub fn targets(&self) -> (r: &[CargoTarget])
        ensures
            r@ == self.targets@,
    {
        self.targets.as_slice()
    }
}

/// Rebuildable description of one Cargo workspace.
#[derive(Debug, Clone)]
pub struct CargoWorkspace {
    /// Cargo's workspace root.
    pub root: String,
    /// Directory where Cargo writes build artifacts.
    pub target_directory: String,
    /// Packages reported as workspace members.
    pub packages: Vec<CargoPackage>,
}

impl CargoWorkspace {
    /// Cargo's workspace root.
    pub fn root(&self) -> (r: &str)
        ensures
            r@ == self.root@,
    {
        self.root.as_str()
    }

    /// Directory where Cargo writes build artifacts.
    pub fn target_directory(&self) -> (r: &str)
        ensures
            r@ == self.target_directory@,
    {
        self.target_directory.as_str()
    }

    /// Packages reported as workspace members.
    pub fn packages(&self) -> (r: &[CargoPackage])
        ensures
            r@ == self.packages@,
    {
        self.packages.as_slice()
    }
}

/// Result of attempting to index the source workspace with Cargo.
#[derive(Debug, Clone)]
pub enum CargoIndex {
    /// The source workspace has no root `Cargo.toml`.
    NotPresent,
    /// Cargo metadata was loaded.
    Loaded(CargoWorkspace),
    /// Cargo metadata applied but could not be regenerated.
    Unavailable(String),
}

/// Message for an installation without a bundled Cargo.
pub open spec fn msg_no_bundled_cargo(installation_root: Seq<char>) -> Seq<char> {
    "Steam installation '"@ + installation_root + "' has no bundled Cargo executable"@
}

impl CargoIndex {
    /// The index of a source: absent without a root `Cargo.toml`, unavailable
    /// without a bundled Cargo or when loading the metadata failed, else the
    /// loaded workspace.
    pub fn inspect(
        manifest_exists: bool,
        bundled_cargo: Option<&str>,
        installation_root: &str,
        metadata: Result<CargoWorkspace, String>,
    ) -> (r: Self)
        ensures
            !manifest_exists ==> r is NotPresent,
            manifest_exists && bundled_cargo.is_none() ==> (r matches CargoIndex::Unavailable(m)
                && m@ == msg_no_bundled_cargo(installation_root@)),
            manifest_exists && bundled_cargo.is_some() ==> match metadata {
                Ok(w) => r matches CargoIndex::Loaded(x) && x.root == w.root && x.target_directory == w.target_directory
                    && x.packages@ == w.packages@,
                Err(e) => r matches CargoIndex::Unavailable(m) && m == e,
            },
    {
        if !manifest_exists {
            return CargoIndex::NotPresent;
        }
        if bundled_cargo.is_none() {
            return CargoIndex::Unavailable(concat3("Steam installation '", installation_root, "' has no bundled Cargo executable"));
        }
        match metadata {
            Ok(w) => CargoIndex::Loaded(w),
            Err(e) => CargoIndex::Unavailable(e),
        }
    }
}

/// Message for a failed `cargo metadata` run that exited with `status` and
/// wrote `stderr`.
pub open spec fn msg_metadata_failed(status: Seq<char>, stderr: Seq<char>) -> Seq<char> {
    "bundled Cargo metadata failed with "@ + status + (if trim(stderr).len() == 0 { Seq::<char>::empty() } else { ": "@ + trim(stderr) })
}

/// The error of a failed `cargo metadata` run.
pub fn metadata_failed(status: &str, stderr: &str) -> (r: String)
    ensures
        r@ == msg_metadata_failed(status@, stderr@),
{
    let detail = trim_str(stderr);
    let mut r = concat("bundled Cargo metadata failed with ", status);
    if detail.unicode_len() > 0 {
        r.append(": ");
        r.append(detail);
    }
    r
}

/// Message for Cargo metadata whose workspace root is not the source root.
pub open spec fn msg_root_mismatch(cargo_root: Seq<char>, source_root: Seq<char>) -> Seq<char> {
    "Cargo workspace root '"@ + cargo_root + "' does not match Vapor source root '"@ + source_root + "'"@
}

/// Accept loaded Cargo metadata only when it describes the source root itself.
pub fn require_source_workspace(workspace: CargoWorkspace, source_root: &str) -> (r: Result<CargoWorkspace, String>)
    ensures
        workspace.root@ == source_root@ ==> (r matches Ok(w) && w.root == workspace.root
            && w.target_directory == workspace.target_directory && w.packages@ == workspace.packages@),
        workspace.root@ != source_root@ ==> (r matches Err(e) && e@ == msg_root_mismatch(workspace.root@, source_root@)),
{
    if str_eq(workspace.root.as_str(), source_root) {
        Ok(workspace)
    } else {
        Err(concat5("Cargo workspace root '", workspace.root.as_str(), "' does not match Vapor source root '", source_root, "'"))
    }
}

} // verus!
