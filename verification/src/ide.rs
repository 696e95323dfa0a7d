//! Project-local IDE configuration under the selected source root's
//! `.idea` directory: the three settings files Vapor manages, their
//! contents rendered from templates, and how their on-disk state decides
//! what an inspection reports and a repair writes. Global IDE settings are
//! never touched.

use vstd::prelude::*;
use crate::text::{owned, concat, concat3, string_views};
use crate::paths::{join, join_path, parent, parent_path, within};
use crate::manifest::msg_boundary;
use crate::discovery::{EnvironmentPaths, ensure_contained};
use crate::workspace::{CargoProject, WorkspaceManifest};
use crate::steam::{render_spec, render_template};

verus! {

/// A character as it stands in an XML attribute.
pub open spec fn xml_escape_char(c: char) -> Seq<char> {
    if c == '&' {
        "&amp;"@
    } else if c == '"' {
        "&quot;"@
    } else if c == '<' {
        "&lt;"@
    } else if c == '>' {
        "&gt;"@
    } else {
        seq![c]
    }
}

/// `value` with `&`, `"`, `<` and `>` written as XML entities.
pub open spec fn xml_escape_spec(value: Seq<char>) -> Seq<char>
    decreases value.len(),
{
    if value.len() == 0 {
        Seq::empty()
    } else {
        xml_escape_spec(value.drop_last()) + xml_escape_char(value.last())
    }
}

/// `value` with `&`, `"`, `<` and `>` written as XML entities.
pub fn xml_escape(value: &str) -> (r: String)
    ensures
        r@ == xml_escape_spec(value@),
{
    let n = value.unicode_len();
    let mut r = String::new();
    let mut i: usize = 0;
    while i < n
        invariant
            n == value@.len(),
            i <= n,
            r@ == xml_escape_spec(value@.take(i as int)),
        decreases n - i,
    {
        let c = value.get_char(i);
        if c == '&' {
            r.append("&amp;");
        } else if c == '"' {
            r.append("&quot;");
        } else if c == '<' {
            r.append("&lt;");
        } else if c == '>' {
            r.append("&gt;");
        } else {
            r.append(value.substring_char(i, i + 1));
            assert(value@.subrange(i as int, i + 1) =~= seq![c]);
        }
        proof {
            assert(value@.take(i + 1).drop_last() =~= value@.take(i as int));
        }
        i = i + 1;
    }
    proof {
        assert(value@.take(n as int) =~= value@);
    }
    r
}

/// The standard-library source beside a Rust toolchain's `bin` directory.
pub open spec fn stdlib_candidate(rust_bin: Seq<char>) -> Option<Seq<char>> {
    match parent(rust_bin) {
        Some(setup) => Some(join(setup, "lib/rustlib/src/rust/library"@)),
        None => None,
    }
}

/// Where a toolchain's standard-library source would be.
pub fn rust_stdlib_source(rust_bin: &str) -> (r: Option<String>)
    ensures
        match stdlib_candidate(rust_bin@) {
            Some(p) => r matches Some(s) && s@ == p,
            None => r is None,
        },
{
    match parent_path(rust_bin) {
        Some(setup) => Some(join_path(setup.as_str(), "lib/rustlib/src/rust/library")),
        None => None,
    }
}

/// An `<option>` line naming a path, or nothing without one.
pub open spec fn xml_option_spec(name: Seq<char>, path: Option<Seq<char>>) -> Seq<char> {
    match path {
        None => Seq::empty(),
        Some(p) => "    <option name=\""@ + xml_escape_spec(name) + "\" value=\""@ + xml_escape_spec(p) + "\" />\n"@,
    }
}

/// An `<option>` line naming a path, or nothing without one.
pub fn xml_option(name: &str, path: Option<&str>) -> (r: String)
    ensures
        r@ == xml_option_spec(name@, match path { Some(p) => Some(p@), None => None::<Seq<char>> }),
{
    match path {
        None => String::new(),
        Some(p) => {
            let n = xml_escape(name);
            let v = xml_escape(p);
            let mut r = concat3("    <option name=\"", n.as_str(), "\" value=\"");
            r.append(v.as_str());
            r.append("\" />\n");
            r
        },
    }
}

/// One `<cargoProject>` line per Cargo project of the workspace.
pub open spec fn cargo_project_lines(projects: Seq<CargoProject>) -> Seq<char>
    decreases projects.len(),
{
    if projects.len() == 0 {
        Seq::empty()
    } else {
        cargo_project_lines(projects.drop_last())
            + "    <cargoProject FILE=\"$PROJECT_DIR$/"@ + xml_escape_spec(projects.last().manifest@) + "\" />\n"@
    }
}

/// The `<cargoProject>` lines of a workspace.
pub fn cargo_projects_value(manifest: &WorkspaceManifest) -> (r: String)
    ensures
        r@ == cargo_project_lines(manifest.cargo@),
{
    let projects = manifest.cargo_projects();
    let mut r = String::new();
    let mut i: usize = 0;
    while i < projects.len()
        invariant
            projects@ == manifest.cargo@,
            i <= projects@.len(),
            r@ == cargo_project_lines(projects@.take(i as int)),
        decreases projects@.len() - i,
    {
        let escaped = xml_escape(projects[i].manifest.as_str());
        r.append("    <cargoProject FILE=\"$PROJECT_DIR$/");
        r.append(escaped.as_str());
        r.append("\" />\n");
        proof {
            assert(projects@.take(i + 1).drop_last() =~= projects@.take(i as int));
        }
        i = i + 1;
    }
    proof {
        assert(projects@.take(projects@.len() as int) =~= projects@);
    }
    r
}

/// The templates of the three managed files.
pub struct IdeTemplates {
    /// `cargoProjects.xml`, with `{{cargo_projects}}`.
    pub cargo_projects: String,
    /// `rust.xml`, with `{{rust_bin_directory}}` and `{{stdlib_option}}`.
    pub rust: String,
    /// `vapor.xml`, with the source identity, app-root tool paths and
    /// `{{stdlib_option}}`.
    pub vapor: String,
}

/// One managed file and the contents it should have.
pub struct IdeFile {
    /// File path under `.idea`.
    pub path: String,
    /// Expected contents.
    pub contents: String,
}

/// What an IDE inspection or repair works from.
pub struct IdePlan {
    /// Selected source root.
    pub root: String,
    /// Its `.idea` directory.
    pub idea_dir: String,
    /// The Rust toolchain's `bin` directory.
    pub rust_bin: String,
    /// The standard-library source, when it exists.
    pub stdlib_source: Option<String>,
    /// The managed files, in order.
    pub files: Vec<IdeFile>,
}

/// Values rendered into `rust.xml`.
pub open spec fn rust_values(rust_bin: Seq<char>, stdlib: Option<Seq<char>>) -> Seq<(Seq<char>, Seq<char>)> {
    seq![
        ("rust_bin_directory"@, xml_escape_spec(rust_bin)),
        ("stdlib_option"@, xml_option_spec("explicitPathToStdlib"@, stdlib)),
    ]
}

/// Values rendered into `vapor.xml`.
pub open spec fn vapor_values(
    source_id: Seq<char>,
    app_root: Seq<char>,
    cargo: Seq<char>,
    rust_bin: Seq<char>,
    exe: Seq<char>,
    stdlib: Option<Seq<char>>,
) -> Seq<(Seq<char>, Seq<char>)> {
    seq![
        ("source_id"@, xml_escape_spec(source_id)),
        ("app_root"@, xml_escape_spec(app_root)),
        ("cargo_home"@, xml_escape_spec(join(app_root, "cargo-home"@))),
        ("rustup_home"@, xml_escape_spec(join(app_root, "rustup-home"@))),
        ("cargo_path"@, xml_escape_spec(cargo)),
        ("rustc_path"@, xml_escape_spec(join(rust_bin, "rustc"@ + exe))),
        ("rustup_path"@, xml_escape_spec(join(join(app_root, "rustup/bin"@), "rustup"@ + exe))),
        ("stdlib_option"@, xml_option_spec("rustStdlibSource"@, stdlib)),
    ]
}

/// Views of template values.
pub open spec fn value_views(v: Seq<(String, String)>) -> Seq<(Seq<char>, Seq<char>)> {
    v.map_values(|p: (String, String)| (p.0@, p.1@))
}

fn pair(key: &str, value: String) -> (r: (String, String))
    ensures
        r.0@ == key@,
        r.1@ == value@,
{
    (owned(key), value)
}

/// The IDE plan for the active source: the managed files under `.idea`
/// and their rendered contents. `rust_bin` is the Rust tool group's path,
/// `stdlib_is_dir` whether [`rust_stdlib_source`] of it is a directory,
/// `exe` the executable suffix. Bundled Cargo must be present.
pub fn build_plan(
    paths: &EnvironmentPaths,
    manifest: &WorkspaceManifest,
    rust_bin: &str,
    stdlib_is_dir: bool,
    exe: &str,
    templates: &IdeTemplates,
) -> (r: Result<IdePlan, String>)
    ensures
        match paths.installation_spec()@.cargo {
            None => r matches Err(e) && e@ == "cannot configure IDE: bundled Cargo is missing"@,
            Some(cargo) => r matches Ok(plan) && {
                let root = paths.source_spec()@.root;
                let idea = join(root, ".idea"@);
                let stdlib = if stdlib_is_dir { stdlib_candidate(rust_bin@) } else { None };
                &&& plan.root@ == root
                &&& plan.idea_dir@ == idea
                &&& plan.rust_bin@ == rust_bin@
                &&& crate::manifest::opt_view(plan.stdlib_source) == stdlib
                &&& plan.files@.len() == 3
                &&& plan.files@[0].path@ == join(idea, "cargoProjects.xml"@)
                &&& plan.files@[0].contents@ == render_spec(templates.cargo_projects@,
                        seq![("cargo_projects"@, cargo_project_lines(manifest.cargo@))])
                &&& plan.files@[1].path@ == join(idea, "rust.xml"@)
                &&& plan.files@[1].contents@ == render_spec(templates.rust@, rust_values(rust_bin@, stdlib))
                &&& plan.files@[2].path@ == join(idea, "vapor.xml"@)
                &&& plan.files@[2].contents@ == render_spec(templates.vapor@, vapor_values(
                        paths.source_spec()@.identity_id, paths.installation_spec()@.root, cargo, rust_bin@, exe@, stdlib))
            },
        },
{
    let cargo = match paths.installation().bundled_cargo() {
        Some(c) => owned(c),
        None => return Err(owned("cannot configure IDE: bundled Cargo is missing")),
    };
    let root = owned(paths.source().root());
    let idea_dir = join_path(root.as_str(), ".idea");
    let stdlib_source = if stdlib_is_dir { rust_stdlib_source(rust_bin) } else { None };
    let stdlib_ref: Option<&str> = match &stdlib_source {
        Some(s) => Some(s.as_str()),
        None => None,
    };

    let cargo_values = vec![pair("cargo_projects", cargo_projects_value(manifest))];
    let cargo_xml = render_template(templates.cargo_projects.as_str(), cargo_values.as_slice());

    let rust_values_v = vec![
        pair("rust_bin_directory", xml_escape(rust_bin)),
        pair("stdlib_option", xml_option("explicitPathToStdlib", stdlib_ref)),
    ];
    let rust_xml = render_template(templates.rust.as_str(), rust_values_v.as_slice());

    let app_root = paths.installation().root();
    let rustc_name = concat("rustc", exe);
    let rustc = join_path(rust_bin, rustc_name.as_str());
    let rustup_dir = join_path(app_root, "rustup/bin");
    let rustup_name = concat("rustup", exe);
    let rustup = join_path(rustup_dir.as_str(), rustup_name.as_str());
    let cargo_home = join_path(app_root, "cargo-home");
    let rustup_home = join_path(app_root, "rustup-home");
    let vapor_values_v = vec![
        pair("source_id", xml_escape(paths.source().identity_id())),
        pair("app_root", xml_escape(app_root)),
        pair("cargo_home", xml_escape(cargo_home.as_str())),
        pair("rustup_home", xml_escape(rustup_home.as_str())),
        pair("cargo_path", xml_escape(cargo.as_str())),
        pair("rustc_path", xml_escape(rustc.as_str())),
        pair("rustup_path", xml_escape(rustup.as_str())),
        pair("stdlib_option", xml_option("rustStdlibSource", stdlib_ref)),
    ];
    let vapor_xml = render_template(templates.vapor.as_str(), vapor_values_v.as_slice());

    proof {
        let stdlib = if stdlib_is_dir { stdlib_candidate(rust_bin@) } else { None };
        assert(match stdlib_ref { Some(s) => Some(s@), None => None::<Seq<char>> } == stdlib);
        assert(value_views(cargo_values@) =~= seq![("cargo_projects"@, cargo_project_lines(manifest.cargo@))]);
        assert(value_views(rust_values_v@) =~= rust_values(rust_bin@, stdlib));
        assert(value_views(vapor_values_v@) =~= vapor_values(paths.source_spec()@.identity_id,
            paths.installation_spec()@.root, cargo@, rust_bin@, exe@, stdlib));
    }

    let mut files: Vec<IdeFile> = Vec::new();
    files.push(IdeFile { path: join_path(idea_dir.as_str(), "cargoProjects.xml"), contents: cargo_xml });
    files.push(IdeFile { path: join_path(idea_dir.as_str(), "rust.xml"), contents: rust_xml });
    files.push(IdeFile { path: join_path(idea_dir.as_str(), "vapor.xml"), contents: vapor_xml });
    Ok(IdePlan { root, idea_dir, rust_bin: owned(rust_bin), stdlib_source, files })
}

/// State of one managed file on disk.
#[derive(Debug, Clone, Copy, PartialEq, Eq, Structural)]
pub enum IdeFileState {
    /// Not a file.
    Missing,
    /// Present with other contents.
    Outdated,
    /// Present with the expected contents.
    Current,
}

/// Label of a file state in status output.
pub open spec fn state_label(s: IdeFileState) -> Seq<char> {
    match s {
        IdeFileState::Missing => "missing"@,
        IdeFileState::Outdated => "outdated"@,
        IdeFileState::Current => "current"@,
    }
}

impl IdeFileState {
    /// Label of the state in status output.
    pub fn label(self) -> (r: &'static str)
        ensures
            r@ == state_label(self),
    {
        match self {
            IdeFileState::Missing => "missing",
            IdeFileState::Outdated => "outdated",
            IdeFileState::Current => "current",
        }
    }
}

/// The state of a file from its contents on disk (none when it is not a
/// file).
pub open spec fn state_spec(observed: Option<Seq<char>>, expected: Seq<char>) -> IdeFileState {
    match observed {
        None => IdeFileState::Missing,
        Some(c) => if c == expected { IdeFileState::Current } else { IdeFileState::Outdated },
    }
}

/// The state of a file from its contents on disk.
pub fn file_state(observed: Option<&str>, file: &IdeFile) -> (r: IdeFileState)
    ensures
        r == state_spec(match observed { Some(c) => Some(c@), None => None::<Seq<char>> }, file.contents@),
{
    match observed {
        None => IdeFileState::Missing,
        Some(c) => {
            if crate::text::str_eq(c, file.contents.as_str()) {
                IdeFileState::Current
            } else {
                IdeFileState::Outdated
            }
        },
    }
}

/// Message when a managed file cannot be read.
pub fn read_failed(path: &str, error: &str) -> (r: String)
    ensures
        r@ == "failed to read '"@ + path@ + "': "@ + error@,
{
    let mut r = concat3("failed to read '", path, "': ");
    r.append(error);
    r
}

/// One managed file's status.
#[derive(Debug, Clone)]
pub struct IdeFileStatus {
    /// File path.
    pub path: String,
    /// Its state.
    pub state: IdeFileState,
}

impl IdeFileStatus {
    /// File path.
    pub fn path(&self) -> (r: &str)
        ensures
            r@ == self.path@,
    {
        self.path.as_str()
    }

    /// Its state.
    pub fn state(&self) -> (r: IdeFileState)
        ensures
            r == self.state,
    {
        self.state
    }
}

/// Status of the project-local IDE files.
#[derive(Debug, Clone)]
pub struct IdeStatus {
    /// Selected source root.
    pub source_root: String,
    /// Its `.idea` directory.
    pub idea_dir: String,
    /// The Rust toolchain's `bin` directory.
    pub rust_bin: String,
    /// The standard-library source, when it exists.
    pub stdlib_source: Option<String>,
    /// Each managed file, in order.
    pub files: Vec<IdeFileStatus>,
}

/// Every managed file is current.
pub open spec fn all_current(files: Seq<IdeFileStatus>) -> bool {
    forall|i: int| 0 <= i < files.len() ==> (#[trigger] files[i]).state == IdeFileState::Current
}

impl IdeStatus {
    /// Whether every managed file is current.
    pub fn complete(&self) -> (r: bool)
        ensures
            r == all_current(self.files@),
    {
        let mut i: usize = 0;
        while i < self.files.len()
            invariant
                i <= self.files@.len(),
                forall|k: int| 0 <= k < i ==> (#[trigger] self.files@[k]).state == IdeFileState::Current,
            decreases self.files@.len() - i,
        {
            if self.files[i].state != IdeFileState::Current {
                return false;
            }
            i = i + 1;
        }
        true
    }
}

/// Contents views of observed files.
pub open spec fn observed_views(observed: Seq<Option<String>>) -> Seq<Option<Seq<char>>> {
    observed.map_values(|o: Option<String>| crate::manifest::opt_view(o))
}

/// The status of a plan from what each managed file holds on disk
/// (`observed[i]` for the `i`-th file, none when it is not a file).
pub fn status(plan: &IdePlan, observed: &[Option<String>]) -> (r: IdeStatus)
    requires
        observed@.len() == plan.files@.len(),
    ensures
        r.source_root@ == plan.root@,
        r.idea_dir@ == plan.idea_dir@,
        r.rust_bin@ == plan.rust_bin@,
        crate::manifest::opt_view(r.stdlib_source) == crate::manifest::opt_view(plan.stdlib_source),
        r.files@.len() == plan.files@.len(),
        forall|i: int| 0 <= i < r.files@.len() ==> {
            &&& (#[trigger] r.files@[i]).path@ == plan.files@[i].path@
            &&& r.files@[i].state == state_spec(crate::manifest::opt_view(observed@[i]), plan.files@[i].contents@)
        },
{
    let mut files: Vec<IdeFileStatus> = Vec::new();
    let mut i: usize = 0;
    while i < plan.files.len()
        invariant
            observed@.len() == plan.files@.len(),
            i <= plan.files@.len(),
            files@.len() == i,
            forall|k: int| 0 <= k < i ==> {
                &&& (#[trigger] files@[k]).path@ == plan.files@[k].path@
                &&& files@[k].state == state_spec(crate::manifest::opt_view(observed@[k]), plan.files@[k].contents@)
            },
        decreases plan.files@.len() - i,
    {
        let o: Option<&str> = match &observed[i] {
            Some(c) => Some(c.as_str()),
            None => None,
        };
        let state = file_state(o, &plan.files[i]);
        files.push(IdeFileStatus { path: owned(plan.files[i].path.as_str()), state });
        i = i + 1;
    }
    let stdlib_source = match &plan.stdlib_source {
        Some(s) => Some(owned(s.as_str())),
        None => None,
    };
    IdeStatus {
        source_root: owned(plan.root.as_str()),
        idea_dir: owned(plan.idea_dir.as_str()),
        rust_bin: owned(plan.rust_bin.as_str()),
        stdlib_source,
        files,
    }
}

/// The files that are not current, which a repair would write, in order.
pub open spec fn stale_paths(files: Seq<IdeFile>, observed: Seq<Option<String>>) -> Seq<Seq<char>>
    decreases files.len(),
{
    if files.len() == 0 {
        Seq::empty()
    } else {
        stale_paths(files.drop_last(), observed) + if state_spec(crate::manifest::opt_view(observed[files.len() - 1]),
            files.last().contents@) == IdeFileState::Current {
            Seq::<Seq<char>>::empty()
        } else {
            seq![files.last().path@]
        }
    }
}

/// The files a repair would write: those that are not current.
pub fn preview(plan: &IdePlan, observed: &[Option<String>]) -> (r: Vec<String>)
    requires
        observed@.len() == plan.files@.len(),
    ensures
        string_views(r@) == stale_paths(plan.files@, observed@),
{
    let mut r: Vec<String> = Vec::new();
    let mut i: usize = 0;
    while i < plan.files.len()
        invariant
            observed@.len() == plan.files@.len(),
            i <= plan.files@.len(),
            string_views(r@) == stale_paths(plan.files@.take(i as int), observed@),
        decreases plan.files@.len() - i,
    {
        let o: Option<&str> = match &observed[i] {
            Some(c) => Some(c.as_str()),
            None => None,
        };
        if file_state(o, &plan.files[i]) != IdeFileState::Current {
            r.push(owned(plan.files[i].path.as_str()));
        }
        proof {
            assert(plan.files@.take(i + 1).drop_last() =~= plan.files@.take(i as int));
            assert(string_views(r@) =~= stale_paths(plan.files@.take(i + 1), observed@));
        }
        i = i + 1;
    }
    proof {
        assert(plan.files@.take(plan.files@.len() as int) =~= plan.files@);
    }
    r
}

/// Whether a repair writes one managed file: the file must lie inside the
/// source root, and is written unless it is current.
pub fn needs_write(plan: &IdePlan, index: usize, observed: Option<&str>) -> (r: Result<bool, String>)
    requires
        index < plan.files@.len(),
    ensures
        !within(plan.files@[index as int].path@, plan.root@) ==> (r matches Err(e)
            && e@ == msg_boundary(plan.files@[index as int].path@, plan.root@)),
        within(plan.files@[index as int].path@, plan.root@) ==> (r matches Ok(w)
            && w == (state_spec(match observed { Some(c) => Some(c@), None => None::<Seq<char>> },
                plan.files@[index as int].contents@) != IdeFileState::Current)),
{
    match ensure_contained(plan.root.as_str(), plan.files[index].path.as_str()) {
        Ok(()) => {},
        Err(e) => return Err(e),
    }
    Ok(file_state(observed, &plan.files[index]) != IdeFileState::Current)
}

/// Messages of a repair's filesystem steps.
pub fn create_dir_failed(dir: &str, error: &str) -> (r: String)
    ensures
        r@ == "failed to create IDE settings directory '"@ + dir@ + "': "@ + error@,
{
    let mut r = concat3("failed to create IDE settings directory '", dir, "': ");
    r.append(error);
    r
}

} // verus!
