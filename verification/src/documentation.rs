//! Where installed documentation lives, how each documented Cargo
//! workspace is built into it, and the HTML pages that index it.

use vstd::prelude::*;
use crate::text::{owned, concat, string_views};
use crate::paths::{join, join_path, within};
use crate::manifest::msg_boundary;
use crate::discovery::{EnvironmentPaths, ensure_contained};
use crate::workspace::{CargoProject, WorkspaceManifest};
use crate::keyed::{ascending, sort_strings};

verus! {

/// Directory of installed documentation under the app root.
pub open spec fn docs_root(install_root: Seq<char>) -> Seq<char> {
    join(install_root, "docs"@)
}

/// The page that a documentation topic opens: the aggregate index, or the
/// index of the named section.
pub open spec fn doc_candidate(install_root: Seq<char>, topic: Option<Seq<char>>) -> Seq<char> {
    match topic {
        None => join(docs_root(install_root), "index.html"@),
        Some(name) => join(join(docs_root(install_root), name), "index.html"@),
    }
}

/// App root of an environment.
pub open spec fn app_root(paths: EnvironmentPaths) -> Seq<char> {
    paths.installation_spec()@.root
}

/// Optional string view of a topic.
pub open spec fn topic_view(topic: Option<&str>) -> Option<Seq<char>> {
    match topic {
        Some(t) => Some(t@),
        None => None,
    }
}

/// The page that a documentation topic opens.
pub fn candidate(paths: &EnvironmentPaths, topic: Option<&str>) -> (r: String)
    ensures
        r@ == doc_candidate(app_root(*paths), topic_view(topic)),
{
    let root = join_path(paths.installation().root(), "docs");
    match topic {
        None => join_path(root.as_str(), "index.html"),
        Some(name) => {
            let section = join_path(root.as_str(), name);
            join_path(section.as_str(), "index.html")
        },
    }
}

/// An installed documentation section or the aggregate index; `is_file`
/// tells whether that page exists.
pub fn path(paths: &EnvironmentPaths, topic: Option<&str>, is_file: bool) -> (r: Result<String, String>)
    ensures
        if is_file {
            r matches Ok(p) && p@ == doc_candidate(app_root(*paths), topic_view(topic))
        } else {
            r matches Err(e) && e@ == "documentation is not built: "@ + doc_candidate(app_root(*paths), topic_view(topic))
        },
{
    let page = candidate(paths, topic);
    if is_file {
        Ok(page)
    } else {
        Err(concat("documentation is not built: ", page.as_str()))
    }
}

/// A character as it stands in HTML text.
pub open spec fn escape_char(c: char) -> Seq<char> {
    if c == '&' {
        "&amp;"@
    } else if c == '<' {
        "&lt;"@
    } else if c == '>' {
        "&gt;"@
    } else if c == '"' {
        "&quot;"@
    } else {
        seq![c]
    }
}

/// `value` with `&`, `<`, `>` and `"` written as HTML entities.
pub open spec fn html_escape_spec(value: Seq<char>) -> Seq<char>
    decreases value.len(),
{
    if value.len() == 0 {
        Seq::empty()
    } else {
        html_escape_spec(value.drop_last()) + escape_char(value.last())
    }
}

/// `value` with `&`, `<`, `>` and `"` written as HTML entities.
pub fn html_escape(value: &str) -> (r: String)
    ensures
        r@ == html_escape_spec(value@),
{
    let n = value.unicode_len();
    let mut r = String::new();
    let mut i: usize = 0;
    while i < n
        invariant
            n == value@.len(),
            i <= n,
            r@ == html_escape_spec(value@.take(i as int)),
        decreases n - i,
    {
        let c = value.get_char(i);
        if c == '&' {
            r.append("&amp;");
        } else if c == '<' {
            r.append("&lt;");
        } else if c == '>' {
            r.append("&gt;");
        } else if c == '"' {
            r.append("&quot;");
        } else {
            r.append(value.substring_char(i, i + 1));
            assert(value@.subrange(i as int, i + 1) =~= seq![c]);
        }
        proof {
            assert(value@.take(i + 1).drop_last() =~= value@.take(i as int));
        }
        i = i + 1;
    }
    proof {
        assert(value@.take(n as int) =~= value@);
    }
    r
}

/// A list entry linking `target/index.html` under the text `label`.
pub open spec fn link(target: Seq<char>, label: Seq<char>) -> Seq<char> {
    "<li><a href=\""@ + target + "/index.html\">"@ + label + "</a></li>"@
}

/// Links to the documented projects, in manifest order.
pub open spec fn index_links(projects: Seq<CargoProject>) -> Seq<char>
    decreases projects.len(),
{
    if projects.len() == 0 {
        Seq::empty()
    } else {
        index_links(projects.drop_last()) + if projects.last().documentation {
            link(projects.last().name@, projects.last().name@)
        } else {
            Seq::empty()
        }
    }
}

/// The aggregate documentation index.
pub open spec fn index_page(projects: Seq<CargoProject>) -> Seq<char> {
    "<!doctype html><title>Vapor documentation</title><h1>Vapor documentation</h1><ul>"@ + index_links(projects) + "</ul>"@
}

fn append_link(r: &mut String, target: &str, label: &str)
    ensures
        final(r)@ == old(r)@ + link(target@, label@),
{
    r.append("<li><a href=\"");
    r.append(target);
    r.append("/index.html\">");
    r.append(label);
    r.append("</a></li>");
}

/// The aggregate documentation index of a workspace: one link per
/// documented Cargo project.
pub fn index_html(manifest: &WorkspaceManifest) -> (r: String)
    ensures
        r@ == index_page(manifest.cargo@),
{
    let projects = manifest.cargo_projects();
    let mut r = owned("<!doctype html><title>Vapor documentation</title><h1>Vapor documentation</h1><ul>");
    let ghost head = r@;
    let mut i: usize = 0;
    while i < projects.len()
        invariant
            projects@ == manifest.cargo@,
            i <= projects@.len(),
            head == "<!doctype html><title>Vapor documentation</title><h1>Vapor documentation</h1><ul>"@,
            r@ == head + index_links(projects@.take(i as int)),
        decreases projects@.len() - i,
    {
        if projects[i].documentation {
            append_link(&mut r, projects[i].name.as_str(), projects[i].name.as_str());
        }
        proof {
            assert(projects@.take(i + 1).drop_last() =~= projects@.take(i as int));
        }
        i = i + 1;
    }
    proof {
        assert(projects@.take(projects@.len() as int) =~= projects@);
    }
    r.append("</ul>");
    r
}

/// Links to a section's crates, escaped, in the given order.
pub open spec fn section_links(crates: Seq<Seq<char>>) -> Seq<char>
    decreases crates.len(),
{
    if crates.len() == 0 {
        Seq::empty()
    } else {
        section_links(crates.drop_last()) + link(html_escape_spec(crates.last()), html_escape_spec(crates.last()))
    }
}

/// A section's documentation index.
pub open spec fn section_page(name: Seq<char>, crates: Seq<Seq<char>>) -> Seq<char> {
    "<!doctype html><title>"@ + html_escape_spec(name) + " documentation</title><h1>"@ + html_escape_spec(name)
        + " documentation</h1><ul>"@ + section_links(crates) + "</ul>"@
}

/// The index of a documentation section `name`, linking the crates whose
/// generated documentation it holds, ordered by name.
pub fn section_index_html(name: &str, crates: Vec<String>) -> (r: String)
    ensures
        exists|ordered: Seq<Seq<char>>|
            ascending(ordered) && ordered.to_multiset() == string_views(crates@).to_multiset()
                && r@ == #[trigger] section_page(name@, ordered),
{
    let sorted = sort_strings(crates);
    let title = html_escape(name);
    let mut r = owned("<!doctype html><title>");
    r.append(title.as_str());
    r.append(" documentation</title><h1>");
    r.append(title.as_str());
    r.append(" documentation</h1><ul>");
    let ghost head = r@;
    let mut i: usize = 0;
    while i < sorted.len()
        invariant
            i <= sorted@.len(),
            r@ == head + section_links(string_views(sorted@).take(i as int)),
        decreases sorted@.len() - i,
    {
        let escaped = html_escape(sorted[i].as_str());
        append_link(&mut r, escaped.as_str(), escaped.as_str());
        proof {
            assert(string_views(sorted@).take(i + 1).drop_last() =~= string_views(sorted@).take(i as int));
            assert(string_views(sorted@)[i as int] == sorted@[i as int]@);
        }
        i = i + 1;
    }
    proof {
        assert(string_views(sorted@).take(sorted@.len() as int) =~= string_views(sorted@));
    }
    r.append("</ul>");
    assert(r@ =~= section_page(name@, string_views(sorted@)));
    r
}

/// One documented Cargo workspace to build: where its manifest is, where
/// Cargo writes, and where its pages are installed.
pub struct DocSection {
    /// Section name (the Cargo project's name).
    pub name: String,
    /// The Cargo manifest inside the source root.
    pub cargo_manifest: String,
    /// Cargo's target directory under `output/docs`.
    pub target: String,
    /// The installed section under `docs`.
    pub section_root: String,
    /// Arguments handed to Cargo.
    pub args: Vec<String>,
}

/// Where the documentation build starts: the bundled Cargo and the docs
/// root, which must lie inside the app root.
pub fn build_start(paths: &EnvironmentPaths) -> (r: Result<(String, String), String>)
    ensures
        match paths.installation_spec()@.cargo {
            None => r matches Err(e) && e@ == "bundled Cargo is unavailable"@,
            Some(c) => if within(docs_root(app_root(*paths)), app_root(*paths)) {
                r matches Ok((cargo, docs)) && cargo@ == c && docs@ == docs_root(app_root(*paths))
            } else {
                r matches Err(e) && e@ == msg_boundary(docs_root(app_root(*paths)), app_root(*paths))
            },
        },
{
    let cargo = match paths.installation().bundled_cargo() {
        Some(c) => owned(c),
        None => return Err(owned("bundled Cargo is unavailable")),
    };
    let root = paths.installation().root();
    let docs = join_path(root, "docs");
    match ensure_contained(root, docs.as_str()) {
        Ok(()) => Ok((cargo, docs)),
        Err(e) => Err(e),
    }
}

/// The Cargo target directory of a documented project.
pub open spec fn doc_target(install_root: Seq<char>, name: Seq<char>) -> Seq<char> {
    join(join(install_root, "output/docs"@), name)
}

/// The build of one Cargo project's documentation, none when the project
/// is not documented; its target directory must lie inside the app root.
pub fn doc_section(paths: &EnvironmentPaths, project: &CargoProject) -> (r: Result<Option<DocSection>, String>)
    ensures
        if !project.documentation {
            r matches Ok(None)
        } else if !within(doc_target(app_root(*paths), project.name@), app_root(*paths)) {
            r matches Err(e) && e@ == msg_boundary(doc_target(app_root(*paths), project.name@), app_root(*paths))
        } else {
            r matches Ok(Some(s)) && s.name@ == project.name@
                && s.cargo_manifest@ == join(paths.source_spec()@.root, project.manifest@)
                && s.target@ == doc_target(app_root(*paths), project.name@)
                && s.section_root@ == join(docs_root(app_root(*paths)), project.name@)
                && string_views(s.args@) == seq!["doc"@, "--workspace"@, "--no-deps"@, "--manifest-path"@, s.cargo_manifest@]
        },
{
    if !project.documentation {
        return Ok(None);
    }
    let root = paths.installation().root();
    let output = join_path(root, "output/docs");
    let target = join_path(output.as_str(), project.name.as_str());
    match ensure_contained(root, target.as_str()) {
        Ok(()) => {},
        Err(e) => return Err(e),
    }
    let cargo_manifest = join_path(paths.source().root(), project.manifest.as_str());
    let docs = join_path(root, "docs");
    let section_root = join_path(docs.as_str(), project.name.as_str());
    let mut args: Vec<String> = Vec::new();
    args.push(owned("doc"));
    args.push(owned("--workspace"));
    args.push(owned("--no-deps"));
    args.push(owned("--manifest-path"));
    args.push(cargo_manifest.clone());
    proof {
        assert(string_views(args@) =~= seq!["doc"@, "--workspace"@, "--no-deps"@, "--manifest-path"@, cargo_manifest@]);
    }
    Ok(Some(DocSection { name: project.name.clone(), cargo_manifest, target, section_root, args }))
}

/// Message when Cargo's documentation build of a section fails.
pub fn doc_build_failed(name: &str, status: &str) -> (r: String)
    ensures
        r@ == "documentation build for '"@ + name@ + "' failed with "@ + status@,
{
    let mut r = concat("documentation build for '", name);
    r.append("' failed with ");
    r.append(status);
    r
}

} // verus!
