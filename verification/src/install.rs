//! Installing content together with its dependencies.
//!
//! An install walks the dependency graph depth first: a source artifact is
//! packaged from the open workspace, anything else comes from the app-owned
//! package cache, which a root content seed may fill by a Workshop download.
//! The walk is an [`Installer`] that takes one decision per [`Installer::step`]
//! and names the outside work it needs (a seed lookup, a download, reading a
//! cached manifest, an installation); the shell performs that work, updates
//! the content index, and steps again.

use vstd::prelude::*;
use crate::text::{str_eq, concat, concat3, concat4, concat5};
use crate::paths::{last_component, last_segment};
use crate::content::{ContentArtifact, ContentCatalog, ContentReference, Fingerprint, first_selected, selects, lemma_first_selected, catalog_has_id};
use crate::content_state::{ContentIndex, CacheRecord, InstalledRecord, cache_selected, first_key_where, no_key_where};

verus! {

/// A `[[root.content]]` seed of the installation's root manifest: content the
/// root knows how to download from the Workshop.
#[derive(Debug)]
pub struct RootContentSeed {
    /// Full content ID.
    pub id: String,
    /// Steam AppID the Workshop item belongs to.
    pub app_id: u32,
    /// PublishedFileId of the Workshop item.
    pub workshop_id: String,
    /// Launch name that also selects this seed, when declared.
    pub default_launch: Option<String>,
}

/// `seed` answers to `selector` by full ID, the ID's final `/` segment,
/// Workshop item ID, or default launch name.
pub open spec fn seed_selected(seed: RootContentSeed, selector: Seq<char>) -> bool {
    ||| seed.id@ == selector
    ||| last_component(seed.id@) == selector
    ||| seed.workshop_id@ == selector
    ||| (seed.default_launch matches Some(l) && l@ == selector)
}

/// Whether `seed` answers to `selector`.
pub fn root_content_seed_matches(seed: &RootContentSeed, selector: &str) -> (r: bool)
    ensures
        r == seed_selected(*seed, selector@),
{
    if str_eq(seed.id.as_str(), selector) {
        return true;
    }
    let name = last_segment(seed.id.as_str());
    if str_eq(name, selector) || str_eq(seed.workshop_id.as_str(), selector) {
        return true;
    }
    match &seed.default_launch {
        Some(l) => str_eq(l.as_str(), selector),
        None => false,
    }
}

/// Index of the first seed of `seeds` that answers to `selector`, or -1.
pub open spec fn first_seed(seeds: Seq<RootContentSeed>, selector: Seq<char>) -> int
    decreases seeds.len(),
{
    if seeds.len() == 0 {
        -1
    } else if seed_selected(seeds[0], selector) {
        0
    } else if first_seed(seeds.drop_first(), selector) < 0 {
        -1
    } else {
        first_seed(seeds.drop_first(), selector) + 1
    }
}

/// `first_seed` names the first seed that answers to the selector, or none
/// when no seed does.
pub proof fn lemma_first_seed(seeds: Seq<RootContentSeed>, selector: Seq<char>)
    ensures
        -1 <= first_seed(seeds, selector) < seeds.len(),
        first_seed(seeds, selector) >= 0 ==> seed_selected(seeds[first_seed(seeds, selector)], selector),
        forall|k: int| 0 <= k < seeds.len() && (first_seed(seeds, selector) < 0 || k < first_seed(seeds, selector))
            ==> !seed_selected(#[trigger] seeds[k], selector),
    decreases seeds.len(),
{
    if seeds.len() > 0 && !seed_selected(seeds[0], selector) {
        lemma_first_seed(seeds.drop_first(), selector);
        assert forall|k: int| 1 <= k < seeds.len() implies seeds[k] == seeds.drop_first()[k - 1] by {}
    }
}

/// The first seed, in manifest order, that answers to `selector`.
pub fn find_root_content_seed<'a>(seeds: &'a [RootContentSeed], selector: &str) -> (r: Option<&'a RootContentSeed>)
    ensures
        first_seed(seeds@, selector@) < 0 ==> r.is_none(),
        first_seed(seeds@, selector@) >= 0 ==> (r matches Some(s) && *s == seeds@[first_seed(seeds@, selector@)]),
{
    proof {
        lemma_first_seed(seeds@, selector@);
    }
    let mut i: usize = 0;
    while i < seeds.len()
        invariant
            i <= seeds@.len(),
            forall|k: int| 0 <= k < i ==> !seed_selected(#[trigger] seeds@[k], selector@),
            -1 <= first_seed(seeds@, selector@) < seeds@.len(),
            first_seed(seeds@, selector@) >= 0 ==> seed_selected(seeds@[first_seed(seeds@, selector@)], selector@),
            forall|k: int| 0 <= k < seeds@.len() && (first_seed(seeds@, selector@) < 0 || k < first_seed(seeds@, selector@))
                ==> !seed_selected(#[trigger] seeds@[k], selector@),
        decreases seeds@.len() - i,
    {
        if root_content_seed_matches(&seeds[i], selector) {
            return Some(&seeds[i]);
        }
        i = i + 1;
    }
    None
}

/// One artifact being installed, with the position of the next dependency to
/// consider.
#[derive(Debug)]
pub enum InstallFrame {
    /// A source artifact, by position in the catalog.
    Source { at: usize, next: usize },
    /// A cached package and the manifest deployed with it.
    Cache { artifact: ContentArtifact, cache_root: String, fingerprint: Fingerprint, next: usize },
}

/// What the installer does next.
#[derive(Debug)]
pub enum InstallPhase {
    /// Resolve this selector to a source artifact or cached package.
    Resolve(String),
    /// Waiting for the root content seed that answers to this selector.
    SeedAnswer(String),
    /// Look this selector up in the package cache.
    CacheLookup(String),
    /// Waiting for the manifest deployed in this cached package.
    ManifestAnswer(String, Fingerprint),
    /// Consider the next dependency of the innermost artifact.
    Advance,
    /// Waiting for the innermost artifact to be installed.
    InstallAnswer,
    /// The install finished or failed.
    Over,
}

/// The answer to the installer's last request.
#[derive(Debug)]
pub enum InstallEvent {
    /// No answer is due; carry on.
    Proceed,
    /// The seed found for the selector in question, if any.
    Seed(Option<RootContentSeed>),
    /// The manifest deployed in the cached package in question.
    Manifest(ContentArtifact),
    /// The innermost artifact was installed and recorded in the index.
    Installed,
}

/// The work the installer asks for.
#[derive(Debug)]
pub enum InstallStep {
    /// Nothing to do outside; step again.
    Continue,
    /// Find the root content seed for this selector and answer with it.
    LookupSeed(String),
    /// Download this Workshop item (AppID, PublishedFileId) into the cache and
    /// record it there, then step again.
    AcquireSeed(u32, String),
    /// Read the manifest deployed in this cached package and answer with it.
    ReadCacheManifest(String),
    /// Package the catalog artifact at this position, install it, record it,
    /// and answer `Installed`.
    InstallSource(usize),
    /// Install the cached package at this root, expecting this fingerprint,
    /// record it, and answer `Installed`.
    InstallCache(String, Fingerprint),
    /// The install is complete.
    Done,
    /// The install stops with this error.
    Fail(String),
}

/// Frame of the installer, as a value.
pub enum FrameView {
    Source { at: int, next: int },
    Cache { artifact: ContentArtifact, cache_root: Seq<char>, fingerprint: Fingerprint, next: int },
}

/// Phase of the installer, as a value.
pub enum PhaseView {
    Resolve(Seq<char>),
    SeedAnswer(Seq<char>),
    CacheLookup(Seq<char>),
    ManifestAnswer(Seq<char>, Fingerprint),
    Advance,
    InstallAnswer,
    Over,
}

/// Step of the installer, as a value.
pub enum StepView {
    Continue,
    LookupSeed(Seq<char>),
    AcquireSeed(u32, Seq<char>),
    ReadCacheManifest(Seq<char>),
    InstallSource(int),
    InstallCache(Seq<char>, Fingerprint),
    Done,
    Fail(Seq<char>),
}

/// State of the installer, as a value.
#[verifier::ext_equal]
pub struct InstallView {
    /// Source catalog, when a source is open.
    pub catalog: Option<Seq<ContentArtifact>>,
    /// IDs of the artifacts installed so far, in order.
    pub reported: Seq<Seq<char>>,
    /// Artifacts being installed, outermost first.
    pub stack: Seq<FrameView>,
    /// What happens next.
    pub phase: PhaseView,
}

pub open spec fn frame_view(f: InstallFrame) -> FrameView {
    match f {
        InstallFrame::Source { at, next } => FrameView::Source { at: at as int, next: next as int },
        InstallFrame::Cache { artifact, cache_root, fingerprint, next } =>
            FrameView::Cache { artifact, cache_root: cache_root@, fingerprint, next: next as int },
    }
}

pub open spec fn phase_view(p: InstallPhase) -> PhaseView {
    match p {
        InstallPhase::Resolve(s) => PhaseView::Resolve(s@),
        InstallPhase::SeedAnswer(s) => PhaseView::SeedAnswer(s@),
        InstallPhase::CacheLookup(s) => PhaseView::CacheLookup(s@),
        InstallPhase::ManifestAnswer(r, f) => PhaseView::ManifestAnswer(r@, f),
        InstallPhase::Advance => PhaseView::Advance,
        InstallPhase::InstallAnswer => PhaseView::InstallAnswer,
        InstallPhase::Over => PhaseView::Over,
    }
}

pub open spec fn step_view(s: InstallStep) -> StepView {
    match s {
        InstallStep::Continue => StepView::Continue,
        InstallStep::LookupSeed(x) => StepView::LookupSeed(x@),
        InstallStep::AcquireSeed(a, w) => StepView::AcquireSeed(a, w@),
        InstallStep::ReadCacheManifest(r) => StepView::ReadCacheManifest(r@),
        InstallStep::InstallSource(at) => StepView::InstallSource(at as int),
        InstallStep::InstallCache(r, f) => StepView::InstallCache(r@, f),
        InstallStep::Done => StepView::Done,
        InstallStep::Fail(m) => StepView::Fail(m@),
    }
}

/// Catalog artifacts, or none when no source is open.
pub open spec fn catalog_seq(c: Option<Seq<ContentArtifact>>) -> Seq<ContentArtifact> {
    match c {
        Some(s) => s,
        None => Seq::empty(),
    }
}

/// The artifact a frame installs, given the catalog.
pub open spec fn frame_artifact_in(catalog: Option<Seq<ContentArtifact>>, f: FrameView) -> ContentArtifact {
    match f {
        FrameView::Source { at, .. } => catalog_seq(catalog)[at],
        FrameView::Cache { artifact, .. } => artifact,
    }
}

/// The artifact a frame installs.
pub open spec fn frame_artifact(v: InstallView, f: FrameView) -> ContentArtifact {
    frame_artifact_in(v.catalog, f)
}

/// Position of the next dependency a frame considers.
pub open spec fn frame_next(f: FrameView) -> int {
    match f {
        FrameView::Source { next, .. } => next,
        FrameView::Cache { next, .. } => next,
    }
}

/// The frame with its cursor moved to `next`.
pub open spec fn with_next(f: FrameView, next: int) -> FrameView {
    match f {
        FrameView::Source { at, .. } => FrameView::Source { at, next },
        FrameView::Cache { artifact, cache_root, fingerprint, .. } => FrameView::Cache { artifact, cache_root, fingerprint, next },
    }
}

/// Some artifact on the stack has ID `id`: installing it again would be a cycle.
pub open spec fn on_stack(v: InstallView, id: Seq<char>) -> bool {
    exists|j: int| 0 <= j < v.stack.len() && #[trigger] frame_artifact(v, v.stack[j]).id@ == id
}

/// Message for a dependency cycle through `id`.
pub open spec fn msg_cycle(id: Seq<char>) -> Seq<char> {
    "content dependency cycle includes "@ + id
}

/// Message for a required dependency that nothing provides.
pub open spec fn msg_missing(a: ContentArtifact, d: ContentReference) -> Seq<char> {
    a.id@ + " requires missing "@ + d.relationship@ + " '"@ + d.id@ + "'"@
}

/// Message for a declared conflict with enabled installed content.
pub open spec fn msg_conflict(a: ContentArtifact, c: ContentReference) -> Seq<char> {
    a.id@ + " conflicts with installed content '"@ + c.id@ + "'"@
}

/// Message for a selector that no source artifact, cache entry, or seed provides.
pub open spec fn msg_cannot_install(selector: Seq<char>) -> Seq<char> {
    "cannot install '"@ + selector
        + "': no matching source artifact, app-owned cache entry, or root content seed exists\nhelp: run `content acquire ARTIFACT`, open a source, or add a [[root.content]] seed"@
}

/// Position of the first conflict of `conflicts` that names enabled installed
/// content, or -1.
pub open spec fn first_enabled_conflict(conflicts: Seq<ContentReference>, installed: Map<Seq<char>, InstalledRecord>) -> int
    decreases conflicts.len(),
{
    if conflicts.len() == 0 {
        -1
    } else if installed.dom().contains(conflicts[0].id@) && installed[conflicts[0].id@].enabled {
        0
    } else if first_enabled_conflict(conflicts.drop_first(), installed) < 0 {
        -1
    } else {
        first_enabled_conflict(conflicts.drop_first(), installed) + 1
    }
}

/// The selector under which a cached package's dependency is installed: its
/// Workshop item ID when declared, else its ID.
pub open spec fn reference_selector(d: ContentReference) -> Seq<char> {
    match d.workshop_id {
        Some(w) => w@,
        None => d.id@,
    }
}

/// The least cache key that answers to `selector` (meaningful when one does).
pub open spec fn cache_pick(caches: Map<Seq<char>, CacheRecord>, selector: Seq<char>) -> Seq<char> {
    choose|k: Seq<char>| first_key_where(caches, cache_selected(selector), k)
}

/// The request that `phase` repeats when an answer does not fit it.
pub open spec fn pending_request(v: InstallView) -> StepView {
    match v.phase {
        PhaseView::SeedAnswer(sel) => StepView::LookupSeed(sel),
        PhaseView::ManifestAnswer(root, _) => StepView::ReadCacheManifest(root),
        PhaseView::InstallAnswer => match v.stack.last() {
            FrameView::Source { at, .. } => StepView::InstallSource(at),
            FrameView::Cache { cache_root, fingerprint, .. } => StepView::InstallCache(cache_root, fingerprint),
        },
        _ => StepView::Continue,
    }
}

/// Resolving `sel`: a source artifact opens a frame; anything else goes to the
/// package cache, asking for a root content seed first when no cache entry
/// answers to it.
pub open spec fn resolve_next(v: InstallView, caches: Map<Seq<char>, CacheRecord>, sel: Seq<char>) -> (InstallView, StepView) {
    let cat = catalog_seq(v.catalog);
    let at = first_selected(cat, sel);
    if v.catalog.is_some() && at >= 0 {
        let id = cat[at].id@;
        if on_stack(v, id) {
            (InstallView { phase: PhaseView::Over, ..v }, StepView::Fail(msg_cycle(id)))
        } else {
            (InstallView { stack: v.stack.push(FrameView::Source { at, next: 0 }), phase: PhaseView::Advance, ..v }, StepView::Continue)
        }
    } else if no_key_where(caches, cache_selected(sel)) {
        (InstallView { phase: PhaseView::SeedAnswer(sel), ..v }, StepView::LookupSeed(sel))
    } else {
        (InstallView { phase: PhaseView::CacheLookup(sel), ..v }, StepView::Continue)
    }
}

/// Considering the next dependency of the innermost artifact, or, when none is
/// left, checking its conflicts and asking for its installation.
pub open spec fn advance_next(v: InstallView, installed: Map<Seq<char>, InstalledRecord>) -> (InstallView, StepView) {
    if v.stack.len() == 0 {
        (InstallView { phase: PhaseView::Over, ..v }, StepView::Done)
    } else {
        let f = v.stack.last();
        let a = frame_artifact(v, f);
        let next = frame_next(f);
        let deps = a.dependencies@;
        if 0 <= next < deps.len() {
            let d = deps[next];
            let moved = InstallView { stack: v.stack.update(v.stack.len() - 1, with_next(f, next + 1)), ..v };
            match f {
                FrameView::Source { .. } => {
                    if d.optional || v.reported.contains(d.id@) {
                        (moved, StepView::Continue)
                    } else if catalog_has_id(catalog_seq(v.catalog), d.id@) {
                        (InstallView { phase: PhaseView::Resolve(d.id@), ..moved }, StepView::Continue)
                    } else if !installed.dom().contains(d.id@) {
                        (InstallView { phase: PhaseView::Over, ..moved }, StepView::Fail(msg_missing(a, d)))
                    } else {
                        (moved, StepView::Continue)
                    }
                },
                FrameView::Cache { .. } => {
                    if d.optional || installed.dom().contains(d.id@) {
                        (moved, StepView::Continue)
                    } else {
                        (InstallView { phase: PhaseView::Resolve(reference_selector(d)), ..moved }, StepView::Continue)
                    }
                },
            }
        } else {
            let c = first_enabled_conflict(a.conflicts@, installed);
            if c >= 0 {
                (InstallView { phase: PhaseView::Over, ..v }, StepView::Fail(msg_conflict(a, a.conflicts@[c])))
            } else {
                let w = InstallView { phase: PhaseView::InstallAnswer, ..v };
                (w, pending_request(w))
            }
        }
    }
}

/// One decision of the installer: its next state and the work it asks for,
/// given the installed records and cache records of the index and the answer
/// to its last request.
pub open spec fn install_next(
    v: InstallView,
    installed: Map<Seq<char>, InstalledRecord>,
    caches: Map<Seq<char>, CacheRecord>,
    e: InstallEvent,
) -> (InstallView, StepView) {
    match v.phase {
        PhaseView::Resolve(sel) => resolve_next(v, caches, sel),
        PhaseView::SeedAnswer(sel) => match e {
            InstallEvent::Seed(Some(seed)) =>
                (InstallView { phase: PhaseView::CacheLookup(sel), ..v }, StepView::AcquireSeed(seed.app_id, seed.workshop_id@)),
            InstallEvent::Seed(None) => (InstallView { phase: PhaseView::CacheLookup(sel), ..v }, StepView::Continue),
            _ => (v, pending_request(v)),
        },
        PhaseView::CacheLookup(sel) => {
            if no_key_where(caches, cache_selected(sel)) {
                (InstallView { phase: PhaseView::Over, ..v }, StepView::Fail(msg_cannot_install(sel)))
            } else {
                let c = caches[cache_pick(caches, sel)];
                (InstallView { phase: PhaseView::ManifestAnswer(c.cache_root@, c.fingerprint), ..v }, StepView::ReadCacheManifest(c.cache_root@))
            }
        },
        PhaseView::ManifestAnswer(root, fingerprint) => match e {
            InstallEvent::Manifest(p) => {
                if on_stack(v, p.id@) {
                    (InstallView { phase: PhaseView::Over, ..v }, StepView::Fail(msg_cycle(p.id@)))
                } else {
                    (InstallView {
                        stack: v.stack.push(FrameView::Cache { artifact: p, cache_root: root, fingerprint, next: 0 }),
                        phase: PhaseView::Advance,
                        ..v
                    }, StepView::Continue)
                }
            },
            _ => (v, pending_request(v)),
        },
        PhaseView::Advance => advance_next(v, installed),
        PhaseView::InstallAnswer => match e {
            InstallEvent::Installed => {
                if v.stack.len() == 0 {
                    (InstallView { phase: PhaseView::Over, ..v }, StepView::Done)
                } else {
                    let w = InstallView {
                        reported: v.reported.push(frame_artifact(v, v.stack.last()).id@),
                        stack: v.stack.drop_last(),
                        ..v
                    };
                    if v.stack.len() == 1 {
                        (InstallView { phase: PhaseView::Over, ..w }, StepView::Done)
                    } else {
                        (InstallView { phase: PhaseView::Advance, ..w }, StepView::Continue)
                    }
                }
            },
            _ => (v, pending_request(v)),
        },
        PhaseView::Over => (v, StepView::Done),
    }
}

/// The installer's state is coherent: source frames point into the catalog,
/// and only a waiting-for-installation phase needs a frame.
pub open spec fn install_wf(v: InstallView) -> bool {
    &&& frames_wf(v.catalog, v.stack)
    &&& (v.phase is InstallAnswer ==> v.stack.len() > 0)
}

/// Source frames point into the catalog.
pub open spec fn frames_wf(catalog: Option<Seq<ContentArtifact>>, stack: Seq<FrameView>) -> bool {
    forall|j: int| 0 <= j < stack.len() ==> match #[trigger] stack[j] {
        FrameView::Source { at, next } => catalog.is_some() && 0 <= at < catalog_seq(catalog).len() && 0 <= next,
        FrameView::Cache { next, .. } => 0 <= next,
    }
}

/// Installs one selector and what it depends on, one decision at a time.
pub struct Installer {
    catalog: ContentCatalog,
    has_source: bool,
    reported: Vec<String>,
    stack: Vec<InstallFrame>,
    phase: InstallPhase,
}

/// The value of an installer made of these parts.
pub open spec fn view_of(catalog: ContentCatalog, has_source: bool, reported: Seq<String>, stack: Seq<InstallFrame>, phase: InstallPhase) -> InstallView {
    InstallView {
        catalog: catalog_view(catalog, has_source),
        reported: reported.map_values(|s: String| s@),
        stack: stack.map_values(|f: InstallFrame| frame_view(f)),
        phase: phase_view(phase),
    }
}

impl View for Installer {
    type V = InstallView;

    closed spec fn view(&self) -> InstallView {
        view_of(self.catalog, self.has_source, self.reported@, self.stack@, self.phase)
    }
}

impl Installer {
    #[verifier::type_invariant]
    spec fn coherent(self) -> bool {
        install_wf(self@)
    }

    /// An installer for `selector`, with the source catalog when a source is open.
    pub fn new(catalog: Option<ContentCatalog>, selector: &str) -> (r: Self)
        ensures
            r@.catalog == (match catalog {
                Some(c) => Some(c.artifacts@),
                None => None::<Seq<ContentArtifact>>,
            }),
            r@.reported == Seq::<Seq<char>>::empty(),
            r@.stack == Seq::<FrameView>::empty(),
            r@.phase == PhaseView::Resolve(selector@),
    {
        let has_source = catalog.is_some();
        let catalog = match catalog {
            Some(c) => c,
            None => ContentCatalog { artifacts: Vec::new() },
        };
        let r = Installer { catalog, has_source, reported: Vec::new(), stack: Vec::new(), phase: InstallPhase::Resolve(selector.to_owned()) };
        proof {
            assert(r@.reported =~= Seq::<Seq<char>>::empty());
            assert(r@.stack =~= Seq::<FrameView>::empty());
        }
        r
    }

    /// IDs of the artifacts installed so far, in order.
    pub fn reported(&self) -> (r: &[String])
        ensures
            r@.map_values(|s: String| s@) == self@.reported,
    {
        self.reported.as_slice()
    }

    /// The artifact whose installation was asked for last: the innermost one.
    pub fn current_artifact(&self) -> (r: Option<&ContentArtifact>)
        ensures
            self@.stack.len() == 0 ==> r.is_none(),
            self@.stack.len() > 0 ==> (r matches Some(a) && *a == frame_artifact(self@, self@.stack.last())),
    {
        proof {
            use_type_invariant(self);
        }
        let n = self.stack.len();
        if n == 0 {
            return None;
        }
        proof {
            assert(self@.stack[n - 1] == frame_view(self.stack@[n - 1]));
        }
        Some(artifact_of(&self.catalog, self.has_source, &self.stack[n - 1]))
    }
}

/// The catalog artifacts when a source is open, or none.
pub open spec fn catalog_view(catalog: ContentCatalog, has_source: bool) -> Option<Seq<ContentArtifact>> {
    if has_source {
        Some(catalog.artifacts@)
    } else {
        None
    }
}

/// The artifact `f` installs.
fn artifact_of<'a>(catalog: &'a ContentCatalog, has_source: bool, f: &'a InstallFrame) -> (r: &'a ContentArtifact)
    requires
        frame_view(*f) matches FrameView::Source { at, .. } ==> has_source && 0 <= at < catalog.artifacts@.len(),
    ensures
        *r == frame_artifact_in(catalog_view(*catalog, has_source), frame_view(*f)),
{
    match f {
        InstallFrame::Source { at, .. } => &catalog.artifacts[*at],
        InstallFrame::Cache { artifact, .. } => artifact,
    }
}

/// Whether an artifact with ID `id` is on the stack.
fn stack_holds(catalog: &ContentCatalog, has_source: bool, stack: &Vec<InstallFrame>, id: &str) -> (r: bool)
    requires
        frames_wf(catalog_view(*catalog, has_source), stack@.map_values(|f: InstallFrame| frame_view(f))),
    ensures
        r == (exists|j: int| 0 <= j < stack@.len()
            && #[trigger] frame_artifact_in(catalog_view(*catalog, has_source), frame_view(stack@[j])).id@ == id@),
{
    let ghost views = stack@.map_values(|f: InstallFrame| frame_view(f));
    let mut i: usize = 0;
    while i < stack.len()
        invariant
            i <= stack@.len(),
            views == stack@.map_values(|f: InstallFrame| frame_view(f)),
            frames_wf(catalog_view(*catalog, has_source), views),
            forall|j: int| 0 <= j < i ==> #[trigger] frame_artifact_in(catalog_view(*catalog, has_source), frame_view(stack@[j])).id@ != id@,
        decreases stack@.len() - i,
    {
        proof {
            assert(views[i as int] == frame_view(stack@[i as int]));
        }
        let a = artifact_of(catalog, has_source, &stack[i]);
        if str_eq(a.id.as_str(), id) {
            return true;
        }
        i = i + 1;
    }
    false
}

proof fn lemma_first_enabled_conflict(conflicts: Seq<ContentReference>, installed: Map<Seq<char>, InstalledRecord>)
    ensures
        -1 <= first_enabled_conflict(conflicts, installed) < conflicts.len(),
        first_enabled_conflict(conflicts, installed) >= 0 ==> ({
            let c = conflicts[first_enabled_conflict(conflicts, installed)];
            installed.dom().contains(c.id@) && installed[c.id@].enabled
        }),
        forall|k: int| 0 <= k < conflicts.len() && (first_enabled_conflict(conflicts, installed) < 0 || k < first_enabled_conflict(conflicts, installed))
            ==> !(installed.dom().contains(#[trigger] conflicts[k].id@) && installed[conflicts[k].id@].enabled),
    decreases conflicts.len(),
{
    if conflicts.len() > 0 && !(installed.dom().contains(conflicts[0].id@) && installed[conflicts[0].id@].enabled) {
        lemma_first_enabled_conflict(conflicts.drop_first(), installed);
        assert forall|k: int| 1 <= k < conflicts.len() implies conflicts[k] == conflicts.drop_first()[k - 1] by {}
    }
}

/// Position of the first conflict that names enabled installed content.
fn find_enabled_conflict(conflicts: &[ContentReference], index: &ContentIndex) -> (r: Option<usize>)
    ensures
        match r {
            Some(i) => i as int == first_enabled_conflict(conflicts@, index.installed_map()),
            None => first_enabled_conflict(conflicts@, index.installed_map()) < 0,
        },
{
    proof {
        lemma_first_enabled_conflict(conflicts@, index.installed_map());
    }
    let mut i: usize = 0;
    while i < conflicts.len()
        invariant
            i <= conflicts@.len(),
            forall|k: int| 0 <= k < i ==> !(index.installed_map().dom().contains(#[trigger] conflicts@[k].id@) && index.installed_map()[conflicts@[k].id@].enabled),
            -1 <= first_enabled_conflict(conflicts@, index.installed_map()) < conflicts@.len(),
            first_enabled_conflict(conflicts@, index.installed_map()) >= 0 ==> ({
                let c = conflicts@[first_enabled_conflict(conflicts@, index.installed_map())];
                index.installed_map().dom().contains(c.id@) && index.installed_map()[c.id@].enabled
            }),
            forall|k: int| 0 <= k < conflicts@.len() && (first_enabled_conflict(conflicts@, index.installed_map()) < 0 || k < first_enabled_conflict(conflicts@, index.installed_map()))
                ==> !(index.installed_map().dom().contains(#[trigger] conflicts@[k].id@) && index.installed_map()[conflicts@[k].id@].enabled),
        decreases conflicts@.len() - i,
    {
        if index.is_enabled(conflicts[i].id.as_str()) {
            return Some(i);
        }
        i = i + 1;
    }
    None
}

fn cycle_message(id: &str) -> (r: String)
    ensures
        r@ == msg_cycle(id@),
{
    concat("content dependency cycle includes ", id)
}

fn missing_message(a: &ContentArtifact, d: &ContentReference) -> (r: String)
    ensures
        r@ == msg_missing(*a, *d),
{
    let head = concat4(a.id.as_str(), " requires missing ", d.relationship.as_str(), " '");
    concat3(head.as_str(), d.id.as_str(), "'")
}

fn conflict_message(a: &ContentArtifact, c: &ContentReference) -> (r: String)
    ensures
        r@ == msg_conflict(*a, *c),
{
    concat4(a.id.as_str(), " conflicts with installed content '", c.id.as_str(), "'")
}

fn cannot_install_message(selector: &str) -> (r: String)
    ensures
        r@ == msg_cannot_install(selector@),
{
    concat3(
        "cannot install '",
        selector,
        "': no matching source artifact, app-owned cache entry, or root content seed exists\nhelp: run `content acquire ARTIFACT`, open a source, or add a [[root.content]] seed",
    )
}

/// Whether `v` holds a string equal to `t`.
fn contains_string(v: &Vec<String>, t: &str) -> (r: bool)
    ensures
        r == v@.map_values(|s: String| s@).contains(t@),
{
    let ghost views = v@.map_values(|s: String| s@);
    let mut i: usize = 0;
    while i < v.len()
        invariant
            i <= v@.len(),
            views == v@.map_values(|s: String| s@),
            forall|k: int| 0 <= k < i ==> #[trigger] views[k] != t@,
        decreases v@.len() - i,
    {
        if str_eq(v[i].as_str(), t) {
            proof {
                assert(views[i as int] == t@);
            }
            return true;
        }
        i = i + 1;
    }
    false
}

/// Two keys that are both the least to satisfy a condition are the same key.
pub proof fn lemma_first_key_unique<T>(m: Map<Seq<char>, T>, chosen: spec_fn(Seq<char>, T) -> bool, k1: Seq<char>, k2: Seq<char>)
    requires
        first_key_where(m, chosen, k1),
        first_key_where(m, chosen, k2),
    ensures
        k1 == k2,
{
    crate::text::lemma_text_lt_order(k1, k2);
    if k1 != k2 {
        if crate::text::text_lt(k1, k2) {
            assert(m.dom().contains(k1));
        } else {
            assert(m.dom().contains(k2));
        }
    }
}

impl Installer {
    fn resolve(&mut self, index: &ContentIndex, sel: String) -> (r: InstallStep)
        requires
            old(self)@.phase == PhaseView::Over,
        ensures
            final(self)@ == resolve_next(InstallView { phase: PhaseView::Resolve(sel@), ..old(self)@ }, index.cache_map(), sel@).0,
            step_view(r) == resolve_next(InstallView { phase: PhaseView::Resolve(sel@), ..old(self)@ }, index.cache_map(), sel@).1,
    {
        proof {
            use_type_invariant(&*self);
            lemma_first_selected(self.catalog.artifacts@, sel@);
        }
        let ghost v = InstallView { phase: PhaseView::Resolve(sel@), ..self@ };
        assert(v.catalog == catalog_view(self.catalog, self.has_source));
        let pos = if self.has_source {
            let key = sel.as_str();
            assert(key@ == sel@);
            self.catalog.position(key)
        } else {
            None
        };
        let _count = self.catalog.artifacts.len();
        match pos {
            Some(at) => {
                assert(self.has_source);
                assert(at as int == first_selected(self.catalog.artifacts@, sel@));
                assert(catalog_seq(v.catalog) == self.catalog.artifacts@);
                let held = stack_holds(&self.catalog, self.has_source, &self.stack, self.catalog.artifacts[at].id.as_str());
                proof {
                    let id = self.catalog.artifacts@[at as int].id@;
                    if held {
                        let j = choose|j: int| 0 <= j < self.stack@.len()
                            && #[trigger] frame_artifact_in(catalog_view(self.catalog, self.has_source), frame_view(self.stack@[j])).id@ == id;
                        assert(v.stack[j] == frame_view(self.stack@[j]));
                        assert(frame_artifact(v, v.stack[j]) == frame_artifact_in(catalog_view(self.catalog, self.has_source), frame_view(self.stack@[j])));
                        assert(on_stack(v, id));
                    } else {
                        assert forall|j: int| 0 <= j < v.stack.len() implies #[trigger] frame_artifact(v, v.stack[j]).id@ != id by {
                            assert(v.stack[j] == frame_view(self.stack@[j]));
                            assert(frame_artifact(v, v.stack[j]) == frame_artifact_in(catalog_view(self.catalog, self.has_source), frame_view(self.stack@[j])));
                        }
                        assert(!on_stack(v, id));
                    }
                }
                if held {
                    let m = cycle_message(self.catalog.artifacts[at].id.as_str());
                    self.phase = InstallPhase::Over;
                    InstallStep::Fail(m)
                } else {
                    let mut stack: Vec<InstallFrame> = Vec::new();
                    std::mem::swap(&mut stack, &mut self.stack);
                    stack.push(InstallFrame::Source { at, next: 0 });
                    proof {
                        assert(stack@.map_values(|f: InstallFrame| frame_view(f)) =~= v.stack.push(FrameView::Source { at: at as int, next: 0 }));
                    }
                    self.stack = stack;
                    self.phase = InstallPhase::Advance;
                    assert(self@ =~= resolve_next(v, index.cache_map(), sel@).0);
                    InstallStep::Continue
                }
            },
            None => {
                assert(!(v.catalog.is_some() && first_selected(catalog_seq(v.catalog), sel@) >= 0));
                match index.cache_by_selector(sel.as_str()) {
                    None => {
                        let r = InstallStep::LookupSeed(sel.clone());
                        let ghost sv = sel@;
                        self.phase = InstallPhase::SeedAnswer(sel);
                        assert(self@ =~= resolve_next(v, index.cache_map(), sv).0);
                        r
                    },
                    Some(_) => {
                        let ghost sv = sel@;
                        self.phase = InstallPhase::CacheLookup(sel);
                        assert(self@ =~= resolve_next(v, index.cache_map(), sv).0);
                        InstallStep::Continue
                    },
                }
            },
        }
    }
}

impl Installer {
    fn advance(&mut self, index: &ContentIndex) -> (r: InstallStep)
        requires
            old(self)@.phase == PhaseView::Over,
        ensures
            final(self)@ == advance_next(InstallView { phase: PhaseView::Advance, ..old(self)@ }, index.installed_map()).0,
            step_view(r) == advance_next(InstallView { phase: PhaseView::Advance, ..old(self)@ }, index.installed_map()).1,
    {
        proof {
            use_type_invariant(&*self);
        }
        let ghost v = InstallView { phase: PhaseView::Advance, ..self@ };
        let ghost cat = catalog_view(self.catalog, self.has_source);
        assert(v.catalog == cat);
        let n = self.stack.len();
        if n == 0 {
            self.phase = InstallPhase::Over;
            assert(self@ =~= advance_next(v, index.installed_map()).0);
            return InstallStep::Done;
        }
        let mut stack: Vec<InstallFrame> = Vec::new();
        std::mem::swap(&mut stack, &mut self.stack);
        let top = match stack.pop() {
            Some(f) => f,
            None => {
                return InstallStep::Done;
            },
        };
        proof {
            assert(v.stack.last() == frame_view(top));
            assert(stack@.map_values(|f: InstallFrame| frame_view(f)) =~= v.stack.drop_last());
            assert(frames_wf(cat, v.stack));
            assert(v.stack[n - 1] == frame_view(top));
        }
        let cursor = match &top {
            InstallFrame::Source { next, .. } => *next,
            InstallFrame::Cache { next, .. } => *next,
        };
        let is_source = match &top {
            InstallFrame::Source { .. } => true,
            InstallFrame::Cache { .. } => false,
        };
        let a = artifact_of(&self.catalog, self.has_source, &top);
        let ghost f = frame_view(top);
        assert(frame_artifact(v, f) == *a);
        assert(frame_next(f) == cursor as int);
        if cursor < a.dependencies.len() {
            let d = &a.dependencies[cursor];
            let (phase, step): (InstallPhase, InstallStep) = if is_source {
                if d.optional || contains_string(&self.reported, d.id.as_str()) {
                    (InstallPhase::Advance, InstallStep::Continue)
                } else if self.has_source && self.catalog.by_id(d.id.as_str()).is_some() {
                    (InstallPhase::Resolve(d.id.clone()), InstallStep::Continue)
                } else if index.installed(d.id.as_str()).is_none() {
                    (InstallPhase::Over, InstallStep::Fail(missing_message(a, d)))
                } else {
                    (InstallPhase::Advance, InstallStep::Continue)
                }
            } else {
                if d.optional || index.installed(d.id.as_str()).is_some() {
                    (InstallPhase::Advance, InstallStep::Continue)
                } else {
                    let selector = match &d.workshop_id {
                        Some(w) => w.clone(),
                        None => d.id.clone(),
                    };
                    (InstallPhase::Resolve(selector), InstallStep::Continue)
                }
            };
            proof {
                let dv = v.stack.last();
                assert(frame_artifact(v, dv).dependencies@[cursor as int] == *d);
            }
            let moved = match top {
                InstallFrame::Source { at, next } => InstallFrame::Source { at, next: next + 1 },
                InstallFrame::Cache { artifact, cache_root, fingerprint, next } =>
                    InstallFrame::Cache { artifact, cache_root, fingerprint, next: next + 1 },
            };
            stack.push(moved);
            proof {
                assert(stack@.map_values(|f: InstallFrame| frame_view(f)) =~= v.stack.update(v.stack.len() - 1, with_next(f, cursor + 1)));
            }
            self.stack = stack;
            self.phase = phase;
            assert(self@ =~= advance_next(v, index.installed_map()).0);
            step
        } else {
            let conflict = find_enabled_conflict(a.conflicts.as_slice(), index);
            proof {
                lemma_first_enabled_conflict(a.conflicts@, index.installed_map());
            }
            match conflict {
                Some(c) => {
                    let m = conflict_message(a, &a.conflicts[c]);
                    stack.push(top);
                    proof {
                        assert(stack@.map_values(|f: InstallFrame| frame_view(f)) =~= v.stack);
                    }
                    self.stack = stack;
                    self.phase = InstallPhase::Over;
                    assert(self@ =~= advance_next(v, index.installed_map()).0);
                    InstallStep::Fail(m)
                },
                None => {
                    let step = match &top {
                        InstallFrame::Source { at, .. } => InstallStep::InstallSource(*at),
                        InstallFrame::Cache { cache_root, fingerprint, .. } =>
                            InstallStep::InstallCache(cache_root.clone(), fingerprint.duplicate()),
                    };
                    stack.push(top);
                    proof {
                        assert(stack@.map_values(|f: InstallFrame| frame_view(f)) =~= v.stack);
                    }
                    self.stack = stack;
                    self.phase = InstallPhase::InstallAnswer;
                    assert(self@ =~= advance_next(v, index.installed_map()).0);
                    step
                },
            }
        }
    }
}

impl Installer {
    fn finish_frame(&mut self) -> (r: InstallStep)
        requires
            old(self)@.phase == PhaseView::Over,
            old(self)@.stack.len() > 0,
        ensures
            final(self)@ == install_next(InstallView { phase: PhaseView::InstallAnswer, ..old(self)@ }, Map::empty(), Map::empty(), InstallEvent::Installed).0,
            step_view(r) == install_next(InstallView { phase: PhaseView::InstallAnswer, ..old(self)@ }, Map::empty(), Map::empty(), InstallEvent::Installed).1,
    {
        proof {
            use_type_invariant(&*self);
        }
        let ghost v = InstallView { phase: PhaseView::InstallAnswer, ..self@ };
        let ghost cat = catalog_view(self.catalog, self.has_source);
        assert(v.catalog == cat);
        let n = self.stack.len();
        let mut stack: Vec<InstallFrame> = Vec::new();
        std::mem::swap(&mut stack, &mut self.stack);
        let top = match stack.pop() {
            Some(f) => f,
            None => {
                return InstallStep::Done;
            },
        };
        proof {
            assert(v.stack.last() == frame_view(top));
            assert(stack@.map_values(|f: InstallFrame| frame_view(f)) =~= v.stack.drop_last());
            assert(frames_wf(cat, v.stack));
            assert(v.stack[n - 1] == frame_view(top));
        }
        let id = artifact_of(&self.catalog, self.has_source, &top).id.clone();
        let mut reported: Vec<String> = Vec::new();
        std::mem::swap(&mut reported, &mut self.reported);
        reported.push(id);
        proof {
            assert(reported@.map_values(|s: String| s@) =~= v.reported.push(frame_artifact(v, v.stack.last()).id@));
        }
        self.reported = reported;
        self.stack = stack;
        if n == 1 {
            self.phase = InstallPhase::Over;
            assert(self@ =~= install_next(v, Map::empty(), Map::empty(), InstallEvent::Installed).0);
            InstallStep::Done
        } else {
            self.phase = InstallPhase::Advance;
            assert(self@ =~= install_next(v, Map::empty(), Map::empty(), InstallEvent::Installed).0);
            InstallStep::Continue
        }
    }

    /// The request of a phase that waits for an answer, made again.
    fn repeat_request(&self) -> (r: InstallStep)
        ensures
            step_view(r) == pending_request(self@),
    {
        proof {
            use_type_invariant(self);
        }
        match &self.phase {
            InstallPhase::SeedAnswer(sel) => InstallStep::LookupSeed(sel.clone()),
            InstallPhase::ManifestAnswer(root, _) => InstallStep::ReadCacheManifest(root.clone()),
            InstallPhase::InstallAnswer => {
                let n = self.stack.len();
                proof {
                    assert(self@.stack.last() == frame_view(self.stack@[n - 1]));
                }
                match &self.stack[n - 1] {
                    InstallFrame::Source { at, .. } => InstallStep::InstallSource(*at),
                    InstallFrame::Cache { cache_root, fingerprint, .. } => InstallStep::InstallCache(cache_root.clone(), fingerprint.duplicate()),
                }
            },
            _ => InstallStep::Continue,
        }
    }

    /// Take the next decision, given the current content index and the answer
    /// to the last request: the new state and the request are those of
    /// `install_next`.
    pub fn step(&mut self, index: &ContentIndex, event: InstallEvent) -> (r: InstallStep)
        ensures
            final(self)@ == install_next(old(self)@, index.installed_map(), index.cache_map(), event).0,
            step_view(r) == install_next(old(self)@, index.installed_map(), index.cache_map(), event).1,
    {
        proof {
            use_type_invariant(&*self);
        }
        let ghost v = self@;
        let ghost installed = index.installed_map();
        let ghost caches = index.cache_map();
        match &self.phase {
            InstallPhase::Over => {
                return InstallStep::Done;
            },
            InstallPhase::SeedAnswer(_) => {
                if !(event matches InstallEvent::Seed(_)) {
                    return self.repeat_request();
                }
            },
            InstallPhase::ManifestAnswer(_, _) => {
                if !(event matches InstallEvent::Manifest(_)) {
                    return self.repeat_request();
                }
            },
            InstallPhase::InstallAnswer => {
                if !(event matches InstallEvent::Installed) {
                    return self.repeat_request();
                }
            },
            _ => {},
        }
        let mut phase = InstallPhase::Over;
        std::mem::swap(&mut phase, &mut self.phase);
        assert(self@ == InstallView { phase: PhaseView::Over, ..v });
        match phase {
            InstallPhase::Resolve(sel) => {
                let ghost sv = sel@;
                assert(InstallView { phase: PhaseView::Resolve(sv), ..self@ } =~= v);
                let r = self.resolve(index, sel);
                r
            },
            InstallPhase::SeedAnswer(sel) => match event {
                InstallEvent::Seed(Some(seed)) => {
                    self.phase = InstallPhase::CacheLookup(sel);
                    assert(self@ =~= install_next(v, installed, caches, InstallEvent::Seed(Some(seed))).0);
                    InstallStep::AcquireSeed(seed.app_id, seed.workshop_id)
                },
                _ => {
                    self.phase = InstallPhase::CacheLookup(sel);
                    assert(self@ =~= install_next(v, installed, caches, event).0);
                    InstallStep::Continue
                },
            },
            InstallPhase::CacheLookup(sel) => match index.cache_by_selector(sel.as_str()) {
                None => {
                    let m = cannot_install_message(sel.as_str());
                    self.phase = InstallPhase::Over;
                    assert(self@ =~= install_next(v, installed, caches, event).0);
                    InstallStep::Fail(m)
                },
                Some((k, c)) => {
                    proof {
                        lemma_first_key_unique(caches, cache_selected(sel@), k@, cache_pick(caches, sel@));
                    }
                    let root = c.cache_root.clone();
                    let r = InstallStep::ReadCacheManifest(c.cache_root.clone());
                    self.phase = InstallPhase::ManifestAnswer(root, c.fingerprint.duplicate());
                    assert(self@ =~= install_next(v, installed, caches, event).0);
                    r
                },
            },
            InstallPhase::ManifestAnswer(root, fingerprint) => match event {
                InstallEvent::Manifest(p) => {
                    let held = stack_holds(&self.catalog, self.has_source, &self.stack, p.id.as_str());
                    proof {
                        assert(v.catalog == catalog_view(self.catalog, self.has_source));
                        if held {
                            let j = choose|j: int| 0 <= j < self.stack@.len()
                                && #[trigger] frame_artifact_in(catalog_view(self.catalog, self.has_source), frame_view(self.stack@[j])).id@ == p.id@;
                            assert(v.stack[j] == frame_view(self.stack@[j]));
                            assert(frame_artifact(v, v.stack[j]) == frame_artifact_in(catalog_view(self.catalog, self.has_source), frame_view(self.stack@[j])));
                            assert(on_stack(v, p.id@));
                        } else {
                            assert forall|j: int| 0 <= j < v.stack.len() implies #[trigger] frame_artifact(v, v.stack[j]).id@ != p.id@ by {
                                assert(v.stack[j] == frame_view(self.stack@[j]));
                                assert(frame_artifact(v, v.stack[j]) == frame_artifact_in(catalog_view(self.catalog, self.has_source), frame_view(self.stack@[j])));
                            }
                            assert(!on_stack(v, p.id@));
                        }
                    }
                    if held {
                        let m = cycle_message(p.id.as_str());
                        self.phase = InstallPhase::Over;
                        assert(self@ =~= install_next(v, installed, caches, InstallEvent::Manifest(p)).0);
                        InstallStep::Fail(m)
                    } else {
                        let ghost pv = p;
                        let mut stack: Vec<InstallFrame> = Vec::new();
                        std::mem::swap(&mut stack, &mut self.stack);
                        stack.push(InstallFrame::Cache { artifact: p, cache_root: root, fingerprint, next: 0 });
                        proof {
                            assert(stack@.map_values(|f: InstallFrame| frame_view(f)) =~= v.stack.push(
                                FrameView::Cache { artifact: pv, cache_root: v.phase->ManifestAnswer_0, fingerprint: v.phase->ManifestAnswer_1, next: 0 }));
                        }
                        self.stack = stack;
                        self.phase = InstallPhase::Advance;
                        assert(self@ =~= install_next(v, installed, caches, InstallEvent::Manifest(pv)).0);
                        InstallStep::Continue
                    }
                },
                _ => {
                    proof {
                        assert(false);
                    }
                    InstallStep::Done
                },
            },
            InstallPhase::Advance => {
                assert(InstallView { phase: PhaseView::Advance, ..self@ } =~= v);
                self.advance(index)
            },
            InstallPhase::InstallAnswer => {
                proof {
                    assert(v.stack.len() > 0);
                    assert(InstallView { phase: PhaseView::InstallAnswer, ..self@ } =~= v);
                    assert(install_next(v, Map::empty(), Map::empty(), InstallEvent::Installed) =~~= install_next(v, installed, caches, event));
                }
                self.finish_frame()
            },
            InstallPhase::Over => InstallStep::Done,
        }
    }
}

/// No two artifacts on the stack share an ID.
pub open spec fn stack_ids_distinct(v: InstallView) -> bool {
    forall|i: int, j: int| 0 <= i < j < v.stack.len()
        ==> #[trigger] frame_artifact(v, v.stack[i]).id@ != #[trigger] frame_artifact(v, v.stack[j]).id@
}

/// Installation is asked for only once every dependency of the innermost
/// artifact has been considered, and never while one of its declared
/// conflicts is installed and enabled in the index the decision sees.
pub proof fn law_install_requests_respect_conflicts(
    v: InstallView,
    installed: Map<Seq<char>, InstalledRecord>,
    caches: Map<Seq<char>, CacheRecord>,
    e: InstallEvent,
)
    requires
        install_wf(v),
        v.phase == PhaseView::Advance,
        install_next(v, installed, caches, e).1 is InstallSource || install_next(v, installed, caches, e).1 is InstallCache,
    ensures
        v.stack.len() > 0,
        frame_next(v.stack.last()) >= frame_artifact(v, v.stack.last()).dependencies@.len(),
        forall|k: int| 0 <= k < frame_artifact(v, v.stack.last()).conflicts@.len() ==> {
            let c = #[trigger] frame_artifact(v, v.stack.last()).conflicts@[k];
            !(installed.dom().contains(c.id@) && installed[c.id@].enabled)
        },
{
    let a = frame_artifact(v, v.stack.last());
    lemma_first_enabled_conflict(a.conflicts@, installed);
    assert(frames_wf(v.catalog, v.stack));
    assert(v.stack[v.stack.len() - 1] == v.stack.last());
}

/// Each decision keeps the installer coherent and never puts an artifact on
/// the stack twice: a dependency cycle is reported instead.
pub proof fn law_install_stack_stays_acyclic(
    v: InstallView,
    installed: Map<Seq<char>, InstalledRecord>,
    caches: Map<Seq<char>, CacheRecord>,
    e: InstallEvent,
)
    requires
        install_wf(v),
        stack_ids_distinct(v),
    ensures
        install_wf(install_next(v, installed, caches, e).0),
        stack_ids_distinct(install_next(v, installed, caches, e).0),
{
    let w = install_next(v, installed, caches, e).0;
    assert(frames_wf(v.catalog, v.stack));
    assert(w.catalog == v.catalog);
    if v.stack.len() > 0 {
        assert(v.stack[v.stack.len() - 1] == v.stack.last());
    }
    assert forall|j: int| 0 <= j < w.stack.len() implies match #[trigger] w.stack[j] {
        FrameView::Source { at, next } => w.catalog.is_some() && 0 <= at < catalog_seq(w.catalog).len() && 0 <= next,
        FrameView::Cache { next, .. } => 0 <= next,
    } by {
        if j < v.stack.len() {
            assert(match v.stack[j] {
                FrameView::Source { at, next } => v.catalog.is_some() && 0 <= at < catalog_seq(v.catalog).len() && 0 <= next,
                FrameView::Cache { next, .. } => 0 <= next,
            });
        }
        match v.phase {
            PhaseView::Resolve(sel) => {
                lemma_first_selected(catalog_seq(v.catalog), sel);
            },
            _ => {},
        }
    }
    assert forall|i: int, j: int| 0 <= i < j < w.stack.len()
        implies #[trigger] frame_artifact(w, w.stack[i]).id@ != #[trigger] frame_artifact(w, w.stack[j]).id@ by {
        if j < v.stack.len() {
            if j == v.stack.len() - 1 && w.stack[j] != v.stack[j] {
                assert(frame_artifact(w, w.stack[j]) == frame_artifact(v, v.stack[j]));
            }
            assert(frame_artifact(v, v.stack[i]).id@ != frame_artifact(v, v.stack[j]).id@);
            if i == v.stack.len() - 1 {
                assert(frame_artifact(w, w.stack[i]) == frame_artifact(v, v.stack[i]));
            }
        } else {
            assert(frame_artifact(v, v.stack[i]) == frame_artifact(w, w.stack[i]));
        }
    }
}

/// A finished install stays finished: every further decision is `Done` and
/// changes nothing.
pub proof fn law_install_over_is_final(
    v: InstallView,
    installed: Map<Seq<char>, InstalledRecord>,
    caches: Map<Seq<char>, CacheRecord>,
    e: InstallEvent,
)
    requires
        v.phase == PhaseView::Over,
    ensures
        install_next(v, installed, caches, e) == (v, StepView::Done),
{
}

/// A failure ends the install.
pub proof fn law_install_failure_is_final(
    v: InstallView,
    installed: Map<Seq<char>, InstalledRecord>,
    caches: Map<Seq<char>, CacheRecord>,
    e: InstallEvent,
)
    requires
        install_next(v, installed, caches, e).1 is Fail,
    ensures
        install_next(v, installed, caches, e).0.phase == PhaseView::Over,
{
}

} // verus!
