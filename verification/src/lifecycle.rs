//! Decisions of the content lifecycle commands: where an acquisition comes
//! from, which installed content an update or verification covers, moving
//! content between the enabled and disabled trees, packagepack selection,
//! verification outcomes, and the authority checks in front of Workshop
//! operations. The shell performs the file and provider work around them.

use vstd::prelude::*;
use crate::text::{string_views, trim, trim_str, str_eq, concat, concat3, concat4, concat5, decimal, decimal_string, owned};
use crate::paths::join;
use crate::paths::join_path;
use crate::content::{
    ContentArtifact, ContentCatalog, ContentLayout, Fingerprint, VerifyReport, PackagepackSelection, AcquireReport,
    CONTENT_STATE_SCHEMA, first_selected, lemma_first_selected, is_published_id, is_published_file_id, slug, slug_of,
    msg_unknown_artifact, unknown_artifact, same_fingerprint, WorkshopOperationReport, UninstallReport,
};
use crate::content_state::{
    ContentIndex, InstalledRecord, CacheRecord, first_key_where, no_key_where, cache_selected, installed_selected,
    msg_not_installed, resolve_installed_selector, receipt_file_name,
};
use crate::install::{RootContentSeed, first_seed, find_root_content_seed};
use crate::manifest::kind_label;
use crate::keyed::strictly_sorted;

verus! {

/// An account that is given and not blank.
pub open spec fn has_account(account: Option<Seq<char>>) -> bool {
    account matches Some(a) && trim(a).len() > 0
}

/// The character view of an optional string slice.
pub open spec fn opt_str(o: Option<&str>) -> Option<Seq<char>> {
    match o {
        Some(s) => Some(s@),
        None => None,
    }
}

/// Whether `account` is given and not blank.
pub fn account_given(account: Option<&str>) -> (r: bool)
    ensures
        r == has_account(opt_str(account)),
{
    match account {
        Some(a) => trim_str(a).unicode_len() > 0,
        None => false,
    }
}

/// Where an acquisition comes from.
#[derive(Debug)]
pub enum AcquirePlan {
    /// Download this PublishedFileId from the Workshop.
    Download(String),
    /// Package the catalog artifact at this position into the cache under this key.
    Package(usize, String),
    /// The package is already cached under this key.
    Cached(String),
    /// Download the Workshop item of a root content seed: AppID, PublishedFileId.
    Seed(u32, String),
}

/// Acquisition routes, as values.
pub enum AcquireRoute {
    Download(Seq<char>),
    Package(int, Seq<char>),
    Cached(Seq<char>),
    Seed(u32, Seq<char>),
}

/// The route of an acquisition plan.
pub open spec fn acquire_route(p: AcquirePlan) -> AcquireRoute {
    match p {
        AcquirePlan::Download(s) => AcquireRoute::Download(s@),
        AcquirePlan::Package(at, k) => AcquireRoute::Package(at as int, k@),
        AcquirePlan::Cached(k) => AcquireRoute::Cached(k@),
        AcquirePlan::Seed(a, w) => AcquireRoute::Seed(a, w@),
    }
}

/// The cache key of a packaged source artifact: its PublishedFileId, else the
/// slug of its ID.
pub open spec fn cache_key_of(artifact: ContentArtifact) -> Seq<char> {
    match artifact.workshop.published_file_id {
        Some(p) => p@,
        None => slug_of(artifact.id@),
    }
}

/// Message for a selector that nothing can acquire.
pub open spec fn msg_cannot_acquire(selector: Seq<char>) -> Seq<char> {
    "cannot acquire Workshop item '"@ + selector
        + "': no matching source artifact, app-owned cache entry, root content seed, or numeric PublishedFileId exists\nhelp: acquire from an open source artifact, add a [[root.content]] seed, or pass a PublishedFileId"@
}

/// The route of an acquisition, tried in order: a numeric PublishedFileId
/// with an account downloads directly; then a source artifact of the open
/// source (whose discovery may have failed), the package cache (whose index
/// may have failed to load), a root content seed (whose manifest may have
/// failed to read), and a bare numeric PublishedFileId.
pub open spec fn acquire_decision(
    selector: Seq<char>,
    account: Option<Seq<char>>,
    catalog: Option<Result<Seq<ContentArtifact>, Seq<char>>>,
    caches: Result<Map<Seq<char>, CacheRecord>, Seq<char>>,
    seeds: Result<Seq<RootContentSeed>, Seq<char>>,
) -> Result<AcquireRoute, Seq<char>> {
    if is_published_id(selector) && has_account(account) {
        Ok(AcquireRoute::Download(selector))
    } else {
        match catalog {
            Some(Err(e)) => Err(e),
            Some(Ok(arts)) if first_selected(arts, selector) >= 0 => {
                let at = first_selected(arts, selector);
                Ok(AcquireRoute::Package(at, cache_key_of(arts[at])))
            },
            _ => acquire_without_source(selector, caches, seeds),
        }
    }
}

/// The acquisition route once no source artifact answers to `selector`.
pub open spec fn acquire_without_source(
    selector: Seq<char>,
    caches: Result<Map<Seq<char>, CacheRecord>, Seq<char>>,
    seeds: Result<Seq<RootContentSeed>, Seq<char>>,
) -> Result<AcquireRoute, Seq<char>> {
    match caches {
        Err(e) => Err(e),
        Ok(m) => {
            if !no_key_where(m, cache_selected(selector)) {
                Ok(AcquireRoute::Cached(cache_key_for(m, selector)))
            } else {
                match seeds {
                    Err(e) => Err(e),
                    Ok(ss) => {
                        if first_seed(ss, selector) >= 0 {
                            Ok(AcquireRoute::Seed(ss[first_seed(ss, selector)].app_id, ss[first_seed(ss, selector)].workshop_id@))
                        } else if is_published_id(selector) {
                            Ok(AcquireRoute::Download(selector))
                        } else {
                            Err(msg_cannot_acquire(selector))
                        }
                    },
                }
            }
        },
    }
}

/// The least cache key that answers to `selector` (meaningful when one does).
pub open spec fn cache_key_for(m: Map<Seq<char>, CacheRecord>, selector: Seq<char>) -> Seq<char> {
    choose|k: Seq<char>| first_key_where(m, cache_selected(selector), k)
}

/// The catalog of an open source, as a value.
pub open spec fn catalog_outcome(c: Option<Result<ContentCatalog, String>>) -> Option<Result<Seq<ContentArtifact>, Seq<char>>> {
    match c {
        Some(Ok(c)) => Some(Ok(c.artifacts@)),
        Some(Err(e)) => Some(Err(e@)),
        None => None,
    }
}

/// The cache records of a loaded index, as a value.
pub open spec fn caches_outcome(i: Result<ContentIndex, String>) -> Result<Map<Seq<char>, CacheRecord>, Seq<char>> {
    match i {
        Ok(i) => Ok(i.cache_map()),
        Err(e) => Err(e@),
    }
}

/// The seeds of a read root manifest, as a value.
pub open spec fn seeds_outcome(s: Result<Vec<RootContentSeed>, String>) -> Result<Seq<RootContentSeed>, Seq<char>> {
    match s {
        Ok(s) => Ok(s@),
        Err(e) => Err(e@),
    }
}

/// The key under which a packaged source artifact is cached.
pub fn acquire_cache_key(artifact: &ContentArtifact) -> (r: String)
    ensures
        r@ == cache_key_of(*artifact),
{
    match &artifact.workshop.published_file_id {
        Some(p) => p.clone(),
        None => slug(artifact.id.as_str()),
    }
}

/// Decide where acquiring `selector` comes from.
pub fn acquire(
    selector: &str,
    account: Option<&str>,
    catalog: &Option<Result<ContentCatalog, String>>,
    index: &Result<ContentIndex, String>,
    seeds: &Result<Vec<RootContentSeed>, String>,
) -> (r: Result<AcquirePlan, String>)
    ensures
        match acquire_decision(selector@, opt_str(account), catalog_outcome(*catalog), caches_outcome(*index), seeds_outcome(*seeds)) {
            Ok(route) => r matches Ok(p) && acquire_route(p) == route,
            Err(m) => r matches Err(e) && e@ == m,
        },
{
    if is_published_file_id(selector) && account_given(account) {
        return Ok(AcquirePlan::Download(selector.to_owned()));
    }
    match catalog {
        Some(Err(e)) => {
            return Err(e.clone());
        },
        Some(Ok(c)) => {
            proof {
                lemma_first_selected(c.artifacts@, selector@);
                assert(c.artifacts.len() == c.artifacts@.len());
            }
            match c.position(selector) {
                Some(at) => {
                    let key = acquire_cache_key(&c.artifacts[at]);
                    return Ok(AcquirePlan::Package(at, key));
                },
                None => {},
            }
        },
        None => {},
    }
    let idx = match index {
        Ok(i) => i,
        Err(e) => {
            return Err(e.clone());
        },
    };
    match idx.cache_by_selector(selector) {
        Some((k, _)) => {
            proof {
                crate::install::lemma_first_key_unique(idx.cache_map(), cache_selected(selector@), k@,
                    cache_key_for(idx.cache_map(), selector@));
            }
            return Ok(AcquirePlan::Cached(k));
        },
        None => {},
    }
    let ss = match seeds {
        Ok(s) => s,
        Err(e) => {
            return Err(e.clone());
        },
    };
    match find_root_content_seed(ss.as_slice(), selector) {
        Some(seed) => {
            return Ok(AcquirePlan::Seed(seed.app_id, seed.workshop_id.clone()));
        },
        None => {},
    }
    if is_published_file_id(selector) {
        return Ok(AcquirePlan::Download(selector.to_owned()));
    }
    Err(concat3(
        "cannot acquire Workshop item '",
        selector,
        "': no matching source artifact, app-owned cache entry, root content seed, or numeric PublishedFileId exists\nhelp: acquire from an open source artifact, add a [[root.content]] seed, or pass a PublishedFileId",
    ))
}

/// A bare numeric PublishedFileId that no source artifact, cache entry or
/// root content seed answers to (and whose catalog, cache index and seeds
/// loaded) is downloaded from the Workshop, with or without an account.
pub proof fn law_bare_published_id_downloads(
    selector: Seq<char>,
    account: Option<Seq<char>>,
    catalog: Option<Result<Seq<ContentArtifact>, Seq<char>>>,
    caches: Map<Seq<char>, CacheRecord>,
    seeds: Seq<RootContentSeed>,
)
    requires
        selector.len() > 0,
        forall|i: int| 0 <= i < selector.len() ==> '0' <= #[trigger] selector[i] && selector[i] <= '9',
        catalog is None || (catalog matches Some(Ok(arts))
            && forall|i: int| 0 <= i < arts.len() ==> !crate::content::selects(#[trigger] arts[i], selector)),
        forall|k: Seq<char>| #[trigger] caches.dom().contains(k) ==> !(cache_selected(selector))(k, caches[k]),
        forall|i: int| 0 <= i < seeds.len() ==> !crate::install::seed_selected(#[trigger] seeds[i], selector),
    ensures
        acquire_decision(selector, account, catalog, Ok(caches), Ok(seeds)) == Ok::<AcquireRoute, Seq<char>>(AcquireRoute::Download(selector)),
{
    assert(is_published_id(selector));
    match catalog {
        Some(Ok(arts)) => {
            lemma_first_selected(arts, selector);
            if first_selected(arts, selector) >= 0 {
                assert(!crate::content::selects(arts[first_selected(arts, selector)], selector));
            }
        },
        _ => {},
    }
    crate::install::lemma_first_seed(seeds, selector);
    if first_seed(seeds, selector) >= 0 {
        assert(!crate::install::seed_selected(seeds[first_seed(seeds, selector)], selector));
    }
}

/// With an account given, a numeric PublishedFileId is downloaded directly,
/// whatever the open source, the cache and the root content seeds hold.
pub proof fn law_account_downloads_published_id(
    selector: Seq<char>,
    account: Seq<char>,
    catalog: Option<Result<Seq<ContentArtifact>, Seq<char>>>,
    caches: Result<Map<Seq<char>, CacheRecord>, Seq<char>>,
    seeds: Result<Seq<RootContentSeed>, Seq<char>>,
)
    requires
        selector.len() > 0,
        forall|i: int| 0 <= i < selector.len() ==> '0' <= #[trigger] selector[i] && selector[i] <= '9',
        trim(account).len() > 0,
    ensures
        acquire_decision(selector, Some(account), catalog, caches, seeds) == Ok::<AcquireRoute, Seq<char>>(AcquireRoute::Download(selector)),
{
    assert(is_published_id(selector));
}

/// Short of a numeric PublishedFileId with an account, the first artifact
/// of the open source that answers to the selector (by ID, name or
/// PublishedFileId) is packaged, whatever the cache and the seeds hold, and
/// cached under its PublishedFileId, else the slug of its ID; a source whose
/// discovery failed fails the acquisition with that error.
pub proof fn law_acquire_prefers_source_artifact(
    selector: Seq<char>,
    account: Option<Seq<char>>,
    arts: Seq<ContentArtifact>,
    i: int,
    caches: Result<Map<Seq<char>, CacheRecord>, Seq<char>>,
    seeds: Result<Seq<RootContentSeed>, Seq<char>>,
    failure: Seq<char>,
)
    requires
        !(is_published_id(selector) && has_account(account)),
        0 <= i < arts.len(),
        crate::content::selects(arts[i], selector),
        forall|k: int| 0 <= k < i ==> !crate::content::selects(#[trigger] arts[k], selector),
    ensures
        acquire_decision(selector, account, Some(Ok(arts)), caches, seeds) == Ok::<AcquireRoute, Seq<char>>(
            AcquireRoute::Package(i, match arts[i].workshop.published_file_id {
                Some(p) => p@,
                None => slug_of(arts[i].id@),
            })),
        acquire_decision(selector, account, Some(Err(failure)), caches, seeds) == Err::<AcquireRoute, Seq<char>>(failure),
{
    lemma_first_selected(arts, selector);
    let f = first_selected(arts, selector);
    if f != i {
        if f < 0 || f > i {
            assert(!crate::content::selects(arts[i], selector));
        } else {
            assert(!crate::content::selects(arts[f], selector));
        }
    }
}

/// When no source artifact answers to the selector (or no source is open),
/// the package cache comes next: the least cache key whose entry answers is
/// reused, whatever the seeds hold; a cache index that failed to load fails
/// the acquisition with that error.
pub proof fn law_acquire_then_cache(
    selector: Seq<char>,
    account: Option<Seq<char>>,
    catalog: Option<Result<Seq<ContentArtifact>, Seq<char>>>,
    caches: Map<Seq<char>, CacheRecord>,
    key: Seq<char>,
    seeds: Result<Seq<RootContentSeed>, Seq<char>>,
    failure: Seq<char>,
)
    requires
        !(is_published_id(selector) && has_account(account)),
        catalog is None || (catalog matches Some(Ok(arts))
            && forall|i: int| 0 <= i < arts.len() ==> !crate::content::selects(#[trigger] arts[i], selector)),
        caches.dom().contains(key),
        (cache_selected(selector))(key, caches[key]),
        forall|k: Seq<char>| #[trigger] caches.dom().contains(k) && crate::text::text_lt(k, key)
            ==> !(cache_selected(selector))(k, caches[k]),
    ensures
        acquire_decision(selector, account, catalog, Ok(caches), seeds) == Ok::<AcquireRoute, Seq<char>>(AcquireRoute::Cached(key)),
        acquire_decision(selector, account, catalog, Err(failure), seeds) == Err::<AcquireRoute, Seq<char>>(failure),
{
    match catalog {
        Some(Ok(arts)) => {
            lemma_first_selected(arts, selector);
            if first_selected(arts, selector) >= 0 {
                assert(!crate::content::selects(arts[first_selected(arts, selector)], selector));
            }
        },
        _ => {},
    }
    assert(first_key_where(caches, cache_selected(selector), key));
    assert(!no_key_where(caches, cache_selected(selector)));
    crate::install::lemma_first_key_unique(caches, cache_selected(selector), key, cache_key_for(caches, selector));
}

/// When neither a source artifact nor a cache entry answers to the
/// selector, the first root content seed that answers is downloaded (its
/// AppID and PublishedFileId); with no seed either, a selector that is not a
/// numeric PublishedFileId cannot be acquired, and a root manifest that
/// failed to read fails the acquisition with that error.
pub proof fn law_acquire_then_seed(
    selector: Seq<char>,
    account: Option<Seq<char>>,
    catalog: Option<Result<Seq<ContentArtifact>, Seq<char>>>,
    caches: Map<Seq<char>, CacheRecord>,
    seeds: Seq<RootContentSeed>,
    failure: Seq<char>,
)
    requires
        !(is_published_id(selector) && has_account(account)),
        catalog is None || (catalog matches Some(Ok(arts))
            && forall|i: int| 0 <= i < arts.len() ==> !crate::content::selects(#[trigger] arts[i], selector)),
        forall|k: Seq<char>| #[trigger] caches.dom().contains(k) ==> !(cache_selected(selector))(k, caches[k]),
    ensures
        forall|i: int| 0 <= i < seeds.len() && crate::install::seed_selected(#[trigger] seeds[i], selector)
            && (forall|k: int| 0 <= k < i ==> !crate::install::seed_selected(#[trigger] seeds[k], selector))
            ==> acquire_decision(selector, account, catalog, Ok(caches), Ok(seeds))
                == Ok::<AcquireRoute, Seq<char>>(AcquireRoute::Seed(seeds[i].app_id, seeds[i].workshop_id@)),
        !is_published_id(selector) && (forall|i: int| 0 <= i < seeds.len() ==> !crate::install::seed_selected(#[trigger] seeds[i], selector))
            ==> acquire_decision(selector, account, catalog, Ok(caches), Ok(seeds)) == Err::<AcquireRoute, Seq<char>>(msg_cannot_acquire(selector)),
        acquire_decision(selector, account, catalog, Ok(caches), Err(failure)) == Err::<AcquireRoute, Seq<char>>(failure),
{
    match catalog {
        Some(Ok(arts)) => {
            lemma_first_selected(arts, selector);
            if first_selected(arts, selector) >= 0 {
                assert(!crate::content::selects(arts[first_selected(arts, selector)], selector));
            }
        },
        _ => {},
    }
    crate::install::lemma_first_seed(seeds, selector);
    let f = first_seed(seeds, selector);
    assert forall|i: int| 0 <= i < seeds.len() && crate::install::seed_selected(#[trigger] seeds[i], selector)
        && (forall|k: int| 0 <= k < i ==> !crate::install::seed_selected(#[trigger] seeds[k], selector))
        implies f == i by {
        if f < 0 || f > i {
            assert(!crate::install::seed_selected(seeds[i], selector));
        } else if f < i {
            assert(!crate::install::seed_selected(seeds[f], selector));
        }
    }
    if f >= 0 {
        assert(crate::install::seed_selected(seeds[f], selector));
    }
}

/// How several selectors are acquired.
#[derive(Debug, Clone, Copy, PartialEq, Eq, Structural)]
pub enum AcquireBatch {
    /// Every selector is a PublishedFileId: one provider session downloads them all.
    Downloads,
    /// Each selector is acquired on its own.
    OneByOne,
}

/// Decide how to acquire `selectors`; at least one is required.
pub fn acquire_many(selectors: &[String]) -> (r: Result<AcquireBatch, String>)
    ensures
        selectors@.len() == 0 ==> (r matches Err(e) && e@ == "at least one content target is required"@),
        selectors@.len() > 0 ==> (r matches Ok(b) && (b == AcquireBatch::Downloads
            <==> forall|i: int| 0 <= i < selectors@.len() ==> is_published_id(#[trigger] selectors@[i]@))),
{
    if selectors.len() == 0 {
        return Err(owned("at least one content target is required"));
    }
    let mut i: usize = 0;
    while i < selectors.len()
        invariant
            i <= selectors@.len(),
            forall|k: int| 0 <= k < i ==> is_published_id(#[trigger] selectors@[k]@),
        decreases selectors@.len() - i,
    {
        if !is_published_file_id(selectors[i].as_str()) {
            return Ok(AcquireBatch::OneByOne);
        }
        i = i + 1;
    }
    Ok(AcquireBatch::Downloads)
}

/// Message for a root manifest without a usable `[root.steam].app-id`.
pub open spec fn msg_no_root_app_id(manifest: Seq<char>) -> Seq<char> {
    "cannot infer Steam AppID for Workshop download; '"@ + manifest + "' needs [root.steam].app-id"@
}

/// The Steam AppID that the root manifest at `manifest` declares, where zero
/// counts as none.
pub fn root_steam_app_id(app_id: Option<u32>, manifest: &str) -> (r: Result<u32, String>)
    ensures
        match app_id {
            Some(a) => if a != 0 { r == Ok::<u32, String>(a) } else { r matches Err(e) && e@ == msg_no_root_app_id(manifest@) },
            None => r matches Err(e) && e@ == msg_no_root_app_id(manifest@),
        },
{
    match app_id {
        Some(a) => if a != 0 {
            return Ok(a);
        },
        None => {},
    }
    Err(concat3("cannot infer Steam AppID for Workshop download; '", manifest, "' needs [root.steam].app-id"))
}

/// The Steam AppID a Workshop download of `selector` uses: the AppID of the
/// source artifact it names, when the open source declares one, else the
/// root's.
pub fn resolve_download_app_id(
    selector: &str,
    catalog: &Option<Result<ContentCatalog, String>>,
    root_app_id: &Result<u32, String>,
) -> (r: Result<u32, String>)
    ensures
        match catalog_outcome(*catalog) {
            Some(Err(e)) => r matches Err(m) && m@ == e,
            Some(Ok(arts)) if first_selected(arts, selector@) >= 0
                && arts[first_selected(arts, selector@)].workshop.app_id.is_some() =>
                r == Ok::<u32, String>(arts[first_selected(arts, selector@)].workshop.app_id.unwrap()),
            _ => match *root_app_id {
                Ok(a) => r == Ok::<u32, String>(a),
                Err(e) => r matches Err(m) && m@ == e@,
            },
        },
{
    match catalog {
        Some(Err(e)) => {
            return Err(e.clone());
        },
        Some(Ok(c)) => match c.find(selector) {
            Some(a) => match a.workshop.app_id {
                Some(id) => {
                    return Ok(id);
                },
                None => {},
            },
            None => {},
        },
        None => {},
    }
    match root_app_id {
        Ok(a) => Ok(*a),
        Err(e) => Err(e.clone()),
    }
}

/// The cache record of a downloaded Workshop item.
pub fn downloaded_cache_record(artifact_id: &str, published_file_id: &str, cache_root: &str, fingerprint: &Fingerprint, acquired_at: u64) -> (r: CacheRecord)
    ensures
        r.artifact_id@ == artifact_id@,
        r.workshop_id matches Some(w) && w@ == published_file_id@,
        r.cache_root@ == cache_root@,
        r.fingerprint == *fingerprint,
        r.acquired_at == acquired_at,
{
    CacheRecord {
        artifact_id: artifact_id.to_owned(),
        workshop_id: Some(published_file_id.to_owned()),
        cache_root: cache_root.to_owned(),
        fingerprint: fingerprint.duplicate(),
        acquired_at,
    }
}

/// The cache record of a packaged source artifact.
pub fn packaged_cache_record(artifact: &ContentArtifact, cache_root: &str, fingerprint: &Fingerprint, acquired_at: u64) -> (r: CacheRecord)
    ensures
        r.artifact_id@ == artifact.id@,
        r.workshop_id == artifact.workshop.published_file_id,
        r.cache_root@ == cache_root@,
        r.fingerprint == *fingerprint,
        r.acquired_at == acquired_at,
{
    CacheRecord {
        artifact_id: artifact.id.clone(),
        workshop_id: crate::content::copy_optional(&artifact.workshop.published_file_id),
        cache_root: cache_root.to_owned(),
        fingerprint: fingerprint.duplicate(),
        acquired_at,
    }
}

/// Root of a cached package with key `key`.
pub fn cache_package_root(layout: &ContentLayout, key: &str) -> (r: String)
    ensures
        r@ == join(join(layout.cache@, "packages"@), key@),
{
    let packages = join_path(layout.cache.as_str(), "packages");
    join_path(packages.as_str(), key)
}

/// Root where the provider-observed copy of a download is kept.
pub fn observed_download_root(layout: &ContentLayout, app_id: u32, published_file_id: &str) -> (r: String)
    ensures
        r@ == join(join(layout.steam_downloads@, decimal(app_id as nat)), published_file_id@),
{
    let app = join_path(layout.steam_downloads.as_str(), decimal_string(app_id as u64).as_str());
    join_path(app.as_str(), published_file_id)
}

/// Keys of the installed content that `selector` covers: the one it resolves
/// to, or all of them in key order when absent.
pub open spec fn installed_targets_of(installed: Map<Seq<char>, InstalledRecord>, keys_in_order: Seq<Seq<char>>, selector: Option<Seq<char>>) -> Result<Seq<Seq<char>>, Seq<char>> {
    match selector {
        Some(s) => if no_key_where(installed, installed_selected(s)) {
            Err(msg_not_installed(s))
        } else {
            Ok(seq![choose|k: Seq<char>| first_key_where(installed, installed_selected(s), k)])
        },
        None => Ok(keys_in_order),
    }
}

/// The keys of installed content that a verification or update of `selector`
/// covers.
pub fn installed_targets(index: &ContentIndex, selector: Option<&str>) -> (r: Result<Vec<String>, String>)
    ensures
        match r {
            Ok(v) => match selector {
                Some(s) => v@.len() == 1 && first_key_where(index.installed_map(), installed_selected(s@), v@[0]@),
                None => strictly_sorted(v@.map_values(|x: String| x@))
                    && v@.map_values(|x: String| x@).to_set() == index.installed_map().dom(),
            },
            Err(e) => selector matches Some(s) && no_key_where(index.installed_map(), installed_selected(s@))
                && e@ == msg_not_installed(s@),
        },
{
    match selector {
        Some(s) => {
            let k = resolve_installed_selector(index, s)?;
            let mut v: Vec<String> = Vec::new();
            v.push(k);
            Ok(v)
        },
        None => Ok(index.installed_keys()),
    }
}

/// The keys of installed content an update of `selector` reinstalls; an
/// update with nothing installed is an error.
pub fn update_targets(index: &ContentIndex, selector: Option<&str>) -> (r: Result<Vec<String>, String>)
    ensures
        match r {
            Ok(v) => v@.len() > 0 && match selector {
                Some(s) => v@.len() == 1 && first_key_where(index.installed_map(), installed_selected(s@), v@[0]@),
                None => strictly_sorted(v@.map_values(|x: String| x@))
                    && v@.map_values(|x: String| x@).to_set() == index.installed_map().dom(),
            },
            Err(e) => (selector matches Some(s) && no_key_where(index.installed_map(), installed_selected(s@))
                && e@ == msg_not_installed(s@))
                || (selector.is_none() && index.installed_map().dom().len() == 0 && e@ == "no installed content to update"@),
        },
{
    let targets = installed_targets(index, selector)?;
    if targets.len() == 0 {
        proof {
            if selector.is_none() {
                assert(targets@.map_values(|x: String| x@) =~= Seq::<Seq<char>>::empty());
                assert(index.installed_map().dom() =~= Set::<Seq<char>>::empty());
            }
        }
        return Err(owned("no installed content to update"));
    }
    Ok(targets)
}

/// A move of installed content between the enabled and disabled trees.
#[derive(Debug)]
pub struct EnabledMove {
    /// Key of the moved content.
    pub artifact_id: String,
    /// Root the content is moved from.
    pub from_root: String,
    /// Root the content is moved to.
    pub to_root: String,
}

/// Plan moving the installed content `selector` resolves to into the enabled
/// tree (`enable`) or the disabled tree.
pub fn enabled_move(index: &ContentIndex, layout: &ContentLayout, selector: &str, enable: bool) -> (r: Result<EnabledMove, String>)
    ensures
        match r {
            Ok(m) => first_key_where(index.installed_map(), installed_selected(selector@), m.artifact_id@)
                && m.from_root@ == join(if enable { layout.disabled@ } else { layout.installed@ }, m.artifact_id@)
                && m.to_root@ == join(if enable { layout.installed@ } else { layout.disabled@ }, m.artifact_id@),
            Err(e) => no_key_where(index.installed_map(), installed_selected(selector@)) && e@ == msg_not_installed(selector@),
        },
{
    let artifact_id = resolve_installed_selector(index, selector)?;
    let disabled = join_path(layout.disabled.as_str(), artifact_id.as_str());
    let installed = join_path(layout.installed.as_str(), artifact_id.as_str());
    if enable {
        Ok(EnabledMove { artifact_id, from_root: disabled, to_root: installed })
    } else {
        Ok(EnabledMove { artifact_id, from_root: installed, to_root: disabled })
    }
}

/// Message for a move whose source root is missing.
pub open spec fn msg_move_root_missing(enable: bool, artifact_id: Seq<char>, from_root: Seq<char>) -> Seq<char> {
    "cannot "@ + (if enable { "enable"@ } else { "disable"@ }) + " "@ + artifact_id + ": expected artifact root is missing at "@ + from_root
}

/// The error for a planned move whose source root does not exist.
pub fn move_root_missing(m: &EnabledMove, enable: bool) -> (r: String)
    ensures
        r@ == msg_move_root_missing(enable, m.artifact_id@, m.from_root@),
{
    let verb = if enable { "enable" } else { "disable" };
    concat5("cannot ", verb, " ", m.artifact_id.as_str(), concat(": expected artifact root is missing at ", m.from_root.as_str()).as_str())
}

/// Plan enabling disabled content.
pub fn enable(index: &ContentIndex, layout: &ContentLayout, selector: &str) -> (r: Result<EnabledMove, String>)
    ensures
        match r {
            Ok(m) => first_key_where(index.installed_map(), installed_selected(selector@), m.artifact_id@)
                && m.from_root@ == join(layout.disabled@, m.artifact_id@)
                && m.to_root@ == join(layout.installed@, m.artifact_id@),
            Err(e) => no_key_where(index.installed_map(), installed_selected(selector@)) && e@ == msg_not_installed(selector@),
        },
{
    enabled_move(index, layout, selector, true)
}

/// Plan disabling installed content without deleting its root.
pub fn disable(index: &ContentIndex, layout: &ContentLayout, selector: &str) -> (r: Result<EnabledMove, String>)
    ensures
        match r {
            Ok(m) => first_key_where(index.installed_map(), installed_selected(selector@), m.artifact_id@)
                && m.from_root@ == join(layout.installed@, m.artifact_id@)
                && m.to_root@ == join(layout.disabled@, m.artifact_id@),
            Err(e) => no_key_where(index.installed_map(), installed_selected(selector@)) && e@ == msg_not_installed(selector@),
        },
{
    enabled_move(index, layout, selector, false)
}

/// `after` is `before` moved into the enabled tree (`enable`) or the
/// disabled tree, now at `root` with `fingerprint`; nothing else differs.
pub open spec fn moved_record(before: InstalledRecord, after: InstalledRecord, enable: bool, root: Seq<char>, fingerprint: Fingerprint) -> bool {
    &&& after.enabled == enable
    &&& after.installed_root@ == root
    &&& after.fingerprint == fingerprint
    &&& after.artifact_id == before.artifact_id
    &&& after.kind == before.kind
    &&& after.version == before.version
    &&& after.workshop_id == before.workshop_id
    &&& after.dependencies == before.dependencies
    &&& after.conflicts == before.conflicts
    &&& after.installed_at == before.installed_at
    &&& after.source == before.source
}

/// Two records agree in every field, the root compared as text.
pub open spec fn same_record(a: InstalledRecord, b: InstalledRecord) -> bool {
    moved_record(b, a, b.enabled, b.installed_root@, b.fingerprint)
}

/// Record the completed move of `record`'s content: its state, root, and the
/// fingerprint observed at the new root.
pub fn record_move(record: &mut InstalledRecord, enable: bool, to_root: String, fingerprint: Fingerprint)
    ensures
        moved_record(*old(record), *final(record), enable, to_root@, fingerprint),
        final(record).enabled == enable,
        final(record).installed_root == to_root,
        final(record).fingerprint == fingerprint,
        final(record).artifact_id == old(record).artifact_id,
        final(record).kind == old(record).kind,
        final(record).version == old(record).version,
        final(record).workshop_id == old(record).workshop_id,
        final(record).dependencies == old(record).dependencies,
        final(record).conflicts == old(record).conflicts,
        final(record).installed_at == old(record).installed_at,
        final(record).source == old(record).source,
{
    record.enabled = enable;
    record.installed_root = to_root;
    record.fingerprint = fingerprint;
}

/// The two roots an uninstall removes when present: enabled, then disabled.
pub fn uninstall_roots(layout: &ContentLayout, artifact_id: &str) -> (r: (String, String))
    ensures
        r.0@ == join(layout.installed@, artifact_id@),
        r.1@ == join(layout.disabled@, artifact_id@),
{
    (join_path(layout.installed.as_str(), artifact_id), join_path(layout.disabled.as_str(), artifact_id))
}

/// Record the uninstall of installed content `artifact_id` (the key its
/// selector resolved to), once its enabled and disabled roots were removed
/// (`removed` says whether either existed): the index forgets it and nothing
/// else, and the report names it, says whether a root was removed, and
/// gives the receipt written under the receipts directory at `now`.
pub fn record_uninstall(index: &mut ContentIndex, layout: &ContentLayout, artifact_id: &str, removed: bool, now: u64) -> (r: UninstallReport)
    ensures
        final(index).installed_map() == old(index).installed_map().remove(artifact_id@),
        final(index).cache_map() == old(index).cache_map(),
        r.artifact_id@ == artifact_id@,
        r.removed == removed,
        r.receipt@ == receipt_path(*layout, now, "uninstall"@, artifact_id@),
{
    index.remove_installed(artifact_id);
    let name = receipt_file_name(now, "uninstall", artifact_id);
    UninstallReport { artifact_id: owned(artifact_id), removed, receipt: join_path(layout.receipts.as_str(), name.as_str()) }
}

/// Uninstalling content and then looking it up: the index no longer holds
/// it, still holds every other record unchanged, and its selector (its key)
/// no longer resolves to it.
pub proof fn law_uninstall_forgets(before: Map<Seq<char>, InstalledRecord>, key: Seq<char>, other: Seq<char>)
    ensures
        !before.remove(key).dom().contains(key),
        other != key ==> before.remove(key).dom().contains(other) == before.dom().contains(other),
        other != key && before.dom().contains(other) ==> before.remove(key)[other] == before[other],
        !first_key_where(before.remove(key), installed_selected(key), key),
{
}

/// Receipt status of an uninstall.
pub fn uninstall_status(removed: bool) -> (r: &'static str)
    ensures
        r@ == (if removed { "removed"@ } else { "not-present"@ }),
{
    if removed { "removed" } else { "not-present" }
}

/// Whether clearing a selection is due after uninstalling `artifact_id`: the
/// current selection names it.
pub fn uninstall_clears_selection(current: &Option<PackagepackSelection>, artifact_id: &str) -> (r: bool)
    ensures
        r == (current matches Some(s) && s.artifact_id@ == artifact_id@),
{
    match current {
        Some(s) => str_eq(s.artifact_id.as_str(), artifact_id),
        None => false,
    }
}

/// Message for selecting content that is not a packagepack.
pub open spec fn msg_not_packagepack(artifact_id: Seq<char>, kind: Seq<char>) -> Seq<char> {
    "selected content must be a packagepack: "@ + artifact_id + " is "@ + kind
}

/// Select the installed packagepack that `selector` resolves to, at
/// `selected_at`; `root_exists` tells whether its installed root exists.
pub fn select_packagepack(index: &ContentIndex, selector: &str, root_exists: bool, selected_at: u64) -> (r: Result<PackagepackSelection, String>)
    ensures
        no_key_where(index.installed_map(), installed_selected(selector@)) ==> (r matches Err(e) && e@ == msg_not_installed(selector@)),
        !no_key_where(index.installed_map(), installed_selected(selector@)) ==> ({
            let k = choose|k: Seq<char>| first_key_where(index.installed_map(), installed_selected(selector@), k);
            let rec = index.installed_map()[k];
            if rec.kind@ != "packagepack"@ {
                r matches Err(e) && e@ == msg_not_packagepack(k, rec.kind@)
            } else if !rec.enabled {
                r matches Err(e) && e@ == "cannot select disabled packagepack: "@ + k
            } else if !root_exists {
                r matches Err(e) && e@ == "cannot select packagepack with missing artifact root: "@ + rec.installed_root@
            } else {
                r matches Ok(s) && s.schema_version == CONTENT_STATE_SCHEMA && s.artifact_id@ == k
                    && s.installed_root == rec.installed_root && s.fingerprint == rec.fingerprint
                    && s.selected_at == selected_at
            }
        }),
{
    let artifact_id = resolve_installed_selector(index, selector)?;
    proof {
        crate::install::lemma_first_key_unique(index.installed_map(), installed_selected(selector@), artifact_id@,
            choose|k: Seq<char>| first_key_where(index.installed_map(), installed_selected(selector@), k));
    }
    let record = match index.installed(artifact_id.as_str()) {
        Some(r) => r,
        None => {
            return Err(concat("content is not installed: ", artifact_id.as_str()));
        },
    };
    if !str_eq(record.kind.as_str(), "packagepack") {
        return Err(concat4("selected content must be a packagepack: ", artifact_id.as_str(), " is ", record.kind.as_str()));
    }
    if !record.enabled {
        return Err(concat("cannot select disabled packagepack: ", artifact_id.as_str()));
    }
    if !root_exists {
        return Err(concat("cannot select packagepack with missing artifact root: ", record.installed_root.as_str()));
    }
    Ok(PackagepackSelection {
        schema_version: CONTENT_STATE_SCHEMA,
        installed_root: record.installed_root.clone(),
        fingerprint: record.fingerprint.duplicate(),
        artifact_id,
        selected_at,
    })
}

/// `r` is the verification of installed content `artifact_id`, given what
/// was observed at its root: nothing when the root is missing, else the
/// fingerprint computed there or the error computing it.
pub open spec fn verified_as(installed: Map<Seq<char>, InstalledRecord>, artifact_id: Seq<char>, observed: Option<Result<Fingerprint, String>>, r: VerifyReport) -> bool {
    &&& r.artifact_id@ == artifact_id
    &&& !installed.dom().contains(artifact_id) ==> !r.ok && r.expected.is_none() && r.observed.is_none()
        && r.detail@ == "not installed"@
    &&& installed.dom().contains(artifact_id) ==> ({
        let rec = installed[artifact_id];
        &&& r.expected == Some(rec.fingerprint)
        &&& match observed {
            None => !r.ok && r.observed.is_none()
                && r.detail@ == "installed artifact root is missing: "@ + rec.installed_root@,
            Some(Ok(f)) => r.observed == Some(f) && r.ok == same_fingerprint(f, rec.fingerprint)
                && r.detail@ == (if same_fingerprint(f, rec.fingerprint) { "fingerprint matches"@ } else { "fingerprint mismatch"@ }),
            Some(Err(e)) => !r.ok && r.observed.is_none() && r.detail == e,
        }
    })
}

/// The verification of installed content `artifact_id`, given what was
/// observed at its root: nothing when the root is missing, else the
/// fingerprint computed there or the error computing it.
pub fn verify_one(index: &ContentIndex, artifact_id: &str, observed: Option<Result<Fingerprint, String>>) -> (r: VerifyReport)
    ensures
        verified_as(index.installed_map(), artifact_id@, observed, r),
{
    let id = artifact_id.to_owned();
    let record = match index.installed(artifact_id) {
        Some(r) => r,
        None => {
            return VerifyReport { artifact_id: id, ok: false, expected: None, observed: None, detail: owned("not installed") };
        },
    };
    let expected = Some(record.fingerprint.duplicate());
    match observed {
        None => VerifyReport {
            artifact_id: id,
            ok: false,
            expected,
            observed: None,
            detail: concat("installed artifact root is missing: ", record.installed_root.as_str()),
        },
        Some(Ok(f)) => {
            let ok = f.matches(&record.fingerprint);
            let detail = if ok { owned("fingerprint matches") } else { owned("fingerprint mismatch") };
            VerifyReport { artifact_id: id, ok, expected, observed: Some(f), detail }
        },
        Some(Err(e)) => VerifyReport { artifact_id: id, ok: false, expected, observed: None, detail: e },
    }
}

/// Verifying installed content against a fingerprint observed at its root
/// fails with "fingerprint mismatch" whenever the observed hash differs from
/// the recorded one (even with the same algorithm, file count and byte
/// count), and succeeds with "fingerprint matches" when the observation
/// equals the record.
pub proof fn law_verify_rejects_changed_hash(
    installed: Map<Seq<char>, InstalledRecord>,
    artifact_id: Seq<char>,
    f: Fingerprint,
    r: VerifyReport,
)
    requires
        installed.dom().contains(artifact_id),
        verified_as(installed, artifact_id, Some(Ok(f)), r),
    ensures
        f.hash@ != installed[artifact_id].fingerprint.hash@ ==> !r.ok && r.detail@ == "fingerprint mismatch"@,
        f == installed[artifact_id].fingerprint ==> r.ok && r.detail@ == "fingerprint matches"@,
        r.expected == Some(installed[artifact_id].fingerprint),
        r.observed == Some(f),
{
}

/// The verification of every target, in order, each against what was
/// observed at its root (`observed[i]` for `targets[i]`).
pub fn verify_all(index: &ContentIndex, targets: &[String], observed: Vec<Option<Result<Fingerprint, String>>>) -> (r: Vec<VerifyReport>)
    requires
        targets@.len() == observed@.len(),
    ensures
        r@.len() == targets@.len(),
        forall|i: int| 0 <= i < targets@.len() ==> verified_as(index.installed_map(), targets@[i]@, observed@[i], #[trigger] r@[i]),
{
    let ghost seen = observed@;
    let mut rest = observed;
    let mut out: Vec<VerifyReport> = Vec::new();
    let mut i: usize = 0;
    proof {
        assert(rest@ =~= seen.subrange(0, seen.len() as int));
    }
    while i < targets.len()
        invariant
            i <= targets@.len(),
            targets@.len() == seen.len(),
            rest@ == seen.subrange(i as int, seen.len() as int),
            out@.len() == i,
            forall|k: int| 0 <= k < i ==> verified_as(index.installed_map(), targets@[k]@, seen[k], #[trigger] out@[k]),
        decreases targets@.len() - i,
    {
        let ghost before = rest@;
        let obs = rest.remove(0);
        proof {
            assert(obs == seen[i as int]);
            assert(rest@ =~= seen.subrange(i + 1, seen.len() as int));
        }
        let report = verify_one(index, targets[i].as_str(), obs);
        out.push(report);
        i = i + 1;
    }
    out
}

/// Where corrupted content is quarantined before a repair.
pub fn quarantine_root(layout: &ContentLayout, artifact_id: &str, now: u64) -> (r: String)
    ensures
        r@ == join(layout.quarantine@, slug_of(artifact_id@) + "-"@ + decimal(now as nat)),
{
    let s = slug(artifact_id);
    let name = concat3(s.as_str(), "-", decimal_string(now).as_str());
    join_path(layout.quarantine.as_str(), name.as_str())
}

/// Message for a Workshop operation on an artifact without an AppID.
pub open spec fn msg_no_app_id(artifact: ContentArtifact, action: Seq<char>) -> Seq<char> {
    artifact.id@ + " has no ["@ + kind_label(artifact.kind) + ".steam].app-id and cannot be "@ + action
}

/// Authority checks in front of creating a Workshop item for `selector`;
/// the position of the artifact to package when they pass.
pub fn create_workshop_item_for_targets(
    catalog: &ContentCatalog,
    selector: &str,
    account: Option<&str>,
    dry_run: bool,
    confirmed: bool,
) -> (r: Result<usize, String>)
    ensures
        ({
            let arts = catalog.artifacts@;
            let at = first_selected(arts, selector@);
            if at < 0 {
                r matches Err(e) && e@ == msg_unknown_artifact(selector@)
            } else if arts[at].workshop.app_id.is_none() {
                r matches Err(e) && e@ == msg_no_app_id(arts[at], "created on Workshop"@)
            } else if !dry_run && arts[at].workshop.published_file_id.is_some() {
                r matches Err(e) && e@ == arts[at].id@ + " already has PublishedFileId "@
                    + arts[at].workshop.published_file_id.unwrap()@ + "; use `content publish` for updates"@
            } else if !dry_run && !has_account(opt_str(account)) {
                r matches Err(e) && e@ == "real Workshop creation requires --account ACCOUNT after reviewing --dry-run"@
            } else if !dry_run && !confirmed {
                r matches Err(e) && e@ == "real Workshop creation requires --yes after reviewing --dry-run"@
            } else {
                r == Ok::<usize, String>(at as usize)
            }
        }),
{
    proof {
        lemma_first_selected(catalog.artifacts@, selector@);
        assert(catalog.artifacts.len() == catalog.artifacts@.len());
    }
    let at = match catalog.position(selector) {
        Some(i) => i,
        None => {
            return Err(unknown_artifact(selector));
        },
    };
    let a = &catalog.artifacts[at];
    if a.workshop.app_id.is_none() {
        return Err(concat5(a.id.as_str(), " has no [", a.kind.label(), ".steam].app-id and cannot be ", "created on Workshop"));
    }
    if !dry_run {
        match &a.workshop.published_file_id {
            Some(p) => {
                return Err(concat4(a.id.as_str(), " already has PublishedFileId ", p.as_str(), "; use `content publish` for updates"));
            },
            None => {},
        }
        if !account_given(account) {
            return Err(owned("real Workshop creation requires --account ACCOUNT after reviewing --dry-run"));
        }
        if !confirmed {
            return Err(owned("real Workshop creation requires --yes after reviewing --dry-run"));
        }
    }
    Ok(at)
}

/// The error, if any, that the per-artifact checks of a publication raise.
pub open spec fn publish_artifact_error(arts: Seq<ContentArtifact>, selector: Seq<char>, dry_run: bool) -> Option<Seq<char>> {
    let at = first_selected(arts, selector);
    if at < 0 {
        Some(msg_unknown_artifact(selector))
    } else if arts[at].workshop.app_id.is_none() {
        Some(msg_no_app_id(arts[at], "published"@))
    } else if arts[at].workshop.published_file_id.is_none() && !dry_run {
        Some(arts[at].id@ + " has no PublishedFileId; run `content create "@ + arts[at].name@
            + " --dry-run` and create the item manually before a real update"@)
    } else {
        None
    }
}

/// Index of the first selector whose checks fail, or -1.
pub open spec fn first_publish_error(arts: Seq<ContentArtifact>, selectors: Seq<Seq<char>>, dry_run: bool) -> int
    decreases selectors.len(),
{
    if selectors.len() == 0 {
        -1
    } else if publish_artifact_error(arts, selectors[0], dry_run).is_some() {
        0
    } else if first_publish_error(arts, selectors.drop_first(), dry_run) < 0 {
        -1
    } else {
        first_publish_error(arts, selectors.drop_first(), dry_run) + 1
    }
}

proof fn lemma_first_publish_error(arts: Seq<ContentArtifact>, selectors: Seq<Seq<char>>, dry_run: bool)
    ensures
        -1 <= first_publish_error(arts, selectors, dry_run) < selectors.len(),
        first_publish_error(arts, selectors, dry_run) >= 0
            ==> publish_artifact_error(arts, selectors[first_publish_error(arts, selectors, dry_run)], dry_run).is_some(),
        forall|k: int| 0 <= k < selectors.len() && (first_publish_error(arts, selectors, dry_run) < 0 || k < first_publish_error(arts, selectors, dry_run))
            ==> publish_artifact_error(arts, #[trigger] selectors[k], dry_run).is_none(),
    decreases selectors.len(),
{
    if selectors.len() > 0 && publish_artifact_error(arts, selectors[0], dry_run).is_none() {
        lemma_first_publish_error(arts, selectors.drop_first(), dry_run);
        assert forall|k: int| 1 <= k < selectors.len() implies selectors[k] == selectors.drop_first()[k - 1] by {}
    }
}

/// Authority checks in front of publishing `selectors`, given the discovered
/// catalog; the catalog positions of the artifacts to package, in order, when
/// they pass.
pub fn publish_workshop_items_for_targets(
    catalog: &Result<ContentCatalog, String>,
    selectors: &[String],
    account: Option<&str>,
    dry_run: bool,
    confirmed: bool,
) -> (r: Result<Vec<usize>, String>)
    ensures
        selectors@.len() == 0 ==> (r matches Err(e) && e@ == "at least one Workshop artifact is required"@),
        selectors@.len() > 0 ==> match *catalog {
            Err(e) => r matches Err(m) && m@ == e@,
            Ok(c) => if !dry_run && !has_account(opt_str(account)) {
                r matches Err(e) && e@ == "real Workshop publication requires --account ACCOUNT after reviewing --dry-run"@
            } else if !dry_run && !confirmed {
                r matches Err(e) && e@ == "real Workshop publication requires --yes after reviewing --dry-run"@
            } else {
                let sv = string_views(selectors@);
                let k = first_publish_error(c.artifacts@, sv, dry_run);
                if k >= 0 {
                    r matches Err(e) && Some(e@) == publish_artifact_error(c.artifacts@, sv[k], dry_run)
                } else {
                    r matches Ok(v) && v@.len() == selectors@.len() && forall|i: int| 0 <= i < v@.len()
                        ==> #[trigger] v@[i] as int == first_selected(c.artifacts@, sv[i])
                }
            },
        },
{
    if selectors.len() == 0 {
        return Err(owned("at least one Workshop artifact is required"));
    }
    let c = match catalog {
        Ok(c) => c,
        Err(e) => {
            return Err(e.clone());
        },
    };
    if !dry_run && !account_given(account) {
        return Err(owned("real Workshop publication requires --account ACCOUNT after reviewing --dry-run"));
    }
    if !dry_run && !confirmed {
        return Err(owned("real Workshop publication requires --yes after reviewing --dry-run"));
    }
    let ghost sv = string_views(selectors@);
    proof {
        lemma_first_publish_error(c.artifacts@, sv, dry_run);
    }
    proof {
        assert(c.artifacts.len() == c.artifacts@.len());
    }
    let mut out: Vec<usize> = Vec::new();
    let mut i: usize = 0;
    while i < selectors.len()
        invariant
            i <= selectors@.len(),
            c.artifacts@.len() <= usize::MAX,
            sv == string_views(selectors@),
            dry_run || (has_account(opt_str(account)) && confirmed),
            *catalog matches Ok(cc) && cc == *c,
            out@.len() == i,
            forall|j: int| 0 <= j < i ==> publish_artifact_error(c.artifacts@, #[trigger] sv[j], dry_run).is_none(),
            forall|j: int| 0 <= j < i ==> #[trigger] out@[j] as int == first_selected(c.artifacts@, sv[j]),
            -1 <= first_publish_error(c.artifacts@, sv, dry_run) < sv.len(),
            first_publish_error(c.artifacts@, sv, dry_run) >= 0
                ==> publish_artifact_error(c.artifacts@, sv[first_publish_error(c.artifacts@, sv, dry_run)], dry_run).is_some(),
            forall|k: int| 0 <= k < sv.len() && (first_publish_error(c.artifacts@, sv, dry_run) < 0 || k < first_publish_error(c.artifacts@, sv, dry_run))
                ==> publish_artifact_error(c.artifacts@, #[trigger] sv[k], dry_run).is_none(),
        decreases selectors@.len() - i,
    {
        let selector = selectors[i].as_str();
        assert(sv[i as int] == selector@);
        proof {
            lemma_first_selected(c.artifacts@, selector@);
        }
        let at = match c.position(selector) {
            Some(p) => p,
            None => {
                assert(publish_artifact_error(c.artifacts@, sv[i as int], dry_run).is_some());
                assert(first_publish_error(c.artifacts@, sv, dry_run) == i as int);
                assert(publish_artifact_error(c.artifacts@, sv[i as int], dry_run) == Some(msg_unknown_artifact(selector@)));
                let m = unknown_artifact(selector);
                assert(Some(m@) == publish_artifact_error(c.artifacts@, sv[first_publish_error(c.artifacts@, sv, dry_run)], dry_run));
                assert(string_views(selectors@) == sv);
                return Err(m);
            },
        };
        let a = &c.artifacts[at];
        if a.workshop.app_id.is_none() {
            assert(publish_artifact_error(c.artifacts@, sv[i as int], dry_run).is_some());
            assert(first_publish_error(c.artifacts@, sv, dry_run) == i as int);
            return Err(concat5(a.id.as_str(), " has no [", a.kind.label(), ".steam].app-id and cannot be ", "published"));
        }
        if a.workshop.published_file_id.is_none() && !dry_run {
            assert(publish_artifact_error(c.artifacts@, sv[i as int], dry_run).is_some());
            assert(first_publish_error(c.artifacts@, sv, dry_run) == i as int);
            return Err(concat4(a.id.as_str(), " has no PublishedFileId; run `content create ", a.name.as_str(),
                " --dry-run` and create the item manually before a real update"));
        }
        out.push(at);
        i = i + 1;
    }
    assert(first_publish_error(c.artifacts@, sv, dry_run) < 0);
    Ok(out)
}

/// Where the receipt of an operation on `artifact_id` taken at `timestamp`
/// is written.
pub open spec fn receipt_path(layout: ContentLayout, timestamp: u64, action: Seq<char>, artifact_id: Seq<char>) -> Seq<char> {
    join(layout.receipts@, decimal(timestamp as nat) + "-"@ + action + "-"@ + slug_of(artifact_id) + ".toml"@)
}

/// Detail recorded in the receipt of a Workshop deletion preview.
pub const DELETE_PREVIEW_DETAIL: &'static str = "would delete or retire the PublishedFileId through SteamUGC";

/// A Workshop deletion: only a confirmed preview is possible. The preview
/// reports the selector, no provider script, no upload and no
/// PublishedFileId, with its receipt (status `dry-run`, detail
/// [`DELETE_PREVIEW_DETAIL`]) written under the receipts directory at `now`.
pub fn delete_workshop_item(layout: &ContentLayout, selector: &str, dry_run: bool, confirmed: bool, now: u64) -> (r: Result<WorkshopOperationReport, String>)
    ensures
        !dry_run && !confirmed ==> (r matches Err(e) && e@ == "real Workshop deletion requires --yes after reviewing --dry-run"@),
        !dry_run && confirmed ==> (r matches Err(e) && e@
            == "real Workshop deletion requires the controlled SteamUGC provider; this build can only preview deletion"@),
        dry_run ==> (r matches Ok(w) && w.artifact_id@ == selector@ && w.script.is_none() && !w.uploaded
            && w.published_file_id.is_none() && w.receipt@ == receipt_path(*layout, now, "workshop-delete"@, selector@)),
{
    if !dry_run && !confirmed {
        return Err(owned("real Workshop deletion requires --yes after reviewing --dry-run"));
    }
    if !dry_run {
        return Err(owned("real Workshop deletion requires the controlled SteamUGC provider; this build can only preview deletion"));
    }
    let name = receipt_file_name(now, "workshop-delete", selector);
    Ok(WorkshopOperationReport {
        artifact_id: owned(selector),
        script: None,
        receipt: join_path(layout.receipts.as_str(), name.as_str()),
        uploaded: false,
        published_file_id: None,
    })
}

/// Receipt status of a Workshop publication.
pub fn publish_receipt_status(dry_run: bool) -> (r: &'static str)
    ensures
        r@ == (if dry_run { "dry-run"@ } else { "uploaded"@ }),
{
    if dry_run { "dry-run" } else { "uploaded" }
}

/// Root where `artifact_id` is staged as a package.
pub fn package_root(layout: &ContentLayout, artifact_id: &str) -> (r: String)
    ensures
        r@ == join(layout.output_packages@, slug_of(artifact_id@)),
{
    let s = slug(artifact_id);
    join_path(layout.output_packages.as_str(), s.as_str())
}

/// Disabling enabled content and then enabling it again restores it: the
/// selector still picks the same key once the disable is recorded, so the
/// enable moves that content back from the disabled tree to the root it had,
/// and once the enable is recorded with the fingerprint the content had, its
/// record agrees with the original in every field; no other record changes.
pub proof fn law_disable_then_enable(
    before: Map<Seq<char>, InstalledRecord>,
    installed: Seq<char>,
    disabled: Seq<char>,
    selector: Seq<char>,
    key: Seq<char>,
    disabled_record: InstalledRecord,
    enabled_record: InstalledRecord,
    disabled_fingerprint: Fingerprint,
)
    requires
        first_key_where(before, installed_selected(selector), key),
        before[key].enabled,
        before[key].installed_root@ == join(installed, key),
        moved_record(before[key], disabled_record, false, join(disabled, key), disabled_fingerprint),
        moved_record(disabled_record, enabled_record, true, join(installed, key), before[key].fingerprint),
    ensures
        first_key_where(before.insert(key, disabled_record), installed_selected(selector), key),
        same_record(enabled_record, before[key]),
        before.insert(key, disabled_record).insert(key, enabled_record).dom() == before.dom(),
        forall|other: Seq<char>| other != key && before.dom().contains(other)
            ==> #[trigger] before.insert(key, disabled_record).insert(key, enabled_record)[other] == before[other],
{
    let mid = before.insert(key, disabled_record);
    assert(mid.dom() =~= before.dom());
    assert(mid.insert(key, enabled_record).dom() =~= before.dom());
    assert forall|k: Seq<char>| #[trigger] mid.dom().contains(k) && crate::text::text_lt(k, key)
        implies !(installed_selected(selector))(k, mid[k]) by {
        crate::text::lemma_text_lt_order(k, k);
        assert(k != key);
        assert(mid[k] == before[k]);
    }
}

} // verus!
