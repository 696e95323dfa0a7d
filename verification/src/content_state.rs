//! Generated content state: the installed-content index with its cache
//! records, and the names of the lock and receipt files written beside it.

use vstd::prelude::*;
use crate::text::{str_eq, text_lt, concat, concat5, decimal, decimal_string};
use crate::keyed::{keys_sorted, entry_map, entry_keys, strictly_sorted, find_key, get_value, upsert, remove_key, keys_in_order, lemma_entry_map_at};
use crate::content::{ContentArtifact, ContentReference, Fingerprint, CONTENT_STATE_SCHEMA, copy_optional, copy_references, slug, slug_of};
use crate::manifest::{kind_label, ContentKind};

verus! {

/// Installed-content record kept in the index and written as a lock.
#[derive(Debug)]
pub struct InstalledRecord {
    /// Installed artifact ID.
    pub artifact_id: String,
    /// Content kind label.
    pub kind: String,
    /// Installed version, when declared.
    pub version: Option<String>,
    /// Workshop item the artifact was published as, when known.
    pub workshop_id: Option<String>,
    /// Whether the artifact sits in the enabled tree.
    pub enabled: bool,
    /// Root of the installed artifact.
    pub installed_root: String,
    /// Fingerprint observed after installation.
    pub fingerprint: Fingerprint,
    /// Declared dependencies at install time.
    pub dependencies: Vec<ContentReference>,
    /// Declared conflicts at install time.
    pub conflicts: Vec<ContentReference>,
    /// Installation time in seconds since the Unix epoch.
    pub installed_at: u64,
    /// Where the payload came from (`source-package` or `cache`).
    pub source: String,
}

/// Package cache record kept in the index.
#[derive(Debug)]
pub struct CacheRecord {
    /// Cached artifact ID.
    pub artifact_id: String,
    /// Workshop item the package came from, when known.
    pub workshop_id: Option<String>,
    /// Root of the cached package.
    pub cache_root: String,
    /// Fingerprint of the cached package.
    pub fingerprint: Fingerprint,
    /// Acquisition time in seconds since the Unix epoch.
    pub acquired_at: u64,
}

/// The record to store for `artifact` once its payload sits at `installed_root`
/// with `fingerprint`: enabled, and carrying the artifact's declared references.
pub fn installed_record(
    artifact: &ContentArtifact,
    installed_root: String,
    fingerprint: Fingerprint,
    installed_at: u64,
    source: &str,
) -> (r: InstalledRecord)
    ensures
        r.artifact_id@ == artifact.id@,
        r.kind@ == kind_label(artifact.kind),
        r.version == artifact.version,
        r.workshop_id == artifact.workshop.published_file_id,
        r.enabled,
        r.installed_root == installed_root,
        r.fingerprint == fingerprint,
        r.dependencies@ == artifact.dependencies@,
        r.conflicts@ == artifact.conflicts@,
        r.installed_at == installed_at,
        r.source@ == source@,
{
    InstalledRecord {
        artifact_id: artifact.id.clone(),
        kind: artifact.kind.label().to_owned(),
        version: copy_optional(&artifact.version),
        workshop_id: copy_optional(&artifact.workshop.published_file_id),
        enabled: true,
        installed_root,
        fingerprint,
        dependencies: copy_references(artifact.dependencies.as_slice()),
        conflicts: copy_references(artifact.conflicts.as_slice()),
        installed_at,
        source: source.to_owned(),
    }
}

/// An index entry keyed `key` answers to `selector` by its key, its artifact ID,
/// or its Workshop item ID.
pub open spec fn entry_selected(key: Seq<char>, artifact_id: Seq<char>, workshop_id: Option<String>, selector: Seq<char>) -> bool {
    ||| key == selector
    ||| artifact_id == selector
    ||| (workshop_id matches Some(w) && w@ == selector)
}

/// `key` is the least key of `m` whose entry `chosen` accepts.
pub open spec fn first_key_where<T>(m: Map<Seq<char>, T>, chosen: spec_fn(Seq<char>, T) -> bool, key: Seq<char>) -> bool {
    &&& m.dom().contains(key)
    &&& chosen(key, m[key])
    &&& forall|k: Seq<char>| #[trigger] m.dom().contains(k) && text_lt(k, key) ==> !chosen(k, m[k])
}

/// No key of `m` has an entry that `chosen` accepts.
pub open spec fn no_key_where<T>(m: Map<Seq<char>, T>, chosen: spec_fn(Seq<char>, T) -> bool) -> bool {
    forall|k: Seq<char>| #[trigger] m.dom().contains(k) ==> !chosen(k, m[k])
}

/// Acceptance of an installed record by a selector.
pub open spec fn installed_selected(selector: Seq<char>) -> spec_fn(Seq<char>, InstalledRecord) -> bool {
    |k: Seq<char>, r: InstalledRecord| entry_selected(k, r.artifact_id@, r.workshop_id, selector)
}

/// Acceptance of a cache record by a selector.
pub open spec fn cache_selected(selector: Seq<char>) -> spec_fn(Seq<char>, CacheRecord) -> bool {
    |k: Seq<char>, r: CacheRecord| entry_selected(k, r.artifact_id@, r.workshop_id, selector)
}

/// The app-owned index of installed content and cached packages. Entries are
/// kept in key order, which is the order in which they are listed.
#[derive(Debug)]
pub struct ContentIndex {
    schema_version: u32,
    installed: Vec<(String, InstalledRecord)>,
    caches: Vec<(String, CacheRecord)>,
}

impl ContentIndex {
    #[verifier::type_invariant]
    spec fn sorted(self) -> bool {
        keys_sorted(self.installed@) && keys_sorted(self.caches@)
    }

    /// Schema version of the index.
    pub closed spec fn schema(self) -> u32 {
        self.schema_version
    }

    /// Installed records by artifact key.
    pub closed spec fn installed_map(self) -> Map<Seq<char>, InstalledRecord> {
        entry_map(self.installed@)
    }

    /// Cache records by artifact key.
    pub closed spec fn cache_map(self) -> Map<Seq<char>, CacheRecord> {
        entry_map(self.caches@)
    }

    /// An empty index of the current schema.
    pub fn new() -> (r: Self)
        ensures
            r.schema() == CONTENT_STATE_SCHEMA,
            r.installed_map() == Map::<Seq<char>, InstalledRecord>::empty(),
            r.cache_map() == Map::<Seq<char>, CacheRecord>::empty(),
    {
        let r = ContentIndex { schema_version: CONTENT_STATE_SCHEMA, installed: Vec::new(), caches: Vec::new() };
        proof {
            assert(r.installed_map() =~= Map::<Seq<char>, InstalledRecord>::empty());
            assert(r.cache_map() =~= Map::<Seq<char>, CacheRecord>::empty());
        }
        r
    }

    /// An empty index as read with `schema_version`; an index written before
    /// versioning (schema 0) is read as the current schema.
    pub fn with_schema(schema_version: u32) -> (r: Self)
        ensures
            r.schema() == (if schema_version == 0 { CONTENT_STATE_SCHEMA } else { schema_version }),
            r.installed_map() == Map::<Seq<char>, InstalledRecord>::empty(),
            r.cache_map() == Map::<Seq<char>, CacheRecord>::empty(),
    {
        let r = ContentIndex {
            schema_version: if schema_version == 0 { CONTENT_STATE_SCHEMA } else { schema_version },
            installed: Vec::new(),
            caches: Vec::new(),
        };
        proof {
            assert(r.installed_map() =~= Map::<Seq<char>, InstalledRecord>::empty());
            assert(r.cache_map() =~= Map::<Seq<char>, CacheRecord>::empty());
        }
        r
    }

    /// Schema version of the index.
    pub fn schema_version(&self) -> (r: u32)
        ensures
            r == self.schema(),
    {
        self.schema_version
    }

    /// Keys of the installed records, in ascending order.
    pub fn installed_keys(&self) -> (r: Vec<String>)
        ensures
            strictly_sorted(r@.map_values(|s: String| s@)),
            r@.map_values(|s: String| s@).to_set() == self.installed_map().dom(),
    {
        proof {
            use_type_invariant(self);
        }
        keys_in_order(&self.installed)
    }

    /// Keys of the cache records, in ascending order.
    pub fn cache_keys(&self) -> (r: Vec<String>)
        ensures
            strictly_sorted(r@.map_values(|s: String| s@)),
            r@.map_values(|s: String| s@).to_set() == self.cache_map().dom(),
    {
        proof {
            use_type_invariant(self);
        }
        keys_in_order(&self.caches)
    }

    /// The installed record stored under `key`.
    pub fn installed(&self, key: &str) -> (r: Option<&InstalledRecord>)
        ensures
            match r {
                Some(x) => self.installed_map().dom().contains(key@) && *x == self.installed_map()[key@],
                None => !self.installed_map().dom().contains(key@),
            },
    {
        proof {
            use_type_invariant(self);
        }
        get_value(&self.installed, key)
    }

    /// The cache record stored under `key`.
    pub fn cache(&self, key: &str) -> (r: Option<&CacheRecord>)
        ensures
            match r {
                Some(x) => self.cache_map().dom().contains(key@) && *x == self.cache_map()[key@],
                None => !self.cache_map().dom().contains(key@),
            },
    {
        proof {
            use_type_invariant(self);
        }
        get_value(&self.caches, key)
    }

    /// Whether content `key` is installed and enabled.
    pub fn is_enabled(&self, key: &str) -> (r: bool)
        ensures
            r == (self.installed_map().dom().contains(key@) && self.installed_map()[key@].enabled),
    {
        match self.installed(key) {
            Some(record) => record.enabled,
            None => false,
        }
    }

    /// Store `record` under `key`, replacing an earlier record.
    pub fn insert_installed(&mut self, key: String, record: InstalledRecord)
        ensures
            final(self).schema() == old(self).schema(),
            final(self).installed_map() == old(self).installed_map().insert(key@, record),
            final(self).cache_map() == old(self).cache_map(),
    {
        proof {
            use_type_invariant(&*self);
        }
        let mut entries: Vec<(String, InstalledRecord)> = Vec::new();
        std::mem::swap(&mut entries, &mut self.installed);
        upsert(&mut entries, key, record);
        self.installed = entries;
    }

    /// Remove the installed record stored under `key`, if any.
    pub fn remove_installed(&mut self, key: &str)
        ensures
            final(self).schema() == old(self).schema(),
            final(self).installed_map() == old(self).installed_map().remove(key@),
            final(self).cache_map() == old(self).cache_map(),
    {
        proof {
            use_type_invariant(&*self);
        }
        let mut entries: Vec<(String, InstalledRecord)> = Vec::new();
        std::mem::swap(&mut entries, &mut self.installed);
        remove_key(&mut entries, key);
        self.installed = entries;
    }

    /// Store `record` under `key`, replacing an earlier cache record.
    pub fn insert_cache(&mut self, key: String, record: CacheRecord)
        ensures
            final(self).schema() == old(self).schema(),
            final(self).installed_map() == old(self).installed_map(),
            final(self).cache_map() == old(self).cache_map().insert(key@, record),
    {
        proof {
            use_type_invariant(&*self);
        }
        let mut entries: Vec<(String, CacheRecord)> = Vec::new();
        std::mem::swap(&mut entries, &mut self.caches);
        upsert(&mut entries, key, record);
        self.caches = entries;
    }

    /// The first cache entry, in key order, that answers to `selector` by key,
    /// artifact ID, or Workshop item ID.
    pub fn cache_by_selector(&self, selector: &str) -> (r: Option<(String, &CacheRecord)>)
        ensures
            match r {
                Some((k, c)) => first_key_where(self.cache_map(), cache_selected(selector@), k@) && *c == self.cache_map()[k@],
                None => no_key_where(self.cache_map(), cache_selected(selector@)),
            },
    {
        proof {
            use_type_invariant(self);
        }
        let ghost s = self.caches@;
        let mut i: usize = 0;
        while i < self.caches.len()
            invariant
                s == self.caches@,
                keys_sorted(s),
                i <= s.len(),
                forall|j: int| 0 <= j < i ==> !entry_selected(#[trigger] s[j].0@, s[j].1.artifact_id@, s[j].1.workshop_id, selector@),
            decreases s.len() - i,
        {
            let entry = &self.caches[i];
            let hit = str_eq(entry.0.as_str(), selector) || str_eq(entry.1.artifact_id.as_str(), selector)
                || match &entry.1.workshop_id {
                Some(w) => str_eq(w.as_str(), selector),
                None => false,
            };
            if hit {
                proof {
                    lemma_entry_map_at(s, i as int);
                    assert forall|k: Seq<char>| #[trigger] entry_map(s).dom().contains(k) && text_lt(k, s[i as int].0@)
                        implies !(cache_selected(selector@))(k, entry_map(s)[k]) by {
                        let j = choose|j: int| 0 <= j < s.len() && #[trigger] s[j].0@ == k;
                        lemma_entry_map_at(s, j);
                        if j >= i {
                            if j > i {
                                assert(text_lt(s[i as int].0@, s[j].0@));
                            }
                            crate::text::lemma_text_lt_order(k, s[i as int].0@);
                        }
                    }
                }
                return Some((entry.0.clone(), &entry.1));
            }
            i = i + 1;
        }
        proof {
            assert forall|k: Seq<char>| #[trigger] entry_map(s).dom().contains(k) implies !(cache_selected(selector@))(k, entry_map(s)[k]) by {
                let j = choose|j: int| 0 <= j < s.len() && #[trigger] s[j].0@ == k;
                lemma_entry_map_at(s, j);
            }
        }
        None
    }

    /// Key of the first installed entry, in key order, that answers to
    /// `selector` by key, artifact ID, or Workshop item ID.
    pub fn installed_by_selector(&self, selector: &str) -> (r: Option<String>)
        ensures
            match r {
                Some(k) => first_key_where(self.installed_map(), installed_selected(selector@), k@),
                None => no_key_where(self.installed_map(), installed_selected(selector@)),
            },
    {
        proof {
            use_type_invariant(self);
        }
        let ghost s = self.installed@;
        let mut i: usize = 0;
        while i < self.installed.len()
            invariant
                s == self.installed@,
                keys_sorted(s),
                i <= s.len(),
                forall|j: int| 0 <= j < i ==> !entry_selected(#[trigger] s[j].0@, s[j].1.artifact_id@, s[j].1.workshop_id, selector@),
            decreases s.len() - i,
        {
            let entry = &self.installed[i];
            let hit = str_eq(entry.0.as_str(), selector) || str_eq(entry.1.artifact_id.as_str(), selector)
                || match &entry.1.workshop_id {
                Some(w) => str_eq(w.as_str(), selector),
                None => false,
            };
            if hit {
                proof {
                    lemma_entry_map_at(s, i as int);
                    assert forall|k: Seq<char>| #[trigger] entry_map(s).dom().contains(k) && text_lt(k, s[i as int].0@)
                        implies !(installed_selected(selector@))(k, entry_map(s)[k]) by {
                        let j = choose|j: int| 0 <= j < s.len() && #[trigger] s[j].0@ == k;
                        lemma_entry_map_at(s, j);
                        if j >= i {
                            if j > i {
                                assert(text_lt(s[i as int].0@, s[j].0@));
                            }
                            crate::text::lemma_text_lt_order(k, s[i as int].0@);
                        }
                    }
                }
                return Some(entry.0.clone());
            }
            i = i + 1;
        }
        proof {
            assert forall|k: Seq<char>| #[trigger] entry_map(s).dom().contains(k) implies !(installed_selected(selector@))(k, entry_map(s)[k]) by {
                let j = choose|j: int| 0 <= j < s.len() && #[trigger] s[j].0@ == k;
                lemma_entry_map_at(s, j);
            }
        }
        None
    }
}

/// Message for a selector that names no installed content.
pub open spec fn msg_not_installed(selector: Seq<char>) -> Seq<char> {
    "content is not installed: "@ + selector
}

/// Resolve `selector` to the key of installed content, by key, artifact ID, or
/// Workshop item ID, taking the first match in key order.
pub fn resolve_installed_selector(index: &ContentIndex, selector: &str) -> (r: Result<String, String>)
    ensures
        match r {
            Ok(k) => first_key_where(index.installed_map(), installed_selected(selector@), k@),
            Err(e) => no_key_where(index.installed_map(), installed_selected(selector@)) && e@ == msg_not_installed(selector@),
        },
{
    match index.installed_by_selector(selector) {
        Some(k) => Ok(k),
        None => Err(concat("content is not installed: ", selector)),
    }
}

/// File name of the lock written for `artifact_id`.
pub fn lock_file_name(artifact_id: &str) -> (r: String)
    ensures
        r@ == slug_of(artifact_id@) + ".toml"@,
{
    let s = slug(artifact_id);
    concat(s.as_str(), ".toml")
}

/// File name of the receipt written for `action` on `artifact_id` at
/// `timestamp`.
pub fn receipt_file_name(timestamp: u64, action: &str, artifact_id: &str) -> (r: String)
    ensures
        r@ == decimal(timestamp as nat) + "-"@ + action@ + "-"@ + slug_of(artifact_id@) + ".toml"@,
{
    let t = decimal_string(timestamp);
    let s = slug(artifact_id);
    concat5(t.as_str(), "-", action, "-", concat(s.as_str(), ".toml").as_str())
}


/// A read of the installed-content index gives back what the last write
/// for that artifact wrote, and a write leaves every other artifact as it
/// was.
pub proof fn law_installed_write_then_read(before: ContentIndex, after: ContentIndex, key: Seq<char>, record: InstalledRecord, other: Seq<char>)
    requires
        after.installed_map() == before.installed_map().insert(key, record),
    ensures
        after.installed_map().dom().contains(key),
        after.installed_map()[key] == record,
        other != key ==> (after.installed_map().dom().contains(other) == before.installed_map().dom().contains(other)
            && after.installed_map()[other] == before.installed_map()[other]),
{
}

/// Removing an artifact's installed record forgets it and nothing else.
pub proof fn law_installed_remove_forgets(before: ContentIndex, after: ContentIndex, key: Seq<char>, other: Seq<char>)
    requires
        after.installed_map() == before.installed_map().remove(key),
    ensures
        !after.installed_map().dom().contains(key),
        other != key ==> (after.installed_map().dom().contains(other) == before.installed_map().dom().contains(other)
            && after.installed_map()[other] == before.installed_map()[other]),
{
}

/// A read of the content cache index gives back what the last write for
/// that key wrote, and a write leaves every other key as it was.
pub proof fn law_cache_write_then_read(before: ContentIndex, after: ContentIndex, key: Seq<char>, record: CacheRecord, other: Seq<char>)
    requires
        after.cache_map() == before.cache_map().insert(key, record),
    ensures
        after.cache_map().dom().contains(key),
        after.cache_map()[key] == record,
        other != key ==> (after.cache_map().dom().contains(other) == before.cache_map().dom().contains(other)
            && after.cache_map()[other] == before.cache_map()[other]),
{
}

} // verus!
