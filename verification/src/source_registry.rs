//! App-local index of external Vapor source roots, keyed by a short local
//! name inferred from each source's identity, and the persisted active source.

use vstd::prelude::*;
use crate::text::{str_eq, trim, trim_str, concat3, contains_char, has_char};
use crate::paths::{join, join_path, last_component, last_segment};
use crate::keyed::{keys_sorted, entry_map, strictly_sorted, find_key, get_value, upsert, remove_key, keys_in_order, lemma_entry_map_at};
use crate::content_state::{first_key_where, no_key_where};
use crate::discovery::{InstallationPaths, SourceWorkspace};

verus! {

/// File name of the registry under the installation state directory.
pub const SOURCE_REGISTRY: &'static str = "sources.toml";
/// File name of the active source selection under the state directory.
pub const ACTIVE_SOURCE: &'static str = "source-workspace";

/// One indexed external source root.
#[derive(Debug)]
pub struct SourceEntry {
    /// Fully-qualified source identity.
    pub id: String,
    /// Canonical source root path.
    pub path: String,
}

impl SourceEntry {
    /// Fully-qualified source identity.
    pub fn id(&self) -> (r: &str)
        ensures
            r@ == self.id@,
    {
        self.id.as_str()
    }

    /// Canonical source root path.
    pub fn path(&self) -> (r: &str)
        ensures
            r@ == self.path@,
    {
        self.path.as_str()
    }
}

/// Indexed sources, kept in local-name order.
#[derive(Debug)]
pub struct SourceRegistry {
    sources: Vec<(String, SourceEntry)>,
}

/// The local name of a source identity: its final `/` segment.
pub open spec fn local_name_of(id: Seq<char>) -> Seq<char> {
    last_component(id)
}

/// The local name of a source identity.
pub fn local_name(id: &str) -> (r: &str)
    ensures
        r@ == local_name_of(id@),
{
    last_segment(id)
}

/// An entry answers to a source ID.
pub open spec fn entry_has_id(id: Seq<char>) -> spec_fn(Seq<char>, SourceEntry) -> bool {
    |k: Seq<char>, e: SourceEntry| e.id@ == id
}

impl SourceRegistry {
    #[verifier::type_invariant]
    spec fn sorted(self) -> bool {
        keys_sorted(self.sources@)
    }

    /// Indexed sources by local name.
    pub closed spec fn entries(self) -> Map<Seq<char>, SourceEntry> {
        entry_map(self.sources@)
    }

    /// A registry indexing nothing.
    pub fn new() -> (r: Self)
        ensures
            r.entries() == Map::<Seq<char>, SourceEntry>::empty(),
    {
        let r = SourceRegistry { sources: Vec::new() };
        proof {
            assert(r.entries() =~= Map::<Seq<char>, SourceEntry>::empty());
        }
        r
    }

    /// Local names of the indexed sources, in order.
    pub fn names(&self) -> (r: Vec<String>)
        ensures
            strictly_sorted(r@.map_values(|s: String| s@)),
            r@.map_values(|s: String| s@).to_set() == self.entries().dom(),
    {
        proof {
            use_type_invariant(self);
        }
        keys_in_order(&self.sources)
    }

    /// The indexed sources, in local-name order.
    pub fn sources(&self) -> (r: &[(String, SourceEntry)])
        ensures
            crate::keyed::entry_keys(r@) == crate::keyed::entry_keys(self.sources_spec()),
            entry_map(r@) == self.entries(),
            keys_sorted(r@),
    {
        proof {
            use_type_invariant(self);
        }
        self.sources.as_slice()
    }

    /// The indexed entries, in local-name order.
    pub closed spec fn sources_spec(self) -> Seq<(String, SourceEntry)> {
        self.sources@
    }

    /// The source indexed under local name `name`.
    pub fn get(&self, name: &str) -> (r: Option<&SourceEntry>)
        ensures
            match r {
                Some(e) => self.entries().dom().contains(name@) && *e == self.entries()[name@],
                None => !self.entries().dom().contains(name@),
            },
    {
        proof {
            use_type_invariant(self);
        }
        get_value(&self.sources, name)
    }

    /// Index `entry` under `name`, replacing an earlier entry.
    pub fn insert(&mut self, name: String, entry: SourceEntry)
        ensures
            final(self).entries() == old(self).entries().insert(name@, entry),
    {
        proof {
            use_type_invariant(&*self);
        }
        let mut entries: Vec<(String, SourceEntry)> = Vec::new();
        std::mem::swap(&mut entries, &mut self.sources);
        upsert(&mut entries, name, entry);
        self.sources = entries;
    }

    /// Drop the entry indexed under `name`, if any.
    pub fn remove_name(&mut self, name: &str)
        ensures
            final(self).entries() == old(self).entries().remove(name@),
    {
        proof {
            use_type_invariant(&*self);
        }
        let mut entries: Vec<(String, SourceEntry)> = Vec::new();
        std::mem::swap(&mut entries, &mut self.sources);
        remove_key(&mut entries, name);
        self.sources = entries;
    }

    /// Local name of the first entry, in name order, whose source ID is `id`.
    pub fn name_of_id(&self, id: &str) -> (r: Option<String>)
        ensures
            match r {
                Some(k) => first_key_where(self.entries(), entry_has_id(id@), k@),
                None => no_key_where(self.entries(), entry_has_id(id@)),
            },
    {
        proof {
            use_type_invariant(self);
        }
        let ghost s = self.sources@;
        let mut i: usize = 0;
        while i < self.sources.len()
            invariant
                s == self.sources@,
                keys_sorted(s),
                i <= s.len(),
                forall|j: int| 0 <= j < i ==> #[trigger] s[j].1.id@ != id@,
            decreases s.len() - i,
        {
            if str_eq(self.sources[i].1.id.as_str(), id) {
                proof {
                    lemma_entry_map_at(s, i as int);
                    assert forall|k: Seq<char>| #[trigger] entry_map(s).dom().contains(k) && crate::text::text_lt(k, s[i as int].0@)
                        implies !(entry_has_id(id@))(k, entry_map(s)[k]) by {
                        let j = crate::keyed::key_position(s, k);
                        assert(0 <= j < s.len() && s[j].0@ == k);
                        lemma_entry_map_at(s, j);
                        if j >= i {
                            if j > i {
                                assert(crate::text::text_lt(s[i as int].0@, s[j].0@));
                            }
                            crate::text::lemma_text_lt_order(k, s[i as int].0@);
                        }
                    }
                }
                return Some(self.sources[i].0.clone());
            }
            i = i + 1;
        }
        proof {
            assert forall|k: Seq<char>| #[trigger] entry_map(s).dom().contains(k) implies !(entry_has_id(id@))(k, entry_map(s)[k]) by {
                let j = crate::keyed::key_position(s, k);
                assert(0 <= j < s.len() && s[j].0@ == k);
                lemma_entry_map_at(s, j);
            }
        }
        None
    }
}

/// The local name that `selector` resolves to: itself when indexed, else the
/// first name, in order, whose source has that ID.
pub open spec fn resolved_key(entries: Map<Seq<char>, SourceEntry>, selector: Seq<char>) -> Option<Seq<char>> {
    if entries.dom().contains(selector) {
        Some(selector)
    } else if no_key_where(entries, entry_has_id(selector)) {
        None
    } else {
        Some(choose|k: Seq<char>| first_key_where(entries, entry_has_id(selector), k))
    }
}

/// Resolve a local name or full source ID to an indexed local name.
pub fn resolve_key(registry: &SourceRegistry, selector: &str) -> (r: Option<String>)
    ensures
        match resolved_key(registry.entries(), selector@) {
            Some(k) => r matches Some(s) && s@ == k,
            None => r.is_none(),
        },
        r matches Some(s) ==> registry.entries().dom().contains(s@),
{
    if registry.get(selector).is_some() {
        return Some(selector.to_owned());
    }
    match registry.name_of_id(selector) {
        Some(k) => {
            proof {
                crate::install::lemma_first_key_unique(registry.entries(), entry_has_id(selector@), k@,
                    choose|x: Seq<char>| first_key_where(registry.entries(), entry_has_id(selector@), x));
            }
            Some(k)
        },
        None => None,
    }
}

/// Index `source` under the local name of its identity; the name and the
/// entry are returned.
pub fn add(registry: &mut SourceRegistry, source: &SourceWorkspace) -> (r: (String, SourceEntry))
    ensures
        r.0@ == local_name_of(source@.identity_id),
        r.1.id@ == source@.identity_id,
        r.1.path@ == source@.root,
        final(registry).entries() == old(registry).entries().insert(r.0@, r.1),
{
    let name = local_name(source.identity_id()).to_owned();
    let entry = SourceEntry { id: source.identity_id().to_owned(), path: source.root().to_owned() };
    let copy = SourceEntry { id: entry.id.clone(), path: entry.path.clone() };
    registry.insert(name.clone(), entry);
    (name, copy)
}

/// Remove the source that `selector` (local name or full ID) resolves to;
/// its local name is returned when one was removed.
pub fn remove(registry: &mut SourceRegistry, selector: &str) -> (r: Option<String>)
    ensures
        match resolved_key(old(registry).entries(), selector@) {
            Some(k) => r matches Some(s) && s@ == k && final(registry).entries() == old(registry).entries().remove(k),
            None => r.is_none() && final(registry).entries() == old(registry).entries(),
        },
{
    match resolve_key(registry, selector) {
        Some(k) => {
            registry.remove_name(k.as_str());
            Some(k)
        },
        None => None,
    }
}

/// A target that names a path rather than an indexed source.
pub open spec fn names_path(target: Seq<char>, path_exists: bool) -> bool {
    path_exists || has_char(target, '/') || has_char(target, '\\') || target == "."@
}

/// Message for an `open` target that is neither a path nor indexed.
pub open spec fn msg_unknown_source(target: Seq<char>) -> Seq<char> {
    "unknown Vapor source '"@ + target + "'\nhelp: index it with `vapor source add PATH`, or open by path"@
}

/// Resolve an `open` target: a path (existing, containing a separator, or
/// `.`) is taken as it is; anything else must be an indexed local name or
/// source ID, looked up in the registry (which may have failed to load).
pub fn resolve_target(target: &str, path_exists: bool, registry: &Result<SourceRegistry, String>) -> (r: Result<String, String>)
    ensures
        names_path(target@, path_exists) ==> (r matches Ok(p) && p@ == target@),
        !names_path(target@, path_exists) ==> match *registry {
            Err(e) => r matches Err(m) && m@ == e@,
            Ok(reg) => match resolved_key(reg.entries(), target@) {
                Some(k) => r matches Ok(p) && p@ == reg.entries()[k].path@,
                None => r matches Err(m) && m@ == msg_unknown_source(target@),
            },
        },
{
    let slash = contains_char(target, '/');
    let backslash = contains_char(target, '\\');
    let dot = str_eq(target, ".");
    if path_exists || slash || backslash || dot {
        return Ok(target.to_owned());
    }
    let reg = match registry {
        Ok(r) => r,
        Err(e) => {
            return Err(e.clone());
        },
    };
    match resolve_key(reg, target) {
        Some(k) => match reg.get(k.as_str()) {
            Some(entry) => Ok(entry.path.clone()),
            None => Err(concat3("unknown Vapor source '", target, "'\nhelp: index it with `vapor source add PATH`, or open by path")),
        },
        None => Err(concat3("unknown Vapor source '", target, "'\nhelp: index it with `vapor source add PATH`, or open by path")),
    }
}

/// The active source: a non-empty `VAPOR_WORKSPACE` setting wins; else the
/// trimmed persisted selection (absent, or failed to read) when not blank.
pub fn active_source(env_value: Option<&str>, persisted: Option<Result<String, String>>) -> (r: Result<Option<String>, String>)
    ensures
        match env_value {
            Some(v) if v@.len() > 0 => r matches Ok(Some(p)) && p@ == v@,
            _ => match persisted {
                None => r matches Ok(None),
                Some(Err(e)) => r matches Err(m) && m == e,
                Some(Ok(text)) => if trim(text@).len() == 0 {
                    r matches Ok(None)
                } else {
                    r matches Ok(Some(p)) && p@ == trim(text@)
                },
            },
        },
{
    match env_value {
        Some(v) => if v.unicode_len() > 0 {
            return Ok(Some(v.to_owned()));
        },
        None => {},
    }
    match persisted {
        None => Ok(None),
        Some(Err(e)) => Err(e),
        Some(Ok(text)) => {
            let t = trim_str(text.as_str());
            if t.unicode_len() == 0 {
                Ok(None)
            } else {
                Ok(Some(t.to_owned()))
            }
        },
    }
}

/// Path of the source registry of an installation.
pub fn registry_path(installation: &InstallationPaths) -> (r: String)
    ensures
        r@ == join(join(join(installation@.root, ".vapor"@), "state"@), SOURCE_REGISTRY@),
{
    let state = installation.state_dir();
    join_path(state.as_str(), SOURCE_REGISTRY)
}

/// Path of the persisted active source selection of an installation.
pub fn active_path(installation: &InstallationPaths) -> (r: String)
    ensures
        r@ == join(join(join(installation@.root, ".vapor"@), "state"@), ACTIVE_SOURCE@),
{
    let state = installation.state_dir();
    join_path(state.as_str(), ACTIVE_SOURCE)
}

/// Indexing a source makes its local name resolve to it, and looking the
/// name up gives back the indexed entry; other names are unaffected.
pub proof fn law_add_then_resolve(before: Map<Seq<char>, SourceEntry>, name: Seq<char>, entry: SourceEntry, other: Seq<char>)
    ensures
        resolved_key(before.insert(name, entry), name) == Some(name),
        before.insert(name, entry)[name] == entry,
        other != name ==> before.insert(name, entry).dom().contains(other) == before.dom().contains(other),
        other != name && before.dom().contains(other) ==> before.insert(name, entry)[other] == before[other],
{
}

/// Removing what a selector resolves to leaves nothing under that name.
pub proof fn law_remove_forgets(before: Map<Seq<char>, SourceEntry>, selector: Seq<char>)
    requires
        resolved_key(before, selector).is_some(),
    ensures
        !before.remove(resolved_key(before, selector).unwrap()).dom().contains(resolved_key(before, selector).unwrap()),
{
}

/// A local name holds no separator, and a name without one is its own.
proof fn lemma_local_name_shape(id: Seq<char>)
    ensures
        forall|k: int| 0 <= k < local_name_of(id).len() ==> local_name_of(id)[k] != '/',
        (forall|k: int| 0 <= k < id.len() ==> id[k] != '/') ==> local_name_of(id) == id,
{
    crate::paths::lemma_last_sep_bounds(id);
    if forall|k: int| 0 <= k < id.len() ==> id[k] != '/' {
        if crate::paths::last_sep(id) >= 0 {
            assert(id[crate::paths::last_sep(id)] == '/');
        }
        assert(local_name_of(id) =~= id);
    }
}

/// Another entry answers to `id` ahead of the one indexed under `name`: it
/// is indexed under `id` itself, or under a name that sorts before `name`.
pub open spec fn id_taken_before(before: Map<Seq<char>, SourceEntry>, id: Seq<char>, name: Seq<char>) -> bool {
    ||| (id != name && before.dom().contains(id))
    ||| exists|k: Seq<char>| #[trigger] before.dom().contains(k) && k != name
            && crate::text::text_lt(k, name) && before[k].id@ == id
}

/// Indexing a source and then removing it by its local name removes exactly
/// that name: the registry is as it was, apart from an earlier entry under
/// the same name. Removing it by its full ID does the same, unless another
/// entry answers to that ID first (it is indexed under the ID itself, or
/// holds the same ID under a name that sorts earlier), which only a
/// registry edited by hand holds.
pub proof fn law_add_then_remove(before: Map<Seq<char>, SourceEntry>, entry: SourceEntry, selector: Seq<char>)
    requires
        selector == local_name_of(entry.id@)
            || (selector == entry.id@ && !id_taken_before(before, entry.id@, local_name_of(entry.id@))),
    ensures
        ({
            let name = local_name_of(entry.id@);
            let added = before.insert(name, entry);
            &&& resolved_key(added, selector) == Some(name)
            &&& added.remove(name) == before.remove(name)
            &&& !before.dom().contains(name) ==> added.remove(name) == before
        }),
{
    let name = local_name_of(entry.id@);
    let added = before.insert(name, entry);
    assert(added.remove(name) =~= before.remove(name));
    if !before.dom().contains(name) {
        assert(added.remove(name) =~= before);
    }
    if selector != name {
        assert(selector == entry.id@);
        assert(!added.dom().contains(selector));
        assert forall|k: Seq<char>| #[trigger] added.dom().contains(k) && crate::text::text_lt(k, name)
            implies !(entry_has_id(selector))(k, added[k]) by {
            crate::text::lemma_text_lt_order(k, k);
            if added[k].id@ == selector {
                assert(k != name);
                assert(added[k] == before[k]);
                assert(before.dom().contains(k) && k != name && crate::text::text_lt(k, name) && before[k].id@ == selector);
                assert(id_taken_before(before, entry.id@, name));
            }
        }
        assert(first_key_where(added, entry_has_id(selector), name));
        assert(!no_key_where(added, entry_has_id(selector)));
        let c = choose|k: Seq<char>| first_key_where(added, entry_has_id(selector), k);
        crate::install::lemma_first_key_unique(added, entry_has_id(selector), name, c);
    }
}

/// A registry that only `add` wrote never holds an input the previous law
/// leaves out: when every entry is indexed under the local name of its ID,
/// no other entry answers to a new source's ID ahead of it.
pub proof fn law_added_registry_has_no_shadowing(before: Map<Seq<char>, SourceEntry>, id: Seq<char>)
    requires
        forall|k: Seq<char>| #[trigger] before.dom().contains(k) ==> local_name_of(before[k].id@) == k,
    ensures
        !id_taken_before(before, id, local_name_of(id)),
{
    let name = local_name_of(id);
    lemma_local_name_shape(id);
    if id != name && before.dom().contains(id) {
        lemma_local_name_shape(before[id].id@);
        assert forall|k: int| 0 <= k < id.len() implies id[k] != '/' by {
            assert(id[k] == local_name_of(before[id].id@)[k]);
        }
        assert(false);
    }
    assert forall|k: Seq<char>| #[trigger] before.dom().contains(k) && k != name && crate::text::text_lt(k, name)
        implies before[k].id@ != id by {
        if before[k].id@ == id {
            assert(local_name_of(before[k].id@) == k);
        }
    }
}

} // verus!
