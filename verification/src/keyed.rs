//! Vectors of `(key, value)` entries kept strictly sorted by key, standing for
//! ordered string-keyed maps: the map is the model, the order of iteration is
//! the key order.

use vstd::prelude::*;
use crate::text::{text_lt, lemma_text_lt_order, lemma_text_lt_transitive, text_order, Order, str_eq};

verus! {

/// Keys of `s`, in entry order.
pub open spec fn entry_keys<T>(s: Seq<(String, T)>) -> Seq<Seq<char>> {
    s.map_values(|e: (String, T)| e.0@)
}

/// Entries are strictly increasing by key, so no key occurs twice.
pub open spec fn keys_sorted<T>(s: Seq<(String, T)>) -> bool {
    forall|i: int, j: int| 0 <= i < j < s.len() ==> text_lt(#[trigger] s[i].0@, #[trigger] s[j].0@)
}

/// Some entry of `s` has key `k`.
pub open spec fn has_key<T>(s: Seq<(String, T)>, k: Seq<char>) -> bool {
    exists|i: int| 0 <= i < s.len() && #[trigger] s[i].0@ == k
}

/// A position of an entry with key `k` (meaningful when there is one).
pub open spec fn key_position<T>(s: Seq<(String, T)>, k: Seq<char>) -> int {
    choose|i: int| 0 <= i < s.len() && #[trigger] s[i].0@ == k
}

/// The map that sorted entries stand for.
pub open spec fn entry_map<T>(s: Seq<(String, T)>) -> Map<Seq<char>, T> {
    Map::new(|k: Seq<char>| has_key(s, k), |k: Seq<char>| s[key_position(s, k)].1)
}

/// A strictly increasing sequence of keys.
pub open spec fn strictly_sorted(keys: Seq<Seq<char>>) -> bool {
    forall|i: int, j: int| 0 <= i < j < keys.len() ==> text_lt(#[trigger] keys[i], #[trigger] keys[j])
}

/// Sorted keys never repeat.
pub proof fn lemma_sorted_distinct<T>(s: Seq<(String, T)>, i: int, j: int)
    requires
        keys_sorted(s),
        0 <= i < s.len(),
        0 <= j < s.len(),
        s[i].0@ == s[j].0@,
    ensures
        i == j,
{
    if i < j {
        assert(text_lt(s[i].0@, s[j].0@));
        lemma_text_lt_order(s[i].0@, s[j].0@);
    } else if j < i {
        assert(text_lt(s[j].0@, s[i].0@));
        lemma_text_lt_order(s[j].0@, s[i].0@);
    }
}

/// In sorted entries, the map holds each entry's value under its key.
pub proof fn lemma_entry_map_at<T>(s: Seq<(String, T)>, at: int)
    requires
        keys_sorted(s),
        0 <= at < s.len(),
    ensures
        entry_map(s).dom().contains(s[at].0@),
        entry_map(s)[s[at].0@] == s[at].1,
{
    let k = s[at].0@;
    assert(has_key(s, k));
    let j = key_position(s, k);
    assert(0 <= j < s.len() && s[j].0@ == k);
    lemma_sorted_distinct(s, at, j);
    assert(entry_map(s)[k] == s[j].1);
}

/// Position of the entry with key `key`, if any.
pub fn find_key<T>(v: &Vec<(String, T)>, key: &str) -> (r: Option<usize>)
    requires
        keys_sorted(v@),
    ensures
        match r {
            Some(i) => i < v@.len() && v@[i as int].0@ == key@,
            None => !has_key(v@, key@),
        },
        r.is_some() == entry_map(v@).dom().contains(key@),
{
    let mut i: usize = 0;
    while i < v.len()
        invariant
            i <= v@.len(),
            forall|k: int| 0 <= k < i ==> #[trigger] v@[k].0@ != key@,
        decreases v@.len() - i,
    {
        if str_eq(v[i].0.as_str(), key) {
            return Some(i);
        }
        i = i + 1;
    }
    None
}

/// Value stored under `key`, if any.
pub fn get_value<'a, T>(v: &'a Vec<(String, T)>, key: &str) -> (r: Option<&'a T>)
    requires
        keys_sorted(v@),
    ensures
        match r {
            Some(x) => entry_map(v@).dom().contains(key@) && *x == entry_map(v@)[key@],
            None => !entry_map(v@).dom().contains(key@),
        },
{
    match find_key(v, key) {
        Some(i) => {
            proof {
                lemma_entry_map_at(v@, i as int);
            }
            Some(&v[i].1)
        },
        None => None,
    }
}

/// Store `value` under `key`, replacing an earlier value, keeping the
/// entries sorted.
pub fn upsert<T>(v: &mut Vec<(String, T)>, key: String, value: T)
    requires
        keys_sorted(old(v)@),
    ensures
        keys_sorted(final(v)@),
        entry_map(final(v)@) == entry_map(old(v)@).insert(key@, value),
{
    let ghost s = v@;
    let mut p: usize = 0;
    let mut found = false;
    let mut stop = false;
    while p < v.len() && !stop
        invariant
            v@ == s,
            keys_sorted(s),
            p <= s.len(),
            forall|k: int| 0 <= k < p ==> text_lt(#[trigger] s[k].0@, key@),
            stop ==> p < s.len(),
            stop && found ==> s[p as int].0@ == key@,
            stop && !found ==> text_lt(key@, s[p as int].0@),
            !stop ==> !found,
        decreases s.len() - p + (if stop { 0int } else { 1int }),
    {
        match text_order(v[p].0.as_str(), key.as_str()) {
            Order::Less => {
                p = p + 1;
            },
            Order::Equal => {
                found = true;
                stop = true;
            },
            Order::Greater => {
                stop = true;
            },
        }
    }
    let ghost k = key@;
    if found {
        proof {
            assert(s[p as int].0@ == k);
        }
        v.set(p, (key, value));
        proof {
            let t = v@;
            assert(t =~= s.update(p as int, t[p as int]));
            assert(t[p as int].0@ == k);
            assert forall|i: int, j: int| 0 <= i < j < t.len() implies text_lt(#[trigger] t[i].0@, #[trigger] t[j].0@) by {
                assert(text_lt(s[i].0@, s[j].0@));
            }
            assert forall|x: Seq<char>| #[trigger] entry_map(t).dom().contains(x) <==> entry_map(s).insert(k, t[p as int].1).dom().contains(x) by {
                if has_key(t, x) {
                    let i = choose|i: int| 0 <= i < t.len() && #[trigger] t[i].0@ == x;
                    assert(i == p || s[i].0@ == x);
                }
                if has_key(s, x) {
                    let i = choose|i: int| 0 <= i < s.len() && #[trigger] s[i].0@ == x;
                    assert(t[i].0@ == x);
                }
                if x == k {
                    assert(t[p as int].0@ == x);
                }
            }
            assert forall|x: Seq<char>| #[trigger] entry_map(t).dom().contains(x) implies entry_map(t)[x] == entry_map(s).insert(k, t[p as int].1)[x] by {
                let i = key_position(t, x);
                assert(0 <= i < t.len() && t[i].0@ == x);
                lemma_entry_map_at(t, i);
                if i != p {
                    lemma_entry_map_at(s, i);
                    if x == k {
                        lemma_sorted_distinct(t, i, p as int);
                    }
                }
            }
            assert(entry_map(t) =~= entry_map(s).insert(k, t[p as int].1));
        }
    } else {
        v.insert(p, (key, value));
        proof {
            let t = v@;
            assert(t =~= s.insert(p as int, t[p as int]));
            assert(t[p as int].0@ == k);
            assert forall|i: int, j: int| 0 <= i < j < t.len() implies text_lt(#[trigger] t[i].0@, #[trigger] t[j].0@) by {
                if j < p {
                    assert(text_lt(s[i].0@, s[j].0@));
                } else if j == p {
                    assert(text_lt(s[i].0@, k));
                } else if i < p {
                    assert(text_lt(s[i].0@, k));
                    assert(text_lt(k, s[p as int].0@));
                    if j - 1 > p {
                        assert(text_lt(s[p as int].0@, s[j - 1].0@));
                        lemma_text_lt_transitive(k, s[p as int].0@, s[j - 1].0@);
                    }
                    lemma_text_lt_transitive(s[i].0@, k, s[j - 1].0@);
                } else if i == p {
                    assert(text_lt(k, s[p as int].0@));
                    if j - 1 > p {
                        assert(text_lt(s[p as int].0@, s[j - 1].0@));
                        lemma_text_lt_transitive(k, s[p as int].0@, s[j - 1].0@);
                    }
                } else {
                    assert(text_lt(s[i - 1].0@, s[j - 1].0@));
                }
            }
            assert forall|x: Seq<char>| #[trigger] entry_map(t).dom().contains(x) <==> entry_map(s).insert(k, t[p as int].1).dom().contains(x) by {
                if has_key(t, x) {
                    let i = choose|i: int| 0 <= i < t.len() && #[trigger] t[i].0@ == x;
                    if i < p {
                        assert(s[i].0@ == x);
                    } else if i > p {
                        assert(s[i - 1].0@ == x);
                    }
                }
                if has_key(s, x) {
                    let i = choose|i: int| 0 <= i < s.len() && #[trigger] s[i].0@ == x;
                    if i < p {
                        assert(t[i].0@ == x);
                    } else {
                        assert(t[i + 1].0@ == x);
                    }
                }
                if x == k {
                    assert(t[p as int].0@ == x);
                }
            }
            assert forall|x: Seq<char>| #[trigger] entry_map(t).dom().contains(x) implies entry_map(t)[x] == entry_map(s).insert(k, t[p as int].1)[x] by {
                let i = key_position(t, x);
                assert(0 <= i < t.len() && t[i].0@ == x);
                lemma_entry_map_at(t, i);
                if i < p {
                    lemma_entry_map_at(s, i);
                } else if i > p {
                    lemma_entry_map_at(s, i - 1);
                }
                if i != p && x == k {
                    lemma_sorted_distinct(t, i, p as int);
                }
            }
            assert(entry_map(t) =~= entry_map(s).insert(k, t[p as int].1));
        }
    }
}

/// Remove the entry with key `key`, if any, keeping the entries sorted.
pub fn remove_key<T>(v: &mut Vec<(String, T)>, key: &str)
    requires
        keys_sorted(old(v)@),
    ensures
        keys_sorted(final(v)@),
        entry_map(final(v)@) == entry_map(old(v)@).remove(key@),
{
    let ghost s = v@;
    match find_key(v, key) {
        Some(p) => {
            let _ = v.remove(p);
            proof {
                let t = v@;
                let k = key@;
                assert(t =~= s.remove(p as int));
                assert forall|i: int, j: int| 0 <= i < j < t.len() implies text_lt(#[trigger] t[i].0@, #[trigger] t[j].0@) by {
                    if j < p {
                        assert(text_lt(s[i].0@, s[j].0@));
                    } else if i < p {
                        assert(text_lt(s[i].0@, s[j + 1].0@));
                    } else {
                        assert(text_lt(s[i + 1].0@, s[j + 1].0@));
                    }
                }
                assert forall|x: Seq<char>| #[trigger] entry_map(t).dom().contains(x) <==> entry_map(s).remove(k).dom().contains(x) by {
                    if has_key(t, x) {
                        let i = choose|i: int| 0 <= i < t.len() && #[trigger] t[i].0@ == x;
                        if i < p {
                            assert(s[i].0@ == x);
                            if x == k {
                                lemma_sorted_distinct(s, i, p as int);
                            }
                        } else {
                            assert(s[i + 1].0@ == x);
                            if x == k {
                                lemma_sorted_distinct(s, i + 1, p as int);
                            }
                        }
                    }
                    if has_key(s, x) && x != k {
                        let i = choose|i: int| 0 <= i < s.len() && #[trigger] s[i].0@ == x;
                        if i < p {
                            assert(t[i].0@ == x);
                        } else {
                            assert(i != p);
                            assert(t[i - 1].0@ == x);
                        }
                    }
                }
                assert forall|x: Seq<char>| #[trigger] entry_map(t).dom().contains(x) implies entry_map(t)[x] == entry_map(s).remove(k)[x] by {
                    let i = key_position(t, x);
                    assert(0 <= i < t.len() && t[i].0@ == x);
                    lemma_entry_map_at(t, i);
                    if i < p {
                        lemma_entry_map_at(s, i);
                    } else {
                        lemma_entry_map_at(s, i + 1);
                    }
                }
                assert(entry_map(t) =~= entry_map(s).remove(k));
            }
        },
        None => {
            proof {
                assert(entry_map(s).remove(key@) =~= entry_map(s));
            }
        },
    }
}

/// Keys of the entries, in ascending order.
pub fn keys_in_order<T>(v: &Vec<(String, T)>) -> (r: Vec<String>)
    requires
        keys_sorted(v@),
    ensures
        r@.map_values(|s: String| s@) == entry_keys(v@),
        strictly_sorted(entry_keys(v@)),
        entry_keys(v@).to_set() == entry_map(v@).dom(),
{
    let mut r: Vec<String> = Vec::new();
    let mut i: usize = 0;
    while i < v.len()
        invariant
            i <= v@.len(),
            r@.len() == i,
            forall|j: int| 0 <= j < i ==> #[trigger] r@[j]@ == v@[j].0@,
        decreases v@.len() - i,
    {
        let key = v[i].0.clone();
        r.push(key);
        i = i + 1;
    }
    proof {
        assert(r@.map_values(|s: String| s@) =~= entry_keys(v@));
    }
    proof {
        assert(entry_keys(v@).subrange(0, v@.len() as int) =~= entry_keys(v@));
        assert forall|x: Seq<char>| #[trigger] entry_keys(v@).to_set().contains(x) <==> entry_map(v@).dom().contains(x) by {
            if entry_keys(v@).contains(x) {
                let i = choose|i: int| 0 <= i < entry_keys(v@).len() && entry_keys(v@)[i] == x;
                assert(v@[i].0@ == x);
            }
            if has_key(v@, x) {
                let i = choose|i: int| 0 <= i < v@.len() && #[trigger] v@[i].0@ == x;
                assert(entry_keys(v@)[i] == x);
            }
        }
        assert(entry_keys(v@).to_set() =~= entry_map(v@).dom());
    }
    r
}

/// `s` is in ascending order (repeats allowed).
pub open spec fn ascending(s: Seq<Seq<char>>) -> bool {
    forall|i: int, j: int| 0 <= i < j < s.len() ==> !text_lt(#[trigger] s[j], #[trigger] s[i])
}

/// Sort strings into ascending code-point order, as `sort` on strings does.
pub fn sort_strings(v: Vec<String>) -> (r: Vec<String>)
    ensures
        ascending(crate::text::string_views(r@)),
        crate::text::string_views(r@).to_multiset() == crate::text::string_views(v@).to_multiset(),
{
    let ghost input = crate::text::string_views(v@);
    let mut out: Vec<String> = Vec::new();
    let mut i: usize = 0;
    proof {
        assert(crate::text::string_views(out@) =~= Seq::<Seq<char>>::empty());
        assert(input.take(0) =~= Seq::<Seq<char>>::empty());
    }
    while i < v.len()
        invariant
            i <= v@.len(),
            input == crate::text::string_views(v@),
            ascending(crate::text::string_views(out@)),
            crate::text::string_views(out@).to_multiset() == input.take(i as int).to_multiset(),
        decreases v@.len() - i,
    {
        let x = v[i].clone();
        let ghost o = crate::text::string_views(out@);
        let mut p: usize = 0;
        let mut stop = false;
        while p < out.len() && !stop
            invariant
                o == crate::text::string_views(out@),
                p <= out@.len(),
                forall|k: int| 0 <= k < p ==> !text_lt(x@, #[trigger] o[k]),
                stop ==> p < out@.len() && text_lt(x@, o[p as int]),
            decreases out@.len() - p + (if stop { 0int } else { 1int }),
        {
            match text_order(x.as_str(), out[p].as_str()) {
                Order::Less => {
                    stop = true;
                },
                _ => {
                    p = p + 1;
                },
            }
        }
        out.insert(p, x);
        proof {
            let t = crate::text::string_views(out@);
            assert(t =~= o.insert(p as int, x@));
            assert forall|a: int, b: int| 0 <= a < b < t.len() implies !text_lt(#[trigger] t[b], #[trigger] t[a]) by {
                if b < p {
                    assert(t[a] == o[a] && t[b] == o[b]);
                } else if b == p {
                    assert(t[a] == o[a]);
                    assert(!text_lt(x@, o[a]));
                } else if a < p {
                    assert(t[a] == o[a] && t[b] == o[b - 1]);
                    if text_lt(o[b - 1], o[a]) {
                        assert(!text_lt(o[b - 1], o[a]));
                    }
                } else if a == p {
                    assert(t[b] == o[b - 1]);
                    assert(text_lt(x@, o[p as int]));
                    if b - 1 > p {
                        assert(!text_lt(o[b - 1], o[p as int]));
                        lemma_text_lt_order(o[p as int], o[b - 1]);
                        if o[p as int] != o[b - 1] {
                            lemma_text_lt_transitive(x@, o[p as int], o[b - 1]);
                        }
                    }
                    lemma_text_lt_order(x@, o[b - 1]);
                } else {
                    assert(t[a] == o[a - 1] && t[b] == o[b - 1]);
                }
            }
            assert(input.take(i + 1) =~= input.take(i as int).push(input[i as int]));
            assert(input.take(i as int).push(input[i as int]) =~= input.take(i as int).insert(i as int, input[i as int]));
            assert(input[i as int] == x@);
            vstd::seq_lib::to_multiset_insert(o, p as int, x@);
            vstd::seq_lib::to_multiset_build(input.take(i as int), x@);
            assert(t.to_multiset() == o.to_multiset().insert(x@));
            assert(input.take(i + 1) == input.take(i as int).push(x@));
            assert(input.take(i + 1).to_multiset() == input.take(i as int).to_multiset().insert(x@));
        }
        i = i + 1;
    }
    proof {
        assert(input.take(v@.len() as int) =~= input);
    }
    out
}

/// Drop repeats from strings already in ascending order, as `dedup` does
/// after a sort: the result is strictly increasing and holds the same
/// strings.
pub fn dedup_sorted(v: Vec<String>) -> (r: Vec<String>)
    requires
        ascending(crate::text::string_views(v@)),
    ensures
        strictly_sorted(crate::text::string_views(r@)),
        crate::text::string_views(r@).to_set() == crate::text::string_views(v@).to_set(),
{
    let ghost input = crate::text::string_views(v@);
    let mut out: Vec<String> = Vec::new();
    let mut i: usize = 0;
    while i < v.len()
        invariant
            i <= v@.len(),
            input == crate::text::string_views(v@),
            ascending(input),
            strictly_sorted(crate::text::string_views(out@)),
            crate::text::string_views(out@).to_set() == input.take(i as int).to_set(),
            i > 0 ==> out@.len() > 0 && out@.last()@ == input[i - 1],
            i == 0 ==> out@.len() == 0,
        decreases v@.len() - i,
    {
        let ghost o = crate::text::string_views(out@);
        let x = v[i].clone();
        assert(x@ == input[i as int]);
        let repeat = out.len() > 0 && str_eq(out[out.len() - 1].as_str(), x.as_str());
        if !repeat {
            proof {
                if i > 0 {
                    assert(!text_lt(input[i as int], input[i - 1]));
                    lemma_text_lt_order(input[i - 1], input[i as int]);
                    assert(text_lt(o.last(), x@));
                    assert forall|k: int| 0 <= k < o.len() implies text_lt(#[trigger] o[k], x@) by {
                        if k < o.len() - 1 {
                            assert(text_lt(o[k], o[o.len() - 1]));
                            lemma_text_lt_transitive(o[k], o.last(), x@);
                        }
                    }
                }
            }
            out.push(x);
            proof {
                let t = crate::text::string_views(out@);
                assert(t =~= o.push(input[i as int]));
                assert forall|a: int, b: int| 0 <= a < b < t.len() implies text_lt(#[trigger] t[a], #[trigger] t[b]) by {
                    if b < o.len() {
                        assert(t[a] == o[a] && t[b] == o[b]);
                    } else {
                        assert(t[a] == o[a]);
                    }
                }
                assert(input.take(i + 1) =~= input.take(i as int).push(input[i as int]));
                assert(t.to_set() =~= o.to_set().insert(input[i as int])) by {
                    vstd::seq_lib::lemma_seq_contains_after_push(o, input[i as int], input[i as int]);
                    assert forall|y: Seq<char>| t.contains(y) <==> o.contains(y) || y == input[i as int] by {
                        if t.contains(y) {
                            let k = choose|k: int| 0 <= k < t.len() && t[k] == y;
                            if k < o.len() {
                                assert(o[k] == y);
                            }
                        }
                        if o.contains(y) {
                            let k = choose|k: int| 0 <= k < o.len() && o[k] == y;
                            assert(t[k] == y);
                        }
                        if y == input[i as int] {
                            assert(t[o.len() as int] == y);
                        }
                    }
                }
                assert(input.take(i + 1).to_set() =~= input.take(i as int).to_set().insert(input[i as int])) by {
                    let a = input.take(i as int);
                    let b = input.take(i + 1);
                    assert forall|y: Seq<char>| b.contains(y) <==> a.contains(y) || y == input[i as int] by {
                        if b.contains(y) {
                            let k = choose|k: int| 0 <= k < b.len() && b[k] == y;
                            if k < a.len() {
                                assert(a[k] == y);
                            }
                        }
                        if a.contains(y) {
                            let k = choose|k: int| 0 <= k < a.len() && a[k] == y;
                            assert(b[k] == y);
                        }
                        if y == input[i as int] {
                            assert(b[i as int] == y);
                        }
                    }
                }
            }
        } else {
            proof {
                assert(o.last() == input[i as int]);
                assert(input.take(i as int).to_set().contains(input[i as int])) by {
                    assert(input.take(i as int)[i - 1] == input[i as int]);
                }
                assert(input.take(i + 1).to_set() =~= input.take(i as int).to_set()) by {
                    let a = input.take(i as int);
                    let b = input.take(i + 1);
                    assert forall|y: Seq<char>| b.contains(y) <==> a.contains(y) by {
                        if b.contains(y) {
                            let k = choose|k: int| 0 <= k < b.len() && b[k] == y;
                            if k < a.len() {
                                assert(a[k] == y);
                            } else {
                                assert(a[i - 1] == y);
                            }
                        }
                        if a.contains(y) {
                            let k = choose|k: int| 0 <= k < a.len() && a[k] == y;
                            assert(b[k] == y);
                        }
                    }
                }
            }
        }
        i = i + 1;
    }
    proof {
        assert(input.take(v@.len() as int) =~= input);
    }
    out
}

/// Sort strings and drop repeats: strictly increasing, same strings.
pub fn sort_unique(v: Vec<String>) -> (r: Vec<String>)
    ensures
        strictly_sorted(crate::text::string_views(r@)),
        crate::text::string_views(r@).to_set() == crate::text::string_views(v@).to_set(),
{
    let ghost input = crate::text::string_views(v@);
    let sorted = sort_strings(v);
    proof {
        let s = crate::text::string_views(sorted@);
        assert(s.to_set() =~= input.to_set()) by {
            assert forall|y: Seq<char>| s.contains(y) <==> input.contains(y) by {
                vstd::seq_lib::to_multiset_contains(s, y);
                vstd::seq_lib::to_multiset_contains(input, y);
            }
        }
    }
    dedup_sorted(sorted)
}

} // verus!
