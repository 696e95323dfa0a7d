//! Filesystem paths as the shell's rules see them: `/`-separated character
//! sequences. Containment and joining follow `std::path` for paths in
//! canonical form (no repeated separators, no `.` components).

use vstd::prelude::*;
use crate::text::{has_prefix, owned, concat, concat3, starts_with};

verus! {

/// A path that starts at the filesystem root.
pub open spec fn is_absolute(p: Seq<char>) -> bool {
    p.len() > 0 && p[0] == '/'
}

/// `base` joined with `rel`, as `Path::join` does: an absolute `rel`
/// replaces `base`, otherwise one separator is inserted when needed.
pub open spec fn join(base: Seq<char>, rel: Seq<char>) -> Seq<char> {
    if is_absolute(rel) {
        rel
    } else if base.len() == 0 {
        rel
    } else if base.last() == '/' {
        base + rel
    } else {
        base + seq!['/'] + rel
    }
}

/// `root` without a trailing separator, unless it is the filesystem root:
/// the form in which `std::path` compares components.
pub open spec fn root_key(root: Seq<char>) -> Seq<char> {
    if root.len() > 1 && root.last() == '/' { root.drop_last() } else { root }
}

/// `candidate` lies at or below `key`, comparing whole components.
pub open spec fn within_key(candidate: Seq<char>, key: Seq<char>) -> bool {
    ||| key.len() == 0
    ||| candidate == key
    ||| (has_prefix(candidate, key) && (key.last() == '/' || candidate[key.len() as int] == '/'))
}

/// `candidate` lies at or below `root`, comparing whole components as
/// `Path::starts_with` does: a trailing separator on `root` is ignored.
pub open spec fn within(candidate: Seq<char>, root: Seq<char>) -> bool {
    within_key(candidate, root_key(root))
}

/// Segment `i..j` of `p` is one whole component.
pub open spec fn is_segment(p: Seq<char>, i: int, j: int) -> bool {
    &&& 0 <= i <= j <= p.len()
    &&& (i == 0 || p[i - 1] == '/')
    &&& (j == p.len() || p[j] == '/')
    &&& forall|k: int| i <= k < j ==> p[k] != '/'
}

/// Some component of `p` is `..`.
pub open spec fn has_parent_component(p: Seq<char>) -> bool {
    exists|i: int| #[trigger] is_segment(p, i, i + 2) && p[i] == '.' && p[i + 1] == '.'
}

/// A non-empty relative path without `..` components.
pub open spec fn is_safe_relative(p: Seq<char>) -> bool {
    p.len() > 0 && !is_absolute(p) && !has_parent_component(p)
}

/// Index of the last separator in `p`, or -1 when there is none.
pub open spec fn last_sep(p: Seq<char>) -> int
    decreases p.len(),
{
    if p.len() == 0 {
        -1
    } else if p.last() == '/' {
        p.len() - 1
    } else {
        last_sep(p.drop_last())
    }
}

/// The final component of `p` (the whole of `p` when it has no separator).
pub open spec fn last_component(p: Seq<char>) -> Seq<char> {
    p.subrange(last_sep(p) + 1, p.len() as int)
}

/// Everything before the final separator of `p`; `/` for a child of the
/// root; empty for a single relative component.
pub open spec fn parent_of(p: Seq<char>) -> Seq<char> {
    if last_sep(p) == 0 {
        seq!['/']
    } else if last_sep(p) < 0 {
        Seq::empty()
    } else {
        p.subrange(0, last_sep(p))
    }
}

/// `Path::parent` for canonical paths: absent for the root and the empty path.
pub open spec fn parent(p: Seq<char>) -> Option<Seq<char>> {
    if p.len() == 0 || p == seq!['/'] {
        None
    } else {
        Some(parent_of(p))
    }
}

/// `Path::file_name` for canonical paths: the final component unless it is
/// empty or `..`.
pub open spec fn file_name(p: Seq<char>) -> Option<Seq<char>> {
    let name = last_component(p);
    if name.len() == 0 || name == seq!['.', '.'] {
        None
    } else {
        Some(name)
    }
}

pub proof fn lemma_last_sep_bounds(p: Seq<char>)
    ensures
        -1 <= last_sep(p) < p.len(),
        last_sep(p) >= 0 ==> p[last_sep(p)] == '/',
        forall|k: int| last_sep(p) < k < p.len() ==> p[k] != '/',
    decreases p.len(),
{
    if p.len() > 0 && p.last() != '/' {
        let q = p.drop_last();
        lemma_last_sep_bounds(q);
        assert forall|k: int| last_sep(p) < k < p.len() implies p[k] != '/' by {
            if k < q.len() {
                assert(q[k] == p[k]);
            }
        }
        if last_sep(p) >= 0 {
            assert(q[last_sep(p)] == p[last_sep(p)]);
        }
    }
}

/// Position of the last `/` in `p`, if any.
pub fn last_separator(p: &str) -> (r: Option<usize>)
    ensures
        match r {
            Some(i) => i == last_sep(p@),
            None => last_sep(p@) == -1,
        },
{
    let n = p.unicode_len();
    let mut j = n;
    assert(p@.subrange(0, n as int) =~= p@);
    while j > 0
        invariant
            j <= n,
            n == p@.len(),
            last_sep(p@) == last_sep(p@.subrange(0, j as int)),
        decreases j,
    {
        if p.get_char(j - 1) == '/' {
            return Some(j - 1);
        }
        assert(p@.subrange(0, j as int).drop_last() =~= p@.subrange(0, j - 1));
        j = j - 1;
    }
    None
}

/// Join `rel` onto `base`, as `Path::join` does.
pub fn join_path(base: &str, rel: &str) -> (r: String)
    ensures
        r@ == join(base@, rel@),
{
    let bn = base.unicode_len();
    let rn = rel.unicode_len();
    if rn > 0 && rel.get_char(0) == '/' {
        return owned(rel);
    }
    if bn == 0 {
        return owned(rel);
    }
    if base.get_char(bn - 1) == '/' {
        concat(base, rel)
    } else {
        let r = concat3(base, "/", rel);
        proof {
            reveal_strlit("/");
        }
        r
    }
}

/// Join two relative steps onto `base`.
pub fn join2(base: &str, a: &str, b: &str) -> (r: String)
    ensures
        r@ == join(join(base@, a@), b@),
{
    let first = join_path(base, a);
    join_path(first.as_str(), b)
}

/// Whether `candidate` lies at or below `root`, as `Path::starts_with` does
/// for canonical paths.
pub fn is_within(candidate: &str, root: &str) -> (r: bool)
    ensures
        r == within(candidate@, root@),
{
    let full = root.unicode_len();
    let root: &str = if full > 1 && root.get_char(full - 1) == '/' {
        root.substring_char(0, full - 1)
    } else {
        root
    };
    let rn = root.unicode_len();
    let cn = candidate.unicode_len();
    if rn == 0 {
        return true;
    }
    if !starts_with(candidate, root) {
        proof {
            if candidate@ == root@ {
                assert(candidate@.subrange(0, root@.len() as int) =~= root@);
            }
        }
        return false;
    }
    if cn == rn {
        assert(candidate@ =~= root@);
        return true;
    }
    root.get_char(rn - 1) == '/' || candidate.get_char(rn) == '/'
}

/// The parent directory of `p`, as `Path::parent` does for canonical paths.
pub fn parent_path(p: &str) -> (r: Option<String>)
    ensures
        match r {
            Some(s) => parent(p@) == Some(s@),
            None => parent(p@).is_none(),
        },
{
    let n = p.unicode_len();
    if n == 0 {
        return None;
    }
    if n == 1 && p.get_char(0) == '/' {
        assert(p@ =~= seq!['/']);
        return None;
    }
    proof {
        if p@ == seq!['/'] {
            assert(p@[0] == '/');
        }
        lemma_last_sep_bounds(p@);
    }
    match last_separator(p) {
        Some(0) => {
            let r = owned("/");
            proof {
                reveal_strlit("/");
            }
            Some(r)
        },
        Some(i) => Some(owned(p.substring_char(0, i))),
        None => Some(String::new()),
    }
}

/// The final `/`-separated segment of `p`; all of `p` when it has no `/`.
pub fn last_segment(p: &str) -> (r: &str)
    ensures
        r@ == last_component(p@),
{
    let n = p.unicode_len();
    proof {
        lemma_last_sep_bounds(p@);
    }
    let start = match last_separator(p) {
        Some(i) => i + 1,
        None => 0,
    };
    p.substring_char(start, n)
}

/// The final component of `p`, as `Path::file_name` does for canonical paths.
pub fn file_name_of(p: &str) -> (r: Option<&str>)
    ensures
        match r {
            Some(s) => file_name(p@) == Some(s@),
            None => file_name(p@).is_none(),
        },
{
    let n = p.unicode_len();
    proof {
        lemma_last_sep_bounds(p@);
    }
    let start = match last_separator(p) {
        Some(i) => i + 1,
        None => 0,
    };
    let name = p.substring_char(start, n);
    let m = name.unicode_len();
    if m == 0 {
        return None;
    }
    if m == 2 && name.get_char(0) == '.' && name.get_char(1) == '.' {
        assert(name@ =~= seq!['.', '.']);
        return None;
    }
    proof {
        if name@ == seq!['.', '.'] {
            assert(name@[0] == '.' && name@[1] == '.');
        }
    }
    Some(name)
}

/// Whether `p` has a `..` component.
pub fn has_parent_dir(p: &str) -> (r: bool)
    ensures
        r == has_parent_component(p@),
{
    let n = p.unicode_len();
    let mut start: usize = 0;
    let mut i: usize = 0;
    while i < n
        invariant
            n == p@.len(),
            start <= i <= n,
            start == 0 || p@[start - 1] == '/',
            forall|k: int| start <= k < i ==> p@[k] != '/',
            forall|a: int|
                #![trigger is_segment(p@, a, a + 2)]
                0 <= a && a + 2 <= start && is_segment(p@, a, a + 2) ==> !(p@[a] == '.' && p@[a + 1] == '.'),
        decreases n - i,
    {
        if p.get_char(i) == '/' {
            if i - start == 2 && p.get_char(start) == '.' && p.get_char(start + 1) == '.' {
                assert(is_segment(p@, start as int, start + 2));
                return true;
            }
            assert forall|a: int|
                #![trigger is_segment(p@, a, a + 2)]
                0 <= a && a + 2 <= i + 1 && is_segment(p@, a, a + 2) implies !(p@[a] == '.' && p@[a + 1] == '.') by {
                if a + 2 > start {
                    if a < start {
                        assert(p@[start - 1] == '/');
                    } else if a > start {
                        assert(p@[a - 1] != '/');
                    } else {
                        assert(a + 2 == i);
                    }
                }
            }
            start = i + 1;
        }
        i = i + 1;
    }
    if n - start == 2 && p.get_char(start) == '.' && p.get_char(start + 1) == '.' {
        assert(is_segment(p@, start as int, start + 2));
        return true;
    }
    assert forall|a: int| #[trigger] is_segment(p@, a, a + 2) implies !(p@[a] == '.' && p@[a + 1] == '.') by {
        if a + 2 > start {
            if a < start {
                assert(p@[start - 1] == '/');
            } else if a > start {
                assert(p@[a - 1] != '/');
            }
        }
    }
    false
}

/// Whether `p` is a non-empty relative path without `..` components.
pub fn is_safe_relative_path(p: &str) -> (r: bool)
    ensures
        r == is_safe_relative(p@),
{
    let n = p.unicode_len();
    if n == 0 {
        return false;
    }
    if p.get_char(0) == '/' {
        return false;
    }
    !has_parent_dir(p)
}

/// Joining a safe relative path onto a root never leaves that root.
pub proof fn lemma_join_within(root: Seq<char>, rel: Seq<char>)
    requires
        is_safe_relative(rel),
    ensures
        within(join(root, rel), root),
{
    let j = join(root, rel);
    if root.len() > 0 {
        if root.last() == '/' {
            assert(j.subrange(0, root.len() as int) =~= root);
            if root.len() > 1 {
                let key = root_key(root);
                assert(j.subrange(0, key.len() as int) =~= key);
                assert(j[key.len() as int] == root[key.len() as int]);
            }
        } else {
            assert(j.subrange(0, root.len() as int) =~= root);
            assert(j[root.len() as int] == '/');
        }
    }
}

} // verus!
