//! The content tree fingerprint: 64-bit FNV-1a over every regular file, in
//! sorted relative-path order, hashing each path, a zero byte, and the file's
//! bytes.

use vstd::prelude::*;
use crate::text::{hex_fixed, hex_string, text_lt, lemma_text_lt_order, lemma_text_lt_transitive};
use crate::content::{Fingerprint, FINGERPRINT_ALGORITHM};

verus! {

/// FNV-1a 64-bit offset basis.
pub const FNV_OFFSET: u64 = 0xcbf29ce484222325;
/// FNV-1a 64-bit prime.
pub const FNV_PRIME: u64 = 0x100000001b3;

/// One FNV-1a round: xor the byte in, multiply by the prime modulo 2^64.
pub open spec fn fnv_step(h: u64, b: u8) -> u64 {
    (h ^ (b as u64)).wrapping_mul(FNV_PRIME)
}

/// The hash state after feeding `bytes` to state `h`.
pub open spec fn fnv(h: u64, bytes: Seq<u8>) -> u64
    decreases bytes.len(),
{
    if bytes.len() == 0 {
        h
    } else {
        fnv_step(fnv(h, bytes.drop_last()), bytes.last())
    }
}

/// Feeding two byte strings one after the other is feeding their
/// concatenation: the fingerprint does not depend on how a file is split into
/// reads.
pub proof fn law_fnv_concat(h: u64, a: Seq<u8>, b: Seq<u8>)
    ensures
        fnv(h, a + b) == fnv(fnv(h, a), b),
    decreases b.len(),
{
    if b.len() == 0 {
        assert(a + b =~= a);
    } else {
        law_fnv_concat(h, a, b.drop_last());
        assert((a + b).drop_last() =~= a + b.drop_last());
        assert((a + b).last() == b.last());
    }
}

/// Feed `bytes` to the hash state.
pub fn update_hash(hash: &mut u64, bytes: &[u8])
    ensures
        *final(hash) == fnv(*old(hash), bytes@),
{
    let ghost start = *hash;
    let mut i: usize = 0;
    while i < bytes.len()
        invariant
            i <= bytes@.len(),
            *hash == fnv(start, bytes@.subrange(0, i as int)),
        decreases bytes@.len() - i,
    {
        let b = bytes[i];
        let mixed = *hash ^ (b as u64);
        *hash = mixed.wrapping_mul(FNV_PRIME);
        proof {
            assert(bytes@.subrange(0, i + 1).drop_last() =~= bytes@.subrange(0, i as int));
        }
        i = i + 1;
    }
    proof {
        assert(bytes@.subrange(0, bytes@.len() as int) =~= bytes@);
    }
}

/// A file of the tree as the fingerprint sees it: its relative path and its
/// contents.
pub open spec fn tree_hash(h: u64, files: Seq<(Seq<u8>, Seq<u8>)>) -> u64
    decreases files.len(),
{
    if files.len() == 0 {
        h
    } else {
        let last = files.last();
        fnv(fnv(fnv(tree_hash(h, files.drop_last()), last.0), seq![0u8]), last.1)
    }
}

/// Total content bytes of the files.
pub open spec fn tree_bytes(files: Seq<(Seq<u8>, Seq<u8>)>) -> nat
    decreases files.len(),
{
    if files.len() == 0 {
        0
    } else {
        tree_bytes(files.drop_last()) + files.last().1.len()
    }
}

/// The fingerprint of a tree whose files, in order, are `files`.
pub open spec fn tree_fingerprint_hash(files: Seq<(Seq<u8>, Seq<u8>)>) -> Seq<char> {
    hex_fixed(tree_hash(FNV_OFFSET, files) as nat, 16)
}

/// A fingerprint being computed, file by file and read by read.
pub struct FingerprintBuilder {
    hash: u64,
    files: u64,
    bytes: u64,
    fed: Ghost<Seq<(Seq<u8>, Seq<u8>)>>,
    open_file: Ghost<bool>,
}

impl FingerprintBuilder {
    /// The builder has seen exactly the files `fed`.
    pub closed spec fn wf(self) -> bool {
        &&& self.hash == tree_hash(FNV_OFFSET, self.fed@)
        &&& self.bytes == tree_bytes(self.fed@)
        &&& self.files == (if self.open_file@ { self.fed@.len() - 1 } else { self.fed@.len() as int })
        &&& self.open_file@ ==> self.fed@.len() > 0
    }

    /// Files fed so far, as (relative path, contents), the last one possibly
    /// still open.
    pub closed spec fn fed_files(self) -> Seq<(Seq<u8>, Seq<u8>)> {
        self.fed@
    }

    /// Whether the last fed file takes more contents.
    pub closed spec fn file_open(self) -> bool {
        self.open_file@
    }

    /// Number of content bytes fed so far.
    pub closed spec fn byte_count(self) -> nat {
        self.bytes as nat
    }

    /// Number of files finished so far.
    pub closed spec fn file_count(self) -> nat {
        self.files as nat
    }

    /// A builder that has seen nothing.
    pub fn new() -> (r: Self)
        ensures
            r.wf(),
            r.fed_files() == Seq::<(Seq<u8>, Seq<u8>)>::empty(),
            !r.file_open(),
            r.byte_count() == 0,
            r.file_count() == 0,
    {
        FingerprintBuilder { hash: FNV_OFFSET, files: 0, bytes: 0, fed: Ghost(Seq::empty()), open_file: Ghost(false) }
    }

    /// Start the next file, at `relative_path` (as bytes).
    pub fn start_file(&mut self, relative_path: &[u8])
        requires
            old(self).wf(),
            !old(self).file_open(),
        ensures
            final(self).wf(),
            final(self).file_open(),
            final(self).fed_files() == old(self).fed_files().push((relative_path@, Seq::<u8>::empty())),
            final(self).byte_count() == old(self).byte_count(),
            final(self).file_count() == old(self).file_count(),
    {
        let mut hash = self.hash;
        update_hash(&mut hash, relative_path);
        let zero: [u8; 1] = [0u8];
        update_hash(&mut hash, zero.as_slice());
        proof {
            assert(zero@ =~= seq![0u8]);
        }
        let ghost before = self.fed@;
        self.hash = hash;
        self.fed = Ghost(before.push((relative_path@, Seq::empty())));
        self.open_file = Ghost(true);
        proof {
            let fed = self.fed@;
            assert(fed.drop_last() =~= before);
            assert(fnv(fnv(fnv(tree_hash(FNV_OFFSET, before), relative_path@), seq![0u8]), Seq::empty()) == self.hash);
            assert(tree_bytes(fed) == tree_bytes(before) + 0);
        }
    }

    /// Feed the next read of the open file.
    pub fn add_contents(&mut self, chunk: &[u8])
        requires
            old(self).wf(),
            old(self).file_open(),
            old(self).byte_count() + chunk@.len() <= u64::MAX,
        ensures
            final(self).wf(),
            final(self).file_open(),
            final(self).fed_files() == old(self).fed_files().drop_last().push((old(self).fed_files().last().0, old(self).fed_files().last().1 + chunk@)),
            final(self).byte_count() == old(self).byte_count() + chunk@.len(),
            final(self).file_count() == old(self).file_count(),
    {
        let ghost before = self.fed@;
        let ghost last = before.last();
        let mut hash = self.hash;
        update_hash(&mut hash, chunk);
        let n = chunk.len();
        self.hash = hash;
        self.bytes = self.bytes + n as u64;
        self.fed = Ghost(before.drop_last().push((last.0, last.1 + chunk@)));
        proof {
            let fed = self.fed@;
            let prefix = before.drop_last();
            assert(fed.drop_last() =~= prefix);
            law_fnv_concat(fnv(fnv(tree_hash(FNV_OFFSET, prefix), last.0), seq![0u8]), last.1, chunk@);
        }
    }

    /// Finish the open file.
    pub fn end_file(&mut self)
        requires
            old(self).wf(),
            old(self).file_open(),
            old(self).file_count() < u64::MAX,
        ensures
            final(self).wf(),
            !final(self).file_open(),
            final(self).fed_files() == old(self).fed_files(),
            final(self).byte_count() == old(self).byte_count(),
            final(self).file_count() == old(self).file_count() + 1,
    {
        self.files = self.files + 1;
        self.open_file = Ghost(false);
    }

    /// The fingerprint of everything fed.
    pub fn finish(&self) -> (r: Fingerprint)
        requires
            self.wf(),
            !self.file_open(),
        ensures
            r.algorithm@ == FINGERPRINT_ALGORITHM@,
            r.hash@ == tree_fingerprint_hash(self.fed_files()),
            r.files == self.fed_files().len(),
            r.bytes == tree_bytes(self.fed_files()),
    {
        Fingerprint {
            algorithm: FINGERPRINT_ALGORITHM.to_owned(),
            hash: hex_string(self.hash, 16),
            files: self.files,
            bytes: self.bytes,
        }
    }
}

/// The key by which relative paths are ordered: each separator read as the
/// least character. For paths of non-empty components without NUL
/// characters, ordering keys as text orders paths component by component,
/// as `Path`'s `Ord` does: a component sorts before any longer one it
/// begins, and a path before the paths below it.
pub open spec fn path_key(p: Seq<char>) -> Seq<char> {
    Seq::new(p.len(), |i: int| if p[i] == '/' { '\0' } else { p[i] })
}

fn key_char(c: char) -> (r: char)
    ensures
        r == (if c == '/' { '\0' } else { c }),
{
    if c == '/' { '\0' } else { c }
}

/// Whether relative path `a` sorts strictly before `b`.
pub fn path_before(a: &str, b: &str) -> (r: bool)
    ensures
        r == text_lt(path_key(a@), path_key(b@)),
{
    let ghost ka = path_key(a@);
    let ghost kb = path_key(b@);
    let n = a.unicode_len();
    let m = b.unicode_len();
    let mut i: usize = 0;
    assert(ka.subrange(0, n as int) =~= ka);
    assert(kb.subrange(0, m as int) =~= kb);
    while i < n && i < m
        invariant
            n == a@.len(),
            m == b@.len(),
            ka == path_key(a@),
            kb == path_key(b@),
            i <= n,
            i <= m,
            text_lt(ka, kb) == text_lt(ka.subrange(i as int, n as int), kb.subrange(i as int, m as int)),
        decreases n - i,
    {
        let x = key_char(a.get_char(i));
        let y = key_char(b.get_char(i));
        let ghost sa = ka.subrange(i as int, n as int);
        let ghost sb = kb.subrange(i as int, m as int);
        assert(sa[0] == x && sb[0] == y);
        if x != y {
            return (x as u32) < (y as u32);
        }
        assert(sa.drop_first() =~= ka.subrange(i + 1, n as int));
        assert(sb.drop_first() =~= kb.subrange(i + 1, m as int));
        i = i + 1;
    }
    assert(ka.subrange(i as int, n as int).len() == n - i);
    assert(kb.subrange(i as int, m as int).len() == m - i);
    i == n && i < m
}

/// Relative paths in ascending path order.
pub open spec fn paths_ascending(v: Seq<String>) -> bool {
    forall|i: int, j: int| 0 <= i < j < v.len() ==> !text_lt(path_key(#[trigger] v[j]@), path_key(#[trigger] v[i]@))
}

/// The order in which the fingerprint reads a tree's files: the given
/// relative paths, sorted by path.
pub fn fingerprint_order(paths: Vec<String>) -> (r: Vec<String>)
    ensures
        paths_ascending(r@),
        r@.to_multiset() == paths@.to_multiset(),
{
    let ghost input = paths@;
    let mut out: Vec<String> = Vec::new();
    let mut rest = paths;
    proof {
        assert(input =~= out@ + rest@);
        vstd::seq_lib::lemma_multiset_commutative(out@, rest@);
    }
    while rest.len() > 0
        invariant
            paths_ascending(out@),
            out@.to_multiset().add(rest@.to_multiset()) == input.to_multiset(),
        decreases rest@.len(),
    {
        let ghost rest_before = rest@;
        let item = rest.remove(0);
        proof {
            assert(rest@ =~= rest_before.remove(0));
            vstd::seq_lib::to_multiset_remove(rest_before, 0);
            assert(rest_before[0] == item);
            vstd::seq_lib::to_multiset_contains(rest_before, item);
        }
        let ghost key = path_key(item@);
        let mut pos = out.len();
        while pos > 0 && path_before(item.as_str(), out[pos - 1].as_str())
            invariant
                pos <= out@.len(),
                paths_ascending(out@),
                key == path_key(item@),
                forall|k: int| pos <= k < out@.len() ==> text_lt(key, path_key(#[trigger] out@[k]@)),
            decreases pos,
        {
            pos = pos - 1;
        }
        proof {
            if pos > 0 {
                lemma_text_lt_order(path_key(out@[pos - 1]@), key);
            }
        }
        let ghost out_before = out@;
        out.insert(pos, item);
        proof {
            assert forall|i: int, j: int| 0 <= i < j < out@.len() implies !text_lt(path_key(#[trigger] out@[j]@), path_key(#[trigger] out@[i]@)) by {
                if j < pos {
                    assert(out@[i] == out_before[i] && out@[j] == out_before[j]);
                } else if j == pos {
                    assert(out@[i] == out_before[i]);
                    assert(!text_lt(key, path_key(out_before[pos - 1]@)));
                    if i < pos - 1 {
                        assert(!text_lt(path_key(out_before[pos - 1]@), path_key(out_before[i]@)));
                        lemma_text_lt_order(path_key(out_before[i]@), path_key(out_before[pos - 1]@));
                        if text_lt(key, path_key(out_before[i]@)) {
                            lemma_text_lt_order(key, path_key(out_before[pos - 1]@));
                            lemma_text_lt_transitive(key, path_key(out_before[i]@), path_key(out_before[pos - 1]@));
                        }
                    }
                } else if i == pos {
                    assert(out@[j] == out_before[j - 1]);
                    assert(text_lt(key, path_key(out_before[j - 1]@)));
                    lemma_text_lt_order(key, path_key(out_before[j - 1]@));
                } else if i < pos {
                    assert(out@[i] == out_before[i] && out@[j] == out_before[j - 1]);
                } else {
                    assert(out@[i] == out_before[i - 1] && out@[j] == out_before[j - 1]);
                }
            }
            assert(out@ =~= out_before.insert(pos as int, item));
            vstd::seq_lib::to_multiset_insert(out_before, pos as int, item);
            broadcast use vstd::multiset::group_multiset_axioms;
            assert(out@.to_multiset().add(rest@.to_multiset()) =~= input.to_multiset());
        }
    }
    proof {
        assert(out@ + rest@ =~= out@);
        vstd::seq_lib::lemma_multiset_commutative(out@, rest@);
    }
    out
}

} // verus!
