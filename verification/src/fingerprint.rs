//! Content-addressed fingerprints of dataset directories.
//!
//! A directory is summarized by the multiset of its regular files, each as
//! `(relative path, content hash, size)`. The fingerprint is a digest over
//! the entries in canonical (sorted) order, so it does not depend on the
//! order in which the directory was walked.

use vstd::prelude::*;
use vstd::relations::{sorted_by, total_ordering};
use vstd::seq_lib::lemma_sorted_unique;

use crate::strutil::str_eq;
use sha2::Digest;

verus! {

broadcast use vstd::seq_lib::group_seq_lib_default;

/// One regular file of a fingerprinted directory: its path relative to the
/// root, the hex digest of its content, and its size in bytes.
#[derive(Debug, Clone)]
pub struct FileEntry {
    pub path: String,
    pub hash: String,
    pub size: u64,
}

/// Mathematical image of a `FileEntry`.
pub struct FileEntryV {
    pub path: Seq<char>,
    pub hash: Seq<char>,
    pub size: u64,
}

impl View for FileEntry {
    type V = FileEntryV;

    open spec fn view(&self) -> FileEntryV {
        FileEntryV { path: self.path@, hash: self.hash@, size: self.size }
    }
}

/// The views of a vector of entries, in order.
pub open spec fn entries_view(s: Seq<FileEntry>) -> Seq<FileEntryV> {
    Seq::new(s.len(), |i: int| s[i]@)
}

/// Lexicographic order on character sequences.
pub open spec fn chars_le(a: Seq<char>, b: Seq<char>) -> bool
    decreases a.len(),
{
    if a.len() == 0 {
        true
    } else if b.len() == 0 {
        false
    } else if a[0] == b[0] {
        chars_le(a.drop_first(), b.drop_first())
    } else {
        a[0] < b[0]
    }
}

proof fn lemma_chars_le_refl(a: Seq<char>)
    ensures
        chars_le(a, a),
    decreases a.len(),
{
    if a.len() > 0 {
        lemma_chars_le_refl(a.drop_first());
    }
}

proof fn lemma_chars_le_connected(a: Seq<char>, b: Seq<char>)
    ensures
        chars_le(a, b) || chars_le(b, a),
    decreases a.len(),
{
    if a.len() > 0 && b.len() > 0 && a[0] == b[0] {
        lemma_chars_le_connected(a.drop_first(), b.drop_first());
    }
}

proof fn lemma_chars_le_antisym(a: Seq<char>, b: Seq<char>)
    requires
        chars_le(a, b),
        chars_le(b, a),
    ensures
        a == b,
    decreases a.len(),
{
    if a.len() == 0 {
        assert(b.len() == 0);
        assert(a =~= b);
    } else {
        assert(b.len() > 0);
        assert(a[0] == b[0]);
        lemma_chars_le_antisym(a.drop_first(), b.drop_first());
        assert(a =~= seq![a[0]] + a.drop_first());
        assert(b =~= seq![b[0]] + b.drop_first());
    }
}

proof fn lemma_chars_le_trans(a: Seq<char>, b: Seq<char>, c: Seq<char>)
    requires
        chars_le(a, b),
        chars_le(b, c),
    ensures
        chars_le(a, c),
    decreases a.len(),
{
    if a.len() == 0 {
    } else {
        assert(b.len() > 0);
        assert(c.len() > 0);
        if a[0] == b[0] && b[0] == c[0] {
            lemma_chars_le_trans(a.drop_first(), b.drop_first(), c.drop_first());
        }
    }
}

/// Entries are ordered by path, then by hash, then by size, so the order
/// is total even on degenerate inputs; directory scans give each path
/// once, and then this is simply the byte-wise path order.
pub open spec fn entry_le(a: FileEntryV, b: FileEntryV) -> bool {
    if a.path == b.path {
        if a.hash == b.hash {
            a.size <= b.size
        } else {
            chars_le(a.hash, b.hash)
        }
    } else {
        chars_le(a.path, b.path)
    }
}

/// The entry order as a function value, for `sort_by` and `sorted_by`.
pub open spec fn entry_le_fn() -> spec_fn(FileEntryV, FileEntryV) -> bool {
    |a: FileEntryV, b: FileEntryV| entry_le(a, b)
}

/// The entry order is a total order.
pub proof fn lemma_entry_le_total_ordering()
    ensures
        total_ordering(entry_le_fn()),
{
    let r = entry_le_fn();
    assert forall|x: FileEntryV| #[trigger] r(x, x) by {
        lemma_chars_le_refl(x.hash);
    }
    assert forall|x: FileEntryV, y: FileEntryV| #[trigger] r(x, y) && #[trigger] r(y, x) implies x
        == y by {
        if x.path == y.path {
            if x.hash == y.hash {
            } else {
                lemma_chars_le_antisym(x.hash, y.hash);
            }
        } else {
            lemma_chars_le_antisym(x.path, y.path);
        }
    }
    assert forall|x: FileEntryV, y: FileEntryV, z: FileEntryV|
        #[trigger] r(x, y) && #[trigger] r(y, z) implies r(x, z) by {
        if x.path == y.path && y.path == z.path {
            if x.hash == y.hash && y.hash == z.hash {
            } else if x.hash == y.hash {
            } else if y.hash == z.hash {
            } else {
                lemma_chars_le_trans(x.hash, y.hash, z.hash);
                if x.hash == z.hash {
                    lemma_chars_le_antisym(x.hash, y.hash);
                }
            }
        } else if x.path == y.path {
        } else if y.path == z.path {
        } else {
            lemma_chars_le_trans(x.path, y.path, z.path);
            if x.path == z.path {
                lemma_chars_le_antisym(x.path, y.path);
            }
        }
    }
    assert forall|x: FileEntryV, y: FileEntryV| #[trigger] r(x, y) || #[trigger] r(y, x) by {
        if x.path == y.path {
            if x.hash != y.hash {
                lemma_chars_le_connected(x.hash, y.hash);
            }
        } else {
            lemma_chars_le_connected(x.path, y.path);
        }
    }
}

/// Lexicographic comparison of two string slices.
pub fn str_le(a: &str, b: &str) -> (r: bool)
    ensures
        r == chars_le(a@, b@),
{
    let na = a.unicode_len();
    let nb = b.unicode_len();
    proof {
        assert(a@.skip(0) =~= a@);
        assert(b@.skip(0) =~= b@);
    }
    let mut i: usize = 0;
    loop
        invariant
            na == a@.len(),
            nb == b@.len(),
            i <= na,
            i <= nb,
            chars_le(a@, b@) == chars_le(a@.skip(i as int), b@.skip(i as int)),
            chars_le(b@, a@) == chars_le(b@.skip(i as int), a@.skip(i as int)),
        decreases na - i,
    {
        if i == na {
            proof {
                assert(a@.skip(i as int).len() == 0);
            }
            return true;
        }
        if i == nb {
            proof {
                assert(b@.skip(i as int).len() == 0);
                assert(a@.skip(i as int).len() > 0);
            }
            return false;
        }
        let ca = a.get_char(i);
        let cb = b.get_char(i);
        proof {
            assert(a@.skip(i as int)[0] == a@[i as int]);
            assert(b@.skip(i as int)[0] == b@[i as int]);
        }
        if ca == cb {
            proof {
                assert(a@.skip(i as int).drop_first() =~= a@.skip(i + 1));
                assert(b@.skip(i as int).drop_first() =~= b@.skip(i + 1));
            }
            i = i + 1;
        } else {
            return ca < cb;
        }
    }
}

/// The entry order, executably.
pub fn entry_le_exec(a: &FileEntry, b: &FileEntry) -> (r: bool)
    ensures
        r == entry_le(a@, b@),
{
    if str_eq(a.path.as_str(), b.path.as_str()) {
        if str_eq(a.hash.as_str(), b.hash.as_str()) {
            a.size <= b.size
        } else {
            str_le(a.hash.as_str(), b.hash.as_str())
        }
    } else {
        str_le(a.path.as_str(), b.path.as_str())
    }
}

/// A copy of an entry, field by field.
fn clone_entry(e: &FileEntry) -> (r: FileEntry)
    ensures
        r@ == e@,
{
    FileEntry { path: e.path.clone(), hash: e.hash.clone(), size: e.size }
}

/// Sort entries into the canonical order by insertion.
pub fn sort_entries(v: Vec<FileEntry>) -> (r: Vec<FileEntry>)
    ensures
        sorted_by(entries_view(r@), entry_le_fn()),
        entries_view(r@).to_multiset() == entries_view(v@).to_multiset(),
        r@.len() == v@.len(),
{
    broadcast use vstd::seq_lib::group_to_multiset_ensures;

    proof {
        lemma_entry_le_total_ordering();
    }
    let n = v.len();
    let mut out: Vec<FileEntry> = Vec::new();
    let mut i: usize = 0;
    while i < n
        invariant
            n == v@.len(),
            i <= n,
            out@.len() == i,
            sorted_by(entries_view(out@), entry_le_fn()),
            entries_view(out@).to_multiset() == entries_view(v@.subrange(0, i as int)).to_multiset(),
            total_ordering(entry_le_fn()),
        decreases n - i,
    {
        let x = clone_entry(&v[i]);
        let ghost xv = x@;
        let ghost outv0 = entries_view(out@);
        let m = out.len();
        let mut k: usize = 0;
        loop
            invariant
                m == out@.len(),
                k <= m,
                outv0 == entries_view(out@),
                xv == x@,
                sorted_by(outv0, entry_le_fn()),
                total_ordering(entry_le_fn()),
                forall|j: int| 0 <= j < k ==> entry_le(#[trigger] outv0[j], xv),
            ensures
                k <= m,
                forall|j: int| 0 <= j < k ==> entry_le(#[trigger] outv0[j], xv),
                k < m ==> !entry_le(outv0[k as int], xv),
            decreases m - k,
        {
            if k == m {
                break;
            }
            if !entry_le_exec(&out[k], &x) {
                break;
            }
            k = k + 1;
        }
        proof {
            if k < m {
                assert(!entry_le(outv0[k as int], xv));
                assert(entry_le_fn()(outv0[k as int], xv) || entry_le_fn()(xv, outv0[k as int]));
                assert(entry_le(xv, outv0[k as int]));
            }
            assert forall|j: int| k <= j < m implies entry_le(xv, #[trigger] outv0[j]) by {
                assert(entry_le_fn()(outv0[k as int], outv0[j]) || k as int == j);
                assert(entry_le_fn()(xv, outv0[k as int]));
            }
        }
        out.insert(k, x);
        proof {
            let outv1 = entries_view(out@);
            assert(outv1 =~= outv0.insert(k as int, xv));
            assert forall|p: int, q: int| 0 <= p < q < outv1.len() implies #[trigger] entry_le_fn()(
                outv1[p],
                outv1[q],
            ) by {
                let r = entry_le_fn();
                if p < k && q < k {
                    assert(outv1[p] == outv0[p] && outv1[q] == outv0[q]);
                } else if p < k && q == k {
                    assert(outv1[p] == outv0[p] && outv1[q] == xv);
                } else if p < k && q > k {
                    assert(outv1[p] == outv0[p] && outv1[q] == outv0[q - 1]);
                } else if p == k {
                    assert(outv1[p] == xv && outv1[q] == outv0[q - 1]);
                } else {
                    assert(outv1[p] == outv0[p - 1] && outv1[q] == outv0[q - 1]);
                }
            }
            assert(entries_view(v@.subrange(0, i + 1)) =~= entries_view(
                v@.subrange(0, i as int),
            ).push(xv));
            vstd::seq_lib::to_multiset_insert(outv0, k as int, xv);
            vstd::seq_lib::to_multiset_build(entries_view(v@.subrange(0, i as int)), xv);
            assert(outv1.to_multiset() == entries_view(v@.subrange(0, i + 1)).to_multiset());
        }
        i = i + 1;
    }
    proof {
        assert(v@.subrange(0, n as int) =~= v@);
        assert(entries_view(v@.subrange(0, n as int)) =~= entries_view(v@));
    }
    out
}

} // verus!

verus! {

/// The summary of a directory's contents: the digest, the total size and
/// count of its regular files, and the entries in canonical order.
#[derive(Debug, Clone)]
pub struct DirectoryFingerprint {
    pub fingerprint: String,
    pub total_size: u64,
    pub file_count: usize,
    pub files: Vec<FileEntry>,
}

/// Mathematical image of a `DirectoryFingerprint`.
pub struct DirectoryFingerprintV {
    pub fingerprint: Seq<char>,
    pub total_size: u64,
    pub file_count: usize,
    pub files: Seq<FileEntryV>,
}

impl View for DirectoryFingerprint {
    type V = DirectoryFingerprintV;

    open spec fn view(&self) -> DirectoryFingerprintV {
        DirectoryFingerprintV {
            fingerprint: self.fingerprint@,
            total_size: self.total_size,
            file_count: self.file_count,
            files: entries_view(self.files@),
        }
    }
}

/// What the SHA-256 digest of a byte sequence is; a function of the bytes
/// alone, left without a definition here and computed by the hash crate.
pub uninterp spec fn sha256_of(data: Seq<u8>) -> Seq<u8>;

/// Relies on sha2's `Sha256`: the digest depends on the input bytes alone,
/// and is always 32 bytes long.
#[verifier::external_body]
fn sha256(data: &Vec<u8>) -> (r: Vec<u8>)
    ensures
        r@ == sha256_of(data@),
        r@.len() == 32,
{
    sha2::Sha256::digest(data.as_slice()).to_vec()
}

/// The hex digit for a nibble, lower case.
pub open spec fn hex_digit(n: int) -> char
    recommends
        0 <= n < 16,
{
    "0123456789abcdef"@[n]
}

/// The lower-case hex encoding: two digits per byte, high nibble first.
pub open spec fn spec_hex_lower(data: Seq<u8>) -> Seq<char> {
    Seq::new(
        data.len() * 2,
        |i: int|
            if i % 2 == 0 {
                hex_digit((data[i / 2] >> 4) as int)
            } else {
                hex_digit((data[i / 2] & 0x0f) as int)
            },
    )
}

/// Relies on hex::encode: each byte becomes two lower-case hex digits,
/// high nibble first.
#[verifier::external_body]
fn hex_lower(data: &Vec<u8>) -> (r: String)
    ensures
        r@ == spec_hex_lower(data@),
{
    hex::encode(data.as_slice())
}

/// The bytes an entry contributes to the directory digest: its path
/// followed by its content hash, both UTF-8 encoded.
pub open spec fn entry_bytes(e: FileEntryV) -> Seq<u8> {
    vstd::utf8::encode_utf8(e.path) + vstd::utf8::encode_utf8(e.hash)
}

/// The digest pre-image: the concatenated contributions of the entries,
/// in the given order.
pub open spec fn digest_input(s: Seq<FileEntryV>) -> Seq<u8>
    decreases s.len(),
{
    if s.len() == 0 {
        Seq::empty()
    } else {
        digest_input(s.drop_last()) + entry_bytes(s.last())
    }
}

/// The sum of the entry sizes.
pub open spec fn total_size(s: Seq<FileEntryV>) -> int
    decreases s.len(),
{
    if s.len() == 0 {
        0
    } else {
        total_size(s.drop_last()) + s.last().size
    }
}

/// The entries in canonical order.
pub open spec fn spec_sorted_entries(s: Seq<FileEntryV>) -> Seq<FileEntryV> {
    s.sort_by(entry_le_fn())
}

/// The directory digest: hex of the SHA-256 of the sorted entries' bytes.
pub open spec fn spec_digest_chars(s: Seq<FileEntryV>) -> Seq<char> {
    spec_hex_lower(sha256_of(digest_input(spec_sorted_entries(s))))
}

proof fn lemma_total_size_nonneg(s: Seq<FileEntryV>)
    ensures
        total_size(s) >= 0,
    decreases s.len(),
{
    if s.len() > 0 {
        lemma_total_size_nonneg(s.drop_last());
    }
}

proof fn lemma_total_size_split(s: Seq<FileEntryV>, k: int)
    requires
        0 <= k <= s.len(),
    ensures
        total_size(s) == total_size(s.subrange(0, k)) + total_size(s.skip(k)),
    decreases s.len() - k,
{
    if k == s.len() {
        assert(s.subrange(0, k) =~= s);
        assert(s.skip(k).len() == 0);
    } else {
        lemma_total_size_split(s, k + 1);
        assert(s.subrange(0, k + 1).drop_last() =~= s.subrange(0, k));
        assert(s.subrange(0, k + 1).last() == s[k]);
        assert(s.skip(k).drop_first() =~= s.skip(k + 1));
        lemma_total_size_skip_first(s.skip(k));
    }
}

proof fn lemma_total_size_skip_first(s: Seq<FileEntryV>)
    requires
        s.len() > 0,
    ensures
        total_size(s) == s[0].size + total_size(s.drop_first()),
    decreases s.len(),
{
    if s.len() == 1 {
        assert(s.drop_first().len() == 0);
        assert(s.drop_last().len() == 0);
        assert(s.last() == s[0]);
        assert(total_size(s) == total_size(s.drop_last()) + s.last().size);
        assert(total_size(s.drop_last()) == 0);
        assert(total_size(s.drop_first()) == 0);
    } else {
        lemma_total_size_skip_first(s.drop_last());
        assert(total_size(s) == total_size(s.drop_last()) + s.last().size);
        assert(s.drop_last()[0] == s[0]);
        assert(total_size(s.drop_last()) == s[0].size + total_size(s.drop_last().drop_first()));
        assert(s.drop_first().len() > 0);
        assert(total_size(s.drop_first()) == total_size(s.drop_first().drop_last())
            + s.drop_first().last().size);
        assert(s.drop_first().drop_last() =~= s.drop_last().drop_first());
        assert(s.drop_first().last() == s.last());
    }
}

proof fn lemma_total_size_remove(s: Seq<FileEntryV>, i: int)
    requires
        0 <= i < s.len(),
    ensures
        total_size(s) == total_size(s.remove(i)) + s[i].size,
    decreases s.len(),
{
    if i == s.len() - 1 {
        assert(s.remove(i) =~= s.drop_last());
    } else {
        lemma_total_size_remove(s.drop_last(), i);
        assert(s.remove(i).drop_last() =~= s.drop_last().remove(i));
        assert(s.remove(i).last() == s.last());
        assert(s.drop_last()[i] == s[i]);
    }
}

/// The total size of a set of entries does not depend on their order.
pub proof fn lemma_total_size_permutation(s1: Seq<FileEntryV>, s2: Seq<FileEntryV>)
    requires
        s1.to_multiset() == s2.to_multiset(),
    ensures
        total_size(s1) == total_size(s2),
    decreases s1.len(),
{
    broadcast use vstd::seq_lib::group_to_multiset_ensures;

    vstd::seq_lib::to_multiset_len(s1);
    vstd::seq_lib::to_multiset_len(s2);
    if s1.len() == 0 {
        assert(s2.len() == 0);
    } else {
        let x = s1.last();
        assert(s1.contains(x));
        assert(s1.to_multiset().count(x) > 0);
        assert(s2.to_multiset().count(x) > 0);
        assert(s2.contains(x));
        let j = choose|j: int| 0 <= j < s2.len() && s2[j] == x;
        lemma_total_size_remove(s2, j);
        vstd::seq_lib::to_multiset_remove(s2, j);
        vstd::seq_lib::to_multiset_remove(s1, s1.len() - 1);
        assert(s1.remove(s1.len() - 1) =~= s1.drop_last());
        lemma_total_size_permutation(s1.drop_last(), s2.remove(j));
    }
}

/// Push the bytes of a slice onto an accumulator.
fn push_bytes(acc: &mut Vec<u8>, s: &[u8])
    ensures
        final(acc)@ == old(acc)@ + s@,
{
    let n = s.len();
    let mut j: usize = 0;
    while j < n
        invariant
            n == s@.len(),
            j <= n,
            acc@ == old(acc)@ + s@.subrange(0, j as int),
        decreases n - j,
    {
        acc.push(s[j]);
        j = j + 1;
        proof {
            assert(old(acc)@ + s@.subrange(0, j as int) =~= (old(acc)@ + s@.subrange(
                0,
                j - 1,
            )).push(s@[j - 1]));
        }
    }
    proof {
        assert(s@.subrange(0, n as int) =~= s@);
    }
}

/// The digest pre-image of the entries, in their current order.
fn digest_input_exec(files: &Vec<FileEntry>) -> (r: Vec<u8>)
    ensures
        r@ == digest_input(entries_view(files@)),
{
    let ghost full = entries_view(files@);
    let mut acc: Vec<u8> = Vec::new();
    let n = files.len();
    let mut i: usize = 0;
    while i < n
        invariant
            full == entries_view(files@),
            n == files@.len(),
            i <= n,
            acc@ == digest_input(full.subrange(0, i as int)),
        decreases n - i,
    {
        push_bytes(&mut acc, files[i].path.as_str().as_bytes());
        push_bytes(&mut acc, files[i].hash.as_str().as_bytes());
        proof {
            assert(full.subrange(0, i + 1).drop_last() =~= full.subrange(0, i as int));
            assert(full.subrange(0, i + 1).last() == full[i as int]);
            assert(entry_bytes(full[i as int]) == vstd::utf8::encode_utf8(full[i as int].path)
                + vstd::utf8::encode_utf8(full[i as int].hash));
        }
        i = i + 1;
    }
    proof {
        assert(full.subrange(0, n as int) =~= full);
    }
    acc
}

/// Summarize a scanned directory from its file entries, however ordered:
/// the entries are brought into canonical order, their sizes are summed,
/// and the digest is computed over the sorted `(path, hash)` pairs.
pub fn fingerprint_entries(entries: Vec<FileEntry>) -> (r: DirectoryFingerprint)
    requires
        total_size(entries_view(entries@)) <= u64::MAX,
    ensures
        r@.files == spec_sorted_entries(entries_view(entries@)),
        r@.fingerprint == spec_digest_chars(entries_view(entries@)),
        r@.file_count == entries@.len(),
        r@.total_size == total_size(entries_view(entries@)),
{
    let ghost orig = entries_view(entries@);
    let files = sort_entries(entries);
    let ghost fv = entries_view(files@);
    proof {
        lemma_entry_le_total_ordering();
        orig.lemma_sort_by_ensures(entry_le_fn());
        lemma_sorted_unique(fv, orig.sort_by(entry_le_fn()), entry_le_fn());
        assert(fv == spec_sorted_entries(orig));
        lemma_total_size_permutation(fv, orig);
    }
    let n = files.len();
    let mut total: u64 = 0;
    let mut i: usize = 0;
    while i < n
        invariant
            fv == entries_view(files@),
            n == files@.len(),
            i <= n,
            total == total_size(fv.subrange(0, i as int)),
            total_size(fv) <= u64::MAX,
        decreases n - i,
    {
        proof {
            assert(fv.subrange(0, i + 1).drop_last() =~= fv.subrange(0, i as int));
            assert(fv.subrange(0, i + 1).last() == fv[i as int]);
            lemma_total_size_split(fv, i + 1);
            lemma_total_size_nonneg(fv.skip(i + 1));
        }
        total = total + files[i].size;
        i = i + 1;
    }
    proof {
        assert(fv.subrange(0, n as int) =~= fv);
    }
    let input = digest_input_exec(&files);
    let digest = sha256(&input);
    let fingerprint = hex_lower(&digest);
    let file_count = files.len();
    DirectoryFingerprint { fingerprint, total_size: total, file_count, files }
}

/// The fingerprint does not depend on traversal order: two scans that
/// found the same set of `(path, hash, size)` entries — however ordered —
/// agree on the sorted entries, the digest, and the total size.
pub proof fn lemma_fingerprint_traversal_independent(s1: Seq<FileEntryV>, s2: Seq<FileEntryV>)
    requires
        s1.to_multiset() == s2.to_multiset(),
    ensures
        spec_sorted_entries(s1) == spec_sorted_entries(s2),
        spec_digest_chars(s1) == spec_digest_chars(s2),
        total_size(s1) == total_size(s2),
{
    lemma_entry_le_total_ordering();
    s1.lemma_sort_by_ensures(entry_le_fn());
    s2.lemma_sort_by_ensures(entry_le_fn());
    lemma_sorted_unique(s1.sort_by(entry_le_fn()), s2.sort_by(entry_le_fn()), entry_le_fn());
    lemma_total_size_permutation(s1, s2);
}

} // verus!

verus! {

/// The hex digest of a byte string's SHA-256 — the per-file content hash
/// recorded in a fingerprint entry.
pub fn sha256_hex(data: &Vec<u8>) -> (r: String)
    ensures
        r@ == spec_hex_lower(sha256_of(data@)),
{
    let digest = sha256(data);
    hex_lower(&digest)
}

} // verus!
