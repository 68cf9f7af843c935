//! Dataset import: the manifest written once at import, and how a
//! dataset's files are found again by storage mode.

use vstd::prelude::*;

use crate::fingerprint::{
    lemma_fingerprint_traversal_independent, spec_digest_chars, spec_sorted_entries, total_size,
    DirectoryFingerprint, DirectoryFingerprintV, FileEntryV,
};
use crate::strutil::str_eq;

verus! {

/// The persisted description of an imported dataset: identity, source,
/// storage mode and content fingerprint. Written once, never mutated.
#[derive(Debug, Clone)]
pub struct DatasetManifest {
    pub id: String,
    pub name: String,
    pub source_path: String,
    pub storage_mode: String,
    pub fingerprint: DirectoryFingerprint,
    pub created_at: String,
}

/// Mathematical image of a `DatasetManifest`.
pub struct DatasetManifestV {
    pub id: Seq<char>,
    pub name: Seq<char>,
    pub source_path: Seq<char>,
    pub storage_mode: Seq<char>,
    pub fingerprint: DirectoryFingerprintV,
    pub created_at: Seq<char>,
}

impl View for DatasetManifest {
    type V = DatasetManifestV;

    open spec fn view(&self) -> DatasetManifestV {
        DatasetManifestV {
            id: self.id@,
            name: self.name@,
            source_path: self.source_path@,
            storage_mode: self.storage_mode@,
            fingerprint: self.fingerprint@,
            created_at: self.created_at@,
        }
    }
}

/// The manifest of a fresh import: `copy` mode duplicates the files into
/// workspace storage, `reference` mode records only fingerprint and
/// source path.
pub fn build_manifest(
    dataset_id: &str,
    name: &str,
    source_path: &str,
    copy: bool,
    fingerprint: DirectoryFingerprint,
    created_at: &str,
) -> (r: DatasetManifest)
    ensures
        r@.id == dataset_id@,
        r@.name == name@,
        r@.source_path == source_path@,
        r@.storage_mode == if copy {
            "copy"@
        } else {
            "reference"@
        },
        r@.fingerprint == fingerprint@,
        r@.created_at == created_at@,
{
    DatasetManifest {
        id: String::from_str(dataset_id),
        name: String::from_str(name),
        source_path: String::from_str(source_path),
        storage_mode: if copy {
            String::from_str("copy")
        } else {
            String::from_str("reference")
        },
        fingerprint,
        created_at: String::from_str(created_at),
    }
}

/// Where a dataset's files live: under the workspace dataset directory
/// for `copy` mode, at the recorded source path otherwise.
pub fn resolve_data_path(manifest: &DatasetManifest, dataset_dir: &str) -> (r: String)
    ensures
        manifest@.storage_mode == "copy"@ ==> r@ == dataset_dir@ + "/raw"@,
        manifest@.storage_mode != "copy"@ ==> r@ == manifest@.source_path,
{
    if str_eq(manifest.storage_mode.as_str(), "copy") {
        String::from_str(dataset_dir).concat("/raw")
    } else {
        manifest.source_path.clone()
    }
}

/// The round trip of `copy` mode: a copy that reproduces every
/// `(relative path, content hash, size)` entry of the source — as
/// duplicating each file under the same relative path does — carries the
/// same fingerprint digest as the source, whatever order either
/// directory was scanned in.
pub proof fn lemma_copy_roundtrip(source: Seq<FileEntryV>, copied: Seq<FileEntryV>)
    requires
        copied.to_multiset() == source.to_multiset(),
    ensures
        spec_digest_chars(copied) == spec_digest_chars(source),
        spec_sorted_entries(copied) == spec_sorted_entries(source),
        total_size(copied) == total_size(source),
{
    lemma_fingerprint_traversal_independent(copied, source);
}

} // verus!

verus! {

/// One file entry of the persisted manifest.
pub open spec fn spec_entry_json(e: FileEntryV) -> Seq<char> {
    "{\"path\":\""@ + crate::json::spec_escape(e.path) + "\",\"hash\":\""@
        + crate::json::spec_escape(e.hash) + "\",\"size\":"@ + crate::strutil::spec_u64_chars(
        e.size as int,
    ) + "}"@
}

/// The file entries of the persisted manifest, comma-separated.
pub open spec fn spec_entries_json(s: Seq<FileEntryV>) -> Seq<char>
    decreases s.len(),
{
    if s.len() == 0 {
        Seq::empty()
    } else if s.len() == 1 {
        spec_entry_json(s[0])
    } else {
        spec_entries_json(s.drop_last()) + ","@ + spec_entry_json(s.last())
    }
}

/// The fingerprint object of the persisted manifest.
pub open spec fn spec_fingerprint_json(f: DirectoryFingerprintV) -> Seq<char> {
    "{\"fingerprint\":\""@ + crate::json::spec_escape(f.fingerprint) + "\",\"total_size\":"@
        + crate::strutil::spec_u64_chars(f.total_size as int) + ",\"file_count\":"@
        + crate::strutil::spec_u64_chars(f.file_count as int) + ",\"files\":["@
        + spec_entries_json(f.files) + "]}"@
}

/// The persisted manifest document: one JSON object with the dataset's
/// identity, source, storage mode, nested fingerprint, and creation
/// instant.
pub open spec fn spec_manifest_json(m: DatasetManifestV) -> Seq<char> {
    "{\"id\":\""@ + crate::json::spec_escape(m.id) + "\",\"name\":\""@
        + crate::json::spec_escape(m.name) + "\",\"source_path\":\""@
        + crate::json::spec_escape(m.source_path) + "\",\"storage_mode\":\""@
        + crate::json::spec_escape(m.storage_mode) + "\",\"fingerprint\":"@
        + spec_fingerprint_json(m.fingerprint) + ",\"created_at\":\""@
        + crate::json::spec_escape(m.created_at) + "\"}"@
}

/// One file entry, serialized.
fn entry_json(e: &crate::fingerprint::FileEntry) -> (r: String)
    ensures
        r@ == spec_entry_json(e@),
{
    String::from_str("{\"path\":\"").concat(
        crate::json::escape_string(e.path.as_str()).as_str(),
    ).concat("\",\"hash\":\"").concat(
        crate::json::escape_string(e.hash.as_str()).as_str(),
    ).concat("\",\"size\":").concat(crate::strutil::u64_to_string(e.size).as_str()).concat("}")
}

/// Serialize a manifest to its persisted JSON document.
pub fn manifest_to_json(m: &DatasetManifest) -> (r: String)
    ensures
        r@ == spec_manifest_json(m@),
{
    let ghost fv = crate::fingerprint::entries_view(m.fingerprint.files@);
    let n = m.fingerprint.files.len();
    let mut entries = String::new();
    proof {
        assert(fv.subrange(0, 0) =~= Seq::<FileEntryV>::empty());
    }
    let mut i: usize = 0;
    while i < n
        invariant
            fv == crate::fingerprint::entries_view(m.fingerprint.files@),
            n == m.fingerprint.files@.len(),
            i <= n,
            entries@ == spec_entries_json(fv.subrange(0, i as int)),
        decreases n - i,
    {
        let one = entry_json(&m.fingerprint.files[i]);
        if i > 0 {
            entries = entries.concat(",").concat(one.as_str());
        } else {
            entries = entries.concat(one.as_str());
        }
        proof {
            assert(fv.subrange(0, i + 1).drop_last() =~= fv.subrange(0, i as int));
            assert(fv.subrange(0, i + 1).last() == fv[i as int]);
        }
        i = i + 1;
    }
    proof {
        assert(fv.subrange(0, n as int) =~= fv);
    }
    let fingerprint_json = String::from_str("{\"fingerprint\":\"").concat(
        crate::json::escape_string(m.fingerprint.fingerprint.as_str()).as_str(),
    ).concat("\",\"total_size\":").concat(
        crate::strutil::u64_to_string(m.fingerprint.total_size).as_str(),
    ).concat(",\"file_count\":").concat(
        crate::strutil::u64_to_string(m.fingerprint.file_count as u64).as_str(),
    ).concat(",\"files\":[").concat(entries.as_str()).concat("]}");
    String::from_str("{\"id\":\"").concat(
        crate::json::escape_string(m.id.as_str()).as_str(),
    ).concat("\",\"name\":\"").concat(
        crate::json::escape_string(m.name.as_str()).as_str(),
    ).concat("\",\"source_path\":\"").concat(
        crate::json::escape_string(m.source_path.as_str()).as_str(),
    ).concat("\",\"storage_mode\":\"").concat(
        crate::json::escape_string(m.storage_mode.as_str()).as_str(),
    ).concat("\",\"fingerprint\":").concat(fingerprint_json.as_str()).concat(
        ",\"created_at\":\"",
    ).concat(crate::json::escape_string(m.created_at.as_str()).as_str()).concat("\"}")
}

} // verus!
