//! The integrity manifest of the bundled runtime, and its check against the
//! files found on disk.

use crate::digest::{sha256, sha256_digest};
use crate::text::{
    bytes_to_hex, hex_bytes, lemma_lex_total, lemma_lex_trans, lex_le, str_eq, str_lex_le,
};
use vstd::prelude::*;

verus! {

/// One file of the manifest and its expected SHA-256 digest in lowercase
/// hexadecimal.
#[derive(Debug, Clone)]
pub struct IntegrityEntry {
    pub path: String,
    pub sha256: String,
}

/// The files that make up a runtime version.
#[derive(Debug, Clone)]
pub struct IntegrityManifest {
    pub version: String,
    pub entries: Vec<IntegrityEntry>,
}

#[derive(Debug, Clone, Copy, PartialEq, Eq, Structural)]
pub enum IntegrityStatus {
    Intact,
    Corrupt,
    Missing,
}

/// What was found on disk for one entry of a manifest.
#[derive(Debug, Clone)]
pub enum FileObservation {
    /// No file at the entry's path.
    Missing,
    /// A file that could not be opened or read.
    Unreadable,
    /// A file with these bytes.
    Contents(Vec<u8>),
}

pub struct IntegrityEntryView {
    pub path: Seq<char>,
    pub sha256: Seq<char>,
}

impl View for IntegrityEntry {
    type V = IntegrityEntryView;

    open spec fn view(&self) -> IntegrityEntryView {
        IntegrityEntryView { path: self.path@, sha256: self.sha256@ }
    }
}

pub open spec fn entries_view(s: Seq<IntegrityEntry>) -> Seq<IntegrityEntryView> {
    s.map_values(|e: IntegrityEntry| e@)
}

/// The status of an entry whose file was read and hashed to `digest`.
pub open spec fn digest_status(expected: Seq<char>, digest: Seq<u8>) -> IntegrityStatus {
    if hex_bytes(digest) == expected {
        IntegrityStatus::Intact
    } else {
        IntegrityStatus::Corrupt
    }
}

/// The status of an entry given what was found at its path.
pub open spec fn entry_status(expected: Seq<char>, seen: FileObservation) -> IntegrityStatus {
    match seen {
        FileObservation::Missing => IntegrityStatus::Missing,
        FileObservation::Unreadable => IntegrityStatus::Corrupt,
        FileObservation::Contents(bytes) => digest_status(expected, sha256_digest(bytes@)),
    }
}

pub struct IntegrityChecker;

impl IntegrityChecker {
    /// The status of an entry whose file hashed to `digest`: `Intact` when the
    /// digest, in lowercase hexadecimal, is the expected one.
    pub fn status_of_digest(expected: &str, digest: &[u8]) -> (r: IntegrityStatus)
        ensures
            r == digest_status(expected@, digest@),
    {
        let text = bytes_to_hex(digest);
        if str_eq(text.as_str(), expected) {
            IntegrityStatus::Intact
        } else {
            IntegrityStatus::Corrupt
        }
    }

    /// The status of `entry` given what was found at its path: `Missing`
    /// without a file, `Corrupt` when the file cannot be read or its digest
    /// differs, `Intact` otherwise.
    pub fn check_entry(&self, entry: &IntegrityEntry, seen: &FileObservation) -> (r:
        IntegrityStatus)
        ensures
            r == entry_status(entry.sha256@, *seen),
    {
        match seen {
            FileObservation::Missing => IntegrityStatus::Missing,
            FileObservation::Unreadable => IntegrityStatus::Corrupt,
            FileObservation::Contents(bytes) => {
                let d = sha256(bytes.as_slice());
                Self::status_of_digest(entry.sha256.as_str(), d.as_slice())
            },
        }
    }

    /// The status of every entry of `manifest`, in order, paired with its
    /// path; `observations[i]` is what was found for the `i`-th entry.
    pub fn verify(&self, manifest: &IntegrityManifest, observations: &Vec<FileObservation>) -> (r:
        Vec<(String, IntegrityStatus)>)
        requires
            observations@.len() == manifest.entries@.len(),
        ensures
            r@.len() == manifest.entries@.len(),
            forall|i: int|
                0 <= i < r@.len() ==> {
                    &&& (#[trigger] r@[i]).0@ == manifest.entries@[i].path@
                    &&& r@[i].1 == entry_status(manifest.entries@[i].sha256@, observations@[i])
                },
    {
        let mut results: Vec<(String, IntegrityStatus)> = Vec::new();
        let mut i: usize = 0;
        while i < manifest.entries.len()
            invariant
                i <= manifest.entries@.len(),
                observations@.len() == manifest.entries@.len(),
                results@.len() == i,
                forall|j: int|
                    0 <= j < i ==> {
                        &&& (#[trigger] results@[j]).0@ == manifest.entries@[j].path@
                        &&& results@[j].1 == entry_status(
                            manifest.entries@[j].sha256@,
                            observations@[j],
                        )
                    },
            decreases manifest.entries.len() - i,
        {
            let entry = &manifest.entries[i];
            let status = self.check_entry(entry, &observations[i]);
            results.push((entry.path.clone(), status));
            i = i + 1;
        }
        results
    }
}

/// The entries are ordered by path.
pub open spec fn sorted_by_path(s: Seq<IntegrityEntryView>) -> bool {
    forall|a: int, b: int| 0 <= a < b < s.len() ==> lex_le(#[trigger] s[a].path, #[trigger] s[b].path)
}

pub open spec fn pairs_view(s: Seq<(String, String)>) -> Seq<IntegrityEntryView> {
    s.map_values(|p: (String, String)| IntegrityEntryView { path: p.0@, sha256: p.1@ })
}

/// The manifest of `version` listing the `(path, digest)` pairs of
/// `entries`, ordered by path. The pairs map each path to its digest, so
/// no path is given twice.
pub fn build_manifest(version: &str, entries: Vec<(String, String)>) -> (r: IntegrityManifest)
    requires
        forall|a: int, b: int|
            0 <= a < b < entries@.len() ==> #[trigger] entries@[a].0@ != #[trigger] entries@[b].0@,
    ensures
        r.version@ == version@,
        entries_view(r.entries@).to_multiset() == pairs_view(entries@).to_multiset(),
        sorted_by_path(entries_view(r.entries@)),
{
    let ghost input = pairs_view(entries@);
    let mut list: Vec<IntegrityEntry> = Vec::new();
    let mut i: usize = 0;
    assert(input.subrange(0, 0) =~= Seq::<IntegrityEntryView>::empty());
    assert(entries_view(list@) =~= Seq::<IntegrityEntryView>::empty());
    while i < entries.len()
        invariant
            i <= entries@.len(),
            input == pairs_view(entries@),
            entries_view(list@).to_multiset() == input.subrange(0, i as int).to_multiset(),
            sorted_by_path(entries_view(list@)),
        decreases entries.len() - i,
    {
        let path = entries[i].0.clone();
        let sha = entries[i].1.clone();
        let e = IntegrityEntry { path, sha256: sha };
        let ghost ev = e@;
        assert(input[i as int] == ev);
        let ghost before = entries_view(list@);
        let mut p: usize = 0;
        while p < list.len() && str_lex_le(list[p].path.as_str(), e.path.as_str())
            invariant
                p <= list@.len(),
                before == entries_view(list@),
                ev == e@,
                forall|j: int| 0 <= j < p ==> lex_le(#[trigger] before[j].path, ev.path),
            decreases list.len() - p,
        {
            assert(before[p as int].path == list@[p as int].path@);
            p = p + 1;
        }
        proof {
            if p < before.len() {
                lemma_lex_total(before[p as int].path, ev.path);
            }
        }
        list.insert(p, e);
        proof {
            let after = entries_view(list@);
            assert(after =~= before.insert(p as int, ev));
            assert(before =~= after.remove(p as int));
            assert(after[p as int] == ev);
            broadcast use vstd::seq_lib::group_to_multiset_ensures;
            assert(after.remove(p as int).to_multiset() =~= after.to_multiset().remove(ev));
            assert(after.contains(ev));
            assert(after.to_multiset().count(ev) > 0);
            assert(after.to_multiset() =~= before.to_multiset().insert(ev));
            assert(input.subrange(0, i + 1) =~= input.subrange(0, i as int).push(ev));
            assert(input.subrange(0, i + 1).to_multiset() =~= input.subrange(
                0,
                i as int,
            ).to_multiset().insert(ev));
            assert forall|a: int, b: int| 0 <= a < b < after.len() implies lex_le(
                #[trigger] after[a].path,
                #[trigger] after[b].path,
            ) by {
                if b < p {
                    assert(after[a] == before[a] && after[b] == before[b]);
                } else if b == p {
                    assert(after[a] == before[a]);
                } else if a == p {
                    assert(after[b] == before[b - 1]);
                    if b - 1 > p {
                        lemma_lex_trans(ev.path, before[p as int].path, before[b - 1].path);
                    }
                } else if a < p {
                    assert(after[a] == before[a] && after[b] == before[b - 1]);
                } else {
                    assert(after[a] == before[a - 1] && after[b] == before[b - 1]);
                }
            }
        }
        i = i + 1;
    }
    assert(input.subrange(0, i as int) =~= input);
    IntegrityManifest { version: version.to_owned(), entries: list }
}

} // verus!
