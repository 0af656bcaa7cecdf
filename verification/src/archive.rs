//! Extracting a replacement binary from a downloaded zip archive.
//!
//! An update asset arrives as raw archive bytes; the file to stage is
//! located inside by a case-insensitive name-suffix match and its
//! decompressed bytes are returned, leaving the write of those bytes —
//! the last step — to the caller. The zip crate reads the archive
//! behind trusted wrappers; which entry is chosen — the first whose
//! stored name matches — is verified against a model of the archive's
//! entries, and the bytes that come back are pinned to that entry.

use vstd::prelude::*;

use crate::chars::{ends_with, ends_with_ci, lower};

use std::io::Cursor;
use std::io::Read;
use zip::ZipArchive;

verus! {

#[verifier::external_type_specification]
#[verifier::external_body]
#[verifier::reject_recursive_types(R)]
pub struct ExZipArchive<R>(ZipArchive<R>);

#[verifier::external_type_specification]
#[verifier::external_body]
#[verifier::reject_recursive_types(T)]
pub struct ExCursor<T>(Cursor<T>);

/// The entries of an opened archive: for each file, in central-
/// directory order, its stored name and its decompressed bytes.
pub uninterp spec fn archive_entries(a: ZipArchive<Cursor<Vec<u8>>>) -> Seq<(Seq<char>, Seq<u8>)>;

/// Whether entry `i` of an opened archive can actually be opened and
/// its bytes fully read (known method, not encrypted, data intact): a
/// function of the in-memory archive and the index alone.
pub uninterp spec fn entry_readable(a: ZipArchive<Cursor<Vec<u8>>>, i: int) -> bool;

/// What opening the given bytes yields: the entries of the archive
/// they form, or nothing when they are not a readable archive. A
/// function of the bytes alone.
pub uninterp spec fn zip_entries(bytes: Seq<u8>) -> Option<Seq<(Seq<char>, Seq<u8>)>>;

/// Whether entry `i` of the archive formed by the given bytes can be
/// fully read: a function of the bytes and the index alone.
pub uninterp spec fn zip_entry_readable(bytes: Seq<u8>, i: int) -> bool;

/// Relies on zip::ZipArchive::new: parses the central directory of an
/// archive held in memory, a deterministic function of the bytes;
/// `None` exactly when the bytes are not a readable archive.
#[verifier::external_body]
fn open_archive(bytes: Vec<u8>) -> (r: Option<ZipArchive<Cursor<Vec<u8>>>>)
    ensures
        r is Some <==> zip_entries(bytes@) is Some,
        r matches Some(a) ==> archive_entries(a) == zip_entries(bytes@)->0,
        r matches Some(a) ==> forall|i: int|
            #[trigger] entry_readable(a, i) == zip_entry_readable(bytes@, i),
{
    ZipArchive::new(Cursor::new(bytes)).ok()
}

/// Relies on zip::ZipArchive::len: the number of files the archive
/// contains.
#[verifier::external_body]
fn archive_len(a: &ZipArchive<Cursor<Vec<u8>>>) -> (r: usize)
    ensures
        r == archive_entries(*a).len(),
{
    a.len()
}

/// Relies on zip::ZipArchive::name_for_index: the stored name of entry
/// `i`, read from the parsed directory metadata; it is absent only for
/// an out-of-range index, which the precondition excludes.
#[verifier::external_body]
fn entry_name(a: &ZipArchive<Cursor<Vec<u8>>>, i: usize) -> (r: String)
    requires
        i < archive_entries(*a).len(),
    ensures
        r@ == archive_entries(*a)[i as int].0,
{
    a.name_for_index(i).unwrap().to_string()
}

/// Relies on zip::ZipArchive::by_index and std::io::Read::read_to_end:
/// the decompressed bytes of entry `i`, exactly when that entry is
/// readable; the directory itself is left unchanged.
#[verifier::external_body]
fn entry_data(a: &mut ZipArchive<Cursor<Vec<u8>>>, i: usize) -> (r: Option<Vec<u8>>)
    requires
        i < archive_entries(*old(a)).len(),
    ensures
        archive_entries(*final(a)) == archive_entries(*old(a)),
        r is Some <==> entry_readable(*old(a), i as int),
        r matches Some(d) ==> d@ == archive_entries(*old(a))[i as int].1,
{
    match a.by_index(i) {
        Ok(mut f) => {
            let mut buf: Vec<u8> = Vec::new();
            if f.read_to_end(&mut buf).is_ok() {
                Some(buf)
            } else {
                None
            }
        },
        Err(_) => None,
    }
}

/// The in-archive selection rule: the folded entry name ends with the
/// folded suffix (ASCII case folding).
pub open spec fn entry_matches(name: Seq<char>, suffix: Seq<char>) -> bool {
    ends_with(lower(name), lower(suffix))
}

pub open spec fn first_entry_match_from(
    entries: Seq<(Seq<char>, Seq<u8>)>,
    suffix: Seq<char>,
    i: int,
) -> Option<int>
    recommends
        0 <= i,
    decreases entries.len() - i,
{
    if i < 0 || i >= entries.len() {
        None
    } else if entry_matches(entries[i].0, suffix) {
        Some(i)
    } else {
        first_entry_match_from(entries, suffix, i + 1)
    }
}

/// Index of the first entry whose stored name matches, if any.
pub open spec fn first_entry_match(entries: Seq<(Seq<char>, Seq<u8>)>, suffix: Seq<char>) -> Option<
    int,
> {
    first_entry_match_from(entries, suffix, 0)
}

/// How staging a replacement binary from an asset fails. Either way
/// the existing binary is left untouched.
#[derive(Clone, Copy, Debug, PartialEq, Eq, Structural)]
pub enum ArchiveError {
    /// The downloaded bytes are not a readable archive.
    Unreadable,
    /// No matching entry could be found and read.
    EntryMissing,
}

/// Scan the archive in order for the first entry whose stored name
/// matches the suffix, case-insensitively, and return its decompressed
/// bytes; nothing when no entry matches, or when the matching entry
/// cannot be read.
pub fn extract_matching_entry(a: &mut ZipArchive<Cursor<Vec<u8>>>, suffix: &str) -> (r: Option<
    Vec<u8>,
>)
    ensures
        archive_entries(*final(a)) == archive_entries(*old(a)),
        match first_entry_match(archive_entries(*old(a)), suffix@) {
            None => r is None,
            Some(m) => if entry_readable(*old(a), m) {
                r matches Some(d) && d@ == archive_entries(*old(a))[m].1
            } else {
                r is None
            },
        },
{
    let ghost entries0 = archive_entries(*a);
    let n = archive_len(a);
    let mut i: usize = 0;
    while i < n
        invariant
            0 <= i <= n,
            n == entries0.len(),
            *a == *old(a),
            entries0 == archive_entries(*old(a)),
            first_entry_match(entries0, suffix@) == first_entry_match_from(
                entries0,
                suffix@,
                i as int,
            ),
        decreases n - i,
    {
        let nm = entry_name(a, i);
        if ends_with_ci(nm.as_str(), suffix) {
            proof {
                assert(entry_matches(entries0[i as int].0, suffix@));
                assert(first_entry_match(entries0, suffix@) == Some(i as int));
            }
            let d = entry_data(a, i);
            return d;
        }
        proof {
            assert(!entry_matches(entries0[i as int].0, suffix@));
        }
        i = i + 1;
    }
    proof {
        assert(first_entry_match_from(entries0, suffix@, i as int) is None);
    }
    None
}

/// Locate the wanted file inside downloaded archive bytes and return
/// its raw bytes, fully staged in memory: unreadable bytes are
/// `Unreadable`; otherwise the first entry whose name matches is
/// chosen, and its decompressed bytes come back exactly when it can be
/// read. On any failure the caller's existing binary is to be left as
/// it is.
pub fn extract_binary(bytes: Vec<u8>, suffix: &str) -> (r: Result<Vec<u8>, ArchiveError>)
    ensures
        r == Err::<Vec<u8>, ArchiveError>(ArchiveError::Unreadable) <==> zip_entries(bytes@)
            is None,
        zip_entries(bytes@) matches Some(entries) ==> match first_entry_match(entries, suffix@) {
            None => r == Err::<Vec<u8>, ArchiveError>(ArchiveError::EntryMissing),
            Some(m) => if zip_entry_readable(bytes@, m) {
                r matches Ok(d) && d@ == entries[m].1
            } else {
                r == Err::<Vec<u8>, ArchiveError>(ArchiveError::EntryMissing)
            },
        },
{
    let mut archive = match open_archive(bytes) {
        Some(a) => a,
        None => {
            return Err(ArchiveError::Unreadable);
        },
    };
    match extract_matching_entry(&mut archive, suffix) {
        Some(data) => Ok(data),
        None => Err(ArchiveError::EntryMissing),
    }
}

} // verus!
