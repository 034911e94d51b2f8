//! Compressed archives: `flate2` and `tar`.

use std::io::Read;

use vstd::prelude::*;

use crate::text;

verus! {

/// An entry of an archive.
#[derive(Debug)]
pub struct ArchiveEntry {
    /// The path as it stands in the archive.
    pub path: Vec<u8>,
    pub is_dir: bool,
    /// Permission bits, when the entry states them.
    pub mode: Option<u32>,
    /// The content, as far as it could be read.
    pub content: Vec<u8>,
    /// Whether the content could be read to its end.
    pub whole: bool,
}

/// The entries as plain values: path, whether it is a directory, permission
/// bits, content, and whether the content is whole.
pub open spec fn entry_values(entries: Seq<ArchiveEntry>) -> Seq<
    (Seq<u8>, bool, Option<u32>, Seq<u8>, bool),
> {
    entries.map_values(|e: ArchiveEntry| (e.path@, e.is_dir, e.mode, e.content@, e.whole))
}

/// The entries of a gzip-compressed tar archive up to the first fault, and
/// how that fault displays.
pub uninterp spec fn archive_entries(bytes: Seq<u8>) -> (
    Seq<(Seq<u8>, bool, Option<u32>, Seq<u8>, bool)>,
    Option<Seq<char>>,
);

/// `tar::Archive::entries` over a `flate2::read::GzDecoder`: what the
/// archive holds, up to the first fault. An entry whose content cannot be
/// read to its end is the last, with what could be read. All of it depends
/// on the bytes alone.
#[verifier::external_body]
pub(crate) fn unpack(bytes: &[u8]) -> (r: (Vec<ArchiveEntry>, Option<String>))
    ensures
        archive_entries(bytes@) == (entry_values(r.0@), text::text_opt(r.1)),
{
    let mut found = Vec::new();
    let mut archive = tar::Archive::new(flate2::read::GzDecoder::new(bytes));
    let outcome = archive.entries().and_then(|entries| {
        for entry in entries {
            let mut entry = entry?;
            let path = entry.path_bytes().into_owned();
            let (is_dir, mode) = (entry.header().entry_type().is_dir(), entry.header().mode().ok());
            let mut content = Vec::new();
            let read = entry.read_to_end(&mut content);
            found.push(ArchiveEntry { path, is_dir, mode, content, whole: read.is_ok() });
            read?;
        }
        Ok(())
    });
    (found, outcome.err().map(|e| e.to_string()))
}

} // verus!
