//! Value types shared by sources, caches and the resolver.

use vstd::prelude::*;
use vstd::slice::slice_to_vec;

verus! {

/// A fresh byte vector with the same contents.
pub fn copy_bytes(v: &Vec<u8>) -> (r: Vec<u8>)
    ensures
        r@ == v@,
{
    slice_to_vec(v.as_slice())
}

/// A file's content and metadata, produced by one successful fetch.
pub struct FileContent {
    /// The raw bytes of the file.
    pub content: Vec<u8>,
    /// The location this file was fetched from.
    pub source_path: String,
    /// Optional version identifier reported by the backend.
    pub etag: Option<String>,
}

/// Mathematical model of a [`FileContent`].
pub struct FileContentView {
    pub content: Seq<u8>,
    pub source_path: Seq<char>,
    pub etag: Option<Seq<char>>,
}

impl View for FileContent {
    type V = FileContentView;

    open spec fn view(&self) -> FileContentView {
        FileContentView {
            content: self.content@,
            source_path: self.source_path@,
            etag: match self.etag {
                Some(t) => Some(t@),
                None => None,
            },
        }
    }
}

/// Whether a directory entry is a file or a subdirectory.
#[derive(Clone, Copy, PartialEq, Eq, Structural, Debug)]
pub enum EntryType {
    File,
    Dir,
}

/// One entry of a directory listing.
pub struct DirectoryEntry {
    /// Name of the file or folder.
    pub name: String,
    /// Path relative to the source root.
    pub path: String,
    /// Whether the entry is a file or a directory.
    pub entry_type: EntryType,
}

/// Mathematical model of a [`DirectoryEntry`].
pub struct DirectoryEntryView {
    pub name: Seq<char>,
    pub path: Seq<char>,
    pub entry_type: EntryType,
}

impl View for DirectoryEntry {
    type V = DirectoryEntryView;

    open spec fn view(&self) -> DirectoryEntryView {
        DirectoryEntryView { name: self.name@, path: self.path@, entry_type: self.entry_type }
    }
}

impl DeepView for DirectoryEntry {
    type V = DirectoryEntryView;

    open spec fn deep_view(&self) -> DirectoryEntryView {
        self.view()
    }
}

impl DirectoryEntry {
    /// An equal entry; the fields are copied as they stand.
    pub fn duplicate(&self) -> (r: DirectoryEntry)
        ensures
            r == *self,
    {
        DirectoryEntry {
            name: self.name.clone(),
            path: self.path.clone(),
            entry_type: self.entry_type,
        }
    }
}

/// A fresh vector of equal directory entries.
pub fn copy_entries(v: &Vec<DirectoryEntry>) -> (r: Vec<DirectoryEntry>)
    ensures
        r@ == v@,
{
    let mut out: Vec<DirectoryEntry> = Vec::new();
    let n = v.len();
    let mut i: usize = 0;
    while i < n
        invariant
            i <= n,
            n == v@.len(),
            out@ == v@.take(i as int),
        decreases n - i,
    {
        out.push(v[i].duplicate());
        proof {
            assert(out@ =~= v@.take(i + 1));
        }
        i += 1;
    }
    proof {
        assert(v@.take(n as int) =~= v@);
    }
    out
}

/// The result of listing one directory.
pub struct DirectoryListing {
    /// The path that was listed.
    pub path: String,
    /// The entries found under that path.
    pub entries: Vec<DirectoryEntry>,
}

/// Mathematical model of a [`DirectoryListing`].
pub struct DirectoryListingView {
    pub path: Seq<char>,
    pub entries: Seq<DirectoryEntryView>,
}

impl View for DirectoryListing {
    type V = DirectoryListingView;

    open spec fn view(&self) -> DirectoryListingView {
        DirectoryListingView { path: self.path@, entries: self.entries.deep_view() }
    }
}

} // verus!
