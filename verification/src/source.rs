//! The read-only backend abstraction, and an in-memory reference backend.

use vstd::prelude::*;

use crate::error::{result_view, ContentError, ContentErrorView};
use crate::kvlist::{kv_get, kv_map, kv_set};
use crate::types::{
    copy_bytes, copy_entries, DirectoryEntry, DirectoryEntryView, DirectoryListing,
    DirectoryListingView, FileContent, FileContentView,
};

verus! {

/// A read-only backend answering fetch and list queries for logical paths.
///
/// For specification purposes a source is a function from paths to
/// outcomes: `fetch_spec` and `list_spec` say what each call returns, and
/// an implementation proves that its methods agree with them. A backend
/// maps "no such path" to `NotFound`, quota rejection to `RateLimited`,
/// malformed answers to `InvalidStructure`, and other transport or local
/// failures to `Network` or `Io`.
pub trait ContentSource: Sized {
    /// What fetching each path returns.
    spec fn fetch_spec(&self, path: Seq<char>) -> Result<FileContentView, ContentErrorView>;

    /// What listing each path returns.
    spec fn list_spec(&self, path: Seq<char>) -> Result<DirectoryListingView, ContentErrorView>;

    /// The diagnostic label of the source.
    spec fn id_spec(&self) -> Seq<char>;

    /// Fetch a single file by its path; `NotFound` when the backend has
    /// no entry there.
    fn fetch_file(&self, path: &str) -> (r: Result<FileContent, ContentError>)
        ensures
            result_view(r) == self.fetch_spec(path@),
    ;

    /// List the contents of a directory; `NotFound` when the backend has
    /// no directory there.
    fn list_directory(&self, path: &str) -> (r: Result<DirectoryListing, ContentError>)
        ensures
            result_view(r) == self.list_spec(path@),
    ;

    /// A stable, human-readable identifier for logging and diagnostics.
    fn identifier(&self) -> (r: String)
        ensures
            r@ == self.id_spec(),
    ;

    /// Whether a fetch of `path` would succeed; by default it fetches and
    /// reports success, a backend may override it with a cheaper check.
    fn file_exists(&self, path: &str) -> (r: bool)
        ensures
            r == (self.fetch_spec(path@) is Ok),
    {
        match self.fetch_file(path) {
            Ok(_) => true,
            Err(_) => false,
        }
    }
}

/// What a stored path answers on a fetch: bytes, or a configured error.
pub struct StoredFile {
    pub outcome: Result<Vec<u8>, ContentError>,
}

impl View for StoredFile {
    type V = Result<Seq<u8>, ContentErrorView>;

    open spec fn view(&self) -> Result<Seq<u8>, ContentErrorView> {
        match self.outcome {
            Ok(b) => Ok(b@),
            Err(e) => Err(e@),
        }
    }
}

/// What a stored path answers on a listing: entries, or a configured error.
pub struct StoredListing {
    pub outcome: Result<Vec<DirectoryEntry>, ContentError>,
}

impl View for StoredListing {
    type V = Result<Seq<DirectoryEntryView>, ContentErrorView>;

    open spec fn view(&self) -> Result<Seq<DirectoryEntryView>, ContentErrorView> {
        match self.outcome {
            Ok(v) => Ok(v.deep_view()),
            Err(e) => Err(e@),
        }
    }
}

/// An in-memory backend: a table of paths with configured answers.
///
/// It serves as the reference implementation of [`ContentSource`] and as a
/// test double; a path can be set up to answer with content, with a
/// listing, or with a chosen error, and every other path reports
/// `NotFound`.
pub struct MemorySource {
    label: String,
    files: Vec<(String, StoredFile)>,
    dirs: Vec<(String, StoredListing)>,
}

impl MemorySource {
    /// The fetch outcomes this source is configured with.
    pub closed spec fn files_model(&self) -> Map<Seq<char>, Result<Seq<u8>, ContentErrorView>> {
        kv_map(self.files@)
    }

    /// The listing outcomes this source is configured with.
    pub closed spec fn dirs_model(&self) -> Map<Seq<char>, Result<Seq<DirectoryEntryView>, ContentErrorView>> {
        kv_map(self.dirs@)
    }

    /// An empty source with the given diagnostic label.
    pub fn new(label: String) -> (s: Self)
        ensures
            s.id_spec() == label@,
            forall|p: Seq<char>|
                s.fetch_spec(p) == Err::<FileContentView, ContentErrorView>(
                    ContentErrorView::NotFound { path: p },
                ),
            forall|p: Seq<char>|
                s.list_spec(p) == Err::<DirectoryListingView, ContentErrorView>(
                    ContentErrorView::NotFound { path: p },
                ),
    {
        MemorySource { label, files: Vec::new(), dirs: Vec::new() }
    }

    /// Makes a fetch of `path` return the given bytes.
    pub fn add_file(&mut self, path: &str, data: Vec<u8>)
        ensures
            final(self).fetch_spec(path@) == Ok::<FileContentView, ContentErrorView>(
                FileContentView { content: data@, source_path: path@, etag: None },
            ),
            forall|p: Seq<char>|
                p != path@ ==> final(self).fetch_spec(p) == old(self).fetch_spec(p),
            forall|p: Seq<char>| final(self).list_spec(p) == old(self).list_spec(p),
            final(self).id_spec() == old(self).id_spec(),
    {
        kv_set(&mut self.files, path, StoredFile { outcome: Ok(data) });
    }

    /// Makes a fetch of `path` fail with the given error.
    pub fn add_file_error(&mut self, path: &str, error: ContentError)
        ensures
            final(self).fetch_spec(path@) == Err::<FileContentView, ContentErrorView>(error@),
            forall|p: Seq<char>|
                p != path@ ==> final(self).fetch_spec(p) == old(self).fetch_spec(p),
            forall|p: Seq<char>| final(self).list_spec(p) == old(self).list_spec(p),
            final(self).id_spec() == old(self).id_spec(),
    {
        kv_set(&mut self.files, path, StoredFile { outcome: Err(error) });
    }

    /// Makes a listing of `path` return the given entries.
    pub fn add_directory(&mut self, path: &str, entries: Vec<DirectoryEntry>)
        ensures
            final(self).list_spec(path@) == Ok::<DirectoryListingView, ContentErrorView>(
                DirectoryListingView { path: path@, entries: entries.deep_view() },
            ),
            forall|p: Seq<char>| p != path@ ==> final(self).list_spec(p) == old(self).list_spec(p),
            forall|p: Seq<char>| final(self).fetch_spec(p) == old(self).fetch_spec(p),
            final(self).id_spec() == old(self).id_spec(),
    {
        kv_set(&mut self.dirs, path, StoredListing { outcome: Ok(entries) });
    }

    /// Makes a listing of `path` fail with the given error.
    pub fn add_directory_error(&mut self, path: &str, error: ContentError)
        ensures
            final(self).list_spec(path@) == Err::<DirectoryListingView, ContentErrorView>(error@),
            forall|p: Seq<char>| p != path@ ==> final(self).list_spec(p) == old(self).list_spec(p),
            forall|p: Seq<char>| final(self).fetch_spec(p) == old(self).fetch_spec(p),
            final(self).id_spec() == old(self).id_spec(),
    {
        kv_set(&mut self.dirs, path, StoredListing { outcome: Err(error) });
    }
}

impl ContentSource for MemorySource {
    open spec fn fetch_spec(&self, path: Seq<char>) -> Result<FileContentView, ContentErrorView> {
        if self.files_model().contains_key(path) {
            match self.files_model()[path] {
                Ok(bytes) => Ok(
                    FileContentView { content: bytes, source_path: path, etag: None },
                ),
                Err(e) => Err(e),
            }
        } else {
            Err(ContentErrorView::NotFound { path })
        }
    }

    open spec fn list_spec(&self, path: Seq<char>) -> Result<
        DirectoryListingView,
        ContentErrorView,
    > {
        if self.dirs_model().contains_key(path) {
            match self.dirs_model()[path] {
                Ok(entries) => Ok(DirectoryListingView { path, entries }),
                Err(e) => Err(e),
            }
        } else {
            Err(ContentErrorView::NotFound { path })
        }
    }

    closed spec fn id_spec(&self) -> Seq<char> {
        self.label@
    }

    fn fetch_file(&self, path: &str) -> (r: Result<FileContent, ContentError>) {
        match kv_get(&self.files, path) {
            Some(f) => match &f.outcome {
                Ok(bytes) => Ok(
                    FileContent {
                        content: copy_bytes(bytes),
                        source_path: path.to_owned(),
                        etag: None,
                    },
                ),
                Err(e) => Err(e.duplicate()),
            },
            None => Err(ContentError::NotFound { path: path.to_owned() }),
        }
    }

    fn list_directory(&self, path: &str) -> (r: Result<DirectoryListing, ContentError>) {
        match kv_get(&self.dirs, path) {
            Some(d) => match &d.outcome {
                Ok(entries) => {
                    let out = DirectoryListing { path: path.to_owned(), entries: copy_entries(
                        entries,
                    ) };
                    proof {
                        assert(out@.entries =~= self.dirs_model()[path@]->Ok_0);
                    }
                    Ok(out)
                },
                Err(e) => Err(e.duplicate()),
            },
            None => Err(ContentError::NotFound { path: path.to_owned() }),
        }
    }

    fn identifier(&self) -> (r: String) {
        self.label.clone()
    }
}

} // verus!
