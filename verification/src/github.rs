//! The pure logic of the GitHub-backed content source.
//!
//! A GitHub repository is read through two endpoints: raw file downloads
//! and the REST directory listing. This module holds everything about
//! that backend that is a function of plain values — URL construction,
//! joining and stripping the configured base path, classifying response
//! statuses, and converting the API's raw entries into directory
//! listings. The surrounding application owns the HTTP client, performs
//! the requests, and hands status, body and headers back to these
//! functions.

use vstd::prelude::*;
use vstd::string::StringExecFns;

use crate::error::{ContentError, ContentErrorView};
use crate::text::{dec_of, push_char, push_decimal, str_eq, str_strip_prefix, trim_leading,
    trim_leading_char, trim_trailing, trim_trailing_char};
use crate::types::{DirectoryEntry, DirectoryEntryView, DirectoryListing, EntryType};

verus! {

/// The base path joined with a request path: leading slashes of the
/// request are dropped, and a non-empty base keeps no trailing slash.
pub open spec fn join_path_spec(base: Seq<char>, path: Seq<char>) -> Seq<char> {
    let p = trim_leading(path, '/');
    if base.len() == 0 {
        p
    } else {
        trim_trailing(base, '/') + seq!['/'] + p
    }
}

/// A repository path with the configured base path stripped: the inverse
/// of [`join_path_spec`] for paths the API reports. A path that does not
/// start with the base is returned as it stands.
pub open spec fn strip_base_path_spec(base: Seq<char>, path: Seq<char>) -> Seq<char> {
    if base.len() == 0 {
        path
    } else {
        let b = trim_trailing(base, '/');
        let pt = trim_leading(path, '/');
        if pt.len() >= b.len() && pt.subrange(0, b.len() as int) == b {
            trim_leading(pt.skip(b.len() as int), '/')
        } else {
            path
        }
    }
}

/// The error a non-success response maps to: 404 is `NotFound` for the
/// requested path, 403 and 429 are `RateLimited` with the response text
/// (or a fixed message when the text could not be read), and any other
/// status is `InvalidStructure` naming the status and the text.
pub open spec fn error_for_status_spec(
    path: Seq<char>,
    status: u16,
    text: Option<Seq<char>>,
) -> ContentErrorView {
    if status == 404 {
        ContentErrorView::NotFound { path }
    } else if status == 403 || status == 429 {
        ContentErrorView::RateLimited {
            message: match text {
                Some(t) => t,
                None => "GitHub API rate limit exceeded"@,
            },
        }
    } else {
        ContentErrorView::InvalidStructure {
            message: "Unexpected status "@ + dec_of(status as nat) + ": "@ + (match text {
                Some(t) => t,
                None => Seq::empty(),
            }),
        }
    }
}

/// The entry type GitHub's API reports: `"dir"` names a directory and
/// anything else is treated as a file.
pub open spec fn entry_type_of(s: Seq<char>) -> EntryType {
    if s == "dir"@ {
        EntryType::Dir
    } else {
        EntryType::File
    }
}

/// One directory entry as the GitHub API reports it, before conversion.
pub struct RawDirEntry {
    /// Name of the file or folder.
    pub name: String,
    /// Path inside the repository, base path included.
    pub path: String,
    /// The reported type, such as `"file"` or `"dir"`.
    pub entry_type: String,
}

/// Mathematical model of a [`RawDirEntry`].
pub struct RawDirEntryView {
    pub name: Seq<char>,
    pub path: Seq<char>,
    pub entry_type: Seq<char>,
}

impl View for RawDirEntry {
    type V = RawDirEntryView;

    open spec fn view(&self) -> RawDirEntryView {
        RawDirEntryView { name: self.name@, path: self.path@, entry_type: self.entry_type@ }
    }
}

impl DeepView for RawDirEntry {
    type V = RawDirEntryView;

    open spec fn deep_view(&self) -> RawDirEntryView {
        self.view()
    }
}

/// The converted form of one raw API entry: the name kept, the base path
/// stripped from the repository path, the type decoded.
pub open spec fn convert_entry_spec(base: Seq<char>, raw: RawDirEntryView) -> DirectoryEntryView {
    DirectoryEntryView {
        name: raw.name,
        path: strip_base_path_spec(base, raw.path),
        entry_type: entry_type_of(raw.entry_type),
    }
}

/// A GitHub repository as a content backend: raw downloads for files,
/// the REST API for listings.
pub struct GitHubSource {
    /// Repository owner: a user or an organization.
    pub owner: String,
    /// Repository name.
    pub repo: String,
    /// Branch or ref to fetch from.
    pub branch: String,
    /// Base path inside the repository; empty for the root.
    pub base_path: String,
}

impl GitHubSource {
    /// A source for the given repository, branch and base path.
    pub fn new(owner: String, repo: String, branch: String, base_path: String) -> (s: Self)
        ensures
            s.owner@ == owner@,
            s.repo@ == repo@,
            s.branch@ == branch@,
            s.base_path@ == base_path@,
    {
        GitHubSource { owner, repo, branch, base_path }
    }

    /// The configured base path joined with a request path.
    pub fn join_path(&self, path: &str) -> (r: String)
        ensures
            r@ == join_path_spec(self.base_path@, path@),
    {
        let p = trim_leading_char(path, '/');
        if self.base_path.as_str().is_empty() {
            p.to_owned()
        } else {
            let mut s = trim_trailing_char(self.base_path.as_str(), '/').to_owned();
            push_char(&mut s, '/');
            s.append(p);
            proof {
                assert(s@ =~= join_path_spec(self.base_path@, path@));
            }
            s
        }
    }

    /// A repository path with the configured base path stripped, so that
    /// paths the API reports can be fed back through [`Self::join_path`].
    pub fn strip_base_path(&self, path: &str) -> (r: String)
        ensures
            r@ == strip_base_path_spec(self.base_path@, path@),
    {
        if self.base_path.as_str().is_empty() {
            return path.to_owned();
        }
        let b = trim_trailing_char(self.base_path.as_str(), '/');
        let pt = trim_leading_char(path, '/');
        match str_strip_prefix(pt, b) {
            Some(rest) => trim_leading_char(rest, '/').to_owned(),
            None => path.to_owned(),
        }
    }

    /// The raw-content URL a file is downloaded from.
    pub fn raw_url(&self, path: &str) -> (r: String)
        ensures
            r@ == "https://raw.githubusercontent.com/"@ + self.owner@ + "/"@ + self.repo@ + "/"@
                + self.branch@ + "/"@ + join_path_spec(self.base_path@, path@),
    {
        let full = self.join_path(path);
        let mut s = "https://raw.githubusercontent.com/".to_owned();
        s.append(self.owner.as_str());
        s.append("/");
        s.append(self.repo.as_str());
        s.append("/");
        s.append(self.branch.as_str());
        s.append("/");
        s.append(full.as_str());
        s
    }

    /// The REST URL a directory listing is requested from.
    pub fn api_url(&self, path: &str) -> (r: String)
        ensures
            r@ == "https://api.github.com/repos/"@ + self.owner@ + "/"@ + self.repo@
                + "/contents/"@ + join_path_spec(self.base_path@, path@) + "?ref="@
                + self.branch@,
    {
        let full = self.join_path(path);
        let mut s = "https://api.github.com/repos/".to_owned();
        s.append(self.owner.as_str());
        s.append("/");
        s.append(self.repo.as_str());
        s.append("/contents/");
        s.append(full.as_str());
        s.append("?ref=");
        s.append(self.branch.as_str());
        s
    }

    /// Whether a response status means the service turned the request
    /// away for quota or auth reasons.
    pub fn is_rate_limit_error(&self, status: u16) -> (r: bool)
        ensures
            r == (status == 403 || status == 429),
    {
        status == 403 || status == 429
    }

    /// The error a non-success response maps to; `text` is the response
    /// body where it could be read.
    pub fn error_for_status(&self, path: &str, status: u16, text: Option<String>) -> (e:
        ContentError)
        requires
            status != 200,
        ensures
            e@ == error_for_status_spec(
                path@,
                status,
                match text {
                    Some(t) => Some(t@),
                    None => None,
                },
            ),
    {
        if status == 404 {
            ContentError::NotFound { path: path.to_owned() }
        } else if self.is_rate_limit_error(status) {
            let message = match text {
                Some(t) => t,
                None => "GitHub API rate limit exceeded".to_owned(),
            };
            ContentError::RateLimited { message }
        } else {
            let mut message = "Unexpected status ".to_owned();
            push_decimal(&mut message, status);
            message.append(": ");
            match text {
                Some(t) => {
                    message.append(t.as_str());
                },
                None => {
                    proof {
                        assert(message@ + Seq::<char>::empty() =~= message@);
                    }
                },
            }
            ContentError::InvalidStructure { message }
        }
    }

    /// The listing of `path` built from the API's raw entries: each name
    /// is kept, the base path is stripped from each repository path, and
    /// the reported type is decoded.
    pub fn convert_entries(&self, path: &str, raw: &Vec<RawDirEntry>) -> (r: DirectoryListing)
        ensures
            r@.path == path@,
            r@.entries.len() == raw@.len(),
            forall|k: int|
                0 <= k < raw@.len() ==> r@.entries[k] == convert_entry_spec(
                    self.base_path@,
                    raw@[k]@,
                ),
    {
        let mut entries: Vec<DirectoryEntry> = Vec::new();
        let n = raw.len();
        let mut i: usize = 0;
        while i < n
            invariant
                i <= n,
                n == raw@.len(),
                entries@.len() == i,
                forall|k: int|
                    0 <= k < i ==> entries@[k]@ == convert_entry_spec(self.base_path@, raw@[k]@),
            decreases n - i,
        {
            let e = DirectoryEntry {
                name: raw[i].name.clone(),
                path: self.strip_base_path(raw[i].path.as_str()),
                entry_type: if str_eq(raw[i].entry_type.as_str(), "dir") {
                    EntryType::Dir
                } else {
                    EntryType::File
                },
            };
            entries.push(e);
            i += 1;
        }
        let out = DirectoryListing { path: path.to_owned(), entries };
        proof {
            assert forall|k: int| 0 <= k < raw@.len() implies out@.entries[k] == convert_entry_spec(
                self.base_path@,
                raw@[k]@,
            ) by {
                assert(out@.entries[k] == out.entries@[k]@);
            }
        }
        out
    }

    /// The stable identifier of this source, naming its configuration.
    pub fn identifier(&self) -> (r: String)
        ensures
            r@ == "github://"@ + self.owner@ + "/"@ + self.repo@ + "/"@ + self.branch@ + "/"@
                + self.base_path@,
    {
        let mut s = "github://".to_owned();
        s.append(self.owner.as_str());
        s.append("/");
        s.append(self.repo.as_str());
        s.append("/");
        s.append(self.branch.as_str());
        s.append("/");
        s.append(self.base_path.as_str());
        s
    }
}

} // verus!
