//! The fallback resolver: an ordered list of sources and an optional
//! transparent cache.

use vstd::prelude::*;
use vstd::string::StringExecFns;

use crate::cache::Cache;
use crate::error::{result_view, ContentError, ContentErrorView};
use crate::merge::{entries_sorted, entries_sorted_view, entry_views, first_with_path,
    first_with_path_view, has_path, has_path_view, lemma_first_with_path_views,
    lemma_has_path_views, listing_pool, merge_entries, paths_distinct, paths_distinct_view};
use crate::source::ContentSource;
use crate::text::str_le_spec;
use crate::types::{copy_bytes, DirectoryEntry, DirectoryListing, DirectoryListingView,
    FileContent, FileContentView};

verus! {

// ---------------------------------------------------------------------------
// The resolution algorithm over a sequence of outcomes
// ---------------------------------------------------------------------------
/// The result of consulting outcomes `i..` in order, with `last` the most
/// recent non-`NotFound` error among outcomes `..i`: the first success
/// wins, `NotFound` is skipped softly, and any other error replaces
/// `last`. When every outcome is exhausted the remembered error surfaces,
/// else `NotFound` for the requested path.
pub open spec fn resolve_from<T>(
    outcomes: Seq<Result<T, ContentErrorView>>,
    i: int,
    last: Option<ContentErrorView>,
    path: Seq<char>,
) -> Result<T, ContentErrorView>
    decreases outcomes.len() - i,
{
    if i < 0 || i >= outcomes.len() {
        match last {
            Some(e) => Err(e),
            None => Err(ContentErrorView::NotFound { path }),
        }
    } else {
        match outcomes[i] {
            Ok(t) => Ok(t),
            Err(e) => resolve_from(
                outcomes,
                i + 1,
                if e is NotFound {
                    last
                } else {
                    Some(e)
                },
                path,
            ),
        }
    }
}

/// What ordered fallback over the given outcomes resolves to.
pub open spec fn resolve_outcomes<T>(
    outcomes: Seq<Result<T, ContentErrorView>>,
    path: Seq<char>,
) -> Result<T, ContentErrorView> {
    resolve_from(outcomes, 0, None, path)
}

// ---------------------------------------------------------------------------
// The running state of one fallback resolution
// ---------------------------------------------------------------------------
/// The state a fallback resolution carries between source consultations:
/// the requested path and the most recent non-`NotFound` error.
///
/// A driver that performs the source calls itself — an asynchronous one,
/// say — absorbs one outcome after another and finishes with the error
/// this state prescribes once no source is left; it then implements the
/// same resolution the resolver's own methods are proved to implement.
pub struct FallbackState {
    /// The path being resolved.
    pub path: String,
    /// The most recent non-`NotFound` error seen so far.
    pub last_error: Option<ContentError>,
}

impl FallbackState {
    /// The model of the remembered error.
    pub open spec fn last_error_view(&self) -> Option<ContentErrorView> {
        match self.last_error {
            Some(e) => Some(e@),
            None => None,
        }
    }

    /// A fresh resolution of `path` with nothing remembered yet.
    pub fn begin(path: &str) -> (s: Self)
        ensures
            s.path@ == path@,
            s.last_error_view() is None,
    {
        FallbackState { path: path.to_owned(), last_error: None }
    }

    /// Notes one source's outcome: a success ends the resolution and is
    /// handed back, `NotFound` is skipped, and any other error replaces
    /// the remembered one.
    pub fn absorb<T>(&mut self, outcome: Result<T, ContentError>) -> (r: Option<T>)
        ensures
            final(self).path == old(self).path,
            match outcome {
                Ok(t) => r == Some(t) && final(self).last_error_view() == old(
                    self,
                ).last_error_view(),
                Err(e) => r is None && final(self).last_error_view() == (if e@ is NotFound {
                    old(self).last_error_view()
                } else {
                    Some(e@)
                }),
            },
    {
        match outcome {
            Ok(t) => Some(t),
            Err(e) => {
                if !e.is_not_found() {
                    self.last_error = Some(e);
                }
                None
            },
        }
    }

    /// The final error of a resolution in which no source succeeded.
    pub fn finish(self) -> (e: ContentError)
        ensures
            e@ == (match self.last_error_view() {
                Some(ev) => ev,
                None => ContentErrorView::NotFound { path: self.path@ },
            }),
    {
        let FallbackState { path, last_error } = self;
        match last_error {
            Some(e) => e,
            None => ContentError::NotFound { path },
        }
    }
}

// ---------------------------------------------------------------------------
// Cache key and cache-hit shape
// ---------------------------------------------------------------------------
/// The key a fetched file is cached under: derived from the logical path
/// alone, independent of which source answered, so cache entries are
/// per-path and not per-source.
pub open spec fn file_cache_key(path: Seq<char>) -> Seq<char> {
    "file:"@ + path
}

/// What a cache hit returns: the cached bytes, provenance marking the
/// cache, and no version tag.
pub open spec fn cache_hit_view(bytes: Seq<u8>, path: Seq<char>) -> FileContentView {
    FileContentView { content: bytes, source_path: "cache:"@ + path, etag: None }
}

fn make_file_cache_key(path: &str) -> (k: String)
    ensures
        k@ == file_cache_key(path@),
{
    let mut k = "file:".to_owned();
    k.append(path);
    k
}

// ---------------------------------------------------------------------------
// The resolver
// ---------------------------------------------------------------------------
/// Resolves content from an ordered list of sources with optional caching.
///
/// The source order is fixed at construction and earlier sources always
/// take precedence; the cache, when one is attached, is consulted before
/// any source and populated, best effort, after a successful fetch.
pub struct ResourceResolver<S: ContentSource, C: Cache> {
    /// The sources, in priority order; fixed after construction.
    pub sources: Vec<S>,
    /// The attached byte cache, if any.
    pub cache: Option<C>,
}

/// Everything `fetch_file` promises, relating the resolver before and
/// after the call to the returned result.
///
/// With no cache attached the result is exactly the ordered fallback over
/// the sources' outcomes. With a cache attached, a held key answers from
/// the cache without consulting any source; a missing key yields the
/// fallback result, and a successful fetch is written back — a write
/// failure is swallowed, so the cache afterwards holds either the fetched
/// bytes or what it held before. A cache read fault is propagated, and
/// can only come from a cache that is not infallible.
pub open spec fn fetch_post<S: ContentSource, C: Cache>(
    pre: ResourceResolver<S, C>,
    post: ResourceResolver<S, C>,
    path: Seq<char>,
    r: Result<FileContent, ContentError>,
) -> bool {
    let key = file_cache_key(path);
    let resolved = resolve_outcomes(pre.fetch_outcomes(path), path);
    &&& post.sources == pre.sources
    &&& match (pre.cache, post.cache) {
        (None, None) => result_view(r) == resolved && post == pre,
        (Some(c0), Some(c1)) => {
            &&& c1.infallible() == c0.infallible()
            &&& c1.retentive() == c0.retentive()
            &&& if c0.model().contains_key(key) {
                ||| result_view(r) == Ok::<FileContentView, ContentErrorView>(
                    cache_hit_view(c0.model()[key], path),
                ) && c1.model() == c0.model()
                ||| !c0.infallible() && (r matches Err(e) && e@ is Cache) && c1.model()
                    == c0.model()
            } else {
                ||| result_view(r) == resolved && match r {
                    Ok(c) => c1.model() == (if c0.retentive() {
                        c0.model().insert(key, c@.content)
                    } else {
                        c0.model()
                    }) || (!c0.infallible() && c1.model() == c0.model()),
                    Err(_) => c1.model() == c0.model(),
                }
                ||| !c0.infallible() && (r matches Err(e) && e@ is Cache) && c1.model()
                    == c0.model()
            }
        },
        _ => false,
    }
}

impl<S: ContentSource, C: Cache> ResourceResolver<S, C> {
    /// The fetch outcome each source would answer for `path`.
    pub open spec fn fetch_outcomes(&self, path: Seq<char>) -> Seq<
        Result<FileContentView, ContentErrorView>,
    > {
        Seq::new(self.sources@.len(), |i: int| self.sources@[i].fetch_spec(path))
    }

    /// The listing outcome each source would answer for `path`.
    pub open spec fn list_outcomes(&self, path: Seq<char>) -> Seq<
        Result<DirectoryListingView, ContentErrorView>,
    > {
        Seq::new(self.sources@.len(), |i: int| self.sources@[i].list_spec(path))
    }

    /// A resolver over the given sources, with no cache attached.
    pub fn new(sources: Vec<S>) -> (r: Self)
        ensures
            r.sources == sources,
            r.cache is None,
    {
        ResourceResolver { sources, cache: None }
    }

    /// A resolver over the given sources with a transparent cache.
    pub fn with_cache(sources: Vec<S>, cache: C) -> (r: Self)
        ensures
            r.sources == sources,
            r.cache == Some(cache),
    {
        ResourceResolver { sources, cache: Some(cache) }
    }

    /// Fetches `path`: a cache hit answers at once; otherwise the sources
    /// are tried strictly in order, the first success is returned and,
    /// best effort, cached; `NotFound` is soft, and when nothing succeeds
    /// the most recent other error — or `NotFound` for `path` — surfaces.
    pub fn fetch_file(&mut self, path: &str) -> (r: Result<FileContent, ContentError>)
        ensures
            fetch_post(*old(self), *final(self), path@, r),
    {
        let key = make_file_cache_key(path);
        match &self.cache {
            Some(c) => {
                match c.get(key.as_str()) {
                    Ok(Some(bytes)) => {
                        let mut sp = "cache:".to_owned();
                        sp.append(path);
                        return Ok(FileContent { content: bytes, source_path: sp, etag: None });
                    },
                    Ok(None) => {},
                    Err(e) => {
                        return Err(e);
                    },
                }
            },
            None => {},
        }
        let ghost outs = self.fetch_outcomes(path@);
        let mut st = FallbackState::begin(path);
        let n = self.sources.len();
        let mut i: usize = 0;
        while i < n
            invariant
                i <= n,
                n == self.sources@.len(),
                *self == *old(self),
                key@ == file_cache_key(path@),
                outs == self.fetch_outcomes(path@),
                match old(self).cache {
                    Some(c0) => !c0.model().contains_key(file_cache_key(path@)),
                    None => true,
                },
                st.path@ == path@,
                resolve_from(outs, 0, None, path@) == resolve_from(
                    outs,
                    i as int,
                    st.last_error_view(),
                    path@,
                ),
            decreases n - i,
        {
            let outcome = self.sources[i].fetch_file(path);
            proof {
                assert(result_view(outcome) == outs[i as int]);
            }
            match st.absorb(outcome) {
                Some(content) => {
                    match &mut self.cache {
                        Some(c) => {
                            let data = copy_bytes(&content.content);
                            match c.set(key.as_str(), data) {
                                Ok(_) => {},
                                Err(_) => {},
                            }
                        },
                        None => {},
                    }
                    return Ok(content);
                },
                None => {},
            }
            i += 1;
        }
        Err(st.finish())
    }

    /// Lists `path` from the first source that answers, with the same
    /// soft treatment of `NotFound` and the same error shadowing as
    /// `fetch_file`; the cache is bypassed entirely.
    pub fn list_directory(&self, path: &str) -> (r: Result<DirectoryListing, ContentError>)
        ensures
            result_view(r) == resolve_outcomes(self.list_outcomes(path@), path@),
    {
        let ghost outs = self.list_outcomes(path@);
        let mut st = FallbackState::begin(path);
        let n = self.sources.len();
        let mut i: usize = 0;
        while i < n
            invariant
                i <= n,
                n == self.sources@.len(),
                outs == self.list_outcomes(path@),
                st.path@ == path@,
                resolve_from(outs, 0, None, path@) == resolve_from(
                    outs,
                    i as int,
                    st.last_error_view(),
                    path@,
                ),
            decreases n - i,
        {
            let outcome = self.sources[i].list_directory(path);
            proof {
                assert(result_view(outcome) == outs[i as int]);
            }
            match st.absorb(outcome) {
                Some(listing) => {
                    return Ok(listing);
                },
                None => {},
            }
            i += 1;
        }
        Err(st.finish())
    }

    /// Whether any source has `path`; the probe is advisory only and
    /// never surfaces an error.
    pub fn file_exists(&self, path: &str) -> (r: bool)
        ensures
            r == (exists|i: int|
                0 <= i < self.sources@.len() && self.sources@[i].fetch_spec(path@) is Ok),
    {
        let n = self.sources.len();
        let mut i: usize = 0;
        while i < n
            invariant
                i <= n,
                n == self.sources@.len(),
                forall|j: int| 0 <= j < i ==> !(self.sources@[j].fetch_spec(path@) is Ok),
            decreases n - i,
        {
            if self.sources[i].file_exists(path) {
                return true;
            }
            i += 1;
        }
        false
    }

    /// Lists `path` across every source: a failing source is skipped
    /// silently, the surviving entries are pooled in source order, and
    /// exactly one entry per distinct pooled path is kept — the earliest
    /// pooled one, so a higher-priority source decides ties, the entry
    /// type included — sorted ascending by path. `NotFound` for `path`
    /// comes only when no source answers at all.
    pub fn list_directory_merged(&self, path: &str) -> (r: Result<DirectoryListing, ContentError>)
        ensures
            ({
                let outs = self.list_outcomes(path@);
                let pool = listing_pool(outs);
                match r {
                    Ok(listing) => {
                        &&& (exists|i: int| 0 <= i < outs.len() && outs[i] is Ok)
                        &&& listing@.path == path@
                        &&& entries_sorted_view(listing@.entries)
                        &&& paths_distinct_view(listing@.entries)
                        &&& (forall|p: Seq<char>|
                            has_path_view(pool, p) == has_path_view(listing@.entries, p))
                        &&& (forall|k: int|
                            0 <= k < listing@.entries.len() ==> listing@.entries[k]
                                == first_with_path_view(pool, listing@.entries[k].path))
                    },
                    Err(e) => {
                        &&& (forall|i: int| 0 <= i < outs.len() ==> !(outs[i] is Ok))
                        &&& e@ == ContentErrorView::NotFound { path: path@ }
                    },
                }
            }),
    {
        let ghost outs = self.list_outcomes(path@);
        let mut pool: Vec<DirectoryEntry> = Vec::new();
        let mut found_any = false;
        let n = self.sources.len();
        let mut i: usize = 0;
        proof {
            assert(outs.skip(0) =~= outs);
            assert(listing_pool(outs) =~= entry_views(pool@) + listing_pool(outs.skip(0)));
        }
        while i < n
            invariant
                i <= n,
                n == self.sources@.len(),
                outs == self.list_outcomes(path@),
                listing_pool(outs) == entry_views(pool@) + listing_pool(outs.skip(i as int)),
                found_any == (exists|j: int| 0 <= j < i && outs[j] is Ok),
            decreases n - i,
        {
            let ghost poolpre = pool@;
            let outcome = self.sources[i].list_directory(path);
            proof {
                assert(result_view(outcome) == outs[i as int]);
                assert(outs.skip(i as int)[0] == outs[i as int]);
                assert(outs.skip(i as int).drop_first() =~= outs.skip(i + 1));
            }
            match outcome {
                Ok(mut listing) => {
                    let ghost ent = listing@.entries;
                    pool.append(&mut listing.entries);
                    found_any = true;
                    proof {
                        assert(entry_views(pool@) =~= entry_views(poolpre) + ent);
                        assert(listing_pool(outs) =~= entry_views(pool@) + listing_pool(
                            outs.skip(i + 1),
                        ));
                        assert(0 <= i < i + 1 && outs[i as int] is Ok);
                    }
                },
                Err(_) => {
                    proof {
                        assert(listing_pool(outs.skip(i as int)) =~= listing_pool(
                            outs.skip(i + 1),
                        ));
                        assert(!(outs[i as int] is Ok));
                        assert((exists|j: int| 0 <= j < i + 1 && outs[j] is Ok) == (exists|j: int|
                            0 <= j < i && outs[j] is Ok)) by {
                            if exists|j: int| 0 <= j < i + 1 && outs[j] is Ok {
                                let j = choose|j: int| 0 <= j < i + 1 && outs[j] is Ok;
                                assert(0 <= j < i && outs[j] is Ok);
                            }
                            if exists|j: int| 0 <= j < i && outs[j] is Ok {
                                let j = choose|j: int| 0 <= j < i && outs[j] is Ok;
                                assert(0 <= j < i + 1 && outs[j] is Ok);
                            }
                        }
                    }
                },
            }
            i += 1;
        }
        proof {
            assert(outs.skip(n as int) =~= Seq::<
                Result<DirectoryListingView, ContentErrorView>,
            >::empty());
            assert(listing_pool(outs) =~= entry_views(pool@));
        }
        if !found_any {
            return Err(ContentError::NotFound { path: path.to_owned() });
        }
        let merged = merge_entries(&pool);
        let out = DirectoryListing { path: path.to_owned(), entries: merged };
        proof {
            let pv = listing_pool(outs);
            let ev = out@.entries;
            assert(ev =~= entry_views(out.entries@));
            assert forall|a: int, b: int| 0 <= a < b < ev.len() implies str_le_spec(
                ev[a].path,
                ev[b].path,
            ) by {
                assert(entries_sorted(out.entries@));
                assert(ev[a] == out.entries@[a]@ && ev[b] == out.entries@[b]@);
            }
            assert forall|a: int, b: int| 0 <= a < b < ev.len() implies ev[a].path
                != ev[b].path by {
                assert(paths_distinct(out.entries@));
                assert(ev[a] == out.entries@[a]@ && ev[b] == out.entries@[b]@);
            }
            assert forall|p: Seq<char>| has_path_view(pv, p) == has_path_view(ev, p) by {
                lemma_has_path_views(pool@, p);
                lemma_has_path_views(out.entries@, p);
            }
            assert forall|k: int| 0 <= k < ev.len() implies ev[k] == first_with_path_view(
                pv,
                ev[k].path,
            ) by {
                let p = ev[k].path;
                assert(ev[k] == out.entries@[k]@);
                assert(out.entries@[k].path@ == p);
                assert(out.entries@[k] == first_with_path(pool@, p));
                assert(has_path(out.entries@, p));
                lemma_has_path_views(out.entries@, p);
                lemma_has_path_views(pool@, p);
                lemma_first_with_path_views(pool@, p);
            }
        }
        Ok(out)
    }

    /// The configured sources, in priority order, for introspection.
    pub fn sources(&self) -> (r: &Vec<S>)
        ensures
            *r == self.sources,
    {
        &self.sources
    }
}

// ---------------------------------------------------------------------------
// Laws of ordered fallback
// ---------------------------------------------------------------------------
proof fn lemma_resolve_skips_errors_to<T>(
    outcomes: Seq<Result<T, ContentErrorView>>,
    k: int,
    i: int,
    last: Option<ContentErrorView>,
    path: Seq<char>,
)
    requires
        0 <= k <= i < outcomes.len(),
        outcomes[i] is Ok,
        forall|j: int| k <= j < i ==> outcomes[j] is Err,
    ensures
        resolve_from(outcomes, k, last, path) == outcomes[i],
    decreases i - k,
{
    if k < i {
        let e = outcomes[k]->Err_0;
        lemma_resolve_skips_errors_to(
            outcomes,
            k + 1,
            i,
            if e is NotFound {
                last
            } else {
                Some(e)
            },
            path,
        );
    }
}

proof fn lemma_resolve_all_not_found_from<T>(
    outcomes: Seq<Result<T, ContentErrorView>>,
    k: int,
    last: Option<ContentErrorView>,
    path: Seq<char>,
)
    requires
        forall|j: int|
            k <= j < outcomes.len() ==> outcomes[j] is Err && outcomes[j]->Err_0 is NotFound,
    ensures
        resolve_from(outcomes, k, last, path) == (match last {
            Some(e) => Err::<T, ContentErrorView>(e),
            None => Err(ContentErrorView::NotFound { path }),
        }),
    decreases outcomes.len() - k,
{
    if 0 <= k < outcomes.len() {
        lemma_resolve_all_not_found_from(outcomes, k + 1, last, path);
    }
}

proof fn lemma_resolve_remembers<T>(
    outcomes: Seq<Result<T, ContentErrorView>>,
    k: int,
    a: int,
    e: ContentErrorView,
    last: Option<ContentErrorView>,
    path: Seq<char>,
)
    requires
        0 <= k <= a < outcomes.len(),
        outcomes[a] == Err::<T, ContentErrorView>(e),
        !(e is NotFound),
        forall|j: int| k <= j < outcomes.len() ==> outcomes[j] is Err,
        forall|j: int|
            a < j < outcomes.len() ==> outcomes[j] is Err && outcomes[j]->Err_0 is NotFound,
    ensures
        resolve_from(outcomes, k, last, path) == Err::<T, ContentErrorView>(e),
    decreases a - k,
{
    if k == a {
        lemma_resolve_all_not_found_from(outcomes, a + 1, Some(e), path);
    } else {
        let e2 = outcomes[k]->Err_0;
        lemma_resolve_remembers(
            outcomes,
            k + 1,
            a,
            e,
            if e2 is NotFound {
                last
            } else {
                Some(e2)
            },
            path,
        );
    }
}

/// A path present in source `i` and absent from every earlier source
/// resolves to source `i`'s outcome: earlier `NotFound`s are soft.
pub proof fn lemma_first_present_source_wins<T>(
    outcomes: Seq<Result<T, ContentErrorView>>,
    i: int,
    path: Seq<char>,
)
    requires
        0 <= i < outcomes.len(),
        outcomes[i] is Ok,
        forall|j: int| 0 <= j < i ==> outcomes[j] is Err && outcomes[j]->Err_0 is NotFound,
    ensures
        resolve_outcomes(outcomes, path) == outcomes[i],
{
    lemma_resolve_skips_errors_to(outcomes, 0, i, None, path);
}

/// A path absent from every source resolves to `NotFound` carrying the
/// requested path itself.
pub proof fn lemma_absent_everywhere<T>(outcomes: Seq<Result<T, ContentErrorView>>, path: Seq<char>)
    requires
        forall|j: int|
            0 <= j < outcomes.len() ==> outcomes[j] is Err && outcomes[j]->Err_0 is NotFound,
    ensures
        resolve_outcomes(outcomes, path) == Err::<T, ContentErrorView>(
            ContentErrorView::NotFound { path },
        ),
{
    lemma_resolve_all_not_found_from(outcomes, 0, None, path);
}

/// Errors of any kind in earlier sources are shadowed by the first
/// success: the result is that source's content.
pub proof fn lemma_error_shadowed_by_success<T>(
    outcomes: Seq<Result<T, ContentErrorView>>,
    i: int,
    path: Seq<char>,
)
    requires
        0 <= i < outcomes.len(),
        outcomes[i] is Ok,
        forall|j: int| 0 <= j < i ==> outcomes[j] is Err,
    ensures
        resolve_outcomes(outcomes, path) == outcomes[i],
{
    lemma_resolve_skips_errors_to(outcomes, 0, i, None, path);
}

/// When no source succeeds, a non-`NotFound` error followed only by
/// `NotFound`s surfaces itself, not a blanket `NotFound`.
pub proof fn lemma_error_outlives_not_found<T>(
    outcomes: Seq<Result<T, ContentErrorView>>,
    a: int,
    e: ContentErrorView,
    path: Seq<char>,
)
    requires
        0 <= a < outcomes.len(),
        outcomes[a] == Err::<T, ContentErrorView>(e),
        !(e is NotFound),
        forall|j: int| 0 <= j < outcomes.len() ==> outcomes[j] is Err,
        forall|j: int|
            a < j < outcomes.len() ==> outcomes[j] is Err && outcomes[j]->Err_0 is NotFound,
    ensures
        resolve_outcomes(outcomes, path) == Err::<T, ContentErrorView>(e),
{
    lemma_resolve_remembers(outcomes, 0, a, e, None, path);
}

/// The cache round trip: a fetch that a source answered leaves the bytes
/// under the path's key, and a second fetch of the same path is answered
/// by the cache — byte-identical content with cache provenance, the
/// store left as it was — whatever the sources would say the second time.
pub proof fn lemma_cache_round_trip<S: ContentSource, C: Cache>(
    pre: ResourceResolver<S, C>,
    mid: ResourceResolver<S, C>,
    post: ResourceResolver<S, C>,
    path: Seq<char>,
    r1: Result<FileContent, ContentError>,
    r2: Result<FileContent, ContentError>,
)
    requires
        fetch_post(pre, mid, path, r1),
        fetch_post(mid, post, path, r2),
        pre.cache matches Some(c0) && c0.infallible() && c0.retentive() && !c0.model().contains_key(
            file_cache_key(path),
        ),
        r1 is Ok,
    ensures
        r2 is Ok,
        r2->Ok_0@.content == r1->Ok_0@.content,
        r2->Ok_0@.source_path == "cache:"@ + path,
        post.cache->Some_0.model() == mid.cache->Some_0.model(),
{
    let key = file_cache_key(path);
    let c0 = pre.cache->Some_0;
    let c1 = mid.cache->Some_0;
    assert(c1.model() == c0.model().insert(key, r1->Ok_0@.content));
    assert(c1.model().contains_key(key));
    assert(c1.model()[key] == r1->Ok_0@.content);
}

} // verus!
