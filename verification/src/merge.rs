//! Deduplication and sorting of directory entries for merged listings.
//!
//! A merged listing pools the entries of every source that answered, in
//! source order, then keeps one entry per distinct path — the earliest
//! pooled one, so a higher-priority source wins ties, its `entry_type`
//! included — and sorts the result by path.

use vstd::prelude::*;

use crate::error::ContentErrorView;
use crate::text::{lemma_str_le_total, lemma_str_le_trans, str_eq, str_le, str_le_spec};
use crate::types::{DirectoryEntry, DirectoryEntryView, DirectoryListingView};

verus! {

// ---------------------------------------------------------------------------
// Entry models
// ---------------------------------------------------------------------------
/// The models of a sequence of entries.
pub open spec fn entry_views(s: Seq<DirectoryEntry>) -> Seq<DirectoryEntryView> {
    Seq::new(s.len(), |i: int| s[i]@)
}

/// Whether some entry model in `s` has path `p`.
pub open spec fn has_path_view(s: Seq<DirectoryEntryView>, p: Seq<char>) -> bool {
    exists|k: int| 0 <= k < s.len() && s[k].path == p
}

/// The first entry model in `s` whose path is `p`.
pub open spec fn first_with_path_view(s: Seq<DirectoryEntryView>, p: Seq<char>) -> DirectoryEntryView
    decreases s.len(),
{
    if s.len() == 0 {
        arbitrary()
    } else if s[0].path == p {
        s[0]
    } else {
        first_with_path_view(s.drop_first(), p)
    }
}

/// Entry models pairwise ordered by path.
pub open spec fn entries_sorted_view(s: Seq<DirectoryEntryView>) -> bool {
    forall|i: int, j: int| 0 <= i < j < s.len() ==> str_le_spec(s[i].path, s[j].path)
}

/// No two entry models share a path.
pub open spec fn paths_distinct_view(s: Seq<DirectoryEntryView>) -> bool {
    forall|i: int, j: int| 0 <= i < j < s.len() ==> s[i].path != s[j].path
}

/// Every entry of every successful listing, in listing order.
pub open spec fn listing_pool(
    outcomes: Seq<Result<DirectoryListingView, ContentErrorView>>,
) -> Seq<DirectoryEntryView>
    decreases outcomes.len(),
{
    if outcomes.len() == 0 {
        Seq::empty()
    } else {
        (match outcomes[0] {
            Ok(l) => l.entries,
            Err(_) => Seq::empty(),
        }) + listing_pool(outcomes.drop_first())
    }
}

pub proof fn lemma_has_path_views(s: Seq<DirectoryEntry>, p: Seq<char>)
    ensures
        has_path_view(entry_views(s), p) == has_path(s, p),
{
    let v = entry_views(s);
    if has_path(s, p) {
        let k = choose|k: int| 0 <= k < s.len() && s[k].path@ == p;
        assert(v[k].path == p);
    }
    if has_path_view(v, p) {
        let k = choose|k: int| 0 <= k < v.len() && v[k].path == p;
        assert(s[k].path@ == p);
    }
}

pub proof fn lemma_first_with_path_views(s: Seq<DirectoryEntry>, p: Seq<char>)
    requires
        has_path(s, p),
    ensures
        first_with_path_view(entry_views(s), p) == first_with_path(s, p)@,
    decreases s.len(),
{
    let v = entry_views(s);
    assert(s.len() > 0);
    assert(v[0] == s[0]@);
    if s[0].path@ == p {
    } else {
        assert(has_path(s.drop_first(), p)) by {
            let k = choose|k: int| 0 <= k < s.len() && s[k].path@ == p;
            assert(s.drop_first()[k - 1].path@ == p);
        }
        lemma_first_with_path_views(s.drop_first(), p);
        assert(v.drop_first() =~= entry_views(s.drop_first()));
    }
}

/// Whether some entry in `s` has path `p`.
pub open spec fn has_path(s: Seq<DirectoryEntry>, p: Seq<char>) -> bool {
    exists|k: int| 0 <= k < s.len() && s[k].path@ == p
}

/// The first entry in `s` whose path is `p`.
pub open spec fn first_with_path(s: Seq<DirectoryEntry>, p: Seq<char>) -> DirectoryEntry
    decreases s.len(),
{
    if s.len() == 0 {
        arbitrary()
    } else if s[0].path@ == p {
        s[0]
    } else {
        first_with_path(s.drop_first(), p)
    }
}

/// Entries pairwise ordered by path.
pub open spec fn entries_sorted(s: Seq<DirectoryEntry>) -> bool {
    forall|i: int, j: int| 0 <= i < j < s.len() ==> str_le_spec(s[i].path@, s[j].path@)
}

/// No two entries share a path.
pub open spec fn paths_distinct(s: Seq<DirectoryEntry>) -> bool {
    forall|i: int, j: int| 0 <= i < j < s.len() ==> s[i].path@ != s[j].path@
}

proof fn lemma_first_with_path_at(s: Seq<DirectoryEntry>, i: int)
    requires
        0 <= i < s.len(),
        forall|j: int| 0 <= j < i ==> s[j].path@ != s[i].path@,
    ensures
        first_with_path(s, s[i].path@) == s[i],
    decreases i,
{
    if i > 0 {
        lemma_first_with_path_at(s.drop_first(), i - 1);
    }
}

proof fn lemma_has_path_push(s: Seq<DirectoryEntry>, e: DirectoryEntry, p: Seq<char>)
    ensures
        has_path(s.push(e), p) == (has_path(s, p) || e.path@ == p),
{
    if has_path(s, p) {
        let k = choose|k: int| 0 <= k < s.len() && s[k].path@ == p;
        assert(s.push(e)[k].path@ == p);
    }
    if e.path@ == p {
        assert(s.push(e)[s.len() as int].path@ == p);
    }
    if has_path(s.push(e), p) {
        let k = choose|k: int| 0 <= k < s.push(e).len() && s.push(e)[k].path@ == p;
        if k < s.len() {
            assert(s[k].path@ == p);
        }
    }
}

proof fn lemma_has_path_remove(s: Seq<DirectoryEntry>, i: int, p: Seq<char>)
    requires
        0 <= i < s.len(),
    ensures
        has_path(s, p) == (has_path(s.remove(i), p) || s[i].path@ == p),
{
    let t = s.remove(i);
    if has_path(t, p) {
        let k = choose|k: int| 0 <= k < t.len() && t[k].path@ == p;
        if k < i {
            assert(s[k].path@ == p);
        } else {
            assert(s[k + 1].path@ == p);
        }
    }
    if has_path(s, p) {
        let k = choose|k: int| 0 <= k < s.len() && s[k].path@ == p;
        if k != i {
            if k < i {
                assert(t[k].path@ == p);
            } else {
                assert(t[k - 1].path@ == p);
            }
        }
    }
}

/// Whether some entry of `v` carries path `p`.
fn contains_path(v: &Vec<DirectoryEntry>, p: &str) -> (r: bool)
    ensures
        r == has_path(v@, p@),
{
    let n = v.len();
    let mut i: usize = 0;
    while i < n
        invariant
            i <= n,
            n == v@.len(),
            forall|j: int| 0 <= j < i ==> v@[j].path@ != p@,
        decreases n - i,
    {
        if str_eq(v[i].path.as_str(), p) {
            return true;
        }
        i += 1;
    }
    false
}

/// One entry per distinct path: the first in `pool` with that path.
fn dedup_first_by_path(pool: &Vec<DirectoryEntry>) -> (out: Vec<DirectoryEntry>)
    ensures
        paths_distinct(out@),
        forall|p: Seq<char>| has_path(pool@, p) == has_path(out@, p),
        forall|k: int| 0 <= k < out@.len() ==> out@[k] == first_with_path(pool@, out@[k].path@),
{
    let mut out: Vec<DirectoryEntry> = Vec::new();
    let n = pool.len();
    let mut i: usize = 0;
    while i < n
        invariant
            i <= n,
            n == pool@.len(),
            paths_distinct(out@),
            forall|p: Seq<char>| has_path(pool@.take(i as int), p) == has_path(out@, p),
            forall|k: int| 0 <= k < out@.len() ==> out@[k] == first_with_path(
                pool@,
                out@[k].path@,
            ),
        decreases n - i,
    {
        let ghost prefix = pool@.take(i as int);
        let ghost outpre = out@;
        if !contains_path(&out, pool[i].path.as_str()) {
            proof {
                assert forall|j: int| 0 <= j < i implies pool@[j].path@ != pool@[i as int].path@ by {
                    assert(prefix[j] == pool@[j]);
                    if pool@[j].path@ == pool@[i as int].path@ {
                        assert(has_path(prefix, pool@[j].path@));
                    }
                }
                lemma_first_with_path_at(pool@, i as int);
                let ghost pcur = pool@[i as int].path@;
                assert forall|k: int| 0 <= k < outpre.len() implies outpre[k].path@ != pcur by {
                    if outpre[k].path@ == pcur {
                        assert(has_path(outpre, pcur));
                    }
                }
            }
            out.push(pool[i].duplicate());
        }
        proof {
            assert(pool@.take(i + 1) =~= prefix.push(pool@[i as int]));
            assert forall|p: Seq<char>| has_path(pool@.take(i + 1), p) == has_path(out@, p) by {
                lemma_has_path_push(prefix, pool@[i as int], p);
                if out@.len() == outpre.len() + 1 {
                    lemma_has_path_push(outpre, out@.last(), p);
                }
            }
        }
        i += 1;
    }
    proof {
        assert(pool@.take(n as int) =~= pool@);
    }
    out
}

/// The index of a path-minimal entry.
fn index_of_min(v: &Vec<DirectoryEntry>) -> (mi: usize)
    requires
        v@.len() > 0,
    ensures
        mi < v@.len(),
        forall|k: int| 0 <= k < v@.len() ==> str_le_spec(v@[mi as int].path@, v@[k].path@),
{
    let n = v.len();
    let mut mi: usize = 0;
    let mut i: usize = 1;
    proof {
        lemma_str_le_total(v@[0].path@, v@[0].path@);
    }
    while i < n
        invariant
            mi < i <= n,
            n == v@.len(),
            forall|k: int| 0 <= k < i ==> str_le_spec(v@[mi as int].path@, v@[k].path@),
        decreases n - i,
    {
        if str_le(v[i].path.as_str(), v[mi].path.as_str()) {
            proof {
                assert forall|k: int| 0 <= k < i + 1 implies str_le_spec(
                    v@[i as int].path@,
                    v@[k].path@,
                ) by {
                    if k < i {
                        lemma_str_le_trans(v@[i as int].path@, v@[mi as int].path@, v@[k].path@);
                    } else {
                        lemma_str_le_total(v@[i as int].path@, v@[i as int].path@);
                    }
                }
            }
            mi = i;
        } else {
            proof {
                lemma_str_le_total(v@[mi as int].path@, v@[i as int].path@);
            }
        }
        i += 1;
    }
    mi
}

/// Sorts entries with pairwise distinct paths by path.
fn sort_entries_by_path(input: Vec<DirectoryEntry>) -> (out: Vec<DirectoryEntry>)
    requires
        paths_distinct(input@),
    ensures
        entries_sorted(out@),
        paths_distinct(out@),
        forall|p: Seq<char>| has_path(input@, p) == has_path(out@, p),
        forall|k: int| 0 <= k < out@.len() ==> input@.contains(out@[k]),
{
    let ghost whole = input@;
    let mut v = input;
    let mut out: Vec<DirectoryEntry> = Vec::new();
    proof {
        assert forall|k: int| 0 <= k < v@.len() implies whole.contains(v@[k]) by {
            assert(whole[k] == v@[k]);
        }
    }
    loop
        invariant
            forall|p: Seq<char>| has_path(whole, p) == (has_path(out@, p) || has_path(v@, p)),
            forall|k: int| 0 <= k < out@.len() ==> whole.contains(out@[k]),
            forall|k: int| 0 <= k < v@.len() ==> whole.contains(v@[k]),
            entries_sorted(out@),
            paths_distinct(out@),
            paths_distinct(v@),
            forall|a: int, b: int|
                0 <= a < out@.len() && 0 <= b < v@.len() ==> str_le_spec(
                    out@[a].path@,
                    v@[b].path@,
                ),
            forall|a: int, b: int|
                0 <= a < out@.len() && 0 <= b < v@.len() ==> out@[a].path@ != v@[b].path@,
        ensures
            v@.len() == 0,
            forall|p: Seq<char>| has_path(whole, p) == (has_path(out@, p) || has_path(v@, p)),
            forall|k: int| 0 <= k < out@.len() ==> whole.contains(out@[k]),
            entries_sorted(out@),
            paths_distinct(out@),
        decreases v@.len(),
    {
        if v.len() == 0 {
            break ;
        }
        let ghost vpre = v@;
        let ghost outpre = out@;
        let mi = index_of_min(&v);
        let e = v.remove(mi);
        out.push(e);
        proof {
            let ghost vpost = v@;
            // membership: removing index mi and pushing the element keeps
            // the path partition
            assert forall|p: Seq<char>| has_path(whole, p) == (has_path(out@, p) || has_path(
                v@,
                p,
            )) by {
                lemma_has_path_remove(vpre, mi as int, p);
                lemma_has_path_push(outpre, e, p);
            }
            assert forall|k: int| 0 <= k < v@.len() implies whole.contains(v@[k]) by {
                if k < mi {
                    assert(v@[k] == vpre[k]);
                } else {
                    assert(v@[k] == vpre[k + 1]);
                }
            }
            assert forall|k: int| 0 <= k < out@.len() implies whole.contains(out@[k]) by {
                if k < outpre.len() {
                } else {
                    assert(out@[k] == vpre[mi as int]);
                }
            }
            // every element of the new remainder was in the old one
            assert forall|b: int| #![trigger v@[b]] 0 <= b < v@.len() implies (exists|b0: int|
                #![trigger vpre[b0]]
                0 <= b0 < vpre.len() && b0 != mi && vpre[b0] == v@[b]) by {
                if b < mi {
                    assert(vpre[b] == v@[b]);
                } else {
                    assert(vpre[b + 1] == v@[b]);
                }
            }
            // order: the removed minimum precedes everything left
            assert forall|a: int, b: int|
                0 <= a < out@.len() && 0 <= b < v@.len() implies str_le_spec(
                out@[a].path@,
                v@[b].path@,
            ) by {
                let b0 = choose|b0: int| 0 <= b0 < vpre.len() && b0 != mi && vpre[b0] == v@[b];
                if a < outpre.len() {
                    assert(str_le_spec(outpre[a].path@, vpre[b0].path@));
                } else {
                    assert(out@[a] == e);
                    assert(str_le_spec(vpre[mi as int].path@, vpre[b0].path@));
                }
            }
            assert forall|a: int, b: int|
                0 <= a < out@.len() && 0 <= b < v@.len() implies out@[a].path@ != v@[b].path@ by {
                let b0 = choose|b0: int| 0 <= b0 < vpre.len() && b0 != mi && vpre[b0] == v@[b];
                if a < outpre.len() {
                    assert(outpre[a].path@ != vpre[b0].path@);
                } else {
                    assert(out@[a] == vpre[mi as int]);
                    if mi < b0 {
                        assert(vpre[mi as int].path@ != vpre[b0].path@);
                    } else {
                        assert(vpre[b0].path@ != vpre[mi as int].path@);
                    }
                }
            }
            assert forall|i: int, j: int| 0 <= i < j < out@.len() implies str_le_spec(
                out@[i].path@,
                out@[j].path@,
            ) by {
                if j < outpre.len() {
                    assert(str_le_spec(outpre[i].path@, outpre[j].path@));
                } else {
                    assert(out@[j] == e);
                    assert(str_le_spec(outpre[i].path@, vpre[mi as int].path@));
                }
            }
            assert forall|i: int, j: int| 0 <= i < j < out@.len() implies out@[i].path@
                != out@[j].path@ by {
                if j < outpre.len() {
                } else {
                    assert(out@[j] == vpre[mi as int]);
                }
            }
            assert forall|i: int, j: int| 0 <= i < j < v@.len() implies v@[i].path@
                != v@[j].path@ by {
                if j < mi {
                } else if i < mi {
                    assert(v@[i] == vpre[i] && v@[j] == vpre[j + 1]);
                } else {
                    assert(v@[i] == vpre[i + 1] && v@[j] == vpre[j + 1]);
                }
            }
        }
    }
    out
}

/// The deduplicated, path-sorted form of a pool of entries: one entry per
/// distinct pooled path — the pool's first entry with that path — in
/// ascending path order.
pub fn merge_entries(pool: &Vec<DirectoryEntry>) -> (out: Vec<DirectoryEntry>)
    ensures
        entries_sorted(out@),
        paths_distinct(out@),
        forall|p: Seq<char>| has_path(pool@, p) == has_path(out@, p),
        forall|k: int| 0 <= k < out@.len() ==> out@[k] == first_with_path(pool@, out@[k].path@),
{
    let deduped = dedup_first_by_path(pool);
    let ghost dd = deduped@;
    let out = sort_entries_by_path(deduped);
    proof {
        assert forall|k: int| 0 <= k < out@.len() implies out@[k] == first_with_path(
            pool@,
            out@[k].path@,
        ) by {
            assert(dd.contains(out@[k]));
            let j = choose|j: int| 0 <= j < dd.len() && dd[j] == out@[k];
            assert(dd[j] == first_with_path(pool@, dd[j].path@));
        }
    }
    out
}

} // verus!
