//! A string-keyed association list and the finite map it denotes.
//!
//! The in-memory cache and the in-memory source both keep their entries in
//! a `Vec<(String, T)>` and are specified against [`kv_map`], the map that
//! list denotes. The earliest entry for a key wins, and the mutators below
//! keep at most one entry per key.

use vstd::prelude::*;

use crate::text::str_eq;

verus! {

/// The finite map an association list denotes; the earliest entry for a
/// key wins.
pub open spec fn kv_map<T: View>(s: Seq<(String, T)>) -> Map<Seq<char>, T::V>
    decreases s.len(),
{
    if s.len() == 0 {
        Map::empty()
    } else {
        kv_map(s.drop_first()).insert(s[0].0@, s[0].1@)
    }
}

/// The list without any entry for key `k`, order kept.
spec fn kv_filter_out<T>(s: Seq<(String, T)>, k: Seq<char>) -> Seq<(String, T)>
    decreases s.len(),
{
    if s.len() == 0 {
        s
    } else if s[0].0@ == k {
        kv_filter_out(s.drop_first(), k)
    } else {
        seq![s[0]] + kv_filter_out(s.drop_first(), k)
    }
}

proof fn lemma_kv_map_absent<T: View>(s: Seq<(String, T)>, k: Seq<char>)
    requires
        forall|j: int| 0 <= j < s.len() ==> s[j].0@ != k,
    ensures
        !kv_map(s).contains_key(k),
    decreases s.len(),
{
    if s.len() > 0 {
        lemma_kv_map_absent(s.drop_first(), k);
    }
}

proof fn lemma_kv_map_first_match<T: View>(s: Seq<(String, T)>, i: int, k: Seq<char>)
    requires
        0 <= i < s.len(),
        s[i].0@ == k,
        forall|j: int| 0 <= j < i ==> s[j].0@ != k,
    ensures
        kv_map(s).contains_key(k),
        kv_map(s)[k] == s[i].1@,
    decreases i,
{
    if i > 0 {
        lemma_kv_map_first_match(s.drop_first(), i - 1, k);
    }
}

proof fn lemma_kv_map_filter_out<T: View>(s: Seq<(String, T)>, k: Seq<char>)
    ensures
        kv_map(kv_filter_out(s, k)) == kv_map(s).remove(k),
    decreases s.len(),
{
    if s.len() == 0 {
        assert(kv_map(kv_filter_out(s, k)) =~= kv_map(s).remove(k));
    } else {
        lemma_kv_map_filter_out(s.drop_first(), k);
        if s[0].0@ == k {
            assert(kv_map(kv_filter_out(s, k)) =~= kv_map(s).remove(k));
        } else {
            let t = seq![s[0]] + kv_filter_out(s.drop_first(), k);
            assert(t.drop_first() =~= kv_filter_out(s.drop_first(), k));
            assert(kv_map(t) == kv_map(kv_filter_out(s.drop_first(), k)).insert(s[0].0@, s[0].1@));
            assert(kv_map(kv_filter_out(s, k)) =~= kv_map(s).remove(k));
        }
    }
}

/// The value for `key`, if the list has one.
pub fn kv_get<'a, T: View>(s: &'a Vec<(String, T)>, key: &str) -> (r: Option<&'a T>)
    ensures
        match r {
            Some(t) => kv_map(s@).contains_key(key@) && (*t)@ == kv_map(s@)[key@],
            None => !kv_map(s@).contains_key(key@),
        },
{
    let n = s.len();
    let mut i: usize = 0;
    while i < n
        invariant
            i <= n,
            n == s@.len(),
            forall|j: int| 0 <= j < i ==> s@[j].0@ != key@,
        decreases n - i,
    {
        if str_eq(s[i].0.as_str(), key) {
            proof {
                lemma_kv_map_first_match(s@, i as int, key@);
            }
            return Some(&s[i].1);
        }
        i += 1;
    }
    proof {
        lemma_kv_map_absent(s@, key@);
    }
    None
}

/// Whether the list has an entry for `key`.
pub fn kv_contains_key<T: View>(s: &Vec<(String, T)>, key: &str) -> (r: bool)
    ensures
        r == kv_map(s@).contains_key(key@),
{
    match kv_get(s, key) {
        Some(_) => true,
        None => false,
    }
}

/// Drops every entry for `key`, keeping the order of the rest.
pub fn kv_remove_key<T: View>(v: &mut Vec<(String, T)>, key: &str)
    ensures
        kv_map(final(v)@) == kv_map(old(v)@).remove(key@),
{
    let ghost orig = v@;
    let mut kept: Vec<(String, T)> = Vec::new();
    proof {
        assert(kept@ + kv_filter_out(v@, key@) =~= kv_filter_out(orig, key@));
    }
    loop
        invariant
            kv_filter_out(orig, key@) == kept@ + kv_filter_out(v@, key@),
        ensures
            v@.len() == 0,
            kv_filter_out(orig, key@) == kept@ + kv_filter_out(v@, key@),
        decreases v@.len(),
    {
        if v.len() == 0 {
            break ;
        }
        let ghost pre = v@;
        let p = v.remove(0);
        proof {
            assert(pre.remove(0) =~= pre.drop_first());
        }
        if !str_eq(p.0.as_str(), key) {
            kept.push(p);
        }
        proof {
            assert(kept@ + kv_filter_out(v@, key@) =~= kv_filter_out(orig, key@));
        }
    }
    proof {
        assert(kv_filter_out(v@, key@) =~= Seq::<(String, T)>::empty());
        assert(kept@ =~= kv_filter_out(orig, key@));
        lemma_kv_map_filter_out(orig, key@);
    }
    *v = kept;
}

/// Replaces any entry for `key` with the given value.
pub fn kv_set<T: View>(v: &mut Vec<(String, T)>, key: &str, value: T)
    ensures
        kv_map(final(v)@) == kv_map(old(v)@).insert(key@, value@),
{
    kv_remove_key(v, key);
    let ghost mid = v@;
    v.insert(0, (key.to_owned(), value));
    proof {
        assert(v@.drop_first() =~= mid);
        assert(kv_map(v@) =~= kv_map(old(v)@).insert(key@, value@));
    }
}

} // verus!
