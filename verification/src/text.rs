//! Verified text helpers: equality and lexicographic order on `str`,
//! trimming, prefix stripping, and decimal rendering.
//!
//! Paths and cache keys are strings, so the resolver's contracts lean on
//! these primitives. Order and equality are stated over the UTF-8 byte
//! encoding, which is the order `str` comparison in std uses; equal
//! encodings mean equal character sequences.

use vstd::prelude::*;
use vstd::slice::slice_index_get;
use vstd::string::*;
use vstd::utf8::{encode_utf8, encode_utf8_decode_utf8};

verus! {

// ---------------------------------------------------------------------------
// Building blocks over std's String
// ---------------------------------------------------------------------------
/// Relies on String::push: appends exactly the given character.
#[verifier::external_body]
pub fn push_char(s: &mut String, c: char)
    ensures
        final(s)@ == old(s)@.push(c),
{
    s.push(c);
}

// ---------------------------------------------------------------------------
// Equality
// ---------------------------------------------------------------------------
/// Equal character sequences have equal encodings, so two `str` values can
/// be compared byte by byte.
pub fn str_eq(a: &str, b: &str) -> (r: bool)
    ensures
        r == (a@ == b@),
{
    let ab = a.as_bytes();
    let bb = b.as_bytes();
    let alen = ab.len();
    let blen = bb.len();
    if alen != blen {
        // equal views would force equal encodings of equal length
        return false;
    }
    let mut i: usize = 0;
    while i < alen
        invariant
            i <= alen,
            alen == blen,
            alen == ab@.len(),
            blen == bb@.len(),
            ab@ == encode_utf8(a@),
            bb@ == encode_utf8(b@),
            forall|j: int| 0 <= j < i ==> ab@[j] == bb@[j],
        decreases alen - i,
    {
        if *slice_index_get(ab, i) != *slice_index_get(bb, i) {
            return false;
        }
        i += 1;
    }
    proof {
        assert(ab@ =~= bb@);
        encode_utf8_decode_utf8(a@);
        encode_utf8_decode_utf8(b@);
    }
    true
}

// ---------------------------------------------------------------------------
// Lexicographic order on byte sequences and strings
// ---------------------------------------------------------------------------
/// Lexicographic "less than or equal" on byte sequences.
pub open spec fn bytes_le(a: Seq<u8>, b: Seq<u8>) -> bool
    decreases a.len(),
{
    if a.len() == 0 {
        true
    } else if b.len() == 0 {
        false
    } else if a[0] < b[0] {
        true
    } else if a[0] > b[0] {
        false
    } else {
        bytes_le(a.drop_first(), b.drop_first())
    }
}

/// The order in which paths are compared: lexicographic on the UTF-8
/// encoding, as std compares `str` values.
pub open spec fn str_le_spec(a: Seq<char>, b: Seq<char>) -> bool {
    bytes_le(encode_utf8(a), encode_utf8(b))
}

pub proof fn lemma_bytes_le_total(a: Seq<u8>, b: Seq<u8>)
    ensures
        bytes_le(a, b) || bytes_le(b, a),
    decreases a.len(),
{
    if a.len() > 0 && b.len() > 0 && a[0] == b[0] {
        lemma_bytes_le_total(a.drop_first(), b.drop_first());
    }
}

pub proof fn lemma_bytes_le_trans(a: Seq<u8>, b: Seq<u8>, c: Seq<u8>)
    requires
        bytes_le(a, b),
        bytes_le(b, c),
    ensures
        bytes_le(a, c),
    decreases a.len(),
{
    if a.len() > 0 && b.len() > 0 && c.len() > 0 {
        if a[0] == b[0] && b[0] == c[0] {
            lemma_bytes_le_trans(a.drop_first(), b.drop_first(), c.drop_first());
        }
    }
}

pub proof fn lemma_str_le_total(a: Seq<char>, b: Seq<char>)
    ensures
        str_le_spec(a, b) || str_le_spec(b, a),
{
    lemma_bytes_le_total(encode_utf8(a), encode_utf8(b));
}

pub proof fn lemma_str_le_trans(a: Seq<char>, b: Seq<char>, c: Seq<char>)
    requires
        str_le_spec(a, b),
        str_le_spec(b, c),
    ensures
        str_le_spec(a, c),
{
    lemma_bytes_le_trans(encode_utf8(a), encode_utf8(b), encode_utf8(c));
}

/// Dropping an equal prefix does not change how two byte sequences compare.
proof fn lemma_bytes_le_skip(x: Seq<u8>, y: Seq<u8>, i: int)
    requires
        0 <= i <= x.len(),
        i <= y.len(),
        forall|j: int| 0 <= j < i ==> x[j] == y[j],
    ensures
        bytes_le(x, y) == bytes_le(x.skip(i), y.skip(i)),
    decreases i,
{
    if i == 0 {
        assert(x.skip(0) =~= x);
        assert(y.skip(0) =~= y);
    } else {
        assert(x[0] == y[0]);
        assert(x.drop_first().skip(i - 1) =~= x.skip(i));
        assert(y.drop_first().skip(i - 1) =~= y.skip(i));
        lemma_bytes_le_skip(x.drop_first(), y.drop_first(), i - 1);
    }
}

/// Byte-wise comparison of two `str` values under [`str_le_spec`].
pub fn str_le(a: &str, b: &str) -> (r: bool)
    ensures
        r == str_le_spec(a@, b@),
{
    let ab = a.as_bytes();
    let bb = b.as_bytes();
    let alen = ab.len();
    let blen = bb.len();
    let mut i: usize = 0;
    loop
        invariant
            i <= alen,
            i <= blen,
            alen == ab@.len(),
            blen == bb@.len(),
            ab@ == encode_utf8(a@),
            bb@ == encode_utf8(b@),
            forall|j: int| 0 <= j < i ==> ab@[j] == bb@[j],
        decreases alen - i,
    {
        proof {
            lemma_bytes_le_skip(ab@, bb@, i as int);
        }
        if i >= alen {
            return true;
        }
        if i >= blen {
            return false;
        }
        let x = *slice_index_get(ab, i);
        let y = *slice_index_get(bb, i);
        if x < y {
            return true;
        }
        if x > y {
            return false;
        }
        i += 1;
    }
}

// ---------------------------------------------------------------------------
// Trimming and prefix stripping
// ---------------------------------------------------------------------------
/// The sequence with every leading `c` removed.
pub open spec fn trim_leading(s: Seq<char>, c: char) -> Seq<char>
    decreases s.len(),
{
    if s.len() > 0 && s[0] == c {
        trim_leading(s.drop_first(), c)
    } else {
        s
    }
}

/// The sequence with every trailing `c` removed.
pub open spec fn trim_trailing(s: Seq<char>, c: char) -> Seq<char>
    decreases s.len(),
{
    if s.len() > 0 && s.last() == c {
        trim_trailing(s.drop_last(), c)
    } else {
        s
    }
}

proof fn lemma_trim_leading_at(s: Seq<char>, c: char, i: int)
    requires
        0 <= i <= s.len(),
        forall|j: int| 0 <= j < i ==> s[j] == c,
        i == s.len() || s[i] != c,
    ensures
        trim_leading(s, c) == s.skip(i),
    decreases i,
{
    if i == 0 {
        assert(s.skip(0) =~= s);
    } else {
        assert(s.drop_first().skip(i - 1) =~= s.skip(i));
        lemma_trim_leading_at(s.drop_first(), c, i - 1);
    }
}

proof fn lemma_trim_trailing_at(s: Seq<char>, c: char, i: int)
    requires
        0 <= i <= s.len(),
        forall|j: int| i <= j < s.len() ==> s[j] == c,
        i == 0 || s[i - 1] != c,
    ensures
        trim_trailing(s, c) == s.take(i),
    decreases s.len() - i,
{
    if i == s.len() {
        assert(s.take(i) =~= s);
    } else {
        assert(s.drop_last().take(i) =~= s.take(i));
        lemma_trim_trailing_at(s.drop_last(), c, i);
    }
}

/// The suffix of `s` past its leading run of `c` characters.
pub fn trim_leading_char<'a>(s: &'a str, c: char) -> (r: &'a str)
    ensures
        r@ == trim_leading(s@, c),
{
    let n = s.unicode_len();
    let mut i: usize = 0;
    loop
        invariant
            i <= n,
            n == s@.len(),
            forall|j: int| 0 <= j < i ==> s@[j] == c,
        ensures
            i <= n,
            forall|j: int| 0 <= j < i ==> s@[j] == c,
            i == n || s@[i as int] != c,
        decreases n - i,
    {
        if i >= n {
            break ;
        }
        if s.get_char(i) != c {
            break ;
        }
        i += 1;
    }
    proof {
        lemma_trim_leading_at(s@, c, i as int);
    }
    s.substring_char(i, n)
}

/// The prefix of `s` before its trailing run of `c` characters.
pub fn trim_trailing_char<'a>(s: &'a str, c: char) -> (r: &'a str)
    ensures
        r@ == trim_trailing(s@, c),
{
    let n = s.unicode_len();
    let mut i: usize = n;
    loop
        invariant
            i <= n,
            n == s@.len(),
            forall|j: int| i <= j < n ==> s@[j] == c,
        ensures
            i <= n,
            forall|j: int| i <= j < n ==> s@[j] == c,
            i == 0 || s@[i - 1] != c,
        decreases i,
    {
        if i == 0 {
            break ;
        }
        if s.get_char(i - 1) != c {
            break ;
        }
        i -= 1;
    }
    proof {
        lemma_trim_trailing_at(s@, c, i as int);
    }
    s.substring_char(0, i)
}

/// Whether `pre` is a character-wise prefix of `s`, and if so the rest.
pub fn str_strip_prefix<'a>(s: &'a str, pre: &str) -> (r: Option<&'a str>)
    ensures
        match r {
            Some(rest) => s@.len() >= pre@.len() && s@.subrange(0, pre@.len() as int) == pre@
                && rest@ == s@.skip(pre@.len() as int),
            None => !(s@.len() >= pre@.len() && s@.subrange(0, pre@.len() as int) == pre@),
        },
{
    let n = s.unicode_len();
    let m = pre.unicode_len();
    if n < m {
        return None;
    }
    let mut i: usize = 0;
    while i < m
        invariant
            i <= m,
            m <= n,
            n == s@.len(),
            m == pre@.len(),
            forall|j: int| 0 <= j < i ==> s@[j] == pre@[j],
        decreases m - i,
    {
        if s.get_char(i) != pre.get_char(i) {
            proof {
                assert(s@.subrange(0, m as int)[i as int] == s@[i as int]);
            }
            return None;
        }
        i += 1;
    }
    proof {
        assert(s@.subrange(0, m as int) =~= pre@);
    }
    Some(s.substring_char(m, n))
}

// ---------------------------------------------------------------------------
// Decimal rendering
// ---------------------------------------------------------------------------
/// The character for one decimal digit.
pub open spec fn digit_char(d: u8) -> char {
    match d {
        0u8 => '0',
        1u8 => '1',
        2u8 => '2',
        3u8 => '3',
        4u8 => '4',
        5u8 => '5',
        6u8 => '6',
        7u8 => '7',
        8u8 => '8',
        _ => '9',
    }
}

/// The usual decimal rendering of a natural number.
pub open spec fn dec_of(n: nat) -> Seq<char>
    decreases n,
{
    if n < 10 {
        seq![digit_char(n as u8)]
    } else {
        dec_of(n / 10) + seq![digit_char((n % 10) as u8)]
    }
}

fn digit_char_exec(d: u8) -> (c: char)
    requires
        d < 10,
    ensures
        c == digit_char(d),
{
    match d {
        0u8 => '0',
        1u8 => '1',
        2u8 => '2',
        3u8 => '3',
        4u8 => '4',
        5u8 => '5',
        6u8 => '6',
        7u8 => '7',
        8u8 => '8',
        _ => '9',
    }
}

/// Appends the decimal rendering of `n`.
pub fn push_decimal(s: &mut String, n: u16)
    ensures
        final(s)@ == old(s)@ + dec_of(n as nat),
    decreases n,
{
    if n < 10 {
        push_char(s, digit_char_exec(n as u8));
        assert(s@ =~= old(s)@ + dec_of(n as nat));
    } else {
        push_decimal(s, n / 10);
        push_char(s, digit_char_exec((n % 10) as u8));
        assert(s@ =~= old(s)@ + dec_of(n as nat));
    }
}

} // verus!
