//! Ordered key-value lists.
//!
//! Query strings, form bodies, header maps and secret bundles are all carried
//! as ordered lists of string pairs.  Lookups take the first match; header
//! names compare ASCII-case-insensitively; decoding a query or form applies
//! last-value-wins for duplicate keys.

use vstd::prelude::*;

verus! {

use vstd::string::*;
use crate::strutil::{eq_ascii_ci, str_eq_ci, lemma_take_succ, lemma_take_full};

pub type Pairs = Seq<(Seq<char>, Seq<char>)>;

/// Value bound to the first pair whose key equals `key` exactly.
pub open spec fn kv_lookup(pairs: Pairs, key: Seq<char>) -> Option<Seq<char>>
    decreases pairs.len(),
{
    if pairs.len() == 0 {
        None
    } else if pairs[0].0 == key {
        Some(pairs[0].1)
    } else {
        kv_lookup(pairs.drop_first(), key)
    }
}

/// Value of the first header whose name matches `name` case-insensitively.
pub open spec fn header_lookup(headers: Pairs, name: Seq<char>) -> Option<Seq<char>>
    decreases headers.len(),
{
    if headers.len() == 0 {
        None
    } else if eq_ascii_ci(headers[0].0, name) {
        Some(headers[0].1)
    } else {
        header_lookup(headers.drop_first(), name)
    }
}

/// `headers` with every entry named `name` (case-insensitively) removed.
pub open spec fn headers_remove(headers: Pairs, name: Seq<char>) -> Pairs
    decreases headers.len(),
{
    if headers.len() == 0 {
        Seq::empty()
    } else {
        let rest = headers_remove(headers.drop_last(), name);
        if eq_ascii_ci(headers.last().0, name) {
            rest
        } else {
            rest.push(headers.last())
        }
    }
}

/// `headers` with `name` bound to exactly `value`: all old entries of that
/// name are dropped and the new one appended.
pub open spec fn headers_set(headers: Pairs, name: Seq<char>, value: Seq<char>) -> Pairs {
    headers_remove(headers, name).push((name, value))
}

/// Replace the value at the first pair keyed `key`, or append the pair.
pub open spec fn kv_upsert(pairs: Pairs, key: Seq<char>, value: Seq<char>) -> Pairs
    decreases pairs.len(),
{
    if pairs.len() == 0 {
        seq![(key, value)]
    } else if pairs[0].0 == key {
        seq![(key, value)] + pairs.drop_first()
    } else {
        seq![pairs[0]] + kv_upsert(pairs.drop_first(), key, value)
    }
}

/// Last-value-wins deduplication: each key keeps the position of its first
/// occurrence and the value of its last.
pub open spec fn kv_dedup(pairs: Pairs) -> Pairs
    decreases pairs.len(),
{
    if pairs.len() == 0 {
        Seq::empty()
    } else {
        kv_upsert(kv_dedup(pairs.drop_last()), pairs.last().0, pairs.last().1)
    }
}

pub proof fn lemma_kv_lookup_hit(pairs: Pairs, key: Seq<char>, j: int)
    requires
        0 <= j < pairs.len(),
        pairs[j].0 == key,
        forall|i: int| 0 <= i < j ==> pairs[i].0 != key,
    ensures
        kv_lookup(pairs, key) == Some(pairs[j].1),
    decreases pairs.len(),
{
    if j > 0 {
        lemma_kv_lookup_hit(pairs.drop_first(), key, j - 1);
    }
}

pub proof fn lemma_kv_lookup_miss(pairs: Pairs, key: Seq<char>)
    requires
        forall|i: int| 0 <= i < pairs.len() ==> pairs[i].0 != key,
    ensures
        kv_lookup(pairs, key) is None,
    decreases pairs.len(),
{
    if pairs.len() > 0 {
        lemma_kv_lookup_miss(pairs.drop_first(), key);
    }
}

pub proof fn lemma_header_lookup_hit(headers: Pairs, name: Seq<char>, j: int)
    requires
        0 <= j < headers.len(),
        eq_ascii_ci(headers[j].0, name),
        forall|i: int| 0 <= i < j ==> !eq_ascii_ci(headers[i].0, name),
    ensures
        header_lookup(headers, name) == Some(headers[j].1),
    decreases headers.len(),
{
    if j > 0 {
        lemma_header_lookup_hit(headers.drop_first(), name, j - 1);
    }
}

pub proof fn lemma_header_lookup_miss(headers: Pairs, name: Seq<char>)
    requires
        forall|i: int| 0 <= i < headers.len() ==> !eq_ascii_ci(headers[i].0, name),
    ensures
        header_lookup(headers, name) is None,
    decreases headers.len(),
{
    if headers.len() > 0 {
        lemma_header_lookup_miss(headers.drop_first(), name);
    }
}

pub proof fn lemma_kv_upsert_hit(pairs: Pairs, key: Seq<char>, value: Seq<char>, j: int)
    requires
        0 <= j < pairs.len(),
        pairs[j].0 == key,
        forall|i: int| 0 <= i < j ==> pairs[i].0 != key,
    ensures
        kv_upsert(pairs, key, value) == pairs.update(j, (key, value)),
    decreases pairs.len(),
{
    if j == 0 {
        assert(kv_upsert(pairs, key, value) =~= pairs.update(0, (key, value)));
    } else {
        lemma_kv_upsert_hit(pairs.drop_first(), key, value, j - 1);
        assert(kv_upsert(pairs, key, value) =~= pairs.update(j, (key, value)));
    }
}

pub proof fn lemma_kv_upsert_miss(pairs: Pairs, key: Seq<char>, value: Seq<char>)
    requires
        forall|i: int| 0 <= i < pairs.len() ==> pairs[i].0 != key,
    ensures
        kv_upsert(pairs, key, value) == pairs.push((key, value)),
    decreases pairs.len(),
{
    if pairs.len() == 0 {
        assert(kv_upsert(pairs, key, value) =~= pairs.push((key, value)));
    } else {
        lemma_kv_upsert_miss(pairs.drop_first(), key, value);
        assert(kv_upsert(pairs, key, value) =~= pairs.push((key, value)));
    }
}

/// First value bound to `key`, cloned out of the list.
pub fn kv_get(pairs: &Vec<(String, String)>, key: &str) -> (r: Option<String>)
    ensures
        match r {
            Some(v) => kv_lookup(pairs.deep_view(), key@) == Some(v@),
            None => kv_lookup(pairs.deep_view(), key@) is None,
        },
{
    let ghost dv = pairs.deep_view();
    let mut i: usize = 0;
    while i < pairs.len()
        invariant
            i <= pairs.len(),
            dv == pairs.deep_view(),
            dv.len() == pairs.len(),
            forall|j: int| 0 <= j < i ==> dv[j].0 != key@,
        decreases pairs.len() - i,
    {
        assert(dv[i as int] == (pairs@[i as int].0@, pairs@[i as int].1@));
        if crate::strutil::str_eq(pairs[i].0.as_str(), key) {
            let v = pairs[i].1.clone();
            proof {
                lemma_kv_lookup_hit(dv, key@, i as int);
            }
            return Some(v);
        }
        i += 1;
    }
    proof {
        lemma_kv_lookup_miss(dv, key@);
    }
    None
}

/// First header value whose name matches `name` case-insensitively.
pub fn header_get(headers: &Vec<(String, String)>, name: &str) -> (r: Option<String>)
    ensures
        match r {
            Some(v) => header_lookup(headers.deep_view(), name@) == Some(v@),
            None => header_lookup(headers.deep_view(), name@) is None,
        },
{
    let ghost dv = headers.deep_view();
    let mut i: usize = 0;
    while i < headers.len()
        invariant
            i <= headers.len(),
            dv == headers.deep_view(),
            dv.len() == headers.len(),
            forall|j: int| 0 <= j < i ==> !eq_ascii_ci(dv[j].0, name@),
        decreases headers.len() - i,
    {
        assert(dv[i as int] == (headers@[i as int].0@, headers@[i as int].1@));
        if str_eq_ci(headers[i].0.as_str(), name) {
            let v = headers[i].1.clone();
            proof {
                lemma_header_lookup_hit(dv, name@, i as int);
            }
            return Some(v);
        }
        i += 1;
    }
    proof {
        lemma_header_lookup_miss(dv, name@);
    }
    None
}

/// Bind `name` to `value`, dropping any previous entries of that name.
pub fn header_set(headers: &mut Vec<(String, String)>, name: String, value: String)
    ensures
        final(headers).deep_view() == headers_set(old(headers).deep_view(), name@, value@),
{
    let ghost dv = headers.deep_view();
    let mut out: Vec<(String, String)> = Vec::new();
    let mut i: usize = 0;
    while i < headers.len()
        invariant
            i <= headers.len(),
            dv == headers.deep_view(),
            dv.len() == headers.len(),
            out.deep_view() == headers_remove(dv.take(i as int), name@),
        decreases headers.len() - i,
    {
        assert(dv[i as int] == (headers@[i as int].0@, headers@[i as int].1@));
        let ghost prev = out.deep_view();
        if !str_eq_ci(headers[i].0.as_str(), name.as_str()) {
            let k = headers[i].0.clone();
            let v = headers[i].1.clone();
            out.push((k, v));
            assert(out.deep_view() =~= prev.push(dv[i as int]));
        }
        proof {
            lemma_take_succ(dv, i as int);
        }
        i += 1;
    }
    proof {
        lemma_take_full(dv);
    }
    let ghost removed = out.deep_view();
    out.push((name, value));
    assert(out.deep_view() =~= removed.push((name@, value@)));
    *headers = out;
}

/// Apply last-value-wins deduplication to a decoded pair list.
pub fn dedup_pairs(pairs: &Vec<(String, String)>) -> (r: Vec<(String, String)>)
    ensures
        r.deep_view() == kv_dedup(pairs.deep_view()),
{
    let ghost dv = pairs.deep_view();
    let mut out: Vec<(String, String)> = Vec::new();
    let mut i: usize = 0;
    while i < pairs.len()
        invariant
            i <= pairs.len(),
            dv == pairs.deep_view(),
            dv.len() == pairs.len(),
            out.deep_view() == kv_dedup(dv.take(i as int)),
        decreases pairs.len() - i,
    {
        assert(dv[i as int] == (pairs@[i as int].0@, pairs@[i as int].1@));
        let key = pairs[i].0.clone();
        let value = pairs[i].1.clone();
        let ghost prev = out.deep_view();
        let mut j: usize = 0;
        let mut found = false;
        while j < out.len() && !found
            invariant
                j <= out.len(),
                prev == out.deep_view(),
                prev.len() == out.len(),
                key@ == dv[i as int].0,
                !found ==> (forall|m: int| 0 <= m < j ==> prev[m].0 != key@),
                found ==> j < out.len() && prev[j as int].0 == key@ && (forall|m: int|
                    0 <= m < j ==> prev[m].0 != key@),
            decreases out.len() - j, (if found { 0int } else { 1int }),
        {
            assert(prev[j as int] == (out@[j as int].0@, out@[j as int].1@));
            if crate::strutil::str_eq(out[j].0.as_str(), key.as_str()) {
                found = true;
            } else {
                j += 1;
            }
        }
        if found {
            out[j] = (key, value);
            proof {
                lemma_kv_upsert_hit(prev, dv[i as int].0, dv[i as int].1, j as int);
                assert(out.deep_view() =~= prev.update(j as int, (dv[i as int].0, dv[i as int].1)));
            }
        } else {
            out.push((key, value));
            proof {
                lemma_kv_upsert_miss(prev, dv[i as int].0, dv[i as int].1);
                assert(out.deep_view() =~= prev.push((dv[i as int].0, dv[i as int].1)));
            }
        }
        proof {
            lemma_take_succ(dv, i as int);
        }
        i += 1;
    }
    proof {
        lemma_take_full(dv);
    }
    out
}

/// Element-wise clone of a pair list, equal at the view level.
pub fn clone_pairs(pairs: &Vec<(String, String)>) -> (r: Vec<(String, String)>)
    ensures
        r.deep_view() == pairs.deep_view(),
{
    let ghost dv = pairs.deep_view();
    let mut out: Vec<(String, String)> = Vec::new();
    let mut i: usize = 0;
    while i < pairs.len()
        invariant
            i <= pairs.len(),
            dv == pairs.deep_view(),
            dv.len() == pairs.len(),
            out.deep_view() == dv.take(i as int),
        decreases pairs.len() - i,
    {
        assert(dv[i as int] == (pairs@[i as int].0@, pairs@[i as int].1@));
        let ghost prev = out.deep_view();
        let k = pairs[i].0.clone();
        let v = pairs[i].1.clone();
        out.push((k, v));
        proof {
            assert(out.deep_view() =~= prev.push(dv[i as int]));
            lemma_take_succ(dv, i as int);
        }
        i += 1;
    }
    proof {
        lemma_take_full(dv);
    }
    out
}

} // verus!
