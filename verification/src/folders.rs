//! Which music folders are scanned.

use vstd::prelude::*;
use crate::library::{has_name, strings_view};
use crate::text::str_eq;

verus! {

fn copy_strings(v: &Vec<String>) -> (r: Vec<String>)
    ensures
        strings_view(r@) == strings_view(v@),
{
    let mut out: Vec<String> = Vec::new();
    let mut i: usize = 0;
    while i < v.len()
        invariant
            i <= v.len(),
            strings_view(out@) == strings_view(v@.subrange(0, i as int)),
        decreases v.len() - i,
    {
        let ghost before = out@;
        out.push(v[i].clone());
        assert(strings_view(out@) == strings_view(before).push(v@[i as int]@));
        assert(v@.subrange(0, i + 1) == v@.subrange(0, i as int).push(v@[i as int]));
        i = i + 1;
    }
    assert(v@.subrange(0, v.len() as int) == v@);
    out
}

/// The folders a scan covers: the ones asked for, or the stored ones when
/// none are asked for. An empty answer means there is nothing to scan.
pub fn folders_to_scan(requested: &Vec<String>, stored: &Vec<String>) -> (r: Vec<String>)
    ensures
        strings_view(r@) == (if requested@.len() == 0 { strings_view(stored@) } else { strings_view(requested@) }),
{
    if requested.len() == 0 {
        copy_strings(stored)
    } else {
        copy_strings(requested)
    }
}

/// Whether the default music folders are added: on first launch, when no
/// folder is stored yet.
pub fn needs_default_folders(stored: &Vec<String>) -> (r: bool)
    ensures
        r == (stored@.len() == 0),
{
    stored.len() == 0
}

/// The candidates kept when each is identified by a key (its canonical
/// path): the first candidate with each key, in order.
pub open spec fn first_per_key(cands: Seq<String>, keys: Seq<String>) -> Seq<Seq<char>>
    decreases cands.len(),
{
    if cands.len() == 0 || keys.len() != cands.len() {
        Seq::empty()
    } else {
        let n = (cands.len() - 1) as int;
        let kept = first_per_key(cands.subrange(0, n), keys.subrange(0, n));
        if has_name(keys.subrange(0, n), keys[n]@) {
            kept
        } else {
            kept.push(cands[n]@)
        }
    }
}

/// Keeping the first candidate of each key keeps no key twice and loses
/// none: the kept candidates are, in order, candidates at increasing
/// positions `idx`; no two of them have equal keys; each is the first
/// candidate with its key; and every key among the candidates is the key of
/// a kept one.
pub proof fn lemma_first_per_key_distinct(cands: Seq<String>, keys: Seq<String>) -> (idx: Seq<int>)
    requires
        cands.len() == keys.len(),
    ensures
        idx.len() == first_per_key(cands, keys).len(),
        forall|t: int| 0 <= t < idx.len() ==> 0 <= #[trigger] idx[t] < cands.len()
            && first_per_key(cands, keys)[t] == cands[idx[t]]@,
        forall|t: int, u: int| 0 <= t < u < idx.len() ==> #[trigger] idx[t] < #[trigger] idx[u],
        forall|t: int, u: int| 0 <= t < idx.len() && 0 <= u < idx.len() && t != u
            ==> keys[#[trigger] idx[t]]@ != keys[#[trigger] idx[u]]@,
        forall|t: int, j: int| 0 <= t < idx.len() && 0 <= j < #[trigger] idx[t] ==> #[trigger] keys[j]@ != keys[idx[t]]@,
        forall|i: int| 0 <= i < keys.len() ==> exists|t: int| 0 <= t < idx.len() && #[trigger] keys[idx[t]]@ == (#[trigger] keys[i])@,
    decreases cands.len(),
{
    if cands.len() == 0 {
        Seq::empty()
    } else {
        let n = (cands.len() - 1) as int;
        let cs = cands.subrange(0, n);
        let ks = keys.subrange(0, n);
        let prev = lemma_first_per_key_distinct(cs, ks);
        assert forall|x: int| 0 <= x < n implies #[trigger] cs[x] == cands[x] && ks[x] == keys[x] by {}
        assert forall|t: int| 0 <= t < prev.len() implies #[trigger] keys[prev[t]]@ == ks[prev[t]]@ by {}
        if has_name(ks, keys[n]@) {
            let idx = prev;
            assert forall|t: int, j: int| 0 <= t < idx.len() && 0 <= j < #[trigger] idx[t]
                implies #[trigger] keys[j]@ != keys[idx[t]]@ by {
                assert(ks[j]@ != ks[idx[t]]@);
            }
            assert forall|i: int| 0 <= i < keys.len() implies exists|t: int| 0 <= t < idx.len()
                && #[trigger] keys[idx[t]]@ == (#[trigger] keys[i])@ by {
                if i < n {
                    assert(ks[i] == keys[i]);
                    let t = choose|t: int| 0 <= t < prev.len() && #[trigger] ks[prev[t]]@ == (#[trigger] ks[i])@;
                    assert(keys[idx[t]]@ == keys[i]@);
                } else {
                    let m = choose|m: int| 0 <= m < ks.len() && (#[trigger] ks[m])@ == keys[n]@;
                    let t = choose|t: int| 0 <= t < prev.len() && #[trigger] ks[prev[t]]@ == (#[trigger] ks[m])@;
                    assert(keys[idx[t]]@ == keys[i]@);
                }
            }
            assert forall|t: int, u: int| 0 <= t < idx.len() && 0 <= u < idx.len() && t != u
                implies keys[#[trigger] idx[t]]@ != keys[#[trigger] idx[u]]@ by {
                assert(ks[prev[t]]@ != ks[prev[u]]@);
            }
            idx
        } else {
            let idx = prev.push(n);
            assert(first_per_key(cands, keys) == first_per_key(cs, ks).push(cands[n]@));
            assert forall|t: int| 0 <= t < idx.len() implies 0 <= #[trigger] idx[t] < cands.len()
                && first_per_key(cands, keys)[t] == cands[idx[t]]@ by {
                if t < prev.len() {
                    assert(idx[t] == prev[t]);
                }
            }
            assert forall|t: int, u: int| 0 <= t < u < idx.len() implies #[trigger] idx[t] < #[trigger] idx[u] by {
                if u < prev.len() {
                    assert(idx[t] == prev[t] && idx[u] == prev[u]);
                } else {
                    assert(idx[t] == prev[t]);
                }
            }
            assert forall|t: int, u: int| 0 <= t < idx.len() && 0 <= u < idx.len() && t != u
                implies keys[#[trigger] idx[t]]@ != keys[#[trigger] idx[u]]@ by {
                if t < prev.len() && u < prev.len() {
                    assert(idx[t] == prev[t] && idx[u] == prev[u]);
                    assert(ks[prev[t]]@ != ks[prev[u]]@);
                } else if t < prev.len() {
                    assert(idx[t] == prev[t]);
                    assert(ks[prev[t]] == keys[idx[t]]);
                    assert(idx[u] == n);
                } else {
                    assert(idx[u] == prev[u]);
                    assert(ks[prev[u]] == keys[idx[u]]);
                    assert(idx[t] == n);
                }
            }
            assert forall|t: int, j: int| 0 <= t < idx.len() && 0 <= j < #[trigger] idx[t]
                implies #[trigger] keys[j]@ != keys[idx[t]]@ by {
                if t < prev.len() {
                    assert(idx[t] == prev[t]);
                    assert(ks[j]@ != ks[prev[t]]@);
                } else {
                    assert(ks[j] == keys[j]);
                }
            }
            assert forall|i: int| 0 <= i < keys.len() implies exists|t: int| 0 <= t < idx.len()
                && #[trigger] keys[idx[t]]@ == (#[trigger] keys[i])@ by {
                if i < n {
                    assert(ks[i] == keys[i]);
                    let t = choose|t: int| 0 <= t < prev.len() && #[trigger] ks[prev[t]]@ == (#[trigger] ks[i])@;
                    assert(idx[t] == prev[t]);
                    assert(keys[idx[t]]@ == keys[i]@);
                } else {
                    assert(idx[prev.len() as int] == n);
                    assert(keys[idx[prev.len() as int]]@ == keys[i]@);
                }
            }
            idx
        }
    }
}

/// Keeps the first candidate of each key, in order; `keys[i]` identifies
/// `cands[i]`.
pub fn dedup_by_key(cands: &Vec<String>, keys: &Vec<String>) -> (r: Vec<String>)
    requires
        cands@.len() == keys@.len(),
    ensures
        strings_view(r@) == first_per_key(cands@, keys@),
{
    let mut out: Vec<String> = Vec::new();
    let mut seen: Vec<String> = Vec::new();
    let mut i: usize = 0;
    while i < cands.len()
        invariant
            cands@.len() == keys@.len(),
            i <= cands.len(),
            strings_view(out@) == first_per_key(cands@.subrange(0, i as int), keys@.subrange(0, i as int)),
            strings_view(seen@) == strings_view(keys@.subrange(0, i as int)),
        decreases cands.len() - i,
    {
        let ghost c1 = cands@.subrange(0, i + 1);
        let ghost k1 = keys@.subrange(0, i + 1);
        assert(c1.subrange(0, i as int) == cands@.subrange(0, i as int));
        assert(k1.subrange(0, i as int) == keys@.subrange(0, i as int));
        assert(k1[i as int] == keys@[i as int]);
        let mut found = false;
        let mut j: usize = 0;
        while j < seen.len()
            invariant
                j <= seen@.len(),
                i < keys@.len(),
                strings_view(seen@) == strings_view(keys@.subrange(0, i as int)),
                found == exists|m: int| 0 <= m < j && (#[trigger] seen@[m])@ == keys@[i as int]@,
            decreases seen.len() - j,
        {
            if str_eq(seen[j].as_str(), keys[i].as_str()) {
                found = true;
            }
            j = j + 1;
        }
        proof {
            let ks = keys@.subrange(0, i as int);
            assert(strings_view(seen@).len() == seen@.len());
            if found {
                let m = choose|m: int| 0 <= m < seen@.len() && (#[trigger] seen@[m])@ == keys@[i as int]@;
                assert(strings_view(seen@)[m] == seen@[m]@);
                assert(ks[m]@ == keys@[i as int]@);
            } else if has_name(ks, keys@[i as int]@) {
                let m = choose|m: int| 0 <= m < ks.len() && (#[trigger] ks[m])@ == keys@[i as int]@;
                assert(strings_view(ks)[m] == seen@[m]@);
            }
        }
        let ghost before = out@;
        if !found {
            out.push(cands[i].clone());
            assert(strings_view(out@) == strings_view(before).push(cands@[i as int]@));
        }
        let ghost sb = seen@;
        seen.push(keys[i].clone());
        assert(strings_view(seen@) == strings_view(sb).push(keys@[i as int]@));
        assert(keys@.subrange(0, i + 1) == keys@.subrange(0, i as int).push(keys@[i as int]));
        i = i + 1;
    }
    assert(cands@.subrange(0, cands.len() as int) == cands@);
    assert(keys@.subrange(0, keys.len() as int) == keys@);
    out
}

} // verus!
