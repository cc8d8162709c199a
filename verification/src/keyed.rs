//! Values held by text, in the order of the text: what a `BTreeMap` keyed
//! by `String` holds, as a vector sorted by its keys.
use vstd::prelude::*;

use vstd::utf8::encode_utf8;

use crate::text::{
    comes_before, lemma_lex_irreflexive, lemma_lex_total, lemma_lex_transitive, lex_less,
    same_bytes,
};

verus! {

/// The bytes of a text.
pub open spec fn key(s: String) -> Seq<u8> {
    encode_utf8(s@)
}

/// The bytes of a text.
pub fn bytes(s: &String) -> (r: &[u8])
    ensures
        r@ == key(*s),
{
    s.as_str().as_bytes()
}

/// Whether entries are strictly increasing by the bytes of their context,
/// so that no context is held twice.
pub open spec fn sorted_contexts<V>(s: Seq<(String, V)>) -> bool {
    forall|i: int, j: int| 0 <= i < j < s.len() ==> lex_less(key(s[i].0), key(s[j].0))
}

/// Whether a vessel is held under context `k`.
pub open spec fn holds<V>(s: Seq<(String, V)>, k: Seq<u8>) -> bool {
    exists|i: int| 0 <= i < s.len() && #[trigger] key(s[i].0) == k
}

/// The vessel held under context `k`.
pub open spec fn entry<V>(s: Seq<(String, V)>, k: Seq<u8>) -> Option<V> {
    if holds(s, k) {
        Some(s[choose|i: int| 0 <= i < s.len() && #[trigger] key(s[i].0) == k].1)
    } else {
        None
    }
}

/// The entry at an index is what its context finds.
pub proof fn lemma_entry_at<V>(s: Seq<(String, V)>, i: int)
    requires
        sorted_contexts(s),
        0 <= i < s.len(),
    ensures
        entry(s, key(s[i].0)) == Some(s[i].1),
{
    assert(holds(s, key(s[i].0)));
    let j = choose|j: int| 0 <= j < s.len() && #[trigger] key(s[j].0) == key(s[i].0);
    if j != i {
        lemma_lex_irreflexive(key(s[i].0));
        if j < i {
            assert(lex_less(key(s[j].0), key(s[i].0)));
        } else {
            assert(lex_less(key(s[i].0), key(s[j].0)));
        }
    }
}

/// Inserting an entry where it keeps the order keeps the order, holds the new
/// entry under its context and every other context's entry.
pub proof fn lemma_entry_insert<V>(s: Seq<(String, V)>, p: int, e: (String, V), k: Seq<u8>)
    requires
        sorted_contexts(s),
        0 <= p <= s.len(),
        forall|j: int| 0 <= j < p ==> lex_less(#[trigger] key(s[j].0), key(e.0)),
        forall|j: int| p <= j < s.len() ==> lex_less(key(e.0), #[trigger] key(s[j].0)),
    ensures
        sorted_contexts(s.insert(p, e)),
        entry(s.insert(p, e), k) == if k == key(e.0) {
            Some(e.1)
        } else {
            entry(s, k)
        },
{
    let t = s.insert(p, e);
    assert forall|i: int, j: int| 0 <= i < j < t.len() implies lex_less(
        key(t[i].0),
        key(t[j].0),
    ) by {
        if i < p && j == p {
        } else if i < p && j > p {
            assert(t[j] == s[j - 1]);
            lemma_lex_transitive(key(s[i].0), key(e.0), key(s[j - 1].0));
        } else if i == p {
            assert(t[j] == s[j - 1]);
        } else if j < p {
        } else {
            assert(t[i] == s[i - 1]);
            assert(t[j] == s[j - 1]);
        }
    }
    if k == key(e.0) {
        assert(t[p] == e);
        lemma_entry_at(t, p);
    } else {
        if holds(s, k) {
            let i = choose|i: int| 0 <= i < s.len() && #[trigger] key(s[i].0) == k;
            let m = if i < p {
                i
            } else {
                i + 1
            };
            assert(t[m] == s[i]);
            lemma_entry_at(s, i);
            lemma_entry_at(t, m);
        }
        if holds(t, k) {
            let m = choose|m: int| 0 <= m < t.len() && #[trigger] key(t[m].0) == k;
            if m < p {
                assert(t[m] == s[m]);
            } else if m > p {
                assert(t[m] == s[m - 1]);
            }
            assert(holds(s, k));
        }
    }
}

/// Removing an entry keeps the order and every other context's entry.
pub proof fn lemma_entry_remove<V>(s: Seq<(String, V)>, p: int, k: Seq<u8>)
    requires
        sorted_contexts(s),
        0 <= p < s.len(),
    ensures
        sorted_contexts(s.remove(p)),
        entry(s.remove(p), k) == if k == key(s[p].0) {
            None
        } else {
            entry(s, k)
        },
        forall|j: int| 0 <= j < p ==> lex_less(#[trigger] key(s.remove(p)[j].0), key(s[p].0)),
        forall|j: int|
            p <= j < s.len() - 1 ==> lex_less(key(s[p].0), #[trigger] key(s.remove(p)[j].0)),
{
    let t = s.remove(p);
    assert forall|i: int, j: int| 0 <= i < j < t.len() implies lex_less(
        key(t[i].0),
        key(t[j].0),
    ) by {
        if i < p {
            assert(t[i] == s[i]);
        } else {
            assert(t[i] == s[i + 1]);
        }
        if j < p {
            assert(t[j] == s[j]);
        } else {
            assert(t[j] == s[j + 1]);
        }
    }
    assert forall|j: int| p <= j < s.len() - 1 implies lex_less(
        key(s[p].0),
        #[trigger] key(t[j].0),
    ) by {
        assert(t[j] == s[j + 1]);
    }
    if holds(t, k) {
        let m = choose|m: int| 0 <= m < t.len() && #[trigger] key(t[m].0) == k;
        let i = if m < p {
            m
        } else {
            m + 1
        };
        assert(t[m] == s[i]);
        lemma_entry_at(t, m);
        lemma_entry_at(s, i);
        if k == key(s[p].0) {
            lemma_lex_irreflexive(k);
        }
    }
    if holds(s, k) && k != key(s[p].0) {
        let i = choose|i: int| 0 <= i < s.len() && #[trigger] key(s[i].0) == k;
        let m = if i < p {
            i
        } else {
            i - 1
        };
        assert(t[m] == s[i]);
        assert(holds(t, k));
    }
}

/// Where context `k` is, or where it would go.
pub fn search<V>(vessels: &Vec<(String, V)>, k: &[u8]) -> (r: Result<usize, usize>)
    requires
        sorted_contexts(vessels@),
    ensures
        match r {
            Ok(i) => i < vessels@.len() && key(vessels@[i as int].0) == k@,
            Err(p) => p <= vessels@.len() && !holds(vessels@, k@) && (forall|j: int|
                0 <= j < p ==> lex_less(#[trigger] key(vessels@[j].0), k@)) && (forall|j: int|
                p <= j < vessels@.len() ==> lex_less(k@, #[trigger] key(vessels@[j].0))),
        },
{
    let ghost s = vessels@;
    let mut lo: usize = 0;
    let mut hi: usize = vessels.len();
    while lo < hi
        invariant
            s == vessels@,
            sorted_contexts(s),
            lo <= hi <= s.len(),
            forall|j: int| 0 <= j < lo ==> lex_less(#[trigger] key(s[j].0), k@),
            forall|j: int| hi <= j < s.len() ==> lex_less(k@, #[trigger] key(s[j].0)),
        decreases hi - lo,
    {
        let mid = lo + (hi - lo) / 2;
        let here = bytes(&vessels[mid].0);
        if same_bytes(here, k) {
            return Ok(mid);
        }
        if comes_before(here, k) {
            proof {
                assert forall|j: int| 0 <= j < mid + 1 implies lex_less(
                    #[trigger] key(s[j].0),
                    k@,
                ) by {
                    if j < mid {
                        lemma_lex_transitive(key(s[j].0), key(s[mid as int].0), k@);
                    }
                }
            }
            lo = mid + 1;
        } else {
            proof {
                lemma_lex_total(here@, k@);
                assert forall|j: int| mid <= j < s.len() implies lex_less(
                    k@,
                    #[trigger] key(s[j].0),
                ) by {
                    if j > mid {
                        lemma_lex_transitive(k@, key(s[mid as int].0), key(s[j].0));
                    }
                }
            }
            hi = mid;
        }
    }
    proof {
        if holds(s, k@) {
            let i = choose|i: int| 0 <= i < s.len() && #[trigger] key(s[i].0) == k@;
            lemma_lex_irreflexive(k@);
            if i < lo {
                assert(lex_less(key(s[i].0), k@));
            } else {
                assert(lex_less(k@, key(s[i].0)));
            }
        }
    }
    Err(lo)
}

} // verus!
