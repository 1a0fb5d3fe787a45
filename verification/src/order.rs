//! Stable ordering of records by a text key or an integer key.

use vstd::prelude::*;
use crate::text::{lemma_lex_asymmetric, lemma_lex_irreflexive, lemma_lex_total, lemma_lex_transitive, lex_less, lex_lt};

verus! {

/// Key `a` goes strictly before key `b`: lexicographically smaller, or
/// larger when the order is descending.
pub open spec fn goes_before(a: Seq<char>, b: Seq<char>, descending: bool) -> bool {
    if descending {
        lex_lt(b, a)
    } else {
        lex_lt(a, b)
    }
}

/// `p` lists each index below `n` exactly once.
pub open spec fn is_permutation(p: Seq<usize>, n: nat) -> bool {
    &&& p.len() == n
    &&& forall|i: int| 0 <= i < p.len() ==> (#[trigger] p[i]) < n
    &&& forall|i: int, j: int| 0 <= i < j < p.len() ==> #[trigger] p[i] != #[trigger] p[j]
}

/// Listing the keys in the order `p` puts them in non-decreasing order
/// (non-increasing when descending), keeping equal keys in their initial
/// relative order.
pub open spec fn stably_ordered(keys: Seq<Seq<char>>, p: Seq<usize>, descending: bool) -> bool {
    forall|i: int, j: int|
        0 <= i < j < p.len() ==> {
            &&& !goes_before(keys[#[trigger] p[j] as int], keys[#[trigger] p[i] as int], descending)
            &&& (keys[p[i] as int] == keys[p[j] as int] ==> p[i] < p[j])
        }
}

proof fn lemma_before_transitive(a: Seq<char>, b: Seq<char>, c: Seq<char>, d: bool)
    requires
        goes_before(a, b, d),
        goes_before(b, c, d),
    ensures
        goes_before(a, c, d),
{
    if d {
        lemma_lex_transitive(c, b, a);
    } else {
        lemma_lex_transitive(a, b, c);
    }
}

proof fn lemma_before_total(a: Seq<char>, b: Seq<char>, d: bool)
    requires
        a != b,
    ensures
        goes_before(a, b, d) || goes_before(b, a, d),
{
    lemma_lex_total(a, b);
}

proof fn lemma_before_strict(a: Seq<char>, b: Seq<char>, d: bool)
    requires
        goes_before(a, b, d),
    ensures
        !goes_before(b, a, d),
        a != b,
{
    if d {
        lemma_lex_asymmetric(b, a);
        if a == b {
            lemma_lex_irreflexive(a);
        }
    } else {
        lemma_lex_asymmetric(a, b);
        if a == b {
            lemma_lex_irreflexive(a);
        }
    }
}

fn key_before(a: &Vec<char>, b: &Vec<char>, descending: bool) -> (r: bool)
    ensures
        r == goes_before(a@, b@, descending),
{
    if descending {
        lex_less(b, a)
    } else {
        lex_less(a, b)
    }
}

/// The first position of `p` whose key the key of record `i` goes strictly
/// before; `p.len()` when there is none.
fn slot_for(keys: &Vec<Vec<char>>, p: &Vec<usize>, i: usize, descending: bool) -> (q: usize)
    requires
        i < keys.len(),
        forall|a: int| 0 <= a < p@.len() ==> (#[trigger] p@[a]) < keys.len(),
    ensures
        q <= p.len(),
        forall|a: int| 0 <= a < q ==> !goes_before(keys@[i as int]@, keys@[#[trigger] p@[a] as int]@, descending),
        q < p.len() ==> goes_before(keys@[i as int]@, keys@[p@[q as int] as int]@, descending),
{
    let mut q: usize = 0;
    while q < p.len()
        invariant
            q <= p.len(),
            i < keys.len(),
            forall|a: int| 0 <= a < p@.len() ==> (#[trigger] p@[a]) < keys.len(),
            forall|a: int| 0 <= a < q ==> !goes_before(keys@[i as int]@, keys@[#[trigger] p@[a] as int]@, descending),
        decreases p.len() - q,
    {
        if key_before(&keys[i], &keys[p[q]], descending) {
            return q;
        }
        q = q + 1;
    }
    q
}

/// The indices of `keys` in stable sorted order: ascending, or descending
/// when `descending` holds; records with equal keys keep their order.
pub fn stable_order(keys: &Vec<Vec<char>>, descending: bool) -> (p: Vec<usize>)
    ensures
        is_permutation(p@, keys@.len()),
        stably_ordered(keys@.map_values(|k: Vec<char>| k@), p@, descending),
{
    let ghost ks = keys@.map_values(|k: Vec<char>| k@);
    let mut p: Vec<usize> = Vec::new();
    let mut i: usize = 0;
    while i < keys.len()
        invariant
            i <= keys.len(),
            ks == keys@.map_values(|k: Vec<char>| k@),
            p@.len() == i,
            forall|a: int| 0 <= a < p@.len() ==> (#[trigger] p@[a]) < i,
            forall|a: int, b: int| 0 <= a < b < p@.len() ==> #[trigger] p@[a] != #[trigger] p@[b],
            stably_ordered(ks, p@, descending),
        decreases keys.len() - i,
    {
        let ghost old_p = p@;
        let q = slot_for(keys, &p, i, descending);
        let ghost stop = q < p.len();
        p.insert(q, i);
        proof {
            let np = p@;
            assert(np =~= old_p.take(q as int).push(i) + old_p.skip(q as int));
            let ki = ks[i as int];
            if q < old_p.len() {
                assert forall|j: int| q <= j < old_p.len() implies goes_before(ki, ks[#[trigger] old_p[j] as int], descending) by {
                    let kq = ks[old_p[q as int] as int];
                    let kj = ks[old_p[j] as int];
                    if j > q {
                        if kq != kj {
                            lemma_before_total(kq, kj, descending);
                        }
                        if kq == kj {
                        } else {
                            lemma_before_transitive(ki, kq, kj, descending);
                        }
                    }
                }
            }
            assert forall|a: int| 0 <= a < np.len() implies (#[trigger] np[a]) < i + 1 by {
                if a < q {
                    assert(np[a] == old_p[a]);
                } else if a > q {
                    assert(np[a] == old_p[a - 1]);
                }
            }
            assert forall|a: int, b: int| 0 <= a < b < np.len() implies #[trigger] np[a] != #[trigger] np[b] by {
                if a < q && b > q {
                    assert(np[b] == old_p[b - 1]);
                } else if a > q {
                    assert(np[a] == old_p[a - 1]);
                    assert(np[b] == old_p[b - 1]);
                } else if a == q {
                    assert(np[b] == old_p[b - 1]);
                }
            }
            assert forall|a: int, b: int| 0 <= a < b < np.len() implies {
                &&& !goes_before(ks[#[trigger] np[b] as int], ks[#[trigger] np[a] as int], descending)
                &&& (ks[np[a] as int] == ks[np[b] as int] ==> np[a] < np[b])
            } by {
                if a < q && b > q {
                    assert(np[b] == old_p[b - 1]);
                    assert(np[a] == old_p[a]);
                } else if a < q && b == q {
                    assert(np[a] == old_p[a]);
                    assert(np[b] == i);
                } else if a > q {
                    assert(np[a] == old_p[a - 1]);
                    assert(np[b] == old_p[b - 1]);
                } else if a == q {
                    assert(np[a] == i);
                    assert(np[b] == old_p[b - 1]);
                    lemma_before_strict(ki, ks[old_p[b - 1] as int], descending);
                }
            }
        }
        i = i + 1;
    }
    p
}

/// Listing the records in the order `p` puts their integer keys in
/// non-increasing order, records with equal keys in their initial relative
/// order.
pub open spec fn stably_descending(keys: Seq<i64>, p: Seq<usize>) -> bool {
    forall|i: int, j: int|
        0 <= i < j < p.len() ==> {
            &&& keys[#[trigger] p[j] as int] <= keys[#[trigger] p[i] as int]
            &&& (keys[p[i] as int] == keys[p[j] as int] ==> p[i] < p[j])
        }
}

/// The first position of `p` whose record's key is below that of record `i`;
/// `p.len()` when there is none.
fn slot_below(keys: &Vec<i64>, p: &Vec<usize>, i: usize) -> (q: usize)
    requires
        i < keys.len(),
        forall|a: int| 0 <= a < p@.len() ==> (#[trigger] p@[a]) < keys.len(),
    ensures
        q <= p.len(),
        forall|a: int| 0 <= a < q ==> keys@[i as int] <= keys@[#[trigger] p@[a] as int],
        q < p.len() ==> keys@[p@[q as int] as int] < keys@[i as int],
{
    let mut q: usize = 0;
    while q < p.len()
        invariant
            q <= p.len(),
            i < keys.len(),
            forall|a: int| 0 <= a < p@.len() ==> (#[trigger] p@[a]) < keys.len(),
            forall|a: int| 0 <= a < q ==> keys@[i as int] <= keys@[#[trigger] p@[a] as int],
        decreases p.len() - q,
    {
        if keys[p[q]] < keys[i] {
            return q;
        }
        q = q + 1;
    }
    q
}

/// The indices of `keys` from the largest key down; records with equal keys
/// keep their order.
pub fn descending_order(keys: &Vec<i64>) -> (p: Vec<usize>)
    ensures
        is_permutation(p@, keys@.len()),
        stably_descending(keys@, p@),
{
    let ghost ks = keys@;
    let mut p: Vec<usize> = Vec::new();
    let mut i: usize = 0;
    while i < keys.len()
        invariant
            i <= keys.len(),
            ks == keys@,
            p@.len() == i,
            forall|a: int| 0 <= a < p@.len() ==> (#[trigger] p@[a]) < i,
            forall|a: int, b: int| 0 <= a < b < p@.len() ==> #[trigger] p@[a] != #[trigger] p@[b],
            stably_descending(ks, p@),
        decreases keys.len() - i,
    {
        let ghost old_p = p@;
        let q = slot_below(keys, &p, i);
        p.insert(q, i);
        proof {
            let np = p@;
            assert(np =~= old_p.take(q as int).push(i) + old_p.skip(q as int));
            let ki = ks[i as int];
            if q < old_p.len() {
                assert forall|j: int| q <= j < old_p.len() implies ks[#[trigger] old_p[j] as int] < ki by {
                    if j > q {
                        assert(ks[old_p[j] as int] <= ks[old_p[q as int] as int]);
                    }
                }
            }
            assert forall|a: int| 0 <= a < np.len() implies (#[trigger] np[a]) < i + 1 by {
                if a < q {
                    assert(np[a] == old_p[a]);
                } else if a > q {
                    assert(np[a] == old_p[a - 1]);
                }
            }
            assert forall|a: int, b: int| 0 <= a < b < np.len() implies #[trigger] np[a] != #[trigger] np[b] by {
                if a < q && b > q {
                    assert(np[b] == old_p[b - 1]);
                } else if a > q {
                    assert(np[a] == old_p[a - 1]);
                    assert(np[b] == old_p[b - 1]);
                } else if a == q {
                    assert(np[b] == old_p[b - 1]);
                }
            }
            assert forall|a: int, b: int| 0 <= a < b < np.len() implies {
                &&& ks[#[trigger] np[b] as int] <= ks[#[trigger] np[a] as int]
                &&& (ks[np[a] as int] == ks[np[b] as int] ==> np[a] < np[b])
            } by {
                if a < q && b > q {
                    assert(np[b] == old_p[b - 1]);
                    assert(np[a] == old_p[a]);
                } else if a < q && b == q {
                    assert(np[a] == old_p[a]);
                    assert(np[b] == i);
                } else if a > q {
                    assert(np[a] == old_p[a - 1]);
                    assert(np[b] == old_p[b - 1]);
                } else if a == q {
                    assert(np[a] == i);
                    assert(np[b] == old_p[b - 1]);
                }
            }
        }
        i = i + 1;
    }
    p
}

} // verus!
