//! Sort keys and a stable sort over them.
//!
//! Every ordering in the library compares a key of three parts: an integer
//! rank, then a primary text, then a secondary text, each lexicographically.
//! Sorting is stable, as std's `sort_by` and `sort_by_key` are.

use vstd::prelude::*;

use crate::chars::{
    chars_lt, compare_chars, lemma_chars_lt_asymmetric, lemma_chars_lt_irreflexive,
    lemma_chars_lt_total, lemma_chars_lt_transitive, Cmp3,
};

verus! {

/// Mathematical value of a sort key: (rank, primary text, secondary text).
pub type KeyView = (int, Seq<char>, Seq<char>);

/// Strict lexicographic order on keys.
pub open spec fn key_lt(a: KeyView, b: KeyView) -> bool {
    ||| a.0 < b.0
    ||| a.0 == b.0 && chars_lt(a.1, b.1)
    ||| a.0 == b.0 && a.1 == b.1 && chars_lt(a.2, b.2)
}

/// `a` sorts no later than `b`.
pub open spec fn key_le(a: KeyView, b: KeyView) -> bool {
    !key_lt(b, a)
}

pub proof fn lemma_key_lt_asymmetric(a: KeyView, b: KeyView)
    ensures
        key_lt(a, b) ==> !key_lt(b, a),
{
    lemma_chars_lt_asymmetric(a.1, b.1);
    lemma_chars_lt_asymmetric(a.2, b.2);
    lemma_chars_lt_irreflexive(a.1);
    lemma_chars_lt_irreflexive(a.2);
}

pub proof fn lemma_key_lt_transitive(a: KeyView, b: KeyView, c: KeyView)
    ensures
        key_lt(a, b) && key_lt(b, c) ==> key_lt(a, c),
{
    lemma_chars_lt_transitive(a.1, b.1, c.1);
    lemma_chars_lt_transitive(a.2, b.2, c.2);
}

pub proof fn lemma_key_lt_total(a: KeyView, b: KeyView)
    ensures
        a == b || key_lt(a, b) || key_lt(b, a),
{
    lemma_chars_lt_total(a.1, b.1);
    lemma_chars_lt_total(a.2, b.2);
}

pub proof fn lemma_key_le_transitive(a: KeyView, b: KeyView, c: KeyView)
    ensures
        key_le(a, b) && key_le(b, c) ==> key_le(a, c),
{
    lemma_key_lt_total(a, b);
    lemma_key_lt_transitive(c, a, b);
    lemma_key_lt_asymmetric(a, b);
}

/// An executable sort key.
pub struct SortKey {
    pub rank: i128,
    pub primary: Vec<char>,
    pub secondary: Vec<char>,
}

impl View for SortKey {
    type V = KeyView;

    open spec fn view(&self) -> KeyView {
        (self.rank as int, self.primary@, self.secondary@)
    }
}

/// Compares two keys.
pub fn compare_keys(a: &SortKey, b: &SortKey) -> (r: Cmp3)
    ensures
        r == Cmp3::Less <==> key_lt(a@, b@),
        r == Cmp3::Equal <==> a@ == b@,
        r == Cmp3::Greater <==> key_lt(b@, a@),
{
    proof {
        lemma_chars_lt_irreflexive(a.primary@);
        lemma_chars_lt_irreflexive(a.secondary@);
        lemma_key_lt_asymmetric(a@, b@);
    }
    if a.rank < b.rank {
        Cmp3::Less
    } else if a.rank > b.rank {
        Cmp3::Greater
    } else {
        match compare_chars(&a.primary, &b.primary) {
            Cmp3::Less => Cmp3::Less,
            Cmp3::Greater => Cmp3::Greater,
            Cmp3::Equal => compare_chars(&a.secondary, &b.secondary),
        }
    }
}

/// Index `j` is hit by `p`.
pub open spec fn index_covered(p: Seq<int>, j: int) -> bool {
    exists|k: int| 0 <= k < p.len() && #[trigger] p[k] == j
}

/// `p` shows `out` to be a stable sort of `inp` by `key`: `out[k]` is
/// `inp[p[k]]`, `p` is a permutation of the indices, the keys of `out` are
/// non-decreasing, and elements with equal keys keep their input order.
pub open spec fn is_sort_witness<T>(
    out: Seq<T>,
    inp: Seq<T>,
    key: spec_fn(T) -> KeyView,
    p: Seq<int>,
) -> bool {
    &&& out.len() == inp.len()
    &&& p.len() == inp.len()
    &&& forall|k: int| 0 <= k < p.len() ==> 0 <= #[trigger] p[k] < inp.len()
    &&& forall|k: int| 0 <= k < p.len() ==> #[trigger] out[k] == inp[p[k]]
    &&& forall|k1: int, k2: int| 0 <= k1 < k2 < p.len() ==> p[k1] != p[k2]
    &&& forall|j: int| 0 <= j < inp.len() ==> #[trigger] index_covered(p, j)
    &&& forall|k1: int, k2: int|
        0 <= k1 < k2 < out.len() ==> key_le(key(#[trigger] out[k1]), key(#[trigger] out[k2]))
    &&& forall|k1: int, k2: int|
        0 <= k1 < k2 < out.len() && key_le(key(#[trigger] out[k2]), key(#[trigger] out[k1]))
            ==> p[k1] < p[k2]
}

/// `out` is the stable sort of `inp` by `key`.
pub open spec fn is_stable_sort<T>(out: Seq<T>, inp: Seq<T>, key: spec_fn(T) -> KeyView) -> bool {
    exists|p: Seq<int>| is_sort_witness(out, inp, key, p)
}

/// Input index `a` comes before input index `b` in a stable sort by `key`:
/// its key is smaller, or the keys are equal and it came first.
pub open spec fn sorts_before<T>(inp: Seq<T>, key: spec_fn(T) -> KeyView, a: int, b: int) -> bool {
    ||| key_lt(key(inp[a]), key(inp[b]))
    ||| key(inp[a]) == key(inp[b]) && a < b
}

proof fn lemma_sorts_before_asymmetric<T>(inp: Seq<T>, key: spec_fn(T) -> KeyView, a: int, b: int)
    ensures
        sorts_before(inp, key, a, b) ==> !sorts_before(inp, key, b, a),
{
    lemma_key_lt_asymmetric(key(inp[a]), key(inp[b]));
    lemma_key_lt_asymmetric(key(inp[a]), key(inp[a]));
}

/// A witness lists the input indices in strictly increasing `sorts_before`
/// order.
proof fn lemma_witness_increasing<T>(
    out: Seq<T>,
    inp: Seq<T>,
    key: spec_fn(T) -> KeyView,
    p: Seq<int>,
    k1: int,
    k2: int,
)
    requires
        is_sort_witness(out, inp, key, p),
        0 <= k1 < k2 < p.len(),
    ensures
        sorts_before(inp, key, p[k1], p[k2]),
{
    let x = key(out[k1]);
    let y = key(out[k2]);
    assert(out[k1] == inp[p[k1]]);
    assert(out[k2] == inp[p[k2]]);
    assert(key_le(x, y));
    lemma_key_lt_total(x, y);
    if x == y {
        lemma_key_lt_asymmetric(x, x);
        assert(key_le(key(out[k2]), key(out[k1])));
    }
}

proof fn lemma_witnesses_agree<T>(
    out1: Seq<T>,
    out2: Seq<T>,
    inp: Seq<T>,
    key: spec_fn(T) -> KeyView,
    p1: Seq<int>,
    p2: Seq<int>,
    n: int,
)
    requires
        is_sort_witness(out1, inp, key, p1),
        is_sort_witness(out2, inp, key, p2),
        0 <= n <= p1.len(),
    ensures
        forall|k: int| 0 <= k < n ==> p1[k] == p2[k],
    decreases n,
{
    if n > 0 {
        lemma_witnesses_agree(out1, out2, inp, key, p1, p2, n - 1);
        let k = n - 1;
        let a = p1[k];
        let b = p2[k];
        if a != b {
            assert(index_covered(p1, b));
            let m = choose|m: int| 0 <= m < p1.len() && #[trigger] p1[m] == b;
            if m < k {
                assert(p2[m] == p1[m]);
            }
            assert(index_covered(p2, a));
            let q = choose|q: int| 0 <= q < p2.len() && #[trigger] p2[q] == a;
            if q < k {
                assert(p1[q] == p2[q]);
            }
            lemma_witness_increasing(out1, inp, key, p1, k, m);
            lemma_witness_increasing(out2, inp, key, p2, k, q);
            lemma_sorts_before_asymmetric(inp, key, a, b);
        }
    }
}

/// A stable sort is unique: two stable sorts of the same input by the same
/// key are the same sequence.
pub proof fn lemma_stable_sort_unique<T>(
    out1: Seq<T>,
    out2: Seq<T>,
    inp: Seq<T>,
    key: spec_fn(T) -> KeyView,
)
    requires
        is_stable_sort(out1, inp, key),
        is_stable_sort(out2, inp, key),
    ensures
        out1 == out2,
{
    let p1 = choose|p: Seq<int>| is_sort_witness(out1, inp, key, p);
    let p2 = choose|p: Seq<int>| is_sort_witness(out2, inp, key, p);
    lemma_witnesses_agree(out1, out2, inp, key, p1, p2, p1.len() as int);
    assert forall|k: int| 0 <= k < out1.len() implies out1[k] == out2[k] by {
        assert(out1[k] == inp[p1[k]]);
        assert(out2[k] == inp[p2[k]]);
    }
    assert(out1 =~= out2);
}

/// Sorting is idempotent: stably sorting an already sorted sequence again by
/// the same key leaves it unchanged.
pub proof fn lemma_stable_sort_idempotent<T>(
    sorted: Seq<T>,
    inp: Seq<T>,
    key: spec_fn(T) -> KeyView,
    again: Seq<T>,
)
    requires
        is_stable_sort(sorted, inp, key),
        is_stable_sort(again, sorted, key),
    ensures
        again == sorted,
{
    let p = choose|p: Seq<int>| is_sort_witness(sorted, inp, key, p);
    let id = Seq::new(sorted.len(), |i: int| i);
    assert forall|j: int| 0 <= j < sorted.len() implies #[trigger] index_covered(id, j) by {
        assert(id[j] == j);
    }
    assert forall|k1: int, k2: int|
        0 <= k1 < k2 < sorted.len() implies key_le(key(#[trigger] sorted[k1]), key(#[trigger] sorted[k2])) by {
        assert(key_le(key(sorted[k1]), key(sorted[k2])));
    }
    assert(is_sort_witness(sorted, sorted, key, id));
    lemma_stable_sort_unique(again, sorted, sorted, key);
}

/// Stably sorts `items` by `keys`, where `keys[i]` is the key of `items[i]`.
pub fn stable_sort<T>(items: Vec<T>, keys: Vec<SortKey>, Ghost(key): Ghost<spec_fn(T) -> KeyView>)
    -> (out: Vec<T>)
    requires
        items.len() == keys.len(),
        forall|i: int| 0 <= i < items.len() ==> #[trigger] keys@[i]@ == key(items@[i]),
    ensures
        is_stable_sort(out@, items@, key),
{
    let ghost inp = items@;
    let ghost n = items.len() as int;
    let mut items = items;
    let mut keys = keys;
    let mut out: Vec<T> = Vec::new();
    let mut out_keys: Vec<SortKey> = Vec::new();
    let ghost mut p: Seq<int> = Seq::empty();
    while items.len() > 0
        invariant
            n == inp.len(),
            items.len() == keys.len(),
            items.len() <= n,
            items@ == inp.take(items.len() as int),
            forall|i: int| 0 <= i < items.len() ==> #[trigger] keys@[i]@ == key(items@[i]),
            out.len() == out_keys.len(),
            out.len() == p.len(),
            p.len() == n - items.len(),
            forall|k: int| 0 <= k < p.len() ==> items.len() <= #[trigger] p[k] < n,
            forall|k: int| 0 <= k < p.len() ==> #[trigger] out@[k] == inp[p[k]],
            forall|k: int| 0 <= k < p.len() ==> #[trigger] out_keys@[k]@ == key(out@[k]),
            forall|k1: int, k2: int| 0 <= k1 < k2 < p.len() ==> p[k1] != p[k2],
            forall|j: int| items.len() <= j < n ==> #[trigger] index_covered(p, j),
            forall|k1: int, k2: int|
                0 <= k1 < k2 < out.len() ==> key_le(key(#[trigger] out@[k1]), key(#[trigger] out@[k2])),
            forall|k1: int, k2: int|
                0 <= k1 < k2 < out.len() && key_le(key(#[trigger] out@[k2]), key(#[trigger] out@[k1]))
                    ==> p[k1] < p[k2],
        decreases items.len(),
    {
        let ghost old_out = out@;
        let ghost old_p = p;
        let x = items.pop().unwrap();
        let xk = keys.pop().unwrap();
        let m = items.len();
        assert(x == inp[m as int]) by {
            assert(inp.take(m + 1)[m as int] == inp[m as int]);
        }
        assert(items@ =~= inp.take(m as int));
        let mut j: usize = 0;
        while j < out.len() && compare_keys(&out_keys[j], &xk) == Cmp3::Less
            invariant
                j <= out.len(),
                out.len() == out_keys.len(),
                xk@ == key(x),
                forall|k: int| 0 <= k < out.len() ==> #[trigger] out_keys@[k]@ == key(out@[k]),
                forall|k: int| 0 <= k < j ==> key_lt(key(#[trigger] out@[k]), key(x)),
            decreases out.len() - j,
        {
            j = j + 1;
        }
        let ghost xv = x;
        out.insert(j, x);
        out_keys.insert(j, xk);
        proof {
            p = p.insert(j as int, m as int);
            old_out.insert_ensures(j as int, xv);
            old_p.insert_ensures(j as int, m as int);
            assert(j < old_out.len() ==> !key_lt(key(old_out[j as int]), key(xv)));
            assert forall|k1: int, k2: int| 0 <= k1 < k2 < out.len() implies key_le(
                key(#[trigger] out@[k1]),
                key(#[trigger] out@[k2]),
            ) by {
                if k1 < j && k2 == j {
                    lemma_key_lt_asymmetric(key(out@[k1]), key(xv));
                } else if k1 == j && k2 > j {
                    assert(key_le(key(old_out[j as int]), key(old_out[k2 - 1]))) by {
                        if k2 - 1 > j {
                            assert(key_le(key(old_out[j as int]), key(old_out[k2 - 1])));
                        } else {
                            lemma_chars_lt_irreflexive(key(old_out[j as int]).1);
                            lemma_chars_lt_irreflexive(key(old_out[j as int]).2);
                        }
                    }
                    lemma_key_le_transitive(key(xv), key(old_out[j as int]), key(old_out[k2 - 1]));
                } else if k1 < j && k2 > j {
                    assert(key_le(key(old_out[k1]), key(old_out[k2 - 1])));
                } else if k1 > j {
                    assert(key_le(key(old_out[k1 - 1]), key(old_out[k2 - 1])));
                } else {
                    assert(key_le(key(old_out[k1]), key(old_out[k2])));
                }
            }
            assert forall|k1: int, k2: int|
                0 <= k1 < k2 < out.len() && key_le(key(#[trigger] out@[k2]), key(#[trigger] out@[k1]))
                    implies p[k1] < p[k2] by {
                if k1 < j && k2 == j {
                    assert(key_lt(key(out@[k1]), key(xv)));
                } else if k1 == j {
                } else if k1 < j && k2 > j {
                    assert(key_le(key(old_out[k2 - 1]), key(old_out[k1])));
                } else if k1 > j {
                    assert(key_le(key(old_out[k2 - 1]), key(old_out[k1 - 1])));
                } else {
                    assert(key_le(key(old_out[k2]), key(old_out[k1])));
                }
            }
            assert forall|k1: int, k2: int| 0 <= k1 < k2 < p.len() implies p[k1] != p[k2] by {
                if k1 < j && k2 > j {
                    assert(old_p[k1] != old_p[k2 - 1]);
                } else if k1 > j {
                    assert(old_p[k1 - 1] != old_p[k2 - 1]);
                } else if k2 < j {
                    assert(old_p[k1] != old_p[k2]);
                }
            }
            assert forall|k: int| 0 <= k < p.len() implies #[trigger] out@[k] == inp[p[k]] by {
                if k > j {
                    assert(old_out[k - 1] == inp[old_p[k - 1]]);
                } else if k < j {
                    assert(old_out[k] == inp[old_p[k]]);
                }
            }
            assert forall|jj: int| m <= jj < n implies #[trigger] index_covered(p, jj) by {
                if jj == m {
                    assert(p[j as int] == m);
                } else {
                    assert(index_covered(old_p, jj));
                    let k0 = choose|k: int| 0 <= k < old_p.len() && #[trigger] old_p[k] == jj;
                    if k0 < j {
                        assert(p[k0] == jj);
                    } else {
                        assert(p[k0 + 1] == jj);
                    }
                }
            }
            assert forall|k: int| 0 <= k < p.len() implies m <= #[trigger] p[k] < n by {
                if k > j {
                    assert(old_p[k - 1] >= m + 1);
                } else if k < j {
                    assert(old_p[k] >= m + 1);
                }
            }
        }
    }
    assert(items.len() == 0);
    assert(is_sort_witness(out@, inp, key, p));
    out
}

/// Reverses `v`.
pub fn reversed<T>(v: Vec<T>) -> (r: Vec<T>)
    ensures
        r@ == v@.reverse(),
{
    let ghost inp = v@;
    let mut v = v;
    let mut r: Vec<T> = Vec::new();
    while v.len() > 0
        invariant
            v.len() <= inp.len(),
            v@ == inp.take(v.len() as int),
            r@ == inp.reverse().take(inp.len() - v.len()),
        decreases v.len(),
    {
        let ghost before = v.len() as int;
        let x = v.pop().unwrap();
        assert(x == inp[before - 1]);
        r.push(x);
        assert(v@ =~= inp.take(v.len() as int));
        assert(r@ =~= inp.reverse().take(inp.len() - v.len()));
    }
    assert(r@ =~= inp.reverse());
    r
}

} // verus!
