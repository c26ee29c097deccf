//! Stable ordering of items by explicit sort keys.
//!
//! Every listing in the file manager is ordered the same way: an optional
//! rank (directories before files), then a text or numeric field, ascending
//! or descending, with ties keeping their original relative order.

use vstd::prelude::*;
use crate::text::{compare_chars, lex_order, lemma_lex_order_basics, lemma_lex_order_trans};
use vstd::relations::injective_on;
use vstd::set_lib::{lemma_int_range, lemma_map_size, lemma_subset_equality, set_int_range};

verus! {

/// The key an item is ordered by. `rank` is compared first (smaller first);
/// then `text` lexicographically, then `num`; `descending` reverses the
/// text/number part but never the rank.
pub struct SortKey {
    pub rank: u8,
    pub text: Vec<char>,
    pub num: i128,
    pub descending: bool,
}

/// The mathematical content of a key: (rank, text, number, descending).
pub type KeyView = (u8, Seq<char>, int, bool);

impl View for SortKey {
    type V = KeyView;

    open spec fn view(&self) -> KeyView {
        (self.rank, self.text@, self.num as int, self.descending)
    }
}

/// The views of a sequence of keys.
pub open spec fn key_views(keys: Seq<SortKey>) -> Seq<KeyView> {
    keys.map_values(|k: SortKey| k@)
}

/// Three-way order of two keys: -1, 0 or 1.
pub open spec fn key_order(a: KeyView, b: KeyView) -> int {
    if a.0 < b.0 {
        -1
    } else if a.0 > b.0 {
        1
    } else {
        let c = if lex_order(a.1, b.1) != 0 {
            lex_order(a.1, b.1)
        } else if a.2 < b.2 {
            -1
        } else if a.2 > b.2 {
            1
        } else {
            0
        };
        if a.3 {
            -c
        } else {
            c
        }
    }
}

/// Item `a` (originally at `ia`) comes strictly before item `b` (at `ib`) in a
/// stable ordering: by key, and by original position among equal keys.
pub open spec fn precedes(ka: KeyView, ia: int, kb: KeyView, ib: int) -> bool {
    key_order(ka, kb) < 0 || (key_order(ka, kb) == 0 && ia < ib)
}

/// All keys of one ordering share the same direction.
pub open spec fn same_direction(keys: Seq<KeyView>) -> bool {
    forall|i: int, j: int|
        0 <= i < keys.len() && 0 <= j < keys.len() ==> #[trigger] keys[i].3 == #[trigger] keys[j].3
}

/// `out` is `inp` rearranged by `perm` (out[i] = inp[perm[i]]) so that the
/// keys ascend strictly in the stable order.
pub open spec fn arranged_by<T>(perm: Seq<int>, out: Seq<T>, inp: Seq<T>, keys: Seq<KeyView>) -> bool {
    &&& perm.len() == out.len()
    &&& out.len() == inp.len()
    &&& keys.len() == inp.len()
    &&& forall|i: int| 0 <= i < out.len() ==> 0 <= #[trigger] perm[i] < inp.len() && out[i] == inp[perm[i]]
    &&& forall|i: int, j: int|
        0 <= i < j < out.len() ==> precedes(keys[#[trigger] perm[i]], perm[i], keys[#[trigger] perm[j]], perm[j])
}

/// `out` is the stable sort of `inp` by `keys` (`keys[i]` is the key of `inp[i]`).
/// This determines `out` uniquely.
pub open spec fn stably_sorted<T>(out: Seq<T>, inp: Seq<T>, keys: Seq<KeyView>) -> bool {
    exists|perm: Seq<int>| arranged_by(perm, out, inp, keys)
}

pub proof fn lemma_key_order_basics(a: KeyView, b: KeyView)
    requires
        a.3 == b.3,
    ensures
        -1 <= key_order(a, b) <= 1,
        key_order(a, b) == -key_order(b, a),
        key_order(a, a) == 0,
{
    lemma_lex_order_basics(a.1, b.1);
    lemma_lex_order_basics(a.1, a.1);
}

pub proof fn lemma_key_order_trans(a: KeyView, b: KeyView, c: KeyView)
    requires
        a.3 == b.3,
        b.3 == c.3,
        key_order(a, b) <= 0,
        key_order(b, c) <= 0,
    ensures
        key_order(a, c) <= 0,
{
    lemma_lex_order_basics(a.1, b.1);
    lemma_lex_order_basics(b.1, c.1);
    lemma_lex_order_basics(a.1, c.1);
    if a.0 == b.0 && b.0 == c.0 {
        if !a.3 {
            if lex_order(a.1, b.1) <= 0 && lex_order(b.1, c.1) <= 0 {
                lemma_lex_order_trans(a.1, b.1, c.1);
            }
        } else {
            if lex_order(c.1, b.1) <= 0 && lex_order(b.1, a.1) <= 0 {
                lemma_lex_order_trans(c.1, b.1, a.1);
            }
        }
    }
}

/// Three-way comparison of two keys.
pub fn compare_keys(a: &SortKey, b: &SortKey) -> (r: i8)
    ensures
        r as int == key_order(a@, b@),
{
    if a.rank < b.rank {
        return -1;
    }
    if a.rank > b.rank {
        return 1;
    }
    let t = compare_chars(&a.text, &b.text);
    proof {
        lemma_lex_order_basics(a.text@, b.text@);
    }
    let c: i8 = if t != 0 {
        t
    } else if a.num < b.num {
        -1
    } else if a.num > b.num {
        1
    } else {
        0
    };
    if a.descending {
        -c
    } else {
        c
    }
}

/// Stable sort of `items` by `keys` (`keys[i]` is the key of `items[i]`).
pub fn sort_by_keys<T>(items: Vec<T>, keys: Vec<SortKey>) -> (out: Vec<T>)
    requires
        items.len() == keys.len(),
        same_direction(key_views(keys@)),
    ensures
        stably_sorted(out@, items@, key_views(keys@)),
{
    let ghost inp = items@;
    let ghost ks = key_views(keys@);
    let ghost raw = keys@;
    let mut items = items;
    let mut keys = keys;
    let mut out: Vec<T> = Vec::new();
    let mut out_keys: Vec<SortKey> = Vec::new();
    let ghost mut perm: Seq<int> = Seq::empty();
    while items.len() > 0
        invariant
            items.len() == keys.len(),
            ks.len() == inp.len(),
            items.len() <= inp.len(),
            items@ == inp.take(items.len() as int),
            keys@ == raw.take(keys.len() as int),
            ks == key_views(raw),
            raw.len() == inp.len(),
            same_direction(ks),
            out.len() == out_keys.len(),
            out.len() == perm.len(),
            out.len() == inp.len() - items.len(),
            forall|i: int|
                0 <= i < out.len() ==> items.len() <= #[trigger] perm[i] < inp.len() && out@[i]
                    == inp[perm[i]] && out_keys@[i]@ == ks[perm[i]],
            forall|i: int, j: int|
                0 <= i < j < out.len() ==> precedes(
                    ks[#[trigger] perm[i]],
                    perm[i],
                    ks[#[trigger] perm[j]],
                    perm[j],
                ),
        decreases items.len(),
    {
        let x = items.pop().unwrap();
        let k = keys.pop().unwrap();
        let ghost j = items.len() as int;
        assert(x == inp[j]);
        assert(k == raw[j]);
        assert(k@ == ks[j]);
        let mut p: usize = 0;
        while p < out_keys.len() && compare_keys(&k, &out_keys[p]) > 0
            invariant
                p <= out_keys.len(),
                forall|q: int| 0 <= q < p ==> key_order(k@, #[trigger] out_keys@[q]@) > 0,
            decreases out_keys.len() - p,
        {
            p = p + 1;
        }
        proof {
            let n = out.len() as int;
            assert forall|q: int| p <= q < n implies key_order(k@, #[trigger] out_keys@[q]@) <= 0 by {
                if q > p {
                    assert(out_keys@[q]@ == ks[perm[q]]);
                    assert(out_keys@[p as int]@ == ks[perm[p as int]]);
                    assert(ks[perm[q]].3 == ks[j].3);
                    assert(ks[perm[p as int]].3 == ks[j].3);
                    assert(precedes(ks[perm[p as int]], perm[p as int], ks[perm[q]], perm[q]));
                    lemma_key_order_trans(k@, out_keys@[p as int]@, out_keys@[q]@);
                }
            }
            assert forall|q: int| 0 <= q < p implies key_order(#[trigger] out_keys@[q]@, k@) < 0 by {
                assert(out_keys@[q]@ == ks[perm[q]]);
                assert(ks[perm[q]].3 == ks[j].3);
                lemma_key_order_basics(k@, out_keys@[q]@);
            }
        }
        let ghost old_perm = perm;
        out.insert(p, x);
        out_keys.insert(p, k);
        proof {
            perm = perm.insert(p as int, j);
            assert forall|i: int, l: int|
                0 <= i < l < out.len() implies precedes(
                ks[#[trigger] perm[i]],
                perm[i],
                ks[#[trigger] perm[l]],
                perm[l],
            ) by {
                if i < p && l < p {
                    assert(perm[i] == old_perm[i] && perm[l] == old_perm[l]);
                } else if i < p && l == p {
                    assert(out_keys@[i]@ == ks[perm[i]]);
                } else if i < p && l > p {
                    assert(perm[i] == old_perm[i] && perm[l] == old_perm[l - 1]);
                } else if i == p {
                    assert(out_keys@[l]@ == ks[perm[l]]);
                    assert(perm[l] == old_perm[l - 1]);
                } else {
                    assert(perm[i] == old_perm[i - 1] && perm[l] == old_perm[l - 1]);
                }
            }
            assert(items@ =~= inp.take(items.len() as int));
            assert(keys@ =~= raw.take(keys.len() as int));
        }
    }
    proof {
        assert(arranged_by(perm, out@, inp, ks));
    }
    out
}

pub proof fn lemma_arranged_bijective<T>(perm: Seq<int>, out: Seq<T>, inp: Seq<T>, keys: Seq<KeyView>)
    requires
        arranged_by(perm, out, inp, keys),
    ensures
        forall|i: int, j: int| 0 <= i < j < out.len() ==> #[trigger] perm[i] != #[trigger] perm[j],
        forall|j: int| 0 <= j < inp.len() ==> #[trigger] perm.contains(j),
{
    assert forall|i: int, j: int| 0 <= i < j < out.len() implies #[trigger] perm[i] != #[trigger] perm[j] by {
        assert(precedes(keys[perm[i]], perm[i], keys[perm[j]], perm[j]));
        if perm[i] == perm[j] {
            lemma_key_order_basics(keys[perm[i]], keys[perm[i]]);
        }
    }
    let n = out.len() as int;
    let dom = set_int_range(0, n);
    let f = |i: int| perm[i];
    lemma_int_range(0, n);
    assert(injective_on(f, dom)) by {
        assert forall|a: int, b: int| dom.contains(a) && dom.contains(b) && #[trigger] f(a) == #[trigger] f(b) implies a == b by {
            if a < b {
                assert(perm[a] != perm[b]);
            } else if b < a {
                assert(perm[b] != perm[a]);
            }
        }
    }
    let img = dom.map(f);
    lemma_map_size(dom, img, f);
    assert(img.subset_of(dom)) by {
        assert forall|j: int| img.contains(j) implies dom.contains(j) by {
            let i = choose|i: int| dom.contains(i) && f(i) == j;
            assert(0 <= perm[i] < inp.len());
        }
    }
    lemma_subset_equality(img, dom);
    assert forall|j: int| 0 <= j < inp.len() implies #[trigger] perm.contains(j) by {
        assert(dom.contains(j));
        assert(img.contains(j));
        let i = choose|i: int| dom.contains(i) && f(i) == j;
        assert(perm[i] == j);
    }
}

/// A stable sort rearranges its input: the output is as long as the input
/// and its positions correspond one to one to the input's, each output item
/// being the input item at its position.
pub proof fn law_sort_rearranges<T>(out: Seq<T>, inp: Seq<T>, keys: Seq<KeyView>)
    requires
        stably_sorted(out, inp, keys),
    ensures
        out.len() == inp.len(),
        exists|perm: Seq<int>|
            {
                &&& perm.len() == out.len()
                &&& forall|i: int| 0 <= i < out.len() ==> 0 <= #[trigger] perm[i] < inp.len() && out[i] == inp[perm[i]]
                &&& forall|i: int, j: int| 0 <= i < j < out.len() ==> #[trigger] perm[i] != #[trigger] perm[j]
                &&& forall|j: int| 0 <= j < inp.len() ==> #[trigger] perm.contains(j)
            },
{
    let perm = choose|perm: Seq<int>| arranged_by(perm, out, inp, keys);
    lemma_arranged_bijective(perm, out, inp, keys);
}

proof fn lemma_precedes_asymmetric(ka: KeyView, ia: int, kb: KeyView, ib: int)
    requires
        ka.3 == kb.3,
        precedes(ka, ia, kb, ib),
    ensures
        !precedes(kb, ib, ka, ia),
{
    lemma_key_order_basics(ka, kb);
}

proof fn lemma_same_prefix<T>(p1: Seq<int>, p2: Seq<int>, o1: Seq<T>, o2: Seq<T>, inp: Seq<T>, keys: Seq<KeyView>, k: int)
    requires
        arranged_by(p1, o1, inp, keys),
        arranged_by(p2, o2, inp, keys),
        same_direction(keys),
        0 <= k <= inp.len(),
    ensures
        forall|m: int| 0 <= m < k ==> p1[m] == p2[m],
    decreases k,
{
    if k > 0 {
        lemma_same_prefix(p1, p2, o1, o2, inp, keys, k - 1);
        lemma_arranged_bijective(p1, o1, inp, keys);
        lemma_arranged_bijective(p2, o2, inp, keys);
        let m = k - 1;
        let a = p1[m];
        let b = p2[m];
        if a != b {
            assert(p2.contains(a));
            let q = choose|q: int| 0 <= q < p2.len() && p2[q] == a;
            assert(p1.contains(b));
            let r = choose|r: int| 0 <= r < p1.len() && p1[r] == b;
            if q < m {
                assert(p1[q] == p2[q]);
                assert(p1[q] != p1[m]);
            }
            if r < m {
                assert(p2[r] == p1[r]);
                assert(p2[r] != p2[m]);
            }
            assert(q > m && r > m);
            assert(precedes(keys[p2[m]], p2[m], keys[p2[q]], p2[q]));
            assert(precedes(keys[p1[m]], p1[m], keys[p1[r]], p1[r]));
            lemma_precedes_asymmetric(keys[a], a, keys[b], b);
        }
    }
}

/// The stable sort of an input by keys of one direction is unique: two
/// results that are both stable sorts of it are equal.
pub proof fn law_stable_sort_unique<T>(o1: Seq<T>, o2: Seq<T>, inp: Seq<T>, keys: Seq<KeyView>)
    requires
        stably_sorted(o1, inp, keys),
        stably_sorted(o2, inp, keys),
        same_direction(keys),
    ensures
        o1 == o2,
{
    let p1 = choose|perm: Seq<int>| arranged_by(perm, o1, inp, keys);
    let p2 = choose|perm: Seq<int>| arranged_by(perm, o2, inp, keys);
    lemma_same_prefix(p1, p2, o1, o2, inp, keys, inp.len() as int);
    assert forall|i: int| 0 <= i < o1.len() implies o1[i] == o2[i] by {
        assert(p1[i] == p2[i]);
    }
    assert(o1 =~= o2);
}

} // verus!
