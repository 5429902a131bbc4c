//! Lexicographic order on strings (by code point, as `String`'s `Ord` orders
//! them), and sorting named entries by name.

use vstd::prelude::*;

use crate::text::chars_of;

verus! {

/// `a` comes strictly before `b`: at the first position where they differ `a`
/// has the smaller code point, or `a` is a proper prefix of `b`.
pub open spec fn seq_lt(a: Seq<char>, b: Seq<char>) -> bool
    decreases a.len(),
{
    if b.len() == 0 {
        false
    } else if a.len() == 0 {
        true
    } else if a[0] != b[0] {
        a[0] < b[0]
    } else {
        seq_lt(a.drop_first(), b.drop_first())
    }
}

/// No string comes before itself.
pub proof fn lemma_lt_irreflexive(a: Seq<char>)
    ensures
        !seq_lt(a, a),
    decreases a.len(),
{
    if a.len() > 0 {
        lemma_lt_irreflexive(a.drop_first());
    }
}

/// The order is transitive.
pub proof fn lemma_lt_transitive(a: Seq<char>, b: Seq<char>, c: Seq<char>)
    requires
        seq_lt(a, b),
        seq_lt(b, c),
    ensures
        seq_lt(a, c),
    decreases a.len(),
{
    if a.len() > 0 && b.len() > 0 && c.len() > 0 && a[0] == b[0] && b[0] == c[0] {
        lemma_lt_transitive(a.drop_first(), b.drop_first(), c.drop_first());
    }
}

/// Two different strings are ordered one way or the other.
pub proof fn lemma_lt_total(a: Seq<char>, b: Seq<char>)
    requires
        a != b,
    ensures
        seq_lt(a, b) || seq_lt(b, a),
    decreases a.len(),
{
    if a.len() > 0 && b.len() > 0 && a[0] == b[0] {
        if a.drop_first() == b.drop_first() {
            assert(a =~= seq![a[0]] + a.drop_first());
            assert(b =~= seq![b[0]] + b.drop_first());
        }
        lemma_lt_total(a.drop_first(), b.drop_first());
    } else if a.len() > 0 && b.len() > 0 {
    } else if a.len() == 0 && b.len() == 0 {
        assert(a =~= b);
    }
}

proof fn lemma_lt_skip(a: Seq<char>, b: Seq<char>, i: int)
    requires
        0 <= i <= a.len(),
        i <= b.len(),
        a.take(i) == b.take(i),
    ensures
        seq_lt(a, b) == seq_lt(a.skip(i), b.skip(i)),
    decreases i,
{
    if i > 0 {
        assert(a[0] == a.take(i)[0]);
        assert(b[0] == b.take(i)[0]);
        assert(a.drop_first().take(i - 1) =~= a.take(i).drop_first());
        assert(b.drop_first().take(i - 1) =~= b.take(i).drop_first());
        lemma_lt_skip(a.drop_first(), b.drop_first(), i - 1);
        assert(a.drop_first().skip(i - 1) =~= a.skip(i));
        assert(b.drop_first().skip(i - 1) =~= b.skip(i));
    } else {
        assert(a.skip(0) =~= a);
        assert(b.skip(0) =~= b);
    }
}

/// Whether `a` comes strictly before `b`.
pub fn str_lt(a: &str, b: &str) -> (r: bool)
    ensures
        r == seq_lt(a@, b@),
{
    let x = chars_of(a);
    let y = chars_of(b);
    let mut i: usize = 0;
    while i < x.len() && i < y.len()
        invariant
            i <= x@.len(),
            i <= y@.len(),
            x@ == a@,
            y@ == b@,
            x@.take(i as int) == y@.take(i as int),
        decreases x.len() - i,
    {
        if x[i] != y[i] {
            proof {
                lemma_lt_skip(x@, y@, i as int);
                assert(x@.skip(i as int)[0] == x@[i as int]);
                assert(y@.skip(i as int)[0] == y@[i as int]);
            }
            return x[i] < y[i];
        }
        proof {
            assert(x@.take(i + 1) =~= x@.take(i as int).push(x@[i as int]));
            assert(y@.take(i + 1) =~= y@.take(i as int).push(y@[i as int]));
        }
        i = i + 1;
    }
    proof {
        lemma_lt_skip(x@, y@, i as int);
    }
    i < y.len()
}

/// `order` lists each index of `0..n` exactly once.
pub open spec fn is_permutation(order: Seq<usize>, n: nat) -> bool {
    &&& order.len() == n
    &&& forall|i: int| 0 <= i < n ==> #[trigger] order[i] < n
    &&& forall|i: int, j: int| 0 <= i < j < n ==> #[trigger] order[i] != #[trigger] order[j]
}

/// `keys` read in the order `order` never steps back.
pub open spec fn sorted_by(keys: Seq<Seq<char>>, order: Seq<usize>) -> bool {
    forall|i: int, j: int| 0 <= i < j < order.len() ==> !seq_lt(
        keys[#[trigger] order[j] as int],
        keys[#[trigger] order[i] as int],
    )
}

/// No two of `keys` are equal.
pub open spec fn distinct_keys(keys: Seq<Seq<char>>) -> bool {
    forall|i: int, j: int| 0 <= i < j < keys.len() ==> #[trigger] keys[i] != #[trigger] keys[j]
}

/// The order that reads `keys` in increasing order; for distinct keys it is
/// the only one (see [`lemma_sorted_order_canonical`]).
pub open spec fn sorted_order(keys: Seq<Seq<char>>) -> Seq<usize> {
    choose|o: Seq<usize>| is_permutation(o, keys.len()) && sorted_by(keys, o)
}

/// Every index below `n` occurs in a permutation of `0..n`.
pub proof fn lemma_permutation_onto(order: Seq<usize>, n: nat, a: int)
    requires
        is_permutation(order, n),
        0 <= a < n,
    ensures
        exists|q: int| 0 <= q < n && order[q] == a,
{
    let s = order.map_values(|x: usize| x as int);
    assert(s.no_duplicates()) by {
        assert forall|i: int, j: int| 0 <= i < s.len() && 0 <= j < s.len() && i != j implies s[i] != s[j] by {
            if i < j {
                assert(order[i] != order[j]);
            } else {
                assert(order[j] != order[i]);
            }
        }
    }
    s.unique_seq_to_set();
    vstd::set_lib::lemma_int_range(0, n as int);
    let range = vstd::set_lib::set_int_range(0, n as int);
    assert(s.to_set().subset_of(range)) by {
        assert forall|x: int| s.to_set().contains(x) implies range.contains(x) by {
            let q = choose|q: int| 0 <= q < s.len() && s[q] == x;
            assert(order[q] < n);
        }
    }
    vstd::set_lib::lemma_subset_equality(s.to_set(), range);
    assert(range.contains(a));
    assert(s.to_set().contains(a));
    let q = choose|q: int| 0 <= q < s.len() && s[q] == a;
    assert(order[q] == a);
}

proof fn lemma_sorted_prefix_equal(keys: Seq<Seq<char>>, o1: Seq<usize>, o2: Seq<usize>, p: int)
    requires
        distinct_keys(keys),
        is_permutation(o1, keys.len()),
        is_permutation(o2, keys.len()),
        sorted_by(keys, o1),
        sorted_by(keys, o2),
        0 <= p < keys.len(),
    ensures
        forall|i: int| 0 <= i <= p ==> o1[i] == o2[i],
    decreases p,
{
    if p > 0 {
        lemma_sorted_prefix_equal(keys, o1, o2, p - 1);
    }
    if o1[p] != o2[p] {
        let n = keys.len();
        let a = o1[p];
        let b = o2[p];
        lemma_permutation_onto(o2, n, a as int);
        lemma_permutation_onto(o1, n, b as int);
        let q = choose|q: int| 0 <= q < n && o2[q] == a;
        let r = choose|r: int| 0 <= r < n && o1[r] == b;
        if q < p {
            assert(o1[q] == o2[q]);
            assert(o1[q] != o1[p]);
        }
        if r < p {
            assert(o1[r] == o2[r]);
            assert(o2[r] != o2[p]);
        }
        assert(q > p);
        assert(r > p);
        if a < b {
            assert(keys[a as int] != keys[b as int]);
        } else {
            assert(keys[b as int] != keys[a as int]);
        }
        lemma_lt_total(keys[a as int], keys[b as int]);
        if seq_lt(keys[a as int], keys[b as int]) {
            assert(!seq_lt(keys[o2[q] as int], keys[o2[p] as int]));
        } else {
            assert(!seq_lt(keys[o1[r] as int], keys[o1[p] as int]));
        }
    }
}

/// For distinct keys, an order that reads them in increasing order is
/// [`sorted_order`].
pub proof fn lemma_sorted_order_canonical(keys: Seq<Seq<char>>, order: Seq<usize>)
    requires
        distinct_keys(keys),
        is_permutation(order, keys.len()),
        sorted_by(keys, order),
    ensures
        order == sorted_order(keys),
{
    let c = sorted_order(keys);
    assert(is_permutation(c, keys.len()) && sorted_by(keys, c));
    if keys.len() > 0 {
        lemma_sorted_prefix_equal(keys, order, c, keys.len() - 1);
    }
    assert(order =~= c);
}

/// The names of named entries.
pub open spec fn keys_of<T>(pairs: Seq<(String, T)>) -> Seq<Seq<char>> {
    pairs.map_values(|p: (String, T)| p.0@)
}

/// The positions of `pairs` ordered by name (entries with equal names keep
/// their relative order).
pub fn key_order<T>(pairs: &Vec<(String, T)>) -> (order: Vec<usize>)
    ensures
        is_permutation(order@, pairs@.len()),
        sorted_by(keys_of(pairs@), order@),
        distinct_keys(keys_of(pairs@)) ==> order@ == sorted_order(keys_of(pairs@)),
{
    let ghost keys = keys_of(pairs@);
    let mut order: Vec<usize> = Vec::new();
    let mut k: usize = 0;
    while k < pairs.len()
        invariant
            k <= pairs@.len(),
            keys == keys_of(pairs@),
            is_permutation(order@, k as nat),
            sorted_by(keys, order@),
        decreases pairs.len() - k,
    {
        let mut p: usize = 0;
        while p < order.len() && !str_lt(pairs[k].0.as_str(), pairs[order[p]].0.as_str())
            invariant
                p <= order@.len(),
                k < pairs@.len(),
                keys == keys_of(pairs@),
                is_permutation(order@, k as nat),
                forall|q: int| 0 <= q < p ==> !seq_lt(keys[k as int], keys[#[trigger] order@[q] as int]),
            decreases order.len() - p,
        {
            proof {
                assert(keys[k as int] == pairs@[k as int].0@);
                assert(keys[order@[p as int] as int] == pairs@[order@[p as int] as int].0@);
            }
            p = p + 1;
        }
        let ghost old_order = order@;
        proof {
            assert(keys[k as int] == pairs@[k as int].0@);
            if p < old_order.len() {
                assert(keys[old_order[p as int] as int] == pairs@[old_order[p as int] as int].0@);
            }
        }
        order.insert(p, k);
        proof {
            let o = order@;
            assert(o =~= old_order.insert(p as int, k));
            assert forall|i: int| 0 <= i < k + 1 implies #[trigger] o[i] < k + 1 by {
                if i < p {
                    assert(o[i] == old_order[i]);
                } else if i > p {
                    assert(o[i] == old_order[i - 1]);
                }
            }
            assert forall|i: int, j: int| 0 <= i < j < k + 1 implies #[trigger] o[i] != #[trigger] o[j] by {
                if i < p && j > p {
                    assert(o[i] == old_order[i] && o[j] == old_order[j - 1]);
                } else if i < p && j < p {
                    assert(o[i] == old_order[i] && o[j] == old_order[j]);
                } else if i > p {
                    assert(o[i] == old_order[i - 1] && o[j] == old_order[j - 1]);
                } else if i == p {
                    assert(o[j] == old_order[j - 1]);
                } else {
                    assert(o[i] == old_order[i]);
                }
            }
            assert forall|i: int, j: int| 0 <= i < j < o.len() implies !seq_lt(
                keys[#[trigger] o[j] as int],
                keys[#[trigger] o[i] as int],
            ) by {
                if j < p {
                    assert(o[i] == old_order[i] && o[j] == old_order[j]);
                } else if i > p {
                    assert(o[i] == old_order[i - 1] && o[j] == old_order[j - 1]);
                } else if i < p && j > p {
                    assert(o[i] == old_order[i] && o[j] == old_order[j - 1]);
                } else if j == p {
                    assert(o[i] == old_order[i]);
                } else {
                    // i == p < j: the inserted key comes before every later key.
                    assert(o[j] == old_order[j - 1]);
                    let kk = keys[k as int];
                    let kp = keys[old_order[p as int] as int];
                    let kj = keys[old_order[j - 1] as int];
                    assert(seq_lt(kk, kp));
                    if j - 1 > p {
                        assert(!seq_lt(kj, kp));
                    }
                    lemma_lt_irreflexive(kp);
                    if seq_lt(kj, kk) {
                        lemma_lt_transitive(kj, kk, kp);
                    }
                }
            }
        }
        k = k + 1;
    }
    proof {
        if distinct_keys(keys) {
            lemma_sorted_order_canonical(keys, order@);
        }
    }
    order
}

} // verus!
