//! Deterministic stable ordering by `(u64, u64, bytes)` keys.
//!
//! Several exports and schedulers order their items by one or two numbers and
//! then by the lexicographic order of some bytes (as `Ord` does for `u64`,
//! `[u8]` and `str`). [`stable_order`] computes the order in which a stable sort
//! by such keys would place the items.
use vstd::prelude::*;

verus! {

/// Lexicographic "less than" on byte strings: the first differing byte
/// decides, and a proper prefix comes first.
pub open spec fn spec_bytes_lt(a: Seq<u8>, b: Seq<u8>) -> bool
    decreases a.len(),
{
    if a.len() == 0 {
        b.len() > 0
    } else if b.len() == 0 {
        false
    } else if a[0] < b[0] {
        true
    } else if a[0] > b[0] {
        false
    } else {
        spec_bytes_lt(a.drop_first(), b.drop_first())
    }
}

/// No byte string comes before itself.
pub proof fn lemma_bytes_lt_irreflexive(a: Seq<u8>)
    ensures
        !spec_bytes_lt(a, a),
    decreases a.len(),
{
    if a.len() > 0 {
        lemma_bytes_lt_irreflexive(a.drop_first());
    }
}

/// Lexicographic order is asymmetric and transitive.
pub proof fn lemma_bytes_lt_transitive(a: Seq<u8>, b: Seq<u8>, c: Seq<u8>)
    ensures
        spec_bytes_lt(a, b) ==> !spec_bytes_lt(b, a),
        spec_bytes_lt(a, b) && spec_bytes_lt(b, c) ==> spec_bytes_lt(a, c),
    decreases a.len(),
{
    if a.len() > 0 && b.len() > 0 {
        if c.len() > 0 {
            lemma_bytes_lt_transitive(a.drop_first(), b.drop_first(), c.drop_first());
        } else {
            lemma_bytes_lt_transitive(a.drop_first(), b.drop_first(), c);
        }
    }
}

/// Two different byte strings are ordered one way or the other.
pub proof fn lemma_bytes_lt_total(a: Seq<u8>, b: Seq<u8>)
    ensures
        a != b ==> spec_bytes_lt(a, b) || spec_bytes_lt(b, a),
    decreases a.len(),
{
    if a.len() > 0 && b.len() > 0 {
        lemma_bytes_lt_total(a.drop_first(), b.drop_first());
        if a != b && a[0] == b[0] {
            assert(a.drop_first() != b.drop_first()) by {
                if a.drop_first() == b.drop_first() {
                    assert(a =~= seq![a[0]] + a.drop_first());
                    assert(b =~= seq![b[0]] + b.drop_first());
                }
            }
        }
    }
    if a.len() == 0 && b.len() == 0 {
        assert(a =~= b);
    }
}

/// Lexicographic order is irreflexive and transitive, and any two different
/// byte strings are ordered one way or the other.
pub proof fn lemma_bytes_lt_order(a: Seq<u8>, b: Seq<u8>, c: Seq<u8>)
    ensures
        !spec_bytes_lt(a, a),
        spec_bytes_lt(a, b) ==> !spec_bytes_lt(b, a),
        spec_bytes_lt(a, b) && spec_bytes_lt(b, c) ==> spec_bytes_lt(a, c),
        a != b ==> spec_bytes_lt(a, b) || spec_bytes_lt(b, a),
{
    lemma_bytes_lt_irreflexive(a);
    lemma_bytes_lt_transitive(a, b, c);
    lemma_bytes_lt_total(a, b);
}

/// Whether `a` comes before `b` in lexicographic byte order.
pub fn bytes_lt(a: &[u8], b: &[u8]) -> (r: bool)
    ensures
        r == spec_bytes_lt(a@, b@),
{
    let mut i: usize = 0;
    assert(a@.skip(0) =~= a@);
    assert(b@.skip(0) =~= b@);
    while i < a.len() && i < b.len()
        invariant
            i <= a@.len(),
            i <= b@.len(),
            spec_bytes_lt(a@, b@) == spec_bytes_lt(a@.skip(i as int), b@.skip(i as int)),
        decreases a.len() - i,
    {
        if a[i] < b[i] {
            assert(a@.skip(i as int)[0] == a@[i as int]);
            return true;
        }
        if a[i] > b[i] {
            assert(a@.skip(i as int)[0] == a@[i as int]);
            return false;
        }
        assert(a@.skip(i as int).drop_first() =~= a@.skip(i + 1));
        assert(b@.skip(i as int).drop_first() =~= b@.skip(i + 1));
        i = i + 1;
    }
    i == a.len() && i < b.len()
}

/// Ordering key: a number, a second number, then bytes.
pub open spec fn spec_key_lt(a: (u64, u64, Seq<u8>), b: (u64, u64, Seq<u8>)) -> bool {
    a.0 < b.0 || (a.0 == b.0 && (a.1 < b.1 || (a.1 == b.1 && spec_bytes_lt(a.2, b.2))))
}

/// The key of an item as a mathematical value.
pub open spec fn key_view(k: (u64, u64, Vec<u8>)) -> (u64, u64, Seq<u8>) {
    (k.0, k.1, k.2@)
}

/// Item `i` comes before item `j` in a stable sort by `keys`: smaller key
/// first, and equal keys in input order.
pub open spec fn spec_precedes(keys: Seq<(u64, u64, Seq<u8>)>, i: int, j: int) -> bool {
    spec_key_lt(keys[i], keys[j]) || (keys[i] == keys[j] && i < j)
}

/// `order` is the order of a stable sort of `n` items by `keys`: each item
/// once, each before all that it precedes.
pub open spec fn spec_is_stable_order(keys: Seq<(u64, u64, Seq<u8>)>, order: Seq<usize>) -> bool {
    &&& order.len() == keys.len()
    &&& forall|j: int| 0 <= j < keys.len() ==> #[trigger] order.contains(j as usize)
    &&& forall|a: int| 0 <= a < order.len() ==> (#[trigger] order[a]) < keys.len()
    &&& forall|a: int, b: int| 0 <= a < b < order.len() ==> order[a] != order[b]
    &&& forall|a: int, b: int|
        0 <= a < b < order.len() ==> spec_precedes(keys, #[trigger] order[a] as int, #[trigger] order[b] as int)
}

/// "Comes before" is a strict total order on distinct positions.
pub proof fn lemma_precedes_order(keys: Seq<(u64, u64, Seq<u8>)>, i: int, j: int, k: int)
    ensures
        !spec_precedes(keys, i, i),
        i != j ==> spec_precedes(keys, i, j) || spec_precedes(keys, j, i),
        spec_precedes(keys, i, j) ==> !spec_precedes(keys, j, i),
        spec_precedes(keys, i, j) && spec_precedes(keys, j, k) ==> spec_precedes(keys, i, k),
{
    lemma_bytes_lt_order(keys[i].2, keys[j].2, keys[k].2);
    lemma_bytes_lt_order(keys[j].2, keys[i].2, keys[k].2);
    lemma_bytes_lt_order(keys[i].2, keys[k].2, keys[j].2);
    if keys[i].0 == keys[j].0 && keys[i].1 == keys[j].1 && keys[i].2 == keys[j].2 {
        assert(keys[i] == keys[j]);
    }
}

/// The first position of a stable order comes before every other item.
pub proof fn lemma_stable_order_first(keys: Seq<(u64, u64, Seq<u8>)>, order: Seq<usize>)
    requires
        spec_is_stable_order(keys, order),
        0 < keys.len() <= usize::MAX,
    ensures
        (order[0] as int) < keys.len(),
        forall|j: int|
            0 <= j < keys.len() && j != order[0] ==> #[trigger] spec_precedes(keys, order[0] as int, j),
{
    assert(order[0] < keys.len());
    assert forall|j: int| 0 <= j < keys.len() && j != order[0] implies #[trigger] spec_precedes(
        keys,
        order[0] as int,
        j,
    ) by {
        assert(order.contains(j as usize));
        let a = choose|a: int| 0 <= a < order.len() && order[a] == j as usize;
        assert(a != 0);
        assert(spec_precedes(keys, order[0] as int, order[a] as int));
    }
}

/// Whether item `i` comes before item `j`.
fn precedes(keys: &Vec<(u64, u64, Vec<u8>)>, i: usize, j: usize) -> (r: bool)
    requires
        i < keys@.len(),
        j < keys@.len(),
    ensures
        r == spec_precedes(keys@.map_values(|k: (u64, u64, Vec<u8>)| key_view(k)), i as int, j as int),
{
    let ghost kv = keys@.map_values(|k: (u64, u64, Vec<u8>)| key_view(k));
    let a = &keys[i];
    let b = &keys[j];
    if a.0 < b.0 {
        return true;
    }
    if a.0 > b.0 {
        return false;
    }
    if a.1 < b.1 {
        return true;
    }
    if a.1 > b.1 {
        return false;
    }
    if bytes_lt(a.2.as_slice(), b.2.as_slice()) {
        return true;
    }
    if bytes_lt(b.2.as_slice(), a.2.as_slice()) {
        proof {
            lemma_bytes_lt_order(b.2@, a.2@, a.2@);
        }
        return false;
    }
    proof {
        lemma_bytes_lt_order(a.2@, b.2@, b.2@);
        assert(kv[i as int] == key_view(*a));
        assert(kv[j as int] == key_view(*b));
    }
    i < j
}

/// The order in which a stable sort by `keys` places the items: a permutation
/// of the positions where smaller keys come first and equal keys keep their
/// input order.
pub fn stable_order(keys: &Vec<(u64, u64, Vec<u8>)>) -> (r: Vec<usize>)
    ensures
        spec_is_stable_order(keys@.map_values(|k: (u64, u64, Vec<u8>)| key_view(k)), r@),
{
    let ghost kv = keys@.map_values(|k: (u64, u64, Vec<u8>)| key_view(k));
    let n = keys.len();
    let mut order: Vec<usize> = Vec::new();
    let mut k: usize = 0;
    while k < n
        invariant
            k <= n,
            n == keys@.len(),
            kv == keys@.map_values(|k: (u64, u64, Vec<u8>)| key_view(k)),
            order@.len() == k,
            forall|j: int| 0 <= j < k ==> #[trigger] order@.contains(j as usize),
            forall|a: int| 0 <= a < order@.len() ==> (#[trigger] order@[a]) < k,
            forall|a: int, b: int| 0 <= a < b < order@.len() ==> order@[a] != order@[b],
            forall|a: int, b: int|
                0 <= a < b < order@.len() ==> spec_precedes(kv, #[trigger] order@[a] as int, #[trigger] order@[b] as int),
        decreases n - k,
    {
        // Find the first position whose item `k` comes before.
        let mut p: usize = 0;
        while p < order.len() && !precedes(keys, k, order[p])
            invariant
                p <= order@.len(),
                k < n,
                n == keys@.len(),
                kv == keys@.map_values(|k: (u64, u64, Vec<u8>)| key_view(k)),
                forall|a: int| 0 <= a < order@.len() ==> (#[trigger] order@[a]) < k,
                forall|a: int| 0 <= a < p ==> !spec_precedes(kv, k as int, #[trigger] order@[a] as int),
            decreases order.len() - p,
        {
            p = p + 1;
        }
        let ghost old_order = order@;
        proof {
            assert forall|a: int| 0 <= a < p implies spec_precedes(kv, #[trigger] old_order[a] as int, k as int) by {
                lemma_precedes_order(kv, k as int, old_order[a] as int, k as int);
            }
            assert forall|b: int| p <= b < old_order.len() implies spec_precedes(kv, k as int, #[trigger] old_order[b] as int) by {
                if b > p {
                    lemma_precedes_order(kv, k as int, old_order[p as int] as int, old_order[b] as int);
                }
            }
        }
        order.insert(p, k);
        proof {
            assert forall|a: int, b: int| 0 <= a < b < order@.len() implies spec_precedes(kv, #[trigger] order@[a] as int, #[trigger] order@[b] as int) by {
                if a < p && b < p {
                } else if a < p && b == p {
                } else if a < p && b > p {
                    assert(order@[b] == old_order[b - 1]);
                } else if a == p {
                    assert(order@[b] == old_order[b - 1]);
                } else {
                    assert(order@[a] == old_order[a - 1]);
                    assert(order@[b] == old_order[b - 1]);
                }
            }
            assert forall|a: int, b: int| 0 <= a < b < order@.len() implies order@[a] != order@[b] by {
                if a == p {
                    assert(order@[b] == old_order[b - 1]);
                } else if b == p {
                } else if a < p && b > p {
                    assert(order@[b] == old_order[b - 1]);
                } else if a > p {
                    assert(order@[a] == old_order[a - 1]);
                    assert(order@[b] == old_order[b - 1]);
                }
            }
            assert forall|j: int| 0 <= j < k + 1 implies #[trigger] order@.contains(j as usize) by {
                if j == k {
                    assert(order@[p as int] == k);
                } else {
                    assert(old_order.contains(j as usize));
                    let a = choose|a: int| 0 <= a < old_order.len() && old_order[a] == j as usize;
                    if a < p {
                        assert(order@[a] == j as usize);
                    } else {
                        assert(order@[a + 1] == j as usize);
                    }
                }
            }
            assert forall|a: int| 0 <= a < order@.len() implies (#[trigger] order@[a]) < k + 1 by {
                if a > p {
                    assert(order@[a] == old_order[a - 1]);
                }
            }
        }
        k = k + 1;
    }
    order
}

/// Keys compare one way or the other unless they are equal, and never both ways.
pub proof fn lemma_key_lt_order(a: (u64, u64, Seq<u8>), b: (u64, u64, Seq<u8>))
    ensures
        !spec_key_lt(a, a),
        spec_key_lt(a, b) ==> !spec_key_lt(b, a),
        a != b ==> spec_key_lt(a, b) || spec_key_lt(b, a),
{
    lemma_bytes_lt_order(a.2, b.2, b.2);
    lemma_bytes_lt_order(b.2, a.2, a.2);
    if a.0 == b.0 && a.1 == b.1 && a.2 == b.2 {
        assert(a == b);
    }
}

/// `s` is sorted by `key`: no item has a smaller key than one before it.
pub open spec fn spec_sorted_by<E>(s: Seq<E>, key: spec_fn(E) -> (u64, u64, Seq<u8>)) -> bool {
    forall|i: int, j: int| 0 <= i < j < s.len() ==> !spec_key_lt(#[trigger] key(s[j]), #[trigger] key(s[i]))
}

/// `pi` lists each position below `n` exactly once.
pub open spec fn spec_is_permutation(pi: Seq<usize>, n: nat) -> bool {
    &&& pi.len() == n
    &&& forall|a: int| 0 <= a < pi.len() ==> (#[trigger] pi[a]) < n
    &&& forall|a: int, b: int| 0 <= a < b < pi.len() ==> pi[a] != pi[b]
    &&& forall|j: int| 0 <= j < n ==> #[trigger] pi.contains(j as usize)
}

/// The items at the positions `pi`, in that order.
pub open spec fn spec_pick_in_order<E>(items: Seq<E>, pi: Seq<usize>) -> Seq<E> {
    pi.map_values(|i: usize| items[i as int])
}

/// A stable order lists each position exactly once.
pub proof fn lemma_stable_order_is_permutation(keys: Seq<(u64, u64, Seq<u8>)>, order: Seq<usize>)
    requires
        spec_is_stable_order(keys, order),
    ensures
        spec_is_permutation(order, keys.len()),
{
}

/// Items listed in a stable order by their keys are sorted by key.
pub proof fn lemma_stable_order_sorts<E>(
    items: Seq<E>,
    key: spec_fn(E) -> (u64, u64, Seq<u8>),
    order: Seq<usize>,
)
    requires
        spec_is_stable_order(items.map_values(|x: E| key(x)), order),
    ensures
        spec_sorted_by(spec_pick_in_order(items, order), key),
{
    let keys = items.map_values(|x: E| key(x));
    let r = spec_pick_in_order(items, order);
    assert forall|i: int, j: int| 0 <= i < j < r.len() implies !spec_key_lt(
        #[trigger] key(r[j]),
        #[trigger] key(r[i]),
    ) by {
        assert(spec_precedes(keys, order[i] as int, order[j] as int));
        assert(keys[order[i] as int] == key(r[i]));
        assert(keys[order[j] as int] == key(r[j]));
        lemma_key_lt_order(key(r[i]), key(r[j]));
    }
}

/// Listing the items in the order of a permutation keeps their multiset.
pub proof fn lemma_permutation_multiset<E>(items: Seq<E>, pi: Seq<usize>)
    requires
        spec_is_permutation(pi, items.len()),
        items.len() <= usize::MAX,
    ensures
        spec_pick_in_order(items, pi).to_multiset() == items.to_multiset(),
    decreases items.len(),
{
    broadcast use vstd::seq_lib::group_to_multiset_ensures;
    broadcast use vstd::multiset::group_multiset_axioms;

    let n = items.len();
    if n == 0 {
        assert(spec_pick_in_order(items, pi) =~= Seq::<E>::empty());
        assert(items =~= Seq::<E>::empty());
    } else {
        let m = (n - 1) as int;
        assert(pi.contains(m as usize));
        let p = choose|p: int| 0 <= p < pi.len() && pi[p] == m as usize;
        let rest = pi.remove(p);
        let init = items.drop_last();
        assert forall|a: int| 0 <= a < rest.len() implies (#[trigger] rest[a]) < init.len() by {
            if a < p {
                assert(rest[a] == pi[a]);
            } else {
                assert(rest[a] == pi[a + 1]);
            }
        }
        assert forall|a: int, b: int| 0 <= a < b < rest.len() implies rest[a] != rest[b] by {
            if b < p {
            } else if a < p {
                assert(rest[b] == pi[b + 1]);
            } else {
                assert(rest[a] == pi[a + 1]);
                assert(rest[b] == pi[b + 1]);
            }
        }
        assert forall|j: int| 0 <= j < init.len() implies #[trigger] rest.contains(j as usize) by {
            assert(pi.contains(j as usize));
            let a = choose|a: int| 0 <= a < pi.len() && pi[a] == j as usize;
            assert(a != p);
            if a < p {
                assert(rest[a] == j as usize);
            } else {
                assert(rest[a - 1] == j as usize);
            }
        }
        lemma_permutation_multiset(init, rest);
        let all = spec_pick_in_order(items, pi);
        assert(all.remove(p) =~= spec_pick_in_order(init, rest)) by {
            assert forall|a: int| 0 <= a < rest.len() implies all.remove(p)[a] == spec_pick_in_order(
                init,
                rest,
            )[a] by {
                if a < p {
                    assert(rest[a] == pi[a]);
                } else {
                    assert(rest[a] == pi[a + 1]);
                }
            }
        }
        assert(init.push(items[m]) =~= items);
        assert(all[p] == items[m]);
        assert(all.to_multiset().count(items[m]) > 0) by {
            assert(all.contains(items[m]));
        }
        assert(all.to_multiset() =~= all.to_multiset().remove(items[m]).insert(items[m]));
    }
}

/// Two sequences sorted by key with the same multiset of items are equal, when
/// items with equal keys are equal.
pub proof fn lemma_sorted_unique<E>(s1: Seq<E>, s2: Seq<E>, key: spec_fn(E) -> (u64, u64, Seq<u8>))
    requires
        spec_sorted_by(s1, key),
        spec_sorted_by(s2, key),
        s1.to_multiset() == s2.to_multiset(),
        forall|x: E, y: E| s1.contains(x) && s1.contains(y) && key(x) == key(y) ==> x == y,
    ensures
        s1 == s2,
    decreases s1.len(),
{
    broadcast use vstd::seq_lib::group_to_multiset_ensures;
    broadcast use vstd::multiset::group_multiset_axioms;

    assert(s1.len() == s2.len()) by {
        assert(s1.len() == s1.to_multiset().len());
        assert(s2.len() == s2.to_multiset().len());
    }
    if s1.len() == 0 {
        assert(s1 =~= s2);
    } else {
        let x = s1[0];
        let y = s2[0];
        assert(s2.contains(y));
        assert(s2.to_multiset().count(y) > 0);
        assert(s1.contains(y));
        let p = choose|p: int| 0 <= p < s1.len() && s1[p] == y;
        assert(s1.contains(x));
        assert(s1.to_multiset().count(x) > 0);
        assert(s2.to_multiset().count(x) > 0);
        assert(s2.contains(x));
        let q = choose|q: int| 0 <= q < s2.len() && s2[q] == x;
        if p > 0 {
            assert(!spec_key_lt(key(s1[p]), key(s1[0])));
        }
        if q > 0 {
            assert(!spec_key_lt(key(s2[q]), key(s2[0])));
        }
        lemma_key_lt_order(key(x), key(y));
        assert(key(x) == key(y));
        assert(x == y);
        let t1 = s1.remove(0);
        let t2 = s2.remove(0);
        assert(t1.to_multiset() == t2.to_multiset());
        assert forall|i: int, j: int| 0 <= i < j < t1.len() implies !spec_key_lt(
            #[trigger] key(t1[j]),
            #[trigger] key(t1[i]),
        ) by {
            assert(t1[i] == s1[i + 1]);
            assert(t1[j] == s1[j + 1]);
        }
        assert forall|i: int, j: int| 0 <= i < j < t2.len() implies !spec_key_lt(
            #[trigger] key(t2[j]),
            #[trigger] key(t2[i]),
        ) by {
            assert(t2[i] == s2[i + 1]);
            assert(t2[j] == s2[j + 1]);
        }
        assert forall|u: E, v: E| t1.contains(u) && t1.contains(v) && key(u) == key(v) implies u == v by {
            let a = choose|a: int| 0 <= a < t1.len() && t1[a] == u;
            let b = choose|b: int| 0 <= b < t1.len() && t1[b] == v;
            assert(s1[a + 1] == u);
            assert(s1[b + 1] == v);
            assert(s1.contains(u));
            assert(s1.contains(v));
        }
        lemma_sorted_unique(t1, t2, key);
        assert(s1 =~= s2) by {
            assert forall|i: int| 0 <= i < s1.len() implies s1[i] == s2[i] by {
                if i > 0 {
                    assert(s1[i] == t1[i - 1]);
                    assert(s2[i] == t2[i - 1]);
                }
            }
        }
    }
}

} // verus!
