//! Display order: ascending by name, ignoring case, equal names keeping the
//! order in which they arrived.

use vstd::prelude::*;
use vstd::string::*;

verus! {

/// The lower-case form of a text, as the standard library computes it.
pub uninterp spec fn lowercase_of(text: Seq<char>) -> Seq<char>;

/// Calls `str::to_lowercase`. The Unicode tables behind it are not restated
/// here. The contract is taken on trust and claims one thing: the result
/// depends on the characters of the text alone, so it can be given a name,
/// [`lowercase_of`].
#[verifier::external_body]
fn lowercase(text: &str) -> (lower: String)
    ensures
        lower@ == lowercase_of(text@),
{
    text.to_lowercase()
}

/// The key a name is ordered by: the UTF-8 bytes of its lower-case form.
pub open spec fn name_key(name: Seq<char>) -> Seq<u8> {
    vstd::utf8::encode_utf8(lowercase_of(name))
}

/// Strict lexicographic order on byte strings: the first differing byte
/// decides, and a proper prefix comes first.
pub open spec fn bytes_lt(a: Seq<u8>, b: Seq<u8>) -> bool
    decreases a.len(),
{
    if b.len() == 0 {
        false
    } else if a.len() == 0 {
        true
    } else if a[0] != b[0] {
        a[0] < b[0]
    } else {
        bytes_lt(a.skip(1), b.skip(1))
    }
}

/// Whether index `i` comes before index `j` in display order: by key, and by
/// position among equal keys.
pub open spec fn precedes(keys: Seq<Seq<u8>>, i: int, j: int) -> bool {
    bytes_lt(keys[i], keys[j]) || (!bytes_lt(keys[j], keys[i]) && i < j)
}

/// Where a new index with key `key` goes in an order that is already sorted:
/// behind the last index whose key is not greater.
pub open spec fn slot(keys: Seq<Seq<u8>>, order: Seq<int>, key: Seq<u8>) -> int
    decreases order.len(),
{
    if order.len() == 0 || !bytes_lt(key, keys[order.last()]) {
        order.len() as int
    } else {
        slot(keys, order.drop_last(), key)
    }
}

/// The display order of the first `n` keys, as a sequence of their indices.
pub open spec fn stable_order(keys: Seq<Seq<u8>>, n: nat) -> Seq<int>
    decreases n,
{
    if n == 0 {
        Seq::empty()
    } else {
        let before = stable_order(keys, (n - 1) as nat);
        before.insert(slot(keys, before, keys[n - 1]), n - 1)
    }
}

/// What makes a sequence of indices the display order of `n` keys: every
/// index is in range, and each one precedes all that follow it.
pub open spec fn is_display_order(keys: Seq<Seq<u8>>, n: nat, order: Seq<int>) -> bool {
    &&& order.len() == n
    &&& forall|k: int| 0 <= k < order.len() ==> 0 <= #[trigger] order[k] < n
    &&& forall|k: int, l: int|
        0 <= k < l < order.len() ==> precedes(keys, #[trigger] order[k], #[trigger] order[l])
}

/// Skipping a common first byte does not change the order of two strings.
proof fn lemma_bytes_lt_suffix(a: Seq<u8>, b: Seq<u8>, i: int)
    requires
        0 <= i <= a.len(),
        i <= b.len(),
        a.take(i) == b.take(i),
    ensures
        bytes_lt(a, b) == bytes_lt(a.skip(i), b.skip(i)),
    decreases i,
{
    if i == 0 {
        assert(a.skip(0) =~= a);
        assert(b.skip(0) =~= b);
    } else {
        assert(a.take(i)[0] == a[0]);
        assert(b.take(i)[0] == b[0]);
        assert(a.skip(1).take(i - 1) =~= a.take(i).skip(1));
        assert(b.skip(1).take(i - 1) =~= b.take(i).skip(1));
        lemma_bytes_lt_suffix(a.skip(1), b.skip(1), i - 1);
        assert(a.skip(1).skip(i - 1) =~= a.skip(i));
        assert(b.skip(1).skip(i - 1) =~= b.skip(i));
    }
}

/// No byte string is below itself.
pub proof fn lemma_bytes_lt_irreflexive(a: Seq<u8>)
    ensures
        !bytes_lt(a, a),
    decreases a.len(),
{
    if a.len() > 0 {
        lemma_bytes_lt_irreflexive(a.skip(1));
    }
}

/// Of two byte strings at most one is below the other.
pub proof fn lemma_bytes_lt_asymmetric(a: Seq<u8>, b: Seq<u8>)
    ensures
        !(bytes_lt(a, b) && bytes_lt(b, a)),
    decreases a.len(),
{
    if a.len() > 0 && b.len() > 0 && a[0] == b[0] {
        lemma_bytes_lt_asymmetric(a.skip(1), b.skip(1));
    }
}

/// If `a` is not above `b` and `b` is not above `c`, then `a` is not above `c`.
pub proof fn lemma_bytes_not_above_transitive(a: Seq<u8>, b: Seq<u8>, c: Seq<u8>)
    requires
        !bytes_lt(b, a),
        !bytes_lt(c, b),
    ensures
        !bytes_lt(c, a),
    decreases a.len(),
{
    if a.len() > 0 && b.len() > 0 && c.len() > 0 && a[0] == b[0] && b[0] == c[0] {
        lemma_bytes_not_above_transitive(a.skip(1), b.skip(1), c.skip(1));
    }
}

/// Whether `a` is strictly below `b` in lexicographic order.
pub fn bytes_less(a: &Vec<u8>, b: &Vec<u8>) -> (less: bool)
    ensures
        less == bytes_lt(a@, b@),
{
    let mut i: usize = 0;
    while i < a.len() && i < b.len()
        invariant
            i <= a.len(),
            i <= b.len(),
            a@.take(i as int) == b@.take(i as int),
        decreases a.len() - i,
    {
        if a[i] != b[i] {
            proof {
                lemma_bytes_lt_suffix(a@, b@, i as int);
            }
            return a[i] < b[i];
        }
        proof {
            assert(a@.take(i + 1) =~= a@.take(i as int).push(a@[i as int]));
            assert(b@.take(i + 1) =~= b@.take(i as int).push(b@[i as int]));
        }
        i = i + 1;
    }
    proof {
        lemma_bytes_lt_suffix(a@, b@, i as int);
    }
    i < b.len()
}

/// The key that a name is ordered by.
pub fn key_of_name(name: &String) -> (key: Vec<u8>)
    ensures
        key@ == name_key(name@),
{
    let lower = lowercase(name.as_str());
    lower.as_str().as_bytes_vec()
}

/// The keys as byte strings.
pub open spec fn key_seq(keys: Seq<Vec<u8>>) -> Seq<Seq<u8>> {
    keys.map_values(|k: Vec<u8>| k@)
}

/// A sequence of machine indices as mathematical integers.
pub open spec fn index_seq(order: Seq<usize>) -> Seq<int> {
    order.map_values(|i: usize| i as int)
}

/// What [`slot`] returns: a position in the order such that every index from
/// there on has a greater key, and the index just before has not.
pub proof fn lemma_slot(keys: Seq<Seq<u8>>, order: Seq<int>, key: Seq<u8>)
    ensures
        0 <= slot(keys, order, key) <= order.len(),
        forall|l: int|
            slot(keys, order, key) <= l < order.len() ==> bytes_lt(key, keys[#[trigger] order[l]]),
        slot(keys, order, key) > 0 ==> !bytes_lt(
            key,
            keys[order[slot(keys, order, key) - 1]],
        ),
    decreases order.len(),
{
    if order.len() == 0 || !bytes_lt(key, keys[order.last()]) {
    } else {
        lemma_slot(keys, order.drop_last(), key);
        let p = slot(keys, order, key);
        assert forall|l: int| p <= l < order.len() implies bytes_lt(
            key,
            keys[#[trigger] order[l]],
        ) by {
            if l < order.len() - 1 {
                assert(order.drop_last()[l] == order[l]);
            }
        }
        if p > 0 {
            assert(order.drop_last()[p - 1] == order[p - 1]);
        }
    }
}

/// The order that [`stable_order`] builds is the display order: it holds
/// indices below `n` only, and each of them precedes all that follow it.
pub proof fn lemma_stable_order_is_display_order(keys: Seq<Seq<u8>>, n: nat)
    requires
        n <= keys.len(),
    ensures
        is_display_order(keys, n, stable_order(keys, n)),
    decreases n,
{
    if n > 0 {
        let before = stable_order(keys, (n - 1) as nat);
        let key = keys[n - 1];
        let p = slot(keys, before, key);
        let after = before.insert(p, n - 1);
        lemma_stable_order_is_display_order(keys, (n - 1) as nat);
        lemma_slot(keys, before, key);
        assert(after == stable_order(keys, n));
        assert forall|k: int| 0 <= k < after.len() implies 0 <= #[trigger] after[k] < n by {
            if k < p {
                assert(after[k] == before[k]);
            } else if k > p {
                assert(after[k] == before[k - 1]);
            }
        }
        assert forall|k: int, l: int| 0 <= k < l < after.len() implies precedes(
            keys,
            #[trigger] after[k],
            #[trigger] after[l],
        ) by {
            if l < p {
                assert(after[k] == before[k] && after[l] == before[l]);
            } else if l == p {
                assert(after[k] == before[k]);
                assert(after[l] == n - 1);
                if k < p - 1 {
                    assert(precedes(keys, before[k], before[p - 1]));
                    lemma_bytes_lt_asymmetric(keys[before[k]], keys[before[p - 1]]);
                } else {
                    lemma_bytes_lt_irreflexive(keys[before[k]]);
                }
                lemma_bytes_not_above_transitive(keys[before[k]], keys[before[p - 1]], key);
            } else if k < p {
                assert(after[k] == before[k] && after[l] == before[l - 1]);
            } else if k == p {
                assert(after[k] == n - 1);
                assert(after[l] == before[l - 1]);
            } else {
                assert(after[k] == before[k - 1] && after[l] == before[l - 1]);
            }
        }
    }
}

/// The display order leaves no index out.
pub proof fn lemma_stable_order_is_complete(keys: Seq<Seq<u8>>, n: nat, j: int)
    requires
        0 <= j < n,
    ensures
        stable_order(keys, n).contains(j),
    decreases n,
{
    let before = stable_order(keys, (n - 1) as nat);
    let p = slot(keys, before, keys[n - 1]);
    lemma_slot(keys, before, keys[n - 1]);
    let after = before.insert(p, n - 1);
    if j == n - 1 {
        assert(after[p] == j);
    } else {
        lemma_stable_order_is_complete(keys, (n - 1) as nat, j);
        let k = choose|k: int| 0 <= k < before.len() && before[k] == j;
        if k < p {
            assert(after[k] == j);
        } else {
            assert(after[k + 1] == j);
        }
    }
}

/// The display order of the given keys, as indices into them.
pub fn sort_order(keys: &Vec<Vec<u8>>) -> (order: Vec<usize>)
    ensures
        index_seq(order@) == stable_order(key_seq(keys@), keys.len() as nat),
        is_display_order(key_seq(keys@), keys.len() as nat, index_seq(order@)),
{
    let ghost ks = key_seq(keys@);
    let mut order: Vec<usize> = Vec::new();
    let mut i: usize = 0;
    assert(index_seq(order@) =~= stable_order(ks, 0));
    while i < keys.len()
        invariant
            i <= keys.len(),
            ks == key_seq(keys@),
            order.len() == i,
            forall|k: int| 0 <= k < order.len() ==> #[trigger] order[k] < i,
            index_seq(order@) == stable_order(ks, i as nat),
        decreases keys.len() - i,
    {
        let ghost before = index_seq(order@);
        let ghost key = ks[i as int];
        let mut p: usize = order.len();
        let mut placed: bool = false;
        assert(before.take(p as int) =~= before);
        while p > 0 && !placed
            invariant
                p <= order.len(),
                i < keys.len(),
                ks == key_seq(keys@),
                key == ks[i as int],
                before == index_seq(order@),
                forall|k: int| 0 <= k < order.len() ==> #[trigger] order[k] < i,
                slot(ks, before, key) == slot(ks, before.take(p as int), key),
                placed ==> p > 0 && !bytes_lt(key, ks[before[p - 1]]),
            decreases p + (if placed { 0int } else { 1int }),
        {
            let j: usize = order[p - 1];
            assert(before.take(p as int).last() == before[p - 1]);
            assert(before[p - 1] == j as int);
            if bytes_less(&keys[i], &keys[j]) {
                assert(before.take(p as int).drop_last() =~= before.take(p - 1));
                p = p - 1;
            } else {
                placed = true;
            }
        }
        proof {
            if placed {
                assert(before.take(p as int).last() == before[p - 1]);
            }
            assert(slot(ks, before, key) == p);
        }
        order.insert(p, i);
        proof {
            assert(index_seq(order@) =~= before.insert(p as int, i as int));
        }
        i = i + 1;
    }
    proof {
        lemma_stable_order_is_display_order(ks, keys.len() as nat);
    }
    order
}

} // verus!
