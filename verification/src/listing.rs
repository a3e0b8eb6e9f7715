//! The order in which tile files are taken: by path, so that the identifiers
//! given to the tiles do not depend on how a directory happens to be listed.

use vstd::prelude::*;
use vstd::utf8::encode_utf8;
use crate::tile_file::{file_views, TileFile, TileFileView};

verus! {

/// The keys that a list of tile files is ordered by: the bytes of each path.
pub open spec fn path_keys(files: Seq<TileFileView>) -> Seq<Seq<u8>> {
    Seq::new(files.len(), |i: int| encode_utf8(files[i].path))
}

/// `a` and `b` agree on their first `k` bytes, and there `a` has ended and `b`
/// has not, or `a` has the smaller byte.
pub open spec fn first_difference(a: Seq<u8>, b: Seq<u8>, k: int) -> bool {
    &&& 0 <= k <= a.len()
    &&& k < b.len()
    &&& forall|j: int| 0 <= j < k ==> a[j] == b[j]
    &&& (k == a.len() || a[k] < b[k])
}

/// `a` comes before `b` byte by byte, as words stand in a dictionary.
pub open spec fn bytes_before(a: Seq<u8>, b: Seq<u8>) -> bool {
    exists|k: int| first_difference(a, b, k)
}

/// The file at `i` is taken before the file at `j`: its key comes first, or
/// the keys are equal and it stands first in the list.
pub open spec fn precedes(keys: Seq<Seq<u8>>, i: int, j: int) -> bool {
    bytes_before(keys[i], keys[j]) || (keys[i] == keys[j] && i < j)
}

/// `order` lists every place of `keys` once, each before all that it
/// precedes.
pub open spec fn is_sorted_order(keys: Seq<Seq<u8>>, order: Seq<usize>) -> bool {
    &&& order.len() == keys.len()
    &&& forall|p: int| 0 <= p < order.len() ==> (#[trigger] order[p]) < keys.len()
    &&& forall|i: int| 0 <= i < keys.len() ==> #[trigger] occurs(order, i)
    &&& forall|p: int, q: int|
        0 <= p < q < order.len() ==> precedes(
            keys,
            #[trigger] order[p] as int,
            #[trigger] order[q] as int,
        )
}

/// Place `i` stands at position `p` of `order`.
pub open spec fn occurs_at(order: Seq<usize>, p: int, i: int) -> bool {
    0 <= p < order.len() && order[p] == i
}

/// Place `i` stands somewhere in `order`.
pub open spec fn occurs(order: Seq<usize>, i: int) -> bool {
    exists|p: int| occurs_at(order, p, i)
}

/// The order in which the places of `keys` are taken.
pub open spec fn sorted_order(keys: Seq<Seq<u8>>) -> Seq<usize> {
    choose|order: Seq<usize>| is_sorted_order(keys, order)
}

/// A list of tile files in the order in which the files are taken.
pub open spec fn in_path_order(files: Seq<TileFileView>) -> Seq<TileFileView> {
    Seq::new(files.len(), |p: int| files[sorted_order(path_keys(files))[p] as int])
}

/// Nothing comes before itself.
pub proof fn lemma_before_irreflexive(a: Seq<u8>)
    ensures
        !bytes_before(a, a),
{
}

/// What comes before something that comes before, or is, a third, comes
/// before the third.
pub proof fn lemma_before_transitive(a: Seq<u8>, b: Seq<u8>, c: Seq<u8>)
    requires
        bytes_before(a, b),
        bytes_before(b, c) || b == c,
    ensures
        bytes_before(a, c),
{
    if b != c {
        let k1 = choose|k: int| first_difference(a, b, k);
        let k2 = choose|k: int| first_difference(b, c, k);
        if k1 <= k2 {
            assert(first_difference(a, c, k1));
        } else {
            assert(first_difference(a, c, k2));
        }
    }
}

/// Of two different places, one precedes the other, never both.
pub proof fn lemma_precedes_asymmetric(keys: Seq<Seq<u8>>, i: int, j: int)
    requires
        precedes(keys, i, j),
    ensures
        !precedes(keys, j, i),
        i != j,
{
    lemma_before_irreflexive(keys[i]);
    if bytes_before(keys[i], keys[j]) && bytes_before(keys[j], keys[i]) {
        lemma_before_transitive(keys[i], keys[j], keys[i]);
    }
}

/// Of two byte strings one comes before the other, or they are the same.
pub proof fn lemma_before_total(a: Seq<u8>, b: Seq<u8>)
    ensures
        bytes_before(a, b) || a == b || bytes_before(b, a),
{
    lemma_differ_from(a, b, 0);
}

proof fn lemma_differ_from(a: Seq<u8>, b: Seq<u8>, k: int)
    requires
        0 <= k <= a.len(),
        k <= b.len(),
        forall|j: int| 0 <= j < k ==> a[j] == b[j],
    ensures
        bytes_before(a, b) || a == b || bytes_before(b, a),
    decreases a.len() - k,
{
    if k == a.len() {
        if k == b.len() {
            assert(a =~= b);
        } else {
            assert(first_difference(a, b, k));
        }
    } else if k == b.len() {
        assert(first_difference(b, a, k));
    } else if a[k] < b[k] {
        assert(first_difference(a, b, k));
    } else if a[k] > b[k] {
        assert(first_difference(b, a, k));
    } else {
        lemma_differ_from(a, b, k + 1);
    }
}

/// An order of the first `i` places stays one when place `i` is put in
/// behind all that precede it and in front of the first that it precedes.
proof fn lemma_insert_keeps_order(keys: Seq<Seq<u8>>, before: Seq<usize>, p: int, i: int)
    requires
        0 <= i < keys.len(),
        i <= usize::MAX,
        is_sorted_order(keys.take(i), before),
        0 <= p <= before.len(),
        forall|q: int| 0 <= q < p ==> precedes(keys, #[trigger] before[q] as int, i),
        p < before.len() ==> bytes_before(keys[i], keys[before[p] as int]),
    ensures
        is_sorted_order(keys.take(i + 1), before.insert(p, i as usize)),
{
    let after = before.insert(p, i as usize);
    before.insert_ensures(p, i as usize);
    let shorter = keys.take(i);
    let longer = keys.take(i + 1);
    assert forall|j: int| 0 <= j < longer.len() implies #[trigger] occurs(after, j) by {
        if j < i {
            assert(occurs(before, j));
            let w = choose|w: int| occurs_at(before, w, j);
            if w < p {
                assert(occurs_at(after, w, j));
            } else {
                assert(after[w + 1] == before[w]);
                assert(occurs_at(after, w + 1, j));
            }
        } else {
            assert(occurs_at(after, p, j));
        }
    }
    assert forall|x: int, y: int| 0 <= x < y < after.len() implies precedes(
        longer,
        #[trigger] after[x] as int,
        #[trigger] after[y] as int,
    ) by {
        if y < p {
            assert(precedes(shorter, before[x] as int, before[y] as int));
        } else if y == p {
            assert(precedes(keys, before[x] as int, i));
        } else if x < p {
            assert(after[y] == before[y - 1]);
            assert(precedes(shorter, before[x] as int, before[y - 1] as int));
        } else if x == p {
            assert(after[y] == before[y - 1]);
            if y - 1 > p {
                assert(precedes(shorter, before[p] as int, before[y - 1] as int));
            }
            lemma_before_transitive(keys[i], keys[before[p] as int], keys[before[y - 1] as int]);
        } else {
            assert(after[x] == before[x - 1]);
            assert(after[y] == before[y - 1]);
            assert(precedes(shorter, before[x - 1] as int, before[y - 1] as int));
        }
    }
    assert forall|q: int| 0 <= q < after.len() implies (#[trigger] after[q]) < longer.len() by {
        if q < p {
            assert(after[q] == before[q]);
        } else if q > p {
            assert(after[q] == before[q - 1]);
        }
    }
}

/// Where place `i` goes into an order of the places before it.
proof fn lemma_insertion_point(keys: Seq<Seq<u8>>, before: Seq<usize>, i: int, from: int) -> (p:
    int)
    requires
        0 <= i < keys.len(),
        is_sorted_order(keys.take(i), before),
        0 <= from <= before.len(),
        forall|q: int| 0 <= q < from ==> precedes(keys, #[trigger] before[q] as int, i),
    ensures
        0 <= p <= before.len(),
        forall|q: int| 0 <= q < p ==> precedes(keys, #[trigger] before[q] as int, i),
        p < before.len() ==> bytes_before(keys[i], keys[before[p] as int]),
    decreases before.len() - from,
{
    if from == before.len() || bytes_before(keys[i], keys[before[from] as int]) {
        from
    } else {
        lemma_before_total(keys[i], keys[before[from] as int]);
        lemma_insertion_point(keys, before, i, from + 1)
    }
}

proof fn lemma_order_of_first(keys: Seq<Seq<u8>>, n: int) -> (order: Seq<usize>)
    requires
        0 <= n <= keys.len(),
        n <= usize::MAX,
    ensures
        is_sorted_order(keys.take(n), order),
    decreases n,
{
    if n == 0 {
        Seq::empty()
    } else {
        let before = lemma_order_of_first(keys, n - 1);
        let p = lemma_insertion_point(keys, before, n - 1, 0);
        lemma_insert_keeps_order(keys, before, p, n - 1);
        before.insert(p, (n - 1) as usize)
    }
}

/// Every list of keys that a machine can hold has an order in which its
/// places are taken, and [`sorted_order`] is that order.
pub proof fn lemma_sorted_order_exists(keys: Seq<Seq<u8>>)
    requires
        keys.len() <= usize::MAX,
    ensures
        is_sorted_order(keys, sorted_order(keys)),
{
    let order = lemma_order_of_first(keys, keys.len() as int);
    assert(keys.take(keys.len() as int) =~= keys);
}

/// There is one order only in which the places of `keys` are taken.
pub proof fn lemma_sorted_order_unique(keys: Seq<Seq<u8>>, first: Seq<usize>, second: Seq<usize>)
    requires
        is_sorted_order(keys, first),
        is_sorted_order(keys, second),
    ensures
        first == second,
        first == sorted_order(keys),
{
    lemma_orders_agree(keys, first, second, keys.len() as int);
    assert(first =~= second);
    let chosen = sorted_order(keys);
    lemma_orders_agree(keys, first, chosen, keys.len() as int);
    assert(first =~= chosen);
}

proof fn lemma_orders_agree(keys: Seq<Seq<u8>>, first: Seq<usize>, second: Seq<usize>, n: int)
    requires
        is_sorted_order(keys, first),
        is_sorted_order(keys, second),
        0 <= n <= keys.len(),
    ensures
        forall|p: int| 0 <= p < n ==> first[p] == second[p],
    decreases n,
{
    if n > 0 {
        lemma_orders_agree(keys, first, second, n - 1);
        let p = n - 1;
        assert(occurs(second, first[p] as int));
        assert(occurs(first, second[p] as int));
        let r = choose|r: int| occurs_at(second, r, first[p] as int);
        let s = choose|s: int| occurs_at(first, s, second[p] as int);
        if r < p {
            assert(first[r] == second[r]);
            lemma_precedes_asymmetric(keys, first[r] as int, first[p] as int);
        } else if s < p {
            assert(first[s] == second[s]);
            lemma_precedes_asymmetric(keys, second[s] as int, second[p] as int);
        } else if r > p {
            assert(precedes(keys, second[p] as int, second[r] as int));
            if s > p {
                assert(precedes(keys, first[p] as int, first[s] as int));
            }
            lemma_precedes_asymmetric(keys, second[p] as int, first[p] as int);
        }
    }
}

/// How one byte string stands to another.
#[derive(Clone, Copy, Debug, PartialEq, Eq, Structural)]
pub enum Rank {
    Before,
    Same,
    After,
}

/// Tells how `a` stands to `b`, byte by byte.
pub fn compare_bytes(a: &[u8], b: &[u8]) -> (rank: Rank)
    ensures
        match rank {
            Rank::Before => bytes_before(a@, b@),
            Rank::Same => a@ == b@,
            Rank::After => bytes_before(b@, a@),
        },
{
    let mut k: usize = 0;
    while k < a.len() && k < b.len()
        invariant
            k <= a@.len(),
            k <= b@.len(),
            forall|j: int| 0 <= j < k ==> a@[j] == b@[j],
        decreases a@.len() - k,
    {
        if a[k] < b[k] {
            assert(first_difference(a@, b@, k as int));
            return Rank::Before;
        }
        if a[k] > b[k] {
            assert(first_difference(b@, a@, k as int));
            return Rank::After;
        }
        k += 1;
    }
    if k < b.len() {
        assert(first_difference(a@, b@, k as int));
        Rank::Before
    } else if k < a.len() {
        assert(first_difference(b@, a@, k as int));
        Rank::After
    } else {
        assert(a@ =~= b@);
        Rank::Same
    }
}

/// The order in which the files are taken: by the bytes of their paths, and
/// files of one path in the order of the list.
pub fn path_order(files: &Vec<TileFile>) -> (order: Vec<usize>)
    ensures
        is_sorted_order(path_keys(file_views(files@)), order@),
        order@ == sorted_order(path_keys(file_views(files@))),
{
    let ghost keys = path_keys(file_views(files@));
    let mut order: Vec<usize> = Vec::new();
    let mut i: usize = 0;
    while i < files.len()
        invariant
            i <= files@.len(),
            keys == path_keys(file_views(files@)),
            is_sorted_order(keys.take(i as int), order@),
        decreases files@.len() - i,
    {
        let key = files[i].path.as_str().as_bytes();
        assert(key@ == keys[i as int]);
        let mut p: usize = 0;
        let mut found = false;
        while !found && p < order.len()
            invariant
                i < files@.len(),
                keys == path_keys(file_views(files@)),
                is_sorted_order(keys.take(i as int), order@),
                key@ == keys[i as int],
                p <= order@.len(),
                forall|q: int| 0 <= q < p ==> precedes(keys, #[trigger] order@[q] as int, i as int),
                found ==> p < order@.len() && bytes_before(key@, keys[order@[p as int] as int]),
            decreases order@.len() - p + if found { 0int } else { 1int },
        {
            let other = files[order[p]].path.as_str().as_bytes();
            assert(other@ == keys[order@[p as int] as int]);
            match compare_bytes(key, other) {
                Rank::Before => {
                    found = true;
                },
                _ => {
                    p += 1;
                },
            }
        }
        let ghost before = order@;
        order.insert(p, i);
        proof {
            lemma_insert_keeps_order(keys, before, p as int, i as int);
        }
        i += 1;
    }
    proof {
        assert(keys.take(i as int) =~= keys);
        lemma_sorted_order_unique(keys, order@, order@);
    }
    order
}

} // verus!
