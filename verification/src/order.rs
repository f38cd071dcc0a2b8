//! Stable descending order of a list of scores: which position each entry
//! takes when the list is arranged from the highest score to the lowest, with
//! entries of equal score kept in the order in which they came.

use vstd::prelude::*;

verus! {

/// Whether entry `i` stands before entry `j` in the descending order: it has
/// the higher score, or the same score and came first.
pub open spec fn goes_before(keys: Seq<i64>, i: int, j: int) -> bool {
    keys[i] > keys[j] || (keys[i] == keys[j] && i < j)
}

/// `order` with the entry `i` put in behind every entry whose score is at
/// least that of `i`.
pub open spec fn insert_entry(keys: Seq<i64>, order: Seq<int>, i: int) -> Seq<int>
    decreases order.len(),
{
    if order.len() == 0 {
        seq![i]
    } else if keys[order.last()] >= keys[i] {
        order.push(i)
    } else {
        insert_entry(keys, order.drop_last(), i).push(order.last())
    }
}

/// The order of the first `n` entries of `keys`: entry numbers, highest score first.
pub open spec fn order_of_prefix(keys: Seq<i64>, n: nat) -> Seq<int>
    decreases n,
{
    if n == 0 {
        Seq::empty()
    } else {
        insert_entry(keys, order_of_prefix(keys, (n - 1) as nat), n - 1)
    }
}

/// The stable descending order of `keys`: the entry numbers `0..keys.len()`
/// arranged so that scores fall and equal scores keep the order in which they came.
pub open spec fn descending_order(keys: Seq<i64>) -> Seq<int> {
    order_of_prefix(keys, keys.len())
}

/// The scores of a list of names with scores.
pub open spec fn scores_of(items: Seq<(Seq<char>, i64)>) -> Seq<i64> {
    items.map_values(|e: (Seq<char>, i64)| e.1)
}

/// The entries of `items` in stable descending order of score.
pub open spec fn by_score_descending(items: Seq<(Seq<char>, i64)>) -> Seq<(Seq<char>, i64)> {
    let order = descending_order(scores_of(items));
    Seq::new(items.len(), |p: int| items[order[p]])
}

/// The texts and scores of a list of names with scores.
pub open spec fn pair_views(pairs: Seq<(String, i64)>) -> Seq<(Seq<char>, i64)> {
    pairs.map_values(|e: (String, i64)| (e.0@, e.1))
}

/// Whether `order` lists each of the first `n` entries of `keys` once, from
/// the highest score down, ties in the order in which they came.
pub open spec fn is_descending_order(keys: Seq<i64>, n: nat, order: Seq<int>) -> bool {
    &&& order.len() == n
    &&& forall|p: int| 0 <= p < order.len() ==> 0 <= #[trigger] order[p] < n
    &&& forall|p: int, q: int|
        0 <= p < q < order.len() ==> goes_before(keys, #[trigger] order[p], #[trigger] order[q])
    &&& forall|i: int| 0 <= i < n ==> #[trigger] order.contains(i)
}

/// Putting an entry in keeps the list in descending order.
proof fn lemma_insert_entry_keeps_order(keys: Seq<i64>, n: nat, order: Seq<int>)
    requires
        n < keys.len(),
        is_descending_order(keys, n, order),
    ensures
        is_descending_order(keys, n + 1, insert_entry(keys, order, n as int)),
    decreases order.len(),
{
    let out = insert_entry(keys, order, n as int);
    lemma_insert_entry_shape(keys, order, n as int);
    let at = insert_position(keys, order, n as int);
    assert(out == order.insert(at, n as int));
    assert forall|p: int| 0 <= p < out.len() implies 0 <= #[trigger] out[p] < n + 1 by {
        if p < at {
            assert(out[p] == order[p]);
        } else if p > at {
            assert(out[p] == order[p - 1]);
        }
    }
    assert forall|p: int, q: int| 0 <= p < q < out.len() implies goes_before(
        keys,
        #[trigger] out[p],
        #[trigger] out[q],
    ) by {
        if q < at {
            assert(out[p] == order[p] && out[q] == order[q]);
        } else if q == at {
            assert(out[p] == order[p]);
            assert(out[q] == n);
            if p < at - 1 {
                assert(goes_before(keys, order[p], order[at - 1]));
            }
            assert(keys[order[at - 1]] >= keys[n as int]);
        } else if p < at {
            assert(out[p] == order[p] && out[q] == order[q - 1]);
            if p < q - 1 {
                assert(goes_before(keys, order[p], order[q - 1]));
            }
        } else if p == at {
            assert(out[q] == order[q - 1]);
            assert(keys[order[q - 1]] < keys[n as int]);
        } else {
            assert(out[p] == order[p - 1] && out[q] == order[q - 1]);
        }
    }
    assert forall|i: int| 0 <= i < n + 1 implies #[trigger] out.contains(i) by {
        if i == n {
            assert(out[at] == i);
        } else {
            assert(order.contains(i));
            let p = choose|p: int| 0 <= p < order.len() && order[p] == i;
            if p < at {
                assert(out[p] == i);
            } else {
                assert(out[p + 1] == i);
            }
        }
    }
}

/// Where `insert_entry` puts the new entry: behind the last entry whose score
/// is at least that of `i`.
pub open spec fn insert_position(keys: Seq<i64>, order: Seq<int>, i: int) -> int
    decreases order.len(),
{
    if order.len() == 0 {
        0
    } else if keys[order.last()] >= keys[i] {
        order.len() as int
    } else {
        insert_position(keys, order.drop_last(), i)
    }
}

/// `insert_entry` is an insertion at `insert_position`; every entry from
/// there on has a lower score, and the entry before it has not.
proof fn lemma_insert_entry_shape(keys: Seq<i64>, order: Seq<int>, i: int)
    ensures
        0 <= insert_position(keys, order, i) <= order.len(),
        insert_entry(keys, order, i) == order.insert(insert_position(keys, order, i), i),
        forall|p: int|
            insert_position(keys, order, i) <= p < order.len() ==> keys[#[trigger] order[p]]
                < keys[i],
        insert_position(keys, order, i) > 0 ==> keys[order[insert_position(keys, order, i) - 1]]
            >= keys[i],
    decreases order.len(),
{
    if order.len() == 0 {
        assert(seq![i] =~= order.insert(0, i));
    } else if keys[order.last()] >= keys[i] {
        assert(order.push(i) =~= order.insert(order.len() as int, i));
    } else {
        let rest = order.drop_last();
        lemma_insert_entry_shape(keys, rest, i);
        let at = insert_position(keys, rest, i);
        assert(rest.insert(at, i).push(order.last()) =~= order.insert(at, i));
        assert forall|p: int| at <= p < order.len() implies keys[#[trigger] order[p]]
            < keys[i] by {
            if p < rest.len() {
                assert(order[p] == rest[p]);
            }
        }
        if at > 0 {
            assert(rest[at - 1] == order[at - 1]);
        }
    }
}

/// The order of a prefix lists each of its entries once, scores falling,
/// ties in the order in which they came.
pub proof fn lemma_order_of_prefix(keys: Seq<i64>, n: nat)
    requires
        n <= keys.len(),
    ensures
        is_descending_order(keys, n, order_of_prefix(keys, n)),
    decreases n,
{
    if n > 0 {
        lemma_order_of_prefix(keys, (n - 1) as nat);
        lemma_insert_entry_keeps_order(keys, (n - 1) as nat, order_of_prefix(keys, (n - 1) as nat));
    }
}

/// The descending order is a rearrangement of all entry numbers in which
/// scores never rise and entries of equal score keep the order in which they came.
pub proof fn lemma_descending_order(keys: Seq<i64>)
    ensures
        is_descending_order(keys, keys.len(), descending_order(keys)),
{
    lemma_order_of_prefix(keys, keys.len());
}

/// A ranking by score holds every entry once, its scores never rise from one
/// place to the next, and entries of equal score stand in the order in
/// which they came.
pub proof fn lemma_by_score_descending(items: Seq<(Seq<char>, i64)>)
    ensures
        by_score_descending(items).len() == items.len(),
        by_score_descending(items).to_multiset() == items.to_multiset(),
        forall|p: int, q: int|
            0 <= p < q < items.len() ==> by_score_descending(items)[p].1 >= by_score_descending(
                items,
            )[q].1,
        forall|p: int, q: int|
            0 <= p < q < items.len() && by_score_descending(items)[p].1 == by_score_descending(
                items,
            )[q].1 ==> descending_order(scores_of(items))[p] < descending_order(
                scores_of(items),
            )[q],
{
    let keys = scores_of(items);
    let order = descending_order(keys);
    let ranked = by_score_descending(items);
    lemma_descending_order(keys);
    assert forall|p: int, q: int| 0 <= p < q < items.len() implies ranked[p].1
        >= ranked[q].1 by {
        assert(goes_before(keys, order[p], order[q]));
    }
    assert forall|p: int, q: int|
        0 <= p < q < items.len() && ranked[p].1 == ranked[q].1 implies order[p] < order[q] by {
        assert(goes_before(keys, order[p], order[q]));
    }
    lemma_arranged_multiset(items, order);
}

/// Arranging a list by a sequence that names each of its places once keeps
/// what the list holds.
proof fn lemma_arranged_multiset(items: Seq<(Seq<char>, i64)>, order: Seq<int>)
    requires
        order.len() == items.len(),
        forall|p: int| 0 <= p < order.len() ==> 0 <= #[trigger] order[p] < items.len(),
        forall|p: int, q: int|
            0 <= p < q < order.len() ==> #[trigger] order[p] != #[trigger] order[q],
        forall|i: int| 0 <= i < items.len() ==> #[trigger] order.contains(i),
    ensures
        Seq::new(items.len(), |p: int| items[order[p]]).to_multiset() == items.to_multiset(),
    decreases items.len(),
{
    let ranked = Seq::new(items.len(), |p: int| items[order[p]]);
    if items.len() == 0 {
        assert(ranked =~= items);
    } else {
        // Take the last entry of `items` out of both lists.
        let last = items.len() - 1;
        assert(order.contains(last));
        let at = choose|at: int| 0 <= at < order.len() && order[at] == last;
        let rest_order = order.remove(at);
        let rest_items = items.drop_last();
        assert forall|p: int| 0 <= p < rest_order.len() implies 0 <= #[trigger] rest_order[p]
            < rest_items.len() by {
            if p < at {
                assert(rest_order[p] == order[p]);
                assert(order[p] != order[at]);
            } else {
                assert(rest_order[p] == order[p + 1]);
                assert(order[at] != order[p + 1]);
            }
        }
        assert forall|p: int, q: int| 0 <= p < q < rest_order.len() implies #[trigger] rest_order[p]
            != #[trigger] rest_order[q] by {
            let pp = if p < at {
                p
            } else {
                p + 1
            };
            let qq = if q < at {
                q
            } else {
                q + 1
            };
            assert(rest_order[p] == order[pp] && rest_order[q] == order[qq]);
            assert(order[pp] != order[qq]);
        }
        assert forall|i: int| 0 <= i < rest_items.len() implies #[trigger] rest_order.contains(
            i,
        ) by {
            assert(order.contains(i));
            let p = choose|p: int| 0 <= p < order.len() && order[p] == i;
            if p < at {
                assert(rest_order[p] == i);
            } else {
                assert(p != at);
                assert(rest_order[p - 1] == i);
            }
        }
        lemma_arranged_multiset(rest_items, rest_order);
        let rest_ranked = Seq::new(rest_items.len(), |p: int| rest_items[rest_order[p]]);
        assert(rest_ranked =~= ranked.remove(at)) by {
            assert forall|p: int| 0 <= p < rest_ranked.len() implies rest_ranked[p]
                == ranked.remove(at)[p] by {
                if p < at {
                    assert(rest_order[p] == order[p]);
                } else {
                    assert(rest_order[p] == order[p + 1]);
                }
            }
        }
        assert(ranked[at] == items.last());
        broadcast use vstd::multiset::group_multiset_axioms;

        vstd::seq_lib::to_multiset_remove(ranked, at);
        ranked.to_multiset_ensures();
        rest_items.to_multiset_ensures();
        assert(ranked.contains(ranked[at]));
        assert(items =~= rest_items.push(items.last()));
        assert(ranked.to_multiset() =~= ranked.remove(at).to_multiset().insert(ranked[at]));
        assert(ranked.to_multiset() =~= items.to_multiset());
    }
}

/// Computes the stable descending order of `keys`.
pub fn sort_descending(keys: &Vec<i64>) -> (order: Vec<usize>)
    ensures
        order@.len() == keys@.len(),
        forall|p: int| 0 <= p < order@.len() ==> #[trigger] order@[p] as int == descending_order(
            keys@,
        )[p],
        forall|p: int| 0 <= p < order@.len() ==> #[trigger] order@[p] < keys@.len(),
{
    let mut order: Vec<usize> = Vec::new();
    let mut n: usize = 0;
    while n < keys.len()
        invariant
            n <= keys@.len(),
            order@.len() == n,
            order@.map_values(|e: usize| e as int) == order_of_prefix(keys@, n as nat),
            forall|p: int| 0 <= p < order@.len() ==> #[trigger] order@[p] < n,
        decreases keys@.len() - n,
    {
        let ghost before = order@.map_values(|e: usize| e as int);
        let mut at: usize = order.len();
        proof {
            assert(before.subrange(0, at as int) =~= before);
            assert(insert_entry(keys@, before, n as int) + before.subrange(
                at as int,
                before.len() as int,
            ) =~= insert_entry(keys@, before, n as int));
        }
        while at > 0 && keys[order[at - 1]] < keys[n]
            invariant
                at <= order@.len(),
                n < keys@.len(),
                order@.len() == n,
                before == order@.map_values(|e: usize| e as int),
                forall|p: int| 0 <= p < order@.len() ==> #[trigger] order@[p] < n,
                insert_entry(keys@, before, n as int) == insert_entry(
                    keys@,
                    before.subrange(0, at as int),
                    n as int,
                ) + before.subrange(at as int, before.len() as int),
            decreases at,
        {
            proof {
                let head = before.subrange(0, at as int);
                assert(head.last() == before[at - 1]);
                assert(before[at - 1] == order@[at - 1] as int);
                assert(head.drop_last() =~= before.subrange(0, at - 1));
                assert(insert_entry(keys@, head, n as int) == insert_entry(
                    keys@,
                    head.drop_last(),
                    n as int,
                ).push(head.last()));
                assert(seq![head.last()] + before.subrange(at as int, before.len() as int)
                    =~= before.subrange(at - 1, before.len() as int));
                assert(insert_entry(keys@, head.drop_last(), n as int).push(head.last())
                    + before.subrange(at as int, before.len() as int) =~= insert_entry(
                    keys@,
                    head.drop_last(),
                    n as int,
                ) + before.subrange(at - 1, before.len() as int));
            }
            at -= 1;
        }
        proof {
            let head = before.subrange(0, at as int);
            if at > 0 {
                assert(head.last() == before[at - 1]);
                assert(before[at - 1] == order@[at - 1] as int);
                assert(insert_entry(keys@, head, n as int) == head.push(n as int));
            } else {
                assert(insert_entry(keys@, head, n as int) =~= head.push(n as int));
            }
            assert(head.push(n as int) + before.subrange(at as int, before.len() as int)
                =~= before.insert(at as int, n as int));
            assert(order@.insert(at as int, n).map_values(|e: usize| e as int) =~= before.insert(
                at as int,
                n as int,
            ));
        }
        order.insert(at, n);
        n += 1;
    }
    proof {
        assert forall|p: int| 0 <= p < order@.len() implies #[trigger] order@[p] as int
            == descending_order(keys@)[p] by {
            assert(order@.map_values(|e: usize| e as int)[p] == order@[p] as int);
        }
    }
    order
}

/// Arranges names with scores from the highest score to the lowest, names
/// of equal score in the order in which they came.
pub fn sort_pairs_descending(pairs: &Vec<(String, i64)>) -> (sorted: Vec<(String, i64)>)
    ensures
        pair_views(sorted@) == by_score_descending(pair_views(pairs@)),
{
    let mut keys: Vec<i64> = Vec::new();
    let mut i: usize = 0;
    while i < pairs.len()
        invariant
            i <= pairs@.len(),
            keys@.len() == i,
            forall|q: int| 0 <= q < i ==> #[trigger] keys@[q] == pairs@[q].1,
        decreases pairs@.len() - i,
    {
        keys.push(pairs[i].1);
        i += 1;
    }
    proof {
        assert(keys@ =~= scores_of(pair_views(pairs@)));
    }
    let order = sort_descending(&keys);
    let mut sorted: Vec<(String, i64)> = Vec::new();
    let mut p: usize = 0;
    while p < order.len()
        invariant
            p <= order@.len(),
            order@.len() == pairs@.len(),
            forall|q: int| 0 <= q < order@.len() ==> #[trigger] order@[q] < pairs@.len(),
            sorted@.len() == p,
            forall|q: int|
                0 <= q < p ==> (#[trigger] sorted@[q]).0@ == pairs@[order@[q] as int].0@
                    && sorted@[q].1 == pairs@[order@[q] as int].1,
        decreases order@.len() - p,
    {
        let source = &pairs[order[p]];
        sorted.push((source.0.clone(), source.1));
        p += 1;
    }
    proof {
        let items = pair_views(pairs@);
        let target = by_score_descending(items);
        assert forall|q: int| 0 <= q < target.len() implies pair_views(sorted@)[q]
            == target[q] by {
            assert(order@[q] as int == descending_order(keys@)[q]);
        }
        assert(pair_views(sorted@) =~= target);
    }
    sorted
}

} // verus!
