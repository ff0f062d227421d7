//! Stable ordering of items by an integer key.

use vstd::prelude::*;
use vstd::seq_lib::*;

verus! {

/// The predicate that holds of the entries whose key is `key`.
pub open spec fn has_key<T>(key: u32) -> spec_fn((u32, T)) -> bool {
    |entry: (u32, T)| entry.0 == key
}

/// True when the keys of `entries` never decrease.
pub open spec fn ascending<T>(entries: Seq<(u32, T)>) -> bool {
    forall|i: int, j: int| 0 <= i < j < entries.len() ==> entries[i].0 <= entries[j].0
}

/// The entries of `entries` whose key is `key`, in the order in which they stand.
pub open spec fn keyed<T>(entries: Seq<(u32, T)>, key: u32) -> Seq<(u32, T)> {
    entries.filter(has_key::<T>(key))
}

/// True when `output` is `input` sorted by key, entries of equal key keeping
/// the order in which they stand in `input`.
pub open spec fn is_stable_sort<T>(input: Seq<(u32, T)>, output: Seq<(u32, T)>) -> bool {
    &&& ascending(output)
    &&& forall|key: u32| #[trigger] keyed(output, key) == keyed(input, key)
}

/// Putting an entry before entries of greater keys only: the entries that
/// share its key gain it at their end, and the others do not change.
proof fn lemma_keyed_insert<T>(entries: Seq<(u32, T)>, at: int, entry: (u32, T), key: u32)
    requires
        0 <= at <= entries.len(),
        forall|k: int| at <= k < entries.len() ==> entries[k].0 > entry.0,
    ensures
        keyed(entries.insert(at, entry), key) == if key == entry.0 {
            keyed(entries, key).push(entry)
        } else {
            keyed(entries, key)
        },
{
    let pred = has_key::<T>(key);
    let front = entries.subrange(0, at);
    let back = entries.subrange(at, entries.len() as int);
    let one = seq![entry];
    assert(entries =~= front + back);
    assert(entries.insert(at, entry) =~= (front + one) + back);
    Seq::filter_distributes_over_add(front, back, pred);
    Seq::filter_distributes_over_add(front + one, back, pred);
    Seq::filter_distributes_over_add(front, one, pred);
    assert(one =~= Seq::<(u32, T)>::empty().push(entry));
    Seq::<(u32, T)>::empty().lemma_filter_push(entry, pred);
    assert(Seq::<(u32, T)>::empty().filter(pred) =~= Seq::<(u32, T)>::empty()) by {
        reveal(Seq::filter);
    }
    if key == entry.0 {
        assert(back.all(|x: (u32, T)| !pred(x)));
        back.lemma_all_neg_filter_empty(pred);
        assert(back.filter(pred) =~= Seq::<(u32, T)>::empty());
        assert(keyed(entries.insert(at, entry), key) =~= keyed(entries, key).push(entry));
    } else {
        assert(keyed(entries.insert(at, entry), key) =~= keyed(entries, key));
    }
}

/// An entry that stands in `entries` stands among the entries of its key.
proof fn lemma_keyed_holds<T>(entries: Seq<(u32, T)>, at: int)
    requires
        0 <= at < entries.len(),
    ensures
        keyed(entries, entries[at].0).contains(entries[at]),
{
    let pred = has_key::<T>(entries[at].0);
    assert(pred(entries[at]));
    entries.lemma_filter_contains(pred, at);
}

/// What stands among the entries of a key stands in `entries` and has that key.
proof fn lemma_keyed_from<T>(entries: Seq<(u32, T)>, key: u32, entry: (u32, T))
    requires
        keyed(entries, key).contains(entry),
    ensures
        entries.contains(entry),
        entry.0 == key,
{
    let pred = has_key::<T>(key);
    entries.lemma_filter_contains_rev(pred, entry);
    let at = choose|i: int| 0 <= i < keyed(entries, key).len() && keyed(entries, key)[i] == entry;
    entries.lemma_filter_pred(pred, at);
}

/// Two sequences that are sorted by key, and in which the entries of each key
/// are the same and in the same order, are equal.
pub proof fn lemma_sorted_agree<T>(x: Seq<(u32, T)>, y: Seq<(u32, T)>)
    requires
        ascending(x),
        ascending(y),
        forall|key: u32| #[trigger] keyed(x, key) == keyed(y, key),
    ensures
        x == y,
    decreases x.len() + y.len(),
{
    if x.len() == 0 && y.len() == 0 {
        assert(x =~= y);
    } else if x.len() == 0 {
        lemma_keyed_holds(y, 0);
        assert(keyed(x, y[0].0) == keyed(y, y[0].0));
        lemma_keyed_from(x, y[0].0, y[0]);
    } else if y.len() == 0 {
        lemma_keyed_holds(x, 0);
        assert(keyed(x, x[0].0) == keyed(y, x[0].0));
        lemma_keyed_from(y, x[0].0, x[0]);
    } else {
        let xl = x.last();
        let yl = y.last();
        let xs = x.drop_last();
        let ys = y.drop_last();
        assert(x =~= xs.push(xl));
        assert(y =~= ys.push(yl));
        // The greatest key is the same on both sides.
        lemma_keyed_holds(x, x.len() - 1);
        assert(keyed(x, xl.0) == keyed(y, xl.0));
        lemma_keyed_from(y, xl.0, xl);
        lemma_keyed_holds(y, y.len() - 1);
        assert(keyed(x, yl.0) == keyed(y, yl.0));
        lemma_keyed_from(x, yl.0, yl);
        let i = choose|i: int| 0 <= i < y.len() && y[i] == xl;
        let j = choose|j: int| 0 <= j < x.len() && x[j] == yl;
        assert(y[i].0 <= yl.0);
        assert(x[j].0 <= xl.0);
        assert(xl.0 == yl.0);
        assert forall|key: u32| #[trigger] keyed(xs, key) == keyed(ys, key) by {
            xs.lemma_filter_push(xl, has_key::<T>(key));
            ys.lemma_filter_push(yl, has_key::<T>(key));
            assert(keyed(x, key) == keyed(y, key));
            if key == xl.0 {
                assert(keyed(xs, key) =~= keyed(x, key).drop_last());
                assert(keyed(ys, key) =~= keyed(y, key).drop_last());
            }
        }
        xs.lemma_filter_push(xl, has_key::<T>(xl.0));
        ys.lemma_filter_push(yl, has_key::<T>(xl.0));
        assert(keyed(x, xl.0).last() == xl);
        assert(keyed(y, xl.0).last() == yl);
        lemma_sorted_agree(xs, ys);
        assert(x =~= y);
    }
}

/// Entries of distinct keys are sorted into the same sequence in whatever
/// order they arrive.
pub proof fn sort_of_distinct_ignores_arrival<T>(
    first: Seq<(u32, T)>,
    second: Seq<(u32, T)>,
    sorted_first: Seq<(u32, T)>,
    sorted_second: Seq<(u32, T)>,
)
    requires
        is_stable_sort(first, sorted_first),
        is_stable_sort(second, sorted_second),
        distinct_keys(first),
        first.to_multiset() == second.to_multiset(),
    ensures
        sorted_first == sorted_second,
{
    lemma_distinct_arrivals_agree(first, second);
    sort_ignores_arrival(first, second, sorted_first, sorted_second);
}

/// The order of the sorted entries does not depend on the order in which the
/// entries arrive, as long as entries of equal key arrive in the same order:
/// two arrivals that hold, for each key, the same entries in the same order
/// are sorted into the same sequence.
pub proof fn sort_ignores_arrival<T>(
    first: Seq<(u32, T)>,
    second: Seq<(u32, T)>,
    sorted_first: Seq<(u32, T)>,
    sorted_second: Seq<(u32, T)>,
)
    requires
        is_stable_sort(first, sorted_first),
        is_stable_sort(second, sorted_second),
        forall|key: u32| #[trigger] keyed(first, key) == keyed(second, key),
    ensures
        sorted_first == sorted_second,
{
    assert forall|key: u32| #[trigger] keyed(sorted_first, key) == keyed(sorted_second, key) by {
        assert(keyed(sorted_first, key) == keyed(first, key));
        assert(keyed(sorted_second, key) == keyed(second, key));
        assert(keyed(first, key) == keyed(second, key));
    }
    lemma_sorted_agree(sorted_first, sorted_second);
}

/// True when no two entries of `entries` have the same key.
pub open spec fn distinct_keys<T>(entries: Seq<(u32, T)>) -> bool {
    forall|i: int, j: int|
        0 <= i < entries.len() && 0 <= j < entries.len() && i != j ==> entries[i].0
            != entries[j].0
}

/// Among entries of distinct keys a key picks the one entry that has it, or none.
proof fn lemma_keyed_of_distinct<T>(entries: Seq<(u32, T)>, key: u32)
    requires
        distinct_keys(entries),
    ensures
        (forall|i: int| 0 <= i < entries.len() ==> entries[i].0 != key) ==> keyed(entries, key)
            == Seq::<(u32, T)>::empty(),
        forall|i: int|
            0 <= i < entries.len() && entries[i].0 == key ==> keyed(entries, key)
                == seq![entries[i]],
    decreases entries.len(),
{
    let pred = has_key::<T>(key);
    if entries.len() == 0 {
        assert(keyed(entries, key) =~= Seq::<(u32, T)>::empty()) by {
            reveal(Seq::filter);
        }
    } else {
        let rest = entries.drop_last();
        let last = entries.last();
        assert(entries =~= rest.push(last));
        rest.lemma_filter_push(last, pred);
        assert(distinct_keys(rest)) by {
            assert forall|i: int, j: int|
                0 <= i < rest.len() && 0 <= j < rest.len() && i != j implies rest[i].0
                != rest[j].0 by {
                assert(rest[i] == entries[i] && rest[j] == entries[j]);
            }
        }
        lemma_keyed_of_distinct(rest, key);
        if last.0 == key {
            assert forall|i: int| 0 <= i < rest.len() implies rest[i].0 != key by {
                assert(rest[i] == entries[i]);
            }
            assert(keyed(entries, key) =~= seq![last]);
            assert forall|i: int| 0 <= i < entries.len() && entries[i].0 == key implies keyed(
                entries,
                key,
            ) == seq![entries[i]] by {
                assert(i == entries.len() - 1);
            }
        } else {
            assert forall|i: int| 0 <= i < entries.len() && entries[i].0 == key implies keyed(
                entries,
                key,
            ) == seq![entries[i]] by {
                assert(rest[i] == entries[i]);
            }
            if forall|i: int| 0 <= i < entries.len() ==> entries[i].0 != key {
                assert forall|i: int| 0 <= i < rest.len() implies rest[i].0 != key by {
                    assert(rest[i] == entries[i]);
                }
            }
        }
    }
}

/// Entries of distinct keys, in whatever order they arrive, hold for each
/// key the same entries in the same order: at most one.
pub proof fn lemma_distinct_arrivals_agree<T>(first: Seq<(u32, T)>, second: Seq<(u32, T)>)
    requires
        distinct_keys(first),
        first.to_multiset() == second.to_multiset(),
    ensures
        distinct_keys(second),
        forall|key: u32| #[trigger] keyed(first, key) == keyed(second, key),
{
    broadcast use group_to_multiset_ensures;

    assert(first.no_duplicates());
    first.lemma_multiset_has_no_duplicates();
    second.lemma_multiset_has_no_duplicates_conv();
    assert forall|i: int, j: int|
        0 <= i < second.len() && 0 <= j < second.len() && i != j implies second[i].0
        != second[j].0 by {
        assert(second.to_multiset().count(second[i]) > 0);
        assert(second.to_multiset().count(second[j]) > 0);
        assert(first.contains(second[i]));
        assert(first.contains(second[j]));
        let p = choose|p: int| 0 <= p < first.len() && first[p] == second[i];
        let q = choose|q: int| 0 <= q < first.len() && first[q] == second[j];
        assert(second[i] != second[j]);
        assert(p != q);
    }
    assert forall|key: u32| #[trigger] keyed(first, key) == keyed(second, key) by {
        lemma_keyed_of_distinct(first, key);
        lemma_keyed_of_distinct(second, key);
        if exists|i: int| 0 <= i < first.len() && first[i].0 == key {
            let i = choose|i: int| 0 <= i < first.len() && first[i].0 == key;
            assert(first.to_multiset().count(first[i]) > 0);
            assert(second.contains(first[i]));
            let j = choose|j: int| 0 <= j < second.len() && second[j] == first[i];
            assert(second[j].0 == key);
        } else {
            assert forall|j: int| 0 <= j < second.len() implies second[j].0 != key by {
                assert(second.to_multiset().count(second[j]) > 0);
                assert(first.contains(second[j]));
                let p = choose|p: int| 0 <= p < first.len() && first[p] == second[j];
                assert(first[p].0 != key);
            }
        }
    }
}

/// `entries` with `f` applied to the item of each entry; the keys stay.
pub open spec fn map_items<T, U>(entries: Seq<(u32, T)>, f: spec_fn(T) -> U) -> Seq<(u32, U)> {
    entries.map_values(|entry: (u32, T)| (entry.0, f(entry.1)))
}

/// Applying a function to the items and picking the entries of a key can be
/// done in either order.
pub proof fn lemma_keyed_map<T, U>(entries: Seq<(u32, T)>, f: spec_fn(T) -> U, key: u32)
    ensures
        keyed(map_items(entries, f), key) == map_items(keyed(entries, key), f),
    decreases entries.len(),
{
    if entries.len() == 0 {
        assert(keyed(entries, key) =~= Seq::<(u32, T)>::empty()) by {
            reveal(Seq::filter);
        }
        assert(map_items(entries, f) =~= Seq::<(u32, U)>::empty());
        assert(keyed(map_items(entries, f), key) =~= Seq::<(u32, U)>::empty()) by {
            reveal(Seq::filter);
        }
        assert(map_items(keyed(entries, key), f) =~= Seq::<(u32, U)>::empty());
    } else {
        let rest = entries.drop_last();
        let last = entries.last();
        let image = (last.0, f(last.1));
        lemma_keyed_map(rest, f, key);
        assert(entries =~= rest.push(last));
        assert(map_items(entries, f) =~= map_items(rest, f).push(image));
        rest.lemma_filter_push(last, has_key::<T>(key));
        map_items(rest, f).lemma_filter_push(image, has_key::<U>(key));
        if last.0 == key {
            let kept = keyed(rest, key);
            assert(map_items(kept.push(last), f) =~= map_items(kept, f).push(image));
        }
    }
}

/// A stable sort stays one when a function is applied to the items on both sides.
pub proof fn lemma_sort_map<T, U>(
    input: Seq<(u32, T)>,
    output: Seq<(u32, T)>,
    f: spec_fn(T) -> U,
)
    requires
        is_stable_sort(input, output),
    ensures
        is_stable_sort(map_items(input, f), map_items(output, f)),
{
    assert forall|key: u32| #[trigger]
        keyed(map_items(output, f), key) == keyed(map_items(input, f), key) by {
        lemma_keyed_map(input, f, key);
        lemma_keyed_map(output, f, key);
        assert(keyed(output, key) == keyed(input, key));
    }
}

/// Sorts `items` by key, smallest first. Items of equal key keep the order in
/// which they stand in `items`.
pub fn sort_by_key<T>(items: Vec<(u32, T)>) -> (sorted: Vec<(u32, T)>)
    ensures
        is_stable_sort(items@, sorted@),
        sorted@.len() == items@.len(),
        sorted@.to_multiset() == items@.to_multiset(),
{
    let mut sorted: Vec<(u32, T)> = Vec::new();
    let ghost input = items@;
    proof {
        assert forall|key: u32| #[trigger]
            keyed(sorted@, key) == keyed(input.take(0), key) by {
            assert(input.take(0) =~= sorted@);
        }
        assert(input.take(0) =~= sorted@);
    }
    for item in it: items
        invariant
            it.seq() == input,
            sorted@.len() == it.index(),
            ascending(sorted@),
            sorted@.to_multiset() == input.take(it.index() as int).to_multiset(),
            forall|key: u32| #[trigger]
                keyed(sorted@, key) == keyed(input.take(it.index() as int), key),
    {
        let ghost before = sorted@;
        let ghost seen = input.take(it.index() as int);
        let mut at: usize = sorted.len();
        while at > 0 && sorted[at - 1].0 > item.0
            invariant
                at <= sorted@.len(),
                forall|k: int| at <= k < sorted@.len() ==> sorted@[k].0 > item.0,
            decreases at,
        {
            at -= 1;
        }
        sorted.insert(at, item);
        proof {
            broadcast use to_multiset_insert, to_multiset_build;

            let next = input.take(it.index() + 1);
            assert(next =~= seen.push(item));
            assert forall|key: u32| #[trigger] keyed(sorted@, key) == keyed(next, key) by {
                lemma_keyed_insert(before, at as int, item, key);
                seen.lemma_filter_push(item, has_key::<T>(key));
            }
            assert(ascending(sorted@)) by {
                assert forall|i: int, j: int| 0 <= i < j < sorted@.len() implies sorted@[i].0
                    <= sorted@[j].0 by {
                    if i < at && j > at {
                        assert(before[i].0 <= before[j - 1].0 || j - 1 == i);
                    }
                }
            }
        }
    }
    assert(input.take(input.len() as int) =~= input);
    sorted
}

} // verus!
