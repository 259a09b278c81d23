//! Lists that are kept by registrable domain, as the rows that they are in a table.
use vstd::prelude::*;

verus! {

/// The members of the lists under these registrable domains, in order, each with its domain.
pub open spec fn flat<T>(order: Seq<Seq<char>>, lists: Map<Seq<char>, Seq<T>>) -> Seq<
    (Seq<char>, T),
>
    decreases order.len(),
{
    if order.len() == 0 {
        Seq::empty()
    } else {
        flat(order.drop_last(), lists) + lists[order.last()].map_values(
            |member: T| (order.last(), member),
        )
    }
}

/// Whether no two rows have the same key.
pub open spec fn has_distinct_keys<T, K>(
    rows: Seq<(Seq<char>, T)>,
    key: spec_fn((Seq<char>, T)) -> K,
) -> bool {
    forall|k: int, l: int|
        0 <= k < l < rows.len() ==> key(#[trigger] rows[k]) != key(#[trigger] rows[l])
}

/// The table that rows make, each under its key.
pub open spec fn filled<T, K, V>(
    rows: Seq<(Seq<char>, T)>,
    key: spec_fn((Seq<char>, T)) -> K,
    value: spec_fn((Seq<char>, T)) -> V,
) -> Map<K, V>
    decreases rows.len(),
{
    if rows.len() == 0 {
        Map::empty()
    } else {
        filled(rows.drop_last(), key, value).insert(key(rows.last()), value(rows.last()))
    }
}

/// The rows are exactly the members of the lists.
pub proof fn lemma_flat<T>(order: Seq<Seq<char>>, lists: Map<Seq<char>, Seq<T>>)
    ensures
        forall|k: int|
            0 <= k < flat(order, lists).len() ==> order.contains(
                (#[trigger] flat(order, lists)[k]).0,
            ) && lists[flat(order, lists)[k].0].contains(flat(order, lists)[k].1),
        forall|base: Seq<char>, member: T|
            order.contains(base) && #[trigger] lists[base].contains(member) ==> flat(
                order,
                lists,
            ).contains((base, member)),
    decreases order.len(),
{
    if order.len() > 0 {
        let rows = flat(order, lists);
        let init = order.drop_last();
        let base = order.last();
        let before = flat(init, lists);
        let list = lists[base];
        lemma_flat(init, lists);
        assert forall|k: int| 0 <= k < rows.len() implies order.contains((#[trigger] rows[k]).0)
            && lists[rows[k].0].contains(rows[k].1) by {
            if k < before.len() {
                assert(rows[k] == before[k]);
                let m = choose|m: int| 0 <= m < init.len() && init[m] == before[k].0;
                assert(order[m] == rows[k].0);
            } else {
                assert(rows[k] == (base, list[k - before.len()]));
                assert(order[order.len() - 1] == base);
            }
        }
        assert forall|other: Seq<char>, member: T|
            order.contains(other) && #[trigger] lists[other].contains(
                member,
            ) implies rows.contains((other, member)) by {
            if other == base {
                let i = choose|i: int| 0 <= i < list.len() && list[i] == member;
                assert(rows[before.len() + i] == (base, member));
            } else {
                let m = choose|m: int| 0 <= m < order.len() && order[m] == other;
                assert(init[m] == other);
                assert(before.contains((other, member)));
                let k = choose|k: int| 0 <= k < before.len() && before[k] == (other, member);
                assert(rows[k] == (other, member));
            }
        }
    }
}

/// No two rows have the same key where neither two members of one list nor members of two lists do.
pub proof fn lemma_flat_is_distinct<T, K>(
    order: Seq<Seq<char>>,
    lists: Map<Seq<char>, Seq<T>>,
    key: spec_fn((Seq<char>, T)) -> K,
)
    requires
        order.no_duplicates(),
        forall|base: Seq<char>, i: int, j: int|
            order.contains(base) && 0 <= i < j < lists[base].len() ==> key(
                (base, #[trigger] lists[base][i]),
            ) != key((base, #[trigger] lists[base][j])),
        forall|base: Seq<char>, other: Seq<char>, member: T, twin: T|
            order.contains(base) && order.contains(other) && base != other
                && #[trigger] lists[base].contains(member) && #[trigger] lists[other].contains(twin)
                ==> key((base, member)) != key((other, twin)),
    ensures
        has_distinct_keys(flat(order, lists), key),
    decreases order.len(),
{
    if order.len() > 0 {
        let rows = flat(order, lists);
        let init = order.drop_last();
        let base = order.last();
        let before = flat(init, lists);
        let list = lists[base];
        assert forall|b: Seq<char>| #[trigger] init.contains(b) implies order.contains(b)
            && b != base by {
            let m = choose|m: int| 0 <= m < init.len() && init[m] == b;
            assert(order[m] == b && order[m] != order[order.len() - 1]);
        }
        assert(order[order.len() - 1] == base);
        assert(order.contains(base));
        lemma_flat_is_distinct(init, lists, key);
        lemma_flat(init, lists);
        assert forall|k: int, l: int| 0 <= k < l < rows.len() implies key(#[trigger] rows[k])
            != key(#[trigger] rows[l]) by {
            if l < before.len() {
                assert(rows[k] == before[k] && rows[l] == before[l]);
            } else {
                let j = l - before.len();
                assert(rows[l] == (base, list[j]));
                if k < before.len() {
                    assert(rows[k] == before[k]);
                    assert(init.contains(before[k].0));
                    assert(lists[rows[k].0].contains(rows[k].1));
                    assert(lists[base].contains(list[j]));
                } else {
                    assert(rows[k] == (base, list[k - before.len()]));
                    assert(key((base, lists[base][k - before.len()])) != key(
                        (base, lists[base][j]),
                    ));
                }
            }
        }
    }
}

/// Where no two rows have the same key, the table that they make has exactly them.
pub proof fn lemma_filled<T, K, V>(
    rows: Seq<(Seq<char>, T)>,
    key: spec_fn((Seq<char>, T)) -> K,
    value: spec_fn((Seq<char>, T)) -> V,
)
    requires
        has_distinct_keys(rows, key),
    ensures
        forall|k: K| #[trigger]
            filled(rows, key, value).contains_key(k) ==> exists|i: int|
                0 <= i < rows.len() && key(#[trigger] rows[i]) == k,
        forall|i: int|
            0 <= i < rows.len() ==> filled(rows, key, value).contains_key(key(#[trigger] rows[i]))
                && filled(rows, key, value)[key(rows[i])] == value(rows[i]),
    decreases rows.len(),
{
    if rows.len() > 0 {
        let init = rows.drop_last();
        let last = rows.last();
        lemma_rest_is_distinct(rows, key);
        lemma_filled(init, key, value);
        assert forall|k: K| #[trigger] filled(rows, key, value).contains_key(k) implies exists|
            i: int,
        | 0 <= i < rows.len() && key(#[trigger] rows[i]) == k by {
            if k == key(last) {
                assert(key(rows[rows.len() - 1]) == k);
            } else {
                assert(filled(init, key, value).contains_key(k));
                let i = choose|i: int| 0 <= i < init.len() && key(#[trigger] init[i]) == k;
                assert(key(rows[i]) == k);
            }
        }
        assert forall|i: int| 0 <= i < rows.len() implies filled(rows, key, value).contains_key(
            key(#[trigger] rows[i]),
        ) && filled(rows, key, value)[key(rows[i])] == value(rows[i]) by {
            if i < rows.len() - 1 {
                assert(init[i] == rows[i]);
                assert(key(rows[i]) != key(rows[rows.len() - 1]));
            }
        }
    }
}

/// Where no two rows have the same key, none of the others has that of the last.
pub proof fn lemma_rest_is_distinct<T, K>(
    rows: Seq<(Seq<char>, T)>,
    key: spec_fn((Seq<char>, T)) -> K,
)
    requires
        rows.len() > 0,
        has_distinct_keys(rows, key),
    ensures
        has_distinct_keys(rows.drop_last(), key),
        forall|i: int|
            0 <= i < rows.len() - 1 ==> key(#[trigger] rows.drop_last()[i]) != key(rows.last()),
{
    let init = rows.drop_last();
    assert forall|k: int, l: int| 0 <= k < l < init.len() implies key(#[trigger] init[k]) != key(
        #[trigger] init[l],
    ) by {
        assert(init[k] == rows[k] && init[l] == rows[l]);
    }
    assert forall|i: int| 0 <= i < rows.len() - 1 implies key(#[trigger] init[i]) != key(
        rows.last(),
    ) by {
        assert(key(rows[i]) != key(rows[rows.len() - 1]));
    }
}

} // verus!
