//! The order in which merged lists are presented.

use std::cmp::Ordering;

use itertools::Itertools;
use vstd::prelude::*;

verus! {

/// Whether the name `a` comes before the name `b` or equals it: names are
/// ordered by the first character in which they differ, and a name comes
/// before its continuations.
pub open spec fn name_le(a: Seq<char>, b: Seq<char>) -> bool
    decreases a.len(),
{
    if a.len() == 0 {
        true
    } else if b.len() == 0 {
        false
    } else if a[0] != b[0] {
        a[0] < b[0]
    } else {
        name_le(a.drop_first(), b.drop_first())
    }
}

/// What an `Ordering` says of two names.
pub open spec fn orders(order: Ordering, a: Seq<char>, b: Seq<char>) -> bool {
    match order {
        Ordering::Less => name_le(a, b) && a != b,
        Ordering::Equal => a == b,
        Ordering::Greater => name_le(b, a) && a != b,
    }
}

proof fn lemma_name_le_from(a: Seq<char>, b: Seq<char>, k: int)
    requires
        0 <= k <= a.len(),
        k <= b.len(),
        forall|i: int| 0 <= i < k ==> a[i] == b[i],
    ensures
        name_le(a, b) == name_le(a.skip(k), b.skip(k)),
    decreases k,
{
    if k == 0 {
        assert(a.skip(0) =~= a);
        assert(b.skip(0) =~= b);
    } else {
        assert(a[0] == b[0]);
        lemma_name_le_from(a.drop_first(), b.drop_first(), k - 1);
        assert(a.drop_first().skip(k - 1) =~= a.skip(k));
        assert(b.drop_first().skip(k - 1) =~= b.skip(k));
    }
}

/// Compares two names.
pub fn compare_names(a: &str, b: &str) -> (order: Ordering)
    ensures
        orders(order, a@, b@),
{
    let mut left = a.chars();
    let mut right = b.chars();
    let ghost mut k: int = 0;
    loop
        invariant
            0 <= k <= a@.len(),
            k <= b@.len(),
            vstd::std_specs::iter::IteratorSpec::obeys_prophetic_iter_laws(&left),
            vstd::std_specs::iter::IteratorSpec::obeys_prophetic_iter_laws(&right),
            vstd::std_specs::iter::IteratorSpec::remaining(&left) == a@.skip(k),
            vstd::std_specs::iter::IteratorSpec::remaining(&right) == b@.skip(k),
            forall|i: int| 0 <= i < k ==> a@[i] == b@[i],
        decreases a@.len() - k,
    {
        proof {
            lemma_name_le_from(a@, b@, k);
            lemma_name_le_from(b@, a@, k);
        }
        match left.next() {
            None => {
                match right.next() {
                    None => {
                        assert(a@ =~= b@);
                        return Ordering::Equal;
                    },
                    Some(_) => {
                        return Ordering::Less;
                    },
                }
            },
            Some(x) => {
                match right.next() {
                    None => {
                        return Ordering::Greater;
                    },
                    Some(y) => {
                        if x < y {
                            return Ordering::Less;
                        } else if y < x {
                            return Ordering::Greater;
                        }
                    },
                }
            },
        }
        proof {
            k = k + 1;
        }
    }
}

/// Whether two texts are the same.
pub(crate) fn same_text(a: &str, b: &str) -> (same: bool)
    ensures
        same == (a@ == b@),
{
    match compare_names(a, b) {
        Ordering::Equal => true,
        _ => false,
    }
}

/// The order of names is total: any two names are comparable, and two names
/// that come before each other are the same.
pub proof fn law_name_order_is_total(a: Seq<char>, b: Seq<char>)
    ensures
        name_le(a, b) || name_le(b, a),
        name_le(a, b) && name_le(b, a) ==> a == b,
        name_le(a, a),
    decreases a.len(),
{
    if a.len() == 0 {
        if b.len() == 0 {
            assert(a =~= b);
        }
    } else {
        law_name_order_is_total(a.drop_first(), a.drop_first());
        if b.len() > 0 && a[0] == b[0] {
            law_name_order_is_total(a.drop_first(), b.drop_first());
            if a.drop_first() == b.drop_first() {
                assert(a =~= seq![a[0]] + a.drop_first());
                assert(b =~= seq![b[0]] + b.drop_first());
            }
        }
    }
}

/// The order of names is transitive.
pub proof fn law_name_order_is_transitive(a: Seq<char>, b: Seq<char>, c: Seq<char>)
    requires
        name_le(a, b),
        name_le(b, c),
    ensures
        name_le(a, c),
    decreases a.len(),
{
    if a.len() > 0 && a[0] == b[0] && b[0] == c[0] {
        law_name_order_is_transitive(a.drop_first(), b.drop_first(), c.drop_first());
    }
}

/// Picks out the values that go by the name `name`.
pub open spec fn named<V>(key: spec_fn(V) -> Seq<char>, name: Seq<char>) -> spec_fn(V) -> bool {
    |v: V| key(v) == name
}

/// Whether no value stands after one whose name is greater.
pub open spec fn is_sorted<V>(values: Seq<V>, key: spec_fn(V) -> Seq<char>) -> bool {
    forall|i: int, j: int|
        #![trigger values[i], values[j]]
        0 <= i <= j < values.len() ==> name_le(key(values[i]), key(values[j]))
}

/// Whether `sorted` holds the values of `items` in the order of their names,
/// those of one name in the order in which they stand in `items`.
pub open spec fn is_stable_sort<V>(
    items: Seq<V>,
    sorted: Seq<V>,
    key: spec_fn(V) -> Seq<char>,
) -> bool {
    &&& is_sorted(sorted, key)
    &&& forall|name: Seq<char>| #[trigger]
        sorted.filter(named(key, name)) == items.filter(named(key, name))
}

proof fn lemma_present_in_filter<V>(values: Seq<V>, pred: spec_fn(V) -> bool, at: int)
    requires
        0 <= at < values.len(),
        pred(values[at]),
    ensures
        values.filter(pred).len() > 0,
{
    values.lemma_filter_contains(pred, at);
}

proof fn lemma_filter_values_are_present<V>(values: Seq<V>, pred: spec_fn(V) -> bool)
    requires
        values.filter(pred).len() > 0,
    ensures
        exists|at: int| 0 <= at < values.len() && pred(#[trigger] values[at]),
{
    let kept = values.filter(pred);
    values.lemma_filter_pred(pred, 0);
    values.lemma_filter_contains_rev(pred, kept[0]);
    let at = choose|at: int| 0 <= at < values.len() && values[at] == kept[0];
    assert(pred(values[at]));
}

/// A list has one stable sort only.
pub proof fn law_stable_sort_is_unique<V>(
    items: Seq<V>,
    one: Seq<V>,
    other: Seq<V>,
    key: spec_fn(V) -> Seq<char>,
)
    requires
        is_stable_sort(items, one, key),
        is_stable_sort(items, other, key),
    ensures
        one == other,
{
    assert forall|name: Seq<char>| #[trigger]
        one.filter(named(key, name)) == other.filter(named(key, name)) by {
        assert(items.filter(named(key, name)) == items.filter(named(key, name)));
    }
    lemma_sorted_with_same_groups(one, other, key);
}

proof fn lemma_sorted_with_same_groups<V>(
    one: Seq<V>,
    other: Seq<V>,
    key: spec_fn(V) -> Seq<char>,
)
    requires
        is_sorted(one, key),
        is_sorted(other, key),
        forall|name: Seq<char>| #[trigger]
            one.filter(named(key, name)) == other.filter(named(key, name)),
    ensures
        one == other,
    decreases one.len(),
{
    reveal(Seq::filter);
    if one.len() == 0 {
        if other.len() > 0 {
            let name = key(other[0]);
            lemma_present_in_filter(other, named(key, name), 0);
            assert(one.filter(named(key, name)).len() == 0);
        }
        assert(one =~= other);
    } else {
        let a = key(one.last());
        lemma_present_in_filter(one, named(key, a), one.len() - 1);
        lemma_filter_values_are_present(other, named(key, a));
        let at = choose|at: int| 0 <= at < other.len() && named(key, a)(#[trigger] other[at]);
        let b = key(other.last());
        assert(name_le(key(other[at]), key(other[other.len() - 1])));
        lemma_present_in_filter(other, named(key, b), other.len() - 1);
        assert(one.filter(named(key, b)) == other.filter(named(key, b)));
        lemma_filter_values_are_present(one, named(key, b));
        let back = choose|back: int| 0 <= back < one.len() && named(key, b)(#[trigger] one[back]);
        assert(name_le(key(one[back]), key(one[one.len() - 1])));
        law_name_order_is_total(a, b);
        assert(a == b);
        let group = one.filter(named(key, a));
        assert(group == other.filter(named(key, a)));
        assert(group.last() == one.last());
        assert(group.last() == other.last());
        assert forall|name: Seq<char>| #[trigger]
            one.drop_last().filter(named(key, name)) == other.drop_last().filter(
                named(key, name),
            ) by {
            assert(one.filter(named(key, name)) == other.filter(named(key, name)));
            if name == a {
                assert(one.drop_last().filter(named(key, name)) =~= group.drop_last());
                assert(other.drop_last().filter(named(key, name)) =~= group.drop_last());
            }
        }
        lemma_sorted_with_same_groups(one.drop_last(), other.drop_last(), key);
        assert(one =~= one.drop_last().push(one.last()));
        assert(other =~= other.drop_last().push(other.last()));
    }
}

proof fn lemma_count_in_group<V>(values: Seq<V>, key: spec_fn(V) -> Seq<char>, v: V)
    ensures
        values.to_multiset().count(v) == values.filter(named(key, key(v))).to_multiset().count(v),
    decreases values.len(),
{
    broadcast use vstd::multiset::group_multiset_axioms;

    reveal(Seq::filter);
    let pred = named(key, key(v));
    if values.len() == 0 {
        assert(values.filter(pred) =~= values);
    } else {
        let rest = values.drop_last();
        lemma_count_in_group(rest, key, v);
        assert(values =~= rest.push(values.last()));
        vstd::seq_lib::to_multiset_build(rest, values.last());
        if pred(values.last()) {
            vstd::seq_lib::to_multiset_build(rest.filter(pred), values.last());
        }
    }
}

/// Sorting neither loses nor adds a value.
pub proof fn law_stable_sort_keeps_every_value<V>(
    items: Seq<V>,
    sorted: Seq<V>,
    key: spec_fn(V) -> Seq<char>,
)
    requires
        is_stable_sort(items, sorted, key),
    ensures
        sorted.to_multiset() == items.to_multiset(),
        sorted.len() == items.len(),
{
    broadcast use vstd::multiset::group_multiset_axioms;

    assert forall|v: V| sorted.to_multiset().count(v) == items.to_multiset().count(v) by {
        lemma_count_in_group(sorted, key, v);
        lemma_count_in_group(items, key, v);
        assert(sorted.filter(named(key, key(v))) == items.filter(named(key, key(v))));
    }
    assert(sorted.to_multiset() =~= items.to_multiset());
    sorted.to_multiset_ensures();
    items.to_multiset_ensures();
}

/// Whether no two values go by the same name.
pub open spec fn names_are_distinct<V>(values: Seq<V>, key: spec_fn(V) -> Seq<char>) -> bool {
    forall|i: int, j: int|
        #![trigger values[i], values[j]]
        0 <= i < j < values.len() ==> key(values[i]) != key(values[j])
}

proof fn lemma_group_of_distinct_names<V>(
    values: Seq<V>,
    key: spec_fn(V) -> Seq<char>,
    name: Seq<char>,
)
    requires
        names_are_distinct(values, key),
    ensures
        values.filter(named(key, name)).len() <= 1,
    decreases values.len(),
{
    reveal(Seq::filter);
    if values.len() > 0 {
        let rest = values.drop_last();
        let pred = named(key, name);
        assert forall|i: int, j: int| 0 <= i < j < rest.len() implies key(#[trigger] rest[i])
            != key(#[trigger] rest[j]) by {
            assert(rest[i] == values[i] && rest[j] == values[j]);
        }
        lemma_group_of_distinct_names(rest, key, name);
        if pred(values.last()) && rest.filter(pred).len() > 0 {
            lemma_filter_values_are_present(rest, pred);
            let at = choose|at: int| 0 <= at < rest.len() && pred(#[trigger] rest[at]);
            assert(values[at] == rest[at]);
            assert(key(values[at]) == key(values[values.len() - 1]));
        }
    }
}

/// Where no two values go by the same name, the order in which they come does
/// not show once they are sorted.
pub proof fn law_sorting_distinct_names_forgets_the_order<V>(
    items: Seq<V>,
    reordered: Seq<V>,
    sorted: Seq<V>,
    key: spec_fn(V) -> Seq<char>,
)
    requires
        items.to_multiset() == reordered.to_multiset(),
        names_are_distinct(items, key),
        is_stable_sort(items, sorted, key),
    ensures
        is_stable_sort(reordered, sorted, key),
{
    broadcast use vstd::multiset::group_multiset_axioms;

    assert forall|name: Seq<char>| #[trigger]
        sorted.filter(named(key, name)) == reordered.filter(named(key, name)) by {
        let pred = named(key, name);
        let one = items.filter(pred);
        let other = reordered.filter(pred);
        assert(sorted.filter(pred) == one);
        assert forall|v: V| one.to_multiset().count(v) == other.to_multiset().count(v) by {
            one.to_multiset_ensures();
            other.to_multiset_ensures();
            if key(v) == name {
                lemma_count_in_group(items, key, v);
                lemma_count_in_group(reordered, key, v);
            } else {
                if one.contains(v) {
                    let i = choose|i: int| 0 <= i < one.len() && one[i] == v;
                    items.lemma_filter_pred(pred, i);
                }
                if other.contains(v) {
                    let i = choose|i: int| 0 <= i < other.len() && other[i] == v;
                    reordered.lemma_filter_pred(pred, i);
                }
            }
        }
        assert(one.to_multiset() =~= other.to_multiset());
        one.to_multiset_ensures();
        other.to_multiset_ensures();
        lemma_group_of_distinct_names(items, key, name);
        if one.len() == 1 {
            assert(one.contains(one[0]));
            assert(one.to_multiset().count(one[0]) > 0);
            assert(other.to_multiset().count(one[0]) > 0);
        }
        assert(one =~= other);
    }
}

/// An item that backends list under a name.
pub trait Listed: View + Sized {
    /// The name under which the item is listed.
    spec fn listed_name(item: Self::V) -> Seq<char>;

    /// The item as the gateway lists it for `backend`.
    spec fn qualified_view(backend: Seq<char>, item: Self::V) -> Self::V;

    /// Renames the item to what the gateway lists for `backend`.
    fn qualify(self, backend: &str) -> (item: Self)
        ensures
            item@ == Self::qualified_view(backend@, self@),
    ;

    /// Compares two items by their names.
    fn name_order(&self, other: &Self) -> (order: Ordering)
        ensures
            orders(order, Self::listed_name(self@), Self::listed_name(other@)),
    ;
}

/// The name of an item, as a function.
pub open spec fn listed_key<T: Listed>() -> spec_fn(T::V) -> Seq<char> {
    |item: T::V| T::listed_name(item)
}

/// The items of a list, each by its view.
pub open spec fn item_views<T: Listed>(items: Seq<T>) -> Seq<T::V> {
    items.map_values(|item: T| item@)
}

/// Calls `itertools::Itertools::sorted_by` with the comparison of the items'
/// names. What is believed of it: it gives back the items in ascending order
/// of their names, and does not reorder items of the same name.
#[verifier::external_body]
pub(crate) fn sorted_by_name<T: Listed>(items: Vec<T>) -> (sorted: Vec<T>)
    ensures
        is_stable_sort(item_views(items@), item_views(sorted@), listed_key::<T>()),
{
    items.into_iter().sorted_by(|a, b| a.name_order(b)).collect()
}

} // verus!
