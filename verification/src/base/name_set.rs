//! Sets of names, kept sorted.

use vstd::prelude::*;

use crate::base::text::{self, compare, TextOrder};

verus! {

/// Whether names are strictly sorted.
pub open spec fn sorted_names(v: Seq<String>) -> bool {
    forall|i: int, j: int|
        0 <= i < j < v.len() ==> text::text_before(#[trigger] v[i]@, #[trigger] v[j]@)
}

/// The names of a list, as a set.
pub open spec fn name_set(v: Seq<String>) -> Set<Seq<char>> {
    Set::new(|s: Seq<char>| exists|i: int| 0 <= i < v.len() && #[trigger] v[i]@ == s)
}

/// Adds a name to a sorted list, where it is not there yet.
pub fn insert_name(v: &mut Vec<String>, name: String)
    requires
        sorted_names(old(v)@),
    ensures
        sorted_names(final(v)@),
        name_set(final(v)@) == name_set(old(v)@).insert(name@),
{
    let ghost before = v@;
    let ghost k = name@;
    let mut i: usize = 0;
    while i < v.len()
        invariant
            v@ == before,
            before == old(v)@,
            name@ == k,
            sorted_names(before),
            i <= before.len(),
            forall|j: int| 0 <= j < i ==> text::text_before(#[trigger] before[j]@, k),
        ensures
            i < before.len() ==> text::text_before(k, before[i as int]@),
        decreases before.len() - i,
    {
        match compare(v[i].as_str(), name.as_str()) {
            TextOrder::Less => {
                i += 1;
            },
            TextOrder::Equal => {
                proof {
                    assert(before[i as int]@ == k);
                    assert(name_set(before) =~= name_set(before).insert(k));
                }
                return ;
            },
            TextOrder::Greater => {
                break ;
            },
        }
    }
    proof {
        assert forall|j: int| i <= j < before.len() implies text::text_before(
            k,
            #[trigger] before[j]@,
        ) by {
            if j > i {
                text::text_before_transitive(k, before[i as int]@, before[j]@);
            }
        }
    }
    v.insert(i, name);
    proof {
        let after = v@;
        assert(after =~= before.insert(i as int, after[i as int]));
        assert forall|p: int, q: int| 0 <= p < q < after.len() implies text::text_before(
            #[trigger] after[p]@,
            #[trigger] after[q]@,
        ) by {
            assert(after[i as int]@ == k);
            if q < i {
                assert(text::text_before(before[p]@, before[q]@));
            } else if q == i {
                assert(text::text_before(before[p]@, k));
            } else if p < i {
                assert(text::text_before(before[p]@, before[q - 1]@));
            } else if p == i {
                assert(text::text_before(k, before[q - 1]@));
            } else {
                assert(text::text_before(before[p - 1]@, before[q - 1]@));
            }
        }
        assert forall|s: Seq<char>| #[trigger] name_set(after).contains(s) == name_set(before).insert(
            k,
        ).contains(s) by {
            if name_set(before).contains(s) {
                let j = choose|j: int| 0 <= j < before.len() && #[trigger] before[j]@ == s;
                assert(after[if j < i {
                    j
                } else {
                    j + 1
                }]@ == s);
            }
            if name_set(after).contains(s) && s != k {
                let j = choose|j: int| 0 <= j < after.len() && #[trigger] after[j]@ == s;
                assert(before[if j < i {
                    j
                } else {
                    j - 1
                }]@ == s);
            }
            assert(after[i as int]@ == k);
        }
        assert(name_set(after) =~= name_set(before).insert(k));
    }
}

/// Whether two lists hold the same names in the same order.
pub fn same_names(a: &Vec<String>, b: &Vec<String>) -> (r: bool)
    ensures
        r == (texts(a@) == texts(b@)),
{
    if a.len() != b.len() {
        assert(texts(a@).len() != texts(b@).len());
        return false;
    }
    let mut i: usize = 0;
    while i < a.len()
        invariant
            a@.len() == b@.len(),
            i <= a@.len(),
            forall|k: int| 0 <= k < i ==> (#[trigger] a@[k])@ == b@[k]@,
        decreases a@.len() - i,
    {
        if !text::equal(a[i].as_str(), b[i].as_str()) {
            assert(texts(a@)[i as int] != texts(b@)[i as int]);
            return false;
        }
        i += 1;
    }
    assert(texts(a@) =~= texts(b@));
    true
}

/// The texts of a list of names.
pub open spec fn texts(v: Seq<String>) -> Seq<Seq<char>> {
    v.map_values(|s: String| s@)
}

/// Whether `order` lists the indices of `keys` sorted by key, with equal keys in their old order.
pub open spec fn is_stable_order(keys: Seq<Seq<char>>, order: Seq<usize>) -> bool {
    &&& order.len() == keys.len()
    &&& forall|i: int| 0 <= i < order.len() ==> (#[trigger] order[i]) < keys.len()
    &&& forall|i: int, j: int|
        0 <= i < j < order.len() ==> {
            let (a, b) = (#[trigger] order[i], #[trigger] order[j]);
            text::text_before(keys[a as int], keys[b as int]) || (keys[a as int] == keys[b as int] && a
                < b)
        }
}

/// Sorts indices by their keys, leaving equal keys in their old order.
pub fn stable_order(keys: &Vec<String>) -> (order: Vec<usize>)
    ensures
        is_stable_order(texts(keys@), order@),
{
    let mut order: Vec<usize> = Vec::new();
    let ghost k = texts(keys@);
    let mut n: usize = 0;
    while n < keys.len()
        invariant
            k == texts(keys@),
            n <= keys@.len(),
            is_stable_order(k.take(n as int), order@),
        decreases keys@.len() - n,
    {
        let ghost before = order@;
        let mut i: usize = 0;
        while i < order.len()
            invariant
                k == texts(keys@),
                n < keys@.len(),
                order@ == before,
                is_stable_order(k.take(n as int), before),
                i <= before.len(),
                forall|j: int|
                    0 <= j < i ==> !text::text_before(k[n as int], k[#[trigger] before[j] as int]),
            ensures
                i < before.len() ==> text::text_before(k[n as int], k[before[i as int] as int]),
            decreases before.len() - i,
        {
            assert(before[i as int] < k.take(n as int).len());
            match compare(keys[order[i]].as_str(), keys[n].as_str()) {
                TextOrder::Greater => {
                    break ;
                },
                TextOrder::Equal => {
                    proof {
                        text::text_before_irreflexive(k[n as int]);
                    }
                },
                TextOrder::Less => {
                    proof {
                        if text::text_before(k[n as int], k[before[i as int] as int]) {
                            text::text_before_transitive(
                                k[n as int],
                                k[before[i as int] as int],
                                k[n as int],
                            );
                            text::text_before_irreflexive(k[n as int]);
                        }
                    }
                },
            }
            i += 1;
        }
        order.insert(i, n);
        proof {
            let after = order@;
            let longer = k.take(n + 1);
            assert forall|q: int| 0 <= q < before.len() implies (#[trigger] before[q]) < n by {
                assert(before[q] < k.take(n as int).len());
            }
            assert forall|p: int, q: int| 0 <= p < q < before.len() implies {
                let (a, b) = (#[trigger] before[p], #[trigger] before[q]);
                text::text_before(k[a as int], k[b as int]) || (k[a as int] == k[b as int] && a < b)
            } by {
                assert(k.take(n as int)[before[p] as int] == k[before[p] as int]);
                assert(k.take(n as int)[before[q] as int] == k[before[q] as int]);
            }
            assert forall|q: int| i <= q < before.len() implies text::text_before(
                k[n as int],
                k[#[trigger] before[q] as int],
            ) by {
                if q > i {
                    let (a, b) = (before[i as int], before[q]);
                    if text::text_before(k[a as int], k[b as int]) {
                        text::text_before_transitive(k[n as int], k[a as int], k[b as int]);
                    }
                }
            }
            assert forall|q: int| 0 <= q < after.len() implies (#[trigger] after[q]) < longer.len() by {
                if q < i {
                    assert(after[q] == before[q]);
                } else if q > i {
                    assert(after[q] == before[q - 1]);
                }
            }
            assert forall|p: int, q: int| 0 <= p < q < after.len() implies {
                let (a, b) = (#[trigger] after[p], #[trigger] after[q]);
                text::text_before(longer[a as int], longer[b as int]) || (longer[a as int]
                    == longer[b as int] && a < b)
            } by {
                if p < i {
                    assert(after[p] == before[p]);
                    text::text_before_total(k[before[p] as int], k[n as int]);
                } else if p > i {
                    assert(after[p] == before[p - 1]);
                }
                if q < i {
                    assert(after[q] == before[q]);
                } else if q > i {
                    assert(after[q] == before[q - 1]);
                }
            }
        }
        n += 1;
    }
    assert(k.take(n as int) =~= k);
    order
}

/// Whether `i` is the place of the first of `names` that is `name`.
pub open spec fn first_with_name(names: Seq<Seq<char>>, name: Seq<char>, i: int) -> bool {
    0 <= i < names.len() && names[i] == name && forall|j: int| 0 <= j < i ==> names[j] != name
}

/// The place of the first of `names` that is `name`.
pub open spec fn place_of(names: Seq<Seq<char>>, name: Seq<char>) -> Option<int> {
    if names.contains(name) {
        Some(choose|i: int| first_with_name(names, name, i))
    } else {
        None
    }
}

/// There is only one first place.
pub proof fn first_place_is_unique(names: Seq<Seq<char>>, name: Seq<char>, i: int)
    requires
        first_with_name(names, name, i),
    ensures
        place_of(names, name) == Some(i),
{
    assert(names.contains(name)) by {
        assert(names[i] == name);
    }
    let k = choose|k: int| first_with_name(names, name, k);
    assert(first_with_name(names, name, k));
    if k < i {
        assert(names[k] != name);
    } else if i < k {
        assert(names[i] != name);
    }
}

/// The place of the first name in a list that is `name`.
pub fn find_name(names: &Vec<String>, name: &str) -> (r: Option<usize>)
    ensures
        match r {
            Some(i) => place_of(texts(names@), name@) == Some(i as int) && first_with_name(
                texts(names@),
                name@,
                i as int,
            ),
            None => place_of(texts(names@), name@) is None,
        },
{
    let ghost all = texts(names@);
    let mut i: usize = 0;
    while i < names.len()
        invariant
            all == texts(names@),
            i <= names@.len(),
            forall|j: int| 0 <= j < i ==> all[j] != name@,
        decreases names@.len() - i,
    {
        if text::equal(names[i].as_str(), name) {
            proof {
                first_place_is_unique(all, name@, i as int);
            }
            return Some(i);
        }
        i += 1;
    }
    assert(!all.contains(name@));
    None
}

/// Whether the key at one index comes before the key at another, or is equal to it and listed first.
spec fn comes_before(keys: Seq<Seq<char>>, a: usize, b: usize) -> bool {
    text::text_before(keys[a as int], keys[b as int]) || (keys[a as int] == keys[b as int] && a < b)
}

/// Of two indices, not both come before the other.
proof fn comes_before_is_asymmetric(keys: Seq<Seq<char>>, a: usize, b: usize)
    requires
        comes_before(keys, a, b),
    ensures
        !comes_before(keys, b, a),
        a != b,
{
    text::text_before_irreflexive(keys[a as int]);
    if comes_before(keys, b, a) && text::text_before(keys[a as int], keys[b as int]) && text::text_before(
        keys[b as int],
        keys[a as int],
    ) {
        text::text_before_transitive(keys[a as int], keys[b as int], keys[a as int]);
    }
}

/// A stable order lists every index.
proof fn stable_order_is_complete(keys: Seq<Seq<char>>, order: Seq<usize>, a: usize)
    requires
        is_stable_order(keys, order),
        a < keys.len(),
    ensures
        exists|i: int| 0 <= i < order.len() && order[i] == a,
{
    let n = keys.len() as int;
    let places = order.map_values(|u: usize| u as int);
    assert forall|i: int, j: int| 0 <= i < places.len() && 0 <= j < places.len() && i != j implies places[i]
        != places[j] by {
        if i < j {
            assert(comes_before(keys, order[i], order[j]));
            comes_before_is_asymmetric(keys, order[i], order[j]);
        } else {
            assert(comes_before(keys, order[j], order[i]));
            comes_before_is_asymmetric(keys, order[j], order[i]);
        }
    }
    places.unique_seq_to_set();
    vstd::set_lib::lemma_int_range(0, n);
    let all = vstd::set_lib::set_int_range(0, n);
    assert(places.to_set().subset_of(all)) by {
        assert forall|x: int| places.to_set().contains(x) implies all.contains(x) by {
            let i = choose|i: int| 0 <= i < places.len() && places[i] == x;
            assert(order[i] < keys.len());
        }
    }
    vstd::set_lib::lemma_subset_equality(places.to_set(), all);
    assert(all.contains(a as int));
    let i = choose|i: int| 0 <= i < places.len() && places[i] == a as int;
    assert(order[i] == a);
}

/// There is one stable order of keys.
pub proof fn stable_order_is_unique(keys: Seq<Seq<char>>, a: Seq<usize>, b: Seq<usize>)
    requires
        is_stable_order(keys, a),
        is_stable_order(keys, b),
    ensures
        a == b,
{
    assert forall|n: int| 0 <= n < keys.len() implies a[n] == b[n] by {
        same_place(keys, a, b, n);
    }
    assert(a =~= b);
}

/// Two stable orders agree at a place.
proof fn same_place(keys: Seq<Seq<char>>, a: Seq<usize>, b: Seq<usize>, n: int)
    requires
        is_stable_order(keys, a),
        is_stable_order(keys, b),
        0 <= n < keys.len(),
    ensures
        a[n] == b[n],
    decreases n,
{
    assert forall|m: int| 0 <= m < n implies a[m] == b[m] by {
        same_place(keys, a, b, m);
    }
    if a[n] != b[n] {
        assert(a[n] < keys.len() && b[n] < keys.len());
        stable_order_is_complete(keys, b, a[n]);
        let j = choose|j: int| 0 <= j < b.len() && b[j] == a[n];
        stable_order_is_complete(keys, a, b[n]);
        let i = choose|i: int| 0 <= i < a.len() && a[i] == b[n];
        if j < n {
            assert(comes_before(keys, a[j], a[n]));
            comes_before_is_asymmetric(keys, a[j], a[n]);
        }
        if i < n {
            assert(comes_before(keys, b[i], b[n]));
            comes_before_is_asymmetric(keys, b[i], b[n]);
        }
        assert(comes_before(keys, b[n], b[j]));
        assert(comes_before(keys, a[n], a[i]));
        comes_before_is_asymmetric(keys, a[n], b[n]);
    }
}

/// The texts of names are told one by one.
pub proof fn texts_are_told_one_by_one(v: Seq<String>)
    ensures
        texts(v).len() == v.len(),
        forall|i: int| 0 <= i < v.len() ==> #[trigger] texts(v)[i] == v[i]@,
{
}

/// An order lists each place once. What comes later is no smaller, and of equal names the one that
/// stood first stays first.
pub proof fn orders_sort_and_keep_equals(keys: Seq<Seq<char>>, order: Seq<usize>, i: int, j: int)
    requires
        is_stable_order(keys, order),
        0 <= i < j < order.len(),
    ensures
        order.len() == keys.len(),
        order[i] < keys.len() && order[j] < keys.len(),
        order[i] != order[j],
        !text::text_before(keys[order[j] as int], keys[order[i] as int]),
        keys[order[i] as int] == keys[order[j] as int] ==> order[i] < order[j],
{
    let a = keys[order[i] as int];
    let b = keys[order[j] as int];
    text::text_before_irreflexive(a);
    if text::text_before(a, b) && text::text_before(b, a) {
        text::text_before_transitive(a, b, a);
    }
}

/// The place of a name is where it stands first. There is none exactly where it stands nowhere.
pub proof fn places_are_the_first(names: Seq<Seq<char>>, name: Seq<char>)
    ensures
        match place_of(names, name) {
            Some(i) => 0 <= i < names.len() && names[i] == name && forall|j: int| 0 <= j < i ==> names[j] != name,
            None => forall|j: int| 0 <= j < names.len() ==> names[j] != name,
        },
{
    if names.contains(name) {
        let k = choose|k: int| 0 <= k < names.len() && names[k] == name;
        lemma_first_exists(names, name, k);
    }
}

proof fn lemma_first_exists(names: Seq<Seq<char>>, name: Seq<char>, k: int)
    requires
        0 <= k < names.len(),
        names[k] == name,
    ensures
        exists|i: int| first_with_name(names, name, i),
    decreases k,
{
    if exists|j: int| 0 <= j < k && names[j] == name {
        let j = choose|j: int| 0 <= j < k && names[j] == name;
        lemma_first_exists(names, name, j);
    } else {
        assert(first_with_name(names, name, k));
    }
}

/// A name is in the set of names exactly where it stands somewhere in the list.
pub proof fn sets_hold_the_names(v: Seq<String>, name: Seq<char>)
    ensures
        name_set(v).contains(name) <==> texts(v).contains(name),
{
    if texts(v).contains(name) {
        let i = choose|i: int| 0 <= i < texts(v).len() && texts(v)[i] == name;
        assert(v[i]@ == name);
    }
    if name_set(v).contains(name) {
        let i = choose|i: int| 0 <= i < v.len() && #[trigger] v[i]@ == name;
        assert(texts(v)[i] == name);
    }
}

/// Sorted names come one before the other, and none twice.
pub proof fn sorted_names_come_in_order(v: Seq<String>, i: int, j: int)
    requires
        sorted_names(v),
        0 <= i < j < v.len(),
    ensures
        text::text_before(v[i]@, v[j]@),
        v[i]@ != v[j]@,
{
    text::text_before_irreflexive(v[i]@);
}

} // verus!
