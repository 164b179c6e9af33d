//! Sequences by view: copies, comparisons and stable ordering by a two-level integer key.

use vstd::prelude::*;

verus! {

/// The elements of one sequence, each by its view.
pub open spec fn views<T: View>(items: Seq<T>) -> Seq<T::V> {
    Seq::new(items.len(), |i: int| items[i]@)
}

/// The value of one optional element by its view.
pub open spec fn viewed<T: View>(item: Option<T>) -> Option<T::V> {
    match item {
        Some(value) => Some(value@),
        None => None,
    }
}

/// One outcome with its success by view.
pub open spec fn outcome<T: View, E>(result: Result<T, E>) -> Result<T::V, E> {
    match result {
        Ok(value) => Ok(value@),
        Err(error) => Err(error),
    }
}

/// One lookup with the found value by view.
pub open spec fn found<T: View, E>(result: Result<Option<T>, E>) -> Result<Option<T::V>, E> {
    match result {
        Ok(value) => Ok(viewed(value)),
        Err(error) => Err(error),
    }
}

/// One listing with each element by view.
pub open spec fn listed<T: View, E>(result: Result<Vec<T>, E>) -> Result<Seq<T::V>, E> {
    match result {
        Ok(values) => Ok(views(values@)),
        Err(error) => Err(error),
    }
}

/// The lexicographic order of two keys.
pub open spec fn key_le(left: (int, int), right: (int, int)) -> bool {
    left.0 < right.0 || (left.0 == right.0 && left.1 <= right.1)
}

/// The strict lexicographic order of two keys.
pub open spec fn key_lt(left: (int, int), right: (int, int)) -> bool {
    left.0 < right.0 || (left.0 == right.0 && left.1 < right.1)
}

/// A value that is ordered by a two-level integer key.
pub trait Keyed: View + Sized {
    /// The key, read from the value's view.
    spec fn key(model: Self::V) -> (int, int);

    /// Returns whether this key does not exceed the other.
    fn key_at_most(&self, other: &Self) -> (at_most: bool)
        ensures
            at_most == key_le(Self::key(self@), Self::key(other@)),
    ;
}

/// Inserts one element behind every element whose key does not exceed its own.
pub open spec fn insert_sorted<V>(items: Seq<V>, item: V, key: spec_fn(V) -> (int, int)) -> Seq<V>
    decreases items.len(),
{
    if items.len() == 0 || key_le(key(items.last()), key(item)) {
        items.push(item)
    } else {
        insert_sorted(items.drop_last(), item, key).push(items.last())
    }
}

/// The stable ordering of one sequence by key.
pub open spec fn stable_sort<V>(items: Seq<V>, key: spec_fn(V) -> (int, int)) -> Seq<V>
    decreases items.len(),
{
    if items.len() == 0 {
        Seq::empty()
    } else {
        insert_sorted(stable_sort(items.drop_last(), key), items.last(), key)
    }
}

/// Keys never decrease along the sequence.
pub open spec fn is_sorted<V>(items: Seq<V>, key: spec_fn(V) -> (int, int)) -> bool {
    forall|i: int, j: int|
        #![trigger items[i], items[j]]
        0 <= i < j < items.len() ==> key_le(key(items[i]), key(items[j]))
}

/// Keys strictly increase along the sequence.
pub open spec fn is_strictly_sorted<V>(items: Seq<V>, key: spec_fn(V) -> (int, int)) -> bool {
    forall|i: int, j: int|
        #![trigger items[i], items[j]]
        0 <= i < j < items.len() ==> key_lt(key(items[i]), key(items[j]))
}

proof fn lemma_insert_sorted<V>(items: Seq<V>, item: V, key: spec_fn(V) -> (int, int))
    requires
        is_sorted(items, key),
    ensures
        is_sorted(insert_sorted(items, item, key), key),
        insert_sorted(items, item, key).to_multiset() == items.to_multiset().insert(item),
        insert_sorted(items, item, key).len() == items.len() + 1,
        forall|x: V|
            insert_sorted(items, item, key).contains(x) ==> items.contains(x) || x == item,
    decreases items.len(),
{
    broadcast use vstd::seq_lib::group_to_multiset_ensures;

    if items.len() == 0 || key_le(key(items.last()), key(item)) {
        assert forall|x: V| items.push(item).contains(x) implies items.contains(x) || x == item by {
            let k = choose|k: int| 0 <= k < items.push(item).len() && items.push(item)[k] == x;
            if k < items.len() {
                assert(items[k] == x);
            }
        }
    } else {
        let shorter = items.drop_last();
        lemma_insert_sorted(shorter, item, key);
        let inner = insert_sorted(shorter, item, key);
        let result = inner.push(items.last());
        assert forall|i: int, j: int|
            #![trigger result[i], result[j]]
            0 <= i < j < result.len() implies key_le(key(result[i]), key(result[j])) by {
            if j == inner.len() {
                assert(inner.contains(inner[i]));
                let x = inner[i];
                if shorter.contains(x) {
                    let k = choose|k: int| 0 <= k < shorter.len() && shorter[k] == x;
                    assert(items[k] == x);
                    assert(key_le(key(items[k]), key(items[items.len() - 1])));
                }
            } else {
                assert(key_le(key(inner[i]), key(inner[j])));
            }
        }
        assert(items =~= shorter.push(items.last()));
        assert(shorter.to_multiset().insert(item).insert(items.last())
            =~= shorter.to_multiset().insert(items.last()).insert(item));
        assert forall|x: V| result.contains(x) implies items.contains(x) || x == item by {
            let k = choose|k: int| 0 <= k < result.len() && result[k] == x;
            if k < inner.len() {
                assert(inner.contains(x));
                if shorter.contains(x) {
                    let m = choose|m: int| 0 <= m < shorter.len() && shorter[m] == x;
                    assert(items[m] == x);
                }
            } else {
                assert(items[items.len() - 1] == x);
            }
        }
    }
}

/// Stable ordering keeps every element and orders the keys.
pub proof fn lemma_stable_sort<V>(items: Seq<V>, key: spec_fn(V) -> (int, int))
    ensures
        is_sorted(stable_sort(items, key), key),
        stable_sort(items, key).to_multiset() == items.to_multiset(),
        stable_sort(items, key).len() == items.len(),
    decreases items.len(),
{
    broadcast use vstd::seq_lib::group_to_multiset_ensures;

    if items.len() > 0 {
        lemma_stable_sort(items.drop_last(), key);
        lemma_insert_sorted(stable_sort(items.drop_last(), key), items.last(), key);
        assert(items =~= items.drop_last().push(items.last()));
    } else {
        assert(items =~= Seq::empty());
    }
}

/// A sequence that is already ordered is left as it is.
pub proof fn lemma_stable_sort_sorted<V>(items: Seq<V>, key: spec_fn(V) -> (int, int))
    requires
        is_sorted(items, key),
    ensures
        stable_sort(items, key) == items,
    decreases items.len(),
{
    if items.len() > 0 {
        let shorter = items.drop_last();
        assert(is_sorted(shorter, key));
        lemma_stable_sort_sorted(shorter, key);
        if shorter.len() > 0 {
            assert(key_le(key(items[items.len() - 2]), key(items[items.len() - 1])));
            assert(shorter.last() == items[items.len() - 2]);
        }
        assert(items =~= shorter.push(items.last()));
    } else {
        assert(stable_sort(items, key) =~= items);
    }
}

/// An element stays behind what does not exceed it and before what does.
proof fn lemma_insert_at<V>(items: Seq<V>, item: V, at: int, key: spec_fn(V) -> (int, int))
    requires
        0 <= at <= items.len(),
        at == 0 || key_le(key(items[at - 1]), key(item)),
        forall|k: int| at <= k < items.len() ==> !key_le(key(#[trigger] items[k]), key(item)),
    ensures
        insert_sorted(items, item, key) == items.insert(at, item),
    decreases items.len(),
{
    if at == items.len() {
        assert(items.insert(at, item) =~= items.push(item));
        if items.len() > 0 {
            assert(items.last() == items[at - 1]);
        }
    } else {
        let shorter = items.drop_last();
        assert(!key_le(key(items[items.len() - 1]), key(item)));
        if at > 0 {
            assert(shorter[at - 1] == items[at - 1]);
        }
        lemma_insert_at(shorter, item, at, key);
        assert(items.insert(at, item) =~= shorter.insert(at, item).push(items.last()));
    }
}

/// Orders one vector stably by key.
pub fn sort_stable<T: Keyed>(items: Vec<T>) -> (sorted: Vec<T>)
    ensures
        views(sorted@) == stable_sort(views(items@), |model: T::V| T::key(model)),
{
    let ghost key = |model: T::V| T::key(model);
    let ghost all = views(items@);
    let mut rest = items;
    let mut sorted: Vec<T> = Vec::new();
    proof {
        assert(views(sorted@) =~= stable_sort(all.take(0), key));
    }
    while rest.len() > 0
        invariant
            key == (|model: T::V| T::key(model)),
            rest@.len() + sorted@.len() == all.len(),
            forall|k: int|
                0 <= k < rest@.len() ==> (#[trigger] rest@[k])@ == all[sorted@.len() + k],
            views(sorted@) == stable_sort(all.take(sorted@.len() as int), key),
        decreases rest@.len(),
    {
        let ghost done = sorted@.len() as int;
        proof {
            assert(rest@[0]@ == all[done]);
        }
        let item = rest.remove(0);
        let ghost before = views(sorted@);
        let ghost model = item@;
        let mut at: usize = sorted.len();
        while at > 0 && !sorted[at - 1].key_at_most(&item)
            invariant
                at <= sorted@.len(),
                key == (|model: T::V| T::key(model)),
                before == views(sorted@),
                model == item@,
                forall|k: int|
                    at <= k < before.len() ==> !key_le(key(#[trigger] before[k]), key(model)),
            decreases at,
        {
            proof {
                assert(before[at - 1] == sorted@[at - 1]@);
            }
            at -= 1;
        }
        proof {
            if at > 0 {
                assert(before[at - 1] == sorted@[at - 1]@);
            }
            lemma_insert_at(before, model, at as int, key);
        }
        sorted.insert(at, item);
        proof {
            assert(views(sorted@) =~= before.insert(at as int, model));
            assert(all.take(done + 1).drop_last() =~= all.take(done));
            assert(all.take(done + 1).last() == all[done]);
        }
    }
    proof {
        assert(all.take(sorted@.len() as int) =~= all);
    }
    sorted
}

// ---------------------------------------------------------------------------
// Selection
// ---------------------------------------------------------------------------

/// The elements that are kept, in order.
pub open spec fn selected<V>(items: Seq<V>, keep: spec_fn(V) -> bool) -> Seq<V>
    decreases items.len(),
{
    if items.len() == 0 {
        Seq::empty()
    } else if keep(items.last()) {
        selected(items.drop_last(), keep).push(items.last())
    } else {
        selected(items.drop_last(), keep)
    }
}

/// One more element extends the selection exactly when it is kept.
pub proof fn lemma_selected_step<V>(items: Seq<V>, keep: spec_fn(V) -> bool, at: int)
    requires
        0 <= at < items.len(),
    ensures
        selected(items.take(at + 1), keep) == (if keep(items[at]) {
            selected(items.take(at), keep).push(items[at])
        } else {
            selected(items.take(at), keep)
        }),
{
    assert(items.take(at + 1).drop_last() =~= items.take(at));
    assert(items.take(at + 1).last() == items[at]);
}

/// A kept element satisfies the condition and occurs in the whole.
pub proof fn lemma_selected_members<V>(items: Seq<V>, keep: spec_fn(V) -> bool)
    ensures
        selected(items, keep).len() <= items.len(),
        forall|k: int|
            0 <= k < selected(items, keep).len() ==> keep(#[trigger] selected(items, keep)[k])
                && items.contains(selected(items, keep)[k]),
    decreases items.len(),
{
    if items.len() > 0 {
        let shorter = items.drop_last();
        lemma_selected_members(shorter, keep);
        let whole = selected(items, keep);
        assert forall|k: int| 0 <= k < whole.len() implies keep(#[trigger] whole[k])
            && items.contains(whole[k]) by {
            let inner = selected(shorter, keep);
            if k < inner.len() {
                assert(whole[k] == inner[k]);
                let m = choose|m: int| 0 <= m < shorter.len() && shorter[m] == inner[k];
                assert(items[m] == whole[k]);
            } else {
                assert(items[items.len() - 1] == whole[k]);
            }
        }
    }
}

/// The elements that do not occur earlier, in order.
pub open spec fn distinct<V>(items: Seq<V>) -> Seq<V>
    decreases items.len(),
{
    if items.len() == 0 {
        Seq::empty()
    } else if items.drop_last().contains(items.last()) {
        distinct(items.drop_last())
    } else {
        distinct(items.drop_last()).push(items.last())
    }
}

/// Dropping repetitions keeps the members and leaves each once.
pub proof fn lemma_distinct<V>(items: Seq<V>)
    ensures
        distinct(items).no_duplicates(),
        distinct(items).len() <= items.len(),
        forall|x: V| #[trigger] distinct(items).contains(x) <==> items.contains(x),
    decreases items.len(),
{
    if items.len() > 0 {
        let shorter = items.drop_last();
        lemma_distinct(shorter);
        let whole = distinct(items);
        let inner = distinct(shorter);
        assert forall|x: V| #[trigger] whole.contains(x) <==> items.contains(x) by {
            if items.contains(x) {
                let k = choose|k: int| 0 <= k < items.len() && items[k] == x;
                if k < shorter.len() {
                    assert(shorter[k] == x);
                    assert(inner.contains(x));
                    let m = choose|m: int| 0 <= m < inner.len() && inner[m] == x;
                    assert(whole[m] == x);
                } else if shorter.contains(items.last()) {
                    assert(inner.contains(x));
                } else {
                    assert(whole[whole.len() - 1] == x);
                }
            }
            if whole.contains(x) {
                let m = choose|m: int| 0 <= m < whole.len() && whole[m] == x;
                if m < inner.len() {
                    assert(inner[m] == x);
                    assert(inner.contains(x));
                    assert(shorter.contains(x));
                    let k = choose|k: int| 0 <= k < shorter.len() && shorter[k] == x;
                    assert(items[k] == x);
                } else {
                    assert(items[items.len() - 1] == x);
                }
            }
        }
        if !shorter.contains(items.last()) {
            assert(!inner.contains(items.last()));
        }
    } else {
        assert(distinct(items) =~= items);
    }
}

// ---------------------------------------------------------------------------
// Copies and comparisons by view
// ---------------------------------------------------------------------------

/// A value that its view describes completely.
pub trait Valued: View + Sized {
    /// Returns a value with the same view.
    fn copy(&self) -> (copy: Self)
        ensures
            copy@ == self@,
    ;

    /// Returns whether two values have the same view.
    fn same(&self, other: &Self) -> (same: bool)
        ensures
            same == (self@ == other@),
    ;
}

/// Returns a copy of every element.
pub fn copy_all<T: Valued>(items: &Vec<T>) -> (copies: Vec<T>)
    ensures
        views(copies@) == views(items@),
{
    let mut copies: Vec<T> = Vec::new();
    let mut i: usize = 0;
    while i < items.len()
        invariant
            i <= items@.len(),
            copies@.len() == i,
            forall|k: int| 0 <= k < i ==> (#[trigger] copies@[k])@ == items@[k]@,
        decreases items@.len() - i,
    {
        copies.push(items[i].copy());
        i += 1;
    }
    assert(views(copies@) =~= views(items@));
    copies
}

/// Returns whether two vectors have the same elements in the same order.
pub fn same_all<T: Valued>(left: &Vec<T>, right: &Vec<T>) -> (same: bool)
    ensures
        same == (views(left@) == views(right@)),
{
    if left.len() != right.len() {
        assert(views(left@).len() != views(right@).len());
        return false;
    }
    let mut i: usize = 0;
    while i < left.len()
        invariant
            i <= left@.len(),
            left@.len() == right@.len(),
            forall|k: int| 0 <= k < i ==> (#[trigger] left@[k])@ == right@[k]@,
        decreases left@.len() - i,
    {
        if !left[i].same(&right[i]) {
            assert(views(left@)[i as int] != views(right@)[i as int]);
            return false;
        }
        i += 1;
    }
    assert(views(left@) =~= views(right@));
    true
}

/// Returns a copy of one optional value.
pub fn copy_optional<T: Valued>(item: &Option<T>) -> (copy: Option<T>)
    ensures
        viewed(copy) == viewed(*item),
{
    match item {
        Some(value) => Some(value.copy()),
        None => None,
    }
}

/// Returns whether two optional values are both absent or the same.
pub fn same_optional<T: Valued>(left: &Option<T>, right: &Option<T>) -> (same: bool)
    ensures
        same == (viewed(*left) == viewed(*right)),
{
    match (left, right) {
        (Some(left), Some(right)) => left.same(right),
        (None, None) => true,
        _ => false,
    }
}

impl Valued for String {
    fn copy(&self) -> (copy: Self) {
        self.clone()
    }

    fn same(&self, other: &Self) -> (same: bool) {
        *self == *other
    }
}

/// Returns a copy of one byte vector.
pub fn copy_bytes(items: &Vec<u8>) -> (copy: Vec<u8>)
    ensures
        copy@ == items@,
{
    let mut copy: Vec<u8> = Vec::new();
    copy.extend_from_slice(items.as_slice());
    assert(copy@ =~= items@);
    copy
}

/// Returns whether two byte vectors hold the same bytes.
pub fn same_bytes(left: &Vec<u8>, right: &Vec<u8>) -> (same: bool)
    ensures
        same == (left@ == right@),
{
    if left.len() != right.len() {
        return false;
    }
    let mut i: usize = 0;
    while i < left.len()
        invariant
            i <= left@.len(),
            left@.len() == right@.len(),
            forall|k: int| 0 <= k < i ==> left@[k] == right@[k],
        decreases left@.len() - i,
    {
        if left[i] != right[i] {
            return false;
        }
        i += 1;
    }
    assert(left@ =~= right@);
    true
}

} // verus!
