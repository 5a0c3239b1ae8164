//! Stable sorting of items by keys that are held beside them.
//!
//! A key is a number with a text; keys are ordered by the number first and
//! by the text, character by character, second. Sorting inserts the items
//! one by one, each behind the items whose keys are not greater, so that
//! items with equal keys keep their order.

use vstd::prelude::*;
use crate::text::{lex_at_most, lex_le};

verus! {
/// What an item is ordered by.
#[derive(Debug)]
pub struct SortKey {
    /// The number that decides first.
    pub rank: i128,
    /// The text that decides between equal numbers.
    pub text: Vec<char>,
}

/// What a `SortKey` value holds.
pub struct KeyView {
    pub rank: int,
    pub text: Seq<char>,
}

impl View for SortKey {
    type V = KeyView;

    open spec fn view(&self) -> KeyView {
        KeyView { rank: self.rank as int, text: self.text@ }
    }
}

/// The views of a sequence of keys.
pub open spec fn key_views(keys: Seq<SortKey>) -> Seq<KeyView> {
    keys.map_values(|k: SortKey| k@)
}

/// Whether key `a` is not greater than key `b`.
pub open spec fn key_le(a: KeyView, b: KeyView) -> bool {
    a.rank < b.rank || (a.rank == b.rank && lex_le(a.text, b.text))
}

/// Where an item with key `k` goes into items sorted by `keys`: behind
/// every leading key that is not greater than `k`.
pub open spec fn insert_position(keys: Seq<KeyView>, k: KeyView) -> int
    decreases keys.len(),
{
    if keys.len() == 0 {
        0
    } else if !key_le(keys[0], k) {
        0
    } else {
        1 + insert_position(keys.drop_first(), k)
    }
}

/// The keys after the first `n` of them were inserted in order, one by one.
pub open spec fn sorted_keys(keys: Seq<KeyView>, n: int) -> Seq<KeyView>
    decreases n,
{
    if n <= 0 {
        Seq::empty()
    } else {
        let before = sorted_keys(keys, n - 1);
        before.insert(insert_position(before, keys[n - 1]), keys[n - 1])
    }
}

/// The items after the first `n` of them were inserted by their keys.
pub open spec fn sorted_items<T>(items: Seq<T>, keys: Seq<KeyView>, n: int) -> Seq<T>
    decreases n,
{
    if n <= 0 {
        Seq::empty()
    } else {
        let before = sorted_items(items, keys, n - 1);
        before.insert(insert_position(sorted_keys(keys, n - 1), keys[n - 1]), items[n - 1])
    }
}

/// The items in the stable order of their keys.
pub open spec fn stable_sorted<T>(items: Seq<T>, keys: Seq<KeyView>) -> Seq<T> {
    sorted_items(items, keys, items.len() as int)
}

/// Whether each key is not greater than the one behind it.
pub open spec fn is_sorted(keys: Seq<KeyView>) -> bool {
    forall|i: int, j: int| 0 <= i < j < keys.len() ==> key_le(keys[i], keys[j])
}

/// Whether key `a` is not greater than key `b`.
pub fn key_at_most(a: &SortKey, b: &SortKey) -> (r: bool)
    ensures
        r == key_le(a@, b@),
{
    a.rank < b.rank || (a.rank == b.rank && lex_at_most(&a.text, &b.text))
}

/// Where an item with key `k` goes into the first `n` of `keys`.
fn position_for(keys: &Vec<SortKey>, n: usize, k: &SortKey) -> (r: usize)
    requires
        n <= keys.len(),
    ensures
        r == insert_position(key_views(keys@).take(n as int), k@),
        r <= n,
{
    let ghost all = key_views(keys@).take(n as int);
    let mut i: usize = 0;
    assert(all.skip(0) =~= all);
    while i < n
        invariant
            i <= n <= keys.len(),
            all == key_views(keys@).take(n as int),
            insert_position(all, k@) == i + insert_position(all.skip(i as int), k@),
        decreases n - i,
    {
        proof {
            assert(all.skip(i as int).drop_first() =~= all.skip(i + 1));
        }
        if !key_at_most(&keys[i], k) {
            return i;
        }
        i += 1;
    }
    i
}

/// An insert position lies within the sequence or at its end.
pub proof fn lemma_insert_position_bounds(keys: Seq<KeyView>, k: KeyView)
    ensures
        0 <= insert_position(keys, k) <= keys.len(),
    decreases keys.len(),
{
    if keys.len() > 0 && key_le(keys[0], k) {
        lemma_insert_position_bounds(keys.drop_first(), k);
    }
}

/// The sorted keys and items have as many entries as were inserted.
pub proof fn lemma_sorted_len<T>(items: Seq<T>, keys: Seq<KeyView>, n: int)
    requires
        0 <= n <= items.len(),
        items.len() == keys.len(),
    ensures
        sorted_keys(keys, n).len() == n,
        sorted_items(items, keys, n).len() == n,
    decreases n,
{
    if n > 0 {
        lemma_sorted_len(items, keys, n - 1);
        lemma_insert_position_bounds(sorted_keys(keys, n - 1), keys[n - 1]);
    }
}

/// Of two keys, one is not greater than the other.
pub proof fn lemma_key_le_total(a: KeyView, b: KeyView)
    ensures
        key_le(a, b) || key_le(b, a),
{
    crate::text::lemma_lex_le_total(a.text, b.text);
}

/// The order of keys is transitive.
pub proof fn lemma_key_le_transitive(a: KeyView, b: KeyView, c: KeyView)
    requires
        key_le(a, b),
        key_le(b, c),
    ensures
        key_le(a, c),
{
    if a.rank == b.rank && b.rank == c.rank {
        crate::text::lemma_lex_le_transitive(a.text, b.text, c.text);
    }
}

/// The keys before an insert position are not greater than the key, and
/// the key at it, if any, is greater.
pub proof fn lemma_insert_position(keys: Seq<KeyView>, k: KeyView)
    ensures
        forall|j: int| 0 <= j < insert_position(keys, k) ==> key_le(#[trigger] keys[j], k),
        insert_position(keys, k) < keys.len() ==> !key_le(keys[insert_position(keys, k)], k),
    decreases keys.len(),
{
    lemma_insert_position_bounds(keys, k);
    if keys.len() > 0 && key_le(keys[0], k) {
        let rest = keys.drop_first();
        lemma_insert_position(rest, k);
        lemma_insert_position_bounds(rest, k);
        assert forall|j: int| 0 <= j < insert_position(keys, k) implies key_le(
            #[trigger] keys[j],
            k,
        ) by {
            if j > 0 {
                assert(keys[j] == rest[j - 1]);
            }
        }
    }
}

/// Inserting a key at its insert position keeps sorted keys sorted.
pub proof fn lemma_insert_keeps_sorted(keys: Seq<KeyView>, k: KeyView)
    requires
        is_sorted(keys),
    ensures
        is_sorted(keys.insert(insert_position(keys, k), k)),
{
    let pos = insert_position(keys, k);
    let out = keys.insert(pos, k);
    lemma_insert_position_bounds(keys, k);
    lemma_insert_position(keys, k);
    crate::text::lemma_lex_le_reflexive(k.text);
    assert forall|i: int, j: int| 0 <= i < j < out.len() implies key_le(out[i], out[j]) by {
        if j < pos {
        } else if j == pos {
        } else if i < pos {
        } else if i == pos {
            lemma_key_le_total(keys[pos], k);
            if j - 1 > pos {
                lemma_key_le_transitive(k, keys[pos], keys[j - 1]);
            }
        }
    }
}

/// Sorted keys are sorted: each is not greater than the one behind it.
pub proof fn lemma_sorted_keys_are_sorted(keys: Seq<KeyView>, n: int)
    requires
        0 <= n <= keys.len(),
    ensures
        is_sorted(sorted_keys(keys, n)),
    decreases n,
{
    if n > 0 {
        lemma_sorted_keys_are_sorted(keys, n - 1);
        lemma_insert_keeps_sorted(sorted_keys(keys, n - 1), keys[n - 1]);
    }
}

/// Sorting moves each item together with its key: where every key is a
/// function of its item, the sorted keys are that function of the sorted
/// items.
pub proof fn lemma_sorted_items_carry_keys<T>(
    items: Seq<T>,
    keys: Seq<KeyView>,
    key_of: spec_fn(T) -> KeyView,
    n: int,
)
    requires
        0 <= n <= items.len(),
        items.len() == keys.len(),
        forall|j: int| 0 <= j < items.len() ==> keys[j] == key_of(#[trigger] items[j]),
    ensures
        sorted_items(items, keys, n).len() == n,
        sorted_keys(keys, n).len() == n,
        forall|i: int|
            0 <= i < n ==> sorted_keys(keys, n)[i] == key_of(#[trigger] sorted_items(items, keys, n)[i]),
    decreases n,
{
    lemma_sorted_len(items, keys, n);
    if n > 0 {
        lemma_sorted_items_carry_keys(items, keys, key_of, n - 1);
        lemma_insert_position_bounds(sorted_keys(keys, n - 1), keys[n - 1]);
    }
}

/// Sorting rearranges: the sorted items are the items that were inserted,
/// each as often as it was inserted.
pub proof fn lemma_sorted_items_are_a_permutation<T>(items: Seq<T>, keys: Seq<KeyView>, n: int)
    requires
        0 <= n <= items.len(),
        items.len() == keys.len(),
    ensures
        sorted_items(items, keys, n).to_multiset() == items.take(n).to_multiset(),
    decreases n,
{
    broadcast use vstd::seq_lib::group_to_multiset_ensures;

    lemma_sorted_len(items, keys, n);
    if n > 0 {
        lemma_sorted_items_are_a_permutation(items, keys, n - 1);
        lemma_sorted_len(items, keys, n - 1);
        lemma_insert_position_bounds(sorted_keys(keys, n - 1), keys[n - 1]);
        assert(items.take(n) =~= items.take(n - 1).push(items[n - 1]));
    }
}

/// Reversing twice restores the order.
pub proof fn lemma_reverse_twice<T>(s: Seq<T>)
    ensures
        s.reverse().reverse() == s,
{
}

/// Sorts `items` in place by the keys held beside them in `keys`, keeping
/// the order of items with equal keys. The keys are sorted along. Where
/// there are not as many keys as items, nothing is moved.
pub fn sort_by_keys<T>(items: &mut Vec<T>, keys: &mut Vec<SortKey>)
    ensures
        final(items).len() == old(items).len(),
        final(keys).len() == old(keys).len(),
        old(items).len() == old(keys).len() ==> final(items)@ == stable_sorted(
            old(items)@,
            key_views(old(keys)@),
        ) && key_views(final(keys)@) == sorted_keys(
            key_views(old(keys)@),
            old(keys)@.len() as int,
        ),
        old(items).len() != old(keys).len() ==> final(items)@ == old(items)@ && final(keys)@
            == old(keys)@,
{
    if items.len() != keys.len() {
        return ;
    }
    let ghost items0 = items@;
    let ghost keys0 = key_views(keys@);
    let n: usize = items.len();
    let mut i: usize = 0;
    while i < n
        invariant
            i <= n,
            n == items0.len(),
            items0.len() == keys0.len(),
            items.len() == n,
            keys.len() == n,
            items@ == sorted_items(items0, keys0, i as int) + items0.skip(i as int),
            key_views(keys@) == sorted_keys(keys0, i as int) + keys0.skip(i as int),
        decreases n - i,
    {
        proof {
            lemma_sorted_len(items0, keys0, i as int);
        }
        let ghost sorted_k = sorted_keys(keys0, i as int);
        let ghost held = keys@;
        assert(key_views(held)[i as int] == held[i as int]@);
        let key = keys.remove(i);
        let item = items.remove(i);
        assert(key_views(keys@) =~= key_views(held).remove(i as int));
        assert(key_views(keys@).take(i as int) =~= sorted_k);
        let pos = position_for(keys, i, &key);
        let ghost slim = keys@;
        keys.insert(pos, key);
        items.insert(pos, item);
        assert(key_views(keys@) =~= key_views(slim).insert(pos as int, key@));
        i += 1;
    }
}

/// Reverses `items` in place.
pub fn reverse_in_place<T>(items: &mut Vec<T>)
    ensures
        final(items)@ == old(items)@.reverse(),
{
    let ghost initial = items@;
    let mut out: Vec<T> = Vec::new();
    while items.len() > 0
        invariant
            items.len() <= initial.len(),
            items@ == initial.take(items.len() as int),
            out.len() + items.len() == initial.len(),
            forall|k: int| 0 <= k < out.len() ==> out@[k] == initial[initial.len() - 1 - k],
        decreases items.len(),
    {
        match items.pop() {
            Some(x) => {
                out.push(x);
            },
            None => {},
        }
    }
    *items = out;
}

/// Each item beside its key.
pub open spec fn keyed<T>(items: Seq<T>, keys: Seq<KeyView>) -> Seq<(T, KeyView)> {
    Seq::new(items.len(), |i: int| (items[i], keys[i]))
}

/// In sorted keys, every key at or behind the insert position of `k` is
/// greater than `k`.
pub proof fn lemma_keys_behind_insert_position_are_greater(keys: Seq<KeyView>, k: KeyView, j: int)
    requires
        is_sorted(keys),
        insert_position(keys, k) <= j < keys.len(),
    ensures
        !key_le(keys[j], k),
{
    let pos = insert_position(keys, k);
    lemma_insert_position_bounds(keys, k);
    lemma_insert_position(keys, k);
    if pos < j && key_le(keys[j], k) {
        lemma_key_le_transitive(keys[pos], keys[j], k);
    }
}

/// Sorting moves each pair of an item and its key as one: the sorted
/// pairs carry the sorted keys.
pub proof fn lemma_sorted_pairs_carry_keys<T>(items: Seq<T>, keys: Seq<KeyView>, n: int)
    requires
        0 <= n <= items.len(),
        items.len() == keys.len(),
    ensures
        sorted_items(keyed(items, keys), keys, n).len() == n,
        sorted_keys(keys, n).len() == n,
        forall|i: int|
            0 <= i < n ==> (#[trigger] sorted_items(keyed(items, keys), keys, n)[i]).1
                == sorted_keys(keys, n)[i],
{
    let key_of = |p: (T, KeyView)| p.1;
    lemma_sorted_items_carry_keys(keyed(items, keys), keys, key_of, n);
}

/// Sorting is stable: the items that share a key stand in the sorted
/// order as they stood before.
pub proof fn lemma_sorting_is_stable<T>(items: Seq<T>, keys: Seq<KeyView>, k: KeyView, n: int)
    requires
        0 <= n <= items.len(),
        items.len() == keys.len(),
    ensures
        sorted_items(keyed(items, keys), keys, n).filter(|p: (T, KeyView)| p.1 == k) == keyed(
            items,
            keys,
        ).take(n).filter(|p: (T, KeyView)| p.1 == k),
    decreases n,
{
    let pairs = keyed(items, keys);
    let same = |p: (T, KeyView)| p.1 == k;
    if n > 0 {
        lemma_sorting_is_stable(items, keys, k, n - 1);
        lemma_sorted_pairs_carry_keys(items, keys, n - 1);
        lemma_sorted_keys_are_sorted(keys, n - 1);
        let before = sorted_items(pairs, keys, n - 1);
        let before_keys = sorted_keys(keys, n - 1);
        let x = pairs[n - 1];
        let pos = insert_position(before_keys, keys[n - 1]);
        lemma_insert_position_bounds(before_keys, keys[n - 1]);
        let head = before.take(pos);
        let tail = before.skip(pos);
        assert(before =~= head + tail);
        Seq::filter_distributes_over_add(head, tail, same);
        Seq::filter_distributes_over_add(head.push(x), tail, same);
        head.lemma_filter_push(x, same);
        assert(pairs.take(n) =~= pairs.take(n - 1).push(x));
        pairs.take(n - 1).lemma_filter_push(x, same);
        if same(x) {
            // nothing behind the insert position shares the key
            assert forall|j: int| 0 <= j < tail.len() implies !same(#[trigger] tail[j]) by {
                lemma_keys_behind_insert_position_are_greater(before_keys, keys[n - 1], pos + j);
                crate::text::lemma_lex_le_reflexive(k.text);
            }
            tail.lemma_all_neg_filter_empty(same);
        }
    }
}

} // verus!
