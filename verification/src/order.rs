//! The order of texts, and the order in which an object hands its keys out.
use crate::json::{entries_view, Json, JsonView};
use vstd::prelude::*;

verus! {

/// The order of texts, character by character.
pub open spec fn text_before(a: Seq<char>, b: Seq<char>) -> bool
    decreases a.len(),
{
    if b.len() == 0 {
        false
    } else if a.len() == 0 {
        true
    } else {
        a[0] < b[0] || (a[0] == b[0] && text_before(a.drop_first(), b.drop_first()))
    }
}

/// The texts come one before the other.
pub open spec fn ascending(keys: Seq<Seq<char>>) -> bool {
    forall|i: int, j: int|
        0 <= i < j < keys.len() ==> text_before(#[trigger] keys[i], #[trigger] keys[j])
}

/// The keys of pairs, in the order of the pairs.
pub open spec fn keys_of<T>(pairs: Seq<(String, T)>) -> Seq<Seq<char>> {
    Seq::new(pairs.len(), |i: int| pairs[i].0@)
}

/// `keys` are the keys of `map`, in order.
pub open spec fn lists_keys(keys: Seq<Seq<char>>, map: Map<Seq<char>, JsonView>) -> bool {
    &&& ascending(keys)
    &&& forall|key: Seq<char>| keys.contains(key) <==> map.contains_key(key)
}

/// The keys of an object in order.
pub open spec fn sorted_keys(map: Map<Seq<char>, JsonView>) -> Seq<Seq<char>> {
    choose|keys: Seq<Seq<char>>| lists_keys(keys, map)
}

/// Every object in the value holds its entries in the order of their keys.
pub open spec fn ordered(json: Json) -> bool
    decreases json,
{
    match json {
        Json::Array(items) => all_ordered(items@),
        Json::Object(entries) => entries_ordered(entries@),
        _ => true,
    }
}

/// Every value is ordered.
pub open spec fn all_ordered(items: Seq<Json>) -> bool
    decreases items,
{
    forall|i: int| 0 <= i < items.len() ==> ordered(#[trigger] items[i])
}

/// The entries stand in the order of their keys, and every value among them is ordered.
pub open spec fn entries_ordered(entries: Seq<(String, Json)>) -> bool
    decreases entries,
{
    &&& ascending(keys_of(entries))
    &&& forall|i: int| 0 <= i < entries.len() ==> ordered(#[trigger] entries[i].1)
}

/// No text comes before itself.
pub proof fn lemma_text_before_irreflexive(a: Seq<char>)
    ensures
        !text_before(a, a),
    decreases a.len(),
{
    if a.len() > 0 {
        lemma_text_before_irreflexive(a.drop_first());
    }
}

/// The order of texts is transitive.
pub proof fn lemma_text_before_transitive(a: Seq<char>, b: Seq<char>, c: Seq<char>)
    requires
        text_before(a, b),
        text_before(b, c),
    ensures
        text_before(a, c),
    decreases a.len(),
{
    if a.len() > 0 && a[0] == b[0] && b[0] == c[0] {
        lemma_text_before_transitive(a.drop_first(), b.drop_first(), c.drop_first());
    }
}

/// Two sequences of texts that ascend and hold the same texts are the same.
pub proof fn lemma_ascending_unique(a: Seq<Seq<char>>, b: Seq<Seq<char>>)
    requires
        ascending(a),
        ascending(b),
        forall|key: Seq<char>| a.contains(key) <==> b.contains(key),
    ensures
        a == b,
    decreases a.len(),
{
    if a.len() == 0 {
        if b.len() > 0 {
            assert(b.contains(b[0]));
        }
        assert(a =~= b);
    } else {
        assert(a.contains(a.last()));
        assert(b.contains(a.last()));
        let k = choose|k: int| 0 <= k < b.len() && b[k] == a.last();
        assert(b.contains(b.last()));
        assert(a.contains(b.last()));
        let m = choose|m: int| 0 <= m < a.len() && a[m] == b.last();
        if k < b.len() - 1 {
            assert(text_before(b[k], b[b.len() - 1]));
            if m < a.len() - 1 {
                assert(text_before(a[m], a[a.len() - 1]));
                lemma_text_before_transitive(a.last(), b.last(), a.last());
            }
            lemma_text_before_irreflexive(a.last());
        }
        let a1 = a.drop_last();
        let b1 = b.drop_last();
        assert forall|key: Seq<char>| a1.contains(key) <==> b1.contains(key) by {
            if a1.contains(key) {
                let i = choose|i: int| 0 <= i < a1.len() && a1[i] == key;
                assert(text_before(a[i], a[a.len() - 1]));
                lemma_text_before_irreflexive(key);
                assert(a.contains(a[i]));
                let j = choose|j: int| 0 <= j < b.len() && b[j] == key;
                assert(b1[j] == key);
            }
            if b1.contains(key) {
                let i = choose|i: int| 0 <= i < b1.len() && b1[i] == key;
                assert(text_before(b[i], b[b.len() - 1]));
                lemma_text_before_irreflexive(key);
                assert(b.contains(b[i]));
                let j = choose|j: int| 0 <= j < a.len() && a[j] == key;
                assert(a1[j] == key);
            }
        }
        lemma_ascending_unique(a1, b1);
        assert(a =~= a1.push(a.last()));
        assert(b =~= b1.push(b.last()));
    }
}

/// The entries of an object and what they are hold the same keys.
proof fn lemma_entries_keys(entries: Seq<(String, Json)>, key: Seq<char>)
    ensures
        keys_of(entries).contains(key) <==> entries_view(entries).contains_key(key),
    decreases entries.len(),
{
    if entries.len() > 0 {
        let rest = entries.drop_last();
        lemma_entries_keys(rest, key);
        assert(keys_of(entries) =~= keys_of(rest).push(entries.last().0@));
        if keys_of(entries).contains(key) && key != entries.last().0@ {
            let i = choose|i: int| 0 <= i < entries.len() && keys_of(entries)[i] == key;
            assert(keys_of(rest)[i] == key);
        }
        if keys_of(rest).contains(key) {
            let i = choose|i: int| 0 <= i < rest.len() && keys_of(rest)[i] == key;
            assert(keys_of(entries)[i] == key);
        }
        assert(keys_of(entries)[entries.len() - 1] == entries.last().0@);
    }
}

/// An object that holds its entries in order lists the keys of what it is in order.
pub proof fn lemma_sorted_keys(entries: Seq<(String, Json)>)
    requires
        ascending(keys_of(entries)),
    ensures
        keys_of(entries) == sorted_keys(entries_view(entries)),
{
    let map = entries_view(entries);
    assert forall|key: Seq<char>| keys_of(entries).contains(key) <==> map.contains_key(key) by {
        lemma_entries_keys(entries, key);
    }
    assert(lists_keys(keys_of(entries), map));
    lemma_ascending_unique(keys_of(entries), sorted_keys(map));
}

/// Texts are ordered by the first place at which they differ: by the characters there, and where
/// one of them ends there, it comes first.
pub proof fn law_texts_are_ordered_by_their_first_difference(
    shared: Seq<char>,
    a: Seq<char>,
    b: Seq<char>,
)
    requires
        a.len() == 0 || b.len() == 0 || a[0] != b[0],
    ensures
        text_before(shared + a, shared + b) <==> b.len() > 0 && (a.len() == 0 || a[0] < b[0]),
    decreases shared.len(),
{
    if shared.len() == 0 {
        assert(shared + a =~= a);
        assert(shared + b =~= b);
    } else {
        law_texts_are_ordered_by_their_first_difference(shared.drop_first(), a, b);
        assert((shared + a).drop_first() =~= shared.drop_first() + a);
        assert((shared + b).drop_first() =~= shared.drop_first() + b);
    }
}

/// Of two different texts one comes before the other.
proof fn lemma_text_before_total(a: Seq<char>, b: Seq<char>)
    requires
        a != b,
    ensures
        text_before(a, b) || text_before(b, a),
    decreases a.len(),
{
    if a.len() == 0 && b.len() == 0 {
        assert(a =~= b);
    } else if a.len() > 0 && b.len() > 0 && a[0] == b[0] {
        if a.drop_first() == b.drop_first() {
            assert(a =~= seq![a[0]] + a.drop_first());
            assert(b =~= seq![b[0]] + b.drop_first());
        }
        lemma_text_before_total(a.drop_first(), b.drop_first());
    }
}

/// A further text has its place among texts in order.
proof fn lemma_placed(keys: Seq<Seq<char>>, key: Seq<char>) -> (placed: Seq<Seq<char>>)
    requires
        ascending(keys),
        !keys.contains(key),
    ensures
        ascending(placed),
        forall|k: Seq<char>| placed.contains(k) <==> keys.contains(k) || k == key,
    decreases keys.len(),
{
    if keys.len() == 0 {
        let placed = seq![key];
        assert(placed[0] == key);
        placed
    } else {
        let last = keys[keys.len() - 1];
        let rest = keys.drop_last();
        assert(keys.contains(last));
        lemma_text_before_total(last, key);
        if text_before(last, key) {
            let placed = keys.push(key);
            assert forall|i: int, j: int| 0 <= i < j < placed.len() implies text_before(
                #[trigger] placed[i],
                #[trigger] placed[j],
            ) by {
                if j == keys.len() && i < keys.len() - 1 {
                    assert(text_before(keys[i], keys[keys.len() - 1]));
                    lemma_text_before_transitive(keys[i], last, key);
                }
            }
            assert forall|k: Seq<char>| placed.contains(k) <==> keys.contains(k) || k == key by {
                assert(placed[keys.len() as int] == key);
                if keys.contains(k) {
                    let i = choose|i: int| 0 <= i < keys.len() && keys[i] == k;
                    assert(placed[i] == k);
                }
            }
            placed
        } else {
            assert forall|i: int, j: int| 0 <= i < j < rest.len() implies text_before(
                #[trigger] rest[i],
                #[trigger] rest[j],
            ) by {
                assert(text_before(keys[i], keys[j]));
            }
            if rest.contains(key) {
                let i = choose|i: int| 0 <= i < rest.len() && rest[i] == key;
                assert(keys[i] == key);
            }
            let before = lemma_placed(rest, key);
            let placed = before.push(last);
            assert forall|i: int, j: int| 0 <= i < j < placed.len() implies text_before(
                #[trigger] placed[i],
                #[trigger] placed[j],
            ) by {
                if j == before.len() {
                    assert(before.contains(before[i]));
                    if before[i] != key {
                        let m = choose|m: int| 0 <= m < rest.len() && rest[m] == before[i];
                        assert(text_before(keys[m], keys[keys.len() - 1]));
                    }
                }
            }
            assert forall|k: Seq<char>| placed.contains(k) <==> keys.contains(k) || k == key by {
                assert(placed[before.len() as int] == last);
                if before.contains(k) {
                    let i = choose|i: int| 0 <= i < before.len() && before[i] == k;
                    assert(placed[i] == k);
                }
                if rest.contains(k) {
                    let i = choose|i: int| 0 <= i < rest.len() && rest[i] == k;
                    assert(keys[i] == k);
                }
                if keys.contains(k) && k != last {
                    let i = choose|i: int| 0 <= i < keys.len() && keys[i] == k;
                    assert(rest[i] == k);
                }
            }
            placed
        }
    }
}

proof fn lemma_keys_can_be_listed(map: Map<Seq<char>, JsonView>) -> (keys: Seq<Seq<char>>)
    requires
        map.dom().finite(),
    ensures
        lists_keys(keys, map),
    decreases map.dom().len(),
{
    if map.dom().len() == 0 {
        let keys = Seq::<Seq<char>>::empty();
        assert forall|key: Seq<char>| keys.contains(key) <==> map.contains_key(key) by {
            if map.contains_key(key) {
                assert(map.dom().contains(key));
                assert(map.dom().remove(key).len() == map.dom().len() - 1);
            }
        }
        keys
    } else {
        let key = map.dom().choose();
        assert(map.dom().contains(key)) by {
            if map.dom() =~= Set::empty() {
                assert(map.dom().len() == 0);
            }
        }
        let rest = map.remove(key);
        assert(rest.dom() =~= map.dom().remove(key));
        let before = lemma_keys_can_be_listed(rest);
        let keys = lemma_placed(before, key);
        keys
    }
}

/// The keys of an object are handed out in order, every one of them and nothing else, none twice.
pub proof fn law_keys_are_handed_out_in_order(map: Map<Seq<char>, JsonView>)
    requires
        map.dom().finite(),
    ensures
        forall|i: int, j: int|
            0 <= i < j < sorted_keys(map).len() ==> text_before(
                #[trigger] sorted_keys(map)[i],
                #[trigger] sorted_keys(map)[j],
            ),
        sorted_keys(map).no_duplicates(),
        forall|key: Seq<char>| sorted_keys(map).contains(key) <==> map.contains_key(key),
{
    let keys = lemma_keys_can_be_listed(map);
    assert(lists_keys(keys, map));
    let sorted = sorted_keys(map);
    assert(lists_keys(sorted, map));
    assert forall|i: int, j: int| 0 <= i < sorted.len() && 0 <= j < sorted.len() && i
        != j implies sorted[i] != sorted[j] by {
        if i < j {
            assert(text_before(sorted[i], sorted[j]));
        } else {
            assert(text_before(sorted[j], sorted[i]));
        }
        lemma_text_before_irreflexive(sorted[i]);
    }
}

} // verus!
