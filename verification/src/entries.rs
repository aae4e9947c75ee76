//! Association lists sorted by name: the finite maps from names to values
//! that the exploration inputs keep, with lookup and insertion.
use vstd::prelude::*;

use crate::macro_model::model::{first_named, lemma_first_named};
use crate::text::{is_blank, lemma_text_less_irreflexive, lemma_text_less_total, lemma_text_less_transitive, str_eq, str_less, strictly_sorted, text_less};

verus! {


/// The names of an association list, in order.
pub open spec fn entry_names<V>(entries: Seq<(String, V)>) -> Seq<Seq<char>> {
    entries.map_values(|e: (String, V)| e.0@)
}

/// The value listed under `name`, if any.
pub open spec fn entry_value<V>(entries: Seq<(String, V)>, name: Seq<char>) -> Option<V> {
    match first_named(entry_names(entries), name) {
        Some(i) => Some(entries[i].1),
        None => None,
    }
}

/// The values listed in an association list, by name.
pub open spec fn entry_map<V>(entries: Seq<(String, V)>) -> Map<Seq<char>, V> {
    Map::new(|name: Seq<char>| entry_value(entries, name) is Some, |name: Seq<char>| entry_value(entries, name)->0)
}

/// In a list sorted by name, entry `i` is the one listed under its name.
pub proof fn lemma_sorted_entry<V>(entries: Seq<(String, V)>, i: int)
    requires
        strictly_sorted(entry_names(entries)),
        0 <= i < entries.len(),
    ensures
        entry_value(entries, entries[i].0@) == Some(entries[i].1),
{
    let names = entry_names(entries);
    assert forall|k: int| 0 <= k < i implies names[k] != names[i] by {
        assert(text_less(names[k], names[i]));
        lemma_text_less_irreflexive(names[i]);
    }
    lemma_first_named(names, names[i], i);
}

/// A name that no entry carries has no value.
pub proof fn lemma_absent_entry<V>(entries: Seq<(String, V)>, name: Seq<char>)
    requires
        forall|k: int| 0 <= k < entries.len() ==> (#[trigger] entries[k]).0@ != name,
    ensures
        entry_value(entries, name) is None,
{
    let names = entry_names(entries);
    assert forall|k: int| 0 <= k < names.len() implies names[k] != name by {
        assert(names[k] == entries[k].0@);
    }
}

/// The value of every name of a list sorted by name, from its entries.
pub proof fn lemma_entry_values<V>(entries: Seq<(String, V)>, name: Seq<char>)
    requires
        strictly_sorted(entry_names(entries)),
    ensures
        entry_value(entries, name) matches Some(v) ==> exists|i: int|
            0 <= i < entries.len() && entries[i].0@ == name && entries[i].1 == v,
        entry_value(entries, name) is None ==> forall|k: int| 0 <= k < entries.len() ==> (#[trigger] entries[k]).0@ != name,
{
    if exists|k: int| 0 <= k < entries.len() && (#[trigger] entries[k]).0@ == name {
        let k = choose|k: int| 0 <= k < entries.len() && (#[trigger] entries[k]).0@ == name;
        lemma_sorted_entry(entries, k);
    } else {
        lemma_absent_entry(entries, name);
    }
}

/// The slot of `name` in a list sorted by name: the first position whose
/// name is not before it, and whether the entry there is named `name`.
pub fn entry_slot<V>(entries: &Vec<(String, V)>, name: &str) -> (slot: (usize, bool))
    ensures
        slot.0 <= entries@.len(),
        forall|k: int| 0 <= k < slot.0 ==> text_less((#[trigger] entries@[k]).0@, name@),
        slot.0 < entries@.len() ==> !text_less(entries@[slot.0 as int].0@, name@),
        slot.1 <==> slot.0 < entries@.len() && entries@[slot.0 as int].0@ == name@,
{
    let mut p: usize = 0;
    while p < entries.len() && str_less(entries[p].0.as_str(), name)
        invariant
            p <= entries@.len(),
            forall|k: int| 0 <= k < p ==> text_less((#[trigger] entries@[k]).0@, name@),
        decreases entries@.len() - p,
    {
        p = p + 1;
    }
    let found = p < entries.len() && str_eq(entries[p].0.as_str(), name);
    (p, found)
}

/// The value under `name` is the one at its slot, when the slot holds the
/// name, and there is none otherwise.
pub proof fn lemma_slot_value<V>(entries: Seq<(String, V)>, name: Seq<char>, p: int, found: bool)
    requires
        strictly_sorted(entry_names(entries)),
        0 <= p <= entries.len(),
        forall|k: int| 0 <= k < p ==> text_less((#[trigger] entries[k]).0@, name),
        p < entries.len() ==> !text_less(entries[p].0@, name),
        found <==> p < entries.len() && entries[p].0@ == name,
    ensures
        entry_value(entries, name) == if found {
            Some(entries[p].1)
        } else {
            None::<V>
        },
{
    let names = entry_names(entries);
    if found {
        lemma_sorted_entry(entries, p);
    } else {
        assert forall|k: int| 0 <= k < entries.len() implies (#[trigger] entries[k]).0@ != name by {
            if k < p {
                lemma_text_less_irreflexive(name);
            } else if k > p {
                assert(text_less(names[p], names[k]));
            }
        }
        lemma_absent_entry(entries, name);
    }
}

/// Putting a value under `name` at its slot keeps the list sorted, lists the
/// value under `name`, and leaves every other name's value as it was.
pub proof fn lemma_put_entry<V>(before: Seq<(String, V)>, after: Seq<(String, V)>, name: Seq<char>, p: int, found: bool, v: V)
    requires
        strictly_sorted(entry_names(before)),
        0 <= p <= before.len(),
        forall|k: int| 0 <= k < p ==> text_less((#[trigger] before[k]).0@, name),
        p < before.len() ==> !text_less(before[p].0@, name),
        found <==> p < before.len() && before[p].0@ == name,
        found ==> after.len() == before.len() && after[p].0@ == name && after[p].1 == v && forall|k: int|
            0 <= k < before.len() && k != p ==> #[trigger] after[k] == before[k],
        !found ==> after.len() == before.len() + 1 && after[p].0@ == name && after[p].1 == v && (forall|k: int|
            0 <= k < p ==> #[trigger] after[k] == before[k]) && forall|k: int|
            p < k < after.len() ==> #[trigger] after[k] == before[k - 1],
    ensures
        strictly_sorted(entry_names(after)),
        entry_value(after, name) == Some(v),
        forall|other: Seq<char>| other != name ==> #[trigger] entry_value(after, other) == entry_value(before, other),
{
    let bn = entry_names(before);
    let an = entry_names(after);
    if !found && p < before.len() {
        lemma_text_less_total(before[p].0@, name);
    }
    assert forall|k: int| p <= k < before.len() && !(found && k == p) implies text_less(
        name,
        (#[trigger] before[k]).0@,
    ) by {
        if found {
            assert(text_less(bn[p], bn[k]));
        } else if k > p {
            lemma_text_less_total(before[p].0@, name);
            assert(text_less(bn[p], bn[k]));
            lemma_text_less_transitive(name, before[p].0@, before[k].0@);
        }
    }
    assert forall|a: int, b: int| 0 <= a < b < an.len() implies text_less(#[trigger] an[a], #[trigger] an[b]) by {
        assert(an[a] == after[a].0@ && an[b] == after[b].0@);
        if found {
            if a == p {
                assert(after[b] == before[b]);
            } else if b == p {
                assert(after[a] == before[a]);
            } else {
                assert(after[a] == before[a] && after[b] == before[b]);
                assert(text_less(bn[a], bn[b]));
            }
        } else {
            if b < p {
                assert(after[a] == before[a] && after[b] == before[b]);
                assert(text_less(bn[a], bn[b]));
            } else if b == p {
                assert(after[a] == before[a]);
            } else if a < p {
                assert(after[a] == before[a] && after[b] == before[b - 1]);
                lemma_text_less_transitive(before[a].0@, name, before[b - 1].0@);
            } else if a == p {
                assert(after[b] == before[b - 1]);
            } else {
                assert(after[a] == before[a - 1] && after[b] == before[b - 1]);
                assert(text_less(bn[a - 1], bn[b - 1]));
            }
        }
    }
    lemma_sorted_entry(after, p);
    assert forall|other: Seq<char>| other != name implies #[trigger] entry_value(after, other) == entry_value(
        before,
        other,
    ) by {
        lemma_entry_values(before, other);
        lemma_entry_values(after, other);
        if exists|k: int| 0 <= k < before.len() && (#[trigger] before[k]).0@ == other {
            let k = choose|k: int| 0 <= k < before.len() && (#[trigger] before[k]).0@ == other;
            lemma_sorted_entry(before, k);
            let j = if found || k < p {
                k
            } else {
                k + 1
            };
            assert(after[j] == before[k]);
            lemma_sorted_entry(after, j);
        } else {
            assert forall|j: int| 0 <= j < after.len() implies (#[trigger] after[j]).0@ != other by {
                if j == p {
                } else if found || j < p {
                    assert(after[j] == before[j]);
                } else {
                    assert(after[j] == before[j - 1]);
                }
            }
            lemma_absent_entry(after, other);
        }
    }
}

/// Returns the value listed under `name` in a list sorted by name.
pub fn get_entry<'a, V>(entries: &'a Vec<(String, V)>, name: &str) -> (value: Option<&'a V>)
    requires
        strictly_sorted(entry_names(entries@)),
    ensures
        match value {
            Some(v) => entry_value(entries@, name@) == Some(*v),
            None => entry_value(entries@, name@) is None,
        },
        match value {
            Some(v) => entry_map(entries@).contains_key(name@) && entry_map(entries@)[name@] == *v,
            None => !entry_map(entries@).contains_key(name@),
        },
{
    let (p, found) = entry_slot(entries, name);
    proof {
        lemma_slot_value(entries@, name@, p as int, found);
    }
    if found {
        Some(&entries[p].1)
    } else {
        None
    }
}

/// Puts `value` under `name` in a list sorted by name, replacing the value
/// listed there; every other name keeps its value.
pub fn put_entry<V>(entries: &mut Vec<(String, V)>, name: String, value: V)
    requires
        strictly_sorted(entry_names(old(entries)@)),
    ensures
        strictly_sorted(entry_names(final(entries)@)),
        entry_value(final(entries)@, name@) == Some(value),
        forall|other: Seq<char>| other != name@ ==> #[trigger] entry_value(final(entries)@, other) == entry_value(
            old(entries)@,
            other,
        ),
        entry_map(final(entries)@) == entry_map(old(entries)@).insert(name@, value),
{
    let (p, found) = entry_slot(entries, name.as_str());
    let ghost before = entries@;
    let ghost key = name@;
    let ghost v = value;
    if found {
        entries.set(p, (name, value));
    } else {
        entries.insert(p, (name, value));
        proof {
            before.insert_ensures(p as int, entries@[p as int]);
        }
    }
    proof {
        lemma_put_entry(before, entries@, key, p as int, found, v);
        assert(entry_map(entries@) =~= entry_map(before).insert(key, v));
    }
}


/// Every entry of a list sorted by name is listed under its name, and every
/// listed name is the name of an entry.
pub proof fn lemma_entry_map_facts<V>(a: Seq<(String, V)>)
    requires
        strictly_sorted(entry_names(a)),
    ensures
        forall|i: int| 0 <= i < a.len() ==> entry_map(a).contains_key(#[trigger] a[i].0@) && entry_map(a)[a[i].0@] == a[i].1,
        forall|name: Seq<char>| #[trigger] entry_map(a).contains_key(name) ==> exists|i: int| 0 <= i < a.len() && a[i].0@ == name,
{
    assert forall|i: int| 0 <= i < a.len() implies entry_map(a).contains_key(#[trigger] a[i].0@) && entry_map(a)[a[i].0@]
        == a[i].1 by {
        lemma_sorted_entry(a, i);
    }
    assert forall|name: Seq<char>| #[trigger] entry_map(a).contains_key(name) implies exists|i: int|
        0 <= i < a.len() && a[i].0@ == name by {
        if forall|k: int| 0 <= k < a.len() ==> (#[trigger] a[k]).0@ != name {
            lemma_absent_entry(a, name);
        }
    }
}

/// The first `i + 1` entries of a list sorted by name list one more name
/// than the first `i`.
pub proof fn lemma_entry_map_step<V>(a: Seq<(String, V)>, i: int)
    requires
        strictly_sorted(entry_names(a)),
        0 <= i < a.len(),
    ensures
        !entry_map(a.take(i)).contains_key(a[i].0@),
        entry_map(a.take(i + 1)) == entry_map(a.take(i)).insert(a[i].0@, a[i].1),
        strictly_sorted(entry_names(a.take(i))),
        strictly_sorted(entry_names(a.take(i + 1))),
{
    let b = a.take(i + 1);
    let c = a.take(i);
    assert(entry_names(b) =~= entry_names(a).take(i + 1));
    assert(entry_names(c) =~= entry_names(a).take(i));
    lemma_entry_map_facts(b);
    lemma_entry_map_facts(c);
    if entry_map(c).contains_key(a[i].0@) {
        let k = choose|k: int| 0 <= k < c.len() && c[k].0@ == a[i].0@;
        assert(text_less(entry_names(a)[k], entry_names(a)[i]));
        lemma_text_less_irreflexive(a[i].0@);
    }
    let target = entry_map(c).insert(a[i].0@, a[i].1);
    assert forall|name: Seq<char>| #[trigger] entry_map(b).contains_key(name) == target.contains_key(name) && (
    entry_map(b).contains_key(name) ==> entry_map(b)[name] == target[name]) by {
        if name == a[i].0@ {
            assert(b[i].0@ == name);
        } else if entry_map(c).contains_key(name) {
            let k = choose|k: int| 0 <= k < c.len() && c[k].0@ == name;
            assert(b[k] == c[k]);
        } else if entry_map(b).contains_key(name) {
            let k = choose|k: int| 0 <= k < b.len() && b[k].0@ == name;
            if k < i {
                assert(b[k] == c[k]);
            }
        }
    }
    assert(entry_map(b) =~= target);
}

/// Some name of the list is blank.
pub open spec fn any_blank<V>(entries: Seq<(String, V)>) -> bool {
    exists|i: int| 0 <= i < entries.len() && is_blank(#[trigger] entries[i].0@)
}

/// One more entry has a blank name exactly when it or an earlier one does.
pub proof fn lemma_any_blank_step<V>(a: Seq<(String, V)>, i: int)
    requires
        0 <= i < a.len(),
    ensures
        any_blank(a.take(i + 1)) == (any_blank(a.take(i)) || is_blank(a[i].0@)),
{
    let b = a.take(i + 1);
    let c = a.take(i);
    if any_blank(b) {
        let k = choose|k: int| 0 <= k < b.len() && is_blank(#[trigger] b[k].0@);
        if k < i {
            assert(c[k] == b[k]);
        }
    }
    if any_blank(c) {
        let k = choose|k: int| 0 <= k < c.len() && is_blank(#[trigger] c[k].0@);
        assert(b[k] == c[k]);
    }
    if is_blank(a[i].0@) {
        assert(b[i] == a[i]);
    }
}

} // verus!
