//! Identifier-keyed tables.
//!
//! Manifest tables map identifiers to permissions or permission sets. They
//! are held as vectors kept in strictly sorted key order, which makes the
//! keys unique and the table deterministic, and are modelled in contracts as
//! a `Map` from identifier to entry model.

use vstd::prelude::*;

use crate::strcmp::{lemma_text_lt_connected, lemma_text_lt_irreflexive, lemma_text_lt_transitive,
    text_less_than, text_lt};

verus! {

/// An entry of an identifier-keyed table.
pub trait Keyed: View {
    /// The key of this entry, as contracts see it.
    spec fn skey(&self) -> Seq<char>;

    /// The key of this entry.
    fn key(&self) -> (r: &String)
        ensures
            r@ == self.skey(),
    ;
}

/// The entries' keys are in strictly increasing order, so each key occurs
/// once.
pub open spec fn sorted_keys<T: Keyed>(s: Seq<T>) -> bool {
    forall|i: int, j: int| 0 <= i < j < s.len() ==> text_lt(s[i].skey(), s[j].skey())
}

/// The mapping from key to entry model that a table holds; a later entry
/// with the same key overwrites an earlier one.
pub open spec fn id_map_of<T: Keyed>(s: Seq<T>) -> Map<Seq<char>, T::V>
    decreases s.len(),
{
    if s.len() == 0 {
        Map::empty()
    } else {
        id_map_of(s.drop_last()).insert(s.last().skey(), s.last()@)
    }
}

/// In a sorted table all keys are distinct.
pub proof fn lemma_sorted_unique<T: Keyed>(s: Seq<T>)
    requires
        sorted_keys(s),
    ensures
        forall|i: int, j: int|
            0 <= i < s.len() && 0 <= j < s.len() && i != j ==> s[i].skey() != s[j].skey(),
{
    assert forall|i: int, j: int|
        0 <= i < s.len() && 0 <= j < s.len() && i != j implies s[i].skey() != s[j].skey() by {
        if s[i].skey() == s[j].skey() {
            lemma_text_lt_irreflexive(s[i].skey());
        }
    }
}

/// Inserting an entry whose key is absent inserts its model into the map.
pub proof fn lemma_id_map_insert_at<T: Keyed>(s: Seq<T>, i: int, item: T)
    requires
        0 <= i <= s.len(),
        forall|j: int| 0 <= j < s.len() ==> s[j].skey() != item.skey(),
    ensures
        id_map_of(s.insert(i, item)) == id_map_of(s).insert(item.skey(), item@),
    decreases s.len(),
{
    let s2 = s.insert(i, item);
    let k = item.skey();
    if i == s.len() {
        assert(s2.drop_last() =~= s);
        assert(s2.last() == item);
    } else {
        assert(s2.last() == s[s.len() - 1]);
        assert(s2.drop_last() =~= s.drop_last().insert(i, item));
        assert(forall|j: int|
            0 <= j < s.drop_last().len() ==> s.drop_last()[j] == s[j]);
        lemma_id_map_insert_at(s.drop_last(), i, item);
        let m = id_map_of(s.drop_last());
        let lk = s.last().skey();
        assert(lk != k);
        assert(m.insert(k, item@).insert(lk, s.last()@) =~= m.insert(lk, s.last()@).insert(
            k,
            item@,
        ));
        assert(id_map_of(s2) == id_map_of(s2.drop_last()).insert(s2.last().skey(), s2.last()@));
    }
}

/// Overwriting the entry that holds a key inserts the new model into the
/// map.
pub proof fn lemma_id_map_update_at<T: Keyed>(s: Seq<T>, i: int, item: T)
    requires
        0 <= i < s.len(),
        s[i].skey() == item.skey(),
        forall|j: int| 0 <= j < s.len() && j != i ==> s[j].skey() != item.skey(),
    ensures
        id_map_of(s.update(i, item)) == id_map_of(s).insert(item.skey(), item@),
    decreases s.len(),
{
    let s2 = s.update(i, item);
    let k = item.skey();
    if i == s.len() - 1 {
        assert(s2.drop_last() =~= s.drop_last());
        assert(s2.last() == item);
        let m = id_map_of(s.drop_last());
        assert(m.insert(k, item@) =~= m.insert(s.last().skey(), s.last()@).insert(k, item@));
    } else {
        assert(s2.last() == s[s.len() - 1]);
        assert(s2.drop_last() =~= s.drop_last().update(i, item));
        assert(forall|j: int|
            0 <= j < s.drop_last().len() ==> s.drop_last()[j] == s[j]);
        lemma_id_map_update_at(s.drop_last(), i, item);
        let m = id_map_of(s.drop_last());
        let lk = s.last().skey();
        assert(lk != k);
        assert(m.insert(k, item@).insert(lk, s.last()@) =~= m.insert(lk, s.last()@).insert(
            k,
            item@,
        ));
        assert(id_map_of(s2) == id_map_of(s2.drop_last()).insert(s2.last().skey(), s2.last()@));
    }
}

/// A key is in the map exactly when some entry holds it.
pub proof fn lemma_id_map_contains<T: Keyed>(s: Seq<T>, k: Seq<char>)
    ensures
        id_map_of(s).contains_key(k) <==> exists|i: int| 0 <= i < s.len() && s[i].skey() == k,
    decreases s.len(),
{
    if s.len() > 0 {
        lemma_id_map_contains(s.drop_last(), k);
        assert(forall|j: int|
            0 <= j < s.drop_last().len() ==> s.drop_last()[j] == s[j]);
        if s.last().skey() == k {
            assert(s[s.len() - 1].skey() == k);
        } else {
            if exists|i: int| 0 <= i < s.len() && s[i].skey() == k {
                let i = choose|i: int| 0 <= i < s.len() && s[i].skey() == k;
                assert(i < s.len() - 1);
                assert(s.drop_last()[i].skey() == k);
            }
        }
    }
}

/// The map sends the key of an entry not followed by an equal key to that
/// entry's model.
pub proof fn lemma_id_map_index<T: Keyed>(s: Seq<T>, i: int)
    requires
        0 <= i < s.len(),
        forall|j: int| i < j < s.len() ==> s[j].skey() != s[i].skey(),
    ensures
        id_map_of(s).contains_key(s[i].skey()),
        id_map_of(s)[s[i].skey()] == s[i]@,
    decreases s.len(),
{
    if i < s.len() - 1 {
        assert(forall|j: int|
            0 <= j < s.drop_last().len() ==> s.drop_last()[j] == s[j]);
        lemma_id_map_index(s.drop_last(), i);
        assert(s.last().skey() != s[i].skey());
    }
}

/// Inserts an entry into a sorted table, replacing the entry with the same
/// key if one is present.
pub fn id_map_insert<T: Keyed>(list: &mut Vec<T>, item: T)
    requires
        sorted_keys(old(list)@),
    ensures
        sorted_keys(final(list)@),
        id_map_of(final(list)@) == id_map_of(old(list)@).insert(item.skey(), item@),
{
    let ghost s = list@;
    let ghost k = item.skey();
    let mut i: usize = 0;
    while i < list.len() && text_less_than(list[i].key().as_str(), item.key().as_str())
        invariant
            i <= list@.len(),
            list@ == s,
            k == item.skey(),
            forall|j: int| 0 <= j < i ==> text_lt(s[j].skey(), k),
        decreases list@.len() - i,
    {
        i = i + 1;
    }
    if i < list.len() && !text_less_than(item.key().as_str(), list[i].key().as_str()) {
        proof {
            lemma_text_lt_connected(k, s[i as int].skey());
            lemma_sorted_unique(s);
            assert(s.remove(i as int).insert(i as int, item) =~= s.update(i as int, item));
            lemma_id_map_update_at(s, i as int, item);
        }
        list.remove(i);
        list.insert(i, item);
        proof {
            assert(s.remove(i as int).insert(i as int, item) == s.update(i as int, item));
            assert(list@ == s.update(i as int, item));
            assert forall|a: int, b: int|
                0 <= a < b < s.update(i as int, item).len() implies text_lt(
                s.update(i as int, item)[a].skey(),
                s.update(i as int, item)[b].skey(),
            ) by {
                assert(s.update(i as int, item)[a].skey() == s[a].skey());
                assert(s.update(i as int, item)[b].skey() == s[b].skey());
            }
        }
    } else {
        proof {
            assert forall|j: int| 0 <= j < s.len() implies s[j].skey() != k by {
                if j < i {
                    lemma_text_lt_irreflexive(k);
                } else if j == i {
                    lemma_text_lt_irreflexive(k);
                } else {
                    assert(text_lt(s[i as int].skey(), s[j].skey()));
                    lemma_text_lt_transitive(k, s[i as int].skey(), s[j].skey());
                    lemma_text_lt_irreflexive(k);
                }
            }
            lemma_id_map_insert_at(s, i as int, item);
        }
        list.insert(i, item);
        proof {
            let s2 = s.insert(i as int, item);
            assert forall|a: int, b: int| 0 <= a < b < s2.len() implies text_lt(
                s2[a].skey(),
                s2[b].skey(),
            ) by {
                if a < i && b < i {
                } else if a < i && b == i {
                } else if a < i && b > i {
                    assert(s2[b].skey() == s[b - 1].skey());
                    if b - 1 == i {
                        lemma_text_lt_transitive(s[a].skey(), k, s[i as int].skey());
                    }
                } else if a == i && b > i {
                    assert(s2[b].skey() == s[b - 1].skey());
                    if b - 1 > i {
                        lemma_text_lt_transitive(k, s[i as int].skey(), s[b - 1].skey());
                    }
                } else {
                    assert(s2[a].skey() == s[a - 1].skey());
                    assert(s2[b].skey() == s[b - 1].skey());
                }
            }
        }
    }
}

/// Looks an entry up by key in a sorted table.
pub fn id_map_get<'a, T: Keyed>(list: &'a Vec<T>, key: &String) -> (r: Option<&'a T>)
    requires
        sorted_keys(list@),
    ensures
        match r {
            Some(t) => id_map_of(list@).contains_key(key@) && t@ == id_map_of(list@)[key@]
                && t.skey() == key@,
            None => !id_map_of(list@).contains_key(key@),
        },
{
    let mut i: usize = 0;
    while i < list.len()
        invariant
            i <= list@.len(),
            sorted_keys(list@),
            forall|j: int| 0 <= j < i ==> list@[j].skey() != key@,
        decreases list@.len() - i,
    {
        if crate::strcmp::text_equal(list[i].key(), key) {
            proof {
                lemma_sorted_unique(list@);
                lemma_id_map_index(list@, i as int);
            }
            return Some(&list[i]);
        }
        i = i + 1;
    }
    proof {
        lemma_id_map_contains(list@, key@);
    }
    None
}

} // verus!
