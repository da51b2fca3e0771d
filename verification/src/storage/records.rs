//! A list of records in which a record is found by the id that it holds,
//! as the adapters for document, graph and relational stores keep it. The
//! list may hold two records with one id: the later one counts.

use crate::models::Entity;
use crate::storage::keyed;
use vstd::prelude::*;

verus! {

/// The record with the given id: the last one that holds it.
pub open spec fn last_with<E: Entity>(records: Seq<E::V>, id: Seq<char>) -> Option<E::V>
    decreases records.len(),
{
    if records.len() == 0 {
        None
    } else if E::id_of(records.last()) == id {
        Some(records.last())
    } else {
        last_with::<E>(records.drop_last(), id)
    }
}

/// The records that do not hold the given id, in order.
pub open spec fn dropped<E: Entity>(records: Seq<E::V>, id: Seq<char>) -> Seq<E::V>
    decreases records.len(),
{
    if records.len() == 0 {
        Seq::empty()
    } else if E::id_of(records.last()) == id {
        dropped::<E>(records.drop_last(), id)
    } else {
        dropped::<E>(records.drop_last(), id).push(records.last())
    }
}

/// The records of a list, by id.
pub open spec fn record_map<E: Entity>(records: Seq<E::V>) -> Map<Seq<char>, E::V> {
    Map::new(
        |id: Seq<char>| last_with::<E>(records, id) is Some,
        |id: Seq<char>| last_with::<E>(records, id).unwrap(),
    )
}

/// The record found under an id has that id.
pub proof fn lemma_last_with_has_id<E: Entity>(records: Seq<E::V>, id: Seq<char>)
    ensures
        last_with::<E>(records, id) matches Some(record) ==> E::id_of(record) == id,
    decreases records.len(),
{
    if records.len() > 0 && E::id_of(records.last()) != id {
        lemma_last_with_has_id::<E>(records.drop_last(), id);
    }
}

/// Without the records that hold an id, the id is not found, and every
/// other id is found as before.
pub proof fn lemma_last_with_dropped<E: Entity>(records: Seq<E::V>, id: Seq<char>, other: Seq<char>)
    ensures
        last_with::<E>(dropped::<E>(records, id), other) == if other == id {
            None
        } else {
            last_with::<E>(records, other)
        },
    decreases records.len(),
{
    if records.len() > 0 {
        lemma_last_with_dropped::<E>(records.drop_last(), id, other);
        if E::id_of(records.last()) != id {
            let rest = dropped::<E>(records.drop_last(), id);
            assert(rest.push(records.last()).drop_last() == rest);
        }
    }
}

/// Where no record holds an id, dropping it changes nothing.
pub proof fn lemma_dropped_absent<E: Entity>(records: Seq<E::V>, id: Seq<char>)
    requires
        last_with::<E>(records, id) is None,
    ensures
        dropped::<E>(records, id) == records,
    decreases records.len(),
{
    if records.len() > 0 {
        lemma_dropped_absent::<E>(records.drop_last(), id);
        assert(records.drop_last().push(records.last()) == records);
    }
}

/// The records of a list are held under their ids.
pub proof fn lemma_record_map_keyed<E: Entity>(records: Seq<E::V>)
    ensures
        keyed::<E>(record_map::<E>(records)),
{
    assert forall|id: Seq<char>| #[trigger] record_map::<E>(records).contains_key(id) implies E::id_of(
        record_map::<E>(records)[id],
    ) == id by {
        lemma_last_with_has_id::<E>(records, id);
    }
}

/// Dropping the records that hold an id removes the record with that id
/// and no other.
pub proof fn lemma_record_map_dropped<E: Entity>(records: Seq<E::V>, id: Seq<char>)
    ensures
        record_map::<E>(dropped::<E>(records, id)) == record_map::<E>(records).remove(id),
{
    let left = record_map::<E>(dropped::<E>(records, id));
    let right = record_map::<E>(records).remove(id);
    assert forall|other: Seq<char>| #[trigger]
        left.dom().contains(other) == right.dom().contains(other) && (left.dom().contains(other)
            ==> left[other] == right[other]) by {
        lemma_last_with_dropped::<E>(records, id, other);
    }
    assert(left =~= right);
}

/// Replacing the records that hold the id of a record by that record
/// stores it under its id and changes no other record.
pub proof fn lemma_record_map_replaced<E: Entity>(records: Seq<E::V>, record: E::V)
    ensures
        record_map::<E>(dropped::<E>(records, E::id_of(record)).push(record)) == record_map::<E>(
            records,
        ).insert(E::id_of(record), record),
{
    let id = E::id_of(record);
    let rest = dropped::<E>(records, id);
    let next = rest.push(record);
    let left = record_map::<E>(next);
    let right = record_map::<E>(records).insert(id, record);
    assert(next.drop_last() == rest);
    assert forall|other: Seq<char>| #[trigger]
        left.dom().contains(other) == right.dom().contains(other) && (left.dom().contains(other)
            ==> left[other] == right[other]) by {
        lemma_last_with_dropped::<E>(records, id, other);
    }
    assert(left =~= right);
}

/// The mathematical values of records.
pub open spec fn record_models<E: Entity>(records: Seq<E>) -> Seq<E::V> {
    records.map_values(|record: E| record@)
}

/// A list of records.
pub struct RecordList<E> {
    items: Vec<E>,
}

impl<E: Entity> View for RecordList<E> {
    type V = Seq<E::V>;

    closed spec fn view(&self) -> Seq<E::V> {
        record_models(self.items@)
    }
}

impl<E: Entity> RecordList<E> {
    /// A list of the given records.
    pub fn new(records: Vec<E>) -> (r: Self)
        ensures
            r@ == record_models(records@),
    {
        RecordList { items: records }
    }

    /// The number of records.
    pub fn len(&self) -> (r: usize)
        ensures
            r == self@.len(),
    {
        self.items.len()
    }

    /// A copy of the last record with the given id.
    pub fn find(&self, id: &String) -> (r: Option<E>)
        ensures
            match r {
                Some(record) => last_with::<E>(self@, id@) == Some(record@),
                None => last_with::<E>(self@, id@) is None,
            },
    {
        let mut i: usize = self.items.len();
        assert(self@.take(i as int) == self@);
        while i > 0
            invariant
                i <= self.items.len(),
                last_with::<E>(self@, id@) == last_with::<E>(self@.take(i as int), id@),
            decreases i,
        {
            proof {
                let front = self@.take(i as int);
                assert(front.drop_last() == self@.take(i - 1));
                assert(front.last() == self.items@[i - 1]@);
            }
            i -= 1;
            if *self.items[i].id() == *id {
                return Some(self.items[i].duplicate());
            }
        }
        None
    }

    /// Removes every record with the given id, and says whether there was
    /// one.
    pub fn remove_all(&mut self, id: &String) -> (removed: bool)
        ensures
            final(self)@ == dropped::<E>(old(self)@, id@),
            removed == (last_with::<E>(old(self)@, id@) is Some),
    {
        let ghost all = self@;
        let ghost mut seen: int = 0;
        let mut removed = false;
        let mut i: usize = 0;
        while i < self.items.len()
            invariant
                0 <= seen <= all.len(),
                i == dropped::<E>(all.take(seen), id@).len(),
                self@ == dropped::<E>(all.take(seen), id@) + all.skip(seen),
                removed == (last_with::<E>(all.take(seen), id@) is Some),
            decreases all.len() - seen,
        {
            proof {
                let next = all.take(seen + 1);
                assert(next.drop_last() == all.take(seen));
                assert(next.last() == all[seen]);
                assert(self@[i as int] == all.skip(seen)[0]);
                assert(self.items@[i as int]@ == all[seen]);
            }
            let ghost before = self@;
            if *self.items[i].id() == *id {
                let _ = self.items.remove(i);
                removed = true;
                proof {
                    assert(self@ == before.remove(i as int));
                    assert(self@ == dropped::<E>(all.take(seen + 1), id@) + all.skip(seen + 1));
                }
            } else {
                i += 1;
                proof {
                    assert(self@ == dropped::<E>(all.take(seen + 1), id@) + all.skip(seen + 1));
                }
            }
            proof {
                seen = seen + 1;
            }
        }
        proof {
            assert(seen == all.len());
            assert(all.take(seen) == all);
            assert(all.skip(seen) == Seq::<E::V>::empty());
            assert(self@ == dropped::<E>(all, id@));
        }
        removed
    }

    /// Adds a record behind the others.
    pub fn push(&mut self, record: E)
        ensures
            final(self)@ == old(self)@.push(record@),
    {
        let ghost before = self@;
        self.items.push(record);
        assert(self@ == before.push(record@));
    }

    /// Copies of all records, in order.
    pub fn to_vec(&self) -> (r: Vec<E>)
        ensures
            record_models(r@) == self@,
    {
        let mut copies: Vec<E> = Vec::new();
        let mut i: usize = 0;
        while i < self.items.len()
            invariant
                i <= self.items.len(),
                record_models(copies@) == self@.take(i as int),
            decreases self.items.len() - i,
        {
            let ghost before = record_models(copies@);
            let copy = self.items[i].duplicate();
            copies.push(copy);
            proof {
                assert(record_models(copies@) == before.push(copy@));
                assert(self@.take(i + 1) == self@.take(i as int).push(self.items@[i as int]@));
            }
            i += 1;
        }
        assert(self@.take(i as int) == self@);
        copies
    }
}

} // verus!
