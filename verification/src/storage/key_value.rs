//! The adapter for key-value stores: every entity is one member of a set
//! that is named after the entity type, written as a record that describes
//! itself. The store has no index, so every operation scans the set.

use crate::models::Entity;
use crate::storage::blocked;
use crate::storage::keyed;
use crate::storage::StorageAdapter;
use crate::storage::StorageError;
use crate::storage::StorageErrorModel;
use vstd::prelude::*;
use vstd::string::StringExecFns;

verus! {

/// A member of the set.
#[derive(Debug, PartialEq, Eq)]
pub enum Member<E> {
    /// A member that the store holds: its text, and the record that the
    /// text describes.
    Stored { text: String, record: E },
    /// A member that the store holds and whose text describes no record:
    /// its text, and why it could not be read.
    Damaged { text: String, cause: String },
    /// A member that the adapter added and whose text is not written yet.
    Added(E),
}

/// The mathematical value of a [`Member`].
pub enum MemberModel<V> {
    Stored { text: Seq<char>, record: V },
    Damaged { text: Seq<char>, cause: Seq<char> },
    Added(V),
}

impl<V> MemberModel<V> {
    /// The record of the member, if it has one.
    pub open spec fn record(self) -> Option<V> {
        match self {
            MemberModel::Stored { text, record } => Some(record),
            MemberModel::Damaged { text, cause } => None,
            MemberModel::Added(record) => Some(record),
        }
    }

    /// The failure that reports a member without a record: it names the
    /// text of the member and the cause.
    pub open spec fn report(self) -> StorageErrorModel {
        match self {
            MemberModel::Damaged { text, cause } => StorageErrorModel::BackendFailure(
                "malformed record "@ + text + ": "@ + cause,
            ),
            _ => StorageErrorModel::BackendFailure("malformed record"@),
        }
    }
}

/// Whether the member at `index` is the first that describes no record.
pub open spec fn first_damaged<V>(members: Seq<MemberModel<V>>, index: int) -> bool {
    &&& 0 <= index < members.len()
    &&& members[index] is Damaged
    &&& forall|before: int| 0 <= before < index ==> !(#[trigger] members[before] is Damaged)
}

impl<E: Entity> View for Member<E> {
    type V = MemberModel<E::V>;

    open spec fn view(&self) -> MemberModel<E::V> {
        match self {
            Member::Stored { text, record } => MemberModel::Stored { text: text@, record: record@ },
            Member::Damaged { text, cause } => MemberModel::Damaged { text: text@, cause: cause@ },
            Member::Added(entity) => MemberModel::Added(entity@),
        }
    }
}

/// A change of the set that the adapter asks for.
#[derive(Debug, PartialEq, Eq)]
pub enum SetWrite<E> {
    /// Add the record as a new member.
    Add(E),
    /// Remove the member.
    Remove(Member<E>),
}

/// The mathematical value of a [`SetWrite`].
pub enum SetWriteModel<V> {
    Add(V),
    Remove(MemberModel<V>),
}

impl<E: Entity> View for SetWrite<E> {
    type V = SetWriteModel<E::V>;

    open spec fn view(&self) -> SetWriteModel<E::V> {
        match self {
            SetWrite::Add(entity) => SetWriteModel::Add(entity@),
            SetWrite::Remove(member) => SetWriteModel::Remove(member@),
        }
    }
}

/// Whether a member holds a record with the given id.
pub open spec fn holds<E: Entity>(member: MemberModel<E::V>, id: Seq<char>) -> bool {
    match member.record() {
        Some(record) => E::id_of(record) == id,
        None => false,
    }
}

/// The record with the given id: that of the last member that holds one.
pub open spec fn entry<E: Entity>(members: Seq<MemberModel<E::V>>, id: Seq<char>) -> Option<E::V>
    decreases members.len(),
{
    if members.len() == 0 {
        None
    } else if holds::<E>(members.last(), id) {
        members.last().record()
    } else {
        entry::<E>(members.drop_last(), id)
    }
}

/// The members that do not hold a record with the given id, in order.
pub open spec fn without<E: Entity>(members: Seq<MemberModel<E::V>>, id: Seq<char>) -> Seq<
    MemberModel<E::V>,
>
    decreases members.len(),
{
    if members.len() == 0 {
        Seq::empty()
    } else if holds::<E>(members.last(), id) {
        without::<E>(members.drop_last(), id)
    } else {
        without::<E>(members.drop_last(), id).push(members.last())
    }
}

/// The removal of every member that holds a record with the given id, in
/// order.
pub open spec fn removals<E: Entity>(members: Seq<MemberModel<E::V>>, id: Seq<char>) -> Seq<
    SetWriteModel<E::V>,
>
    decreases members.len(),
{
    if members.len() == 0 {
        Seq::empty()
    } else if holds::<E>(members.last(), id) {
        removals::<E>(members.drop_last(), id).push(SetWriteModel::Remove(members.last()))
    } else {
        removals::<E>(members.drop_last(), id)
    }
}

/// The records of the members that have one, in order.
pub open spec fn decoded<E: Entity>(members: Seq<MemberModel<E::V>>) -> Seq<E::V>
    decreases members.len(),
{
    if members.len() == 0 {
        Seq::empty()
    } else {
        match members.last().record() {
            Some(record) => decoded::<E>(members.drop_last()).push(record),
            None => decoded::<E>(members.drop_last()),
        }
    }
}

/// The failure of a scan of the set: the report of the first member
/// without a record, where there is one.
pub open spec fn scan_failure<V>(members: Seq<MemberModel<V>>) -> Option<StorageErrorModel> {
    if exists|index: int| first_damaged(members, index) {
        Some(members[choose|index: int| first_damaged(members, index)].report())
    } else {
        None
    }
}

/// What a listing of the set gives: the failure of the scan, where a
/// member has no record, and otherwise the records of all members, in
/// order.
pub open spec fn scan_outcome<E: Entity>(members: Seq<MemberModel<E::V>>) -> Result<
    Seq<E::V>,
    StorageErrorModel,
> {
    blocked(scan_failure(members), Ok::<Seq<E::V>, StorageErrorModel>(decoded::<E>(members)))
}

/// The mathematical value of what a listing returned.
pub open spec fn scan_view<E: Entity>(outcome: Result<Vec<E>, StorageError>) -> Result<
    Seq<E::V>,
    StorageErrorModel,
> {
    match outcome {
        Ok(records) => Ok(entity_models(records@)),
        Err(error) => Err(error@),
    }
}

/// The records that a set holds, by id.
pub open spec fn records_of<E: Entity>(members: Seq<MemberModel<E::V>>) -> Map<Seq<char>, E::V> {
    Map::new(
        |id: Seq<char>| entry::<E>(members, id) is Some,
        |id: Seq<char>| entry::<E>(members, id).unwrap(),
    )
}

/// The record found under an id has that id.
pub proof fn lemma_entry_has_id<E: Entity>(members: Seq<MemberModel<E::V>>, id: Seq<char>)
    ensures
        entry::<E>(members, id) matches Some(record) ==> E::id_of(record) == id,
    decreases members.len(),
{
    if members.len() > 0 && !holds::<E>(members.last(), id) {
        lemma_entry_has_id::<E>(members.drop_last(), id);
    }
}

/// Without the members that hold an id, the id is not found, and every
/// other id is found as before.
pub proof fn lemma_entry_without<E: Entity>(
    members: Seq<MemberModel<E::V>>,
    id: Seq<char>,
    other: Seq<char>,
)
    ensures
        entry::<E>(without::<E>(members, id), other) == if other == id {
            None
        } else {
            entry::<E>(members, other)
        },
    decreases members.len(),
{
    if members.len() > 0 {
        lemma_entry_without::<E>(members.drop_last(), id, other);
        if !holds::<E>(members.last(), id) {
            let rest = without::<E>(members.drop_last(), id);
            assert(rest.push(members.last()).drop_last() == rest);
        }
    }
}

/// The mathematical values of members.
pub open spec fn member_models<E: Entity>(members: Seq<Member<E>>) -> Seq<MemberModel<E::V>> {
    members.map_values(|member: Member<E>| member@)
}

/// The mathematical values of writes.
pub open spec fn write_models<E: Entity>(writes: Seq<SetWrite<E>>) -> Seq<SetWriteModel<E::V>> {
    writes.map_values(|write: SetWrite<E>| write@)
}

/// The mathematical values of entities.
pub open spec fn entity_models<E: Entity>(entities: Seq<E>) -> Seq<E::V> {
    entities.map_values(|entity: E| entity@)
}

impl<E: Entity> Member<E> {
    /// A member as a scan of the set found it: its text, and the record
    /// that the text describes or the cause for which it describes none.
    pub fn scanned(text: String, record: Result<E, String>) -> (r: Member<E>)
        ensures
            r == (match record {
                Ok(entity) => Member::Stored { text, record: entity },
                Err(cause) => Member::Damaged { text, cause },
            }),
    {
        match record {
            Ok(entity) => Member::Stored { text, record: entity },
            Err(cause) => Member::Damaged { text, cause },
        }
    }

    /// The record of the member, if it has one.
    pub fn record(&self) -> (r: Option<&E>)
        ensures
            match r {
                Some(entity) => self@.record() == Some(entity@),
                None => self@.record() is None,
            },
    {
        match self {
            Member::Stored { text, record } => Some(record),
            Member::Damaged { text, cause } => None,
            Member::Added(entity) => Some(entity),
        }
    }

    /// Whether the member holds a record with the given id.
    pub fn holds(&self, id: &String) -> (r: bool)
        ensures
            r == holds::<E>(self@, id@),
    {
        match self.record() {
            Some(entity) => *entity.id() == *id,
            None => false,
        }
    }
}

/// The adapter for a key-value store. It works on the members that a scan
/// of the set found, and keeps a list of the writes by which the set in the
/// store follows.
pub struct KeyValueAdapter<E> {
    members: Vec<Member<E>>,
    writes: Vec<SetWrite<E>>,
}

impl<E: Entity> KeyValueAdapter<E> {
    /// The members of the set, in the order of the scan, with those that
    /// the adapter added behind them.
    pub closed spec fn members(&self) -> Seq<MemberModel<E::V>> {
        member_models(self.members@)
    }

    /// The writes that the store has not seen yet, in order.
    pub closed spec fn writes(&self) -> Seq<SetWriteModel<E::V>> {
        write_models(self.writes@)
    }

    /// An adapter for the set that a scan found.
    pub fn open(scanned: Vec<Member<E>>) -> (r: Self)
        ensures
            r.members() == member_models(scanned@),
            r.writes() == Seq::<SetWriteModel<E::V>>::empty(),
    {
        KeyValueAdapter { members: scanned, writes: Vec::new() }
    }

    /// Every record of the set, in order. A member that describes no
    /// record is a failure of the store, which the error reports: the
    /// listing is never shortened in silence.
    pub fn scan(&self) -> (r: Result<Vec<E>, StorageError>)
        ensures
            scan_view(r) == scan_outcome::<E>(self.members()),
    {
        match self.check_readable() {
            Ok(_) => {},
            Err(error) => {
                return Err(error);
            },
        }
        let mut found: Vec<E> = Vec::new();
        let mut i: usize = 0;
        while i < self.members.len()
            invariant
                i <= self.members.len(),
                entity_models(found@) == decoded::<E>(self.members().take(i as int)),
            decreases self.members.len() - i,
        {
            proof {
                let next = self.members().take(i + 1);
                assert(next.drop_last() == self.members().take(i as int));
                assert(next.last() == self.members@[i as int]@);
            }
            let ghost before = found@;
            match self.members[i].record() {
                Some(entity) => {
                    let copy = entity.duplicate();
                    found.push(copy);
                    assert(entity_models(found@) == entity_models(before).push(copy@));
                },
                None => {},
            }
            i += 1;
        }
        assert(self.members().take(i as int) == self.members());
        Ok(found)
    }

    /// Whether every member describes a record: the failure of the scan
    /// where one does not.
    fn check_readable(&self) -> (r: Result<(), StorageError>)
        ensures
            match r {
                Ok(_) => scan_failure(self.members()) is None,
                Err(error) => scan_failure(self.members()) == Some(error@),
            },
    {
        let mut i: usize = 0;
        while i < self.members.len()
            invariant
                i <= self.members.len(),
                forall|before: int| 0 <= before < i ==> !(#[trigger] self.members()[before] is Damaged),
            decreases self.members.len() - i,
        {
            proof {
                assert(self.members()[i as int] == self.members@[i as int]@);
            }
            match &self.members[i] {
                Member::Damaged { text, cause } => {
                    let mut report = String::from_str("malformed record ");
                    report.append(text.as_str());
                    report.append(": ");
                    report.append(cause.as_str());
                    proof {
                        assert(first_damaged(self.members(), i as int));
                        let chosen = choose|index: int| first_damaged(self.members(), index);
                        assert(chosen == i);
                    }
                    return Err(StorageError::BackendFailure(report));
                },
                _ => {},
            }
            i += 1;
        }
        Ok(())
    }

    /// Hands over the writes that the store has not seen yet.
    pub fn take_writes(&mut self) -> (r: Vec<SetWrite<E>>)
        ensures
            write_models(r@) == old(self).writes(),
            final(self).writes() == Seq::<SetWriteModel<E::V>>::empty(),
            final(self).members() == old(self).members(),
    {
        let mut taken: Vec<SetWrite<E>> = Vec::new();
        core::mem::swap(&mut self.writes, &mut taken);
        taken
    }

    /// A copy of the last record with the given id.
    fn find(&self, id: &String) -> (r: Option<E>)
        ensures
            match r {
                Some(entity) => entry::<E>(self.members(), id@) == Some(entity@),
                None => entry::<E>(self.members(), id@) is None,
            },
    {
        let mut i: usize = self.members.len();
        assert(self.members().take(i as int) == self.members());
        while i > 0
            invariant
                i <= self.members.len(),
                entry::<E>(self.members(), id@) == entry::<E>(self.members().take(i as int), id@),
            decreases i,
        {
            proof {
                let front = self.members().take(i as int);
                assert(front.drop_last() == self.members().take(i - 1));
                assert(front.last() == self.members@[i - 1]@);
            }
            i -= 1;
            if self.members[i].holds(id) {
                return match self.members[i].record() {
                    Some(entity) => Some(entity.duplicate()),
                    None => None,
                };
            }
        }
        None
    }

    /// Removes every member that holds a record with the given id, and
    /// notes the removal of each.
    fn remove_holders(&mut self, id: &String) -> (removed: bool)
        ensures
            final(self).members() == without::<E>(old(self).members(), id@),
            final(self).writes() == old(self).writes() + removals::<E>(old(self).members(), id@),
            removed == (entry::<E>(old(self).members(), id@) is Some),
    {
        let ghost all = self.members();
        let ghost noted = self.writes();
        let ghost mut seen: int = 0;
        let mut removed = false;
        let mut i: usize = 0;
        while i < self.members.len()
            invariant
                0 <= seen <= all.len(),
                i == without::<E>(all.take(seen), id@).len(),
                self.members() == without::<E>(all.take(seen), id@) + all.skip(seen),
                self.writes() == noted + removals::<E>(all.take(seen), id@),
                removed == (entry::<E>(all.take(seen), id@) is Some),
            decreases all.len() - seen,
        {
            proof {
                let next = all.take(seen + 1);
                assert(next.drop_last() == all.take(seen));
                assert(next.last() == all[seen]);
                assert(self.members()[i as int] == all.skip(seen)[0]);
                assert(self.members@[i as int]@ == all[seen]);
            }
            let ghost members_before = self.members();
            let ghost writes_before = self.writes();
            if self.members[i].holds(id) {
                let member = self.members.remove(i);
                self.writes.push(SetWrite::Remove(member));
                removed = true;
                proof {
                    assert(self.members() == members_before.remove(i as int));
                    assert(self.writes() == writes_before.push(SetWriteModel::Remove(all[seen])));
                    assert(self.members() == without::<E>(all.take(seen + 1), id@) + all.skip(
                        seen + 1,
                    ));
                    assert(self.writes() == noted + removals::<E>(all.take(seen + 1), id@));
                }
            } else {
                i += 1;
                proof {
                    assert(self.members() == without::<E>(all.take(seen + 1), id@) + all.skip(
                        seen + 1,
                    ));
                }
            }
            proof {
                seen = seen + 1;
            }
        }
        proof {
            assert(seen == all.len());
            assert(all.take(seen) == all);
            assert(all.skip(seen) == Seq::<MemberModel<E::V>>::empty());
            assert(self.members() == without::<E>(all, id@));
        }
        removed
    }

    /// Adds a record as a new member, and notes the addition.
    fn add(&mut self, entity: &E)
        ensures
            final(self).members() == old(self).members().push(MemberModel::Added(entity@)),
            final(self).writes() == old(self).writes().push(SetWriteModel::Add(entity@)),
    {
        let ghost members_before = self.members();
        let ghost writes_before = self.writes();
        self.members.push(Member::Added(entity.duplicate()));
        self.writes.push(SetWrite::Add(entity.duplicate()));
        proof {
            assert(self.members() == members_before.push(MemberModel::Added(entity@)));
            assert(self.writes() == writes_before.push(SetWriteModel::Add(entity@)));
        }
    }
}

/// Where no member holds an id, nothing is removed for it: the members
/// stay as they are and no removal is asked for.
pub proof fn lemma_absent_id_removes_nothing<E: Entity>(
    members: Seq<MemberModel<E::V>>,
    id: Seq<char>,
)
    requires
        entry::<E>(members, id) is None,
    ensures
        without::<E>(members, id) == members,
        removals::<E>(members, id) == Seq::<SetWriteModel<E::V>>::empty(),
    decreases members.len(),
{
    if members.len() > 0 {
        lemma_absent_id_removes_nothing::<E>(members.drop_last(), id);
        assert(members.drop_last().push(members.last()) == members);
    }
}

/// The records of a set are held under their ids.
pub proof fn lemma_records_keyed<E: Entity>(members: Seq<MemberModel<E::V>>)
    ensures
        keyed::<E>(records_of::<E>(members)),
{
    assert forall|id: Seq<char>| #[trigger] records_of::<E>(members).contains_key(id) implies E::id_of(
        records_of::<E>(members)[id],
    ) == id by {
        lemma_entry_has_id::<E>(members, id);
    }
}

/// Removing the members that hold an id removes the record with that id
/// and no other.
pub proof fn lemma_records_without<E: Entity>(members: Seq<MemberModel<E::V>>, id: Seq<char>)
    ensures
        records_of::<E>(without::<E>(members, id)) == records_of::<E>(members).remove(id),
{
    let left = records_of::<E>(without::<E>(members, id));
    let right = records_of::<E>(members).remove(id);
    assert forall|other: Seq<char>| #[trigger]
        left.dom().contains(other) == right.dom().contains(other) && (left.dom().contains(other)
            ==> left[other] == right[other]) by {
        lemma_entry_without::<E>(members, id, other);
    }
    assert(left =~= right);
}

/// Replacing the members that hold the id of a record by that record
/// stores it under its id and changes no other record.
pub proof fn lemma_records_replaced<E: Entity>(members: Seq<MemberModel<E::V>>, record: E::V)
    ensures
        records_of::<E>(without::<E>(members, E::id_of(record)).push(MemberModel::Added(record)))
            == records_of::<E>(members).insert(E::id_of(record), record),
{
    let id = E::id_of(record);
    let rest = without::<E>(members, id);
    let next = rest.push(MemberModel::Added(record));
    let left = records_of::<E>(next);
    let right = records_of::<E>(members).insert(id, record);
    assert(next.drop_last() == rest);
    assert forall|other: Seq<char>| #[trigger]
        left.dom().contains(other) == right.dom().contains(other) && (left.dom().contains(other)
            ==> left[other] == right[other]) by {
        lemma_entry_without::<E>(members, id, other);
    }
    assert(left =~= right);
}

impl<E: Entity> StorageAdapter<E> for KeyValueAdapter<E> {
    open spec fn records(&self) -> Map<Seq<char>, E::V> {
        records_of::<E>(self.members())
    }

    /// A set holds whatever text it is given: two members may describe
    /// records with one id.
    open spec fn enforces_unique_ids(&self) -> bool {
        false
    }

    /// A member that describes no record fails the scan that every
    /// search of the set is.
    open spec fn read_failure(&self) -> Option<StorageErrorModel> {
        scan_failure(self.members())
    }

    open spec fn assigned(&self, entity: E::V) -> E::V {
        entity
    }

    /// The members that held the id are gone, each by a removal, and the
    /// record is the last member, by one addition.
    open spec fn create_effect(self, after: Self, entity: E::V) -> bool {
        &&& after.members() == without::<E>(self.members(), E::id_of(entity)).push(
            MemberModel::Added(entity),
        )
        &&& after.writes() == (self.writes() + removals::<E>(self.members(), E::id_of(entity))).push(
            SetWriteModel::Add(entity),
        )
    }

    /// Where a member held the id: the members that held it are gone, each
    /// by a removal, and the record with the supplied fields overwritten is
    /// the last member, by one addition. Nothing has changed where none
    /// held it, or where a member describes no record.
    open spec fn update_effect(
        self,
        after: Self,
        id: Seq<char>,
        patch: <E::Patch as View>::V,
    ) -> bool {
        match if self.read_failure() is Some {
            None
        } else {
            entry::<E>(self.members(), id)
        } {
            Some(record) => {
                &&& after.members() == without::<E>(self.members(), id).push(
                    MemberModel::Added(E::patched(record, patch)),
                )
                &&& after.writes() == (self.writes() + removals::<E>(self.members(), id)).push(
                    SetWriteModel::Add(E::patched(record, patch)),
                )
            },
            None => after.members() == self.members() && after.writes() == self.writes(),
        }
    }

    /// The members that held the id are gone, each by a removal. Nothing
    /// has changed where a member describes no record.
    open spec fn delete_effect(self, after: Self, id: Seq<char>) -> bool {
        if self.read_failure() is Some {
            after.members() == self.members() && after.writes() == self.writes()
        } else {
            &&& after.members() == without::<E>(self.members(), id)
            &&& after.writes() == self.writes() + removals::<E>(self.members(), id)
        }
    }

    fn find_by_id(&self, id: &String) -> (r: Result<E, StorageError>) {
        proof {
            lemma_records_keyed::<E>(self.members());
        }
        match self.check_readable() {
            Ok(_) => {},
            Err(error) => {
                return Err(error);
            },
        }
        match self.find(id) {
            Some(entity) => Ok(entity),
            None => Err(StorageError::NotFound),
        }
    }

    /// Removes the members that hold the id, and adds the record.
    fn create(&mut self, entity: E) -> (r: Result<E, StorageError>) {
        proof {
            lemma_records_replaced::<E>(self.members(), entity@);
        }
        self.remove_holders(entity.id());
        self.add(&entity);
        proof {
            lemma_records_keyed::<E>(self.members());
        }
        Ok(entity)
    }

    /// Where a member holds the id: removes the members that hold it, and
    /// adds the record with the supplied fields overwritten. The set stays
    /// as it is where none holds it.
    fn update(&mut self, id: &String, patch: &E::Patch) -> (r: Result<E, StorageError>) {
        proof {
            lemma_records_keyed::<E>(self.members());
        }
        match self.check_readable() {
            Ok(_) => {},
            Err(error) => {
                return Err(error);
            },
        }
        match self.find(id) {
            Some(found) => {
                let entity = found.apply(patch);
                proof {
                    lemma_entry_has_id::<E>(self.members(), id@);
                    E::lemma_patch_keeps_id(found@, patch@);
                    lemma_records_replaced::<E>(self.members(), entity@);
                }
                self.remove_holders(id);
                self.add(&entity);
                proof {
                    lemma_records_keyed::<E>(self.members());
                }
                Ok(entity)
            },
            None => Err(StorageError::NotFound),
        }
    }

    /// Removes the members that hold the id.
    fn delete(&mut self, id: &String) -> (r: Result<bool, StorageError>) {
        proof {
            lemma_records_without::<E>(self.members(), id@);
            lemma_records_keyed::<E>(self.members());
        }
        match self.check_readable() {
            Ok(_) => {},
            Err(error) => {
                return Err(error);
            },
        }
        let removed = self.remove_holders(id);
        proof {
            lemma_records_keyed::<E>(self.members());
        }
        Ok(removed)
    }
}

} // verus!
