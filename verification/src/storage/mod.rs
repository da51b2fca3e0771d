//! The uniform contract through which every storage engine is reached, and
//! one adapter for each family of engines.

pub mod backend;
pub mod document;
pub mod graph;
pub mod key_value;
pub mod records;
pub mod relational;

use crate::models::Entity;
use vstd::prelude::*;

verus! {

/// Why a storage operation failed.
#[derive(Debug, PartialEq, Eq)]
pub enum StorageError {
    /// No record has the given id.
    NotFound,
    /// A record with the id exists already, and the engine keeps ids unique.
    DuplicateKey,
    /// The call to the engine itself failed; the text is the cause.
    BackendFailure(String),
}

/// The mathematical value of a [`StorageError`].
pub enum StorageErrorModel {
    NotFound,
    DuplicateKey,
    BackendFailure(Seq<char>),
}

impl View for StorageError {
    type V = StorageErrorModel;

    open spec fn view(&self) -> StorageErrorModel {
        match self {
            StorageError::NotFound => StorageErrorModel::NotFound,
            StorageError::DuplicateKey => StorageErrorModel::DuplicateKey,
            StorageError::BackendFailure(cause) => StorageErrorModel::BackendFailure(cause@),
        }
    }
}

/// The mathematical value of what an operation returned.
pub open spec fn outcome_view<E: Entity>(outcome: Result<E, StorageError>) -> Result<
    E::V,
    StorageErrorModel,
> {
    match outcome {
        Ok(entity) => Ok(entity@),
        Err(error) => Err(error@),
    }
}

/// Every record is held under its own id.
pub open spec fn keyed<E: Entity>(records: Map<Seq<char>, E::V>) -> bool {
    forall|id: Seq<char>| #[trigger] records.contains_key(id) ==> E::id_of(records[id]) == id
}

/// What `find_by_id` returns.
pub open spec fn find_outcome<E: Entity>(records: Map<Seq<char>, E::V>, id: Seq<char>) -> Result<
    E::V,
    StorageErrorModel,
> {
    if records.contains_key(id) {
        Ok(records[id])
    } else {
        Err(StorageErrorModel::NotFound)
    }
}

/// What an operation that reads the records returns: the failure of the
/// reading, where the records cannot be read, and otherwise its outcome.
pub open spec fn blocked<T>(
    failure: Option<StorageErrorModel>,
    outcome: Result<T, StorageErrorModel>,
) -> Result<T, StorageErrorModel> {
    match failure {
        Some(error) => Err(error),
        None => outcome,
    }
}

/// The mathematical value of what `delete` returned.
pub open spec fn flag_view(outcome: Result<bool, StorageError>) -> Result<bool, StorageErrorModel> {
    match outcome {
        Ok(flag) => Ok(flag),
        Err(error) => Err(error@),
    }
}

/// Whether `create` refuses an entity.
pub open spec fn create_refused<E: Entity>(
    records: Map<Seq<char>, E::V>,
    unique: bool,
    stored: E::V,
) -> bool {
    unique && records.contains_key(E::id_of(stored))
}

/// What `create` returns for the entity that it is about to store.
pub open spec fn create_outcome<E: Entity>(
    records: Map<Seq<char>, E::V>,
    unique: bool,
    stored: E::V,
) -> Result<E::V, StorageErrorModel> {
    if create_refused::<E>(records, unique, stored) {
        Err(StorageErrorModel::DuplicateKey)
    } else {
        Ok(stored)
    }
}

/// The records after `create`.
pub open spec fn after_create<E: Entity>(
    records: Map<Seq<char>, E::V>,
    unique: bool,
    stored: E::V,
) -> Map<Seq<char>, E::V> {
    if create_refused::<E>(records, unique, stored) {
        records
    } else {
        records.insert(E::id_of(stored), stored)
    }
}

/// What `update` returns.
pub open spec fn update_outcome<E: Entity>(
    records: Map<Seq<char>, E::V>,
    id: Seq<char>,
    patch: <E::Patch as View>::V,
) -> Result<E::V, StorageErrorModel> {
    if records.contains_key(id) {
        Ok(E::patched(records[id], patch))
    } else {
        Err(StorageErrorModel::NotFound)
    }
}

/// The records after `update`.
pub open spec fn after_update<E: Entity>(
    records: Map<Seq<char>, E::V>,
    id: Seq<char>,
    patch: <E::Patch as View>::V,
) -> Map<Seq<char>, E::V> {
    if records.contains_key(id) {
        records.insert(id, E::patched(records[id], patch))
    } else {
        records
    }
}

/// The contract that every storage adapter meets, whatever engine stands
/// behind it. The records that an adapter holds are a map from id to
/// entity; the four operations read and change that map alike in every
/// adapter, but for `create` on an id that is taken, which an engine that
/// keeps ids unique refuses and every other engine answers by overwriting.
/// Where the engine holds something that cannot be read as a record, the
/// operations that look for a record fail and change nothing: what they
/// cannot read might be the record that is asked for.
pub trait StorageAdapter<E: Entity>: Sized {
    /// The records, by id.
    spec fn records(&self) -> Map<Seq<char>, E::V>;

    /// Whether the engine refuses a second record with an id.
    spec fn enforces_unique_ids(&self) -> bool;

    /// The entity as `create` would store it now: the adapter may fill in
    /// an id that the engine generates.
    spec fn assigned(&self, entity: E::V) -> E::V;

    /// The failure of every operation that looks for a record, where the
    /// engine holds something that cannot be read as one.
    spec fn read_failure(&self) -> Option<StorageErrorModel>;

    /// What `create` does to the adapter beyond its records: to what the
    /// engine holds in its own shape, and to the writes that the adapter
    /// asks for.
    spec fn create_effect(self, after: Self, entity: E::V) -> bool;

    /// What `update` does to the adapter beyond its records.
    spec fn update_effect(self, after: Self, id: Seq<char>, patch: <E::Patch as View>::V) -> bool;

    /// What `delete` does to the adapter beyond its records.
    spec fn delete_effect(self, after: Self, id: Seq<char>) -> bool;

    /// The record with the given id.
    fn find_by_id(&self, id: &String) -> (r: Result<E, StorageError>)
        ensures
            outcome_view(r) == blocked(
                self.read_failure(),
                find_outcome::<E>(self.records(), id@),
            ),
            keyed::<E>(self.records()),
    ;

    /// Stores a new record and returns it as stored.
    fn create(&mut self, entity: E) -> (r: Result<E, StorageError>)
        ensures
            outcome_view(r) == create_outcome::<E>(
                old(self).records(),
                old(self).enforces_unique_ids(),
                old(self).assigned(entity@),
            ),
            final(self).records() == after_create::<E>(
                old(self).records(),
                old(self).enforces_unique_ids(),
                old(self).assigned(entity@),
            ),
            final(self).enforces_unique_ids() == old(self).enforces_unique_ids(),
            keyed::<E>(final(self).records()),
            old(self).create_effect(*final(self), entity@),
    ;

    /// Overwrites the supplied fields of the record with the given id, and
    /// returns the record as it then stands.
    fn update(&mut self, id: &String, patch: &E::Patch) -> (r: Result<E, StorageError>)
        ensures
            outcome_view(r) == blocked(
                old(self).read_failure(),
                update_outcome::<E>(old(self).records(), id@, patch@),
            ),
            final(self).records() == if old(self).read_failure() is Some {
                old(self).records()
            } else {
                after_update::<E>(old(self).records(), id@, patch@)
            },
            final(self).enforces_unique_ids() == old(self).enforces_unique_ids(),
            keyed::<E>(final(self).records()),
            old(self).update_effect(*final(self), id@, patch@),
    ;

    /// Removes the record with the given id, and says whether there was
    /// one.
    fn delete(&mut self, id: &String) -> (r: Result<bool, StorageError>)
        ensures
            flag_view(r) == blocked(
                old(self).read_failure(),
                Ok::<bool, StorageErrorModel>(old(self).records().contains_key(id@)),
            ),
            final(self).records() == if old(self).read_failure() is Some {
                old(self).records()
            } else {
                old(self).records().remove(id@)
            },
            final(self).enforces_unique_ids() == old(self).enforces_unique_ids(),
            keyed::<E>(final(self).records()),
            old(self).delete_effect(*final(self), id@),
    ;
}

/// A record that `create` stored is found under its id, equal in every
/// field to what `create` returned.
pub proof fn lemma_create_then_find<E: Entity>(
    records: Map<Seq<char>, E::V>,
    unique: bool,
    stored: E::V,
)
    requires
        !create_refused::<E>(records, unique, stored),
    ensures
        create_outcome::<E>(records, unique, stored) == Ok::<E::V, StorageErrorModel>(stored),
        find_outcome::<E>(after_create::<E>(records, unique, stored), E::id_of(stored)) == Ok::<
            E::V,
            StorageErrorModel,
        >(stored),
{
}

/// A `create` that is refused changes nothing: what was found before is
/// found after.
pub proof fn lemma_refused_create_keeps_records<E: Entity>(
    records: Map<Seq<char>, E::V>,
    unique: bool,
    stored: E::V,
    id: Seq<char>,
)
    requires
        create_refused::<E>(records, unique, stored),
    ensures
        create_outcome::<E>(records, unique, stored) == Err::<E::V, StorageErrorModel>(
            StorageErrorModel::DuplicateKey,
        ),
        find_outcome::<E>(after_create::<E>(records, unique, stored), id) == find_outcome::<E>(
            records,
            id,
        ),
{
}

/// `create` leaves every record with another id as it was.
pub proof fn lemma_create_keeps_others<E: Entity>(
    records: Map<Seq<char>, E::V>,
    unique: bool,
    stored: E::V,
    other: Seq<char>,
)
    requires
        other != E::id_of(stored),
    ensures
        find_outcome::<E>(after_create::<E>(records, unique, stored), other) == find_outcome::<E>(
            records,
            other,
        ),
{
}

/// `update` of a record that exists returns the record with exactly the
/// supplied fields overwritten, that record is what is found under the id
/// afterwards, and every record with another id is as it was.
pub proof fn lemma_update_then_find<E: Entity>(
    records: Map<Seq<char>, E::V>,
    id: Seq<char>,
    patch: <E::Patch as View>::V,
    other: Seq<char>,
)
    requires
        records.contains_key(id),
        other != id,
    ensures
        update_outcome::<E>(records, id, patch) == Ok::<E::V, StorageErrorModel>(
            E::patched(records[id], patch),
        ),
        find_outcome::<E>(after_update::<E>(records, id, patch), id) == Ok::<
            E::V,
            StorageErrorModel,
        >(E::patched(records[id], patch)),
        find_outcome::<E>(after_update::<E>(records, id, patch), other) == find_outcome::<E>(
            records,
            other,
        ),
{
}

/// `update` of an id that no record has fails with `NotFound` and stores
/// nothing: the id is not found afterwards either.
pub proof fn lemma_update_of_absent<E: Entity>(
    records: Map<Seq<char>, E::V>,
    id: Seq<char>,
    patch: <E::Patch as View>::V,
)
    requires
        !records.contains_key(id),
    ensures
        update_outcome::<E>(records, id, patch) == Err::<E::V, StorageErrorModel>(
            StorageErrorModel::NotFound,
        ),
        after_update::<E>(records, id, patch) == records,
        find_outcome::<E>(after_update::<E>(records, id, patch), id) == Err::<
            E::V,
            StorageErrorModel,
        >(StorageErrorModel::NotFound),
{
}

/// After `delete` the id is not found, whether a record had it or not, and
/// every record with another id is as it was.
pub proof fn lemma_delete_then_find<E: Entity>(
    records: Map<Seq<char>, E::V>,
    id: Seq<char>,
    other: Seq<char>,
)
    requires
        other != id,
    ensures
        find_outcome::<E>(records.remove(id), id) == Err::<E::V, StorageErrorModel>(
            StorageErrorModel::NotFound,
        ),
        find_outcome::<E>(records.remove(id), other) == find_outcome::<E>(records, other),
        !records.contains_key(id) ==> records.remove(id) == records,
{
    if !records.contains_key(id) {
        assert(records.remove(id) =~= records);
    }
}

/// Engines differ in one thing only: `create` of an entity whose id no
/// record has gives the same outcome and the same records whether the
/// engine keeps ids unique or not.
pub proof fn lemma_create_of_fresh_id_is_uniform<E: Entity>(
    records: Map<Seq<char>, E::V>,
    stored: E::V,
)
    requires
        !records.contains_key(E::id_of(stored)),
    ensures
        create_outcome::<E>(records, true, stored) == create_outcome::<E>(records, false, stored),
        after_create::<E>(records, true, stored) == after_create::<E>(records, false, stored),
{
}

} // verus!
