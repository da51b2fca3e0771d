//! What every entity resolver does: it borrows a handle from the
//! connection manager, calls the storage adapter, hands the handle back, and
//! turns the adapter's outcome into the outcome that the caller sees.

use crate::connection::ConnectionManager;
use crate::models::Entity;
use crate::scalars::ValidationError;
use crate::storage::after_create;
use crate::storage::after_update;
use crate::storage::blocked;
use crate::storage::create_outcome;
use crate::storage::find_outcome;
use crate::storage::update_outcome;
use crate::storage::StorageAdapter;
use crate::storage::StorageError;
use crate::storage::StorageErrorModel;
use vstd::prelude::*;
use vstd::string::StringExecFns;

verus! {

/// A failure as the caller of a resolver sees it.
#[derive(Debug, PartialEq, Eq)]
pub enum ResolverError {
    /// No record has the given id.
    NotFound,
    /// A record with the id exists already.
    AlreadyExists,
    /// The storage engine could not be reached or did not answer as it
    /// should; the text is the underlying cause.
    BackendFailure(String),
    /// An argument is not a value of its scalar type.
    Validation(ValidationError),
}

/// The mathematical value of a [`ResolverError`].
pub enum ResolverErrorModel {
    NotFound,
    AlreadyExists,
    BackendFailure(Seq<char>),
    Validation(ValidationError),
}

impl View for ResolverError {
    type V = ResolverErrorModel;

    open spec fn view(&self) -> ResolverErrorModel {
        match self {
            ResolverError::NotFound => ResolverErrorModel::NotFound,
            ResolverError::AlreadyExists => ResolverErrorModel::AlreadyExists,
            ResolverError::BackendFailure(cause) => ResolverErrorModel::BackendFailure(cause@),
            ResolverError::Validation(error) => ResolverErrorModel::Validation(*error),
        }
    }
}

impl ResolverErrorModel {
    /// The text of the message.
    pub open spec fn message(self) -> Seq<char> {
        match self {
            ResolverErrorModel::NotFound => "not found"@,
            ResolverErrorModel::AlreadyExists => "already exists"@,
            ResolverErrorModel::BackendFailure(cause) => "backend failure: "@ + cause,
            ResolverErrorModel::Validation(error) => error.message_spec(),
        }
    }
}

impl ResolverError {
    /// A message for the caller; that of a backend failure carries the
    /// cause.
    pub fn message(&self) -> (r: String)
        ensures
            r@ == self@.message(),
    {
        match self {
            ResolverError::NotFound => String::from_str("not found"),
            ResolverError::AlreadyExists => String::from_str("already exists"),
            ResolverError::BackendFailure(cause) => {
                let mut text = String::from_str("backend failure: ");
                text.append(cause.as_str());
                text
            },
            ResolverError::Validation(error) => error.message(),
        }
    }
}

/// The failure that the caller sees for a failure of the adapter, one for
/// one.
pub open spec fn visible(error: StorageErrorModel) -> ResolverErrorModel {
    match error {
        StorageErrorModel::NotFound => ResolverErrorModel::NotFound,
        StorageErrorModel::DuplicateKey => ResolverErrorModel::AlreadyExists,
        StorageErrorModel::BackendFailure(cause) => ResolverErrorModel::BackendFailure(cause),
    }
}

/// The failure that the caller sees where no handle is idle.
pub open spec fn unavailable() -> ResolverErrorModel {
    ResolverErrorModel::BackendFailure("no storage handle is available"@)
}

/// The outcome that the caller sees for an outcome of the adapter.
pub open spec fn resolved<T>(outcome: Result<T, StorageErrorModel>) -> Result<
    T,
    ResolverErrorModel,
> {
    match outcome {
        Ok(value) => Ok(value),
        Err(error) => Err(visible(error)),
    }
}

/// The mathematical value of what a resolver returned.
pub open spec fn entity_result<E: Entity>(outcome: Result<E, ResolverError>) -> Result<
    E::V,
    ResolverErrorModel,
> {
    match outcome {
        Ok(entity) => Ok(entity@),
        Err(error) => Err(error@),
    }
}

/// The mathematical value of what a resolver returned that tells whether
/// it removed a record.
pub open spec fn flag_result(outcome: Result<bool, ResolverError>) -> Result<
    bool,
    ResolverErrorModel,
> {
    match outcome {
        Ok(flag) => Ok(flag),
        Err(error) => Err(error@),
    }
}

/// The mathematical value of what a resolver returned that lists records.
pub open spec fn listing_result<E: Entity>(outcome: Result<Vec<E>, ResolverError>) -> Result<
    Seq<E::V>,
    ResolverErrorModel,
> {
    match outcome {
        Ok(records) => Ok(records@.map_values(|record: E| record@)),
        Err(error) => Err(error@),
    }
}

/// Turns the failure of an adapter into the failure that the caller sees.
pub fn surface_error(error: StorageError) -> (r: ResolverError)
    ensures
        r@ == visible(error@),
{
    match error {
        StorageError::NotFound => ResolverError::NotFound,
        StorageError::DuplicateKey => ResolverError::AlreadyExists,
        StorageError::BackendFailure(cause) => ResolverError::BackendFailure(cause),
    }
}

/// Turns the outcome of an adapter into the outcome that the caller sees:
/// a value is passed on, a failure is mapped one for one.
pub fn surface<T>(outcome: Result<T, StorageError>) -> (r: Result<T, ResolverError>)
    ensures
        match outcome {
            Ok(value) => r == Ok::<T, ResolverError>(value),
            Err(error) => r matches Err(seen) && seen@ == visible(error@),
        },
{
    match outcome {
        Ok(value) => Ok(value),
        Err(error) => Err(surface_error(error)),
    }
}

/// The failure of an operation that found no idle handle.
pub fn no_handle() -> (r: ResolverError)
    ensures
        r@ == unavailable(),
{
    ResolverError::BackendFailure(String::from_str("no storage handle is available"))
}

/// The idle handles are those of before, but for the last, which an
/// operation borrowed and handed back.
pub open spec fn last_handle_returned<A>(before: Seq<A>, after: Seq<A>) -> bool {
    &&& before.len() > 0
    &&& after.len() == before.len()
    &&& after.drop_last() == before.drop_last()
}

/// What a lookup by id gives: what the handle which is lent next finds,
/// its failure where it cannot read its records, or the failure of a
/// manager without an idle handle.
pub open spec fn looked_up<E: Entity, A: StorageAdapter<E>>(
    idle: Seq<A>,
    outcome: Result<E::V, ResolverErrorModel>,
    id: Seq<char>,
) -> bool {
    if idle.len() == 0 {
        outcome == Err::<E::V, ResolverErrorModel>(unavailable())
    } else {
        outcome == resolved(
            blocked(idle.last().read_failure(), find_outcome::<E>(idle.last().records(), id)),
        )
    }
}

/// What the creation of a record gives and does: `create` on the handle
/// that is lent next, which is handed back afterwards, or the failure of a
/// manager without an idle handle, which stays as it is. The last clause
/// is what the adapter itself says of the call: for a key-value store, the
/// members of the set and the writes that are asked for.
pub open spec fn created<E: Entity, A: StorageAdapter<E>>(
    before: Seq<A>,
    after: Seq<A>,
    outcome: Result<E::V, ResolverErrorModel>,
    entity: E::V,
) -> bool {
    if before.len() == 0 {
        outcome == Err::<E::V, ResolverErrorModel>(unavailable()) && after == before
    } else {
        let unique = before.last().enforces_unique_ids();
        let stored = before.last().assigned(entity);
        &&& last_handle_returned(before, after)
        &&& outcome == resolved(create_outcome::<E>(before.last().records(), unique, stored))
        &&& after.last().records() == after_create::<E>(before.last().records(), unique, stored)
        &&& after.last().enforces_unique_ids() == unique
        &&& before.last().create_effect(after.last(), entity)
    }
}

/// What the update of a record gives and does, in the same way.
pub open spec fn updated<E: Entity, A: StorageAdapter<E>>(
    before: Seq<A>,
    after: Seq<A>,
    outcome: Result<E::V, ResolverErrorModel>,
    id: Seq<char>,
    patch: <E::Patch as View>::V,
) -> bool {
    if before.len() == 0 {
        outcome == Err::<E::V, ResolverErrorModel>(unavailable()) && after == before
    } else {
        &&& last_handle_returned(before, after)
        &&& outcome == resolved(
            blocked(
                before.last().read_failure(),
                update_outcome::<E>(before.last().records(), id, patch),
            ),
        )
        &&& after.last().records() == if before.last().read_failure() is Some {
            before.last().records()
        } else {
            after_update::<E>(before.last().records(), id, patch)
        }
        &&& after.last().enforces_unique_ids() == before.last().enforces_unique_ids()
        &&& before.last().update_effect(after.last(), id, patch)
    }
}

/// What the removal of a record gives and does, in the same way.
pub open spec fn deleted<E: Entity, A: StorageAdapter<E>>(
    before: Seq<A>,
    after: Seq<A>,
    outcome: Result<bool, ResolverErrorModel>,
    id: Seq<char>,
) -> bool {
    if before.len() == 0 {
        outcome == Err::<bool, ResolverErrorModel>(unavailable()) && after == before
    } else {
        &&& last_handle_returned(before, after)
        &&& outcome == resolved(
            blocked(
                before.last().read_failure(),
                Ok::<bool, StorageErrorModel>(before.last().records().contains_key(id)),
            ),
        )
        &&& after.last().records() == if before.last().read_failure() is Some {
            before.last().records()
        } else {
            before.last().records().remove(id)
        }
        &&& after.last().enforces_unique_ids() == before.last().enforces_unique_ids()
        &&& before.last().delete_effect(after.last(), id)
    }
}

/// Looks a record up by its id.
pub fn find_entity<E: Entity, A: StorageAdapter<E>>(
    connections: &mut ConnectionManager<A>,
    id: &String,
) -> (r: Result<E, ResolverError>)
    ensures
        final(connections).capacity() == old(connections).capacity(),
        final(connections).idle() == old(connections).idle(),
        looked_up::<E, A>(old(connections).idle(), entity_result(r), id@),
{
    match connections.acquire() {
        Some(handle) => {
            let outcome = handle.find_by_id(id);
            let ghost lent = connections.idle();
            let _ = connections.release(handle);
            assert(lent.push(handle) == old(connections).idle());
            surface(outcome)
        },
        None => Err(no_handle()),
    }
}

/// Stores a new record.
pub fn create_entity<E: Entity, A: StorageAdapter<E>>(
    connections: &mut ConnectionManager<A>,
    entity: E,
) -> (r: Result<E, ResolverError>)
    ensures
        final(connections).capacity() == old(connections).capacity(),
        created::<E, A>(
            old(connections).idle(),
            final(connections).idle(),
            entity_result(r),
            entity@,
        ),
{
    match connections.acquire() {
        Some(handle) => {
            let mut handle = handle;
            let outcome = handle.create(entity);
            let ghost lent = connections.idle();
            let _ = connections.release(handle);
            assert(lent.push(handle).drop_last() == lent);
            surface(outcome)
        },
        None => Err(no_handle()),
    }
}

/// Overwrites the supplied fields of a record.
pub fn update_entity<E: Entity, A: StorageAdapter<E>>(
    connections: &mut ConnectionManager<A>,
    id: &String,
    patch: &E::Patch,
) -> (r: Result<E, ResolverError>)
    ensures
        final(connections).capacity() == old(connections).capacity(),
        updated::<E, A>(
            old(connections).idle(),
            final(connections).idle(),
            entity_result(r),
            id@,
            patch@,
        ),
{
    match connections.acquire() {
        Some(handle) => {
            let mut handle = handle;
            let outcome = handle.update(id, patch);
            let ghost lent = connections.idle();
            let _ = connections.release(handle);
            assert(lent.push(handle).drop_last() == lent);
            surface(outcome)
        },
        None => Err(no_handle()),
    }
}

/// Removes a record, and says whether there was one.
pub fn delete_entity<E: Entity, A: StorageAdapter<E>>(
    connections: &mut ConnectionManager<A>,
    id: &String,
) -> (r: Result<bool, ResolverError>)
    ensures
        final(connections).capacity() == old(connections).capacity(),
        deleted::<E, A>(old(connections).idle(), final(connections).idle(), flag_result(r), id@),
{
    match connections.acquire() {
        Some(handle) => {
            let mut handle = handle;
            let outcome = handle.delete(id);
            let ghost lent = connections.idle();
            let _ = connections.release(handle);
            assert(lent.push(handle).drop_last() == lent);
            surface(outcome)
        },
        None => Err(no_handle()),
    }
}

/// Whether a character is a digit or one of the letters `a` to `f`.
pub open spec fn is_lower_hex(c: char) -> bool {
    ||| 48 <= c as u32 <= 57
    ||| 97 <= c as u32 <= 102
}

/// Whether a text has the shape of a generated id: 36 characters, of which
/// the four at the places 8, 13, 18 and 23 are hyphens and all others
/// lower-case hexadecimal digits, with the version `4` at place 14 and one
/// of `8`, `9`, `a` and `b` at place 19.
pub open spec fn is_generated_id(id: Seq<char>) -> bool {
    &&& id.len() == 36
    &&& forall|i: int|
        0 <= i < 36 ==> if i == 8 || i == 13 || i == 18 || i == 23 {
            #[trigger] id[i] == '-'
        } else {
            is_lower_hex(id[i])
        }
    &&& id[14] == '4'
    &&& (id[19] == '8' || id[19] == '9' || id[19] == 'a' || id[19] == 'b')
}

/// Calls `Uuid::new_v4` and writes the result out with `to_string`. The
/// id is random; the contract claims what holds of every outcome: the
/// hyphenated lower-case form, with the version and the variant that
/// `new_v4` sets.
#[verifier::external_body]
pub(crate) fn random_id() -> (id: String)
    ensures
        is_generated_id(id@),
{
    uuid::Uuid::new_v4().to_string()
}

} // verus!
