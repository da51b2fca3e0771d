//! The subgraph of users: its fields, and the resolvers that answer them.

use crate::connection::ConnectionManager;
use crate::models::User;
use crate::models::UserModel;
use crate::models::UserPatch;
use crate::resolver::create_entity;
use crate::resolver::created;
use crate::resolver::delete_entity;
use crate::resolver::deleted;
use crate::resolver::entity_result;
use crate::resolver::find_entity;
use crate::resolver::flag_result;
use crate::resolver::is_generated_id;
use crate::resolver::listing_result;
use crate::resolver::looked_up;
use crate::resolver::no_handle;
use crate::resolver::random_id;
use crate::resolver::resolved;
use crate::resolver::surface;
use crate::resolver::unavailable;
use crate::resolver::update_entity;
use crate::resolver::updated;
use crate::resolver::ResolverError;
use crate::resolver::ResolverErrorModel;
use crate::schema::field_models;
use crate::schema::Field;
use crate::schema::FieldModel;
use crate::schema::Resolver;
use crate::schema::Subgraph;
use crate::schema::SubgraphModel;
use crate::storage::key_value::scan_outcome;
use crate::storage::key_value::KeyValueAdapter;
use crate::storage::StorageAdapter;
use vstd::prelude::*;
use vstd::string::StringExecFns;

verus! {

/// The query fields of the subgraph of users.
pub open spec fn user_query_fields() -> Seq<FieldModel> {
    seq![
        FieldModel { name: "user"@, resolver: Resolver::User },
        FieldModel { name: "getAllUsers"@, resolver: Resolver::GetAllUsers },
    ]
}

/// The mutation fields of the subgraph of users.
pub open spec fn user_mutation_fields() -> Seq<FieldModel> {
    seq![
        FieldModel { name: "addUser"@, resolver: Resolver::AddUser },
        FieldModel { name: "createUser"@, resolver: Resolver::CreateUser },
        FieldModel { name: "updateUser"@, resolver: Resolver::UpdateUser },
        FieldModel { name: "deleteUser"@, resolver: Resolver::DeleteUser },
    ]
}

/// The subgraph of users.
pub fn users_subgraph() -> (r: Subgraph)
    ensures
        r@ == (SubgraphModel { queries: user_query_fields(), mutations: user_mutation_fields() }),
{
    Subgraph { queries: UserQuery::fields(), mutations: UserMutation::fields() }
}

/// The resolvers of the query fields of users.
#[derive(Debug, Default, Clone, Copy, PartialEq, Eq)]
pub struct UserQuery;

impl UserQuery {
    /// The query fields, each with its resolver.
    pub fn fields() -> (r: Vec<Field>)
        ensures
            field_models(r@) == user_query_fields(),
    {
        let mut fields: Vec<Field> = Vec::new();
        fields.push(Field { name: String::from_str("user"), resolver: Resolver::User });
        fields.push(
            Field { name: String::from_str("getAllUsers"), resolver: Resolver::GetAllUsers },
        );
        assert(field_models(fields@) == user_query_fields());
        fields
    }

    /// The user with the given id.
    pub fn user<A: StorageAdapter<User>>(
        &self,
        connections: &mut ConnectionManager<A>,
        id: &String,
    ) -> (r: Result<User, ResolverError>)
        ensures
            final(connections).capacity() == old(connections).capacity(),
            final(connections).idle() == old(connections).idle(),
            looked_up::<User, A>(old(connections).idle(), entity_result(r), id@),
    {
        find_entity(connections, id)
    }

    /// Every user that the set of a key-value store holds, in the order of
    /// its members. A member that describes no user is a backend failure.
    pub fn get_all_users(
        &self,
        connections: &mut ConnectionManager<KeyValueAdapter<User>>,
    ) -> (r: Result<Vec<User>, ResolverError>)
        ensures
            final(connections).capacity() == old(connections).capacity(),
            final(connections).idle() == old(connections).idle(),
            if old(connections).idle().len() == 0 {
                listing_result(r) == Err::<Seq<UserModel>, ResolverErrorModel>(unavailable())
            } else {
                listing_result(r) == resolved(
                    scan_outcome::<User>(old(connections).idle().last().members()),
                )
            },
    {
        match connections.acquire() {
            Some(handle) => {
                let users = handle.scan();
                let ghost lent = connections.idle();
                let _ = connections.release(handle);
                assert(lent.push(handle) == old(connections).idle());
                surface(users)
            },
            None => Err(no_handle()),
        }
    }
}

/// The resolvers of the mutation fields of users.
#[derive(Debug, Default, Clone, Copy, PartialEq, Eq)]
pub struct UserMutation;

impl UserMutation {
    /// The mutation fields, each with its resolver.
    pub fn fields() -> (r: Vec<Field>)
        ensures
            field_models(r@) == user_mutation_fields(),
    {
        let mut fields: Vec<Field> = Vec::new();
        fields.push(Field { name: String::from_str("addUser"), resolver: Resolver::AddUser });
        fields.push(Field { name: String::from_str("createUser"), resolver: Resolver::CreateUser });
        fields.push(Field { name: String::from_str("updateUser"), resolver: Resolver::UpdateUser });
        fields.push(Field { name: String::from_str("deleteUser"), resolver: Resolver::DeleteUser });
        assert(field_models(fields@) == user_mutation_fields());
        fields
    }

    /// Stores a new user under an id that the server generates, and
    /// returns the user as stored.
    pub fn add_user<A: StorageAdapter<User>>(
        &self,
        connections: &mut ConnectionManager<A>,
        name: String,
        email: String,
    ) -> (r: Result<User, ResolverError>)
        ensures
            final(connections).capacity() == old(connections).capacity(),
            exists|id: Seq<char>|
                is_generated_id(id) && #[trigger] created::<User, A>(
                    old(connections).idle(),
                    final(connections).idle(),
                    entity_result(r),
                    UserModel { id, name: name@, email: email@ },
                ),
    {
        let id = random_id();
        let ghost chosen = id@;
        let r = self.create_user(connections, User { id, name, email });
        assert(created::<User, A>(
            old(connections).idle(),
            connections.idle(),
            entity_result(r),
            UserModel { id: chosen, name: name@, email: email@ },
        ));
        r
    }

    /// Stores a new user under the id that the caller supplied.
    pub fn create_user<A: StorageAdapter<User>>(
        &self,
        connections: &mut ConnectionManager<A>,
        user: User,
    ) -> (r: Result<User, ResolverError>)
        ensures
            final(connections).capacity() == old(connections).capacity(),
            created::<User, A>(
                old(connections).idle(),
                final(connections).idle(),
                entity_result(r),
                user@,
            ),
    {
        create_entity(connections, user)
    }

    /// Overwrites the supplied fields of the user with the given id.
    pub fn update_user<A: StorageAdapter<User>>(
        &self,
        connections: &mut ConnectionManager<A>,
        id: &String,
        patch: &UserPatch,
    ) -> (r: Result<User, ResolverError>)
        ensures
            final(connections).capacity() == old(connections).capacity(),
            updated::<User, A>(
                old(connections).idle(),
                final(connections).idle(),
                entity_result(r),
                id@,
                patch@,
            ),
    {
        update_entity(connections, id, patch)
    }

    /// Removes the user with the given id, and says whether there was one.
    pub fn delete_user<A: StorageAdapter<User>>(
        &self,
        connections: &mut ConnectionManager<A>,
        id: &String,
    ) -> (r: Result<bool, ResolverError>)
        ensures
            final(connections).capacity() == old(connections).capacity(),
            deleted::<User, A>(
                old(connections).idle(),
                final(connections).idle(),
                flag_result(r),
                id@,
            ),
    {
        delete_entity(connections, id)
    }
}

} // verus!
