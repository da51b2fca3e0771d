//! The choice of a storage engine: one adapter out of the four families,
//! picked when the gateway starts and reached through the one contract.

use crate::models::Entity;
use crate::storage::document::DocumentAdapter;
use crate::storage::graph::GraphAdapter;
use crate::storage::key_value::KeyValueAdapter;
use crate::storage::relational::RelationalAdapter;
use crate::storage::StorageAdapter;
use crate::storage::StorageError;
use crate::storage::StorageErrorModel;
use vstd::prelude::*;
use vstd::string::StringExecFns;

verus! {

/// The families of storage engines.
#[derive(Debug, Clone, Copy, PartialEq, Eq, Structural)]
pub enum BackendFamily {
    Document,
    Graph,
    KeyValue,
    Relational,
}

impl BackendFamily {
    /// The name by which the configuration selects the family.
    pub open spec fn name_spec(self) -> Seq<char> {
        match self {
            BackendFamily::Document => "document"@,
            BackendFamily::Graph => "graph"@,
            BackendFamily::KeyValue => "key-value"@,
            BackendFamily::Relational => "relational"@,
        }
    }

    /// The name by which the configuration selects the family.
    pub fn name(&self) -> (r: &'static str)
        ensures
            r@ == self.name_spec(),
    {
        match self {
            BackendFamily::Document => "document",
            BackendFamily::Graph => "graph",
            BackendFamily::KeyValue => "key-value",
            BackendFamily::Relational => "relational",
        }
    }

    /// The family that a name selects, if it is the name of one.
    pub fn from_name(name: &String) -> (r: Option<BackendFamily>)
        ensures
            match r {
                Some(family) => family.name_spec() == name@,
                None => forall|family: BackendFamily| family.name_spec() != name@,
            },
    {
        if *name == String::from_str("document") {
            Some(BackendFamily::Document)
        } else if *name == String::from_str("graph") {
            Some(BackendFamily::Graph)
        } else if *name == String::from_str("key-value") {
            Some(BackendFamily::KeyValue)
        } else if *name == String::from_str("relational") {
            Some(BackendFamily::Relational)
        } else {
            None
        }
    }
}

/// The adapter of the engine that is active.
pub enum Backend<E> {
    Document(DocumentAdapter<E>),
    Graph(GraphAdapter<E>),
    KeyValue(KeyValueAdapter<E>),
    Relational(RelationalAdapter<E>),
}

impl<E: Entity> Backend<E> {
    /// The family of the active engine.
    pub open spec fn family_spec(&self) -> BackendFamily {
        match self {
            Backend::Document(_) => BackendFamily::Document,
            Backend::Graph(_) => BackendFamily::Graph,
            Backend::KeyValue(_) => BackendFamily::KeyValue,
            Backend::Relational(_) => BackendFamily::Relational,
        }
    }

    /// The family of the active engine.
    pub fn family(&self) -> (r: BackendFamily)
        ensures
            r == self.family_spec(),
    {
        match self {
            Backend::Document(_) => BackendFamily::Document,
            Backend::Graph(_) => BackendFamily::Graph,
            Backend::KeyValue(_) => BackendFamily::KeyValue,
            Backend::Relational(_) => BackendFamily::Relational,
        }
    }
}

impl<E: Entity> StorageAdapter<E> for Backend<E> {
    open spec fn records(&self) -> Map<Seq<char>, E::V> {
        match self {
            Backend::Document(adapter) => adapter.records(),
            Backend::Graph(adapter) => adapter.records(),
            Backend::KeyValue(adapter) => adapter.records(),
            Backend::Relational(adapter) => adapter.records(),
        }
    }

    open spec fn enforces_unique_ids(&self) -> bool {
        match self {
            Backend::Document(adapter) => adapter.enforces_unique_ids(),
            Backend::Graph(adapter) => adapter.enforces_unique_ids(),
            Backend::KeyValue(adapter) => adapter.enforces_unique_ids(),
            Backend::Relational(adapter) => adapter.enforces_unique_ids(),
        }
    }

    open spec fn read_failure(&self) -> Option<StorageErrorModel> {
        match self {
            Backend::Document(adapter) => adapter.read_failure(),
            Backend::Graph(adapter) => adapter.read_failure(),
            Backend::KeyValue(adapter) => adapter.read_failure(),
            Backend::Relational(adapter) => adapter.read_failure(),
        }
    }

    open spec fn assigned(&self, entity: E::V) -> E::V {
        match self {
            Backend::Document(adapter) => adapter.assigned(entity),
            Backend::Graph(adapter) => adapter.assigned(entity),
            Backend::KeyValue(adapter) => adapter.assigned(entity),
            Backend::Relational(adapter) => adapter.assigned(entity),
        }
    }

    /// The family stays, and the adapter of the family says the rest.
    open spec fn create_effect(self, after: Self, entity: E::V) -> bool {
        match (self, after) {
            (Backend::Document(a), Backend::Document(b)) => a.create_effect(b, entity),
            (Backend::Graph(a), Backend::Graph(b)) => a.create_effect(b, entity),
            (Backend::KeyValue(a), Backend::KeyValue(b)) => a.create_effect(b, entity),
            (Backend::Relational(a), Backend::Relational(b)) => a.create_effect(b, entity),
            _ => false,
        }
    }

    /// The family stays, and the adapter of the family says the rest.
    open spec fn update_effect(
        self,
        after: Self,
        id: Seq<char>,
        patch: <E::Patch as View>::V,
    ) -> bool {
        match (self, after) {
            (Backend::Document(a), Backend::Document(b)) => a.update_effect(b, id, patch),
            (Backend::Graph(a), Backend::Graph(b)) => a.update_effect(b, id, patch),
            (Backend::KeyValue(a), Backend::KeyValue(b)) => a.update_effect(b, id, patch),
            (Backend::Relational(a), Backend::Relational(b)) => a.update_effect(b, id, patch),
            _ => false,
        }
    }

    /// The family stays, and the adapter of the family says the rest.
    open spec fn delete_effect(self, after: Self, id: Seq<char>) -> bool {
        match (self, after) {
            (Backend::Document(a), Backend::Document(b)) => a.delete_effect(b, id),
            (Backend::Graph(a), Backend::Graph(b)) => a.delete_effect(b, id),
            (Backend::KeyValue(a), Backend::KeyValue(b)) => a.delete_effect(b, id),
            (Backend::Relational(a), Backend::Relational(b)) => a.delete_effect(b, id),
            _ => false,
        }
    }

    fn find_by_id(&self, id: &String) -> (r: Result<E, StorageError>) {
        match self {
            Backend::Document(adapter) => adapter.find_by_id(id),
            Backend::Graph(adapter) => adapter.find_by_id(id),
            Backend::KeyValue(adapter) => adapter.find_by_id(id),
            Backend::Relational(adapter) => adapter.find_by_id(id),
        }
    }

    fn create(&mut self, entity: E) -> (r: Result<E, StorageError>)
        ensures
            final(self).family_spec() == old(self).family_spec(),
    {
        match self {
            Backend::Document(adapter) => adapter.create(entity),
            Backend::Graph(adapter) => adapter.create(entity),
            Backend::KeyValue(adapter) => adapter.create(entity),
            Backend::Relational(adapter) => adapter.create(entity),
        }
    }

    fn update(&mut self, id: &String, patch: &E::Patch) -> (r: Result<E, StorageError>)
        ensures
            final(self).family_spec() == old(self).family_spec(),
    {
        match self {
            Backend::Document(adapter) => adapter.update(id, patch),
            Backend::Graph(adapter) => adapter.update(id, patch),
            Backend::KeyValue(adapter) => adapter.update(id, patch),
            Backend::Relational(adapter) => adapter.update(id, patch),
        }
    }

    fn delete(&mut self, id: &String) -> (r: Result<bool, StorageError>)
        ensures
            final(self).family_spec() == old(self).family_spec(),
    {
        match self {
            Backend::Document(adapter) => adapter.delete(id),
            Backend::Graph(adapter) => adapter.delete(id),
            Backend::KeyValue(adapter) => adapter.delete(id),
            Backend::Relational(adapter) => adapter.delete(id),
        }
    }
}

} // verus!
