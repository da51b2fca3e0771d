//! The adapter for graph stores: every entity is one node with the label
//! of the entity type, and its fields are the properties of the node. The
//! adapter reads a node back after it created one, and looks for a node
//! after it removed one.

use crate::models::Entity;
use crate::storage::records::dropped;
use crate::storage::records::last_with;
use crate::storage::records::lemma_last_with_dropped;
use crate::storage::records::lemma_last_with_has_id;
use crate::storage::records::lemma_record_map_dropped;
use crate::storage::records::lemma_record_map_keyed;
use crate::storage::records::lemma_record_map_replaced;
use crate::storage::records::record_map;
use crate::storage::records::record_models;
use crate::storage::records::RecordList;
use crate::storage::StorageAdapter;
use crate::storage::StorageError;
use crate::storage::StorageErrorModel;
use vstd::prelude::*;
use vstd::string::StringExecFns;

verus! {

/// A statement that the adapter asks the store to run.
#[derive(Debug, PartialEq, Eq)]
pub enum GraphStatement<E> {
    /// Create a node with these properties.
    Create(E),
    /// Return the node with the id.
    Match(String),
    /// Set the properties of the node with the id of this one to this one.
    SetProperties(E),
    /// Remove every node with the id, with its relationships.
    DetachDelete(String),
}

/// The mathematical value of a [`GraphStatement`].
pub enum GraphStatementModel<V> {
    Create(V),
    Match(Seq<char>),
    SetProperties(V),
    DetachDelete(Seq<char>),
}

impl<E: Entity> View for GraphStatement<E> {
    type V = GraphStatementModel<E::V>;

    open spec fn view(&self) -> GraphStatementModel<E::V> {
        match self {
            GraphStatement::Create(node) => GraphStatementModel::Create(node@),
            GraphStatement::Match(id) => GraphStatementModel::Match(id@),
            GraphStatement::SetProperties(node) => GraphStatementModel::SetProperties(node@),
            GraphStatement::DetachDelete(id) => GraphStatementModel::DetachDelete(id@),
        }
    }
}

/// The mathematical values of statements.
pub open spec fn statement_models<E: Entity>(statements: Seq<GraphStatement<E>>) -> Seq<
    GraphStatementModel<E::V>,
> {
    statements.map_values(|statement: GraphStatement<E>| statement@)
}

/// The failure of a creation after which the node was not found.
pub open spec fn missing_after_creation() -> StorageErrorModel {
    StorageErrorModel::BackendFailure("node is missing after its creation"@)
}

/// The failure of a removal after which the node was still found.
pub open spec fn present_after_removal() -> StorageErrorModel {
    StorageErrorModel::BackendFailure("node is still there after its removal"@)
}

/// The outcome of a creation, given what reading the node back found: the
/// node as the store holds it, or a failure where the store holds none.
pub fn confirm_created<E: Entity>(read_back: Option<E>) -> (r: Result<E, StorageError>)
    ensures
        match read_back {
            Some(node) => r == Ok::<E, StorageError>(node),
            None => r matches Err(error) && error@ == missing_after_creation(),
        },
{
    match read_back {
        Some(node) => Ok(node),
        None => Err(
            StorageError::BackendFailure(String::from_str("node is missing after its creation")),
        ),
    }
}

/// The outcome of a removal, given whether a node was removed and what
/// looking for the node afterwards found: a node that is still there is a
/// failure, not a success.
pub fn confirm_deleted<E: Entity>(removed: bool, probe: Option<E>) -> (r: Result<
    bool,
    StorageError,
>)
    ensures
        match probe {
            Some(_) => r matches Err(error) && error@ == present_after_removal(),
            None => r == Ok::<bool, StorageError>(removed),
        },
{
    match probe {
        Some(_) => Err(
            StorageError::BackendFailure(String::from_str("node is still there after its removal")),
        ),
        None => Ok(removed),
    }
}

/// The adapter for a graph store. It works on the nodes that it was given,
/// and keeps a list of the statements by which the graph in the store
/// follows.
pub struct GraphAdapter<E> {
    nodes: RecordList<E>,
    statements: Vec<GraphStatement<E>>,
}

impl<E: Entity> GraphAdapter<E> {
    /// The nodes with the label of the entity type.
    pub closed spec fn nodes(&self) -> Seq<E::V> {
        self.nodes@
    }

    /// The statements that the store has not seen yet, in order.
    pub closed spec fn statements(&self) -> Seq<GraphStatementModel<E::V>> {
        statement_models(self.statements@)
    }

    /// An adapter for a graph with the given nodes.
    pub fn open(nodes: Vec<E>) -> (r: Self)
        ensures
            r.nodes() == record_models(nodes@),
            r.statements() == Seq::<GraphStatementModel<E::V>>::empty(),
    {
        GraphAdapter { nodes: RecordList::new(nodes), statements: Vec::new() }
    }

    /// Hands over the statements that the store has not seen yet.
    pub fn take_statements(&mut self) -> (r: Vec<GraphStatement<E>>)
        ensures
            statement_models(r@) == old(self).statements(),
            final(self).statements() == Seq::<GraphStatementModel<E::V>>::empty(),
            final(self).nodes() == old(self).nodes(),
    {
        let mut taken: Vec<GraphStatement<E>> = Vec::new();
        core::mem::swap(&mut self.statements, &mut taken);
        taken
    }

    /// Notes a statement.
    fn note(&mut self, statement: GraphStatement<E>)
        ensures
            final(self).statements() == old(self).statements().push(statement@),
            final(self).nodes() == old(self).nodes(),
    {
        let ghost before = self.statements();
        self.statements.push(statement);
        assert(self.statements() == before.push(statement@));
    }
}

impl<E: Entity> StorageAdapter<E> for GraphAdapter<E> {
    open spec fn records(&self) -> Map<Seq<char>, E::V> {
        record_map::<E>(self.nodes())
    }

    /// The store would hold two nodes with one id; the adapter removes the
    /// old node before it creates the new one.
    open spec fn enforces_unique_ids(&self) -> bool {
        false
    }

    /// Every record that the adapter was given can be read.
    open spec fn read_failure(&self) -> Option<StorageErrorModel> {
        None
    }

    open spec fn assigned(&self, entity: E::V) -> E::V {
        entity
    }

    /// The node stands in the place of those that had its id. The
    /// statements remove the old node where there was one, create the new
    /// one, and read it back.
    open spec fn create_effect(self, after: Self, entity: E::V) -> bool {
        let id = E::id_of(entity);
        &&& after.nodes() == dropped::<E>(self.nodes(), id).push(entity)
        &&& after.statements() == (if last_with::<E>(self.nodes(), id) is Some {
            self.statements().push(GraphStatementModel::DetachDelete(id))
        } else {
            self.statements()
        }).push(GraphStatementModel::Create(entity)).push(GraphStatementModel::Match(id))
    }

    /// Where a node had the id: the node with the supplied fields
    /// overwritten stands in its place, by one statement. Nothing has
    /// changed and no statement is run where none had it.
    open spec fn update_effect(
        self,
        after: Self,
        id: Seq<char>,
        patch: <E::Patch as View>::V,
    ) -> bool {
        match last_with::<E>(self.nodes(), id) {
            Some(node) => {
                &&& after.nodes() == dropped::<E>(self.nodes(), id).push(E::patched(node, patch))
                &&& after.statements() == self.statements().push(
                    GraphStatementModel::SetProperties(E::patched(node, patch)),
                )
            },
            None => after.nodes() == self.nodes() && after.statements() == self.statements(),
        }
    }

    /// The nodes with the id are gone. The statements remove them and look
    /// for the node afterwards.
    open spec fn delete_effect(self, after: Self, id: Seq<char>) -> bool {
        &&& after.nodes() == dropped::<E>(self.nodes(), id)
        &&& after.statements() == self.statements().push(
            GraphStatementModel::DetachDelete(id),
        ).push(GraphStatementModel::Match(id))
    }

    fn find_by_id(&self, id: &String) -> (r: Result<E, StorageError>) {
        proof {
            lemma_record_map_keyed::<E>(self.nodes());
        }
        match self.nodes.find(id) {
            Some(node) => Ok(node),
            None => Err(StorageError::NotFound),
        }
    }

    /// Removes the node that has the id, if there is one, creates the node,
    /// and reads it back.
    fn create(&mut self, entity: E) -> (r: Result<E, StorageError>) {
        proof {
            lemma_record_map_replaced::<E>(self.nodes(), entity@);
        }
        let removed = self.nodes.remove_all(entity.id());
        if removed {
            self.note(GraphStatement::DetachDelete(entity.id().clone()));
        }
        self.nodes.push(entity.duplicate());
        self.note(GraphStatement::Create(entity.duplicate()));
        self.note(GraphStatement::Match(entity.id().clone()));
        let read_back = self.nodes.find(entity.id());
        proof {
            lemma_record_map_keyed::<E>(self.nodes());
            assert(self.nodes().drop_last() == dropped::<E>(old(self).nodes(), E::id_of(entity@)));
        }
        confirm_created(read_back)
    }

    /// Where a node has the id: sets its properties to those of the node
    /// with the supplied fields overwritten. No statement is run where none
    /// has it.
    fn update(&mut self, id: &String, patch: &E::Patch) -> (r: Result<E, StorageError>) {
        proof {
            lemma_record_map_keyed::<E>(self.nodes());
        }
        match self.nodes.find(id) {
            Some(found) => {
                let node = found.apply(patch);
                proof {
                    lemma_last_with_has_id::<E>(self.nodes(), id@);
                    E::lemma_patch_keeps_id(found@, patch@);
                    lemma_record_map_replaced::<E>(self.nodes(), node@);
                }
                let _ = self.nodes.remove_all(id);
                self.nodes.push(node.duplicate());
                self.note(GraphStatement::SetProperties(node.duplicate()));
                proof {
                    lemma_record_map_keyed::<E>(self.nodes());
                }
                Ok(node)
            },
            None => Err(StorageError::NotFound),
        }
    }

    /// Removes every node with the id, and looks for the node afterwards.
    fn delete(&mut self, id: &String) -> (r: Result<bool, StorageError>) {
        proof {
            lemma_record_map_dropped::<E>(self.nodes(), id@);
            lemma_last_with_dropped::<E>(self.nodes(), id@, id@);
        }
        let removed = self.nodes.remove_all(id);
        self.note(GraphStatement::DetachDelete(id.clone()));
        self.note(GraphStatement::Match(id.clone()));
        let probe = self.nodes.find(id);
        proof {
            lemma_record_map_keyed::<E>(self.nodes());
        }
        confirm_deleted(removed, probe)
    }
}

} // verus!
