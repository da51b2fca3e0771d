//! The adapter for document stores: every entity is one document of a
//! collection that is named after the entity type. A document is found by
//! the id that it holds as a field, not by the key that the store gives it,
//! so the store itself keeps no id unique.

use crate::models::Entity;
use crate::storage::records::dropped;
use crate::storage::records::last_with;
use crate::storage::records::lemma_last_with_has_id;
use crate::storage::records::lemma_record_map_dropped;
use crate::storage::records::lemma_record_map_keyed;
use crate::storage::records::lemma_record_map_replaced;
use crate::storage::records::record_map;
use crate::storage::records::record_models;
use crate::storage::records::RecordList;
use crate::storage::StorageAdapter;
use crate::storage::StorageError;
use crate::storage::StorageErrorModel;
use vstd::prelude::*;

verus! {

/// A call that the adapter asks the store to make.
#[derive(Debug, PartialEq, Eq)]
pub enum DocumentCommand<E> {
    /// Replace the document that holds the id of this one by this one.
    /// With `upsert` the store inserts the document where none holds the
    /// id; without it the store leaves the collection as it is.
    Replace { document: E, upsert: bool },
    /// Delete every document that holds the id.
    Delete { id: String },
}

/// The mathematical value of a [`DocumentCommand`].
pub enum DocumentCommandModel<V> {
    Replace { document: V, upsert: bool },
    Delete { id: Seq<char> },
}

impl<E: Entity> View for DocumentCommand<E> {
    type V = DocumentCommandModel<E::V>;

    open spec fn view(&self) -> DocumentCommandModel<E::V> {
        match self {
            DocumentCommand::Replace { document, upsert } => DocumentCommandModel::Replace {
                document: document@,
                upsert: *upsert,
            },
            DocumentCommand::Delete { id } => DocumentCommandModel::Delete { id: id@ },
        }
    }
}

/// The mathematical values of commands.
pub open spec fn document_command_models<E: Entity>(commands: Seq<DocumentCommand<E>>) -> Seq<
    DocumentCommandModel<E::V>,
> {
    commands.map_values(|command: DocumentCommand<E>| command@)
}

/// The adapter for a document store. It works on the documents that it was
/// given, and keeps a list of the calls by which the collection in the store
/// follows.
pub struct DocumentAdapter<E> {
    documents: RecordList<E>,
    commands: Vec<DocumentCommand<E>>,
}

impl<E: Entity> DocumentAdapter<E> {
    /// The documents of the collection.
    pub closed spec fn documents(&self) -> Seq<E::V> {
        self.documents@
    }

    /// The calls that the store has not seen yet, in order.
    pub closed spec fn commands(&self) -> Seq<DocumentCommandModel<E::V>> {
        document_command_models(self.commands@)
    }

    /// An adapter for a collection with the given documents.
    pub fn open(documents: Vec<E>) -> (r: Self)
        ensures
            r.documents() == record_models(documents@),
            r.commands() == Seq::<DocumentCommandModel<E::V>>::empty(),
    {
        DocumentAdapter { documents: RecordList::new(documents), commands: Vec::new() }
    }

    /// Hands over the calls that the store has not seen yet.
    pub fn take_commands(&mut self) -> (r: Vec<DocumentCommand<E>>)
        ensures
            document_command_models(r@) == old(self).commands(),
            final(self).commands() == Seq::<DocumentCommandModel<E::V>>::empty(),
            final(self).documents() == old(self).documents(),
    {
        let mut taken: Vec<DocumentCommand<E>> = Vec::new();
        core::mem::swap(&mut self.commands, &mut taken);
        taken
    }

    /// Notes a call.
    fn note(&mut self, command: DocumentCommand<E>)
        ensures
            final(self).commands() == old(self).commands().push(command@),
            final(self).documents() == old(self).documents(),
    {
        let ghost before = self.commands();
        self.commands.push(command);
        assert(self.commands() == before.push(command@));
    }

    /// Puts a document in the place of those that hold its id, and notes
    /// the replacement.
    fn replace(&mut self, document: &E, upsert: bool)
        ensures
            final(self).documents() == dropped::<E>(old(self).documents(), E::id_of(document@)).push(
                document@,
            ),
            final(self).commands() == old(self).commands().push(
                DocumentCommandModel::Replace { document: document@, upsert },
            ),
    {
        let _ = self.documents.remove_all(document.id());
        self.documents.push(document.duplicate());
        self.note(DocumentCommand::Replace { document: document.duplicate(), upsert });
    }
}

impl<E: Entity> StorageAdapter<E> for DocumentAdapter<E> {
    open spec fn records(&self) -> Map<Seq<char>, E::V> {
        record_map::<E>(self.documents())
    }

    /// The store would hold two documents with one id; the adapter
    /// replaces instead.
    open spec fn enforces_unique_ids(&self) -> bool {
        false
    }

    /// Every record that the adapter was given can be read.
    open spec fn read_failure(&self) -> Option<StorageErrorModel> {
        None
    }

    open spec fn assigned(&self, entity: E::V) -> E::V {
        entity
    }

    /// The document stands in the place of those that held its id, by one
    /// call that lets the store insert.
    open spec fn create_effect(self, after: Self, entity: E::V) -> bool {
        &&& after.documents() == dropped::<E>(self.documents(), E::id_of(entity)).push(entity)
        &&& after.commands() == self.commands().push(
            DocumentCommandModel::Replace { document: entity, upsert: true },
        )
    }

    /// Where a document held the id: the document with the supplied fields
    /// overwritten stands in its place, by one call that forbids the store
    /// to insert. Nothing has changed and no call is made where none held
    /// it.
    open spec fn update_effect(
        self,
        after: Self,
        id: Seq<char>,
        patch: <E::Patch as View>::V,
    ) -> bool {
        match last_with::<E>(self.documents(), id) {
            Some(document) => {
                &&& after.documents() == dropped::<E>(self.documents(), id).push(
                    E::patched(document, patch),
                )
                &&& after.commands() == self.commands().push(
                    DocumentCommandModel::Replace {
                        document: E::patched(document, patch),
                        upsert: false,
                    },
                )
            },
            None => after.documents() == self.documents() && after.commands() == self.commands(),
        }
    }

    /// The documents that held the id are gone, by one call where there was
    /// one.
    open spec fn delete_effect(self, after: Self, id: Seq<char>) -> bool {
        &&& after.documents() == dropped::<E>(self.documents(), id)
        &&& after.commands() == if last_with::<E>(self.documents(), id) is Some {
            self.commands().push(DocumentCommandModel::Delete { id })
        } else {
            self.commands()
        }
    }

    fn find_by_id(&self, id: &String) -> (r: Result<E, StorageError>) {
        proof {
            lemma_record_map_keyed::<E>(self.documents());
        }
        match self.documents.find(id) {
            Some(document) => Ok(document),
            None => Err(StorageError::NotFound),
        }
    }

    /// Replaces the document that holds the id, or inserts the document
    /// where none holds it.
    fn create(&mut self, entity: E) -> (r: Result<E, StorageError>) {
        proof {
            lemma_record_map_replaced::<E>(self.documents(), entity@);
        }
        self.replace(&entity, true);
        proof {
            lemma_record_map_keyed::<E>(self.documents());
        }
        Ok(entity)
    }

    /// Where a document holds the id: replaces it by the document with the
    /// supplied fields overwritten, and forbids the store to insert. No
    /// call is made where none holds it, so that the store cannot insert
    /// there either.
    fn update(&mut self, id: &String, patch: &E::Patch) -> (r: Result<E, StorageError>) {
        proof {
            lemma_record_map_keyed::<E>(self.documents());
        }
        match self.documents.find(id) {
            Some(found) => {
                let document = found.apply(patch);
                proof {
                    lemma_last_with_has_id::<E>(self.documents(), id@);
                    E::lemma_patch_keeps_id(found@, patch@);
                    lemma_record_map_replaced::<E>(self.documents(), document@);
                }
                self.replace(&document, false);
                proof {
                    lemma_record_map_keyed::<E>(self.documents());
                }
                Ok(document)
            },
            None => Err(StorageError::NotFound),
        }
    }

    /// Deletes the documents that hold the id. No call is made where none
    /// holds it.
    fn delete(&mut self, id: &String) -> (r: Result<bool, StorageError>) {
        proof {
            lemma_record_map_dropped::<E>(self.documents(), id@);
        }
        let removed = self.documents.remove_all(id);
        if removed {
            self.note(DocumentCommand::Delete { id: id.clone() });
        }
        proof {
            lemma_record_map_keyed::<E>(self.documents());
        }
        Ok(removed)
    }
}

} // verus!
