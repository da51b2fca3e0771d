//! The adapter for relational stores: every entity is one row of a table
//! that is named after the entity type. The table keeps ids unique, and
//! gives a row that comes without an id the next key of its own.

use crate::decimal::digit_char;
use crate::decimal::digit_text;
use crate::models::Entity;
use crate::storage::records::last_with;
use crate::storage::records::lemma_dropped_absent;
use crate::storage::records::lemma_last_with_has_id;
use crate::storage::records::lemma_record_map_dropped;
use crate::storage::records::lemma_record_map_keyed;
use crate::storage::records::lemma_record_map_replaced;
use crate::storage::records::dropped;
use crate::storage::records::record_map;
use crate::storage::records::record_models;
use crate::storage::records::RecordList;
use crate::storage::StorageAdapter;
use crate::storage::StorageError;
use crate::storage::StorageErrorModel;
use vstd::prelude::*;
use vstd::string::StringExecFns;

verus! {

/// A statement that the adapter asks the store to run.
#[derive(Debug, PartialEq, Eq)]
pub enum RowCommand<E> {
    /// Insert the row.
    Insert(E),
    /// Set the row with the id of this one to this one.
    Update(E),
    /// Delete the row with the id.
    Delete(String),
}

/// The mathematical value of a [`RowCommand`].
pub enum RowCommandModel<V> {
    Insert(V),
    Update(V),
    Delete(Seq<char>),
}

impl<E: Entity> View for RowCommand<E> {
    type V = RowCommandModel<E::V>;

    open spec fn view(&self) -> RowCommandModel<E::V> {
        match self {
            RowCommand::Insert(row) => RowCommandModel::Insert(row@),
            RowCommand::Update(row) => RowCommandModel::Update(row@),
            RowCommand::Delete(id) => RowCommandModel::Delete(id@),
        }
    }
}

/// The mathematical values of commands.
pub open spec fn row_command_models<E: Entity>(commands: Seq<RowCommand<E>>) -> Seq<
    RowCommandModel<E::V>,
> {
    commands.map_values(|command: RowCommand<E>| command@)
}

/// A number in decimal notation.
pub open spec fn decimal_text(n: nat) -> Seq<char>
    decreases n,
{
    if n < 10 {
        seq![digit_char(n as u8)]
    } else {
        decimal_text(n / 10).push(digit_char((n % 10) as u8))
    }
}

/// Writes a number in decimal notation.
pub fn decimal_string(n: u64) -> (r: String)
    ensures
        r@ == decimal_text(n as nat),
    decreases n,
{
    if n < 10 {
        String::from_str(digit_text(n as u8))
    } else {
        let mut text = decimal_string(n / 10);
        text.append(digit_text((n % 10) as u8));
        assert(text@ == decimal_text(n as nat / 10).push(digit_char((n as nat % 10) as u8)));
        text
    }
}

/// The key after `key`; the largest key has none after it.
pub open spec fn key_after(key: u64) -> u64 {
    if key < u64::MAX {
        (key + 1) as u64
    } else {
        key
    }
}

/// The adapter for a relational store. It works on the rows that it was
/// given, and keeps a list of the commands by which the table in the store
/// follows.
pub struct RelationalAdapter<E> {
    rows: RecordList<E>,
    next_key: u64,
    commands: Vec<RowCommand<E>>,
}

impl<E: Entity> RelationalAdapter<E> {
    /// The rows of the table.
    pub closed spec fn rows(&self) -> Seq<E::V> {
        self.rows@
    }

    /// The key that the table gives to the next row without an id.
    pub closed spec fn next_key(&self) -> u64 {
        self.next_key
    }

    /// The commands that the store has not seen yet, in order.
    pub closed spec fn commands(&self) -> Seq<RowCommandModel<E::V>> {
        row_command_models(self.commands@)
    }

    /// An adapter for a table with the given rows and next key.
    pub fn open(rows: Vec<E>, next_key: u64) -> (r: Self)
        ensures
            r.rows() == record_models(rows@),
            r.next_key() == next_key,
            r.commands() == Seq::<RowCommandModel<E::V>>::empty(),
    {
        RelationalAdapter { rows: RecordList::new(rows), next_key, commands: Vec::new() }
    }

    /// Hands over the commands that the store has not seen yet.
    pub fn take_commands(&mut self) -> (r: Vec<RowCommand<E>>)
        ensures
            row_command_models(r@) == old(self).commands(),
            final(self).commands() == Seq::<RowCommandModel<E::V>>::empty(),
            final(self).rows() == old(self).rows(),
            final(self).next_key() == old(self).next_key(),
    {
        let mut taken: Vec<RowCommand<E>> = Vec::new();
        core::mem::swap(&mut self.commands, &mut taken);
        taken
    }

    /// Notes a command.
    fn note(&mut self, command: RowCommand<E>)
        ensures
            final(self).commands() == old(self).commands().push(command@),
            final(self).rows() == old(self).rows(),
            final(self).next_key() == old(self).next_key(),
    {
        let ghost before = self.commands();
        self.commands.push(command);
        assert(self.commands() == before.push(command@));
    }
}

impl<E: Entity> StorageAdapter<E> for RelationalAdapter<E> {
    open spec fn records(&self) -> Map<Seq<char>, E::V> {
        record_map::<E>(self.rows())
    }

    /// The id is the primary key of the table.
    open spec fn enforces_unique_ids(&self) -> bool {
        true
    }

    /// A row without an id gets the next key of the table, in decimal
    /// notation, as its id.
    /// Every record that the adapter was given can be read.
    open spec fn read_failure(&self) -> Option<StorageErrorModel> {
        None
    }

    open spec fn assigned(&self, entity: E::V) -> E::V {
        if E::id_of(entity).len() == 0 {
            E::with_id_of(entity, decimal_text(self.next_key() as nat))
        } else {
            entity
        }
    }

    /// A key that the table gave out is used up, whether the row was
    /// inserted or not. The row is inserted behind the others, by one
    /// command, unless a row has its id: nothing is sent to the store then.
    open spec fn create_effect(self, after: Self, entity: E::V) -> bool {
        let row = self.assigned(entity);
        &&& after.next_key() == if E::id_of(entity).len() == 0 {
            key_after(self.next_key())
        } else {
            self.next_key()
        }
        &&& if last_with::<E>(self.rows(), E::id_of(row)) is Some {
            after.rows() == self.rows() && after.commands() == self.commands()
        } else {
            &&& after.rows() == self.rows().push(row)
            &&& after.commands() == self.commands().push(RowCommandModel::Insert(row))
        }
    }

    /// Where a row has the id: the row with the supplied fields overwritten
    /// stands in its place, by one command. Nothing has changed where none
    /// has it.
    open spec fn update_effect(
        self,
        after: Self,
        id: Seq<char>,
        patch: <E::Patch as View>::V,
    ) -> bool {
        &&& after.next_key() == self.next_key()
        &&& match last_with::<E>(self.rows(), id) {
            Some(row) => {
                &&& after.rows() == dropped::<E>(self.rows(), id).push(E::patched(row, patch))
                &&& after.commands() == self.commands().push(
                    RowCommandModel::Update(E::patched(row, patch)),
                )
            },
            None => after.rows() == self.rows() && after.commands() == self.commands(),
        }
    }

    /// The rows with the id are gone, by one command where there was one.
    open spec fn delete_effect(self, after: Self, id: Seq<char>) -> bool {
        &&& after.next_key() == self.next_key()
        &&& after.rows() == dropped::<E>(self.rows(), id)
        &&& after.commands() == if last_with::<E>(self.rows(), id) is Some {
            self.commands().push(RowCommandModel::Delete(id))
        } else {
            self.commands()
        }
    }

    fn find_by_id(&self, id: &String) -> (r: Result<E, StorageError>) {
        proof {
            lemma_record_map_keyed::<E>(self.rows());
        }
        match self.rows.find(id) {
            Some(row) => Ok(row),
            None => Err(StorageError::NotFound),
        }
    }

    /// Inserts the row, unless a row has its id. A key that the table gave
    /// out is used up, whether the row was inserted or not.
    fn create(&mut self, entity: E) -> (r: Result<E, StorageError>) {
        let row = if entity.id().as_str().is_empty() {
            let id = decimal_string(self.next_key);
            if self.next_key < u64::MAX {
                self.next_key = self.next_key + 1;
            }
            entity.with_id(id)
        } else {
            proof {
                E::lemma_with_id(entity@, E::id_of(entity@));
            }
            entity
        };
        proof {
            lemma_record_map_keyed::<E>(self.rows());
        }
        match self.rows.find(row.id()) {
            Some(_) => Err(StorageError::DuplicateKey),
            None => {
                proof {
                    lemma_dropped_absent::<E>(self.rows(), E::id_of(row@));
                    lemma_record_map_replaced::<E>(self.rows(), row@);
                }
                self.rows.push(row.duplicate());
                self.note(RowCommand::Insert(row.duplicate()));
                proof {
                    lemma_record_map_keyed::<E>(self.rows());
                }
                Ok(row)
            },
        }
    }

    /// Where a row has the id: sets it to the row with the supplied fields
    /// overwritten. Nothing is sent to the store where none has it.
    fn update(&mut self, id: &String, patch: &E::Patch) -> (r: Result<E, StorageError>) {
        proof {
            lemma_record_map_keyed::<E>(self.rows());
        }
        match self.rows.find(id) {
            Some(found) => {
                let row = found.apply(patch);
                proof {
                    lemma_last_with_has_id::<E>(self.rows(), id@);
                    E::lemma_patch_keeps_id(found@, patch@);
                    lemma_record_map_replaced::<E>(self.rows(), row@);
                }
                let _ = self.rows.remove_all(id);
                self.rows.push(row.duplicate());
                self.note(RowCommand::Update(row.duplicate()));
                proof {
                    lemma_record_map_keyed::<E>(self.rows());
                }
                Ok(row)
            },
            None => Err(StorageError::NotFound),
        }
    }

    /// Deletes the row with the id. Nothing is sent to the store where no
    /// row has it.
    fn delete(&mut self, id: &String) -> (r: Result<bool, StorageError>) {
        proof {
            lemma_record_map_dropped::<E>(self.rows(), id@);
        }
        let removed = self.rows.remove_all(id);
        if removed {
            self.note(RowCommand::Delete(id.clone()));
        }
        proof {
            lemma_record_map_keyed::<E>(self.rows());
        }
        Ok(removed)
    }
}

} // verus!
