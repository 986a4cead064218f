//! A table of records, each under an identifier that the table issued.
//!
//! The table keeps a counter. An identifier is issued by embedding the
//! counter's value in it and raising the counter, so a record can be stored
//! under it without a search for a record that has it already.

use vstd::prelude::*;
use crate::identifiers::u64_at;
use crate::keys::{
    first_index, lemma_first_index, lemma_first_index_is, lemma_first_index_none, lemma_first_index_push, Key,
};
use crate::types::Id;

verus! {

/// A record that a table holds under an identifier.
pub trait Record: Sized {
    /// The identifier of the record.
    spec fn key(&self) -> Id;

    /// The identifier of the record.
    fn key_of(&self) -> (id: Id)
        ensures
            id == self.key(),
    ;

    /// A copy of the record.
    fn duplicate(&self) -> (copy: Self)
        ensures
            copy == *self,
    ;
}

/// The records with the given identifier.
pub open spec fn keyed<T: Record>(id: Id) -> spec_fn(T) -> bool {
    |record: T| record.key() == id
}

/// A table as a mathematical value: the records in the order in which they
/// were stored, and the value of the counter.
pub struct Rows<T> {
    pub records: Seq<T>,
    pub issued: nat,
}

impl<T: Record> Rows<T> {
    /// Where the record with the given identifier stands, or -1.
    pub open spec fn position(self, id: Id) -> int {
        first_index(self.records, keyed::<T>(id))
    }

    /// The record with the given identifier.
    pub open spec fn get(self, id: Id) -> Option<T> {
        if self.position(id) >= 0 {
            Some(self.records[self.position(id)])
        } else {
            None
        }
    }

    /// No two records share an identifier, and every identifier embeds, at
    /// byte `at`, a counter value that has been issued.
    pub open spec fn wf(self, at: int) -> bool {
        &&& forall|i: int, j: int|
            0 <= i < self.records.len() && 0 <= j < self.records.len() && i != j
                ==> self.records[i].key() != self.records[j].key()
        &&& forall|i: int|
            0 <= i < self.records.len() ==> u64_at((#[trigger] self.records[i]).key(), at) < self.issued
    }

    /// Whether another identifier can be issued.
    pub open spec fn has_room(self) -> bool {
        self.issued < u64::MAX
    }

    /// Whether a record with this identifier can be stored: the identifier
    /// was issued and is not in the table.
    pub open spec fn admits(self, id: Id, at: int) -> bool {
        &&& u64_at(id, at) < self.issued
        &&& self.position(id) == -1
    }

    /// The table after an identifier was issued.
    pub open spec fn issue(self) -> Rows<T> {
        Rows { issued: self.issued + 1, ..self }
    }

    /// The table after `record` was stored at its end.
    pub open spec fn store(self, record: T) -> Rows<T> {
        Rows { records: self.records.push(record), ..self }
    }

    /// The table after the record with the identifier of `record` was
    /// replaced by `record`. A table without such a record stays as it is.
    pub open spec fn update(self, record: T) -> Rows<T> {
        let at = self.position(record.key());
        if at < 0 {
            self
        } else {
            Rows { records: self.records.update(at, record), ..self }
        }
    }
}

/// In a well-formed table every record is found under its identifier.
pub proof fn lemma_row_resolves<T: Record>(rows: Rows<T>, counter_at: int, at: int)
    requires
        rows.wf(counter_at),
        0 <= at < rows.records.len(),
    ensures
        rows.position(rows.records[at].key()) == at,
        rows.get(rows.records[at].key()) == Some(rows.records[at]),
{
    lemma_first_index_is(rows.records, keyed::<T>(rows.records[at].key()), at);
}

/// A record that is found under an identifier has that identifier.
pub proof fn lemma_row_found<T: Record>(rows: Rows<T>, id: Id)
    ensures
        rows.get(id) matches Some(record) ==> record.key() == id && 0 <= rows.position(id)
            < rows.records.len(),
        rows.get(id).is_none() ==> forall|i: int|
            0 <= i < rows.records.len() ==> (#[trigger] rows.records[i]).key() != id,
{
    lemma_first_index(rows.records, keyed::<T>(id));
    if rows.get(id).is_none() {
        assert forall|i: int| 0 <= i < rows.records.len() implies (#[trigger] rows.records[i]).key() != id by {
            if rows.records[i].key() == id {
                assert(keyed::<T>(id)(rows.records[i]));
            }
        }
    }
}

/// Storing a record that the table admits keeps the table well formed; the
/// record is then found under its identifier, and every other lookup gives
/// what it gave.
pub proof fn lemma_rows_store<T: Record>(rows: Rows<T>, counter_at: int, record: T)
    requires
        rows.wf(counter_at),
        rows.admits(record.key(), counter_at),
    ensures
        rows.store(record).wf(counter_at),
        rows.store(record).get(record.key()) == Some(record),
        forall|other: Id| other != record.key() ==> #[trigger] rows.store(record).get(other) == rows.get(other),
{
    let after = rows.store(record);
    lemma_first_index(rows.records, keyed::<T>(record.key()));
    assert forall|i: int, j: int|
        0 <= i < after.records.len() && 0 <= j < after.records.len() && i != j implies after.records[i].key()
        != after.records[j].key() by {
        if i == rows.records.len() {
            assert(!keyed::<T>(record.key())(rows.records[j]));
        } else if j == rows.records.len() {
            assert(!keyed::<T>(record.key())(rows.records[i]));
        }
    }
    lemma_first_index_push(rows.records, record, keyed::<T>(record.key()));
    assert forall|other: Id| other != record.key() implies #[trigger] after.get(other) == rows.get(other) by {
        lemma_first_index_push(rows.records, record, keyed::<T>(other));
        lemma_first_index(rows.records, keyed::<T>(other));
    }
}

/// Replacing a record keeps the table well formed; the record is then found
/// as replaced, and every other lookup gives what it gave.
pub proof fn lemma_rows_update<T: Record>(rows: Rows<T>, counter_at: int, record: T)
    requires
        rows.wf(counter_at),
    ensures
        rows.update(record).wf(counter_at),
        rows.update(record).issued == rows.issued,
        rows.update(record).records.len() == rows.records.len(),
        rows.get(record.key()).is_some() ==> rows.update(record).get(record.key()) == Some(record),
        rows.get(record.key()).is_none() ==> rows.update(record) == rows,
        forall|other: Id| other != record.key() ==> #[trigger] rows.update(record).get(other) == rows.get(other),
        forall|id: Id| #[trigger] rows.update(record).position(id) == rows.position(id),
{
    let at = rows.position(record.key());
    lemma_first_index(rows.records, keyed::<T>(record.key()));
    if at >= 0 {
        let after = rows.update(record);
        assert forall|id: Id| #[trigger] after.position(id) == rows.position(id) by {
            lemma_first_index(rows.records, keyed::<T>(id));
            let found = rows.position(id);
            if found >= 0 {
                assert(keyed::<T>(id)(after.records[found]));
                assert forall|i: int| 0 <= i < found implies !keyed::<T>(id)(#[trigger] after.records[i]) by {
                    assert(!keyed::<T>(id)(rows.records[i]));
                }
                lemma_first_index_is(after.records, keyed::<T>(id), found);
            } else {
                assert forall|i: int| 0 <= i < after.records.len() implies !keyed::<T>(id)(
                    #[trigger] after.records[i],
                ) by {
                    assert(!keyed::<T>(id)(rows.records[i]));
                }
                lemma_first_index_none(after.records, keyed::<T>(id));
            }
        }
        assert(after.position(record.key()) == at);
        assert forall|other: Id| other != record.key() implies #[trigger] after.get(other) == rows.get(
            other,
        ) by {
            assert(after.position(other) == rows.position(other));
            lemma_first_index(rows.records, keyed::<T>(other));
        }
    }
}

/// A table of records with its counter. Identifiers embed the counter at
/// byte `AT`.
pub struct Table<T: Record, const AT: usize> {
    records: Vec<T>,
    counter: u64,
}

impl<T: Record, const AT: usize> View for Table<T, AT> {
    type V = Rows<T>;

    closed spec fn view(&self) -> Rows<T> {
        Rows { records: self.records@, issued: self.counter as nat }
    }
}

impl<T: Record, const AT: usize> Table<T, AT> {
    /// The invariant of the table.
    pub open spec fn wf(&self) -> bool {
        self@.wf(AT as int)
    }

    /// An empty table whose counter stands at `first`.
    pub fn new(first: u64) -> (table: Self)
        ensures
            table.wf(),
            table@ == (Rows::<T> { records: Seq::empty(), issued: first as nat }),
    {
        Table { records: Vec::new(), counter: first }
    }

    /// Whether another identifier can be issued.
    pub fn has_room(&self) -> (room: bool)
        ensures
            room == self@.has_room(),
    {
        self.counter < u64::MAX
    }

    /// The value of the counter, which is then raised. The table admits
    /// every identifier that embeds the value.
    pub fn reserve(&mut self) -> (counter: u64)
        requires
            old(self).wf(),
            old(self)@.has_room(),
        ensures
            final(self).wf(),
            final(self)@ == old(self)@.issue(),
            counter == old(self)@.issued,
            forall|id: Id| u64_at(id, AT as int) == counter ==> #[trigger] final(self)@.admits(id, AT as int),
    {
        let counter = self.counter;
        self.counter = self.counter + 1;
        proof {
            let before = old(self)@;
            assert(before.wf(AT as int));
            assert(self@.records == before.records);
            assert forall|i: int| 0 <= i < self@.records.len() implies u64_at(
                (#[trigger] self@.records[i]).key(),
                AT as int,
            ) < self@.issued by {
                assert(u64_at(before.records[i].key(), AT as int) < before.issued);
            }
            assert forall|id: Id| u64_at(id, AT as int) == counter implies #[trigger] self@.admits(
                id,
                AT as int,
            ) by {
                assert forall|i: int| 0 <= i < self@.records.len() implies !keyed::<T>(id)(
                    #[trigger] self@.records[i],
                ) by {
                    assert(u64_at(before.records[i].key(), AT as int) < before.issued);
                }
                lemma_first_index_none(self@.records, keyed::<T>(id));
            }
        }
        counter
    }

    fn find(&self, id: &Id) -> (at: Option<usize>)
        ensures
            match at {
                Some(at) => at < self.records.len() && at == self@.position(*id),
                None => self@.position(*id) == -1,
            },
    {
        let mut i: usize = 0;
        while i < self.records.len()
            invariant
                i <= self.records.len(),
                forall|j: int| 0 <= j < i ==> !keyed::<T>(*id)(#[trigger] self.records@[j]),
            decreases self.records.len() - i,
        {
            if self.records[i].key_of().same(id) {
                proof {
                    lemma_first_index_is(self.records@, keyed::<T>(*id), i as int);
                }
                return Some(i);
            }
            i += 1;
        }
        proof {
            lemma_first_index_none(self.records@, keyed::<T>(*id));
        }
        None
    }

    /// Stores `record` at the end of the table.
    pub fn store(&mut self, record: &T)
        requires
            old(self).wf(),
            old(self)@.admits(record.key(), AT as int),
        ensures
            final(self).wf(),
            final(self)@ == old(self)@.store(*record),
    {
        proof {
            lemma_rows_store(self@, AT as int, *record);
        }
        self.records.push(record.duplicate());
    }

    /// The record with the given identifier.
    pub fn get(&self, id: &Id) -> (record: Option<T>)
        ensures
            record == self@.get(*id),
    {
        match self.find(id) {
            Some(at) => Some(self.records[at].duplicate()),
            None => None,
        }
    }

    /// Replaces the record that has the identifier of `record` by `record`.
    /// Without such a record nothing changes.
    pub fn update(&mut self, record: &T)
        requires
            old(self).wf(),
        ensures
            final(self).wf(),
            final(self)@ == old(self)@.update(*record),
    {
        proof {
            lemma_rows_update(self@, AT as int, *record);
        }
        let id = record.key_of();
        match self.find(&id) {
            Some(at) => {
                self.records.set(at, record.duplicate());
            },
            None => {},
        }
    }

    /// The number of records.
    pub fn len(&self) -> (len: usize)
        ensures
            len == self@.records.len(),
    {
        self.records.len()
    }

    /// The record at `at`.
    pub fn row(&self, at: usize) -> (record: &T)
        requires
            at < self@.records.len(),
        ensures
            *record == self@.records[at as int],
    {
        &self.records[at]
    }
}

} // verus!
