//! Backups: snapshots of the invoice table, kept for recovery.

use vstd::prelude::*;
use crate::errors::QuickLendXError;
use crate::identifiers::{tagged_id, tagged_id_bytes, TAGGED_COUNTER_AT};
use crate::invoice::{Invoice, InvoiceView};
use crate::keys::{
    copy_keys, first_index, lemma_first_index, lemma_first_index_is, lemma_first_index_none,
    lemma_first_index_push, remove_key, without, Key,
};
use crate::table::{Record, Rows, Table};
use crate::types::{Id, LedgerInfo};

verus! {

/// The first tag byte of a backup identifier.
pub const BACKUP_TAG_0: u8 = 0xB4;

/// The second tag byte of a backup identifier.
pub const BACKUP_TAG_1: u8 = 0xC4;

/// Where a backup stands.
#[derive(Clone, Copy, Debug, PartialEq, Eq, Hash, Structural)]
pub enum BackupStatus {
    Active,
    Archived,
    Corrupted,
}

/// What is known of a backup, apart from the invoices that it holds.
#[derive(Debug, PartialEq, Eq)]
pub struct Backup {
    pub backup_id: Id,
    pub timestamp: u64,
    pub description: String,
    /// How many invoices the backup is said to hold.
    pub invoice_count: u32,
    pub status: BackupStatus,
}

impl Clone for Backup {
    fn clone(&self) -> (copy: Self)
        ensures
            copy == *self,
    {
        Backup {
            backup_id: self.backup_id,
            timestamp: self.timestamp,
            description: self.description.clone(),
            invoice_count: self.invoice_count,
            status: self.status,
        }
    }
}

impl Record for Backup {
    open spec fn key(&self) -> Id {
        self.backup_id
    }

    fn key_of(&self) -> (id: Id) {
        self.backup_id
    }

    fn duplicate(&self) -> (copy: Self) {
        self.clone()
    }
}

/// The invoices that a backup holds.
pub struct Snapshot {
    pub backup_id: Id,
    pub invoices: Vec<Invoice>,
}

/// The invoices that a backup holds, as a mathematical value.
pub struct SnapshotView {
    pub backup_id: Id,
    pub invoices: Seq<InvoiceView>,
}

impl View for Snapshot {
    type V = SnapshotView;

    open spec fn view(&self) -> SnapshotView {
        SnapshotView {
            backup_id: self.backup_id,
            invoices: self.invoices@.map_values(|invoice: Invoice| invoice@),
        }
    }
}

/// The snapshots of the given backup.
pub open spec fn snapshot_is(backup_id: Id) -> spec_fn(SnapshotView) -> bool {
    |snapshot: SnapshotView| snapshot.backup_id == backup_id
}

/// Whether every invoice in `invoices` has a positive amount.
pub open spec fn amounts_positive(invoices: Seq<InvoiceView>) -> bool {
    forall|i: int| 0 <= i < invoices.len() ==> (#[trigger] invoices[i]).amount > 0
}

/// The index of the oldest of `dated`: the first of those with the least
/// timestamp. Zero where `dated` is empty.
pub open spec fn oldest(dated: Seq<(Id, u64)>) -> int
    decreases dated.len(),
{
    if dated.len() <= 1 {
        0
    } else {
        let earlier = oldest(dated.drop_last());
        if dated.last().1 < dated[earlier].1 {
            dated.len() - 1
        } else {
            earlier
        }
    }
}

/// `oldest` is an index of a non-empty sequence.
pub proof fn lemma_oldest(dated: Seq<(Id, u64)>)
    requires
        dated.len() > 0,
    ensures
        0 <= oldest(dated) < dated.len(),
        forall|i: int| 0 <= i < dated.len() ==> dated[oldest(dated)].1 <= (#[trigger] dated[i]).1,
        forall|i: int| 0 <= i < oldest(dated) ==> dated[oldest(dated)].1 < (#[trigger] dated[i]).1,
    decreases dated.len(),
{
    if dated.len() > 1 {
        lemma_oldest(dated.drop_last());
        let earlier = oldest(dated.drop_last());
        assert forall|i: int| 0 <= i < dated.len() implies dated[oldest(dated)].1 <= (#[trigger] dated[i]).1 by {
            if i < dated.len() - 1 {
                assert(dated.drop_last()[i] == dated[i]);
            }
        }
        assert forall|i: int| 0 <= i < oldest(dated) implies dated[oldest(dated)].1 < (#[trigger] dated[i]).1 by {
            assert(dated.drop_last()[i] == dated[i]);
        }
    }
}

/// `active` without the oldest of `dated`, again and again until `dated`
/// has no more than `keep` elements.
pub open spec fn pruned(active: Seq<Id>, dated: Seq<(Id, u64)>, keep: nat) -> Seq<Id>
    decreases dated.len(),
{
    let at = oldest(dated);
    if dated.len() <= keep || !(0 <= at < dated.len()) {
        active
    } else {
        pruned(without(active, dated[at].0), dated.remove(at), keep)
    }
}

/// The backups as a mathematical value: what is known of each, the
/// identifiers of the active ones in the order in which they became active,
/// and the snapshots.
pub struct Shelf {
    pub backups: Rows<Backup>,
    pub active: Seq<Id>,
    pub snapshots: Seq<SnapshotView>,
}

impl Shelf {
    /// The invoices of the given backup.
    pub open spec fn data(self, backup_id: Id) -> Option<Seq<InvoiceView>> {
        let at = first_index(self.snapshots, snapshot_is(backup_id));
        if at >= 0 {
            Some(self.snapshots[at].invoices)
        } else {
            None
        }
    }

    /// The shelf after the invoices of the given backup were set.
    pub open spec fn with_data(self, backup_id: Id, invoices: Seq<InvoiceView>) -> Shelf {
        let at = first_index(self.snapshots, snapshot_is(backup_id));
        let snapshot = SnapshotView { backup_id, invoices };
        if at >= 0 {
            Shelf { snapshots: self.snapshots.update(at, snapshot), ..self }
        } else {
            Shelf { snapshots: self.snapshots.push(snapshot), ..self }
        }
    }

    /// The active backups that are known, each with its timestamp, in the
    /// order of `active`.
    pub open spec fn dated(self, active: Seq<Id>) -> Seq<(Id, u64)>
        decreases active.len(),
    {
        if active.len() == 0 {
            Seq::empty()
        } else {
            match self.backups.get(active.last()) {
                Some(backup) => self.dated(active.drop_last()).push((active.last(), backup.timestamp)),
                None => self.dated(active.drop_last()),
            }
        }
    }

    /// Why the given backup is not valid, or `None` where it is: the backup
    /// or its invoices are unknown, or the number of its invoices is not the
    /// number it is said to hold, or one of them has no positive amount.
    pub open spec fn validation_refusal(self, backup_id: Id) -> Option<QuickLendXError> {
        match self.backups.get(backup_id) {
            None => Some(QuickLendXError::StorageKeyNotFound),
            Some(backup) => match self.data(backup_id) {
                None => Some(QuickLendXError::StorageKeyNotFound),
                Some(invoices) => if invoices.len() as u32 != backup.invoice_count {
                    Some(QuickLendXError::StorageError)
                } else if !amounts_positive(invoices) {
                    Some(QuickLendXError::StorageError)
                } else {
                    None
                },
            },
        }
    }

    /// The active backups after the oldest were dropped so that no more than
    /// `keep` are left. Of two backups made at the same time the one that
    /// became active first is the older.
    pub open spec fn cleaned(self, keep: u32) -> Seq<Id> {
        if self.active.len() <= keep {
            self.active
        } else {
            pruned(self.active, self.dated(self.active), keep as nat)
        }
    }
}

/// The invoices that were set for a backup are its invoices.
pub proof fn lemma_with_data(shelf: Shelf, backup_id: Id, invoices: Seq<InvoiceView>)
    ensures
        shelf.with_data(backup_id, invoices).data(backup_id) == Some(invoices),
        shelf.with_data(backup_id, invoices).backups == shelf.backups,
        shelf.with_data(backup_id, invoices).active == shelf.active,
{
    let at = first_index(shelf.snapshots, snapshot_is(backup_id));
    let snapshot = SnapshotView { backup_id, invoices };
    let after = shelf.with_data(backup_id, invoices);
    lemma_first_index(shelf.snapshots, snapshot_is(backup_id));
    if at >= 0 {
        assert(snapshot_is(backup_id)(after.snapshots[at]));
        assert forall|i: int| 0 <= i < at implies !snapshot_is(backup_id)(#[trigger] after.snapshots[i]) by {
            assert(!snapshot_is(backup_id)(shelf.snapshots[i]));
        }
        lemma_first_index_is(after.snapshots, snapshot_is(backup_id), at);
    } else {
        lemma_first_index_push(shelf.snapshots, snapshot, snapshot_is(backup_id));
    }
}

/// The backups with their snapshots.
pub struct BackupStorage {
    table: Table<Backup, 10>,
    active: Vec<Id>,
    snapshots: Vec<Snapshot>,
}

impl View for BackupStorage {
    type V = Shelf;

    closed spec fn view(&self) -> Shelf {
        Shelf {
            backups: self.table@,
            active: self.active@,
            snapshots: self.snapshots@.map_values(|snapshot: Snapshot| snapshot@),
        }
    }
}

/// A copy of `invoices`.
pub fn copy_invoices(invoices: &Vec<Invoice>) -> (copy: Vec<Invoice>)
    ensures
        copy@.map_values(|invoice: Invoice| invoice@) == invoices@.map_values(|invoice: Invoice| invoice@),
{
    let mut copy: Vec<Invoice> = Vec::new();
    let mut i: usize = 0;
    while i < invoices.len()
        invariant
            i <= invoices.len(),
            copy@.len() == i,
            forall|j: int| 0 <= j < i ==> copy@[j]@ == invoices@[j]@,
        decreases invoices.len() - i,
    {
        copy.push(invoices[i].clone());
        i += 1;
    }
    proof {
        assert(copy@.map_values(|invoice: Invoice| invoice@) =~= invoices@.map_values(
            |invoice: Invoice| invoice@,
        ));
    }
    copy
}

impl BackupStorage {
    /// The invariant of the backups: no two share an identifier.
    pub closed spec fn wf(&self) -> bool {
        self.table.wf()
    }

    /// What `wf` says of the backups as a mathematical value.
    pub proof fn lemma_wf(&self)
        requires
            self.wf(),
        ensures
            self@.backups.wf(TAGGED_COUNTER_AT as int),
    {
    }

    /// No backups.
    pub fn new() -> (backups: Self)
        ensures
            backups.wf(),
            backups@ == (Shelf {
                backups: Rows { records: Seq::empty(), issued: 0 },
                active: Seq::empty(),
                snapshots: Seq::empty(),
            }),
    {
        let backups = BackupStorage { table: Table::new(0), active: Vec::new(), snapshots: Vec::new() };
        proof {
            assert(backups@.snapshots =~= Seq::empty());
        }
        backups
    }

    /// Whether another identifier can be issued.
    pub fn has_room(&self) -> (room: bool)
        ensures
            room == self@.backups.has_room(),
    {
        self.table.has_room()
    }

    /// Issues the identifier of the next backup.
    pub fn generate_backup_id(&mut self, ledger: LedgerInfo) -> (id: Id)
        requires
            old(self).wf(),
            old(self)@.backups.has_room(),
        ensures
            final(self).wf(),
            final(self)@ == (Shelf { backups: old(self)@.backups.issue(), ..old(self)@ }),
            final(self)@.backups.admits(id, TAGGED_COUNTER_AT as int),
            id@ == tagged_id_bytes(
                BACKUP_TAG_0,
                BACKUP_TAG_1,
                ledger.timestamp,
                old(self)@.backups.issued as u64,
            ),
    {
        let counter = self.table.reserve();
        tagged_id(BACKUP_TAG_0, BACKUP_TAG_1, ledger.timestamp, counter)
    }

    /// Stores what is known of a backup.
    pub fn store_backup(&mut self, backup: &Backup)
        requires
            old(self).wf(),
            old(self)@.backups.admits(backup.backup_id, TAGGED_COUNTER_AT as int),
        ensures
            final(self).wf(),
            final(self)@ == (Shelf { backups: old(self)@.backups.store(*backup), ..old(self)@ }),
    {
        self.table.store(backup);
    }

    /// What is known of the backup with the given identifier.
    pub fn get_backup(&self, backup_id: &Id) -> (backup: Option<Backup>)
        ensures
            backup == self@.backups.get(*backup_id),
    {
        self.table.get(backup_id)
    }

    /// Replaces what is known of the backup that has the identifier of
    /// `backup`. Without such a backup nothing changes.
    pub fn update_backup(&mut self, backup: &Backup)
        requires
            old(self).wf(),
        ensures
            final(self).wf(),
            final(self)@ == (Shelf { backups: old(self)@.backups.update(*backup), ..old(self)@ }),
    {
        self.table.update(backup);
    }

    /// The identifiers of the active backups, in the order in which they
    /// became active.
    pub fn get_all_backups(&self) -> (ids: Vec<Id>)
        ensures
            ids@ == self@.active,
    {
        copy_keys(&self.active)
    }

    /// Adds a backup at the end of the active ones.
    pub fn add_to_backup_list(&mut self, backup_id: &Id)
        requires
            old(self).wf(),
        ensures
            final(self).wf(),
            final(self)@ == (Shelf { active: old(self)@.active.push(*backup_id), ..old(self)@ }),
    {
        self.active.push(*backup_id);
    }

    /// Takes a backup out of the active ones.
    pub fn remove_from_backup_list(&mut self, backup_id: &Id)
        requires
            old(self).wf(),
        ensures
            final(self).wf(),
            final(self)@ == (Shelf { active: without(old(self)@.active, *backup_id), ..old(self)@ }),
    {
        self.active = remove_key(&self.active, backup_id);
    }

    fn find_snapshot(&self, backup_id: &Id) -> (at: Option<usize>)
        ensures
            match at {
                Some(at) => at < self.snapshots.len() && at == first_index(
                    self@.snapshots,
                    snapshot_is(*backup_id),
                ),
                None => first_index(self@.snapshots, snapshot_is(*backup_id)) == -1,
            },
    {
        let mut i: usize = 0;
        while i < self.snapshots.len()
            invariant
                i <= self.snapshots.len(),
                forall|j: int| 0 <= j < i ==> !snapshot_is(*backup_id)(#[trigger] self@.snapshots[j]),
            decreases self.snapshots.len() - i,
        {
            if self.snapshots[i].backup_id.same(backup_id) {
                proof {
                    lemma_first_index_is(self@.snapshots, snapshot_is(*backup_id), i as int);
                }
                return Some(i);
            }
            i += 1;
        }
        proof {
            lemma_first_index_none(self@.snapshots, snapshot_is(*backup_id));
        }
        None
    }

    /// Sets the invoices that the given backup holds.
    pub fn store_backup_data(&mut self, backup_id: &Id, invoices: &Vec<Invoice>)
        requires
            old(self).wf(),
        ensures
            final(self).wf(),
            final(self)@ == old(self)@.with_data(*backup_id, invoices@.map_values(|invoice: Invoice| invoice@)),
    {
        let snapshot = Snapshot { backup_id: *backup_id, invoices: copy_invoices(invoices) };
        match self.find_snapshot(backup_id) {
            Some(at) => {
                self.snapshots.set(at, snapshot);
                proof {
                    assert(self@.snapshots =~= old(self)@.snapshots.update(at as int, snapshot@));
                }
            },
            None => {
                self.snapshots.push(snapshot);
                proof {
                    assert(self@.snapshots =~= old(self)@.snapshots.push(snapshot@));
                }
            },
        }
    }

    /// The invoices that the given backup holds.
    pub fn get_backup_data(&self, backup_id: &Id) -> (invoices: Option<Vec<Invoice>>)
        ensures
            match invoices {
                Some(invoices) => self@.data(*backup_id) == Some(
                    invoices@.map_values(|invoice: Invoice| invoice@),
                ),
                None => self@.data(*backup_id).is_none(),
            },
    {
        match self.find_snapshot(backup_id) {
            Some(at) => Some(copy_invoices(&self.snapshots[at].invoices)),
            None => None,
        }
    }

    /// Checks the given backup: that it and its invoices are known, that it
    /// holds as many invoices as it is said to hold, and that each of them
    /// has a positive amount.
    pub fn validate_backup(&self, backup_id: &Id) -> (outcome: Result<(), QuickLendXError>)
        ensures
            match self@.validation_refusal(*backup_id) {
                Some(error) => outcome == Err::<(), QuickLendXError>(error),
                None => outcome.is_ok(),
            },
    {
        let backup = match self.get_backup(backup_id) {
            Some(backup) => backup,
            None => {
                return Err(QuickLendXError::StorageKeyNotFound);
            },
        };
        let at = match self.find_snapshot(backup_id) {
            Some(at) => at,
            None => {
                return Err(QuickLendXError::StorageKeyNotFound);
            },
        };
        let data = &self.snapshots[at].invoices;
        let ghost invoices = self@.snapshots[at as int].invoices;
        let count = #[verifier::truncate] (data.len() as u32);
        if count != backup.invoice_count {
            return Err(QuickLendXError::StorageError);
        }
        let mut i: usize = 0;
        while i < data.len()
            invariant
                i <= data.len(),
                invoices == data@.map_values(|invoice: Invoice| invoice@),
                self@.backups.get(*backup_id) == Some(backup),
                self@.data(*backup_id) == Some(invoices),
                invoices.len() as u32 == backup.invoice_count,
                forall|j: int| 0 <= j < i ==> (#[trigger] invoices[j]).amount > 0,
            decreases data.len() - i,
        {
            if data[i].amount <= 0 {
                proof {
                    assert(invoices[i as int].amount <= 0);
                }
                return Err(QuickLendXError::StorageError);
            }
            i += 1;
        }
        Ok(())
    }

    fn dated_backups(&self) -> (dated: Vec<(Id, u64)>)
        ensures
            dated@ == self@.dated(self@.active),
    {
        let mut dated: Vec<(Id, u64)> = Vec::new();
        let mut i: usize = 0;
        while i < self.active.len()
            invariant
                i <= self.active.len(),
                dated@ == self@.dated(self.active@.take(i as int)),
            decreases self.active.len() - i,
        {
            proof {
                assert(self.active@.take(i + 1).drop_last() =~= self.active@.take(i as int));
            }
            if let Some(backup) = self.get_backup(&self.active[i]) {
                dated.push((self.active[i], backup.timestamp));
            }
            i += 1;
        }
        proof {
            assert(self.active@.take(self.active.len() as int) =~= self.active@);
        }
        dated
    }

    /// Drops the oldest of the active backups so that no more than
    /// `max_backups` are left. What is known of a dropped backup, and its
    /// invoices, stay.
    pub fn cleanup_old_backups(&mut self, max_backups: u32) -> (outcome: Result<(), QuickLendXError>)
        requires
            old(self).wf(),
        ensures
            final(self).wf(),
            outcome.is_ok(),
            final(self)@ == (Shelf { active: old(self)@.cleaned(max_backups), ..old(self)@ }),
    {
        if self.active.len() <= max_backups as usize {
            proof {
                assert(self@.active =~= old(self)@.cleaned(max_backups));
            }
            return Ok(());
        }
        let mut dated = self.dated_backups();
        while dated.len() > max_backups as usize
            invariant
                self.wf(),
                self@.backups == old(self)@.backups,
                self@.snapshots == old(self)@.snapshots,
                pruned(self@.active, dated@, max_backups as nat) == pruned(
                    old(self)@.active,
                    old(self)@.dated(old(self)@.active),
                    max_backups as nat,
                ),
            decreases dated.len(),
        {
            let mut at: usize = 0;
            let mut i: usize = 1;
            while i < dated.len()
                invariant
                    1 <= i <= dated.len(),
                    at == oldest(dated@.take(i as int)),
                    at < i,
                decreases dated.len() - i,
            {
                proof {
                    assert(dated@.take(i + 1).drop_last() =~= dated@.take(i as int));
                }
                if dated[i].1 < dated[at].1 {
                    at = i;
                }
                i += 1;
            }
            proof {
                assert(dated@.take(dated.len() as int) =~= dated@);
            }
            proof {
                lemma_oldest(dated@);
            }
            let oldest_id = dated[at].0;
            self.remove_from_backup_list(&oldest_id);
            dated.remove(at);
        }
        Ok(())
    }
}

} // verus!
