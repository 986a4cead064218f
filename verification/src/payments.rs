//! Escrow: funds held between the acceptance of a bid and their release to
//! the business or their refund to the investor.
//!
//! The ledger does not move funds. It says which movement is due, the host
//! carries it out, and the ledger is told whether the funds moved.

use vstd::prelude::*;
use crate::errors::QuickLendXError;
use crate::identifiers::{tagged_id, tagged_id_bytes, TAGGED_COUNTER_AT};
use crate::keys::{
    first_index, lemma_first_index, lemma_first_index_is, lemma_first_index_none, lemma_first_index_push, Key,
};
use crate::table::{
    keyed, lemma_row_found, lemma_row_resolves, lemma_rows_store, lemma_rows_update, Record, Rows, Table,
};
use crate::types::{Address, FundsMovement, Id, LedgerInfo};

verus! {

/// The first tag byte of an escrow identifier.
pub const ESCROW_TAG_0: u8 = 0xE5;

/// The second tag byte of an escrow identifier.
pub const ESCROW_TAG_1: u8 = 0xC0;

/// Where an escrow stands. `Released` and `Refunded` are final.
#[derive(Clone, Copy, Debug, PartialEq, Eq, Hash, Structural)]
pub enum EscrowStatus {
    /// The funds are held.
    Held,
    /// The funds went to the business.
    Released,
    /// The funds went back to the investor.
    Refunded,
}

/// Funds held for an invoice.
#[derive(Clone, Copy, Debug, PartialEq, Eq)]
pub struct Escrow {
    pub escrow_id: Id,
    pub invoice_id: Id,
    pub investor: Address,
    pub business: Address,
    pub amount: i128,
    pub currency: Address,
    pub created_at: u64,
    pub status: EscrowStatus,
}

impl Record for Escrow {
    open spec fn key(&self) -> Id {
        self.escrow_id
    }

    fn key_of(&self) -> (id: Id) {
        self.escrow_id
    }

    fn duplicate(&self) -> (copy: Self) {
        *self
    }
}

impl Escrow {
    /// The escrow with another status.
    pub open spec fn with_status(self, status: EscrowStatus) -> Escrow {
        Escrow { status, ..self }
    }

    /// The movement that releases the escrow: from the investor to the
    /// business.
    pub open spec fn release(self) -> FundsMovement {
        FundsMovement { from: self.investor, to: self.business, amount: self.amount }
    }

    /// The movement that refunds the escrow: from the business to the
    /// investor.
    pub open spec fn refund(self) -> FundsMovement {
        FundsMovement { from: self.business, to: self.investor, amount: self.amount }
    }
}

/// The escrows for the given invoice.
pub open spec fn held_for(invoice_id: Id) -> spec_fn(Escrow) -> bool {
    |escrow: Escrow| escrow.invoice_id == invoice_id
}

/// The escrow for the given invoice.
pub open spec fn escrow_for(escrows: Rows<Escrow>, invoice_id: Id) -> Option<Escrow> {
    let at = first_index(escrows.records, held_for(invoice_id));
    if at >= 0 {
        Some(escrows.records[at])
    } else {
        None
    }
}

/// No invoice has more than one escrow.
pub open spec fn one_per_invoice(escrows: Rows<Escrow>) -> bool {
    forall|i: int, j: int|
        0 <= i < escrows.records.len() && 0 <= j < escrows.records.len() && i != j
            ==> escrows.records[i].invoice_id != escrows.records[j].invoice_id
}

/// Why the escrow for an invoice cannot change to a final status, or `None`
/// where it can: there is no escrow, or the escrow is not held, or the funds
/// did not move.
pub open spec fn closing_refusal(escrows: Rows<Escrow>, invoice_id: Id, moved: bool) -> Option<
    QuickLendXError,
> {
    match escrow_for(escrows, invoice_id) {
        None => Some(QuickLendXError::StorageKeyNotFound),
        Some(escrow) => if escrow.status != EscrowStatus::Held {
            Some(QuickLendXError::InvalidStatus)
        } else if !moved {
            Some(QuickLendXError::InsufficientFunds)
        } else {
            None
        },
    }
}

/// The escrows after the escrow for an invoice got the status `status`.
pub open spec fn closed(escrows: Rows<Escrow>, invoice_id: Id, status: EscrowStatus) -> Rows<Escrow> {
    match escrow_for(escrows, invoice_id) {
        None => escrows,
        Some(escrow) => escrows.update(escrow.with_status(status)),
    }
}

/// The escrows after the escrow with the identifier of `escrow` was replaced
/// by `escrow`. Nothing changes where there is no such escrow, or where it
/// is for another invoice than `escrow`.
pub open spec fn amended(escrows: Rows<Escrow>, escrow: Escrow) -> Rows<Escrow> {
    match escrows.get(escrow.escrow_id) {
        Some(stored) => if stored.invoice_id == escrow.invoice_id {
            escrows.update(escrow)
        } else {
            escrows
        },
        None => escrows,
    }
}

/// Replacing an escrow keeps the escrows well formed and one for each
/// invoice.
pub proof fn lemma_amended(escrows: Rows<Escrow>, escrow: Escrow)
    requires
        escrows.wf(TAGGED_COUNTER_AT as int),
        one_per_invoice(escrows),
    ensures
        amended(escrows, escrow).wf(TAGGED_COUNTER_AT as int),
        one_per_invoice(amended(escrows, escrow)),
        amended(escrows, escrow).issued == escrows.issued,
{
    lemma_rows_update(escrows, TAGGED_COUNTER_AT as int, escrow);
    lemma_row_found(escrows, escrow.escrow_id);
}

/// The escrow held for an invoice, as created at `ledger` under `escrow_id`.
pub open spec fn new_escrow(
    escrow_id: Id,
    ledger: LedgerInfo,
    invoice_id: Id,
    investor: Address,
    business: Address,
    amount: i128,
    currency: Address,
) -> Escrow {
    Escrow {
        escrow_id,
        invoice_id,
        investor,
        business,
        amount,
        currency,
        created_at: ledger.timestamp,
        status: EscrowStatus::Held,
    }
}

/// Among well-formed escrows with one escrow for each invoice, the escrows
/// in `Held` state for an invoice number at most one.
pub proof fn lemma_at_most_one_held(escrows: Rows<Escrow>, first: int, second: int)
    requires
        one_per_invoice(escrows),
        0 <= first < escrows.records.len(),
        0 <= second < escrows.records.len(),
        escrows.records[first].invoice_id == escrows.records[second].invoice_id,
        escrows.records[first].status == EscrowStatus::Held,
        escrows.records[second].status == EscrowStatus::Held,
    ensures
        first == second,
{
}

/// Changing the status of the escrow for an invoice keeps the escrows well
/// formed and one for each invoice; the escrow for the invoice is then the
/// same escrow with the new status, and the escrow for every other invoice
/// is what it was.
pub proof fn lemma_closed(escrows: Rows<Escrow>, invoice_id: Id, status: EscrowStatus)
    requires
        escrows.wf(TAGGED_COUNTER_AT as int),
        one_per_invoice(escrows),
    ensures
        closed(escrows, invoice_id, status).wf(TAGGED_COUNTER_AT as int),
        one_per_invoice(closed(escrows, invoice_id, status)),
        closed(escrows, invoice_id, status).issued == escrows.issued,
        escrow_for(escrows, invoice_id) matches Some(escrow) ==> escrow_for(
            closed(escrows, invoice_id, status),
            invoice_id,
        ) == Some(escrow.with_status(status)),
        escrow_for(escrows, invoice_id).is_none() ==> closed(escrows, invoice_id, status) == escrows,
        forall|other: Id|
            other != invoice_id ==> #[trigger] escrow_for(closed(escrows, invoice_id, status), other)
                == escrow_for(escrows, other),
{
    let at = first_index(escrows.records, held_for(invoice_id));
    lemma_first_index(escrows.records, held_for(invoice_id));
    if at >= 0 {
        let escrow = escrows.records[at];
        let changed = escrow.with_status(status);
        let after = closed(escrows, invoice_id, status);
        lemma_first_index_is(escrows.records, keyed::<Escrow>(escrow.escrow_id), at);
        lemma_rows_update(escrows, TAGGED_COUNTER_AT as int, changed);
        assert(after.records =~= escrows.records.update(at, changed));
        assert(held_for(invoice_id)(after.records[at]));
        assert forall|i: int| 0 <= i < at implies !held_for(invoice_id)(#[trigger] after.records[i]) by {
            assert(!held_for(invoice_id)(escrows.records[i]));
        }
        lemma_first_index_is(after.records, held_for(invoice_id), at);
        assert forall|other: Id| other != invoice_id implies #[trigger] escrow_for(after, other) == escrow_for(
            escrows,
            other,
        ) by {
            lemma_first_index(escrows.records, held_for(other));
            let found = first_index(escrows.records, held_for(other));
            if found >= 0 {
                assert(held_for(other)(after.records[found]));
                assert forall|i: int| 0 <= i < found implies !held_for(other)(#[trigger] after.records[i]) by {
                    assert(!held_for(other)(escrows.records[i]));
                }
                lemma_first_index_is(after.records, held_for(other), found);
            } else {
                assert forall|i: int| 0 <= i < after.records.len() implies !held_for(other)(
                    #[trigger] after.records[i],
                ) by {
                    assert(!held_for(other)(escrows.records[i]));
                }
                lemma_first_index_none(after.records, held_for(other));
            }
        }
    }
}

/// Release and refund exclude each other and happen at most once: once the
/// escrow for an invoice has a final status, neither a release nor a refund
/// goes through again. Both are refused with `InvalidStatus`.
pub proof fn lemma_escrow_closes_once(
    escrows: Rows<Escrow>,
    invoice_id: Id,
    status: EscrowStatus,
    moved: bool,
    moved_again: bool,
)
    requires
        escrows.wf(TAGGED_COUNTER_AT as int),
        one_per_invoice(escrows),
        status != EscrowStatus::Held,
        closing_refusal(escrows, invoice_id, moved).is_none(),
    ensures
        closing_refusal(closed(escrows, invoice_id, status), invoice_id, moved_again) == Some(
            QuickLendXError::InvalidStatus,
        ),
{
    lemma_closed(escrows, invoice_id, status);
}

/// The escrows, one for each invoice that was funded.
pub struct EscrowStorage {
    table: Table<Escrow, 10>,
}

impl View for EscrowStorage {
    type V = Rows<Escrow>;

    closed spec fn view(&self) -> Rows<Escrow> {
        self.table@
    }
}

impl EscrowStorage {
    /// The invariant of the escrows: no two share an identifier, and no
    /// invoice has more than one.
    pub closed spec fn wf(&self) -> bool {
        &&& self.table.wf()
        &&& one_per_invoice(self.table@)
    }

    /// What `wf` says of the escrows as a mathematical value.
    pub proof fn lemma_wf(&self)
        requires
            self.wf(),
        ensures
            self@.wf(TAGGED_COUNTER_AT as int),
            one_per_invoice(self@),
    {
    }

    /// No escrows.
    pub fn new() -> (escrows: Self)
        ensures
            escrows.wf(),
            escrows@ == (Rows::<Escrow> { records: Seq::empty(), issued: 0 }),
    {
        EscrowStorage { table: Table::new(0) }
    }

    /// Whether another identifier can be issued.
    pub fn has_room(&self) -> (room: bool)
        ensures
            room == self@.has_room(),
    {
        self.table.has_room()
    }

    /// Issues the identifier of the next escrow.
    pub fn generate_unique_escrow_id(&mut self, ledger: LedgerInfo) -> (id: Id)
        requires
            old(self).wf(),
            old(self)@.has_room(),
        ensures
            final(self).wf(),
            final(self)@ == old(self)@.issue(),
            final(self)@.admits(id, TAGGED_COUNTER_AT as int),
            id@ == tagged_id_bytes(ESCROW_TAG_0, ESCROW_TAG_1, ledger.timestamp, old(self)@.issued as u64),
    {
        let counter = self.table.reserve();
        tagged_id(ESCROW_TAG_0, ESCROW_TAG_1, ledger.timestamp, counter)
    }

    /// Stores `escrow`. The invoice must have no escrow yet: whoever funds an
    /// invoice makes sure of that.
    pub fn store_escrow(&mut self, escrow: &Escrow)
        requires
            old(self).wf(),
            old(self)@.admits(escrow.escrow_id, TAGGED_COUNTER_AT as int),
            escrow_for(old(self)@, escrow.invoice_id).is_none(),
        ensures
            final(self).wf(),
            final(self)@ == old(self)@.store(*escrow),
            escrow_for(final(self)@, escrow.invoice_id) == Some(*escrow),
            forall|other: Id|
                other != escrow.invoice_id ==> #[trigger] escrow_for(final(self)@, other) == escrow_for(
                    old(self)@,
                    other,
                ),
    {
        proof {
            lemma_escrow_stored(self@, *escrow);
        }
        self.table.store(escrow);
    }

    /// The escrow with the given identifier.
    pub fn get_escrow(&self, escrow_id: &Id) -> (escrow: Option<Escrow>)
        ensures
            escrow == self@.get(*escrow_id),
    {
        self.table.get(escrow_id)
    }

    /// The escrow for the given invoice.
    pub fn get_escrow_by_invoice(&self, invoice_id: &Id) -> (escrow: Option<Escrow>)
        ensures
            escrow == escrow_for(self@, *invoice_id),
    {
        let mut i: usize = 0;
        while i < self.table.len()
            invariant
                i <= self.table@.records.len(),
                forall|j: int| 0 <= j < i ==> !held_for(*invoice_id)(#[trigger] self.table@.records[j]),
            decreases self.table@.records.len() - i,
        {
            let escrow = self.table.row(i);
            if escrow.invoice_id.same(invoice_id) {
                proof {
                    lemma_first_index_is(self.table@.records, held_for(*invoice_id), i as int);
                }
                return Some(*escrow);
            }
            i += 1;
        }
        proof {
            lemma_first_index_none(self.table@.records, held_for(*invoice_id));
        }
        None
    }

    /// Replaces the escrow that has the identifier of `escrow` by `escrow`.
    /// Nothing changes where there is no such escrow, or where it is for
    /// another invoice than `escrow`.
    pub fn update_escrow(&mut self, escrow: &Escrow)
        requires
            old(self).wf(),
        ensures
            final(self).wf(),
            final(self)@ == amended(old(self)@, *escrow),
    {
        proof {
            lemma_amended(self@, *escrow);
        }
        match self.table.get(&escrow.escrow_id) {
            Some(stored) => {
                if stored.invoice_id.same(&escrow.invoice_id) {
                    self.table.update(escrow);
                }
            },
            None => {},
        }
    }
}

/// Storing the first escrow for an invoice keeps the escrows well formed and
/// one for each invoice.
pub proof fn lemma_escrow_stored(escrows: Rows<Escrow>, escrow: Escrow)
    requires
        escrows.wf(TAGGED_COUNTER_AT as int),
        one_per_invoice(escrows),
        escrows.admits(escrow.escrow_id, TAGGED_COUNTER_AT as int),
        escrow_for(escrows, escrow.invoice_id).is_none(),
    ensures
        escrows.store(escrow).wf(TAGGED_COUNTER_AT as int),
        one_per_invoice(escrows.store(escrow)),
        escrow_for(escrows.store(escrow), escrow.invoice_id) == Some(escrow),
        forall|other: Id|
            other != escrow.invoice_id ==> #[trigger] escrow_for(escrows.store(escrow), other) == escrow_for(
                escrows,
                other,
            ),
{
    let after = escrows.store(escrow);
    lemma_rows_store(escrows, TAGGED_COUNTER_AT as int, escrow);
    lemma_first_index(escrows.records, held_for(escrow.invoice_id));
    assert forall|i: int, j: int|
        0 <= i < after.records.len() && 0 <= j < after.records.len() && i != j implies after.records[i].invoice_id
        != after.records[j].invoice_id by {
        if i == escrows.records.len() {
            assert(!held_for(escrow.invoice_id)(escrows.records[j]));
        } else if j == escrows.records.len() {
            assert(!held_for(escrow.invoice_id)(escrows.records[i]));
        }
    }
    lemma_first_index_push(escrows.records, escrow, held_for(escrow.invoice_id));
    assert forall|other: Id| other != escrow.invoice_id implies #[trigger] escrow_for(after, other)
        == escrow_for(escrows, other) by {
        lemma_first_index_push(escrows.records, escrow, held_for(other));
        lemma_first_index(escrows.records, held_for(other));
    }
}

/// Holds `amount` in escrow for an invoice that has no escrow yet, and gives
/// the identifier of the escrow.
pub fn create_escrow(
    escrows: &mut EscrowStorage,
    ledger: LedgerInfo,
    invoice_id: &Id,
    investor: &Address,
    business: &Address,
    amount: i128,
    currency: &Address,
) -> (outcome: Result<Id, QuickLendXError>)
    requires
        old(escrows).wf(),
        old(escrows)@.has_room(),
        escrow_for(old(escrows)@, *invoice_id).is_none(),
    ensures
        final(escrows).wf(),
        outcome matches Ok(escrow_id) && {
            &&& escrow_id@ == tagged_id_bytes(
                ESCROW_TAG_0,
                ESCROW_TAG_1,
                ledger.timestamp,
                old(escrows)@.issued as u64,
            )
            &&& final(escrows)@ == old(escrows)@.issue().store(
                new_escrow(escrow_id, ledger, *invoice_id, *investor, *business, amount, *currency),
            )
            &&& escrow_for(final(escrows)@, *invoice_id) == Some(
                new_escrow(escrow_id, ledger, *invoice_id, *investor, *business, amount, *currency),
            )
            &&& forall|other: Id|
                other != *invoice_id ==> #[trigger] escrow_for(final(escrows)@, other) == escrow_for(
                    old(escrows)@,
                    other,
                )
        },
{
    let escrow_id = escrows.generate_unique_escrow_id(ledger);
    let escrow = Escrow {
        escrow_id,
        invoice_id: *invoice_id,
        investor: *investor,
        business: *business,
        amount,
        currency: *currency,
        created_at: ledger.timestamp,
        status: EscrowStatus::Held,
    };
    escrows.store_escrow(&escrow);
    Ok(escrow_id)
}

/// The movement of funds that a release of the escrow for `invoice_id` calls
/// for, or why the escrow cannot be released.
pub fn release_movement(escrows: &EscrowStorage, invoice_id: &Id) -> (outcome: Result<
    FundsMovement,
    QuickLendXError,
>)
    ensures
        match closing_refusal(escrows@, *invoice_id, true) {
            Some(error) => outcome == Err::<FundsMovement, QuickLendXError>(error),
            None => outcome == Ok::<FundsMovement, QuickLendXError>(
                escrow_for(escrows@, *invoice_id).unwrap().release(),
            ),
        },
{
    match escrows.get_escrow_by_invoice(invoice_id) {
        None => Err(QuickLendXError::StorageKeyNotFound),
        Some(escrow) => {
            if escrow.status != EscrowStatus::Held {
                Err(QuickLendXError::InvalidStatus)
            } else {
                Ok(FundsMovement { from: escrow.investor, to: escrow.business, amount: escrow.amount })
            }
        },
    }
}

/// The movement of funds that a refund of the escrow for `invoice_id` calls
/// for, or why the escrow cannot be refunded.
pub fn refund_movement(escrows: &EscrowStorage, invoice_id: &Id) -> (outcome: Result<
    FundsMovement,
    QuickLendXError,
>)
    ensures
        match closing_refusal(escrows@, *invoice_id, true) {
            Some(error) => outcome == Err::<FundsMovement, QuickLendXError>(error),
            None => outcome == Ok::<FundsMovement, QuickLendXError>(
                escrow_for(escrows@, *invoice_id).unwrap().refund(),
            ),
        },
{
    match escrows.get_escrow_by_invoice(invoice_id) {
        None => Err(QuickLendXError::StorageKeyNotFound),
        Some(escrow) => {
            if escrow.status != EscrowStatus::Held {
                Err(QuickLendXError::InvalidStatus)
            } else {
                Ok(FundsMovement { from: escrow.business, to: escrow.investor, amount: escrow.amount })
            }
        },
    }
}

fn close_escrow(escrows: &mut EscrowStorage, invoice_id: &Id, moved: bool, status: EscrowStatus) -> (outcome:
    Result<(), QuickLendXError>)
    requires
        old(escrows).wf(),
    ensures
        final(escrows).wf(),
        match closing_refusal(old(escrows)@, *invoice_id, moved) {
            Some(error) => outcome == Err::<(), QuickLendXError>(error) && final(escrows)@ == old(escrows)@,
            None => outcome.is_ok() && final(escrows)@ == closed(old(escrows)@, *invoice_id, status),
        },
{
    match escrows.get_escrow_by_invoice(invoice_id) {
        None => Err(QuickLendXError::StorageKeyNotFound),
        Some(escrow) => {
            if escrow.status != EscrowStatus::Held {
                return Err(QuickLendXError::InvalidStatus);
            }
            if !moved {
                return Err(QuickLendXError::InsufficientFunds);
            }
            let mut changed = escrow;
            changed.status = status;
            proof {
                escrows.lemma_wf();
                lemma_first_index(escrows@.records, held_for(*invoice_id));
                lemma_row_resolves(
                    escrows@,
                    TAGGED_COUNTER_AT as int,
                    first_index(escrows@.records, held_for(*invoice_id)),
                );
            }
            escrows.update_escrow(&changed);
            Ok(())
        },
    }
}

/// Releases the escrow for `invoice_id` to the business. `moved` says
/// whether the host moved the funds from the investor to the business.
pub fn release_escrow(escrows: &mut EscrowStorage, invoice_id: &Id, moved: bool) -> (outcome: Result<
    (),
    QuickLendXError,
>)
    requires
        old(escrows).wf(),
    ensures
        final(escrows).wf(),
        match closing_refusal(old(escrows)@, *invoice_id, moved) {
            Some(error) => outcome == Err::<(), QuickLendXError>(error) && final(escrows)@ == old(escrows)@,
            None => outcome.is_ok() && final(escrows)@ == closed(
                old(escrows)@,
                *invoice_id,
                EscrowStatus::Released,
            ),
        },
{
    close_escrow(escrows, invoice_id, moved, EscrowStatus::Released)
}

/// Refunds the escrow for `invoice_id` to the investor. `moved` says whether
/// the host moved the funds from the business to the investor.
pub fn refund_escrow(escrows: &mut EscrowStorage, invoice_id: &Id, moved: bool) -> (outcome: Result<
    (),
    QuickLendXError,
>)
    requires
        old(escrows).wf(),
    ensures
        final(escrows).wf(),
        match closing_refusal(old(escrows)@, *invoice_id, moved) {
            Some(error) => outcome == Err::<(), QuickLendXError>(error) && final(escrows)@ == old(escrows)@,
            None => outcome.is_ok() && final(escrows)@ == closed(
                old(escrows)@,
                *invoice_id,
                EscrowStatus::Refunded,
            ),
        },
{
    close_escrow(escrows, invoice_id, moved, EscrowStatus::Refunded)
}

} // verus!
