//! The ledger as a whole: the operations that callers reach, each on all
//! the books that it touches.
//!
//! An operation looks at everything that could make it fail before it
//! writes anything: where it fails, the books are as they were.

use vstd::prelude::*;
use crate::audit::{
    actors_of, created_note, earliest, latest, log_invoice_operation, logged, operations_of, tally_at,
    AuditLog, AuditLogEntry, AuditOperation, AuditQueryFilter, AuditStats, AuditStorage,
};
use crate::backup::{
    amounts_positive, lemma_with_data, Backup, BackupStatus, BackupStorage, Shelf, BACKUP_TAG_0, BACKUP_TAG_1,
};
use crate::bid::{bids_on, Bid, BidStatus, BidStorage};
use crate::defaults::handle_default as do_handle_default;
use crate::errors::QuickLendXError;
use crate::identifiers::{bid_id_bytes, lemma_be_round_trip, tagged_id_bytes, TAGGED_COUNTER_AT};
use crate::investment::{Investment, InvestmentStatus, InvestmentStorage, INVESTMENT_TAG_0, INVESTMENT_TAG_1};
use crate::invoice::{
    funding_logged, highest_rating, invoice_is, lemma_backup_round_trip, lemma_invoice_found,
    lemma_store_steps, lemma_update_steps, lowest_rating, owned_by, rated_at_all, rated_at_least, restorable,
    status_change_logged, stays_or_moves, steps_legally, Invoice, InvoiceRating, InvoiceStatus,
    InvoiceStorage, InvoiceTable, InvoiceView, INVOICE_TAG_0, INVOICE_TAG_1,
};
use crate::keys::{lemma_first_index, lemma_first_index_none, without};
use crate::payments::{
    closed, closing_refusal, create_escrow, escrow_for, new_escrow, one_per_invoice, refund_escrow,
    refund_movement, release_escrow, release_movement, Escrow, EscrowStatus, EscrowStorage, ESCROW_TAG_0,
    ESCROW_TAG_1,
};
use crate::profits::{calculate_profit as do_calculate_profit, investor_return, platform_fee, split_fits};
use crate::settlement::{settle_invoice as do_settle_invoice, settlement_movements};
use crate::table::{keyed, lemma_row_found, lemma_rows_store, Rows};
use crate::text::{append_unsigned, decimal};
use crate::types::{Address, FundsMovement, Id, LedgerInfo};
use crate::verification::{
    application, check_invoice_data, get_business_verification_status, invoice_data_refusal,
    reject_business, submit_kyc_application, verify_business, verify_invoice_data, BusinessVerification,
    BusinessVerificationStatus, BusinessVerificationStorage, Registry,
};

verus! {

/// The ledger: its books, and what the host's clock said last.
pub struct QuickLendXContract {
    pub ledger: LedgerInfo,
    pub invoices: InvoiceStorage,
    pub bids: BidStorage,
    pub investments: InvestmentStorage,
    pub escrows: EscrowStorage,
    pub audit: AuditStorage,
    pub backups: BackupStorage,
    pub verification: BusinessVerificationStorage,
}

/// The ledger as a mathematical value.
pub struct Books {
    pub now: LedgerInfo,
    pub invoices: InvoiceTable,
    pub bids: Rows<Bid>,
    pub investments: Rows<Investment>,
    pub escrows: Rows<Escrow>,
    pub audit: AuditLog,
    pub backups: Shelf,
    pub registry: Registry,
}

impl View for QuickLendXContract {
    type V = Books;

    open spec fn view(&self) -> Books {
        Books {
            now: self.ledger,
            invoices: self.invoices@,
            bids: self.bids@,
            investments: self.investments@,
            escrows: self.escrows@,
            audit: self.audit@,
            backups: self.backups@,
            registry: self.verification@,
        }
    }
}

impl Books {
    /// Whether every book can issue the identifiers that one operation may
    /// need: one of each kind, and two for the audit log.
    pub open spec fn has_room(self) -> bool {
        &&& self.invoices.has_room()
        &&& self.bids.has_room()
        &&& self.investments.has_room()
        &&& self.escrows.has_room()
        &&& self.backups.backups.has_room()
        &&& self.audit.issued + 2 <= u64::MAX
    }

    /// The invoice as created at `self.now` under `id`.
    pub open spec fn new_invoice(
        self,
        id: Id,
        business: Address,
        amount: i128,
        currency: Address,
        due_date: u64,
        description: String,
    ) -> InvoiceView {
        InvoiceView {
            id,
            business,
            amount,
            currency,
            due_date,
            status: InvoiceStatus::Pending,
            created_at: self.now.timestamp,
            description,
            funded_amount: 0,
            funded_at: None,
            investor: None,
            settled_at: None,
            average_rating: None,
            total_ratings: 0,
            ratings: Seq::empty(),
        }
    }

    /// Whether `after` is `self` with an invoice created under `id`: the
    /// invoice stored as pending, and its creation recorded.
    pub open spec fn invoice_created(
        self,
        after: Books,
        id: Id,
        business: Address,
        amount: i128,
        currency: Address,
        due_date: u64,
        description: String,
    ) -> bool {
        &&& id@ == tagged_id_bytes(INVOICE_TAG_0, INVOICE_TAG_1, self.now.timestamp, self.invoices.issued as u64)
        &&& after == Books {
            invoices: self.invoices.issue().store(
                self.new_invoice(id, business, amount, currency, due_date, description),
            ),
            audit: after.audit,
            ..self
        }
        &&& logged(
            self.audit,
            after.audit,
            self.now,
            id,
            AuditOperation::InvoiceCreated,
            business,
            None,
            Some(created_note(amount, due_date)),
            Some(amount),
            Some(description@),
        )
        &&& steps_legally(self.invoices, after.invoices)
    }

    /// Why the status of the invoice `invoice_id` cannot be set to
    /// `new_status`, or `None` where it can. A status can be set to
    /// verified, paid or defaulted, and only where the invoice may move
    /// there from the status that it has.
    pub open spec fn status_refusal(self, invoice_id: Id, new_status: InvoiceStatus) -> Option<QuickLendXError> {
        match self.invoices.get(invoice_id) {
            None => Some(QuickLendXError::InvoiceNotFound),
            Some(invoice) => if new_status == InvoiceStatus::Pending || new_status == InvoiceStatus::Funded
                || !invoice.status.may_become(new_status) {
                Some(QuickLendXError::InvalidStatus)
            } else {
                None
            },
        }
    }

    /// The invoice `invoice` with the status `new_status`, set at
    /// `self.now`: a paid invoice is settled then.
    pub open spec fn with_new_status(self, invoice: InvoiceView, new_status: InvoiceStatus) -> InvoiceView {
        if new_status == InvoiceStatus::Paid {
            invoice.paid(self.now.timestamp)
        } else {
            invoice.with_status(new_status)
        }
    }

    /// Whether `after` is `self` with the status of the invoice `invoice_id`
    /// set to `new_status` by `actor`, and the change recorded.
    pub open spec fn status_set(self, after: Books, invoice_id: Id, new_status: InvoiceStatus, actor: Address) -> bool {
        let invoice = self.invoices.get(invoice_id).unwrap();
        &&& after == Books {
            invoices: self.invoices.update(self.with_new_status(invoice, new_status)),
            audit: after.audit,
            ..self
        }
        &&& status_change_logged(self.audit, after.audit, self.now, invoice, actor, new_status)
        &&& steps_legally(self.invoices, after.invoices)
    }
}

impl QuickLendXContract {
    /// The invariant of the ledger: that of each of its books.
    pub open spec fn wf(&self) -> bool {
        &&& self.invoices.wf()
        &&& self.bids.wf()
        &&& self.investments.wf()
        &&& self.escrows.wf()
        &&& self.audit.wf()
        &&& self.backups.wf()
        &&& self.verification.wf()
    }

    /// In a well-formed ledger no invoice has more than one escrow: at most
    /// one escrow is held for it at any time.
    pub proof fn lemma_one_escrow_per_invoice(&self)
        requires
            self.wf(),
        ensures
            one_per_invoice(self@.escrows),
            forall|first: int, second: int|
                0 <= first < self@.escrows.records.len() && 0 <= second < self@.escrows.records.len()
                    && self@.escrows.records[first].invoice_id == self@.escrows.records[second].invoice_id
                    && self@.escrows.records[first].status == EscrowStatus::Held
                    && self@.escrows.records[second].status == EscrowStatus::Held ==> first == second,
    {
        self.escrows.lemma_wf();
    }

    /// A ledger with empty books, at time zero.
    pub fn new() -> (contract: Self)
        ensures
            contract.wf(),
            contract@.has_room(),
            contract@ == (Books {
                now: LedgerInfo { timestamp: 0, sequence: 0 },
                invoices: InvoiceTable::empty(),
                bids: Rows { records: Seq::empty(), issued: 1 },
                investments: Rows { records: Seq::empty(), issued: 0 },
                escrows: Rows { records: Seq::empty(), issued: 0 },
                audit: AuditLog { entries: Seq::empty(), issued: 0 },
                backups: Shelf {
                    backups: Rows { records: Seq::empty(), issued: 0 },
                    active: Seq::empty(),
                    snapshots: Seq::empty(),
                },
                registry: Registry::empty(),
            }),
    {
        QuickLendXContract {
            ledger: LedgerInfo { timestamp: 0, sequence: 0 },
            invoices: InvoiceStorage::new(),
            bids: BidStorage::new(),
            investments: InvestmentStorage::new(),
            escrows: EscrowStorage::new(),
            audit: AuditStorage::new(),
            backups: BackupStorage::new(),
            verification: BusinessVerificationStorage::new(),
        }
    }

    /// Whether every book can issue the identifiers that one operation may
    /// need.
    pub fn has_room(&self) -> (room: bool)
        ensures
            room == self@.has_room(),
    {
        self.invoices.has_room() && self.bids.has_room() && self.investments.has_room()
            && self.escrows.has_room() && self.backups.has_room() && self.audit.has_room_for(2)
    }

    /// Takes note of what the host's clock says.
    pub fn set_ledger(&mut self, ledger: LedgerInfo)
        ensures
            final(self)@ == (Books { now: ledger, ..old(self)@ }),
            final(self).wf() == old(self).wf(),
    {
        self.ledger = ledger;
    }

    fn create_invoice(
        &mut self,
        business: Address,
        amount: i128,
        currency: Address,
        due_date: u64,
        description: String,
    ) -> (id: Id)
        requires
            old(self).wf(),
            old(self)@.has_room(),
        ensures
            final(self).wf(),
            old(self)@.invoice_created(final(self)@, id, business, amount, currency, due_date, description),
    {
        let invoice = Invoice::new(
            &mut self.invoices,
            &mut self.audit,
            self.ledger,
            business,
            amount,
            currency,
            due_date,
            description,
        );
        proof {
            self.invoices.lemma_wf();
            lemma_store_steps(self.invoices@, invoice@);
            assert forall|id: Id| #[trigger]
                stays_or_moves(
                    old(self)@.invoices.get(id),
                    self.invoices@.store(invoice@).get(id),
                ) by {
                assert(stays_or_moves(
                    self.invoices@.get(id),
                    self.invoices@.store(invoice@).get(id),
                ));
            }
        }
        self.invoices.store_invoice(&invoice);
        invoice.id
    }

    /// Stores an invoice of `business`. The amount must be positive, the due
    /// date after now, and the description not empty.
    pub fn store_invoice(
        &mut self,
        business: Address,
        amount: i128,
        currency: Address,
        due_date: u64,
        description: String,
    ) -> (outcome: Result<Id, QuickLendXError>)
        requires
            old(self).wf(),
            old(self)@.has_room(),
        ensures
            final(self).wf(),
            match invoice_data_refusal(old(self)@.now.timestamp, amount, due_date, description@) {
                Some(error) => outcome == Err::<Id, QuickLendXError>(error) && final(self)@ == old(self)@,
                None => outcome matches Ok(id) && old(self)@.invoice_created(
                    final(self)@,
                    id,
                    business,
                    amount,
                    currency,
                    due_date,
                    description,
                ),
            },
    {
        match check_invoice_data(self.ledger.timestamp, amount, due_date, &description) {
            Err(error) => {
                return Err(error);
            },
            Ok(_) => {},
        }
        Ok(self.create_invoice(business, amount, currency, due_date, description))
    }

    /// Takes an invoice that a verified business uploads. The amount must
    /// be positive, the due date after now, and the description not empty.
    pub fn upload_invoice(
        &mut self,
        business: Address,
        amount: i128,
        currency: Address,
        due_date: u64,
        description: String,
    ) -> (outcome: Result<Id, QuickLendXError>)
        requires
            old(self).wf(),
            old(self)@.has_room(),
        ensures
            final(self).wf(),
            if !old(self)@.registry.is_verified(business) {
                outcome == Err::<Id, QuickLendXError>(QuickLendXError::BusinessNotVerified) && final(self)@
                    == old(self)@
            } else {
                match invoice_data_refusal(old(self)@.now.timestamp, amount, due_date, description@) {
                    Some(error) => outcome == Err::<Id, QuickLendXError>(error) && final(self)@ == old(self)@,
                    None => outcome matches Ok(id) && old(self)@.invoice_created(
                        final(self)@,
                        id,
                        business,
                        amount,
                        currency,
                        due_date,
                        description,
                    ),
                }
            },
    {
        match verify_invoice_data(
            &self.verification,
            self.ledger.timestamp,
            &business,
            amount,
            &currency,
            due_date,
            &description,
        ) {
            Err(error) => {
                return Err(error);
            },
            Ok(_) => {},
        }
        Ok(self.create_invoice(business, amount, currency, due_date, description))
    }

    /// Sets the status of an invoice to `new_status`, on behalf of `actor`,
    /// and records the change. A status can be set to verified, paid or
    /// defaulted, and only where the invoice may move there from the status
    /// that it has.
    pub fn update_invoice_status(&mut self, invoice_id: Id, new_status: InvoiceStatus, actor: Address) -> (outcome:
        Result<(), QuickLendXError>)
        requires
            old(self).wf(),
            old(self)@.has_room(),
        ensures
            final(self).wf(),
            match old(self)@.status_refusal(invoice_id, new_status) {
                Some(error) => outcome == Err::<(), QuickLendXError>(error) && final(self)@ == old(self)@,
                None => outcome.is_ok() && old(self)@.status_set(final(self)@, invoice_id, new_status, actor),
            },
    {
        let mut invoice = match self.invoices.get_invoice(&invoice_id) {
            Some(invoice) => invoice,
            None => {
                return Err(QuickLendXError::InvoiceNotFound);
            },
        };
        proof {
            lemma_invoice_found(self.invoices@, invoice_id);
        }
        match new_status {
            InvoiceStatus::Verified => {
                if invoice.status != InvoiceStatus::Pending {
                    return Err(QuickLendXError::InvalidStatus);
                }
                invoice.verify(&mut self.audit, self.ledger, actor);
            },
            InvoiceStatus::Paid => {
                if invoice.status != InvoiceStatus::Funded {
                    return Err(QuickLendXError::InvalidStatus);
                }
                invoice.mark_as_paid(&mut self.audit, self.ledger, actor, self.ledger.timestamp);
            },
            InvoiceStatus::Defaulted => {
                if invoice.status != InvoiceStatus::Funded {
                    return Err(QuickLendXError::InvalidStatus);
                }
                invoice.mark_as_defaulted(&mut self.audit, self.ledger, actor);
            },
            _ => {
                return Err(QuickLendXError::InvalidStatus);
            },
        }
        proof {
            self.invoices.lemma_wf();
            lemma_update_steps(self.invoices@, invoice@);
        }
        self.invoices.update_invoice(&invoice);
        Ok(())
    }

    /// Verifies a pending invoice, on behalf of `actor`, and records the
    /// change of status.
    pub fn verify_invoice(&mut self, invoice_id: Id, actor: Address) -> (outcome: Result<(), QuickLendXError>)
        requires
            old(self).wf(),
            old(self)@.has_room(),
        ensures
            final(self).wf(),
            match old(self)@.status_refusal(invoice_id, InvoiceStatus::Verified) {
                Some(error) => outcome == Err::<(), QuickLendXError>(error) && final(self)@ == old(self)@,
                None => outcome.is_ok() && old(self)@.status_set(
                    final(self)@,
                    invoice_id,
                    InvoiceStatus::Verified,
                    actor,
                ),
            },
    {
        self.update_invoice_status(invoice_id, InvoiceStatus::Verified, actor)
    }

    /// The invoice with the given identifier.
    pub fn get_invoice(&self, invoice_id: Id) -> (outcome: Result<Invoice, QuickLendXError>)
        ensures
            match outcome {
                Ok(invoice) => self@.invoices.get(invoice_id) == Some(invoice@),
                Err(error) => error == QuickLendXError::InvoiceNotFound && self@.invoices.get(
                    invoice_id,
                ).is_none(),
            },
    {
        match self.invoices.get_invoice(&invoice_id) {
            Some(invoice) => Ok(invoice),
            None => Err(QuickLendXError::InvoiceNotFound),
        }
    }

    /// The identifiers of the invoices of `business`, in the order in which
    /// they were stored.
    pub fn get_invoice_by_business(&self, business: Address) -> (ids: Vec<Id>)
        requires
            self.wf(),
        ensures
            ids@ == owned_by(self@.invoices.records, business),
    {
        self.invoices.get_business_invoices(&business)
    }

    /// The identifiers of the invoices of `business`, in the order in which
    /// they were stored.
    pub fn get_business_invoices(&self, business: Address) -> (ids: Vec<Id>)
        requires
            self.wf(),
        ensures
            ids@ == owned_by(self@.invoices.records, business),
    {
        self.invoices.get_business_invoices(&business)
    }

    /// The identifiers of the invoices with the given status, in the order
    /// in which they reached it.
    pub fn get_invoices_by_status(&self, status: InvoiceStatus) -> (ids: Vec<Id>)
        requires
            self.wf(),
        ensures
            ids@ == self@.invoices.bucket(status),
    {
        self.invoices.get_invoices_by_status(&status)
    }

    /// The identifiers of the invoices that bids can be placed on: the
    /// verified ones.
    pub fn get_available_invoices(&self) -> (ids: Vec<Id>)
        requires
            self.wf(),
        ensures
            ids@ == self@.invoices.verified,
    {
        self.invoices.get_invoices_by_status(&InvoiceStatus::Verified)
    }

    /// How many invoices have the given status: the low 32 bits of the
    /// number.
    pub fn get_invoice_count_by_status(&self, status: InvoiceStatus) -> (count: u32)
        requires
            self.wf(),
        ensures
            count == self@.invoices.bucket(status).len() as u32,
    {
        let invoices = self.invoices.get_invoices_by_status(&status);
        #[verifier::truncate]
        (invoices.len() as u32)
    }

    /// How many invoices there are: the low 32 bits of the sum of the sizes
    /// of the five buckets.
    pub fn get_total_invoice_count(&self) -> (count: u32)
        requires
            self.wf(),
        ensures
            count == (self@.invoices.pending.len() + self@.invoices.verified.len()
                + self@.invoices.funded.len() + self@.invoices.paid.len()
                + self@.invoices.defaulted.len()) as u32,
    {
        let pending = self.invoices.get_invoices_by_status(&InvoiceStatus::Pending).len() as u128;
        let verified = self.invoices.get_invoices_by_status(&InvoiceStatus::Verified).len() as u128;
        let funded = self.invoices.get_invoices_by_status(&InvoiceStatus::Funded).len() as u128;
        let paid = self.invoices.get_invoices_by_status(&InvoiceStatus::Paid).len() as u128;
        let defaulted = self.invoices.get_invoices_by_status(&InvoiceStatus::Defaulted).len() as u128;
        let total: u128 = pending + verified + funded + paid + defaulted;
        #[verifier::truncate]
        (total as u32)
    }
}

impl Books {
    /// Why a bid on the invoice `invoice_id` is not taken, or `None` where
    /// it is: the invoice must be verified, and the amount positive.
    pub open spec fn bid_refusal(self, invoice_id: Id, bid_amount: i128) -> Option<QuickLendXError> {
        match self.invoices.get(invoice_id) {
            None => Some(QuickLendXError::InvoiceNotFound),
            Some(invoice) => if invoice.status != InvoiceStatus::Verified {
                Some(QuickLendXError::InvalidStatus)
            } else if bid_amount <= 0 {
                Some(QuickLendXError::InvalidAmount)
            } else {
                None
            },
        }
    }

    /// Whether `after` is `self` with a bid placed under `bid_id`, and the
    /// bid recorded.
    pub open spec fn bid_placed(
        self,
        after: Books,
        bid_id: Id,
        investor: Address,
        invoice_id: Id,
        bid_amount: i128,
        expected_return: i128,
    ) -> bool {
        &&& bid_id@ == bid_id_bytes(self.bids.issued as u64)
        &&& after == Books {
            bids: self.bids.issue().store(
                Bid {
                    bid_id,
                    invoice_id,
                    investor,
                    bid_amount,
                    expected_return,
                    timestamp: self.now.timestamp,
                    status: BidStatus::Placed,
                },
            ),
            audit: after.audit,
            ..self
        }
        &&& logged(
            self.audit,
            after.audit,
            self.now,
            invoice_id,
            AuditOperation::BidPlaced,
            investor,
            None,
            None,
            Some(bid_amount),
            None,
        )
    }

    /// Why the bid `bid_id` on the invoice `invoice_id` cannot be accepted,
    /// or `None` where it can: the invoice must be verified and without an
    /// escrow, and the bid placed.
    pub open spec fn acceptance_refusal(self, invoice_id: Id, bid_id: Id) -> Option<QuickLendXError> {
        match self.invoices.get(invoice_id) {
            None => Some(QuickLendXError::InvoiceNotFound),
            Some(invoice) => match self.bids.get(bid_id) {
                None => Some(QuickLendXError::StorageKeyNotFound),
                Some(bid) => if invoice.status != InvoiceStatus::Verified || bid.status != BidStatus::Placed
                    || escrow_for(self.escrows, invoice_id).is_some() {
                    Some(QuickLendXError::InvalidStatus)
                } else {
                    None
                },
            },
        }
    }

    /// Whether `after` is `self` with the bid `bid_id` on the invoice
    /// `invoice_id` accepted: the amount of the bid held in a new escrow, the
    /// bid accepted, the invoice funded by the bidder, a new active
    /// investment, and the funding recorded.
    pub open spec fn bid_accepted(self, after: Books, invoice_id: Id, bid_id: Id) -> bool {
        let invoice = self.invoices.get(invoice_id).unwrap();
        let bid = self.bids.get(bid_id).unwrap();
        let escrow = after.escrows.records.last();
        let investment = after.investments.records.last();
        &&& escrow.escrow_id@ == tagged_id_bytes(
            ESCROW_TAG_0,
            ESCROW_TAG_1,
            self.now.timestamp,
            self.escrows.issued as u64,
        )
        &&& escrow == new_escrow(
            escrow.escrow_id,
            self.now,
            invoice_id,
            bid.investor,
            invoice.business,
            bid.bid_amount,
            invoice.currency,
        )
        &&& investment.investment_id@ == tagged_id_bytes(
            INVESTMENT_TAG_0,
            INVESTMENT_TAG_1,
            self.now.timestamp,
            self.investments.issued as u64,
        )
        &&& investment == (Investment {
            investment_id: investment.investment_id,
            invoice_id,
            investor: bid.investor,
            amount: bid.bid_amount,
            funded_at: self.now.timestamp,
            status: InvestmentStatus::Active,
        })
        &&& after == Books {
            escrows: self.escrows.issue().store(escrow),
            bids: self.bids.update(Bid { status: BidStatus::Accepted, ..bid }),
            invoices: self.invoices.update(invoice.funded(bid.investor, bid.bid_amount, self.now.timestamp)),
            investments: self.investments.issue().store(investment),
            audit: after.audit,
            ..self
        }
        &&& funding_logged(self.audit, after.audit, self.now, invoice, bid.investor, bid.bid_amount)
        &&& steps_legally(self.invoices, after.invoices)
        &&& escrow_for(after.escrows, invoice_id) == Some(escrow)
    }

    /// Why the bid `bid_id` cannot be withdrawn, or `None` where it can: the
    /// bid must be placed, neither accepted nor withdrawn.
    pub open spec fn withdrawal_refusal(self, bid_id: Id) -> Option<QuickLendXError> {
        match self.bids.get(bid_id) {
            None => Some(QuickLendXError::StorageKeyNotFound),
            Some(bid) => if bid.status != BidStatus::Placed {
                Some(QuickLendXError::OperationNotAllowed)
            } else {
                None
            },
        }
    }

    /// Whether `after` is `self` with the bid `bid_id` withdrawn, and the
    /// withdrawal recorded.
    pub open spec fn bid_withdrawn(self, after: Books, bid_id: Id) -> bool {
        let bid = self.bids.get(bid_id).unwrap();
        &&& after == Books {
            bids: self.bids.update(Bid { status: BidStatus::Withdrawn, ..bid }),
            audit: after.audit,
            ..self
        }
        &&& logged(
            self.audit,
            after.audit,
            self.now,
            bid.invoice_id,
            AuditOperation::BidWithdrawn,
            bid.investor,
            None,
            None,
            Some(bid.bid_amount),
            None,
        )
    }

    /// Whether `after` is `self` with the escrow for the invoice
    /// `invoice_id` released to the business or refunded to the investor,
    /// and that recorded: a release on behalf of the business, a refund on
    /// behalf of the investor.
    pub open spec fn escrow_closed(self, after: Books, invoice_id: Id, status: EscrowStatus) -> bool {
        let escrow = escrow_for(self.escrows, invoice_id).unwrap();
        &&& after == Books { escrows: closed(self.escrows, invoice_id, status), audit: after.audit, ..self }
        &&& logged(
            self.audit,
            after.audit,
            self.now,
            invoice_id,
            if status == EscrowStatus::Released {
                AuditOperation::EscrowReleased
            } else {
                AuditOperation::EscrowRefunded
            },
            if status == EscrowStatus::Released {
                escrow.business
            } else {
                escrow.investor
            },
            None,
            None,
            Some(escrow.amount),
            None,
        )
    }

    /// Why a rating of the invoice `invoice_id` by `rater` is refused, or
    /// `None` where it is accepted.
    pub open spec fn rating_refusal(self, invoice_id: Id, rating: u32, rater: Address) -> Option<
        QuickLendXError,
    > {
        match self.invoices.get(invoice_id) {
            None => Some(QuickLendXError::InvoiceNotFound),
            Some(invoice) => invoice.rating_refusal(rating, rater),
        }
    }

    /// Whether `after` is `self` with the invoice `invoice_id` rated by
    /// `rater` at `self.now`, and the rating recorded.
    pub open spec fn invoice_rated(self, after: Books, invoice_id: Id, rating: u32, feedback: String, rater: Address) -> bool {
        let invoice = self.invoices.get(invoice_id).unwrap();
        &&& after == Books {
            invoices: self.invoices.update(
                invoice.rated(
                    InvoiceRating { rating, feedback, rated_by: rater, rated_at: self.now.timestamp },
                ),
            ),
            audit: after.audit,
            ..self
        }
        &&& logged(
            self.audit,
            after.audit,
            self.now,
            invoice_id,
            AuditOperation::InvoiceRated,
            rater,
            None,
            Some(decimal(rating as int)),
            None,
            Some(feedback@),
        )
        &&& steps_legally(self.invoices, after.invoices)
    }
}

impl QuickLendXContract {
    /// The bid with the given identifier.
    pub fn get_bid(&self, bid_id: Id) -> (bid: Option<Bid>)
        ensures
            bid == self@.bids.get(bid_id),
    {
        self.bids.get_bid(&bid_id)
    }

    /// The identifiers of the bids on an invoice, in the order in which they
    /// were placed.
    pub fn get_bids_for_invoice(&self, invoice_id: Id) -> (ids: Vec<Id>)
        requires
            self.wf(),
        ensures
            ids@ == bids_on(self@.bids.records, invoice_id),
    {
        self.bids.get_bids_for_invoice(&invoice_id)
    }

    /// Places a bid of `investor` on a verified invoice, and records it. The
    /// amount must be positive.
    pub fn place_bid(&mut self, investor: Address, invoice_id: Id, bid_amount: i128, expected_return: i128) -> (outcome:
        Result<Id, QuickLendXError>)
        requires
            old(self).wf(),
            old(self)@.has_room(),
        ensures
            final(self).wf(),
            match old(self)@.bid_refusal(invoice_id, bid_amount) {
                Some(error) => outcome == Err::<Id, QuickLendXError>(error) && final(self)@ == old(self)@,
                None => outcome matches Ok(bid_id) && old(self)@.bid_placed(
                    final(self)@,
                    bid_id,
                    investor,
                    invoice_id,
                    bid_amount,
                    expected_return,
                ),
            },
    {
        let invoice = match self.invoices.get_invoice(&invoice_id) {
            Some(invoice) => invoice,
            None => {
                return Err(QuickLendXError::InvoiceNotFound);
            },
        };
        if invoice.status != InvoiceStatus::Verified {
            return Err(QuickLendXError::InvalidStatus);
        }
        if bid_amount <= 0 {
            return Err(QuickLendXError::InvalidAmount);
        }
        let bid_id = self.bids.generate_unique_bid_id();
        let bid = Bid {
            bid_id,
            invoice_id,
            investor,
            bid_amount,
            expected_return,
            timestamp: self.ledger.timestamp,
            status: BidStatus::Placed,
        };
        self.bids.store_bid(&bid);
        log_invoice_operation(
            &mut self.audit,
            self.ledger,
            invoice_id,
            AuditOperation::BidPlaced,
            investor,
            None,
            None,
            Some(bid_amount),
            None,
        );
        Ok(bid_id)
    }

    /// Accepts a placed bid on a verified invoice that has no escrow: holds
    /// the amount of the bid in escrow, marks the bid as accepted and the
    /// invoice as funded by the bidder, and notes the investment. The
    /// funding is recorded.
    pub fn accept_bid(&mut self, invoice_id: Id, bid_id: Id) -> (outcome: Result<(), QuickLendXError>)
        requires
            old(self).wf(),
            old(self)@.has_room(),
        ensures
            final(self).wf(),
            match old(self)@.acceptance_refusal(invoice_id, bid_id) {
                Some(error) => outcome == Err::<(), QuickLendXError>(error) && final(self)@ == old(self)@,
                None => outcome.is_ok() && old(self)@.bid_accepted(final(self)@, invoice_id, bid_id),
            },
    {
        let mut invoice = match self.invoices.get_invoice(&invoice_id) {
            Some(invoice) => invoice,
            None => {
                return Err(QuickLendXError::InvoiceNotFound);
            },
        };
        let mut bid = match self.bids.get_bid(&bid_id) {
            Some(bid) => bid,
            None => {
                return Err(QuickLendXError::StorageKeyNotFound);
            },
        };
        if invoice.status != InvoiceStatus::Verified || bid.status != BidStatus::Placed {
            return Err(QuickLendXError::InvalidStatus);
        }
        if self.escrows.get_escrow_by_invoice(&invoice_id).is_some() {
            return Err(QuickLendXError::InvalidStatus);
        }
        proof {
            lemma_invoice_found(self.invoices@, invoice_id);
            lemma_row_found(self.bids@, bid_id);
        }
        let ledger = self.ledger;
        let _ = create_escrow(
            &mut self.escrows,
            ledger,
            &invoice_id,
            &bid.investor,
            &invoice.business,
            bid.bid_amount,
            &invoice.currency,
        );
        bid.status = BidStatus::Accepted;
        self.bids.update_bid(&bid);
        invoice.mark_as_funded(&mut self.audit, ledger, bid.investor, bid.bid_amount, ledger.timestamp);
        proof {
            self.invoices.lemma_wf();
            lemma_update_steps(self.invoices@, invoice@);
        }
        self.invoices.update_invoice(&invoice);
        let investment_id = self.investments.generate_unique_investment_id(ledger);
        let investment = Investment {
            investment_id,
            invoice_id,
            investor: bid.investor,
            amount: bid.bid_amount,
            funded_at: ledger.timestamp,
            status: InvestmentStatus::Active,
        };
        self.investments.store_investment(&investment);
        Ok(())
    }

    /// Withdraws a placed bid, and records the withdrawal.
    pub fn withdraw_bid(&mut self, bid_id: Id) -> (outcome: Result<(), QuickLendXError>)
        requires
            old(self).wf(),
            old(self)@.has_room(),
        ensures
            final(self).wf(),
            match old(self)@.withdrawal_refusal(bid_id) {
                Some(error) => outcome == Err::<(), QuickLendXError>(error) && final(self)@ == old(self)@,
                None => outcome.is_ok() && old(self)@.bid_withdrawn(final(self)@, bid_id),
            },
    {
        let mut bid = match self.bids.get_bid(&bid_id) {
            Some(bid) => bid,
            None => {
                return Err(QuickLendXError::StorageKeyNotFound);
            },
        };
        if bid.status != BidStatus::Placed {
            return Err(QuickLendXError::OperationNotAllowed);
        }
        proof {
            lemma_row_found(self.bids@, bid_id);
        }
        bid.status = BidStatus::Withdrawn;
        self.bids.update_bid(&bid);
        log_invoice_operation(
            &mut self.audit,
            self.ledger,
            bid.invoice_id,
            AuditOperation::BidWithdrawn,
            bid.investor,
            None,
            None,
            Some(bid.bid_amount),
            None,
        );
        Ok(())
    }

    /// The movement of funds that releases the escrow for the invoice, or
    /// why the escrow cannot be released.
    pub fn escrow_release_movement(&self, invoice_id: Id) -> (outcome: Result<FundsMovement, QuickLendXError>)
        ensures
            match closing_refusal(self@.escrows, invoice_id, true) {
                Some(error) => outcome == Err::<FundsMovement, QuickLendXError>(error),
                None => outcome == Ok::<FundsMovement, QuickLendXError>(
                    escrow_for(self@.escrows, invoice_id).unwrap().release(),
                ),
            },
    {
        release_movement(&self.escrows, &invoice_id)
    }

    /// The movement of funds that refunds the escrow for the invoice, or why
    /// the escrow cannot be refunded.
    pub fn escrow_refund_movement(&self, invoice_id: Id) -> (outcome: Result<FundsMovement, QuickLendXError>)
        ensures
            match closing_refusal(self@.escrows, invoice_id, true) {
                Some(error) => outcome == Err::<FundsMovement, QuickLendXError>(error),
                None => outcome == Ok::<FundsMovement, QuickLendXError>(
                    escrow_for(self@.escrows, invoice_id).unwrap().refund(),
                ),
            },
    {
        refund_movement(&self.escrows, &invoice_id)
    }

    /// Releases the escrow for the invoice to the business, and records the
    /// release. `moved` says whether the host moved the funds.
    pub fn release_escrow_funds(&mut self, invoice_id: Id, moved: bool) -> (outcome: Result<(), QuickLendXError>)
        requires
            old(self).wf(),
            old(self)@.has_room(),
        ensures
            final(self).wf(),
            match closing_refusal(old(self)@.escrows, invoice_id, moved) {
                Some(error) => outcome == Err::<(), QuickLendXError>(error) && final(self)@ == old(self)@,
                None => outcome.is_ok() && old(self)@.escrow_closed(
                    final(self)@,
                    invoice_id,
                    EscrowStatus::Released,
                ),
            },
    {
        let escrow = match self.escrows.get_escrow_by_invoice(&invoice_id) {
            Some(escrow) => escrow,
            None => {
                return Err(QuickLendXError::StorageKeyNotFound);
            },
        };
        match release_escrow(&mut self.escrows, &invoice_id, moved) {
            Err(error) => {
                return Err(error);
            },
            Ok(_) => {},
        }
        log_invoice_operation(
            &mut self.audit,
            self.ledger,
            invoice_id,
            AuditOperation::EscrowReleased,
            escrow.business,
            None,
            None,
            Some(escrow.amount),
            None,
        );
        Ok(())
    }

    /// Refunds the escrow for the invoice to the investor, and records the
    /// refund. `moved` says whether the host moved the funds.
    pub fn refund_escrow_funds(&mut self, invoice_id: Id, moved: bool) -> (outcome: Result<(), QuickLendXError>)
        requires
            old(self).wf(),
            old(self)@.has_room(),
        ensures
            final(self).wf(),
            match closing_refusal(old(self)@.escrows, invoice_id, moved) {
                Some(error) => outcome == Err::<(), QuickLendXError>(error) && final(self)@ == old(self)@,
                None => outcome.is_ok() && old(self)@.escrow_closed(
                    final(self)@,
                    invoice_id,
                    EscrowStatus::Refunded,
                ),
            },
    {
        let escrow = match self.escrows.get_escrow_by_invoice(&invoice_id) {
            Some(escrow) => escrow,
            None => {
                return Err(QuickLendXError::StorageKeyNotFound);
            },
        };
        match refund_escrow(&mut self.escrows, &invoice_id, moved) {
            Err(error) => {
                return Err(error);
            },
            Ok(_) => {},
        }
        log_invoice_operation(
            &mut self.audit,
            self.ledger,
            invoice_id,
            AuditOperation::EscrowRefunded,
            escrow.investor,
            None,
            None,
            Some(escrow.amount),
            None,
        );
        Ok(())
    }

    /// The status of the escrow for the invoice.
    pub fn get_escrow_status(&self, invoice_id: Id) -> (outcome: Result<EscrowStatus, QuickLendXError>)
        ensures
            outcome == match escrow_for(self@.escrows, invoice_id) {
                Some(escrow) => Ok::<EscrowStatus, QuickLendXError>(escrow.status),
                None => Err::<EscrowStatus, QuickLendXError>(QuickLendXError::StorageKeyNotFound),
            },
    {
        match self.escrows.get_escrow_by_invoice(&invoice_id) {
            Some(escrow) => Ok(escrow.status),
            None => Err(QuickLendXError::StorageKeyNotFound),
        }
    }

    /// The escrow for the invoice.
    pub fn get_escrow_details(&self, invoice_id: Id) -> (outcome: Result<Escrow, QuickLendXError>)
        ensures
            outcome == match escrow_for(self@.escrows, invoice_id) {
                Some(escrow) => Ok::<Escrow, QuickLendXError>(escrow),
                None => Err::<Escrow, QuickLendXError>(QuickLendXError::StorageKeyNotFound),
            },
    {
        match self.escrows.get_escrow_by_invoice(&invoice_id) {
            Some(escrow) => Ok(escrow),
            None => Err(QuickLendXError::StorageKeyNotFound),
        }
    }

    /// Adds the rating of `rater`, the investor who funded the invoice, and
    /// records it. A rating is refused unless the invoice is funded or paid,
    /// `rater` funded it, the value is one to five, and `rater` has not
    /// rated the invoice before.
    pub fn add_invoice_rating(&mut self, invoice_id: Id, rating: u32, feedback: String, rater: Address) -> (outcome:
        Result<(), QuickLendXError>)
        requires
            old(self).wf(),
            old(self)@.has_room(),
        ensures
            final(self).wf(),
            match old(self)@.rating_refusal(invoice_id, rating, rater) {
                Some(error) => outcome == Err::<(), QuickLendXError>(error) && final(self)@ == old(self)@,
                None => outcome.is_ok() && old(self)@.invoice_rated(
                    final(self)@,
                    invoice_id,
                    rating,
                    feedback,
                    rater,
                ),
            },
    {
        let mut invoice = match self.invoices.get_invoice(&invoice_id) {
            Some(invoice) => invoice,
            None => {
                return Err(QuickLendXError::InvoiceNotFound);
            },
        };
        let noted = feedback.clone();
        match invoice.add_rating(rating, feedback, rater, self.ledger.timestamp) {
            Err(error) => {
                return Err(error);
            },
            Ok(_) => {},
        }
        proof {
            lemma_invoice_found(self.invoices@, invoice_id);
            self.invoices.lemma_wf();
            lemma_update_steps(self.invoices@, invoice@);
        }
        self.invoices.update_invoice(&invoice);
        let mut stars = String::new();
        append_unsigned(&mut stars, rating as u64);
        log_invoice_operation(
            &mut self.audit,
            self.ledger,
            invoice_id,
            AuditOperation::InvoiceRated,
            rater,
            None,
            Some(stars),
            None,
            Some(noted),
        );
        Ok(())
    }

    /// The funded and then the paid invoices whose average rating is at
    /// least `threshold`.
    pub fn get_invoices_with_rating_above(&self, threshold: u32) -> (ids: Vec<Id>)
        requires
            self.wf(),
        ensures
            ids@ == self@.invoices.rated_above(threshold),
    {
        self.invoices.get_invoices_with_rating_above(threshold)
    }

    /// The invoices of `business` whose average rating is at least
    /// `threshold`.
    pub fn get_business_rated_invoices(&self, business: Address, threshold: u32) -> (ids: Vec<Id>)
        requires
            self.wf(),
        ensures
            ids@ == self@.invoices.chosen(
                owned_by(self@.invoices.records, business),
                rated_at_least(threshold),
            ),
    {
        self.invoices.get_business_invoices_with_rating_above(&business, threshold)
    }

    /// How many of the funded and of the paid invoices have been rated: the
    /// low 32 bits of the number.
    pub fn get_invoices_with_ratings_count(&self) -> (count: u32)
        requires
            self.wf(),
        ensures
            count == (self@.invoices.chosen(self@.invoices.funded, rated_at_all()).len()
                + self@.invoices.chosen(self@.invoices.paid, rated_at_all()).len()) as u32,
    {
        self.invoices.get_invoices_with_ratings_count()
    }

    /// The average, the number, the highest and the lowest of the ratings of
    /// an invoice.
    pub fn get_invoice_rating_stats(&self, invoice_id: Id) -> (outcome: Result<
        (Option<u32>, u32, Option<u32>, Option<u32>),
        QuickLendXError,
    >)
        ensures
            match self@.invoices.get(invoice_id) {
                None => outcome == Err::<(Option<u32>, u32, Option<u32>, Option<u32>), QuickLendXError>(
                    QuickLendXError::InvoiceNotFound,
                ),
                Some(invoice) => outcome == Ok::<(Option<u32>, u32, Option<u32>, Option<u32>), QuickLendXError>(
                    (
                        invoice.average_rating,
                        invoice.total_ratings,
                        if invoice.ratings.len() == 0 {
                            None
                        } else {
                            Some(highest_rating(invoice.ratings))
                        },
                        if invoice.ratings.len() == 0 {
                            None
                        } else {
                            Some(lowest_rating(invoice.ratings))
                        },
                    ),
                ),
            },
    {
        let invoice = match self.invoices.get_invoice(&invoice_id) {
            Some(invoice) => invoice,
            None => {
                return Err(QuickLendXError::InvoiceNotFound);
            },
        };
        Ok(
            (
                invoice.average_rating,
                invoice.total_ratings,
                invoice.get_highest_rating(),
                invoice.get_lowest_rating(),
            ),
        )
    }
}

/// How many active backups are kept.
pub const BACKUPS_KEPT: u32 = 5;

impl Books {
    /// Whether `after` is `self` with a backup made under `backup_id`: what
    /// is known of the backup stored, every invoice of the table held as its
    /// invoices, the backup added to the active ones, and the oldest of
    /// those dropped so that no more than `BACKUPS_KEPT` are left.
    pub open spec fn backed_up(self, after: Books, backup_id: Id, description: String) -> bool {
        let backup = Backup {
            backup_id,
            timestamp: self.now.timestamp,
            description,
            invoice_count: self.invoices.snapshot().len() as u32,
            status: BackupStatus::Active,
        };
        let grown = Shelf {
            backups: self.backups.backups.issue().store(backup),
            active: self.backups.active.push(backup_id),
            ..self.backups.with_data(backup_id, self.invoices.snapshot())
        };
        &&& backup_id@ == tagged_id_bytes(
            BACKUP_TAG_0,
            BACKUP_TAG_1,
            self.now.timestamp,
            self.backups.backups.issued as u64,
        )
        &&& after == Books { backups: Shelf { active: grown.cleaned(BACKUPS_KEPT), ..grown }, ..self }
    }

    /// Why the backup `backup_id` cannot be restored, or `None` where it
    /// can: there must be an admin, the backup must be valid, and no two of
    /// its invoices may share an identifier, nor any have one that the table
    /// has not issued.
    pub open spec fn restore_refusal(self, backup_id: Id) -> Option<QuickLendXError> {
        if self.registry.admin.is_none() {
            Some(QuickLendXError::NotAdmin)
        } else {
            match self.backups.validation_refusal(backup_id) {
                Some(error) => Some(error),
                None => if !restorable(self.invoices.issued, self.backups.data(backup_id).unwrap()) {
                    Some(QuickLendXError::StorageError)
                } else {
                    None
                },
            }
        }
    }

    /// Why the backup `backup_id` cannot be archived, or `None` where it
    /// can: there must be an admin, and the backup must be known.
    pub open spec fn archive_refusal(self, backup_id: Id) -> Option<QuickLendXError> {
        if self.registry.admin.is_none() {
            Some(QuickLendXError::NotAdmin)
        } else if self.backups.backups.get(backup_id).is_none() {
            Some(QuickLendXError::StorageKeyNotFound)
        } else {
            None
        }
    }
}

impl QuickLendXContract {
    /// The two movements of funds that the settlement of an invoice calls
    /// for, or why the invoice cannot be settled.
    pub fn settlement_movements(&self, invoice_id: Id, payment_amount: i128, platform: Address, platform_fee_bps: i128) -> (outcome:
        Result<(FundsMovement, FundsMovement), QuickLendXError>)
        ensures
            match self@.settlement_refusal(invoice_id, payment_amount, platform_fee_bps, true, true) {
                Some(error) => outcome == Err::<(FundsMovement, FundsMovement), QuickLendXError>(error),
                None => outcome == Ok::<(FundsMovement, FundsMovement), QuickLendXError>(
                    self@.settlement_due(invoice_id, payment_amount, platform, platform_fee_bps),
                ),
            },
    {
        settlement_movements(self, &invoice_id, payment_amount, &platform, platform_fee_bps)
    }

    /// Settles a funded invoice: marks it as paid now and the investment in
    /// it as completed, and records the change of status. `investor_paid`
    /// and `platform_paid` say whether the host moved the investor's return
    /// and the platform's fee.
    pub fn settle_invoice(
        &mut self,
        invoice_id: Id,
        payment_amount: i128,
        platform: Address,
        platform_fee_bps: i128,
        investor_paid: bool,
        platform_paid: bool,
    ) -> (outcome: Result<(), QuickLendXError>)
        requires
            old(self).wf(),
            old(self)@.has_room(),
        ensures
            final(self).wf(),
            match old(self)@.settlement_refusal(
                invoice_id,
                payment_amount,
                platform_fee_bps,
                investor_paid,
                platform_paid,
            ) {
                Some(error) => outcome == Err::<(), QuickLendXError>(error) && final(self)@ == old(self)@,
                None => outcome.is_ok() && old(self)@.settled(final(self)@, invoice_id),
            },
    {
        do_settle_invoice(
            self,
            &invoice_id,
            payment_amount,
            &platform,
            platform_fee_bps,
            investor_paid,
            platform_paid,
        )
    }

    /// Defaults a funded invoice: marks it as defaulted and the investment
    /// in it as withdrawn, and records the change of status.
    pub fn handle_default(&mut self, invoice_id: Id) -> (outcome: Result<(), QuickLendXError>)
        requires
            old(self).wf(),
            old(self)@.has_room(),
        ensures
            final(self).wf(),
            match old(self)@.default_refusal(invoice_id) {
                Some(error) => outcome == Err::<(), QuickLendXError>(error) && final(self)@ == old(self)@,
                None => outcome.is_ok() && old(self)@.defaulted(final(self)@, invoice_id),
            },
    {
        do_handle_default(self, &invoice_id)
    }

    /// The investor's return and the platform's fee, in this order.
    pub fn calculate_profit(investment_amount: i128, payment_amount: i128, platform_fee_bps: i128) -> (split: (
        i128,
        i128,
    ))
        requires
            split_fits(investment_amount as int, payment_amount as int, platform_fee_bps as int),
        ensures
            split.0 == investor_return(
                investment_amount as int,
                payment_amount as int,
                platform_fee_bps as int,
            ),
            split.1 == platform_fee(investment_amount as int, payment_amount as int, platform_fee_bps as int),
    {
        do_calculate_profit(investment_amount, payment_amount, platform_fee_bps)
    }

    /// Takes the application of `business`. A business can apply unless it
    /// has a pending application or is verified.
    pub fn submit_kyc_application(&mut self, business: Address, kyc_data: String) -> (outcome: Result<
        (),
        QuickLendXError,
    >)
        requires
            old(self).wf(),
        ensures
            final(self).wf(),
            match old(self)@.registry.application_refusal(business) {
                Some(error) => outcome == Err::<(), QuickLendXError>(error) && final(self)@ == old(self)@,
                None => outcome.is_ok() && final(self)@ == (Books {
                    registry: old(self)@.registry.put(
                        application(business, kyc_data, old(self)@.now.timestamp),
                    ),
                    ..old(self)@
                }),
            },
    {
        submit_kyc_application(&mut self.verification, self.ledger.timestamp, &business, kyc_data)
    }

    /// Approves the pending application of `business`, on behalf of `admin`.
    pub fn verify_business(&mut self, admin: Address, business: Address) -> (outcome: Result<(), QuickLendXError>)
        requires
            old(self).wf(),
        ensures
            final(self).wf(),
            match old(self)@.registry.decision_refusal(admin, business) {
                Some(error) => outcome == Err::<(), QuickLendXError>(error) && final(self)@ == old(self)@,
                None => outcome.is_ok() && final(self)@ == (Books {
                    registry: old(self)@.registry.put(
                        BusinessVerification {
                            status: BusinessVerificationStatus::Verified,
                            verified_at: Some(old(self)@.now.timestamp),
                            verified_by: Some(admin),
                            ..old(self)@.registry.get(business).unwrap()
                        },
                    ),
                    ..old(self)@
                }),
            },
    {
        verify_business(&mut self.verification, self.ledger.timestamp, &admin, &business)
    }

    /// Rejects the pending application of `business`, on behalf of `admin`,
    /// for the given reason.
    pub fn reject_business(&mut self, admin: Address, business: Address, reason: String) -> (outcome: Result<
        (),
        QuickLendXError,
    >)
        requires
            old(self).wf(),
        ensures
            final(self).wf(),
            match old(self)@.registry.decision_refusal(admin, business) {
                Some(error) => outcome == Err::<(), QuickLendXError>(error) && final(self)@ == old(self)@,
                None => outcome.is_ok() && final(self)@ == (Books {
                    registry: old(self)@.registry.put(
                        BusinessVerification {
                            status: BusinessVerificationStatus::Rejected,
                            rejection_reason: Some(reason),
                            ..old(self)@.registry.get(business).unwrap()
                        },
                    ),
                    ..old(self)@
                }),
            },
    {
        reject_business(&mut self.verification, &admin, &business, reason)
    }

    /// The record of the verification of `business`.
    pub fn get_business_verification_status(&self, business: Address) -> (verification: Option<
        BusinessVerification,
    >)
        ensures
            verification == self@.registry.get(business),
    {
        get_business_verification_status(&self.verification, &business)
    }

    /// Makes `admin` the admin.
    pub fn set_admin(&mut self, admin: Address)
        ensures
            final(self)@ == (Books { registry: Registry { admin: Some(admin), ..old(self)@.registry }, ..old(self)@ }),
            old(self).wf() ==> final(self).wf(),
    {
        self.verification.set_admin(&admin);
    }

    /// The admin.
    pub fn get_admin(&self) -> (admin: Option<Address>)
        ensures
            admin == self@.registry.admin,
    {
        self.verification.get_admin()
    }

    /// The verified businesses, in the order in which they were verified.
    pub fn get_verified_businesses(&self) -> (businesses: Vec<Address>)
        requires
            self.wf(),
        ensures
            businesses@ == self@.registry.verified,
    {
        self.verification.get_verified_businesses()
    }

    /// The businesses whose application is pending, in the order in which
    /// they applied.
    pub fn get_pending_businesses(&self) -> (businesses: Vec<Address>)
        requires
            self.wf(),
        ensures
            businesses@ == self@.registry.pending,
    {
        self.verification.get_pending_businesses()
    }

    /// The rejected businesses, in the order in which they were rejected.
    pub fn get_rejected_businesses(&self) -> (businesses: Vec<Address>)
        requires
            self.wf(),
        ensures
            businesses@ == self@.registry.rejected,
    {
        self.verification.get_rejected_businesses()
    }

    /// Makes a backup of every invoice, and drops the oldest of the active
    /// backups so that no more than `BACKUPS_KEPT` are left. There must be
    /// an admin.
    pub fn create_backup(&mut self, description: String) -> (outcome: Result<Id, QuickLendXError>)
        requires
            old(self).wf(),
            old(self)@.has_room(),
        ensures
            final(self).wf(),
            match old(self)@.registry.admin {
                None => outcome == Err::<Id, QuickLendXError>(QuickLendXError::NotAdmin) && final(self)@ == old(
                    self,
                )@,
                Some(_) => outcome matches Ok(backup_id) && old(self)@.backed_up(
                    final(self)@,
                    backup_id,
                    description,
                ),
            },
    {
        if self.verification.get_admin().is_none() {
            return Err(QuickLendXError::NotAdmin);
        }
        let all_invoices = self.invoices.snapshot();
        let backup_id = self.backups.generate_backup_id(self.ledger);
        let backup = Backup {
            backup_id,
            timestamp: self.ledger.timestamp,
            description,
            invoice_count: #[verifier::truncate] (all_invoices.len() as u32),
            status: BackupStatus::Active,
        };
        self.backups.store_backup(&backup);
        self.backups.store_backup_data(&backup_id, &all_invoices);
        self.backups.add_to_backup_list(&backup_id);
        let _ = self.backups.cleanup_old_backups(BACKUPS_KEPT);
        Ok(backup_id)
    }

    /// Puts the invoices of a valid backup in the place of those in the
    /// table. There must be an admin.
    pub fn restore_backup(&mut self, backup_id: Id) -> (outcome: Result<(), QuickLendXError>)
        requires
            old(self).wf(),
        ensures
            final(self).wf(),
            match old(self)@.restore_refusal(backup_id) {
                Some(error) => outcome == Err::<(), QuickLendXError>(error) && final(self)@ == old(self)@,
                None => outcome.is_ok() && final(self)@ == (Books {
                    invoices: old(self)@.invoices.restored(old(self)@.backups.data(backup_id).unwrap()),
                    ..old(self)@
                }),
            },
    {
        if self.verification.get_admin().is_none() {
            return Err(QuickLendXError::NotAdmin);
        }
        match self.backups.validate_backup(&backup_id) {
            Err(error) => {
                return Err(error);
            },
            Ok(_) => {},
        }
        let invoices = match self.backups.get_backup_data(&backup_id) {
            Some(invoices) => invoices,
            None => {
                return Err(QuickLendXError::StorageKeyNotFound);
            },
        };
        if !self.invoices.can_restore(&invoices) {
            return Err(QuickLendXError::StorageError);
        }
        self.invoices.restore(&invoices);
        Ok(())
    }

    /// Whether the backup is valid.
    pub fn validate_backup(&self, backup_id: Id) -> (outcome: Result<bool, QuickLendXError>)
        ensures
            outcome == Ok::<bool, QuickLendXError>(self@.backups.validation_refusal(backup_id).is_none()),
    {
        let result = self.backups.validate_backup(&backup_id).is_ok();
        Ok(result)
    }

    /// Archives a backup: it is then no longer among the active ones. There
    /// must be an admin.
    pub fn archive_backup(&mut self, backup_id: Id) -> (outcome: Result<(), QuickLendXError>)
        requires
            old(self).wf(),
        ensures
            final(self).wf(),
            match old(self)@.archive_refusal(backup_id) {
                Some(error) => outcome == Err::<(), QuickLendXError>(error) && final(self)@ == old(self)@,
                None => outcome.is_ok() && final(self)@ == (Books {
                    backups: Shelf {
                        backups: old(self)@.backups.backups.update(
                            Backup {
                                status: BackupStatus::Archived,
                                ..old(self)@.backups.backups.get(backup_id).unwrap()
                            },
                        ),
                        active: without(old(self)@.backups.active, backup_id),
                        ..old(self)@.backups
                    },
                    ..old(self)@
                }),
            },
    {
        if self.verification.get_admin().is_none() {
            return Err(QuickLendXError::NotAdmin);
        }
        let mut backup = match self.backups.get_backup(&backup_id) {
            Some(backup) => backup,
            None => {
                return Err(QuickLendXError::StorageKeyNotFound);
            },
        };
        backup.status = BackupStatus::Archived;
        self.backups.update_backup(&backup);
        self.backups.remove_from_backup_list(&backup_id);
        Ok(())
    }

    /// The identifiers of the active backups, in the order in which they
    /// became active.
    pub fn get_backups(&self) -> (ids: Vec<Id>)
        ensures
            ids@ == self@.backups.active,
    {
        self.backups.get_all_backups()
    }

    /// What is known of the backup with the given identifier.
    pub fn get_backup_details(&self, backup_id: Id) -> (backup: Option<Backup>)
        ensures
            backup == self@.backups.backups.get(backup_id),
    {
        self.backups.get_backup(&backup_id)
    }

    /// Takes every invoice out of the table: out of every status bucket, and
    /// therewith out of the invoices of every business.
    pub fn clear_all_invoices(&mut self) -> (outcome: Result<(), QuickLendXError>)
        requires
            old(self).wf(),
        ensures
            final(self).wf(),
            outcome.is_ok(),
            final(self)@ == (Books { invoices: old(self)@.invoices.cleared(), ..old(self)@ }),
    {
        self.invoices.clear();
        Ok(())
    }

    /// The identifiers of the audit entries on an invoice, oldest first.
    pub fn get_invoice_audit_trail(&self, invoice_id: Id) -> (trail: Vec<Id>)
        requires
            self.wf(),
        ensures
            trail@ == self@.audit.invoice_trail(invoice_id),
    {
        self.audit.get_invoice_audit_trail(&invoice_id)
    }

    /// The audit entry with the given identifier.
    pub fn get_audit_entry(&self, audit_id: Id) -> (outcome: Result<AuditLogEntry, QuickLendXError>)
        ensures
            outcome == match self@.audit.entry(audit_id) {
                Some(entry) => Ok::<AuditLogEntry, QuickLendXError>(entry),
                None => Err::<AuditLogEntry, QuickLendXError>(QuickLendXError::AuditLogNotFound),
            },
    {
        match self.audit.get_audit_entry(&audit_id) {
            Some(entry) => Ok(entry),
            None => Err(QuickLendXError::AuditLogNotFound),
        }
    }

    /// The audit entries that `filter` admits, oldest first, no more than
    /// `limit` of them.
    pub fn query_audit_logs(&self, filter: AuditQueryFilter, limit: u32) -> (results: Vec<AuditLogEntry>)
        requires
            self.wf(),
        ensures
            results@ == self@.audit.query(filter, limit),
    {
        self.audit.query_audit_logs(&filter, limit)
    }

    /// Figures on the whole audit log.
    pub fn get_audit_stats(&self) -> (stats: AuditStats)
        requires
            self.wf(),
        ensures
            stats.total_entries == self@.audit.entries.len() as u32,
            stats.operations_count@.len() == operations_of(self@.audit.entries).len(),
            forall|at: int|
                0 <= at < stats.operations_count@.len() ==> #[trigger] stats.operations_count@[at]
                    == tally_at(self@.audit.entries, at),
            stats.unique_actors == actors_of(self@.audit.entries).len() as u32,
            stats.date_range == (
                earliest(self@.audit.entries),
                latest(self@.audit.entries),
            ),
    {
        self.audit.get_audit_stats()
    }

    /// Whether every audit entry on the invoice is valid now.
    pub fn validate_invoice_audit_integrity(&self, invoice_id: Id) -> (outcome: Result<bool, QuickLendXError>)
        requires
            self.wf(),
        ensures
            outcome == Ok::<bool, QuickLendXError>(self@.audit.trail_valid(invoice_id, self@.now)),
    {
        self.audit.validate_invoice_audit_integrity(self.ledger, &invoice_id)
    }
}

/// An attempt to move an invoice to a status that it may not move to from
/// the status that it has is refused with `InvalidStatus`.
pub proof fn lemma_illegal_step_refused(books: Books, invoice_id: Id, new_status: InvoiceStatus)
    requires
        books.invoices.get(invoice_id) matches Some(invoice) && !invoice.status.may_become(new_status),
    ensures
        books.status_refusal(invoice_id, new_status) == Some(QuickLendXError::InvalidStatus),
{
}

/// A backup can be restored right after it was made, and the restored table
/// then holds, under every identifier, the invoice that the table held when
/// the backup was made: the same amount, the same status, the same
/// everything. The invoices must have positive amounts, which a backup looks
/// at when it is restored.
pub proof fn lemma_restore_after_backup(before: Books, after: Books, backup_id: Id, description: String)
    requires
        before.invoices.wf(),
        before.backups.backups.wf(TAGGED_COUNTER_AT as int),
        before.backups.backups.has_room(),
        before.registry.admin.is_some(),
        before.backed_up(after, backup_id, description),
        forall|i: int| 0 <= i < before.invoices.records.len() ==> (#[trigger] before.invoices.records[i]).amount > 0,
    ensures
        after.restore_refusal(backup_id).is_none(),
        after.backups.data(backup_id) == Some(before.invoices.snapshot()),
        after.invoices.restored(before.invoices.snapshot()).wf(),
        forall|id: Id|
            #[trigger] after.invoices.restored(before.invoices.snapshot()).get(id) == before.invoices.get(id),
{
    let snapshot = before.invoices.snapshot();
    let backup = Backup {
        backup_id,
        timestamp: before.now.timestamp,
        description,
        invoice_count: snapshot.len() as u32,
        status: BackupStatus::Active,
    };
    lemma_with_data(before.backups, backup_id, snapshot);
    lemma_be_round_trip(before.backups.backups.issued as u64);
    let issued = before.backups.backups.issue();
    assert forall|i: int| 0 <= i < issued.records.len() implies !keyed::<Backup>(backup_id)(
        #[trigger] issued.records[i],
    ) by {}
    lemma_first_index_none(issued.records, keyed::<Backup>(backup_id));
    lemma_rows_store(issued, TAGGED_COUNTER_AT as int, backup);
    lemma_backup_round_trip(before.invoices);
    assert(amounts_positive(snapshot)) by {
        assert forall|k: int| 0 <= k < snapshot.len() implies (#[trigger] snapshot[k]).amount > 0 by {
            assert(before.invoices.get(snapshot[k].id) == Some(snapshot[k]));
            lemma_first_index(
                before.invoices.records,
                invoice_is(snapshot[k].id),
            );
        }
    }
}

} // verus!
