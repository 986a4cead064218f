//! Invoices, their ratings, and the table that holds them with its
//! status buckets.

use vstd::prelude::*;
use crate::audit::{
    created_note, funded_note, lemma_logged, log_invoice_created, log_invoice_funded,
    log_invoice_status_change, logged, AuditLog, AuditOperation, AuditStorage,
};
use crate::errors::QuickLendXError;
use crate::identifiers::{read_u64, tagged_id, tagged_id_bytes, u64_at, TAGGED_COUNTER_AT};
use crate::keys::{
    first_index, lemma_first_index, lemma_first_index_is, lemma_first_index_none, lemma_first_index_push,
    lemma_push_contains, lemma_push_no_duplicates, lemma_without, without, Index, Key,
};
use crate::types::{Address, Id, LedgerInfo};

verus! {

/// Where an invoice stands in its life.
#[derive(Clone, Copy, Debug, PartialEq, Eq, Hash, Structural)]
pub enum InvoiceStatus {
    /// Uploaded, awaiting verification.
    Pending,
    /// Verified and open to bids.
    Verified,
    /// Funded by an investor.
    Funded,
    /// Paid and settled.
    Paid,
    /// Not paid when due.
    Defaulted,
}

impl Key for InvoiceStatus {
    fn same(&self, other: &Self) -> (equal: bool) {
        *self == *other
    }
}

impl InvoiceStatus {
    /// The name of the status, as the audit log writes it.
    pub open spec fn spec_name(self) -> Seq<char> {
        match self {
            InvoiceStatus::Pending => "Pending"@,
            InvoiceStatus::Verified => "Verified"@,
            InvoiceStatus::Funded => "Funded"@,
            InvoiceStatus::Paid => "Paid"@,
            InvoiceStatus::Defaulted => "Defaulted"@,
        }
    }

    /// The name of the status, as the audit log writes it.
    pub fn name(self) -> (name: String)
        ensures
            name@ == self.spec_name(),
    {
        match self {
            InvoiceStatus::Pending => "Pending".to_string(),
            InvoiceStatus::Verified => "Verified".to_string(),
            InvoiceStatus::Funded => "Funded".to_string(),
            InvoiceStatus::Paid => "Paid".to_string(),
            InvoiceStatus::Defaulted => "Defaulted".to_string(),
        }
    }

    /// Whether an invoice may move from `self` to `next`.
    pub open spec fn may_become(self, next: InvoiceStatus) -> bool {
        ||| self == InvoiceStatus::Pending && next == InvoiceStatus::Verified
        ||| self == InvoiceStatus::Verified && next == InvoiceStatus::Funded
        ||| self == InvoiceStatus::Funded && next == InvoiceStatus::Paid
        ||| self == InvoiceStatus::Funded && next == InvoiceStatus::Defaulted
    }
}

/// One rating of an invoice.
#[derive(Debug, PartialEq, Eq)]
pub struct InvoiceRating {
    /// One to five stars.
    pub rating: u32,
    pub feedback: String,
    /// The investor who gave the rating.
    pub rated_by: Address,
    pub rated_at: u64,
}

impl Clone for InvoiceRating {
    fn clone(&self) -> (copy: Self)
        ensures
            copy == *self,
    {
        InvoiceRating {
            rating: self.rating,
            feedback: self.feedback.clone(),
            rated_by: self.rated_by,
            rated_at: self.rated_at,
        }
    }
}

/// An invoice that a business has put up for financing.
#[derive(Debug, PartialEq, Eq)]
pub struct Invoice {
    pub id: Id,
    /// The business that uploaded the invoice.
    pub business: Address,
    pub amount: i128,
    /// The token in which the invoice is denominated.
    pub currency: Address,
    pub due_date: u64,
    pub status: InvoiceStatus,
    pub created_at: u64,
    pub description: String,
    pub funded_amount: i128,
    pub funded_at: Option<u64>,
    /// The investor who funded the invoice.
    pub investor: Option<Address>,
    pub settled_at: Option<u64>,
    /// The floor of the mean of the ratings.
    pub average_rating: Option<u32>,
    pub total_ratings: u32,
    pub ratings: Vec<InvoiceRating>,
}

/// An invoice as a mathematical value.
pub struct InvoiceView {
    pub id: Id,
    pub business: Address,
    pub amount: i128,
    pub currency: Address,
    pub due_date: u64,
    pub status: InvoiceStatus,
    pub created_at: u64,
    pub description: String,
    pub funded_amount: i128,
    pub funded_at: Option<u64>,
    pub investor: Option<Address>,
    pub settled_at: Option<u64>,
    pub average_rating: Option<u32>,
    pub total_ratings: u32,
    pub ratings: Seq<InvoiceRating>,
}

impl View for Invoice {
    type V = InvoiceView;

    open spec fn view(&self) -> InvoiceView {
        InvoiceView {
            id: self.id,
            business: self.business,
            amount: self.amount,
            currency: self.currency,
            due_date: self.due_date,
            status: self.status,
            created_at: self.created_at,
            description: self.description,
            funded_amount: self.funded_amount,
            funded_at: self.funded_at,
            investor: self.investor,
            settled_at: self.settled_at,
            average_rating: self.average_rating,
            total_ratings: self.total_ratings,
            ratings: self.ratings@,
        }
    }
}

impl Clone for Invoice {
    fn clone(&self) -> (copy: Self)
        ensures
            copy@ == self@,
    {
        let mut ratings: Vec<InvoiceRating> = Vec::new();
        let mut i: usize = 0;
        while i < self.ratings.len()
            invariant
                i <= self.ratings.len(),
                ratings@ == self.ratings@.take(i as int),
            decreases self.ratings.len() - i,
        {
            ratings.push(self.ratings[i].clone());
            proof {
                assert(self.ratings@.take(i + 1) =~= self.ratings@.take(i as int).push(self.ratings@[i as int]));
            }
            i += 1;
        }
        proof {
            assert(self.ratings@.take(self.ratings.len() as int) =~= self.ratings@);
        }
        Invoice {
            id: self.id,
            business: self.business,
            amount: self.amount,
            currency: self.currency,
            due_date: self.due_date,
            status: self.status,
            created_at: self.created_at,
            description: self.description.clone(),
            funded_amount: self.funded_amount,
            funded_at: self.funded_at,
            investor: self.investor,
            settled_at: self.settled_at,
            average_rating: self.average_rating,
            total_ratings: self.total_ratings,
            ratings,
        }
    }
}

/// The sum of the ratings in `ratings`.
pub open spec fn rating_sum(ratings: Seq<InvoiceRating>) -> int
    decreases ratings.len(),
{
    if ratings.len() == 0 {
        0
    } else {
        rating_sum(ratings.drop_last()) + ratings.last().rating
    }
}

/// The greatest rating in `ratings`; zero where there is none.
pub open spec fn highest_rating(ratings: Seq<InvoiceRating>) -> u32
    decreases ratings.len(),
{
    if ratings.len() == 0 {
        0
    } else if ratings.last().rating > highest_rating(ratings.drop_last()) {
        ratings.last().rating
    } else {
        highest_rating(ratings.drop_last())
    }
}

/// The least rating in `ratings`; the greatest value of the type where
/// there is none.
pub open spec fn lowest_rating(ratings: Seq<InvoiceRating>) -> u32
    decreases ratings.len(),
{
    if ratings.len() == 0 {
        u32::MAX
    } else if ratings.last().rating < lowest_rating(ratings.drop_last()) {
        ratings.last().rating
    } else {
        lowest_rating(ratings.drop_last())
    }
}

/// Whether `rater` has given one of `ratings`.
pub open spec fn has_rated(ratings: Seq<InvoiceRating>, rater: Address) -> bool {
    exists|i: int| 0 <= i < ratings.len() && (#[trigger] ratings[i]).rated_by == rater
}

/// The sum of ratings is at most the greatest value of a rating times their
/// number, and the floor of their mean is a rating's value.
pub proof fn lemma_rating_sum_bounds(ratings: Seq<InvoiceRating>)
    ensures
        0 <= rating_sum(ratings) <= ratings.len() * u32::MAX,
        ratings.len() > 0 ==> 0 <= rating_sum(ratings) / (ratings.len() as int) <= u32::MAX,
    decreases ratings.len(),
{
    if ratings.len() > 0 {
        lemma_rating_sum_bounds(ratings.drop_last());
        assert(ratings.drop_last().len() * u32::MAX + u32::MAX == ratings.len() * u32::MAX)
            by (nonlinear_arith)
            requires
                ratings.drop_last().len() + 1 == ratings.len(),
        ;
        let sum = rating_sum(ratings);
        let count = ratings.len() as int;
        assert(0 <= sum / count <= u32::MAX) by (nonlinear_arith)
            requires
                0 <= sum <= count * u32::MAX,
                count > 0,
        ;
    }
}

impl InvoiceView {
    /// Whether the figures on the ratings agree with the ratings: their
    /// number, the floor of their mean, and no rater twice.
    pub open spec fn ratings_consistent(self) -> bool {
        &&& self.total_ratings == self.ratings.len()
        &&& self.average_rating == if self.ratings.len() == 0 {
            None::<u32>
        } else {
            Some((rating_sum(self.ratings) / (self.ratings.len() as int)) as u32)
        }
        &&& forall|i: int, j: int|
            0 <= i < self.ratings.len() && 0 <= j < self.ratings.len() && i != j
                ==> self.ratings[i].rated_by != self.ratings[j].rated_by
    }

    /// Whether the invoice is as the ledger leaves invoices: one with a
    /// funded amount has an investor, and the figures on the ratings agree
    /// with the ratings.
    pub open spec fn consistent(self) -> bool {
        &&& self.funded_amount > 0 ==> self.investor.is_some()
        &&& self.ratings_consistent()
    }

    /// Why a rating by `rater` is refused, or `None` where it is accepted.
    /// The status is looked at first, then the rater, then the value, then
    /// whether the rater has rated before.
    pub open spec fn rating_refusal(self, rating: u32, rater: Address) -> Option<QuickLendXError> {
        if self.status != InvoiceStatus::Funded && self.status != InvoiceStatus::Paid {
            Some(QuickLendXError::NotFunded)
        } else if self.investor != Some(rater) {
            Some(QuickLendXError::NotRater)
        } else if rating < 1 || rating > 5 {
            Some(QuickLendXError::InvalidRating)
        } else if has_rated(self.ratings, rater) {
            Some(QuickLendXError::AlreadyRated)
        } else {
            None
        }
    }

    /// The invoice with one more rating, and the figures on the ratings
    /// brought up to date: the count is the number of ratings, the average
    /// the floor of their mean.
    pub open spec fn rated(self, rating: InvoiceRating) -> InvoiceView {
        let ratings = self.ratings.push(rating);
        InvoiceView {
            ratings,
            total_ratings: ratings.len() as u32,
            average_rating: Some((rating_sum(ratings) / (ratings.len() as int)) as u32),
            ..self
        }
    }

    /// The invoice as funded by `investor`.
    pub open spec fn funded(self, investor: Address, funded_amount: i128, timestamp: u64) -> InvoiceView {
        InvoiceView {
            status: InvoiceStatus::Funded,
            funded_amount,
            funded_at: Some(timestamp),
            investor: Some(investor),
            ..self
        }
    }

    /// The invoice as paid at `timestamp`.
    pub open spec fn paid(self, timestamp: u64) -> InvoiceView {
        InvoiceView { status: InvoiceStatus::Paid, settled_at: Some(timestamp), ..self }
    }

    /// The invoice with another status.
    pub open spec fn with_status(self, status: InvoiceStatus) -> InvoiceView {
        InvoiceView { status, ..self }
    }
}

impl Invoice {
    /// Whether bids on the invoice can still be accepted.
    pub fn is_available_for_funding(&self) -> (available: bool)
        ensures
            available == (self.status == InvoiceStatus::Verified && self.funded_amount == 0),
    {
        self.status == InvoiceStatus::Verified && self.funded_amount == 0
    }

    /// Whether the due date has passed at `current_timestamp`.
    pub fn is_overdue(&self, current_timestamp: u64) -> (overdue: bool)
        ensures
            overdue == (current_timestamp > self.due_date),
    {
        current_timestamp > self.due_date
    }

    /// Marks the invoice as funded by `investor`, and records the change of
    /// status and then the funding. The status that the invoice had is not
    /// looked at.
    pub fn mark_as_funded(
        &mut self,
        audit: &mut AuditStorage,
        ledger: LedgerInfo,
        investor: Address,
        funded_amount: i128,
        timestamp: u64,
    )
        requires
            old(audit).wf(),
            old(audit)@.issued + 2 <= u64::MAX,
        ensures
            final(self)@ == old(self)@.funded(investor, funded_amount, timestamp),
            old(self)@.ratings_consistent() ==> final(self)@.consistent(),
            final(audit).wf(),
            funding_logged(old(audit)@, final(audit)@, ledger, old(self)@, investor, funded_amount),
    {
        let old_status = self.status;
        self.status = InvoiceStatus::Funded;
        self.funded_amount = funded_amount;
        self.funded_at = Some(timestamp);
        self.investor = Some(investor);
        log_invoice_status_change(audit, ledger, self.id, investor, old_status, self.status);
        log_invoice_funded(audit, ledger, self.id, investor, funded_amount);
    }

    /// Marks the invoice as paid at `timestamp`, and records the change of
    /// status. The status that the invoice had is not looked at.
    pub fn mark_as_paid(&mut self, audit: &mut AuditStorage, ledger: LedgerInfo, actor: Address, timestamp: u64)
        requires
            old(audit).wf(),
            old(audit)@.has_room(),
        ensures
            final(self)@ == old(self)@.paid(timestamp),
            old(self)@.consistent() ==> final(self)@.consistent(),
            final(audit).wf(),
            status_change_logged(old(audit)@, final(audit)@, ledger, old(self)@, actor, InvoiceStatus::Paid),
    {
        let old_status = self.status;
        self.status = InvoiceStatus::Paid;
        self.settled_at = Some(timestamp);
        log_invoice_status_change(audit, ledger, self.id, actor, old_status, self.status);
    }

    /// Marks the invoice as verified, and records the change of status. The
    /// status that the invoice had is not looked at.
    pub fn verify(&mut self, audit: &mut AuditStorage, ledger: LedgerInfo, actor: Address)
        requires
            old(audit).wf(),
            old(audit)@.has_room(),
        ensures
            final(self)@ == old(self)@.with_status(InvoiceStatus::Verified),
            old(self)@.consistent() ==> final(self)@.consistent(),
            final(audit).wf(),
            status_change_logged(old(audit)@, final(audit)@, ledger, old(self)@, actor, InvoiceStatus::Verified),
    {
        let old_status = self.status;
        self.status = InvoiceStatus::Verified;
        log_invoice_status_change(audit, ledger, self.id, actor, old_status, self.status);
    }

    /// Marks the invoice as defaulted, and records the change of status. The
    /// status that the invoice had is not looked at.
    pub fn mark_as_defaulted(&mut self, audit: &mut AuditStorage, ledger: LedgerInfo, actor: Address)
        requires
            old(audit).wf(),
            old(audit)@.has_room(),
        ensures
            final(self)@ == old(self)@.with_status(InvoiceStatus::Defaulted),
            old(self)@.consistent() ==> final(self)@.consistent(),
            final(audit).wf(),
            status_change_logged(old(audit)@, final(audit)@, ledger, old(self)@, actor, InvoiceStatus::Defaulted),
    {
        let old_status = self.status;
        self.status = InvoiceStatus::Defaulted;
        log_invoice_status_change(audit, ledger, self.id, actor, old_status, self.status);
    }

    fn rated_by(&self, rater: &Address) -> (found: bool)
        ensures
            found == has_rated(self.ratings@, *rater),
    {
        let mut i: usize = 0;
        while i < self.ratings.len()
            invariant
                i <= self.ratings.len(),
                forall|j: int| 0 <= j < i ==> (#[trigger] self.ratings@[j]).rated_by != *rater,
            decreases self.ratings.len() - i,
        {
            if self.ratings[i].rated_by.same(rater) {
                return true;
            }
            i += 1;
        }
        false
    }

    fn sum_of_ratings(&self) -> (sum: u128)
        ensures
            sum == rating_sum(self.ratings@),
    {
        let mut sum: u128 = 0;
        let mut i: usize = 0;
        while i < self.ratings.len()
            invariant
                i <= self.ratings.len(),
                sum == rating_sum(self.ratings@.take(i as int)),
            decreases self.ratings.len() - i,
        {
            proof {
                assert(self.ratings@.take(i + 1).drop_last() =~= self.ratings@.take(i as int));
                lemma_rating_sum_bounds(self.ratings@.take(i as int));
                assert(i * u32::MAX <= usize::MAX * u32::MAX) by (nonlinear_arith)
                    requires
                        i <= usize::MAX,
                ;
            }
            sum = sum + self.ratings[i].rating as u128;
            i += 1;
        }
        proof {
            assert(self.ratings@.take(self.ratings.len() as int) =~= self.ratings@);
        }
        sum
    }

    /// Adds the rating of `rater`, the investor who funded the invoice, and
    /// brings the average and the count up to date. A rating is refused
    /// unless the invoice is funded or paid, `rater` funded it, the value is
    /// one to five, and `rater` has not rated the invoice before.
    pub fn add_rating(&mut self, rating: u32, feedback: String, rater: Address, timestamp: u64) -> (outcome:
        Result<(), QuickLendXError>)
        ensures
            match old(self)@.rating_refusal(rating, rater) {
                Some(error) => outcome == Err::<(), QuickLendXError>(error) && final(self)@ == old(self)@,
                None => outcome.is_ok() && final(self)@ == old(self)@.rated(
                    InvoiceRating { rating, feedback, rated_by: rater, rated_at: timestamp },
                ),
            },
            old(self)@.consistent() && old(self)@.ratings.len() < u32::MAX ==> final(self)@.consistent(),
    {
        proof {
            if old(self)@.consistent() && old(self)@.ratings.len() < u32::MAX && old(self)@.rating_refusal(
                rating,
                rater,
            ).is_none() {
                lemma_rating_keeps_consistency(
                    old(self)@,
                    InvoiceRating { rating, feedback, rated_by: rater, rated_at: timestamp },
                );
            }
        }
        if self.status != InvoiceStatus::Funded && self.status != InvoiceStatus::Paid {
            return Err(QuickLendXError::NotFunded);
        }
        match self.investor {
            Some(investor) => {
                if !investor.same(&rater) {
                    return Err(QuickLendXError::NotRater);
                }
            },
            None => {
                return Err(QuickLendXError::NotRater);
            },
        }
        if rating < 1 || rating > 5 {
            return Err(QuickLendXError::InvalidRating);
        }
        if self.rated_by(&rater) {
            return Err(QuickLendXError::AlreadyRated);
        }
        self.ratings.push(InvoiceRating { rating, feedback, rated_by: rater, rated_at: timestamp });
        let sum = self.sum_of_ratings();
        let count = self.ratings.len();
        proof {
            lemma_rating_sum_bounds(self.ratings@);
        }
        let average = sum / (count as u128);
        self.total_ratings = #[verifier::truncate] (count as u32);
        self.average_rating = Some(average as u32);
        Ok(())
    }

    /// Whether the invoice has been rated.
    pub fn has_ratings(&self) -> (rated: bool)
        ensures
            rated == (self.ratings@.len() > 0),
    {
        self.ratings.len() > 0
    }

    /// The greatest rating that the invoice was given.
    pub fn get_highest_rating(&self) -> (highest: Option<u32>)
        ensures
            highest == if self.ratings@.len() == 0 {
                None::<u32>
            } else {
                Some(highest_rating(self.ratings@))
            },
    {
        if self.ratings.len() == 0 {
            return None;
        }
        let mut highest: u32 = 0;
        let mut i: usize = 0;
        while i < self.ratings.len()
            invariant
                i <= self.ratings.len(),
                highest == highest_rating(self.ratings@.take(i as int)),
            decreases self.ratings.len() - i,
        {
            proof {
                assert(self.ratings@.take(i + 1).drop_last() =~= self.ratings@.take(i as int));
            }
            if self.ratings[i].rating > highest {
                highest = self.ratings[i].rating;
            }
            i += 1;
        }
        proof {
            assert(self.ratings@.take(self.ratings.len() as int) =~= self.ratings@);
        }
        Some(highest)
    }

    /// The least rating that the invoice was given.
    pub fn get_lowest_rating(&self) -> (lowest: Option<u32>)
        ensures
            lowest == if self.ratings@.len() == 0 {
                None::<u32>
            } else {
                Some(lowest_rating(self.ratings@))
            },
    {
        if self.ratings.len() == 0 {
            return None;
        }
        let mut lowest: u32 = u32::MAX;
        let mut i: usize = 0;
        while i < self.ratings.len()
            invariant
                i <= self.ratings.len(),
                lowest == lowest_rating(self.ratings@.take(i as int)),
            decreases self.ratings.len() - i,
        {
            proof {
                assert(self.ratings@.take(i + 1).drop_last() =~= self.ratings@.take(i as int));
            }
            if self.ratings[i].rating < lowest {
                lowest = self.ratings[i].rating;
            }
            i += 1;
        }
        proof {
            assert(self.ratings@.take(self.ratings.len() as int) =~= self.ratings@);
        }
        Some(lowest)
    }
}

/// Whether `after` is `before` with the change of an invoice's status
/// recorded.
pub open spec fn status_change_logged(
    before: AuditLog,
    after: AuditLog,
    ledger: LedgerInfo,
    invoice: InvoiceView,
    actor: Address,
    new_status: InvoiceStatus,
) -> bool {
    logged(
        before,
        after,
        ledger,
        invoice.id,
        AuditOperation::InvoiceStatusChanged,
        actor,
        Some(invoice.status.spec_name()),
        Some(new_status.spec_name()),
        None,
        None,
    )
}

/// Whether `after` is `before` with the funding of an invoice recorded: the
/// change of status first, then the funding.
pub open spec fn funding_logged(
    before: AuditLog,
    after: AuditLog,
    ledger: LedgerInfo,
    invoice: InvoiceView,
    investor: Address,
    funded_amount: i128,
) -> bool {
    exists|between: AuditLog|
        {
            &&& status_change_logged(before, between, ledger, invoice, investor, InvoiceStatus::Funded)
            &&& #[trigger] logged(
                between,
                after,
                ledger,
                invoice.id,
                AuditOperation::InvoiceFunded,
                investor,
                None,
                Some(funded_note(funded_amount)),
                Some(funded_amount),
                None,
            )
        }
}

/// The funding of an invoice adds exactly two entries to the trail of the
/// invoice, the change of status and then the funding, and to no other
/// trail.
pub proof fn lemma_funding_logged(
    before: AuditLog,
    after: AuditLog,
    ledger: LedgerInfo,
    invoice: InvoiceView,
    investor: Address,
    funded_amount: i128,
)
    requires
        before.wf(),
        before.issued + 2 <= u64::MAX,
        funding_logged(before, after, ledger, invoice, investor, funded_amount),
    ensures
        after.wf(),
        after.entries.len() == before.entries.len() + 2,
        after.invoice_trail(invoice.id).len() == before.invoice_trail(invoice.id).len() + 2,
        after.entries[after.entries.len() - 2].operation == AuditOperation::InvoiceStatusChanged,
        after.entries[after.entries.len() - 1].operation == AuditOperation::InvoiceFunded,
        forall|other: Id|
            other != invoice.id ==> #[trigger] after.invoice_trail(other) == before.invoice_trail(other),
{
    let between = choose|between: AuditLog|
        {
            &&& status_change_logged(before, between, ledger, invoice, investor, InvoiceStatus::Funded)
            &&& #[trigger] logged(
                between,
                after,
                ledger,
                invoice.id,
                AuditOperation::InvoiceFunded,
                investor,
                None,
                Some(funded_note(funded_amount)),
                Some(funded_amount),
                None,
            )
        };
    lemma_logged(
        before,
        between,
        ledger,
        invoice.id,
        AuditOperation::InvoiceStatusChanged,
        investor,
        Some(invoice.status.spec_name()),
        Some(InvoiceStatus::Funded.spec_name()),
        None,
        None,
    );
    lemma_logged(
        between,
        after,
        ledger,
        invoice.id,
        AuditOperation::InvoiceFunded,
        investor,
        None,
        Some(funded_note(funded_amount)),
        Some(funded_amount),
        None,
    );
    assert(after.entries.drop_last() == between.entries);
    assert(after.entries[after.entries.len() - 2] == between.entries.last());
}

/// With its ratings consistent before, an invoice has them consistent after
/// a rating was accepted: the average is the floor of the mean, and no rater
/// appears twice.
pub proof fn lemma_rating_keeps_consistency(invoice: InvoiceView, rating: InvoiceRating)
    requires
        invoice.ratings_consistent(),
        invoice.ratings.len() < u32::MAX,
        invoice.rating_refusal(rating.rating, rating.rated_by).is_none(),
    ensures
        invoice.rated(rating).ratings_consistent(),
        invoice.rated(rating).average_rating == Some(
            (rating_sum(invoice.rated(rating).ratings) / (invoice.rated(rating).ratings.len() as int)) as u32,
        ),
{
    let after = invoice.rated(rating);
    assert forall|i: int, j: int|
        0 <= i < after.ratings.len() && 0 <= j < after.ratings.len() && i != j implies after.ratings[i].rated_by
        != after.ratings[j].rated_by by {
        if i == invoice.ratings.len() {
            assert(invoice.ratings[j].rated_by != rating.rated_by);
        } else if j == invoice.ratings.len() {
            assert(invoice.ratings[i].rated_by != rating.rated_by);
        }
    }
}

/// The first tag byte of an invoice identifier.
pub const INVOICE_TAG_0: u8 = 0x1C;

/// The second tag byte of an invoice identifier.
pub const INVOICE_TAG_1: u8 = 0xE0;

/// The invoices with the given identifier.
pub open spec fn invoice_is(id: Id) -> spec_fn(InvoiceView) -> bool {
    |invoice: InvoiceView| invoice.id == id
}

/// The invoices whose average rating is at least `threshold`.
pub open spec fn rated_at_least(threshold: u32) -> spec_fn(InvoiceView) -> bool {
    |invoice: InvoiceView| invoice.average_rating matches Some(average) && average >= threshold
}

/// The invoices that have been rated.
pub open spec fn rated_at_all() -> spec_fn(InvoiceView) -> bool {
    |invoice: InvoiceView| invoice.ratings.len() > 0
}

/// The identifiers of the invoices of `business`, in the order of `records`.
pub open spec fn owned_by(records: Seq<InvoiceView>, business: Address) -> Seq<Id>
    decreases records.len(),
{
    if records.len() == 0 {
        Seq::empty()
    } else if records.last().business == business {
        owned_by(records.drop_last(), business).push(records.last().id)
    } else {
        owned_by(records.drop_last(), business)
    }
}

/// An invoice that was stored is the last of the invoices of its business,
/// and is among the invoices of no other business.
pub proof fn lemma_owned_by_push(records: Seq<InvoiceView>, invoice: InvoiceView, business: Address)
    ensures
        owned_by(records.push(invoice), business) == if invoice.business == business {
            owned_by(records, business).push(invoice.id)
        } else {
            owned_by(records, business)
        },
{
    assert(records.push(invoice).drop_last() =~= records);
}

/// The invoices of a business depend on nothing but the identifiers of the
/// invoices and on which of them are of the business.
pub proof fn lemma_owned_by_same(first: Seq<InvoiceView>, second: Seq<InvoiceView>, business: Address)
    requires
        first.len() == second.len(),
        forall|i: int|
            0 <= i < first.len() ==> (#[trigger] first[i]).id == second[i].id && (first[i].business == business)
                == (second[i].business == business),
    ensures
        owned_by(first, business) == owned_by(second, business),
    decreases first.len(),
{
    if first.len() > 0 {
        assert forall|i: int| 0 <= i < first.drop_last().len() implies (#[trigger] first.drop_last()[i]).id
            == second.drop_last()[i].id && (first.drop_last()[i].business == business) == (second.drop_last()[i].business
            == business) by {
            assert(first[i].id == second[i].id);
        }
        lemma_owned_by_same(first.drop_last(), second.drop_last(), business);
        assert(first[first.len() - 1].id == second[first.len() - 1].id);
    }
}

/// The invoice table as a mathematical value: the invoices in the order in
/// which they were stored, the identifiers in each status bucket in the
/// order in which they entered it, and the number of identifiers issued.
pub struct InvoiceTable {
    pub records: Seq<InvoiceView>,
    pub pending: Seq<Id>,
    pub verified: Seq<Id>,
    pub funded: Seq<Id>,
    pub paid: Seq<Id>,
    pub defaulted: Seq<Id>,
    pub issued: nat,
}

impl InvoiceTable {
    /// The table with nothing in it and no identifier issued.
    pub open spec fn empty() -> InvoiceTable {
        InvoiceTable {
            records: Seq::empty(),
            pending: Seq::empty(),
            verified: Seq::empty(),
            funded: Seq::empty(),
            paid: Seq::empty(),
            defaulted: Seq::empty(),
            issued: 0,
        }
    }

    /// The identifiers of the invoices with the given status.
    pub open spec fn bucket(self, status: InvoiceStatus) -> Seq<Id> {
        match status {
            InvoiceStatus::Pending => self.pending,
            InvoiceStatus::Verified => self.verified,
            InvoiceStatus::Funded => self.funded,
            InvoiceStatus::Paid => self.paid,
            InvoiceStatus::Defaulted => self.defaulted,
        }
    }

    /// The table with the bucket of `status` replaced by `ids`.
    pub open spec fn with_bucket(self, status: InvoiceStatus, ids: Seq<Id>) -> InvoiceTable {
        match status {
            InvoiceStatus::Pending => InvoiceTable { pending: ids, ..self },
            InvoiceStatus::Verified => InvoiceTable { verified: ids, ..self },
            InvoiceStatus::Funded => InvoiceTable { funded: ids, ..self },
            InvoiceStatus::Paid => InvoiceTable { paid: ids, ..self },
            InvoiceStatus::Defaulted => InvoiceTable { defaulted: ids, ..self },
        }
    }

    /// Where the invoice with the given identifier stands in the table, or
    /// -1.
    pub open spec fn position(self, id: Id) -> int {
        first_index(self.records, invoice_is(id))
    }

    /// The invoice with the given identifier.
    pub open spec fn get(self, id: Id) -> Option<InvoiceView> {
        if self.position(id) >= 0 {
            Some(self.records[self.position(id)])
        } else {
            None
        }
    }

    /// The status of the invoice with the given identifier.
    pub open spec fn status_of(self, id: Id) -> Option<InvoiceStatus> {
        match self.get(id) {
            Some(invoice) => Some(invoice.status),
            None => None,
        }
    }

    /// No two invoices share an identifier, every identifier embeds a
    /// counter value that has been issued, and each status bucket lists,
    /// once each, exactly the invoices that have its status.
    pub open spec fn wf(self) -> bool {
        &&& forall|i: int, j: int|
            0 <= i < self.records.len() && 0 <= j < self.records.len() && i != j ==> self.records[i].id
                != self.records[j].id
        &&& forall|i: int|
            0 <= i < self.records.len() ==> u64_at(
                (#[trigger] self.records[i]).id,
                TAGGED_COUNTER_AT as int,
            ) < self.issued
        &&& forall|status: InvoiceStatus, id: Id|
            #![trigger self.bucket(status).contains(id)]
            self.bucket(status).contains(id) <==> self.status_of(id) == Some(status)
        &&& forall|status: InvoiceStatus| (#[trigger] self.bucket(status)).no_duplicates()
    }

    /// Whether another identifier can be issued.
    pub open spec fn has_room(self) -> bool {
        self.issued < u64::MAX
    }

    /// Whether an invoice with this identifier can be stored: the identifier
    /// was issued and is not in the table.
    pub open spec fn admits(self, id: Id) -> bool {
        &&& u64_at(id, TAGGED_COUNTER_AT as int) < self.issued
        &&& self.position(id) == -1
    }

    /// The table after an identifier was issued.
    pub open spec fn issue(self) -> InvoiceTable {
        InvoiceTable { issued: self.issued + 1, ..self }
    }

    /// The table after `invoice` was stored: at the end of the table and of
    /// the bucket of its status.
    pub open spec fn store(self, invoice: InvoiceView) -> InvoiceTable {
        InvoiceTable { records: self.records.push(invoice), ..self }.with_bucket(
            invoice.status,
            self.bucket(invoice.status).push(invoice.id),
        )
    }

    /// The table after the invoice with the identifier of `invoice` was
    /// replaced by `invoice`: where its status changed, its identifier left
    /// the bucket of the old status and went to the end of the bucket of the
    /// new one. A table without such an invoice stays as it is.
    pub open spec fn update(self, invoice: InvoiceView) -> InvoiceTable {
        let at = self.position(invoice.id);
        if at < 0 {
            self
        } else {
            let old_status = self.records[at].status;
            let replaced = InvoiceTable { records: self.records.update(at, invoice), ..self };
            if old_status == invoice.status {
                replaced
            } else {
                replaced.with_bucket(old_status, without(self.bucket(old_status), invoice.id)).with_bucket(
                    invoice.status,
                    self.bucket(invoice.status).push(invoice.id),
                )
            }
        }
    }

    /// The table with every invoice taken out. The identifiers issued stay
    /// issued.
    pub open spec fn cleared(self) -> InvoiceTable {
        InvoiceTable { issued: self.issued, ..InvoiceTable::empty() }
    }

    /// The identifiers in `ids` of the invoices of which `wanted` holds, in
    /// the order of `ids`. An identifier of no invoice is passed over.
    pub open spec fn chosen(self, ids: Seq<Id>, wanted: spec_fn(InvoiceView) -> bool) -> Seq<Id>
        decreases ids.len(),
    {
        if ids.len() == 0 {
            Seq::empty()
        } else {
            let earlier = self.chosen(ids.drop_last(), wanted);
            match self.get(ids.last()) {
                Some(invoice) => if wanted(invoice) {
                    earlier.push(ids.last())
                } else {
                    earlier
                },
                None => earlier,
            }
        }
    }

    /// The funded and then the paid invoices whose average rating is at
    /// least `threshold`.
    pub open spec fn rated_above(self, threshold: u32) -> Seq<Id> {
        self.chosen(self.funded, rated_at_least(threshold)) + self.chosen(
            self.paid,
            rated_at_least(threshold),
        )
    }
}

/// Whether the invoices in `invoices` can be stored, one after the other, in
/// a table that is empty and has issued `issued` identifiers: no two share
/// an identifier, and every identifier embeds a counter value that has been
/// issued.
pub open spec fn restorable(issued: nat, invoices: Seq<InvoiceView>) -> bool {
    &&& forall|i: int, j: int|
        0 <= i < invoices.len() && 0 <= j < invoices.len() && i != j ==> invoices[i].id != invoices[j].id
    &&& forall|i: int|
        0 <= i < invoices.len() ==> u64_at((#[trigger] invoices[i]).id, TAGGED_COUNTER_AT as int) < issued
}

impl InvoiceTable {
    /// The invoices that the identifiers in `ids` are those of, in the order
    /// of `ids`. An identifier of no invoice is passed over.
    pub open spec fn resolved(self, ids: Seq<Id>) -> Seq<InvoiceView>
        decreases ids.len(),
    {
        if ids.len() == 0 {
            Seq::empty()
        } else {
            match self.get(ids.last()) {
                Some(invoice) => self.resolved(ids.drop_last()).push(invoice),
                None => self.resolved(ids.drop_last()),
            }
        }
    }

    /// Every invoice of the table, bucket after bucket: the pending ones,
    /// then the verified, the funded, the paid and the defaulted ones.
    pub open spec fn snapshot(self) -> Seq<InvoiceView> {
        self.resolved(self.pending) + self.resolved(self.verified) + self.resolved(self.funded)
            + self.resolved(self.paid) + self.resolved(self.defaulted)
    }

    /// The table after the invoices in `invoices` were stored, one after the
    /// other.
    pub open spec fn stored_all(self, invoices: Seq<InvoiceView>) -> InvoiceTable
        decreases invoices.len(),
    {
        if invoices.len() == 0 {
            self
        } else {
            self.stored_all(invoices.drop_last()).store(invoices.last())
        }
    }

    /// The table after every invoice was taken out and the invoices in
    /// `invoices` were stored, one after the other.
    pub open spec fn restored(self, invoices: Seq<InvoiceView>) -> InvoiceTable {
        self.cleared().stored_all(invoices)
    }
}

/// Whether every invoice of `before` is in `after` with the status that it
/// had or with one that it may move to.
pub open spec fn steps_legally(before: InvoiceTable, after: InvoiceTable) -> bool {
    forall|id: Id| #[trigger] stays_or_moves(before.get(id), after.get(id))
}

/// Whether an invoice that was `was` and is `is` has the status that it had
/// or one that it may move to. An invoice that was not is free to be.
pub open spec fn stays_or_moves(was: Option<InvoiceView>, is: Option<InvoiceView>) -> bool {
    match was {
        None => true,
        Some(was) => match is {
            Some(is) => was.status == is.status || was.status.may_become(is.status),
            None => false,
        },
    }
}

/// Storing an invoice is a legal step of the table.
pub proof fn lemma_store_steps(table: InvoiceTable, invoice: InvoiceView)
    requires
        table.wf(),
        table.admits(invoice.id),
    ensures
        steps_legally(table, table.store(invoice)),
{
    lemma_store(table, invoice);
    assert forall|id: Id| #[trigger] stays_or_moves(table.get(id), table.store(invoice).get(id)) by {
        if id == invoice.id {
            lemma_first_index(table.records, invoice_is(id));
        }
    }
}

/// Replacing an invoice by one with the same status, or with a status that
/// it may move to, is a legal step of the table.
pub proof fn lemma_update_steps(table: InvoiceTable, invoice: InvoiceView)
    requires
        table.wf(),
        table.get(invoice.id) matches Some(was) ==> (was.status == invoice.status || was.status.may_become(
            invoice.status,
        )),
    ensures
        steps_legally(table, table.update(invoice)),
{
    lemma_update(table, invoice);
    assert forall|id: Id| #[trigger] stays_or_moves(table.get(id), table.update(invoice).get(id)) by {
        if id != invoice.id {
            assert(table.update(invoice).get(id) == table.get(id));
        }
    }
}

/// The steps of an invoice are of four kinds: from pending to verified,
/// from verified to funded, and from funded to paid or to defaulted. A paid
/// or a defaulted invoice stays as it is.
pub proof fn lemma_legal_steps(from: InvoiceStatus, to: InvoiceStatus)
    ensures
        from.may_become(to) <==> ((from == InvoiceStatus::Pending && to == InvoiceStatus::Verified) || (from
            == InvoiceStatus::Verified && to == InvoiceStatus::Funded) || (from == InvoiceStatus::Funded && (to
            == InvoiceStatus::Paid || to == InvoiceStatus::Defaulted))),
        !InvoiceStatus::Paid.may_become(to),
        !InvoiceStatus::Defaulted.may_become(to),
{
}

/// An invoice that is found under an identifier has that identifier.
pub proof fn lemma_invoice_found(table: InvoiceTable, id: Id)
    ensures
        table.get(id) matches Some(invoice) ==> invoice.id == id,
{
    lemma_first_index(table.records, invoice_is(id));
}

/// Storing an invoice that the table admits keeps the table well formed, and
/// the invoice is then found under its identifier; every other lookup gives
/// what it gave.
pub proof fn lemma_store(table: InvoiceTable, invoice: InvoiceView)
    requires
        table.wf(),
        table.admits(invoice.id),
    ensures
        table.store(invoice).wf(),
        table.store(invoice).get(invoice.id) == Some(invoice),
        forall|other: Id| other != invoice.id ==> #[trigger] table.store(invoice).get(other) == table.get(other),
{
    let after = table.store(invoice);
    lemma_first_index(table.records, invoice_is(invoice.id));
    assert forall|i: int, j: int|
        0 <= i < after.records.len() && 0 <= j < after.records.len() && i != j implies after.records[i].id
        != after.records[j].id by {
        if i == table.records.len() {
            assert(!invoice_is(invoice.id)(table.records[j]));
        } else if j == table.records.len() {
            assert(!invoice_is(invoice.id)(table.records[i]));
        }
    }
    lemma_first_index_push(table.records, invoice, invoice_is(invoice.id));
    assert forall|other: Id| other != invoice.id implies #[trigger] after.get(other) == table.get(other) by {
        lemma_first_index_push(table.records, invoice, invoice_is(other));
        lemma_first_index(table.records, invoice_is(other));
    }
    assert(table.status_of(invoice.id).is_none());
    assert forall|status: InvoiceStatus, id: Id|
        #![trigger after.bucket(status).contains(id)]
        after.bucket(status).contains(id) <==> after.status_of(id) == Some(status) by {
        lemma_push_contains(table.bucket(invoice.status), invoice.id, id);
        assert(table.bucket(status).contains(id) <==> table.status_of(id) == Some(status));
        if id != invoice.id {
            assert(after.get(id) == table.get(id));
        }
    }
    assert forall|status: InvoiceStatus| (#[trigger] after.bucket(status)).no_duplicates() by {
        assert(table.bucket(status).no_duplicates());
        if status == invoice.status {
            assert(table.bucket(status).contains(invoice.id) <==> table.status_of(invoice.id) == Some(
                status,
            ));
            lemma_push_no_duplicates(table.bucket(status), invoice.id);
        }
    }
}

/// Replacing an invoice keeps the table well formed; the invoice is then
/// found as replaced, and every other lookup gives what it gave.
pub proof fn lemma_update(table: InvoiceTable, invoice: InvoiceView)
    requires
        table.wf(),
    ensures
        table.update(invoice).wf(),
        table.update(invoice).issued == table.issued,
        table.update(invoice).records.len() == table.records.len(),
        table.get(invoice.id).is_some() ==> table.update(invoice).get(invoice.id) == Some(invoice),
        table.get(invoice.id).is_none() ==> table.update(invoice) == table,
        forall|other: Id| other != invoice.id ==> #[trigger] table.update(invoice).get(other) == table.get(other),
{
    let at = table.position(invoice.id);
    lemma_first_index(table.records, invoice_is(invoice.id));
    if at >= 0 {
        let after = table.update(invoice);
        let old_status = table.records[at].status;
        assert(after.records =~= table.records.update(at, invoice));
        assert forall|id: Id| #[trigger] after.position(id) == table.position(id) by {
            lemma_first_index(table.records, invoice_is(id));
            let found = table.position(id);
            if found >= 0 {
                assert(invoice_is(id)(after.records[found]));
                assert forall|i: int| 0 <= i < found implies !invoice_is(id)(#[trigger] after.records[i]) by {
                    assert(!invoice_is(id)(table.records[i]));
                }
                lemma_first_index_is(after.records, invoice_is(id), found);
            } else {
                assert forall|i: int| 0 <= i < after.records.len() implies !invoice_is(id)(
                    #[trigger] after.records[i],
                ) by {
                    assert(!invoice_is(id)(table.records[i]));
                }
                lemma_first_index_none(after.records, invoice_is(id));
            }
        }
        assert(after.position(invoice.id) == at);
        assert forall|other: Id| other != invoice.id implies #[trigger] after.get(other) == table.get(other) by {
            assert(after.position(other) == table.position(other));
            lemma_first_index(table.records, invoice_is(other));
        }
        assert forall|status: InvoiceStatus, id: Id|
            #![trigger after.bucket(status).contains(id)]
            after.bucket(status).contains(id) <==> after.status_of(id) == Some(status) by {
            assert(table.bucket(status).contains(id) <==> table.status_of(id) == Some(status));
            assert(after.position(id) == table.position(id));
            if id != invoice.id {
                assert(after.get(id) == table.get(id));
            }
            if old_status != invoice.status {
                lemma_without(table.bucket(old_status), invoice.id);
                lemma_push_contains(table.bucket(invoice.status), invoice.id, id);
                assert(without(table.bucket(old_status), invoice.id).contains(id) <==> (id != invoice.id
                    && table.bucket(old_status).contains(id)));
            }
        }
        assert forall|status: InvoiceStatus| (#[trigger] after.bucket(status)).no_duplicates() by {
            assert(table.bucket(status).no_duplicates());
            if old_status != invoice.status {
                lemma_without(table.bucket(old_status), invoice.id);
                assert(table.bucket(invoice.status).contains(invoice.id) <==> table.status_of(invoice.id)
                    == Some(invoice.status));
                if status == invoice.status {
                    lemma_push_no_duplicates(table.bucket(status), invoice.id);
                }
            }
        }
    }
}

/// The invoice table with its status buckets and the invoices of each
/// business.
pub struct InvoiceStorage {
    invoices: Vec<Invoice>,
    by_status: Index<InvoiceStatus, Id>,
    by_business: Index<Address, Id>,
    counter: u64,
}

impl View for InvoiceStorage {
    type V = InvoiceTable;

    closed spec fn view(&self) -> InvoiceTable {
        InvoiceTable {
            records: self.invoices@.map_values(|invoice: Invoice| invoice@),
            pending: self.by_status.list(InvoiceStatus::Pending),
            verified: self.by_status.list(InvoiceStatus::Verified),
            funded: self.by_status.list(InvoiceStatus::Funded),
            paid: self.by_status.list(InvoiceStatus::Paid),
            defaulted: self.by_status.list(InvoiceStatus::Defaulted),
            issued: self.counter as nat,
        }
    }
}

impl InvoiceStorage {
    /// The invariant of the table: that of the table as a mathematical
    /// value, and for each business the list of its invoices, in the order
    /// of the table.
    pub closed spec fn wf(&self) -> bool {
        &&& self@.wf()
        &&& self.by_status.wf()
        &&& self.by_business.wf()
        &&& forall|business: Address| #[trigger]
            self.by_business.list(business) == owned_by(self@.records, business)
    }

    /// What `wf` says of the table as a mathematical value.
    pub proof fn lemma_wf(&self)
        requires
            self.wf(),
        ensures
            self@.wf(),
    {
    }

    /// An empty table.
    pub fn new() -> (table: Self)
        ensures
            table.wf(),
            table@ == InvoiceTable::empty(),
    {
        let table = InvoiceStorage {
            invoices: Vec::new(),
            by_status: Index::new(),
            by_business: Index::new(),
            counter: 0,
        };
        proof {
            assert(table@.records =~= Seq::empty());
            assert forall|status: InvoiceStatus, id: Id|
                #![trigger table@.bucket(status).contains(id)]
                !table@.bucket(status).contains(id) by {}
        }
        table
    }

    /// Whether another identifier can be issued.
    pub fn has_room(&self) -> (room: bool)
        ensures
            room == self@.has_room(),
    {
        self.counter < u64::MAX
    }

    /// Issues the identifier of the next invoice.
    pub fn generate_unique_invoice_id(&mut self, ledger: LedgerInfo) -> (id: Id)
        requires
            old(self).wf(),
            old(self)@.has_room(),
        ensures
            final(self).wf(),
            final(self)@ == old(self)@.issue(),
            final(self)@.admits(id),
            id@ == tagged_id_bytes(INVOICE_TAG_0, INVOICE_TAG_1, ledger.timestamp, old(self)@.issued as u64),
    {
        let id = tagged_id(INVOICE_TAG_0, INVOICE_TAG_1, ledger.timestamp, self.counter);
        self.counter = self.counter + 1;
        proof {
            assert forall|i: int| 0 <= i < self@.records.len() implies !invoice_is(id)(
                #[trigger] self@.records[i],
            ) by {}
            lemma_first_index_none(self@.records, invoice_is(id));
            assert forall|status: InvoiceStatus, other: Id|
                #![trigger self@.bucket(status).contains(other)]
                self@.bucket(status).contains(other) <==> self@.status_of(other) == Some(status) by {
                assert(old(self)@.bucket(status).contains(other) <==> old(self)@.status_of(other) == Some(
                    status,
                ));
            }
            assert forall|status: InvoiceStatus| (#[trigger] self@.bucket(status)).no_duplicates() by {
                assert(old(self)@.bucket(status).no_duplicates());
            }
        }
        id
    }

    fn find(&self, id: &Id) -> (at: Option<usize>)
        ensures
            match at {
                Some(at) => at < self.invoices.len() && at == self@.position(*id),
                None => self@.position(*id) == -1,
            },
    {
        let mut i: usize = 0;
        while i < self.invoices.len()
            invariant
                i <= self.invoices.len(),
                forall|j: int| 0 <= j < i ==> !invoice_is(*id)(#[trigger] self@.records[j]),
            decreases self.invoices.len() - i,
        {
            if self.invoices[i].id.same(id) {
                proof {
                    lemma_first_index_is(self@.records, invoice_is(*id), i as int);
                }
                return Some(i);
            }
            i += 1;
        }
        proof {
            lemma_first_index_none(self@.records, invoice_is(*id));
        }
        None
    }

    fn add_to_status_invoices(&mut self, status: InvoiceStatus, invoice_id: Id)
        requires
            old(self).by_status.wf(),
        ensures
            final(self).by_status.wf(),
            final(self).invoices == old(self).invoices,
            final(self).by_business == old(self).by_business,
            final(self).counter == old(self).counter,
            final(self)@ == old(self)@.with_bucket(status, old(self)@.bucket(status).push(invoice_id)),
    {
        self.by_status.add(status, invoice_id);
    }

    fn remove_from_status_invoices(&mut self, status: InvoiceStatus, invoice_id: &Id)
        requires
            old(self).by_status.wf(),
        ensures
            final(self).by_status.wf(),
            final(self).invoices == old(self).invoices,
            final(self).by_business == old(self).by_business,
            final(self).counter == old(self).counter,
            final(self)@ == old(self)@.with_bucket(status, without(old(self)@.bucket(status), *invoice_id)),
    {
        self.by_status.remove(status, invoice_id);
    }

    fn add_to_business_invoices(&mut self, business: &Address, invoice_id: &Id)
        requires
            old(self).by_business.wf(),
        ensures
            final(self).by_business.wf(),
            final(self).invoices == old(self).invoices,
            final(self).by_status == old(self).by_status,
            final(self).counter == old(self).counter,
            final(self).by_business.list(*business) == old(self).by_business.list(*business).push(*invoice_id),
            forall|other: Address|
                other != *business ==> #[trigger] final(self).by_business.list(other) == old(
                    self,
                ).by_business.list(other),
    {
        self.by_business.add(*business, *invoice_id);
    }

    /// Stores `invoice` at the end of the table, of the invoices of its
    /// business and of the bucket of its status.
    pub fn store_invoice(&mut self, invoice: &Invoice)
        requires
            old(self).wf(),
            old(self)@.admits(invoice.id),
        ensures
            final(self).wf(),
            final(self)@ == old(self)@.store(invoice@),
    {
        self.invoices.push(invoice.clone());
        proof {
            assert(self@.records =~= old(self)@.records.push(invoice@));
        }
        self.add_to_business_invoices(&invoice.business, &invoice.id);
        self.add_to_status_invoices(invoice.status, invoice.id);
        proof {
            lemma_store(old(self)@, invoice@);
            assert forall|business: Address| #[trigger]
                self.by_business.list(business) == owned_by(self@.records, business) by {
                lemma_owned_by_push(old(self)@.records, invoice@, business);
            }
        }
    }

    /// The invoice with the given identifier.
    pub fn get_invoice(&self, invoice_id: &Id) -> (invoice: Option<Invoice>)
        ensures
            match invoice {
                Some(invoice) => self@.get(*invoice_id) == Some(invoice@),
                None => self@.get(*invoice_id).is_none(),
            },
    {
        match self.find(invoice_id) {
            Some(at) => Some(self.invoices[at].clone()),
            None => None,
        }
    }

    /// Replaces the invoice that has the identifier of `invoice` by
    /// `invoice`, and moves the identifier to the bucket of the new status
    /// where the status changed. Without such an invoice nothing changes.
    pub fn update_invoice(&mut self, invoice: &Invoice)
        requires
            old(self).wf(),
        ensures
            final(self).wf(),
            final(self)@ == old(self)@.update(invoice@),
    {
        proof {
            lemma_update(self@, invoice@);
        }
        match self.find(&invoice.id) {
            Some(at) => {
                let old_status = self.invoices[at].status;
                let old_business = self.invoices[at].business;
                proof {
                    lemma_first_index(self@.records, invoice_is(invoice.id));
                }
                self.invoices.set(at, invoice.clone());
                proof {
                    assert(self@.records =~= old(self)@.records.update(at as int, invoice@));
                    assert forall|business: Address|
                        business != old_business && business != invoice.business implies #[trigger] owned_by(
                        self@.records,
                        business,
                    ) == owned_by(old(self)@.records, business) by {
                        lemma_owned_by_same(old(self)@.records, self@.records, business);
                    }
                    if old_business == invoice.business {
                        lemma_owned_by_same(old(self)@.records, self@.records, old_business);
                    }
                }
                if !old_business.same(&invoice.business) {
                    let left = self.owned(&old_business);
                    self.by_business.set(old_business, left);
                    let joined = self.owned(&invoice.business);
                    self.by_business.set(invoice.business, joined);
                }
                if old_status != invoice.status {
                    self.remove_from_status_invoices(old_status, &invoice.id);
                    self.add_to_status_invoices(invoice.status, invoice.id);
                }
            },
            None => {},
        }
    }

    /// The identifiers of the invoices of `business`, in the order in which
    /// they were stored.
    pub fn get_business_invoices(&self, business: &Address) -> (ids: Vec<Id>)
        requires
            self.wf(),
        ensures
            ids@ == owned_by(self@.records, *business),
    {
        self.by_business.get(business)
    }

    fn owned(&self, business: &Address) -> (ids: Vec<Id>)
        ensures
            ids@ == owned_by(self@.records, *business),
    {
        let mut ids: Vec<Id> = Vec::new();
        let mut i: usize = 0;
        while i < self.invoices.len()
            invariant
                i <= self.invoices.len(),
                ids@ == owned_by(self@.records.take(i as int), *business),
            decreases self.invoices.len() - i,
        {
            proof {
                assert(self@.records.take(i + 1).drop_last() =~= self@.records.take(i as int));
            }
            if self.invoices[i].business.same(business) {
                ids.push(self.invoices[i].id);
            }
            i += 1;
        }
        proof {
            assert(self@.records.take(self.invoices.len() as int) =~= self@.records);
        }
        ids
    }

    /// The identifiers of the invoices with the given status, in the order
    /// in which they reached it.
    pub fn get_invoices_by_status(&self, status: &InvoiceStatus) -> (ids: Vec<Id>)
        requires
            self.wf(),
        ensures
            ids@ == self@.bucket(*status),
    {
        self.by_status.get(status)
    }

    fn rated_among(&self, ids: &Vec<Id>, threshold: u32) -> (rated: Vec<Id>)
        ensures
            rated@ == self@.chosen(ids@, rated_at_least(threshold)),
    {
        let mut rated: Vec<Id> = Vec::new();
        let mut i: usize = 0;
        while i < ids.len()
            invariant
                i <= ids.len(),
                rated@ == self@.chosen(ids@.take(i as int), rated_at_least(threshold)),
            decreases ids.len() - i,
        {
            proof {
                assert(ids@.take(i + 1).drop_last() =~= ids@.take(i as int));
            }
            if let Some(invoice) = self.get_invoice(&ids[i]) {
                if let Some(average) = invoice.average_rating {
                    if average >= threshold {
                        rated.push(ids[i]);
                    }
                }
            }
            i += 1;
        }
        proof {
            assert(ids@.take(ids.len() as int) =~= ids@);
        }
        rated
    }

    fn count_rated(&self, ids: &Vec<Id>) -> (count: usize)
        ensures
            count == self@.chosen(ids@, rated_at_all()).len(),
    {
        let mut count: usize = 0;
        let mut i: usize = 0;
        while i < ids.len()
            invariant
                i <= ids.len(),
                count <= i,
                count == self@.chosen(ids@.take(i as int), rated_at_all()).len(),
            decreases ids.len() - i,
        {
            proof {
                assert(ids@.take(i + 1).drop_last() =~= ids@.take(i as int));
            }
            if let Some(invoice) = self.get_invoice(&ids[i]) {
                if invoice.has_ratings() {
                    count += 1;
                }
            }
            i += 1;
        }
        proof {
            assert(ids@.take(ids.len() as int) =~= ids@);
        }
        count
    }

    /// The funded and then the paid invoices whose average rating is at
    /// least `threshold`.
    pub fn get_invoices_with_rating_above(&self, threshold: u32) -> (ids: Vec<Id>)
        requires
            self.wf(),
        ensures
            ids@ == self@.rated_above(threshold),
    {
        let funded = self.get_invoices_by_status(&InvoiceStatus::Funded);
        let paid = self.get_invoices_by_status(&InvoiceStatus::Paid);
        let mut high_rated_invoices = self.rated_among(&funded, threshold);
        let mut rest = self.rated_among(&paid, threshold);
        high_rated_invoices.append(&mut rest);
        high_rated_invoices
    }

    /// The invoices of `business` whose average rating is at least
    /// `threshold`.
    pub fn get_business_invoices_with_rating_above(&self, business: &Address, threshold: u32) -> (ids: Vec<Id>)
        requires
            self.wf(),
        ensures
            ids@ == self@.chosen(owned_by(self@.records, *business), rated_at_least(threshold)),
    {
        let business_invoices = self.get_business_invoices(business);
        self.rated_among(&business_invoices, threshold)
    }

    /// How many of the funded and of the paid invoices have been rated: the
    /// low 32 bits of the number.
    pub fn get_invoices_with_ratings_count(&self) -> (count: u32)
        requires
            self.wf(),
        ensures
            count == (self@.chosen(self@.funded, rated_at_all()).len() + self@.chosen(
                self@.paid,
                rated_at_all(),
            ).len()) as u32,
    {
        let funded = self.get_invoices_by_status(&InvoiceStatus::Funded);
        let paid = self.get_invoices_by_status(&InvoiceStatus::Paid);
        let total: u128 = self.count_rated(&funded) as u128 + self.count_rated(&paid) as u128;
        #[verifier::truncate]
        (total as u32)
    }

    /// Appends to `into` the invoices that the identifiers in `ids` are
    /// those of.
    pub fn gather(&self, ids: &Vec<Id>, into: &mut Vec<Invoice>)
        ensures
            final(into)@.map_values(|invoice: Invoice| invoice@) == old(into)@.map_values(
                |invoice: Invoice| invoice@,
            ) + self@.resolved(ids@),
    {
        let mut i: usize = 0;
        proof {
            assert(into@.map_values(|invoice: Invoice| invoice@) =~= old(into)@.map_values(
                |invoice: Invoice| invoice@,
            ) + self@.resolved(ids@.take(0)));
        }
        while i < ids.len()
            invariant
                i <= ids.len(),
                into@.map_values(|invoice: Invoice| invoice@) == old(into)@.map_values(
                    |invoice: Invoice| invoice@,
                ) + self@.resolved(ids@.take(i as int)),
            decreases ids.len() - i,
        {
            proof {
                assert(ids@.take(i + 1).drop_last() =~= ids@.take(i as int));
            }
            let ghost before = into@.map_values(|invoice: Invoice| invoice@);
            if let Some(invoice) = self.get_invoice(&ids[i]) {
                into.push(invoice);
                proof {
                    assert(into@.map_values(|invoice: Invoice| invoice@) =~= before.push(invoice@));
                    assert(before.push(invoice@) =~= old(into)@.map_values(|invoice: Invoice| invoice@)
                        + self@.resolved(ids@.take(i + 1)));
                }
            }
            i += 1;
        }
        proof {
            assert(ids@.take(ids.len() as int) =~= ids@);
        }
    }

    /// Every invoice of the table, bucket after bucket: the pending ones,
    /// then the verified, the funded, the paid and the defaulted ones.
    pub fn snapshot(&self) -> (invoices: Vec<Invoice>)
        requires
            self.wf(),
        ensures
            invoices@.map_values(|invoice: Invoice| invoice@) == self@.snapshot(),
    {
        let mut all_invoices: Vec<Invoice> = Vec::new();
        proof {
            assert(all_invoices@.map_values(|invoice: Invoice| invoice@) =~= Seq::empty());
        }
        let pending = self.get_invoices_by_status(&InvoiceStatus::Pending);
        self.gather(&pending, &mut all_invoices);
        let verified = self.get_invoices_by_status(&InvoiceStatus::Verified);
        self.gather(&verified, &mut all_invoices);
        let funded = self.get_invoices_by_status(&InvoiceStatus::Funded);
        self.gather(&funded, &mut all_invoices);
        let paid = self.get_invoices_by_status(&InvoiceStatus::Paid);
        self.gather(&paid, &mut all_invoices);
        let defaulted = self.get_invoices_by_status(&InvoiceStatus::Defaulted);
        self.gather(&defaulted, &mut all_invoices);
        proof {
            assert(all_invoices@.map_values(|invoice: Invoice| invoice@) =~= self@.snapshot());
        }
        all_invoices
    }

    /// Whether the invoices in `invoices` can take the place of those in the
    /// table: no two share an identifier, and the table has issued every
    /// identifier.
    pub fn can_restore(&self, invoices: &Vec<Invoice>) -> (possible: bool)
        ensures
            possible == restorable(self@.issued, invoices@.map_values(|invoice: Invoice| invoice@)),
    {
        let ghost views = invoices@.map_values(|invoice: Invoice| invoice@);
        let mut i: usize = 0;
        while i < invoices.len()
            invariant
                i <= invoices.len(),
                views == invoices@.map_values(|invoice: Invoice| invoice@),
                forall|k: int|
                    0 <= k < i ==> u64_at((#[trigger] views[k]).id, TAGGED_COUNTER_AT as int) < self.counter,
                forall|k: int, j: int| 0 <= k < i && 0 <= j < k ==> views[k].id != views[j].id,
            decreases invoices.len() - i,
        {
            if read_u64(&invoices[i].id, TAGGED_COUNTER_AT) >= self.counter {
                proof {
                    assert(!(u64_at(views[i as int].id, TAGGED_COUNTER_AT as int) < self@.issued));
                }
                return false;
            }
            let mut j: usize = 0;
            while j < i
                invariant
                    j <= i,
                    i < invoices.len(),
                    views == invoices@.map_values(|invoice: Invoice| invoice@),
                    forall|k: int| 0 <= k < j ==> views[i as int].id != views[k].id,
                decreases i - j,
            {
                if invoices[i].id.same(&invoices[j].id) {
                    proof {
                        assert(views[i as int].id == views[j as int].id);
                    }
                    return false;
                }
                j += 1;
            }
            i += 1;
        }
        proof {
            assert forall|a: int, b: int|
                0 <= a < views.len() && 0 <= b < views.len() && a != b implies views[a].id != views[b].id by {
                if a < b {
                    assert(views[b].id != views[a].id);
                }
            }
        }
        true
    }

    /// Puts the invoices in `invoices` in the place of those in the table:
    /// takes every invoice out, then stores those in `invoices`, one after
    /// the other.
    pub fn restore(&mut self, invoices: &Vec<Invoice>)
        requires
            old(self).wf(),
            restorable(old(self)@.issued, invoices@.map_values(|invoice: Invoice| invoice@)),
        ensures
            final(self).wf(),
            final(self)@ == old(self)@.restored(invoices@.map_values(|invoice: Invoice| invoice@)),
    {
        let ghost views = invoices@.map_values(|invoice: Invoice| invoice@);
        self.clear();
        proof {
            assert forall|k: int| 0 <= k < views.len() implies self@.position(#[trigger] views[k].id) == -1 by {
                lemma_first_index_none(self@.records, invoice_is(views[k].id));
            }
        }
        let mut i: usize = 0;
        while i < invoices.len()
            invariant
                i <= invoices.len(),
                self.wf(),
                views == invoices@.map_values(|invoice: Invoice| invoice@),
                restorable(self@.issued, views),
                self@ == old(self)@.cleared().stored_all(views.take(i as int)),
                forall|k: int| i <= k < views.len() ==> self@.position(#[trigger] views[k].id) == -1,
            decreases invoices.len() - i,
        {
            proof {
                assert(views.take(i + 1).drop_last() =~= views.take(i as int));
                lemma_store(self@, views[i as int]);
                assert forall|k: int| i + 1 <= k < views.len() implies self@.store(views[i as int]).position(
                    #[trigger] views[k].id,
                ) == -1 by {
                    assert(self@.store(views[i as int]).get(views[k].id) == self@.get(views[k].id));
                    lemma_first_index(self@.store(views[i as int]).records, invoice_is(views[k].id));
                }
            }
            self.store_invoice(&invoices[i]);
            i += 1;
        }
        proof {
            assert(views.take(views.len() as int) =~= views);
        }
    }

    /// Takes every invoice out of the table and out of the buckets.
    pub fn clear(&mut self)
        requires
            old(self).wf(),
        ensures
            final(self).wf(),
            final(self)@ == old(self)@.cleared(),
    {
        self.invoices = Vec::new();
        self.by_status = Index::new();
        self.by_business = Index::new();
        proof {
            assert(self@.records =~= Seq::empty());
            assert forall|status: InvoiceStatus, id: Id|
                #![trigger self@.bucket(status).contains(id)]
                !self@.bucket(status).contains(id) by {}
        }
    }
}

impl Invoice {
    /// A pending invoice under an identifier issued by `invoices`, created
    /// at `ledger`. Its creation is recorded in `audit`.
    pub fn new(
        invoices: &mut InvoiceStorage,
        audit: &mut AuditStorage,
        ledger: LedgerInfo,
        business: Address,
        amount: i128,
        currency: Address,
        due_date: u64,
        description: String,
    ) -> (invoice: Self)
        requires
            old(invoices).wf(),
            old(invoices)@.has_room(),
            old(audit).wf(),
            old(audit)@.has_room(),
        ensures
            final(invoices).wf(),
            final(invoices)@ == old(invoices)@.issue(),
            final(invoices)@.admits(invoice.id),
            final(audit).wf(),
            invoice@.consistent(),
            invoice@ == (InvoiceView {
                id: invoice.id,
                business,
                amount,
                currency,
                due_date,
                status: InvoiceStatus::Pending,
                created_at: ledger.timestamp,
                description,
                funded_amount: 0,
                funded_at: None,
                investor: None,
                settled_at: None,
                average_rating: None,
                total_ratings: 0,
                ratings: Seq::empty(),
            }),
            invoice.id@ == tagged_id_bytes(
                INVOICE_TAG_0,
                INVOICE_TAG_1,
                ledger.timestamp,
                old(invoices)@.issued as u64,
            ),
            logged(
                old(audit)@,
                final(audit)@,
                ledger,
                invoice.id,
                AuditOperation::InvoiceCreated,
                business,
                None,
                Some(created_note(amount, due_date)),
                Some(amount),
                Some(description@),
            ),
    {
        let id = invoices.generate_unique_invoice_id(ledger);
        let invoice = Invoice {
            id,
            business,
            amount,
            currency,
            due_date,
            status: InvoiceStatus::Pending,
            created_at: ledger.timestamp,
            description,
            funded_amount: 0,
            funded_at: None,
            investor: None,
            settled_at: None,
            average_rating: None,
            total_ratings: 0,
            ratings: Vec::new(),
        };
        log_invoice_created(audit, ledger, &invoice);
        invoice
    }
}

/// Whether every invoice in `invoices` is an invoice of `table` with the
/// status `status`, and no two of them share an identifier.
pub open spec fn drawn_from(table: InvoiceTable, invoices: Seq<InvoiceView>, status: InvoiceStatus) -> bool {
    &&& forall|k: int|
        0 <= k < invoices.len() ==> (#[trigger] invoices[k]).status == status && table.get(invoices[k].id)
            == Some(invoices[k])
    &&& forall|i: int, j: int|
        0 <= i < invoices.len() && 0 <= j < invoices.len() && i != j ==> invoices[i].id != invoices[j].id
}

/// What the identifiers of a bucket resolve to: one invoice for each
/// identifier, with that identifier and the status of the bucket.
pub proof fn lemma_resolved(table: InvoiceTable, status: InvoiceStatus, ids: Seq<Id>)
    requires
        table.wf(),
        ids.no_duplicates(),
        forall|k: int| 0 <= k < ids.len() ==> table.status_of(#[trigger] ids[k]) == Some(status),
    ensures
        table.resolved(ids).len() == ids.len(),
        forall|k: int| 0 <= k < ids.len() ==> (#[trigger] table.resolved(ids)[k]).id == ids[k],
        drawn_from(table, table.resolved(ids), status),
    decreases ids.len(),
{
    if ids.len() > 0 {
        let front = ids.drop_last();
        assert forall|k: int| 0 <= k < front.len() implies table.status_of(#[trigger] front[k]) == Some(
            status,
        ) by {
            assert(front[k] == ids[k]);
        }
        lemma_resolved(table, status, front);
        let last = ids.last();
        assert(table.status_of(ids[ids.len() - 1]) == Some(status));
        lemma_invoice_found(table, last);
        let resolved = table.resolved(ids);
        assert forall|k: int| 0 <= k < ids.len() implies (#[trigger] resolved[k]).id == ids[k] by {
            if k < front.len() {
                assert(resolved[k] == table.resolved(front)[k]);
            }
        }
        assert forall|i: int, j: int|
            0 <= i < resolved.len() && 0 <= j < resolved.len() && i != j implies resolved[i].id
            != resolved[j].id by {
            assert(resolved[i].id == ids[i]);
            assert(resolved[j].id == ids[j]);
        }
        assert forall|k: int| 0 <= k < resolved.len() implies (#[trigger] resolved[k]).status == status
            && table.get(resolved[k].id) == Some(resolved[k]) by {
            if k < front.len() {
                assert(resolved[k] == table.resolved(front)[k]);
            }
        }
    }
}

/// Storing invoices that no two of which share an identifier, one after the
/// other, in an empty table that has issued their identifiers gives a
/// well-formed table that holds exactly these invoices, in their order.
pub proof fn lemma_stored_all(table: InvoiceTable, invoices: Seq<InvoiceView>)
    requires
        restorable(table.issued, invoices),
    ensures
        table.restored(invoices).wf(),
        table.restored(invoices).records == invoices,
        table.restored(invoices).issued == table.issued,
    decreases invoices.len(),
{
    let empty = table.cleared();
    if invoices.len() == 0 {
        assert(empty.stored_all(invoices) == empty);
        assert forall|status: InvoiceStatus, id: Id|
            #![trigger empty.bucket(status).contains(id)]
            empty.bucket(status).contains(id) <==> empty.status_of(id) == Some(status) by {}
        assert(empty.records =~= invoices);
    } else {
        let front = invoices.drop_last();
        let last = invoices.last();
        assert forall|i: int| 0 <= i < front.len() implies u64_at(
            (#[trigger] front[i]).id,
            TAGGED_COUNTER_AT as int,
        ) < table.issued by {
            assert(front[i] == invoices[i]);
        }
        lemma_stored_all(table, front);
        let before = table.restored(front);
        assert forall|i: int| 0 <= i < before.records.len() implies !invoice_is(last.id)(
            #[trigger] before.records[i],
        ) by {
            assert(invoices[i].id != invoices[invoices.len() - 1].id);
        }
        lemma_first_index_none(before.records, invoice_is(last.id));
        assert(u64_at(invoices[invoices.len() - 1].id, TAGGED_COUNTER_AT as int) < table.issued);
        lemma_store(before, last);
        assert(before.store(last).records =~= invoices);
    }
}

/// A backup brings back what it was made of: the invoices of a well-formed
/// table, taken bucket after bucket, can be restored, and in the restored
/// table every identifier is that of the invoice that it was the identifier
/// of, with its amount, its status and everything else.
pub proof fn lemma_backup_round_trip(table: InvoiceTable)
    requires
        table.wf(),
    ensures
        restorable(table.issued, table.snapshot()),
        table.restored(table.snapshot()).wf(),
        forall|id: Id| #[trigger] table.restored(table.snapshot()).get(id) == table.get(id),
        forall|k: int|
            0 <= k < table.snapshot().len() ==> table.get((#[trigger] table.snapshot()[k]).id) == Some(
                table.snapshot()[k],
            ),
{
    let pending = table.resolved(table.pending);
    let verified = table.resolved(table.verified);
    let funded = table.resolved(table.funded);
    let paid = table.resolved(table.paid);
    let defaulted = table.resolved(table.defaulted);
    let snapshot = table.snapshot();
    assert forall|status: InvoiceStatus| #[trigger]
        drawn_from(table, table.resolved(table.bucket(status)), status) && table.resolved(
            table.bucket(status),
        ).len() == table.bucket(status).len() && (forall|k: int|
            0 <= k < table.bucket(status).len() ==> (#[trigger] table.resolved(table.bucket(status))[k]).id
                == table.bucket(status)[k]) by {
        let ids = table.bucket(status);
        assert(ids.no_duplicates());
        assert forall|k: int| 0 <= k < ids.len() implies table.status_of(#[trigger] ids[k]) == Some(status) by {
            assert(table.bucket(status).contains(ids[k]));
        }
        lemma_resolved(table, status, ids);
    }
    assert(drawn_from(table, table.resolved(table.bucket(InvoiceStatus::Pending)), InvoiceStatus::Pending));
    assert(drawn_from(table, table.resolved(table.bucket(InvoiceStatus::Verified)), InvoiceStatus::Verified));
    assert(drawn_from(table, table.resolved(table.bucket(InvoiceStatus::Funded)), InvoiceStatus::Funded));
    assert(drawn_from(table, table.resolved(table.bucket(InvoiceStatus::Paid)), InvoiceStatus::Paid));
    assert(drawn_from(
        table,
        table.resolved(table.bucket(InvoiceStatus::Defaulted)),
        InvoiceStatus::Defaulted,
    ));
    assert forall|k: int| 0 <= k < snapshot.len() implies table.get((#[trigger] snapshot[k]).id) == Some(
        snapshot[k],
    ) by {
        if k < pending.len() {
            assert(snapshot[k] == pending[k]);
        } else if k < pending.len() + verified.len() {
            assert(snapshot[k] == verified[k - pending.len()]);
        } else if k < pending.len() + verified.len() + funded.len() {
            assert(snapshot[k] == funded[k - pending.len() - verified.len()]);
        } else if k < pending.len() + verified.len() + funded.len() + paid.len() {
            assert(snapshot[k] == paid[k - pending.len() - verified.len() - funded.len()]);
        } else {
            assert(snapshot[k] == defaulted[k - pending.len() - verified.len() - funded.len() - paid.len()]);
        }
    }
    assert forall|i: int, j: int|
        0 <= i < snapshot.len() && 0 <= j < snapshot.len() && i != j implies snapshot[i].id
        != snapshot[j].id by {
        lemma_segment(table, i);
        lemma_segment(table, j);
        if snapshot[i].id == snapshot[j].id {
            assert(table.get(snapshot[i].id) == Some(snapshot[i]));
            assert(table.get(snapshot[j].id) == Some(snapshot[j]));
        }
    }
    assert forall|k: int| 0 <= k < snapshot.len() implies u64_at(
        (#[trigger] snapshot[k]).id,
        TAGGED_COUNTER_AT as int,
    ) < table.issued by {
        lemma_first_index(table.records, invoice_is(snapshot[k].id));
        assert(table.get(snapshot[k].id) == Some(snapshot[k]));
    }
    lemma_stored_all(table, snapshot);
    let restored = table.restored(snapshot);
    assert forall|id: Id| #[trigger] restored.get(id) == table.get(id) by {
        lemma_first_index(snapshot, invoice_is(id));
        let found = first_index(snapshot, invoice_is(id));
        if found >= 0 {
            assert(table.get(snapshot[found].id) == Some(snapshot[found]));
        } else {
            if table.get(id).is_some() {
                let invoice = table.get(id).unwrap();
                lemma_invoice_found(table, id);
                let ids = table.bucket(invoice.status);
                assert(table.status_of(id) == Some(invoice.status));
                assert(ids.contains(id));
                let m = choose|m: int| 0 <= m < ids.len() && ids[m] == id;
                let drawn = table.resolved(ids);
                assert(drawn[m].id == id);
                lemma_in_snapshot(table, invoice.status, m);
            }
        }
    }
}

/// Where an invoice of the snapshot comes from: the invoice at `k` is an
/// invoice of one of the five buckets, at the place in it that is left when
/// the sizes of the buckets before are taken off.
proof fn lemma_segment(table: InvoiceTable, k: int)
    requires
        0 <= k < table.snapshot().len(),
    ensures
        exists|status: InvoiceStatus, m: int|
            0 <= m < table.resolved(table.bucket(status)).len() && #[trigger] table.resolved(
                table.bucket(status),
            )[m] == table.snapshot()[k] && k == m + offset(table, status),
{
    let pending = table.resolved(table.pending);
    let verified = table.resolved(table.verified);
    let funded = table.resolved(table.funded);
    let paid = table.resolved(table.paid);
    let defaulted = table.resolved(table.defaulted);
    let snapshot = table.snapshot();
    if k < pending.len() {
        assert(table.resolved(table.bucket(InvoiceStatus::Pending))[k] == snapshot[k]);
    } else if k < pending.len() + verified.len() {
        assert(table.resolved(table.bucket(InvoiceStatus::Verified))[k - pending.len()] == snapshot[k]);
    } else if k < pending.len() + verified.len() + funded.len() {
        assert(table.resolved(table.bucket(InvoiceStatus::Funded))[k - pending.len() - verified.len()]
            == snapshot[k]);
    } else if k < pending.len() + verified.len() + funded.len() + paid.len() {
        assert(table.resolved(table.bucket(InvoiceStatus::Paid))[k - pending.len() - verified.len()
            - funded.len()] == snapshot[k]);
    } else {
        assert(table.resolved(table.bucket(InvoiceStatus::Defaulted))[k - pending.len() - verified.len()
            - funded.len() - paid.len()] == snapshot[k]);
    }
}

/// Where the invoices of a bucket start in the snapshot.
pub open spec fn offset(table: InvoiceTable, status: InvoiceStatus) -> int {
    let pending = table.resolved(table.pending).len() as int;
    let verified = table.resolved(table.verified).len() as int;
    let funded = table.resolved(table.funded).len() as int;
    let paid = table.resolved(table.paid).len() as int;
    match status {
        InvoiceStatus::Pending => 0,
        InvoiceStatus::Verified => pending,
        InvoiceStatus::Funded => pending + verified,
        InvoiceStatus::Paid => pending + verified + funded,
        InvoiceStatus::Defaulted => pending + verified + funded + paid,
    }
}

/// The invoice at `m` of a bucket is in the snapshot, at `m` past the start
/// of the bucket.
proof fn lemma_in_snapshot(table: InvoiceTable, status: InvoiceStatus, m: int)
    requires
        0 <= m < table.resolved(table.bucket(status)).len(),
    ensures
        0 <= m + offset(table, status) < table.snapshot().len(),
        table.snapshot()[m + offset(table, status)] == table.resolved(table.bucket(status))[m],
{
}

} // verus!
