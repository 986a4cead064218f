//! Investments: the record of who funded which invoice.

use vstd::prelude::*;
use crate::identifiers::{tagged_id, tagged_id_bytes, TAGGED_COUNTER_AT};
use crate::keys::{first_index, lemma_first_index, lemma_first_index_is, lemma_first_index_none, Key};
use crate::table::{lemma_row_resolves, lemma_rows_update, Record, Rows, Table};
use crate::types::{Address, Id, LedgerInfo};

verus! {

/// The first tag byte of an investment identifier.
pub const INVESTMENT_TAG_0: u8 = 0x1A;

/// The second tag byte of an investment identifier.
pub const INVESTMENT_TAG_1: u8 = 0x4E;

/// Where an investment stands.
#[derive(Clone, Copy, Debug, PartialEq, Eq, Hash, Structural)]
pub enum InvestmentStatus {
    Active,
    Withdrawn,
    Completed,
}

/// The funding of an invoice by an investor.
#[derive(Clone, Copy, Debug, PartialEq, Eq)]
pub struct Investment {
    pub investment_id: Id,
    pub invoice_id: Id,
    pub investor: Address,
    pub amount: i128,
    pub funded_at: u64,
    pub status: InvestmentStatus,
}

impl Record for Investment {
    open spec fn key(&self) -> Id {
        self.investment_id
    }

    fn key_of(&self) -> (id: Id) {
        self.investment_id
    }

    fn duplicate(&self) -> (copy: Self) {
        *self
    }
}

/// The investments in the given invoice.
pub open spec fn invested_in(invoice_id: Id) -> spec_fn(Investment) -> bool {
    |investment: Investment| investment.invoice_id == invoice_id
}

/// The first investment in the given invoice.
pub open spec fn investment_in(investments: Rows<Investment>, invoice_id: Id) -> Option<Investment> {
    let at = first_index(investments.records, invested_in(invoice_id));
    if at >= 0 {
        Some(investments.records[at])
    } else {
        None
    }
}

/// The investment in an invoice, replaced by one in the same invoice, is
/// then the investment in that invoice.
pub proof fn lemma_investment_replaced(investments: Rows<Investment>, invoice_id: Id, changed: Investment)
    requires
        investments.wf(TAGGED_COUNTER_AT as int),
        investment_in(investments, invoice_id) matches Some(investment) && investment.investment_id
            == changed.investment_id,
        changed.invoice_id == invoice_id,
    ensures
        investment_in(investments.update(changed), invoice_id) == Some(changed),
{
    let at = first_index(investments.records, invested_in(invoice_id));
    lemma_first_index(investments.records, invested_in(invoice_id));
    lemma_row_resolves(investments, TAGGED_COUNTER_AT as int, at);
    lemma_rows_update(investments, TAGGED_COUNTER_AT as int, changed);
    let after = investments.update(changed);
    assert(after.records =~= investments.records.update(at, changed));
    assert(invested_in(invoice_id)(after.records[at]));
    assert forall|i: int| 0 <= i < at implies !invested_in(invoice_id)(#[trigger] after.records[i]) by {
        assert(!invested_in(invoice_id)(investments.records[i]));
    }
    lemma_first_index_is(after.records, invested_in(invoice_id), at);
}

/// The table of investments.
pub struct InvestmentStorage {
    table: Table<Investment, 10>,
}

impl View for InvestmentStorage {
    type V = Rows<Investment>;

    closed spec fn view(&self) -> Rows<Investment> {
        self.table@
    }
}

impl InvestmentStorage {
    /// The invariant of the table.
    pub closed spec fn wf(&self) -> bool {
        self.table.wf()
    }

    /// What `wf` says of the table as a mathematical value.
    pub proof fn lemma_wf(&self)
        requires
            self.wf(),
        ensures
            self@.wf(TAGGED_COUNTER_AT as int),
    {
    }

    /// A table without investments.
    pub fn new() -> (table: Self)
        ensures
            table.wf(),
            table@ == (Rows::<Investment> { records: Seq::empty(), issued: 0 }),
    {
        InvestmentStorage { table: Table::new(0) }
    }

    /// Whether another identifier can be issued.
    pub fn has_room(&self) -> (room: bool)
        ensures
            room == self@.has_room(),
    {
        self.table.has_room()
    }

    /// Issues the identifier of the next investment.
    pub fn generate_unique_investment_id(&mut self, ledger: LedgerInfo) -> (id: Id)
        requires
            old(self).wf(),
            old(self)@.has_room(),
        ensures
            final(self).wf(),
            final(self)@ == old(self)@.issue(),
            final(self)@.admits(id, TAGGED_COUNTER_AT as int),
            id@ == tagged_id_bytes(
                INVESTMENT_TAG_0,
                INVESTMENT_TAG_1,
                ledger.timestamp,
                old(self)@.issued as u64,
            ),
    {
        let counter = self.table.reserve();
        tagged_id(INVESTMENT_TAG_0, INVESTMENT_TAG_1, ledger.timestamp, counter)
    }

    /// Stores `investment` at the end of the table.
    pub fn store_investment(&mut self, investment: &Investment)
        requires
            old(self).wf(),
            old(self)@.admits(investment.investment_id, TAGGED_COUNTER_AT as int),
        ensures
            final(self).wf(),
            final(self)@ == old(self)@.store(*investment),
    {
        self.table.store(investment);
    }

    /// The investment with the given identifier.
    pub fn get_investment(&self, investment_id: &Id) -> (investment: Option<Investment>)
        ensures
            investment == self@.get(*investment_id),
    {
        self.table.get(investment_id)
    }

    /// The first investment in the given invoice.
    pub fn get_investment_by_invoice(&self, invoice_id: &Id) -> (investment: Option<Investment>)
        ensures
            investment == investment_in(self@, *invoice_id),
    {
        let mut i: usize = 0;
        while i < self.table.len()
            invariant
                i <= self.table@.records.len(),
                forall|j: int| 0 <= j < i ==> !invested_in(*invoice_id)(#[trigger] self.table@.records[j]),
            decreases self.table@.records.len() - i,
        {
            let investment = self.table.row(i);
            if investment.invoice_id.same(invoice_id) {
                proof {
                    lemma_first_index_is(self.table@.records, invested_in(*invoice_id), i as int);
                }
                return Some(*investment);
            }
            i += 1;
        }
        proof {
            lemma_first_index_none(self.table@.records, invested_in(*invoice_id));
        }
        None
    }

    /// Replaces the investment that has the identifier of `investment` by
    /// `investment`. Without such an investment nothing changes.
    pub fn update_investment(&mut self, investment: &Investment)
        requires
            old(self).wf(),
        ensures
            final(self).wf(),
            final(self)@ == old(self)@.update(*investment),
    {
        self.table.update(investment);
    }
}

} // verus!
