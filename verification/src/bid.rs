//! Bids of investors on invoices.

use vstd::prelude::*;
use crate::identifiers::{bid_id, bid_id_bytes, BID_COUNTER_AT};
use crate::keys::{Index, Key};
use crate::table::{lemma_row_found, lemma_rows_update, Record, Rows, Table};
use crate::types::{Address, Id};

verus! {

/// Where a bid stands.
#[derive(Clone, Copy, Debug, PartialEq, Eq, Hash, Structural)]
pub enum BidStatus {
    Placed,
    Withdrawn,
    Accepted,
}

/// An investor's offer to fund an invoice.
#[derive(Clone, Copy, Debug, PartialEq, Eq)]
pub struct Bid {
    pub bid_id: Id,
    pub invoice_id: Id,
    pub investor: Address,
    pub bid_amount: i128,
    pub expected_return: i128,
    pub timestamp: u64,
    pub status: BidStatus,
}

impl Record for Bid {
    open spec fn key(&self) -> Id {
        self.bid_id
    }

    fn key_of(&self) -> (id: Id) {
        self.bid_id
    }

    fn duplicate(&self) -> (copy: Self) {
        *self
    }
}

/// The identifiers of the bids on an invoice, in the order of `bids`.
pub open spec fn bids_on(bids: Seq<Bid>, invoice_id: Id) -> Seq<Id>
    decreases bids.len(),
{
    if bids.len() == 0 {
        Seq::empty()
    } else if bids.last().invoice_id == invoice_id {
        bids_on(bids.drop_last(), invoice_id).push(bids.last().bid_id)
    } else {
        bids_on(bids.drop_last(), invoice_id)
    }
}

/// A bid that was placed is the last of the bids on its invoice, and is
/// among the bids on no other invoice.
pub proof fn lemma_bids_on_push(bids: Seq<Bid>, bid: Bid, invoice_id: Id)
    ensures
        bids_on(bids.push(bid), invoice_id) == if bid.invoice_id == invoice_id {
            bids_on(bids, invoice_id).push(bid.bid_id)
        } else {
            bids_on(bids, invoice_id)
        },
{
    assert(bids.push(bid).drop_last() =~= bids);
}

/// The bids on an invoice depend on nothing but the identifiers and the
/// invoices of the bids.
pub proof fn lemma_bids_on_same(first: Seq<Bid>, second: Seq<Bid>, invoice_id: Id)
    requires
        first.len() == second.len(),
        forall|i: int|
            0 <= i < first.len() ==> (#[trigger] first[i]).bid_id == second[i].bid_id && first[i].invoice_id
                == second[i].invoice_id,
    ensures
        bids_on(first, invoice_id) == bids_on(second, invoice_id),
    decreases first.len(),
{
    if first.len() > 0 {
        assert forall|i: int| 0 <= i < first.drop_last().len() implies (#[trigger] first.drop_last()[i]).bid_id
            == second.drop_last()[i].bid_id && first.drop_last()[i].invoice_id
            == second.drop_last()[i].invoice_id by {
            assert(first[i].bid_id == second[i].bid_id);
        }
        lemma_bids_on_same(first.drop_last(), second.drop_last(), invoice_id);
        assert(first[first.len() - 1].bid_id == second[first.len() - 1].bid_id);
    }
}

/// The book after the bid with the identifier of `bid` was replaced by
/// `bid`. Nothing changes where there is no such bid, or where it is on
/// another invoice than `bid`.
pub open spec fn amended(bids: Rows<Bid>, bid: Bid) -> Rows<Bid> {
    match bids.get(bid.bid_id) {
        Some(placed) => if placed.invoice_id == bid.invoice_id {
            bids.update(bid)
        } else {
            bids
        },
        None => bids,
    }
}

/// The book of bids, with the bids on each invoice listed. The counter of
/// its identifiers starts at one.
pub struct BidStorage {
    table: Table<Bid, 24>,
    by_invoice: Index<Id, Id>,
}

impl View for BidStorage {
    type V = Rows<Bid>;

    closed spec fn view(&self) -> Rows<Bid> {
        self.table@
    }
}

impl BidStorage {
    /// The invariant of the book: no two bids share an identifier, and the
    /// list of each invoice holds the bids on it, in the order in which
    /// they were placed.
    pub closed spec fn wf(&self) -> bool {
        &&& self.table.wf()
        &&& self.by_invoice.wf()
        &&& forall|invoice_id: Id| #[trigger]
            self.by_invoice.list(invoice_id) == bids_on(self.table@.records, invoice_id)
    }

    /// What `wf` says of the book as a mathematical value.
    pub proof fn lemma_wf(&self)
        requires
            self.wf(),
        ensures
            self@.wf(BID_COUNTER_AT as int),
    {
    }

    /// A book without bids.
    pub fn new() -> (book: Self)
        ensures
            book.wf(),
            book@ == (Rows::<Bid> { records: Seq::empty(), issued: 1 }),
    {
        BidStorage { table: Table::new(1), by_invoice: Index::new() }
    }

    /// Whether another identifier can be issued.
    pub fn has_room(&self) -> (room: bool)
        ensures
            room == self@.has_room(),
    {
        self.table.has_room()
    }

    /// Issues the identifier of the next bid: zeros, then the counter in the
    /// last eight bytes.
    pub fn generate_unique_bid_id(&mut self) -> (id: Id)
        requires
            old(self).wf(),
            old(self)@.has_room(),
        ensures
            final(self).wf(),
            final(self)@ == old(self)@.issue(),
            final(self)@.admits(id, BID_COUNTER_AT as int),
            id@ == bid_id_bytes(old(self)@.issued as u64),
    {
        let counter = self.table.reserve();
        bid_id(counter)
    }

    fn add_bid_to_invoice(&mut self, invoice_id: &Id, bid_id: &Id)
        requires
            old(self).by_invoice.wf(),
        ensures
            final(self).by_invoice.wf(),
            final(self).table == old(self).table,
            final(self).by_invoice.list(*invoice_id) == old(self).by_invoice.list(*invoice_id).push(*bid_id),
            forall|other: Id|
                other != *invoice_id ==> #[trigger] final(self).by_invoice.list(other) == old(
                    self,
                ).by_invoice.list(other),
    {
        self.by_invoice.add(*invoice_id, *bid_id);
    }

    /// Stores `bid` at the end of the book and of the bids on its invoice.
    pub fn store_bid(&mut self, bid: &Bid)
        requires
            old(self).wf(),
            old(self)@.admits(bid.bid_id, BID_COUNTER_AT as int),
        ensures
            final(self).wf(),
            final(self)@ == old(self)@.store(*bid),
    {
        self.table.store(bid);
        self.add_bid_to_invoice(&bid.invoice_id, &bid.bid_id);
        proof {
            assert forall|invoice_id: Id| #[trigger]
                self.by_invoice.list(invoice_id) == bids_on(self.table@.records, invoice_id) by {
                lemma_bids_on_push(old(self).table@.records, *bid, invoice_id);
            }
        }
    }

    /// The bid with the given identifier.
    pub fn get_bid(&self, bid_id: &Id) -> (bid: Option<Bid>)
        ensures
            bid == self@.get(*bid_id),
    {
        self.table.get(bid_id)
    }

    /// Replaces the bid that has the identifier of `bid` by `bid`. Nothing
    /// changes where there is no such bid, or where it is on another invoice
    /// than `bid`.
    pub fn update_bid(&mut self, bid: &Bid)
        requires
            old(self).wf(),
        ensures
            final(self).wf(),
            final(self)@ == amended(old(self)@, *bid),
    {
        match self.table.get(&bid.bid_id) {
            Some(placed) => {
                if placed.invoice_id.same(&bid.invoice_id) {
                    proof {
                        lemma_rows_update(self.table@, BID_COUNTER_AT as int, *bid);
                        lemma_row_found(self.table@, bid.bid_id);
                    }
                    self.table.update(bid);
                    proof {
                        assert forall|invoice_id: Id| #[trigger]
                            self.by_invoice.list(invoice_id) == bids_on(self.table@.records, invoice_id) by {
                            lemma_bids_on_same(old(self).table@.records, self.table@.records, invoice_id);
                        }
                    }
                }
            },
            None => {},
        }
    }

    /// The identifiers of the bids on an invoice, in the order in which they
    /// were placed.
    pub fn get_bids_for_invoice(&self, invoice_id: &Id) -> (ids: Vec<Id>)
        requires
            self.wf(),
        ensures
            ids@ == bids_on(self@.records, *invoice_id),
    {
        self.by_invoice.get(invoice_id)
    }
}

} // verus!
