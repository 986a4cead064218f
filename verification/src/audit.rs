//! The audit log: an append-only record of what was done to each invoice,
//! indexed by invoice, by operation, by actor and by day.

use vstd::prelude::*;
use crate::errors::QuickLendXError;
use crate::identifiers::{audit_id, audit_id_bytes, lemma_be_round_trip, u64_at, AUDIT_COUNTER_AT};
use crate::invoice::{Invoice, InvoiceStatus};
use crate::keys::{
    contains_key, first_index, lemma_first_index, lemma_first_index_is, lemma_first_index_none,
    lemma_first_index_push, Index, Key,
};
use crate::text::{append_decimal, append_unsigned, decimal};
use crate::types::{Address, Id, LedgerInfo};

verus! {

/// The number of seconds in a day, by which the log groups its entries.
pub const SECONDS_PER_DAY: u64 = 86_400;

/// What an audit entry records.
#[derive(Clone, Copy, Debug, PartialEq, Eq, Hash, Structural)]
pub enum AuditOperation {
    InvoiceCreated,
    InvoiceUploaded,
    InvoiceVerified,
    InvoiceFunded,
    InvoicePaid,
    InvoiceDefaulted,
    InvoiceStatusChanged,
    InvoiceRated,
    BidPlaced,
    BidAccepted,
    BidWithdrawn,
    EscrowCreated,
    EscrowReleased,
    EscrowRefunded,
    PaymentProcessed,
    SettlementCompleted,
}

impl Key for AuditOperation {
    fn same(&self, other: &Self) -> (equal: bool) {
        *self == *other
    }
}

/// One entry of the audit log. Once stored it never changes.
#[derive(Debug, PartialEq, Eq)]
pub struct AuditLogEntry {
    pub audit_id: Id,
    pub invoice_id: Id,
    pub operation: AuditOperation,
    pub actor: Address,
    pub timestamp: u64,
    pub old_value: Option<String>,
    pub new_value: Option<String>,
    pub amount: Option<i128>,
    pub additional_data: Option<String>,
    pub block_height: u32,
    pub transaction_hash: Option<Id>,
}

fn clone_text(text: &Option<String>) -> (copy: Option<String>)
    ensures
        copy == *text,
{
    match text {
        Some(text) => Some(text.clone()),
        None => None,
    }
}

impl Clone for AuditLogEntry {
    fn clone(&self) -> (copy: Self)
        ensures
            copy == *self,
    {
        AuditLogEntry {
            audit_id: self.audit_id,
            invoice_id: self.invoice_id,
            operation: self.operation,
            actor: self.actor,
            timestamp: self.timestamp,
            old_value: clone_text(&self.old_value),
            new_value: clone_text(&self.new_value),
            amount: self.amount,
            additional_data: clone_text(&self.additional_data),
            block_height: self.block_height,
            transaction_hash: self.transaction_hash,
        }
    }
}

/// Which entries a query asks for. A field that is `None` admits every
/// entry.
#[derive(Clone, Copy, Debug, PartialEq, Eq)]
pub struct AuditQueryFilter {
    pub invoice_id: Option<Id>,
    pub operation: Option<AuditOperation>,
    pub actor: Option<Address>,
    /// The earliest timestamp admitted.
    pub start_timestamp: Option<u64>,
    /// The latest timestamp admitted.
    pub end_timestamp: Option<u64>,
}

/// Figures on the whole log.
#[derive(Debug, PartialEq, Eq)]
pub struct AuditStats {
    pub total_entries: u32,
    /// For each operation that the log holds, how many entries record it.
    pub operations_count: Vec<(AuditOperation, u32)>,
    pub unique_actors: u32,
    /// The least and the greatest timestamp in the log.
    pub date_range: (u64, u64),
}

impl AuditLogEntry {
    /// Whether the entry could have been written at or before `ledger`, and
    /// carries what its operation calls for: a positive amount where funds
    /// moved, the old and the new value where a status changed.
    pub open spec fn valid_at(self, ledger: LedgerInfo) -> bool {
        &&& self.timestamp <= ledger.timestamp
        &&& self.block_height <= ledger.sequence
        &&& (self.operation == AuditOperation::InvoiceFunded || self.operation
            == AuditOperation::PaymentProcessed) ==> (self.amount matches Some(amount) && amount > 0)
        &&& self.operation == AuditOperation::InvoiceStatusChanged ==> (self.old_value.is_some()
            && self.new_value.is_some())
    }

    /// Checks the entry against the current state of the ledger.
    pub fn validate_integrity(&self, ledger: LedgerInfo) -> (outcome: Result<bool, QuickLendXError>)
        ensures
            outcome == Ok::<bool, QuickLendXError>(self.valid_at(ledger)),
    {
        if self.timestamp > ledger.timestamp {
            return Ok(false);
        }
        if self.block_height > ledger.sequence {
            return Ok(false);
        }
        match self.operation {
            AuditOperation::InvoiceFunded | AuditOperation::PaymentProcessed => {
                match self.amount {
                    Some(amount) => {
                        if amount <= 0 {
                            return Ok(false);
                        }
                    },
                    None => {
                        return Ok(false);
                    },
                }
            },
            AuditOperation::InvoiceStatusChanged => {
                if self.old_value.is_none() || self.new_value.is_none() {
                    return Ok(false);
                }
            },
            _ => {},
        }
        Ok(true)
    }
}

impl AuditQueryFilter {
    /// Whether the filter admits `entry`.
    pub open spec fn admits(self, entry: AuditLogEntry) -> bool {
        &&& self.invoice_id matches Some(invoice_id) ==> entry.invoice_id == invoice_id
        &&& self.operation matches Some(operation) ==> entry.operation == operation
        &&& self.actor matches Some(actor) ==> entry.actor == actor
        &&& self.start_timestamp matches Some(start) ==> entry.timestamp >= start
        &&& self.end_timestamp matches Some(end) ==> entry.timestamp <= end
    }
}

/// The entries with the given identifier.
pub open spec fn has_id(audit_id: Id) -> spec_fn(AuditLogEntry) -> bool {
    |entry: AuditLogEntry| entry.audit_id == audit_id
}

/// The entries on the given invoice.
pub open spec fn of_invoice(invoice_id: Id) -> spec_fn(AuditLogEntry) -> bool {
    |entry: AuditLogEntry| entry.invoice_id == invoice_id
}

/// The entries that record the given operation.
pub open spec fn of_operation(operation: AuditOperation) -> spec_fn(AuditLogEntry) -> bool {
    |entry: AuditLogEntry| entry.operation == operation
}

/// The entries on what the given actor did.
pub open spec fn of_actor(actor: Address) -> spec_fn(AuditLogEntry) -> bool {
    |entry: AuditLogEntry| entry.actor == actor
}

/// The entries written on the given day.
pub open spec fn of_day(day: u64) -> spec_fn(AuditLogEntry) -> bool {
    |entry: AuditLogEntry| entry.timestamp / SECONDS_PER_DAY == day
}

/// Every entry.
pub open spec fn any_entry() -> spec_fn(AuditLogEntry) -> bool {
    |entry: AuditLogEntry| true
}

/// The entries that `filter` admits.
pub open spec fn admitted_by(filter: AuditQueryFilter) -> spec_fn(AuditLogEntry) -> bool {
    |entry: AuditLogEntry| filter.admits(entry)
}

/// Whether `wanted` holds of `entry`.
pub open spec fn holds(wanted: spec_fn(AuditLogEntry) -> bool, entry: AuditLogEntry) -> bool {
    wanted(entry)
}

/// The entries of which `wanted` holds, in the order of the log.
pub open spec fn entries_where(entries: Seq<AuditLogEntry>, wanted: spec_fn(AuditLogEntry) -> bool) -> Seq<
    AuditLogEntry,
>
    decreases entries.len(),
{
    if entries.len() == 0 {
        Seq::empty()
    } else if wanted(entries.last()) {
        entries_where(entries.drop_last(), wanted).push(entries.last())
    } else {
        entries_where(entries.drop_last(), wanted)
    }
}

/// The identifiers of the entries of which `wanted` holds, in the order of
/// the log.
pub open spec fn ids_where(entries: Seq<AuditLogEntry>, wanted: spec_fn(AuditLogEntry) -> bool) -> Seq<Id>
    decreases entries.len(),
{
    if entries.len() == 0 {
        Seq::empty()
    } else if wanted(entries.last()) {
        ids_where(entries.drop_last(), wanted).push(entries.last().audit_id)
    } else {
        ids_where(entries.drop_last(), wanted)
    }
}

/// The audit log as a mathematical value: its entries in the order in which
/// they were recorded, and the number of identifiers issued so far.
pub struct AuditLog {
    pub entries: Seq<AuditLogEntry>,
    pub issued: nat,
}

impl AuditLog {
    /// No two entries share an identifier, and every identifier in the log
    /// embeds a counter value that has been issued.
    pub open spec fn wf(self) -> bool {
        &&& forall|i: int, j: int|
            0 <= i < self.entries.len() && 0 <= j < self.entries.len() && i != j
                ==> self.entries[i].audit_id != self.entries[j].audit_id
        &&& forall|i: int|
            0 <= i < self.entries.len() ==> u64_at(
                #[trigger] self.entries[i].audit_id,
                AUDIT_COUNTER_AT as int,
            ) < self.issued
    }

    /// Whether another identifier can be issued.
    pub open spec fn has_room(self) -> bool {
        self.issued < u64::MAX
    }

    /// Whether an entry with this identifier can be stored: the identifier
    /// was issued and is not in the log.
    pub open spec fn admits(self, audit_id: Id) -> bool {
        &&& u64_at(audit_id, AUDIT_COUNTER_AT as int) < self.issued
        &&& first_index(self.entries, has_id(audit_id)) == -1
    }

    /// The entry with the given identifier.
    pub open spec fn entry(self, audit_id: Id) -> Option<AuditLogEntry> {
        let at = first_index(self.entries, has_id(audit_id));
        if at >= 0 {
            Some(self.entries[at])
        } else {
            None
        }
    }

    /// The identifiers of the entries on an invoice, oldest first.
    pub open spec fn invoice_trail(self, invoice_id: Id) -> Seq<Id> {
        ids_where(self.entries, of_invoice(invoice_id))
    }

    /// The log after `entry` was recorded.
    pub open spec fn record(self, entry: AuditLogEntry) -> AuditLog {
        AuditLog { entries: self.entries.push(entry), issued: self.issued }
    }

    /// The log after an identifier was issued.
    pub open spec fn issue(self) -> AuditLog {
        AuditLog { entries: self.entries, issued: self.issued + 1 }
    }
}

/// Recording an entry extends the selections that the entry belongs to, and
/// no other.
pub proof fn lemma_record_selects(
    entries: Seq<AuditLogEntry>,
    entry: AuditLogEntry,
    wanted: spec_fn(AuditLogEntry) -> bool,
)
    ensures
        ids_where(entries.push(entry), wanted) == if wanted(entry) {
            ids_where(entries, wanted).push(entry.audit_id)
        } else {
            ids_where(entries, wanted)
        },
        entries_where(entries.push(entry), wanted) == if wanted(entry) {
            entries_where(entries, wanted).push(entry)
        } else {
            entries_where(entries, wanted)
        },
{
    assert(entries.push(entry).drop_last() =~= entries);
}

/// The entries that the identifiers in `ids` resolve to and of which `wanted`
/// holds, in the order of `ids`. An identifier that resolves to nothing is
/// passed over.
pub open spec fn picked(log: AuditLog, ids: Seq<Id>, wanted: spec_fn(AuditLogEntry) -> bool) -> Seq<
    AuditLogEntry,
>
    decreases ids.len(),
{
    if ids.len() == 0 {
        Seq::empty()
    } else {
        let earlier = picked(log, ids.drop_last(), wanted);
        match log.entry(ids.last()) {
            Some(entry) => if wanted(entry) {
                earlier.push(entry)
            } else {
                earlier
            },
            None => earlier,
        }
    }
}

/// The first `limit` elements of `entries`, or all of them where there are
/// fewer.
pub open spec fn at_most(entries: Seq<AuditLogEntry>, limit: int) -> Seq<AuditLogEntry> {
    if limit < entries.len() {
        entries.take(limit)
    } else {
        entries
    }
}

/// The text that an optional string holds.
pub open spec fn text_of(text: Option<String>) -> Option<Seq<char>> {
    match text {
        Some(text) => Some(text@),
        None => None,
    }
}

/// Whether `entry` is the entry that is written at `ledger`, with the
/// identifier issued at counter value `counter`, for the given operation.
pub open spec fn is_logged(
    entry: AuditLogEntry,
    counter: nat,
    ledger: LedgerInfo,
    invoice_id: Id,
    operation: AuditOperation,
    actor: Address,
    old_value: Option<Seq<char>>,
    new_value: Option<Seq<char>>,
    amount: Option<i128>,
    additional_data: Option<Seq<char>>,
) -> bool {
    &&& entry.audit_id@ == audit_id_bytes(ledger.timestamp, ledger.sequence, counter as u64)
    &&& entry.invoice_id == invoice_id
    &&& entry.operation == operation
    &&& entry.actor == actor
    &&& entry.timestamp == ledger.timestamp
    &&& text_of(entry.old_value) == old_value
    &&& text_of(entry.new_value) == new_value
    &&& entry.amount == amount
    &&& text_of(entry.additional_data) == additional_data
    &&& entry.block_height == ledger.sequence
    &&& entry.transaction_hash.is_none()
}

/// Whether `after` is `before` with one entry recorded: the entry written at
/// `ledger` for the given operation.
pub open spec fn logged(
    before: AuditLog,
    after: AuditLog,
    ledger: LedgerInfo,
    invoice_id: Id,
    operation: AuditOperation,
    actor: Address,
    old_value: Option<Seq<char>>,
    new_value: Option<Seq<char>>,
    amount: Option<i128>,
    additional_data: Option<Seq<char>>,
) -> bool {
    &&& after.issued == before.issued + 1
    &&& after.entries.len() == before.entries.len() + 1
    &&& after.entries.drop_last() == before.entries
    &&& is_logged(
        after.entries.last(),
        before.issued,
        ledger,
        invoice_id,
        operation,
        actor,
        old_value,
        new_value,
        amount,
        additional_data,
    )
}

impl AuditLog {
    /// The entries that `filter` admits, oldest first, no more than `limit`
    /// of them.
    pub open spec fn query(self, filter: AuditQueryFilter, limit: u32) -> Seq<AuditLogEntry> {
        at_most(entries_where(self.entries, admitted_by(filter)), limit as int)
    }

    /// Whether every entry on the invoice is valid at `ledger`.
    pub open spec fn trail_valid(self, invoice_id: Id, ledger: LedgerInfo) -> bool {
        forall|i: int|
            0 <= i < self.entries.len() && (#[trigger] self.entries[i]).invoice_id == invoice_id
                ==> self.entries[i].valid_at(ledger)
    }
}

/// In a well-formed log every entry is found under its identifier.
pub proof fn lemma_entry_resolves(log: AuditLog, at: int)
    requires
        log.wf(),
        0 <= at < log.entries.len(),
    ensures
        first_index(log.entries, has_id(log.entries[at].audit_id)) == at,
        log.entry(log.entries[at].audit_id) == Some(log.entries[at]),
{
    lemma_first_index_is(log.entries, has_id(log.entries[at].audit_id), at);
}

/// Whether `entries` holds an entry with this identifier of which `wanted`
/// holds.
pub open spec fn selects(entries: Seq<AuditLogEntry>, wanted: spec_fn(AuditLogEntry) -> bool, audit_id: Id) -> bool {
    exists|x: int| 0 <= x < entries.len() && wanted(entries[x]) && (#[trigger] entries[x]).audit_id == audit_id
}

/// Every identifier that a selection lists is that of an entry of the
/// selection, and every entry of the selection is listed.
pub proof fn lemma_ids_where_members(entries: Seq<AuditLogEntry>, wanted: spec_fn(AuditLogEntry) -> bool)
    ensures
        forall|j: int|
            0 <= j < ids_where(entries, wanted).len() ==> selects(
                entries,
                wanted,
                #[trigger] ids_where(entries, wanted)[j],
            ),
        forall|x: int|
            0 <= x < entries.len() && wanted(#[trigger] entries[x]) ==> ids_where(entries, wanted).contains(
                entries[x].audit_id,
            ),
    decreases entries.len(),
{
    if entries.len() > 0 {
        let front = entries.drop_last();
        let last = entries.last();
        let ids = ids_where(entries, wanted);
        lemma_ids_where_members(front, wanted);
        assert forall|j: int| 0 <= j < ids.len() implies selects(entries, wanted, #[trigger] ids[j]) by {
            if j < ids_where(front, wanted).len() {
                assert(selects(front, wanted, ids_where(front, wanted)[j]));
                let x = choose|x: int|
                    0 <= x < front.len() && wanted(front[x]) && (#[trigger] front[x]).audit_id == ids_where(
                        front,
                        wanted,
                    )[j];
                assert(entries[x] == front[x]);
            } else {
                assert(entries[entries.len() - 1] == last);
            }
        }
        assert forall|x: int| 0 <= x < entries.len() && wanted(#[trigger] entries[x]) implies ids.contains(
            entries[x].audit_id,
        ) by {
            if x < front.len() {
                assert(front[x] == entries[x]);
                let j = choose|j: int|
                    0 <= j < ids_where(front, wanted).len() && ids_where(front, wanted)[j]
                        == entries[x].audit_id;
                assert(ids[j] == entries[x].audit_id);
            } else {
                assert(ids[ids.len() - 1] == entries[x].audit_id);
            }
        }
    }
}

/// Resolving the identifiers of a selection and keeping what `wanted` holds
/// of gives the entries of which `wanted` holds, where `wanted` holds only
/// of entries of the selection.
pub proof fn lemma_picked_from_selection(
    log: AuditLog,
    upto: int,
    selection: spec_fn(AuditLogEntry) -> bool,
    wanted: spec_fn(AuditLogEntry) -> bool,
)
    requires
        log.wf(),
        0 <= upto <= log.entries.len(),
        forall|entry: AuditLogEntry| #[trigger] holds(wanted, entry) ==> holds(selection, entry),
    ensures
        picked(log, ids_where(log.entries.take(upto), selection), wanted) == entries_where(
            log.entries.take(upto),
            wanted,
        ),
    decreases upto,
{
    if upto > 0 {
        let front = log.entries.take(upto - 1);
        let last = log.entries[upto - 1];
        lemma_picked_from_selection(log, upto - 1, selection, wanted);
        assert(log.entries.take(upto) =~= front.push(last));
        lemma_record_selects(front, last, selection);
        lemma_record_selects(front, last, wanted);
        assert(holds(wanted, last) ==> holds(selection, last));
        if selection(last) {
            let ids = ids_where(front, selection).push(last.audit_id);
            assert(ids.drop_last() =~= ids_where(front, selection));
            lemma_entry_resolves(log, upto - 1);
        }
    }
}

/// What a longer list of identifiers resolves to starts with what a shorter
/// one resolves to.
pub proof fn lemma_picked_prefix(
    log: AuditLog,
    ids: Seq<Id>,
    shorter: int,
    wanted: spec_fn(AuditLogEntry) -> bool,
)
    requires
        0 <= shorter <= ids.len(),
    ensures
        picked(log, ids.take(shorter), wanted).len() <= picked(log, ids, wanted).len(),
        picked(log, ids, wanted).take(picked(log, ids.take(shorter), wanted).len() as int) == picked(
            log,
            ids.take(shorter),
            wanted,
        ),
    decreases ids.len(),
{
    if shorter == ids.len() {
        assert(ids.take(shorter) =~= ids);
        assert(picked(log, ids, wanted).take(picked(log, ids, wanted).len() as int) =~= picked(
            log,
            ids,
            wanted,
        ));
    } else {
        lemma_picked_prefix(log, ids.drop_last(), shorter, wanted);
        assert(ids.drop_last().take(shorter) =~= ids.take(shorter));
        let short = picked(log, ids.take(shorter), wanted);
        assert(picked(log, ids, wanted).take(short.len() as int) =~= picked(
            log,
            ids.drop_last(),
            wanted,
        ).take(short.len() as int));
    }
}

/// Recording an entry keeps the log well formed, adds the entry at the end
/// of the trail of its invoice and of no other trail, and leaves every
/// earlier entry to be found as it was.
pub proof fn lemma_record(log: AuditLog, entry: AuditLogEntry)
    requires
        log.wf(),
        log.admits(entry.audit_id),
    ensures
        log.record(entry).wf(),
        log.record(entry).invoice_trail(entry.invoice_id) == log.invoice_trail(entry.invoice_id).push(
            entry.audit_id,
        ),
        forall|other: Id|
            other != entry.invoice_id ==> #[trigger] log.record(entry).invoice_trail(other)
                == log.invoice_trail(other),
        log.record(entry).entry(entry.audit_id) == Some(entry),
        forall|other: Id|
            other != entry.audit_id ==> #[trigger] log.record(entry).entry(other) == log.entry(other),
{
    let after = log.record(entry);
    lemma_first_index(log.entries, has_id(entry.audit_id));
    assert forall|i: int, j: int|
        0 <= i < after.entries.len() && 0 <= j < after.entries.len() && i != j implies after.entries[i].audit_id
        != after.entries[j].audit_id by {
        if i == log.entries.len() {
            assert(!has_id(entry.audit_id)(log.entries[j]));
        } else if j == log.entries.len() {
            assert(!has_id(entry.audit_id)(log.entries[i]));
        }
    }
    lemma_record_selects(log.entries, entry, of_invoice(entry.invoice_id));
    assert forall|other: Id| other != entry.invoice_id implies #[trigger] after.invoice_trail(other)
        == log.invoice_trail(other) by {
        lemma_record_selects(log.entries, entry, of_invoice(other));
    }
    lemma_first_index_push(log.entries, entry, has_id(entry.audit_id));
    assert forall|other: Id| other != entry.audit_id implies #[trigger] after.entry(other) == log.entry(
        other,
    ) by {
        lemma_first_index_push(log.entries, entry, has_id(other));
        lemma_first_index(log.entries, has_id(other));
    }
}

/// Every operation that is recorded adds exactly one entry to the trail of
/// its invoice, which is then found under the identifier that the trail
/// lists; the trail of every other invoice, and every earlier entry, stay as
/// they were.
pub proof fn lemma_logged(
    before: AuditLog,
    after: AuditLog,
    ledger: LedgerInfo,
    invoice_id: Id,
    operation: AuditOperation,
    actor: Address,
    old_value: Option<Seq<char>>,
    new_value: Option<Seq<char>>,
    amount: Option<i128>,
    additional_data: Option<Seq<char>>,
)
    requires
        before.wf(),
        before.has_room(),
        logged(
            before,
            after,
            ledger,
            invoice_id,
            operation,
            actor,
            old_value,
            new_value,
            amount,
            additional_data,
        ),
    ensures
        after.wf(),
        after.entries.len() == before.entries.len() + 1,
        after.invoice_trail(invoice_id) == before.invoice_trail(invoice_id).push(after.entries.last().audit_id),
        after.invoice_trail(invoice_id).len() == before.invoice_trail(invoice_id).len() + 1,
        after.entry(after.entries.last().audit_id) == Some(after.entries.last()),
        after.entries.last().invoice_id == invoice_id,
        after.entries.last().operation == operation,
        forall|other: Id|
            other != invoice_id ==> #[trigger] after.invoice_trail(other) == before.invoice_trail(other),
        forall|earlier: int|
            0 <= earlier < before.entries.len() ==> after.entry((#[trigger] before.entries[earlier]).audit_id)
                == Some(before.entries[earlier]),
{
    let entry = after.entries.last();
    assert(after.entries =~= before.entries.push(entry));
    lemma_be_round_trip(before.issued as u64);
    assert(u64_at(entry.audit_id, AUDIT_COUNTER_AT as int) == before.issued);
    assert forall|i: int| 0 <= i < before.entries.len() implies !has_id(entry.audit_id)(
        #[trigger] before.entries[i],
    ) by {}
    lemma_first_index_none(before.entries, has_id(entry.audit_id));
    let issued = before.issue();
    assert(issued.wf());
    assert(issued.admits(entry.audit_id));
    lemma_record(issued, entry);
    assert(issued.record(entry) == after);
    assert forall|other: Id| other != invoice_id implies #[trigger] after.invoice_trail(other)
        == before.invoice_trail(other) by {
        assert(issued.record(entry).invoice_trail(other) == issued.invoice_trail(other));
    }
    assert forall|earlier: int| 0 <= earlier < before.entries.len() implies after.entry(
        (#[trigger] before.entries[earlier]).audit_id,
    ) == Some(before.entries[earlier]) by {
        lemma_entry_resolves(before, earlier);
        assert(issued.record(entry).entry(before.entries[earlier].audit_id) == issued.entry(
            before.entries[earlier].audit_id,
        ));
    }
}

/// The least timestamp in `entries`; the greatest value of the type where
/// there is no entry.
pub open spec fn earliest(entries: Seq<AuditLogEntry>) -> u64
    decreases entries.len(),
{
    if entries.len() == 0 {
        u64::MAX
    } else if entries.last().timestamp < earliest(entries.drop_last()) {
        entries.last().timestamp
    } else {
        earliest(entries.drop_last())
    }
}

/// The greatest timestamp in `entries`; zero where there is no entry.
pub open spec fn latest(entries: Seq<AuditLogEntry>) -> u64
    decreases entries.len(),
{
    if entries.len() == 0 {
        0
    } else if entries.last().timestamp > latest(entries.drop_last()) {
        entries.last().timestamp
    } else {
        latest(entries.drop_last())
    }
}

/// The actors in `entries`, each once, in the order in which they first
/// appear.
pub open spec fn actors_of(entries: Seq<AuditLogEntry>) -> Seq<Address>
    decreases entries.len(),
{
    if entries.len() == 0 {
        Seq::empty()
    } else if actors_of(entries.drop_last()).contains(entries.last().actor) {
        actors_of(entries.drop_last())
    } else {
        actors_of(entries.drop_last()).push(entries.last().actor)
    }
}

/// The operations in `entries`, each once, in the order in which they first
/// appear.
pub open spec fn operations_of(entries: Seq<AuditLogEntry>) -> Seq<AuditOperation>
    decreases entries.len(),
{
    if entries.len() == 0 {
        Seq::empty()
    } else if operations_of(entries.drop_last()).contains(entries.last().operation) {
        operations_of(entries.drop_last())
    } else {
        operations_of(entries.drop_last()).push(entries.last().operation)
    }
}

/// The operation at `at` among those of `entries`, with the number of
/// entries that record it.
pub open spec fn tally_at(entries: Seq<AuditLogEntry>, at: int) -> (AuditOperation, u32) {
    let operation = operations_of(entries)[at];
    (operation, ids_where(entries, of_operation(operation)).len() as u32)
}

/// The note of an entry on the creation of an invoice.
pub open spec fn created_note(amount: i128, due_date: u64) -> Seq<char> {
    "Amount: "@ + decimal(amount as int) + ", Due: "@ + decimal(due_date as int)
}

/// The note of an entry on the funding of an invoice.
pub open spec fn funded_note(amount: i128) -> Seq<char> {
    "Funded with amount: "@ + decimal(amount as int)
}

/// The note of an entry on a payment.
pub open spec fn payment_note(payment_type: Seq<char>, amount: i128) -> Seq<char> {
    "Payment type: "@ + payment_type + ", Amount: "@ + decimal(amount as int)
}

/// The audit log with its indices.
pub struct AuditStorage {
    entries: Vec<AuditLogEntry>,
    by_invoice: Index<Id, Id>,
    by_operation: Index<AuditOperation, Id>,
    by_actor: Index<Address, Id>,
    by_day: Index<u64, Id>,
    counter: u64,
}

impl View for AuditStorage {
    type V = AuditLog;

    closed spec fn view(&self) -> AuditLog {
        AuditLog { entries: self.entries@, issued: self.counter as nat }
    }
}

impl AuditStorage {
    /// The invariant of the log: its entries are well formed, and each index
    /// lists exactly the entries with its key, in the order of the log.
    pub closed spec fn wf(&self) -> bool {
        &&& self@.wf()
        &&& self.by_invoice.wf()
        &&& self.by_operation.wf()
        &&& self.by_actor.wf()
        &&& self.by_day.wf()
        &&& forall|invoice_id: Id| #[trigger]
            self.by_invoice.list(invoice_id) == ids_where(self.entries@, of_invoice(invoice_id))
        &&& forall|operation: AuditOperation| #[trigger]
            self.by_operation.list(operation) == ids_where(self.entries@, of_operation(operation))
        &&& forall|actor: Address| #[trigger]
            self.by_actor.list(actor) == ids_where(self.entries@, of_actor(actor))
        &&& forall|day: u64| #[trigger] self.by_day.list(day) == ids_where(self.entries@, of_day(day))
    }

    /// What `wf` says of the log as a mathematical value.
    pub proof fn lemma_wf(&self)
        requires
            self.wf(),
        ensures
            self@.wf(),
    {
    }

    /// An empty log.
    pub fn new() -> (log: Self)
        ensures
            log.wf(),
            log@ == (AuditLog { entries: Seq::empty(), issued: 0 }),
    {
        AuditStorage {
            entries: Vec::new(),
            by_invoice: Index::new(),
            by_operation: Index::new(),
            by_actor: Index::new(),
            by_day: Index::new(),
            counter: 0,
        }
    }

    /// Whether another identifier can be issued.
    pub fn has_room(&self) -> (room: bool)
        ensures
            room == self@.has_room(),
    {
        self.counter < u64::MAX
    }

    /// Whether `entries` more identifiers can be issued.
    pub fn has_room_for(&self, entries: u64) -> (room: bool)
        ensures
            room == (self@.issued + entries <= u64::MAX),
    {
        self.counter <= u64::MAX - entries
    }

    /// Issues the identifier of the next entry.
    pub fn generate_audit_id(&mut self, ledger: LedgerInfo) -> (audit_id: Id)
        requires
            old(self).wf(),
            old(self)@.has_room(),
        ensures
            final(self).wf(),
            final(self)@ == old(self)@.issue(),
            final(self)@.admits(audit_id),
            audit_id@ == audit_id_bytes(ledger.timestamp, ledger.sequence, old(self)@.issued as u64),
    {
        let audit_id = audit_id(ledger.timestamp, ledger.sequence, self.counter);
        self.counter = self.counter + 1;
        proof {
            assert forall|i: int| 0 <= i < self.entries@.len() implies !has_id(audit_id)(
                #[trigger] self.entries@[i],
            ) by {}
            lemma_first_index_none(self.entries@, has_id(audit_id));
        }
        audit_id
    }

    fn add_to_invoice_audit_trail(&mut self, invoice_id: &Id, audit_id: &Id)
        requires
            old(self).by_invoice.wf(),
        ensures
            final(self).by_invoice.wf(),
            final(self).by_invoice.list(*invoice_id) == old(self).by_invoice.list(*invoice_id).push(*audit_id),
            forall|other: Id|
                other != *invoice_id ==> #[trigger] final(self).by_invoice.list(other) == old(
                    self,
                ).by_invoice.list(other),
            final(self).entries == old(self).entries,
            final(self).by_operation == old(self).by_operation,
            final(self).by_actor == old(self).by_actor,
            final(self).by_day == old(self).by_day,
            final(self).counter == old(self).counter,
    {
        self.by_invoice.add(*invoice_id, *audit_id);
    }

    fn add_to_operation_index(&mut self, operation: &AuditOperation, audit_id: &Id)
        requires
            old(self).by_operation.wf(),
        ensures
            final(self).by_operation.wf(),
            final(self).by_operation.list(*operation) == old(self).by_operation.list(*operation).push(*audit_id),
            forall|other: AuditOperation|
                other != *operation ==> #[trigger] final(self).by_operation.list(other) == old(
                    self,
                ).by_operation.list(other),
            final(self).entries == old(self).entries,
            final(self).by_invoice == old(self).by_invoice,
            final(self).by_actor == old(self).by_actor,
            final(self).by_day == old(self).by_day,
            final(self).counter == old(self).counter,
    {
        self.by_operation.add(*operation, *audit_id);
    }

    fn add_to_actor_index(&mut self, actor: &Address, audit_id: &Id)
        requires
            old(self).by_actor.wf(),
        ensures
            final(self).by_actor.wf(),
            final(self).by_actor.list(*actor) == old(self).by_actor.list(*actor).push(*audit_id),
            forall|other: Address|
                other != *actor ==> #[trigger] final(self).by_actor.list(other) == old(self).by_actor.list(
                    other,
                ),
            final(self).entries == old(self).entries,
            final(self).by_invoice == old(self).by_invoice,
            final(self).by_operation == old(self).by_operation,
            final(self).by_day == old(self).by_day,
            final(self).counter == old(self).counter,
    {
        self.by_actor.add(*actor, *audit_id);
    }

    fn add_to_timestamp_index(&mut self, timestamp: u64, audit_id: &Id)
        requires
            old(self).by_day.wf(),
        ensures
            final(self).by_day.wf(),
            final(self).by_day.list(timestamp / SECONDS_PER_DAY) == old(self).by_day.list(
                timestamp / SECONDS_PER_DAY,
            ).push(*audit_id),
            forall|other: u64|
                other != timestamp / SECONDS_PER_DAY ==> #[trigger] final(self).by_day.list(other) == old(
                    self,
                ).by_day.list(other),
            final(self).entries == old(self).entries,
            final(self).by_invoice == old(self).by_invoice,
            final(self).by_operation == old(self).by_operation,
            final(self).by_actor == old(self).by_actor,
            final(self).counter == old(self).counter,
    {
        let day_key = timestamp / SECONDS_PER_DAY;
        self.by_day.add(day_key, *audit_id);
    }

    /// Appends `entry` to the log and to the four indices.
    pub fn store_audit_entry(&mut self, entry: &AuditLogEntry)
        requires
            old(self).wf(),
            old(self)@.admits(entry.audit_id),
        ensures
            final(self).wf(),
            final(self)@ == old(self)@.record(*entry),
    {
        self.entries.push(entry.clone());
        self.add_to_invoice_audit_trail(&entry.invoice_id, &entry.audit_id);
        self.add_to_operation_index(&entry.operation, &entry.audit_id);
        self.add_to_actor_index(&entry.actor, &entry.audit_id);
        self.add_to_timestamp_index(entry.timestamp, &entry.audit_id);
        proof {
            let before = old(self).entries@;
            lemma_first_index(before, has_id(entry.audit_id));
            assert forall|invoice_id: Id| #[trigger]
                self.by_invoice.list(invoice_id) == ids_where(self.entries@, of_invoice(invoice_id)) by {
                lemma_record_selects(before, *entry, of_invoice(invoice_id));
            }
            assert forall|operation: AuditOperation| #[trigger]
                self.by_operation.list(operation) == ids_where(self.entries@, of_operation(operation)) by {
                lemma_record_selects(before, *entry, of_operation(operation));
            }
            assert forall|actor: Address| #[trigger]
                self.by_actor.list(actor) == ids_where(self.entries@, of_actor(actor)) by {
                lemma_record_selects(before, *entry, of_actor(actor));
            }
            assert forall|day: u64| #[trigger]
                self.by_day.list(day) == ids_where(self.entries@, of_day(day)) by {
                lemma_record_selects(before, *entry, of_day(day));
            }
            assert forall|i: int, j: int|
                0 <= i < self.entries@.len() && 0 <= j < self.entries@.len() && i != j implies self.entries@[i].audit_id
                != self.entries@[j].audit_id by {
                if i == before.len() {
                    assert(!has_id(entry.audit_id)(before[j]));
                } else if j == before.len() {
                    assert(!has_id(entry.audit_id)(before[i]));
                }
            }
        }
    }

    fn find(&self, audit_id: &Id) -> (at: Option<usize>)
        ensures
            match at {
                Some(at) => at < self.entries.len() && at == first_index(self.entries@, has_id(*audit_id)),
                None => first_index(self.entries@, has_id(*audit_id)) == -1,
            },
    {
        let mut i: usize = 0;
        while i < self.entries.len()
            invariant
                i <= self.entries.len(),
                forall|j: int| 0 <= j < i ==> !has_id(*audit_id)(#[trigger] self.entries@[j]),
            decreases self.entries.len() - i,
        {
            if self.entries[i].audit_id.same(audit_id) {
                proof {
                    lemma_first_index_is(self.entries@, has_id(*audit_id), i as int);
                }
                return Some(i);
            }
            i += 1;
        }
        proof {
            lemma_first_index_none(self.entries@, has_id(*audit_id));
        }
        None
    }

    /// The entry with the given identifier.
    pub fn get_audit_entry(&self, audit_id: &Id) -> (entry: Option<AuditLogEntry>)
        ensures
            entry == self@.entry(*audit_id),
    {
        match self.find(audit_id) {
            Some(at) => Some(self.entries[at].clone()),
            None => None,
        }
    }

    /// The identifiers of the entries on an invoice, oldest first.
    pub fn get_invoice_audit_trail(&self, invoice_id: &Id) -> (trail: Vec<Id>)
        requires
            self.wf(),
        ensures
            trail@ == self@.invoice_trail(*invoice_id),
    {
        self.by_invoice.get(invoice_id)
    }

    /// The identifiers of the entries that record `operation`, oldest first.
    pub fn get_audit_entries_by_operation(&self, operation: &AuditOperation) -> (ids: Vec<Id>)
        requires
            self.wf(),
        ensures
            ids@ == ids_where(self@.entries, of_operation(*operation)),
    {
        self.by_operation.get(operation)
    }

    /// The identifiers of the entries on what `actor` did, oldest first.
    pub fn get_audit_entries_by_actor(&self, actor: &Address) -> (ids: Vec<Id>)
        requires
            self.wf(),
        ensures
            ids@ == ids_where(self@.entries, of_actor(*actor)),
    {
        self.by_actor.get(actor)
    }

    /// The identifiers of the entries written on day `day`, oldest first.
    pub fn get_audit_entries_by_day(&self, day: u64) -> (ids: Vec<Id>)
        requires
            self.wf(),
        ensures
            ids@ == ids_where(self@.entries, of_day(day)),
    {
        self.by_day.get(&day)
    }

    /// The identifiers of all entries, oldest first.
    pub fn get_all_audit_entries(&self) -> (ids: Vec<Id>)
        ensures
            ids@ == ids_where(self@.entries, any_entry()),
    {
        let mut ids: Vec<Id> = Vec::new();
        let mut i: usize = 0;
        while i < self.entries.len()
            invariant
                i <= self.entries.len(),
                ids@ == ids_where(self.entries@.take(i as int), any_entry()),
            decreases self.entries.len() - i,
        {
            proof {
                lemma_record_selects(self.entries@.take(i as int), self.entries@[i as int], any_entry());
                assert(self.entries@.take(i + 1) =~= self.entries@.take(i as int).push(self.entries@[i as int]));
            }
            ids.push(self.entries[i].audit_id);
            i += 1;
        }
        proof {
            assert(self.entries@.take(self.entries.len() as int) =~= self.entries@);
        }
        ids
    }

    /// Whether `filter` admits `entry`.
    pub fn matches_filter(entry: &AuditLogEntry, filter: &AuditQueryFilter) -> (admitted: bool)
        ensures
            admitted == filter.admits(*entry),
    {
        if let Some(invoice_id) = &filter.invoice_id {
            if !entry.invoice_id.same(invoice_id) {
                return false;
            }
        }
        if let Some(operation) = &filter.operation {
            if entry.operation != *operation {
                return false;
            }
        }
        if let Some(actor) = &filter.actor {
            if !entry.actor.same(actor) {
                return false;
            }
        }
        if let Some(start) = filter.start_timestamp {
            if entry.timestamp < start {
                return false;
            }
        }
        if let Some(end) = filter.end_timestamp {
            if entry.timestamp > end {
                return false;
            }
        }
        true
    }

    /// The entries that `filter` admits, oldest first, no more than `limit`
    /// of them. The search starts from the narrowest index that the filter
    /// names: the invoice's, else the operation's, else the actor's, else
    /// the whole log.
    pub fn query_audit_logs(&self, filter: &AuditQueryFilter, limit: u32) -> (results: Vec<AuditLogEntry>)
        requires
            self.wf(),
        ensures
            results@ == self@.query(*filter, limit),
    {
        let ghost wanted = admitted_by(*filter);
        let ghost selection;
        let audit_ids = if let Some(invoice_id) = &filter.invoice_id {
            proof {
                selection = of_invoice(*invoice_id);
            }
            self.get_invoice_audit_trail(invoice_id)
        } else if let Some(operation) = &filter.operation {
            proof {
                selection = of_operation(*operation);
            }
            self.get_audit_entries_by_operation(operation)
        } else if let Some(actor) = &filter.actor {
            proof {
                selection = of_actor(*actor);
            }
            self.get_audit_entries_by_actor(actor)
        } else {
            proof {
                selection = any_entry();
            }
            self.get_all_audit_entries()
        };
        assert(audit_ids@ == ids_where(self@.entries, selection));
        assert(forall|entry: AuditLogEntry| #[trigger] holds(wanted, entry) ==> holds(selection, entry));
        let mut results: Vec<AuditLogEntry> = Vec::new();
        let mut count: u32 = 0;
        let mut i: usize = 0;
        while i < audit_ids.len() && count < limit
            invariant
                i <= audit_ids.len(),
                count <= limit,
                count == results.len(),
                wanted == admitted_by(*filter),
                results@ == picked(self@, audit_ids@.take(i as int), wanted),
            decreases audit_ids.len() - i,
        {
            proof {
                assert(audit_ids@.take(i + 1).drop_last() =~= audit_ids@.take(i as int));
                assert(audit_ids@.take(i + 1).last() == audit_ids@[i as int]);
            }
            if let Some(entry) = self.get_audit_entry(&audit_ids[i]) {
                if Self::matches_filter(&entry, filter) {
                    results.push(entry);
                    count += 1;
                }
            }
            i += 1;
        }
        proof {
            let all = picked(self@, audit_ids@, wanted);
            lemma_picked_prefix(self@, audit_ids@, i as int, wanted);
            assert(self@.entries.take(self@.entries.len() as int) =~= self@.entries);
            lemma_picked_from_selection(self@, self@.entries.len() as int, selection, wanted);
            if i == audit_ids.len() {
                assert(audit_ids@.take(i as int) =~= audit_ids@);
            }
        }
        results
    }

    /// Whether every entry on the invoice is valid at `ledger` and is found
    /// under the identifier that the trail lists.
    pub fn validate_invoice_audit_integrity(&self, ledger: LedgerInfo, invoice_id: &Id) -> (outcome: Result<
        bool,
        QuickLendXError,
    >)
        requires
            self.wf(),
        ensures
            outcome == Ok::<bool, QuickLendXError>(self@.trail_valid(*invoice_id, ledger)),
    {
        let audit_trail = self.get_invoice_audit_trail(invoice_id);
        proof {
            lemma_ids_where_members(self@.entries, of_invoice(*invoice_id));
        }
        let mut i: usize = 0;
        while i < audit_trail.len()
            invariant
                i <= audit_trail.len(),
                self.wf(),
                audit_trail@ == ids_where(self@.entries, of_invoice(*invoice_id)),
                forall|j: int|
                    0 <= j < audit_trail@.len() ==> selects(
                        self@.entries,
                        of_invoice(*invoice_id),
                        #[trigger] audit_trail@[j],
                    ),
                forall|j: int|
                    0 <= j < i ==> ((#[trigger] self@.entry(audit_trail@[j])) matches Some(entry)
                        && entry.valid_at(ledger)),
            decreases audit_trail.len() - i,
        {
            proof {
                assert(selects(self@.entries, of_invoice(*invoice_id), audit_trail@[i as int]));
                let at = choose|x: int|
                    0 <= x < self@.entries.len() && of_invoice(*invoice_id)(self@.entries[x]) && (
                    #[trigger] self@.entries[x]).audit_id == audit_trail@[i as int];
                lemma_entry_resolves(self@, at);
            }
            match self.get_audit_entry(&audit_trail[i]) {
                Some(entry) => {
                    let valid = entry.validate_integrity(ledger);
                    match valid {
                        Ok(true) => {},
                        _ => {
                            return Ok(false);
                        },
                    }
                },
                None => {
                    return Ok(false);
                },
            }
            i += 1;
        }
        proof {
            assert forall|x: int|
                0 <= x < self@.entries.len() && (#[trigger] self@.entries[x]).invoice_id
                    == *invoice_id implies self@.entries[x].valid_at(ledger) by {
                assert(of_invoice(*invoice_id)(self@.entries[x]));
                let j = choose|j: int|
                    0 <= j < audit_trail@.len() && audit_trail@[j] == self@.entries[x].audit_id;
                lemma_entry_resolves(self@, x);
                assert(self@.entry(audit_trail@[j]) == Some(self@.entries[x]));
            }
        }
        Ok(true)
    }

    /// Figures on the whole log: the number of entries, how many entries
    /// record each operation, the number of actors, and the least and the
    /// greatest timestamp. The counts are the low 32 bits of the numbers.
    pub fn get_audit_stats(&self) -> (stats: AuditStats)
        requires
            self.wf(),
        ensures
            stats.total_entries == self@.entries.len() as u32,
            stats.operations_count@.len() == operations_of(self@.entries).len(),
            forall|at: int|
                0 <= at < stats.operations_count@.len() ==> #[trigger] stats.operations_count@[at] == tally_at(
                    self@.entries,
                    at,
                ),
            stats.unique_actors == actors_of(self@.entries).len() as u32,
            stats.date_range == (earliest(self@.entries), latest(self@.entries)),
    {
        let total_entries = #[verifier::truncate] (self.entries.len() as u32);
        let mut operations: Vec<AuditOperation> = Vec::new();
        let mut unique_actors: Vec<Address> = Vec::new();
        let mut min_timestamp = u64::MAX;
        let mut max_timestamp = 0u64;
        let mut i: usize = 0;
        while i < self.entries.len()
            invariant
                i <= self.entries.len(),
                operations@ == operations_of(self.entries@.take(i as int)),
                unique_actors@ == actors_of(self.entries@.take(i as int)),
                min_timestamp == earliest(self.entries@.take(i as int)),
                max_timestamp == latest(self.entries@.take(i as int)),
            decreases self.entries.len() - i,
        {
            proof {
                assert(self.entries@.take(i + 1).drop_last() =~= self.entries@.take(i as int));
            }
            let entry = &self.entries[i];
            if !contains_key(&unique_actors, &entry.actor) {
                unique_actors.push(entry.actor);
            }
            if !contains_key(&operations, &entry.operation) {
                operations.push(entry.operation);
            }
            if entry.timestamp < min_timestamp {
                min_timestamp = entry.timestamp;
            }
            if entry.timestamp > max_timestamp {
                max_timestamp = entry.timestamp;
            }
            i += 1;
        }
        proof {
            assert(self.entries@.take(self.entries.len() as int) =~= self.entries@);
        }
        let mut operations_count: Vec<(AuditOperation, u32)> = Vec::new();
        let mut k: usize = 0;
        while k < operations.len()
            invariant
                k <= operations.len(),
                self.wf(),
                operations@ == operations_of(self@.entries),
                operations_count@.len() == k,
                forall|at: int|
                    0 <= at < k ==> #[trigger] operations_count@[at] == tally_at(self@.entries, at),
            decreases operations.len() - k,
        {
            let operation = operations[k];
            let recorded = self.get_audit_entries_by_operation(&operation);
            let count = #[verifier::truncate] (recorded.len() as u32);
            operations_count.push((operation, count));
            k += 1;
        }
        let actors = #[verifier::truncate] (unique_actors.len() as u32);
        AuditStats {
            total_entries,
            operations_count,
            unique_actors: actors,
            date_range: (min_timestamp, max_timestamp),
        }
    }
}

impl AuditLogEntry {
    /// The entry that is written at `ledger` for the given operation, under
    /// an identifier issued by `audit`.
    pub fn new(
        audit: &mut AuditStorage,
        ledger: LedgerInfo,
        invoice_id: Id,
        operation: AuditOperation,
        actor: Address,
        old_value: Option<String>,
        new_value: Option<String>,
        amount: Option<i128>,
        additional_data: Option<String>,
    ) -> (entry: Self)
        requires
            old(audit).wf(),
            old(audit)@.has_room(),
        ensures
            final(audit).wf(),
            final(audit)@ == old(audit)@.issue(),
            final(audit)@.admits(entry.audit_id),
            is_logged(
                entry,
                old(audit)@.issued,
                ledger,
                invoice_id,
                operation,
                actor,
                text_of(old_value),
                text_of(new_value),
                amount,
                text_of(additional_data),
            ),
    {
        let audit_id = audit.generate_audit_id(ledger);
        AuditLogEntry {
            audit_id,
            invoice_id,
            operation,
            actor,
            timestamp: ledger.timestamp,
            old_value,
            new_value,
            amount,
            additional_data,
            block_height: ledger.sequence,
            transaction_hash: None,
        }
    }
}

/// Records one operation on an invoice.
pub fn log_invoice_operation(
    audit: &mut AuditStorage,
    ledger: LedgerInfo,
    invoice_id: Id,
    operation: AuditOperation,
    actor: Address,
    old_value: Option<String>,
    new_value: Option<String>,
    amount: Option<i128>,
    additional_data: Option<String>,
)
    requires
        old(audit).wf(),
        old(audit)@.has_room(),
    ensures
        final(audit).wf(),
        logged(
            old(audit)@,
            final(audit)@,
            ledger,
            invoice_id,
            operation,
            actor,
            text_of(old_value),
            text_of(new_value),
            amount,
            text_of(additional_data),
        ),
{
    let entry = AuditLogEntry::new(
        audit,
        ledger,
        invoice_id,
        operation,
        actor,
        old_value,
        new_value,
        amount,
        additional_data,
    );
    audit.store_audit_entry(&entry);
    proof {
        assert(final(audit)@.entries.drop_last() =~= old(audit)@.entries);
    }
}

/// Records the creation of `invoice`.
pub fn log_invoice_created(audit: &mut AuditStorage, ledger: LedgerInfo, invoice: &Invoice)
    requires
        old(audit).wf(),
        old(audit)@.has_room(),
    ensures
        final(audit).wf(),
        logged(
            old(audit)@,
            final(audit)@,
            ledger,
            invoice.id,
            AuditOperation::InvoiceCreated,
            invoice.business,
            None,
            Some(created_note(invoice.amount, invoice.due_date)),
            Some(invoice.amount),
            Some(invoice.description@),
        ),
{
    let mut note = "Amount: ".to_string();
    append_decimal(&mut note, invoice.amount);
    note.append(", Due: ");
    append_unsigned(&mut note, invoice.due_date);
    log_invoice_operation(
        audit,
        ledger,
        invoice.id,
        AuditOperation::InvoiceCreated,
        invoice.business,
        None,
        Some(note),
        Some(invoice.amount),
        Some(invoice.description.clone()),
    );
}

/// Records that the status of an invoice changed.
pub fn log_invoice_status_change(
    audit: &mut AuditStorage,
    ledger: LedgerInfo,
    invoice_id: Id,
    actor: Address,
    old_status: InvoiceStatus,
    new_status: InvoiceStatus,
)
    requires
        old(audit).wf(),
        old(audit)@.has_room(),
    ensures
        final(audit).wf(),
        logged(
            old(audit)@,
            final(audit)@,
            ledger,
            invoice_id,
            AuditOperation::InvoiceStatusChanged,
            actor,
            Some(old_status.spec_name()),
            Some(new_status.spec_name()),
            None,
            None,
        ),
{
    let old_value = old_status.name();
    let new_value = new_status.name();
    log_invoice_operation(
        audit,
        ledger,
        invoice_id,
        AuditOperation::InvoiceStatusChanged,
        actor,
        Some(old_value),
        Some(new_value),
        None,
        None,
    );
}

/// Records the funding of an invoice.
pub fn log_invoice_funded(
    audit: &mut AuditStorage,
    ledger: LedgerInfo,
    invoice_id: Id,
    investor: Address,
    amount: i128,
)
    requires
        old(audit).wf(),
        old(audit)@.has_room(),
    ensures
        final(audit).wf(),
        logged(
            old(audit)@,
            final(audit)@,
            ledger,
            invoice_id,
            AuditOperation::InvoiceFunded,
            investor,
            None,
            Some(funded_note(amount)),
            Some(amount),
            None,
        ),
{
    let mut note = "Funded with amount: ".to_string();
    append_decimal(&mut note, amount);
    log_invoice_operation(
        audit,
        ledger,
        invoice_id,
        AuditOperation::InvoiceFunded,
        investor,
        None,
        Some(note),
        Some(amount),
        None,
    );
}

/// Records a payment on an invoice.
pub fn log_payment_processed(
    audit: &mut AuditStorage,
    ledger: LedgerInfo,
    invoice_id: Id,
    actor: Address,
    amount: i128,
    payment_type: String,
)
    requires
        old(audit).wf(),
        old(audit)@.has_room(),
    ensures
        final(audit).wf(),
        logged(
            old(audit)@,
            final(audit)@,
            ledger,
            invoice_id,
            AuditOperation::PaymentProcessed,
            actor,
            None,
            Some(payment_note(payment_type@, amount)),
            Some(amount),
            Some(payment_type@),
        ),
{
    let mut note = "Payment type: ".to_string();
    note.append(payment_type.as_str());
    note.append(", Amount: ");
    append_decimal(&mut note, amount);
    log_invoice_operation(
        audit,
        ledger,
        invoice_id,
        AuditOperation::PaymentProcessed,
        actor,
        None,
        Some(note),
        Some(amount),
        Some(payment_type),
    );
}

} // verus!
