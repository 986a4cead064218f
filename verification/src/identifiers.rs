//! The layouts of the 32-byte identifiers, and why no two identifiers issued
//! from one counter are equal.
//!
//! Every identifier embeds, big-endian, the value that its component's
//! counter had when the identifier was issued. A component never lowers its
//! counter, so the identifiers it issues differ pairwise.

use vstd::prelude::*;
use crate::types::Id;

verus! {

/// Byte `k` (0 the most significant) of `value` written big-endian.
pub open spec fn be_byte(value: u64, k: int) -> u8 {
    ((value >> ((56 - 8 * k) as u64)) & 0xff) as u8
}

/// The number whose big-endian bytes are `b0` to `b7`.
pub open spec fn be_value(b0: u8, b1: u8, b2: u8, b3: u8, b4: u8, b5: u8, b6: u8, b7: u8) -> u64 {
    ((b0 as u64) << 56) | ((b1 as u64) << 48) | ((b2 as u64) << 40) | ((b3 as u64) << 32) | ((b4 as u64)
        << 24) | ((b5 as u64) << 16) | ((b6 as u64) << 8) | (b7 as u64)
}

/// The number held big-endian in the eight bytes of `id` that start at `at`.
pub open spec fn u64_at(id: Id, at: int) -> u64 {
    be_value(
        id[at],
        id[at + 1],
        id[at + 2],
        id[at + 3],
        id[at + 4],
        id[at + 5],
        id[at + 6],
        id[at + 7],
    )
}

/// Reading back the big-endian bytes of a number gives the number.
pub proof fn lemma_be_round_trip(value: u64)
    ensures
        be_value(
            be_byte(value, 0),
            be_byte(value, 1),
            be_byte(value, 2),
            be_byte(value, 3),
            be_byte(value, 4),
            be_byte(value, 5),
            be_byte(value, 6),
            be_byte(value, 7),
        ) == value,
{
    assert(((((value >> 56u64) & 0xff) as u8) as u64) << 56 | ((((value >> 48u64) & 0xff) as u8) as u64)
        << 48 | ((((value >> 40u64) & 0xff) as u8) as u64) << 40 | ((((value >> 32u64) & 0xff) as u8) as u64)
        << 32 | ((((value >> 24u64) & 0xff) as u8) as u64) << 24 | ((((value >> 16u64) & 0xff) as u8) as u64)
        << 16 | ((((value >> 8u64) & 0xff) as u8) as u64) << 8 | ((((value >> 0u64) & 0xff) as u8) as u64)
        == value) by (bit_vector);
}

/// Where the tagged layout keeps the counter.
pub const TAGGED_COUNTER_AT: usize = 10;

/// Where an audit identifier keeps the counter.
pub const AUDIT_COUNTER_AT: usize = 14;

/// Where a bid identifier keeps the counter.
pub const BID_COUNTER_AT: usize = 24;

/// The byte that fills the tail of a tagged identifier.
pub open spec fn fill_byte(tag0: u8, tag1: u8, sum: int) -> u8 {
    ((sum + tag0 as int * 256 + tag1 as int) % 256) as u8
}

/// The tagged layout: two tag bytes, the timestamp, the counter, and a fill
/// byte repeated to the end.
pub open spec fn tagged_id_bytes(tag0: u8, tag1: u8, timestamp: u64, counter: u64) -> Seq<u8> {
    Seq::new(
        32,
        |i: int|
            if i == 0 {
                tag0
            } else if i == 1 {
                tag1
            } else if i < 10 {
                be_byte(timestamp, i - 2)
            } else if i < 18 {
                be_byte(counter, i - 10)
            } else {
                fill_byte(tag0, tag1, timestamp as int + counter as int)
            },
    )
}

/// The layout of an audit identifier: the tag, the timestamp, the ledger
/// sequence in four bytes, the counter, and a fill byte repeated to the end.
pub open spec fn audit_id_bytes(timestamp: u64, sequence: u32, counter: u64) -> Seq<u8> {
    Seq::new(
        32,
        |i: int|
            if i == 0 {
                0xADu8
            } else if i == 1 {
                0x1Fu8
            } else if i < 10 {
                be_byte(timestamp, i - 2)
            } else if i < 14 {
                be_byte(sequence as u64, i - 6)
            } else if i < 22 {
                be_byte(counter, i - 14)
            } else {
                fill_byte(0xAD, 0x1F, timestamp as int + sequence as int + counter as int)
            },
    )
}

/// The layout of a bid identifier: zeros, then the counter in the last eight
/// bytes.
pub open spec fn bid_id_bytes(counter: u64) -> Seq<u8> {
    Seq::new(
        32,
        |i: int|
            if i < 24 {
                0u8
            } else {
                be_byte(counter, i - 24)
            },
    )
}

/// The number held big-endian in the eight bytes of `id` that start at `at`.
pub fn read_u64(id: &Id, at: usize) -> (value: u64)
    requires
        at + 8 <= 32,
    ensures
        value == u64_at(*id, at as int),
{
    ((id[at] as u64) << 56) | ((id[at + 1] as u64) << 48) | ((id[at + 2] as u64) << 40) | ((id[at + 3] as u64)
        << 32) | ((id[at + 4] as u64) << 24) | ((id[at + 5] as u64) << 16) | ((id[at + 6] as u64) << 8) | (
    id[at + 7] as u64)
}

/// Writes `value` big-endian into the eight bytes of `id` that start at `at`.
fn put_u64(id: &mut Id, at: usize, value: u64)
    requires
        at + 8 <= 32,
    ensures
        forall|i: int| at <= i < at + 8 ==> final(id)[i] == be_byte(value, i - at),
        forall|i: int| 0 <= i < 32 && !(at <= i < at + 8) ==> final(id)[i] == old(id)[i],
{
    let mut k: usize = 0;
    while k < 8
        invariant
            k <= 8,
            at + 8 <= 32,
            forall|i: int| at <= i < at + k ==> id[i] == be_byte(value, i - at),
            forall|i: int| 0 <= i < 32 && !(at <= i < at + 8) ==> id[i] == old(id)[i],
        decreases 8 - k,
    {
        let shift: u64 = (56 - 8 * k) as u64;
        let low: u64 = (value >> shift) & 0xff;
        assert(low < 256) by (bit_vector)
            requires
                low == (value >> shift) & 0xff,
        ;
        id[at + k] = low as u8;
        k += 1;
    }
}

/// Writes `value` big-endian into the four bytes of `id` that start at `at`.
fn put_u32(id: &mut Id, at: usize, value: u32)
    requires
        at + 4 <= 32,
    ensures
        forall|i: int| at <= i < at + 4 ==> final(id)[i] == be_byte(value as u64, i - at + 4),
        forall|i: int| 0 <= i < 32 && !(at <= i < at + 4) ==> final(id)[i] == old(id)[i],
{
    let wide: u64 = value as u64;
    let mut k: usize = 0;
    while k < 4
        invariant
            k <= 4,
            at + 4 <= 32,
            wide == value as u64,
            forall|i: int| at <= i < at + k ==> id[i] == be_byte(wide, i - at + 4),
            forall|i: int| 0 <= i < 32 && !(at <= i < at + 4) ==> id[i] == old(id)[i],
        decreases 4 - k,
    {
        let shift: u64 = (24 - 8 * k) as u64;
        let low: u64 = (wide >> shift) & 0xff;
        assert(low < 256) by (bit_vector)
            requires
                low == (wide >> shift) & 0xff,
        ;
        id[at + k] = low as u8;
        k += 1;
    }
}

/// The fill byte for a tail, computed without overflow.
fn fill(tag0: u8, tag1: u8, timestamp: u64, sequence: u32, counter: u64) -> (byte: u8)
    ensures
        byte == fill_byte(tag0, tag1, timestamp as int + sequence as int + counter as int),
{
    let sum: u64 = timestamp % 256 + (sequence as u64) % 256 + counter % 256 + tag1 as u64;
    (sum % 256) as u8
}

/// An identifier in the tagged layout.
pub fn tagged_id(tag0: u8, tag1: u8, timestamp: u64, counter: u64) -> (id: Id)
    ensures
        id@ == tagged_id_bytes(tag0, tag1, timestamp, counter),
        u64_at(id, TAGGED_COUNTER_AT as int) == counter,
{
    let mut id: Id = [0u8; 32];
    let tail = fill(tag0, tag1, timestamp, 0, counter);
    let mut i: usize = 18;
    while i < 32
        invariant
            18 <= i <= 32,
            forall|j: int| 18 <= j < i ==> id[j] == tail,
        decreases 32 - i,
    {
        id[i] = tail;
        i += 1;
    }
    id[0] = tag0;
    id[1] = tag1;
    put_u64(&mut id, 2, timestamp);
    put_u64(&mut id, 10, counter);
    proof {
        assert(id@ =~= tagged_id_bytes(tag0, tag1, timestamp, counter));
        lemma_be_round_trip(counter);
    }
    id
}

/// The identifier of an audit entry.
pub fn audit_id(timestamp: u64, sequence: u32, counter: u64) -> (id: Id)
    ensures
        id@ == audit_id_bytes(timestamp, sequence, counter),
        u64_at(id, AUDIT_COUNTER_AT as int) == counter,
{
    let mut id: Id = [0u8; 32];
    let tail = fill(0xAD, 0x1F, timestamp, sequence, counter);
    let mut i: usize = 22;
    while i < 32
        invariant
            22 <= i <= 32,
            forall|j: int| 22 <= j < i ==> id[j] == tail,
        decreases 32 - i,
    {
        id[i] = tail;
        i += 1;
    }
    id[0] = 0xAD;
    id[1] = 0x1F;
    put_u64(&mut id, 2, timestamp);
    put_u32(&mut id, 10, sequence);
    put_u64(&mut id, 14, counter);
    proof {
        assert(id@ =~= audit_id_bytes(timestamp, sequence, counter));
        lemma_be_round_trip(counter);
    }
    id
}

/// The identifier of a bid.
pub fn bid_id(counter: u64) -> (id: Id)
    ensures
        id@ == bid_id_bytes(counter),
        u64_at(id, BID_COUNTER_AT as int) == counter,
{
    let mut id: Id = [0u8; 32];
    put_u64(&mut id, 24, counter);
    proof {
        assert(id@ =~= bid_id_bytes(counter));
        lemma_be_round_trip(counter);
    }
    id
}

/// Two tagged identifiers issued at different counter values differ,
/// whatever their tags and timestamps.
pub proof fn lemma_tagged_ids_distinct(
    tag0: u8,
    tag1: u8,
    first: Id,
    first_timestamp: u64,
    first_counter: u64,
    second: Id,
    second_timestamp: u64,
    second_counter: u64,
)
    requires
        first@ == tagged_id_bytes(tag0, tag1, first_timestamp, first_counter),
        second@ == tagged_id_bytes(tag0, tag1, second_timestamp, second_counter),
        first_counter != second_counter,
    ensures
        first != second,
{
    lemma_be_round_trip(first_counter);
    lemma_be_round_trip(second_counter);
    assert(u64_at(first, 10) == first_counter);
    assert(u64_at(second, 10) == second_counter);
}

/// Two audit identifiers issued at different counter values differ.
pub proof fn lemma_audit_ids_distinct(
    first: Id,
    first_timestamp: u64,
    first_sequence: u32,
    first_counter: u64,
    second: Id,
    second_timestamp: u64,
    second_sequence: u32,
    second_counter: u64,
)
    requires
        first@ == audit_id_bytes(first_timestamp, first_sequence, first_counter),
        second@ == audit_id_bytes(second_timestamp, second_sequence, second_counter),
        first_counter != second_counter,
    ensures
        first != second,
{
    lemma_be_round_trip(first_counter);
    lemma_be_round_trip(second_counter);
    assert(u64_at(first, 14) == first_counter);
    assert(u64_at(second, 14) == second_counter);
}

/// Two bid identifiers issued at different counter values differ.
pub proof fn lemma_bid_ids_distinct(first: Id, first_counter: u64, second: Id, second_counter: u64)
    requires
        first@ == bid_id_bytes(first_counter),
        second@ == bid_id_bytes(second_counter),
        first_counter != second_counter,
    ensures
        first != second,
{
    lemma_be_round_trip(first_counter);
    lemma_be_round_trip(second_counter);
    assert(u64_at(first, 24) == first_counter);
    assert(u64_at(second, 24) == second_counter);
}

/// Tagged identifiers issued one after the other, the counter raised by one
/// each time, differ pairwise, whatever the time at which each was issued.
pub proof fn lemma_sequential_tagged_ids_distinct(
    tag0: u8,
    tag1: u8,
    first: u64,
    timestamps: Seq<u64>,
    ids: Seq<Id>,
)
    requires
        timestamps.len() == ids.len(),
        first + ids.len() <= u64::MAX,
        forall|k: int|
            0 <= k < ids.len() ==> (#[trigger] ids[k])@ == tagged_id_bytes(
                tag0,
                tag1,
                timestamps[k],
                (first + k) as u64,
            ),
    ensures
        forall|i: int, j: int| 0 <= i < ids.len() && 0 <= j < ids.len() && i != j ==> ids[i] != ids[j],
{
    assert forall|i: int, j: int| 0 <= i < ids.len() && 0 <= j < ids.len() && i != j implies ids[i]
        != ids[j] by {
        lemma_tagged_ids_distinct(
            tag0,
            tag1,
            ids[i],
            timestamps[i],
            (first + i) as u64,
            ids[j],
            timestamps[j],
            (first + j) as u64,
        );
    }
}

/// Bid identifiers issued one after the other, the counter raised by one
/// each time, differ pairwise.
pub proof fn lemma_sequential_bid_ids_distinct(first: u64, ids: Seq<Id>)
    requires
        first + ids.len() <= u64::MAX,
        forall|k: int| 0 <= k < ids.len() ==> (#[trigger] ids[k])@ == bid_id_bytes((first + k) as u64),
    ensures
        forall|i: int, j: int| 0 <= i < ids.len() && 0 <= j < ids.len() && i != j ==> ids[i] != ids[j],
{
    assert forall|i: int, j: int| 0 <= i < ids.len() && 0 <= j < ids.len() && i != j implies ids[i]
        != ids[j] by {
        lemma_bid_ids_distinct(ids[i], (first + i) as u64, ids[j], (first + j) as u64);
    }
}

/// Audit identifiers issued one after the other, the counter raised by one
/// each time, differ pairwise, whatever the ledger said when each was
/// issued.
pub proof fn lemma_sequential_audit_ids_distinct(
    first: u64,
    timestamps: Seq<u64>,
    sequences: Seq<u32>,
    ids: Seq<Id>,
)
    requires
        timestamps.len() == ids.len(),
        sequences.len() == ids.len(),
        first + ids.len() <= u64::MAX,
        forall|k: int|
            0 <= k < ids.len() ==> (#[trigger] ids[k])@ == audit_id_bytes(
                timestamps[k],
                sequences[k],
                (first + k) as u64,
            ),
    ensures
        forall|i: int, j: int| 0 <= i < ids.len() && 0 <= j < ids.len() && i != j ==> ids[i] != ids[j],
{
    assert forall|i: int, j: int| 0 <= i < ids.len() && 0 <= j < ids.len() && i != j implies ids[i]
        != ids[j] by {
        lemma_audit_ids_distinct(
            ids[i],
            timestamps[i],
            sequences[i],
            (first + i) as u64,
            ids[j],
            timestamps[j],
            sequences[j],
            (first + j) as u64,
        );
    }
}

} // verus!
