//! Reading the stored form of a ledger back.
//!
//! The reader takes exactly what the writer gives: the fields of a record
//! in their order and nothing besides, every size in its shortest form,
//! and no identifier twice.

use crate::ledger::{
    distinct_ids, lists, HTLCStatus, InboundPaymentInfoStorage, MillisatAmount,
    OutboundPaymentInfoStorage, PaymentInfo,
};
use crate::wire::{
    amount_bytes, amount_read, be_bytes, be_value, big_size, big_size_read, collection_length,
    entries_bytes, field, ledger_bytes, lemma_amount_round_trip, lemma_be_bytes_len,
    lemma_be_round_trip, lemma_big_size_round_trip, lemma_pow256_values, optional_array,
    prefixed, read_be, read_big_size, record_bytes, record_fields, status_bytes,
};
use vstd::array::group_array_axioms;
use vstd::prelude::*;
use vstd::slice::slice_subrange;

verus! {

/// What a record says, with its byte arrays as sequences.
pub struct RecordView {
    pub preimage: Option<Seq<u8>>,
    pub secret: Option<Seq<u8>>,
    pub status: HTLCStatus,
    pub amt_msat: MillisatAmount,
}

/// The bytes of an optional array.
pub open spec fn optional_view(value: Option<[u8; 32]>) -> Option<Seq<u8>> {
    match value {
        Some(bytes) => Some(bytes@),
        None => None,
    }
}

/// What a record says.
pub open spec fn record_view(info: PaymentInfo) -> RecordView {
    RecordView {
        preimage: optional_view(info.preimage),
        secret: optional_view(info.secret),
        status: info.status,
        amt_msat: info.amt_msat,
    }
}

/// What entries say: for each, the bytes of the identifier and what the
/// record says.
pub open spec fn entry_views(entries: Seq<([u8; 32], PaymentInfo)>) -> Seq<(Seq<u8>, RecordView)> {
    Seq::new(entries.len(), |i: int| (entries[i].0@, record_view(entries[i].1)))
}

/// What a reader makes of the value of a field that holds an optional
/// 32-byte value: a single zero byte is none; the byte 33 and 32 more
/// bytes are those bytes; anything else is refused.
pub open spec fn optional_array_value(value: Seq<u8>) -> Option<Option<Seq<u8>>> {
    if value.len() == 1 && value[0] == 0 {
        Some(None)
    } else if value.len() == 33 && value[0] == 33 {
        Some(Some(value.skip(1)))
    } else {
        None
    }
}

/// The status that a number stands for.
pub open spec fn status_of_tag(tag: u8) -> Option<HTLCStatus> {
    if tag == 0 {
        Some(HTLCStatus::Pending)
    } else if tag == 1 {
        Some(HTLCStatus::Succeeded)
    } else if tag == 2 {
        Some(HTLCStatus::Failed)
    } else {
        None
    }
}

/// What a reader makes of the value of the status field: the number of a
/// status and an empty stream.
pub open spec fn status_value(value: Seq<u8>) -> Option<HTLCStatus> {
    if value.len() == 2 && value[1] == 0 {
        status_of_tag(value[0])
    } else {
        None
    }
}

/// What a reader makes of the value of the amount field: an amount that
/// takes the whole value.
pub open spec fn amount_value(value: Seq<u8>) -> Option<MillisatAmount> {
    match amount_read(value) {
        Some((amount, taken)) => if taken == value.len() {
            Some(amount)
        } else {
            None
        },
        None => None,
    }
}

/// What a reader makes of a field with the tag `tag` at the start of
/// `bytes`: the field's value and the number of bytes that the field took.
pub open spec fn field_read(bytes: Seq<u8>, tag: nat) -> Option<(Seq<u8>, nat)> {
    match big_size_read(bytes) {
        Some((found, tag_len)) => if found != tag {
            None
        } else {
            match big_size_read(bytes.skip(tag_len as int)) {
                Some((len, len_len)) => if bytes.len() >= tag_len + len_len + len {
                    Some(
                        (
                            bytes.subrange(
                                (tag_len + len_len) as int,
                                (tag_len + len_len + len) as int,
                            ),
                            tag_len + len_len + len,
                        ),
                    )
                } else {
                    None
                },
                None => None,
            }
        },
        None => None,
    }
}

/// What a reader makes of the fields of a record: the preimage under tag
/// 0, the secret under 2, the status under 4, the amount under 6, and no
/// byte more.
#[verifier::opaque]
pub open spec fn record_fields_read(bytes: Seq<u8>) -> Option<RecordView> {
    match field_read(bytes, 0) {
        Some((v0, n0)) => match (optional_array_value(v0), field_read(bytes.skip(n0 as int), 2)) {
            (Some(preimage), Some((v2, n2))) => match (
                optional_array_value(v2),
                field_read(bytes.skip((n0 + n2) as int), 4),
            ) {
                (Some(secret), Some((v4, n4))) => match (
                    status_value(v4),
                    field_read(bytes.skip((n0 + n2 + n4) as int), 6),
                ) {
                    (Some(status), Some((v6, n6))) => match amount_value(v6) {
                        Some(amt_msat) => if n0 + n2 + n4 + n6 == bytes.len() {
                            Some(RecordView { preimage, secret, status, amt_msat })
                        } else {
                            None
                        },
                        None => None,
                    },
                    _ => None,
                },
                _ => None,
            },
            _ => None,
        },
        None => None,
    }
}

/// What a reader makes of a record at the start of `bytes`: the record and
/// the number of bytes it took.
#[verifier::opaque]
pub open spec fn record_read(bytes: Seq<u8>) -> Option<(RecordView, nat)> {
    match big_size_read(bytes) {
        Some((len, len_len)) => if bytes.len() >= len_len + len {
            match record_fields_read(bytes.subrange(len_len as int, (len_len + len) as int)) {
                Some(record) => Some((record, len_len + len)),
                None => None,
            }
        } else {
            None
        },
        None => None,
    }
}

/// What a reader makes of `count` entries at the start of `bytes`: the
/// entries in order and the number of bytes they took.
pub open spec fn entries_read(bytes: Seq<u8>, count: nat) -> Option<
    (Seq<(Seq<u8>, RecordView)>, nat),
>
    decreases count,
{
    if count == 0 {
        Some((Seq::empty(), 0nat))
    } else if bytes.len() < 32 {
        None
    } else {
        match record_read(bytes.skip(32)) {
            Some((record, taken)) => match entries_read(
                bytes.skip(32 + taken as int),
                (count - 1) as nat,
            ) {
                Some((rest, more)) => Some(
                    (seq![(bytes.take(32), record)] + rest, 32 + taken + more),
                ),
                None => None,
            },
            None => None,
        }
    }
}

/// What a reader makes of the number of entries at the start of `bytes`:
/// the number and the bytes it took.
pub open spec fn collection_length_read(bytes: Seq<u8>) -> Option<(nat, nat)> {
    if bytes.len() < 2 {
        None
    } else if be_value(bytes.take(2)) < 0xffff {
        Some((be_value(bytes.take(2)), 2nat))
    } else if bytes.len() >= 10 && be_value(bytes.subrange(2, 10)) + 0xffff <= u64::MAX {
        Some((be_value(bytes.subrange(2, 10)) + 0xffff, 10nat))
    } else {
        None
    }
}

/// What a reader makes of a table: the number of its entries, then the
/// entries, and no byte more.
pub open spec fn table_read(bytes: Seq<u8>) -> Option<Seq<(Seq<u8>, RecordView)>> {
    match collection_length_read(bytes) {
        Some((count, taken)) => match entries_read(bytes.skip(taken as int), count) {
            Some((entries, more)) => if taken + more == bytes.len() {
                Some(entries)
            } else {
                None
            },
            None => None,
        },
        None => None,
    }
}

/// What a reader makes of a stored ledger: a stream of the length given
/// in front, whose one field, under tag 0, is the table; and no byte
/// more.
pub open spec fn ledger_read(bytes: Seq<u8>) -> Option<Seq<(Seq<u8>, RecordView)>> {
    match big_size_read(bytes) {
        Some((len, len_len)) => if bytes.len() == len_len + len {
            match field_read(bytes.skip(len_len as int), 0) {
                Some((table, taken)) => if taken == len {
                    table_read(table)
                } else {
                    None
                },
                None => None,
            }
        } else {
            None
        },
        None => None,
    }
}

/// A field reads back as its value, whatever follows it.
pub proof fn lemma_field_round_trip(tag: nat, value: Seq<u8>, rest: Seq<u8>)
    requires
        tag <= u64::MAX,
        value.len() <= u64::MAX,
    ensures
        field_read(field(tag, value) + rest, tag) == Some((value, field(tag, value).len())),
{
    let bytes = field(tag, value) + rest;
    let after_tag = big_size(value.len()) + (value + rest);
    assert(bytes =~= big_size(tag) + after_tag);
    lemma_big_size_round_trip(tag, after_tag);
    assert(bytes.skip(big_size(tag).len() as int) =~= after_tag);
    lemma_big_size_round_trip(value.len(), value + rest);
    let start = big_size(tag).len() + big_size(value.len()).len();
    assert(bytes.subrange(start as int, (start + value.len()) as int) =~= value);
}

/// The value of every field of a record reads back as what was written.
pub proof fn lemma_values_round_trip(info: PaymentInfo)
    ensures
        optional_array_value(optional_array(info.preimage)) == Some(
            optional_view(info.preimage),
        ),
        optional_array_value(optional_array(info.secret)) == Some(optional_view(info.secret)),
        status_value(status_bytes(info.status)) == Some(info.status),
        amount_value(amount_bytes(info.amt_msat)) == Some(info.amt_msat),
        optional_array(info.preimage).len() <= 33,
        optional_array(info.secret).len() <= 33,
        status_bytes(info.status).len() == 2,
        amount_bytes(info.amt_msat).len() <= 9,
{
    if let Some(bytes) = info.preimage {
        assert(optional_array(info.preimage).skip(1) =~= bytes@);
    }
    if let Some(bytes) = info.secret {
        assert(optional_array(info.secret).skip(1) =~= bytes@);
    }
    lemma_amount_round_trip(info.amt_msat, Seq::empty());
    assert(amount_bytes(info.amt_msat) + Seq::<u8>::empty() =~= amount_bytes(info.amt_msat));
    lemma_be_bytes_len(info.amt_msat.0.unwrap_or(0) as nat, 8);
}

/// The fields of a record read back as the record.
pub proof fn lemma_record_fields_round_trip(info: PaymentInfo)
    ensures
        record_fields_read(record_fields(info)) == Some(record_view(info)),
        record_fields(info).len() <= 88,
{
    reveal(record_fields_read);
    lemma_values_round_trip(info);
    let f0 = field(0, optional_array(info.preimage));
    let f2 = field(2, optional_array(info.secret));
    let f4 = field(4, status_bytes(info.status));
    let f6 = field(6, amount_bytes(info.amt_msat));
    let bytes = record_fields(info);
    assert(bytes =~= f0 + (f2 + f4 + f6));
    lemma_field_round_trip(0, optional_array(info.preimage), f2 + f4 + f6);
    assert(bytes.skip(f0.len() as int) =~= f2 + (f4 + f6));
    lemma_field_round_trip(2, optional_array(info.secret), f4 + f6);
    assert(bytes.skip((f0.len() + f2.len()) as int) =~= f4 + f6);
    lemma_field_round_trip(4, status_bytes(info.status), f6);
    assert(bytes.skip((f0.len() + f2.len() + f4.len()) as int) =~= f6 + Seq::<u8>::empty());
    lemma_field_round_trip(6, amount_bytes(info.amt_msat), Seq::empty());
}

/// A record reads back as itself, whatever follows it.
pub proof fn lemma_record_round_trip(info: PaymentInfo, rest: Seq<u8>)
    ensures
        record_read(record_bytes(info) + rest) == Some(
            (record_view(info), record_bytes(info).len()),
        ),
{
    reveal(record_read);
    lemma_record_fields_round_trip(info);
    let fields = record_fields(info);
    let bytes = record_bytes(info) + rest;
    assert(bytes =~= big_size(fields.len()) + (fields + rest));
    lemma_big_size_round_trip(fields.len(), fields + rest);
    let start = big_size(fields.len()).len();
    assert(bytes.subrange(start as int, (start + fields.len()) as int) =~= fields);
}

/// The bytes of a run of entries start with the first entry: its
/// identifier, then its record, then the bytes of the other entries.
pub proof fn lemma_entries_bytes_first(entries: Seq<([u8; 32], PaymentInfo)>)
    requires
        entries.len() > 0,
    ensures
        entries_bytes(entries) == entries[0].0@ + record_bytes(entries[0].1) + entries_bytes(
            entries.drop_first(),
        ),
    decreases entries.len(),
{
    let head = entries[0].0@ + record_bytes(entries[0].1);
    if entries.len() == 1 {
        assert(entries.drop_last() =~= Seq::<([u8; 32], PaymentInfo)>::empty());
        assert(entries.drop_first() =~= Seq::<([u8; 32], PaymentInfo)>::empty());
        assert(entries_bytes(entries) =~= head + entries_bytes(entries.drop_first()));
    } else {
        let front = entries.drop_last();
        let tail = entries.drop_first();
        lemma_entries_bytes_first(front);
        assert(front.drop_first() =~= tail.drop_last());
        assert(front[0] == entries[0]);
        assert(tail.last() == entries.last());
        let last = entries.last().0@ + record_bytes(entries.last().1);
        assert(entries_bytes(entries) =~= entries_bytes(front) + last);
        assert(entries_bytes(tail) =~= entries_bytes(tail.drop_last()) + last);
        assert(entries_bytes(entries) =~= head + entries_bytes(tail));
    }
}

/// A run of entries reads back as itself, whatever follows it.
pub proof fn lemma_entries_round_trip(entries: Seq<([u8; 32], PaymentInfo)>, rest: Seq<u8>)
    ensures
        entries_read(entries_bytes(entries) + rest, entries.len()) == Some(
            (entry_views(entries), entries_bytes(entries).len()),
        ),
    decreases entries.len(),
{
    let bytes = entries_bytes(entries) + rest;
    if entries.len() == 0 {
        assert(entry_views(entries) =~= Seq::<(Seq<u8>, RecordView)>::empty());
    } else {
        let key = entries[0].0@;
        let record = record_bytes(entries[0].1);
        let tail = entries.drop_first();
        lemma_entries_bytes_first(entries);
        let after = entries_bytes(tail) + rest;
        assert(bytes =~= key + (record + after));
        assert(key.len() == 32);
        assert(bytes.take(32) =~= key);
        assert(bytes.skip(32) =~= record + after);
        lemma_record_round_trip(entries[0].1, after);
        assert(bytes.skip(32 + record.len() as int) =~= after);
        lemma_entries_round_trip(tail, rest);
        assert(entry_views(entries) =~= seq![(key, record_view(entries[0].1))] + entry_views(
            tail,
        ));
    }
}

/// The number of entries reads back as itself, whatever follows it.
pub proof fn lemma_collection_length_round_trip(count: nat, rest: Seq<u8>)
    requires
        count <= u64::MAX,
    ensures
        collection_length_read(collection_length(count) + rest) == Some(
            (count, collection_length(count).len()),
        ),
{
    lemma_pow256_values();
    let bytes = collection_length(count) + rest;
    if count < 0xffff {
        lemma_be_bytes_len(count, 2);
        lemma_be_round_trip(count, 2);
        assert(bytes.take(2) =~= be_bytes(count, 2));
    } else {
        let beyond = (count - 0xffff) as nat;
        lemma_be_bytes_len(0xffff, 2);
        lemma_be_round_trip(0xffff, 2);
        lemma_be_bytes_len(beyond, 8);
        lemma_be_round_trip(beyond, 8);
        assert(bytes.take(2) =~= be_bytes(0xffff, 2));
        assert(bytes.subrange(2, 10) =~= be_bytes(beyond, 8));
    }
}

/// A stored ledger reads back as the entries that were written, in the
/// order in which they were written.
pub proof fn lemma_ledger_round_trip(entries: Seq<([u8; 32], PaymentInfo)>)
    requires
        ledger_bytes(entries).len() <= u64::MAX,
    ensures
        ledger_read(ledger_bytes(entries)) == Some(entry_views(entries)),
{
    let count = collection_length(entries.len());
    let table = count + entries_bytes(entries);
    let stream = field(0, table);
    let bytes = ledger_bytes(entries);
    let none = Seq::<u8>::empty();
    assert(bytes == prefixed(stream));
    assert(stream.len() <= bytes.len());
    assert(table.len() <= stream.len());
    assert(entries.len() <= u64::MAX) by {
        lemma_entries_bytes_len(entries);
    }
    assert(bytes =~= big_size(stream.len()) + (stream + none));
    lemma_big_size_round_trip(stream.len(), stream + none);
    assert(bytes.skip(big_size(stream.len()).len() as int) =~= stream + none);
    lemma_field_round_trip(0, table, none);
    assert(table =~= count + (entries_bytes(entries) + none));
    lemma_collection_length_round_trip(entries.len(), entries_bytes(entries) + none);
    assert(table.skip(count.len() as int) =~= entries_bytes(entries) + none);
    lemma_entries_round_trip(entries, none);
}

/// Every entry takes at least one byte.
pub proof fn lemma_entries_bytes_len(entries: Seq<([u8; 32], PaymentInfo)>)
    ensures
        entries.len() <= entries_bytes(entries).len(),
    decreases entries.len(),
{
    if entries.len() > 0 {
        lemma_entries_bytes_len(entries.drop_last());
        assert(entries.last().0@.len() == 32);
    }
}

/// Reads a field with the tag `tag` at the start of `bytes`.
fn read_field<'a>(bytes: &'a [u8], tag: u64) -> (r: Option<(&'a [u8], usize)>)
    ensures
        r.is_some() == field_read(bytes@, tag as nat).is_some(),
        r matches Some((value, taken)) ==> field_read(bytes@, tag as nat) == Some(
            (value@, taken as nat),
        ),
{
    let n: usize = bytes.len();
    match read_big_size(bytes) {
        None => None,
        Some((found, tag_len)) => {
            if found != tag {
                return None;
            }
            let after = slice_subrange(bytes, tag_len, n);
            assert(after@ =~= bytes@.skip(tag_len as int));
            match read_big_size(after) {
                None => None,
                Some((len, len_len)) => {
                    let room: usize = n - tag_len - len_len;
                    if len > room as u64 {
                        return None;
                    }
                    let start: usize = tag_len + len_len;
                    let end: usize = start + len as usize;
                    Some((slice_subrange(bytes, start, end), end))
                },
            }
        },
    }
}

/// Reads the value of a field that holds an optional 32-byte value.
fn read_optional_array(value: &[u8]) -> (r: Option<Option<[u8; 32]>>)
    ensures
        r.is_some() == optional_array_value(value@).is_some(),
        r matches Some(found) ==> optional_array_value(value@) == Some(optional_view(found)),
{
    if value.len() == 1 && value[0] == 0 {
        Some(None)
    } else if value.len() == 33 && value[0] == 33 {
        let mut found: [u8; 32] = [0u8; 32];
        let mut i: usize = 0;
        while i < 32
            invariant
                i <= 32,
                value@.len() == 33,
                forall|k: int| 0 <= k < i ==> found@[k] == value@[k + 1],
            decreases 32 - i,
        {
            found[i] = value[i + 1];
            i = i + 1;
        }
        assert(found@ =~= value@.skip(1));
        Some(Some(found))
    } else {
        None
    }
}

/// Reads the value of the status field.
fn read_status(value: &[u8]) -> (r: Option<HTLCStatus>)
    ensures
        r == status_value(value@),
{
    if value.len() == 2 && value[1] == 0 {
        let tag = value[0];
        if tag == 0 {
            Some(HTLCStatus::Pending)
        } else if tag == 1 {
            Some(HTLCStatus::Succeeded)
        } else if tag == 2 {
            Some(HTLCStatus::Failed)
        } else {
            None
        }
    } else {
        None
    }
}

/// Reads the value of the amount field.
fn read_amount(value: &[u8]) -> (r: Option<MillisatAmount>)
    ensures
        r == amount_value(value@),
{
    match MillisatAmount::read(value) {
        Some((amount, taken)) => if taken == value.len() {
            Some(amount)
        } else {
            None
        },
        None => None,
    }
}

/// Reads the fields of a record.
fn read_record_fields(bytes: &[u8]) -> (r: Option<PaymentInfo>)
    ensures
        r.is_some() == record_fields_read(bytes@).is_some(),
        r matches Some(info) ==> record_fields_read(bytes@) == Some(record_view(info)),
{
    reveal(record_fields_read);
    let n: usize = bytes.len();
    let (v0, n0) = match read_field(bytes, 0) {
        Some(found) => found,
        None => {
            return None;
        },
    };
    let preimage = match read_optional_array(v0) {
        Some(found) => found,
        None => {
            return None;
        },
    };
    let rest = slice_subrange(bytes, n0, n);
    assert(rest@ =~= bytes@.skip(n0 as int));
    let (v2, n2) = match read_field(rest, 2) {
        Some(found) => found,
        None => {
            return None;
        },
    };
    let secret = match read_optional_array(v2) {
        Some(found) => found,
        None => {
            return None;
        },
    };
    let rest = slice_subrange(bytes, n0 + n2, n);
    assert(rest@ =~= bytes@.skip((n0 + n2) as int));
    let (v4, n4) = match read_field(rest, 4) {
        Some(found) => found,
        None => {
            return None;
        },
    };
    let status = match read_status(v4) {
        Some(found) => found,
        None => {
            return None;
        },
    };
    let rest = slice_subrange(bytes, n0 + n2 + n4, n);
    assert(rest@ =~= bytes@.skip((n0 + n2 + n4) as int));
    let (v6, n6) = match read_field(rest, 6) {
        Some(found) => found,
        None => {
            return None;
        },
    };
    let amt_msat = match read_amount(v6) {
        Some(found) => found,
        None => {
            return None;
        },
    };
    if n0 + n2 + n4 + n6 != n {
        return None;
    }
    Some(PaymentInfo { preimage, secret, status, amt_msat })
}

/// Reads a record at the start of `bytes`.
fn read_record(bytes: &[u8]) -> (r: Option<(PaymentInfo, usize)>)
    ensures
        r.is_some() == record_read(bytes@).is_some(),
        r matches Some((info, taken)) ==> taken <= bytes@.len() && record_read(bytes@) == Some(
            (record_view(info), taken as nat),
        ),
{
    reveal(record_read);
    let n: usize = bytes.len();
    match read_big_size(bytes) {
        None => None,
        Some((len, len_len)) => {
            if len > (n - len_len) as u64 {
                return None;
            }
            let end: usize = len_len + len as usize;
            match read_record_fields(slice_subrange(bytes, len_len, end)) {
                Some(info) => Some((info, end)),
                None => None,
            }
        },
    }
}

/// What is read once some entries have been read: the entries read so
/// far followed by what the rest of the bytes yields.
spec fn read_on(
    so_far: Seq<(Seq<u8>, RecordView)>,
    taken: nat,
    rest: Option<(Seq<(Seq<u8>, RecordView)>, nat)>,
) -> Option<(Seq<(Seq<u8>, RecordView)>, nat)> {
    match rest {
        Some((entries, more)) => Some((so_far + entries, taken + more)),
        None => None,
    }
}

/// Reads `count` entries at the start of `bytes`.
fn read_entries(bytes: &[u8], count: u64) -> (r: Option<(Vec<([u8; 32], PaymentInfo)>, usize)>)
    ensures
        r.is_some() == entries_read(bytes@, count as nat).is_some(),
        r matches Some((entries, taken)) ==> taken <= bytes@.len() && entries_read(
            bytes@,
            count as nat,
        ) == Some((entry_views(entries@), taken as nat)),
{
    let n: usize = bytes.len();
    let mut out: Vec<([u8; 32], PaymentInfo)> = Vec::new();
    let mut at: usize = 0;
    let mut i: u64 = 0;
    proof {
        assert(bytes@.skip(0) =~= bytes@);
        assert(entry_views(out@) =~= Seq::<(Seq<u8>, RecordView)>::empty());
        let whole = entries_read(bytes@, count as nat);
        if let Some((entries, more)) = whole {
            assert(entry_views(out@) + entries =~= entries);
        }
    }
    while i < count
        invariant
            n == bytes@.len(),
            at <= n,
            i <= count,
            entries_read(bytes@, count as nat) == read_on(
                entry_views(out@),
                at as nat,
                entries_read(bytes@.skip(at as int), (count - i) as nat),
            ),
        decreases count - i,
    {
        let ghost here = bytes@.skip(at as int);
        if n - at < 32 {
            return None;
        }
        let mut key: [u8; 32] = [0u8; 32];
        let mut k: usize = 0;
        while k < 32
            invariant
                k <= 32,
                n == bytes@.len(),
                at + 32 <= n,
                forall|j: int| 0 <= j < k ==> key@[j] == bytes@[at + j],
            decreases 32 - k,
        {
            key[k] = bytes[at + k];
            k = k + 1;
        }
        assert(key@ =~= here.take(32));
        let after = slice_subrange(bytes, at + 32, n);
        assert(after@ =~= here.skip(32));
        match read_record(after) {
            None => {
                return None;
            },
            Some((info, taken)) => {
                proof {
                    let next = entries_read(here.skip(32 + taken as int), (count - i - 1) as nat);
                    assert(here.skip(32 + taken as int) =~= bytes@.skip(at + 32 + taken));
                    let entry = (key@, record_view(info));
                    assert(entry_views(out@.push((key, info))) =~= entry_views(out@) + seq![entry]);
                    if let Some((entries, more)) = next {
                        assert(entry_views(out@) + (seq![entry] + entries) =~= entry_views(out@)
                            + seq![entry] + entries);
                    }
                }
                out.push((key, info));
                at = at + 32 + taken;
                i = i + 1;
            },
        }
    }
    assert(entry_views(out@) + Seq::<(Seq<u8>, RecordView)>::empty() =~= entry_views(out@));
    Some((out, at))
}

/// Reads the number of entries at the start of `bytes`.
fn read_collection_length(bytes: &[u8]) -> (r: Option<(u64, usize)>)
    ensures
        r.is_some() == collection_length_read(bytes@).is_some(),
        r matches Some((count, taken)) ==> collection_length_read(bytes@) == Some(
            (count as nat, taken as nat),
        ),
{
    if bytes.len() < 2 {
        return None;
    }
    assert(bytes@.take(2) =~= bytes@.subrange(0, 2));
    let short = read_be(bytes, 0, 2);
    if short < 0xffff {
        Some((short, 2))
    } else if bytes.len() >= 10 {
        let beyond = read_be(bytes, 2, 8);
        if beyond <= u64::MAX - 0xffff {
            Some((beyond + 0xffff, 10))
        } else {
            None
        }
    } else {
        None
    }
}

/// Reads a table.
fn read_table(bytes: &[u8]) -> (r: Option<Vec<([u8; 32], PaymentInfo)>>)
    ensures
        r.is_some() == table_read(bytes@).is_some(),
        r matches Some(entries) ==> table_read(bytes@) == Some(entry_views(entries@)),
{
    let n: usize = bytes.len();
    match read_collection_length(bytes) {
        None => None,
        Some((count, taken)) => {
            let rest = slice_subrange(bytes, taken, n);
            assert(rest@ =~= bytes@.skip(taken as int));
            match read_entries(rest, count) {
                Some((entries, more)) => if taken + more == n {
                    Some(entries)
                } else {
                    None
                },
                None => None,
            }
        },
    }
}

/// Reads a stored ledger: the entries in the order in which they stand.
/// Bytes that are no stored ledger give `None`.
pub fn decode_entries(bytes: &[u8]) -> (r: Option<Vec<([u8; 32], PaymentInfo)>>)
    ensures
        r.is_some() == ledger_read(bytes@).is_some(),
        r matches Some(entries) ==> ledger_read(bytes@) == Some(entry_views(entries@)),
{
    let n: usize = bytes.len();
    match read_big_size(bytes) {
        None => None,
        Some((len, len_len)) => {
            if len != (n - len_len) as u64 {
                return None;
            }
            let stream = slice_subrange(bytes, len_len, n);
            assert(stream@ =~= bytes@.skip(len_len as int));
            match read_field(stream, 0) {
                Some((table, taken)) => if taken as u64 == len {
                    read_table(table)
                } else {
                    None
                },
                None => None,
            }
        },
    }
}

/// Whether no identifier comes twice in what was read.
pub open spec fn distinct_read(read: Seq<(Seq<u8>, RecordView)>) -> bool {
    forall|i: int, j: int|
        0 <= i < j < read.len() ==> (#[trigger] read[i]).0 != (#[trigger] read[j]).0
}

/// Whether a ledger holds what was read and nothing else: each entry
/// read is a record of the ledger, and every identifier of the ledger was
/// read.
pub open spec fn holds(ledger: Map<Seq<u8>, PaymentInfo>, read: Seq<(Seq<u8>, RecordView)>) -> bool {
    &&& forall|i: int|
        0 <= i < read.len() ==> ledger.contains_key((#[trigger] read[i]).0) && record_view(
            ledger[read[i].0],
        ) == read[i].1
    &&& forall|id: Seq<u8>|
        ledger.contains_key(id) ==> exists|i: int|
            0 <= i < read.len() && (#[trigger] read[i]).0 == id
}

/// What a reader makes of a stored ledger as a whole: the entries, where
/// the bytes are a stored ledger in which no identifier comes twice.
pub open spec fn stored_ledger(bytes: Seq<u8>) -> Option<Seq<(Seq<u8>, RecordView)>> {
    match ledger_read(bytes) {
        Some(read) => if distinct_read(read) {
            Some(read)
        } else {
            None
        },
        None => None,
    }
}

impl OutboundPaymentInfoStorage {
    /// Reads a ledger in its stored form. Gives the ledger that holds
    /// what the bytes say, or `None` where the bytes are no stored ledger.
    pub fn decode(bytes: &[u8]) -> (r: Option<Self>)
        ensures
            r.is_some() == stored_ledger(bytes@).is_some(),
            r matches Some(ledger) ==> holds(ledger@, stored_ledger(bytes@).unwrap()),
    {
        match decode_entries(bytes) {
            Some(entries) => {
                let r = Self::from_entries(&entries);
                proof {
                    lemma_listing_holds(entries@);
                }
                r
            },
            None => None,
        }
    }
}

impl InboundPaymentInfoStorage {
    /// Reads a ledger in its stored form. Gives the ledger that holds
    /// what the bytes say, or `None` where the bytes are no stored ledger.
    pub fn decode(bytes: &[u8]) -> (r: Option<Self>)
        ensures
            r.is_some() == stored_ledger(bytes@).is_some(),
            r matches Some(ledger) ==> holds(ledger@, stored_ledger(bytes@).unwrap()),
    {
        match decode_entries(bytes) {
            Some(entries) => {
                let r = Self::from_entries(&entries);
                proof {
                    lemma_listing_holds(entries@);
                }
                r
            },
            None => None,
        }
    }
}

/// What is read of a listing has an identifier twice exactly where the
/// listing has, and every ledger that the listing lists holds it.
pub proof fn lemma_listing_holds(entries: Seq<([u8; 32], PaymentInfo)>)
    ensures
        distinct_read(entry_views(entries)) == distinct_ids(entries),
        forall|ledger: Map<Seq<u8>, PaymentInfo>| #[trigger]
            lists(entries, ledger) ==> holds(ledger, entry_views(entries)),
{
    let read = entry_views(entries);
    if distinct_ids(entries) {
        assert forall|i: int, j: int| 0 <= i < j < read.len() implies (#[trigger] read[i]).0 != (
        #[trigger] read[j]).0 by {
            assert(entries[i].0@ != entries[j].0@);
        }
    }
    if distinct_read(read) {
        assert forall|i: int, j: int| 0 <= i < j < entries.len() implies (
        #[trigger] entries[i]).0@ != (#[trigger] entries[j]).0@ by {
            assert(read[i].0 != read[j].0);
        }
    }
    assert forall|ledger: Map<Seq<u8>, PaymentInfo>| #[trigger]
        lists(entries, ledger) implies holds(ledger, read) by {
        assert forall|i: int| 0 <= i < read.len() implies ledger.contains_key(
            (#[trigger] read[i]).0,
        ) && record_view(ledger[read[i].0]) == read[i].1 by {
            assert(ledger.contains_pair(entries[i].0@, entries[i].1));
        }
        assert forall|id: Seq<u8>| ledger.contains_key(id) implies exists|i: int|
            0 <= i < read.len() && (#[trigger] read[i]).0 == id by {
            let i = choose|i: int| 0 <= i < entries.len() && (#[trigger] entries[i]).0@ == id;
            assert(read[i].0 == id);
        }
    }
}

/// Records that say the same are the same record.
pub proof fn lemma_record_view_is_the_record(a: PaymentInfo, b: PaymentInfo)
    requires
        record_view(a) == record_view(b),
    ensures
        a == b,
{
    broadcast use group_array_axioms;

    if let (Some(x), Some(y)) = (a.preimage, b.preimage) {
        assert(x@ == y@);
        assert(x =~= y);
    }
    if let (Some(x), Some(y)) = (a.secret, b.secret) {
        assert(x@ == y@);
        assert(x =~= y);
    }
}

/// Two ledgers that hold the same are the same ledger.
pub proof fn lemma_holds_one_ledger(
    a: Map<Seq<u8>, PaymentInfo>,
    b: Map<Seq<u8>, PaymentInfo>,
    read: Seq<(Seq<u8>, RecordView)>,
)
    requires
        holds(a, read),
        holds(b, read),
    ensures
        a == b,
{
    assert forall|id: Seq<u8>| a.contains_key(id) == b.contains_key(id) by {
        if a.contains_key(id) {
            let i = choose|i: int| 0 <= i < read.len() && (#[trigger] read[i]).0 == id;
            assert(b.contains_key(read[i].0));
        }
        if b.contains_key(id) {
            let i = choose|i: int| 0 <= i < read.len() && (#[trigger] read[i]).0 == id;
            assert(a.contains_key(read[i].0));
        }
    }
    assert forall|id: Seq<u8>| a.contains_key(id) implies a[id] == b[id] by {
        let i = choose|i: int| 0 <= i < read.len() && (#[trigger] read[i]).0 == id;
        assert(record_view(a[read[i].0]) == read[i].1);
        assert(record_view(b[read[i].0]) == read[i].1);
        lemma_record_view_is_the_record(a[id], b[id]);
    }
    assert(a =~= b);
}

/// What is stored can be read back: the bytes written for any listing of
/// a ledger are a stored ledger, and a ledger that holds what is read
/// from them is that ledger. Every record that was in the ledger when it
/// was written is found again as it was, and no other.
pub proof fn lemma_stored_ledger_reads_back(
    entries: Seq<([u8; 32], PaymentInfo)>,
    ledger: Map<Seq<u8>, PaymentInfo>,
    read_back: Map<Seq<u8>, PaymentInfo>,
)
    requires
        lists(entries, ledger),
        ledger_bytes(entries).len() <= u64::MAX,
        holds(read_back, stored_ledger(ledger_bytes(entries)).unwrap()),
    ensures
        stored_ledger(ledger_bytes(entries)) == Some(entry_views(entries)),
        read_back == ledger,
{
    lemma_ledger_round_trip(entries);
    lemma_listing_holds(entries);
    lemma_holds_one_ledger(ledger, read_back, entry_views(entries));
}

} // verus!
