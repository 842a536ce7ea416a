//! The stored form of a ledger: a length-prefixed stream of tagged
//! fields, written anew in full after every change.
//!
//! Sizes and tags are written as variable-length integers, numbers in big
//! endian. A ledger is a stream with one field, the table of its records;
//! a record is a stream with one field for each of its four parts.

use crate::ledger::{
    lists, HTLCStatus, InboundPaymentInfoStorage, MillisatAmount, OutboundPaymentInfoStorage,
    PaymentInfo,
};
use vstd::prelude::*;

verus! {

/// The last `width` bytes of `value` in big endian.
pub open spec fn be_bytes(value: nat, width: nat) -> Seq<u8>
    decreases width,
{
    if width == 0 {
        Seq::empty()
    } else {
        be_bytes(value / 256, (width - 1) as nat).push((value % 256) as u8)
    }
}

/// A size or a tag as a variable-length integer: one byte for a value
/// below `0xfd`; else a marker byte, `0xfd`, `0xfe` or `0xff`, and the
/// value in two, four or eight bytes, whichever is the shortest that
/// holds it.
pub open spec fn big_size(value: nat) -> Seq<u8> {
    if value < 0xfd {
        seq![value as u8]
    } else if value <= 0xffff {
        seq![0xfdu8] + be_bytes(value, 2)
    } else if value <= 0xffff_ffff {
        seq![0xfeu8] + be_bytes(value, 4)
    } else {
        seq![0xffu8] + be_bytes(value, 8)
    }
}

/// The number of entries of a table: two bytes for a number below
/// `0xffff`; else `0xffff` and, in eight bytes, what the number has
/// beyond that.
pub open spec fn collection_length(count: nat) -> Seq<u8> {
    if count < 0xffff {
        be_bytes(count, 2)
    } else {
        be_bytes(0xffff, 2) + be_bytes((count - 0xffff) as nat, 8)
    }
}

/// An optional value: a zero byte for none; else the value's length plus
/// one, then the value.
pub open spec fn optional(value: Option<Seq<u8>>) -> Seq<u8> {
    match value {
        None => seq![0u8],
        Some(bytes) => big_size(bytes.len() + 1) + bytes,
    }
}

/// One field of a stream: its tag, the length of its value, its value.
pub open spec fn field(tag: nat, value: Seq<u8>) -> Seq<u8> {
    big_size(tag) + big_size(value.len()) + value
}

/// A stream with its length in front.
pub open spec fn prefixed(stream: Seq<u8>) -> Seq<u8> {
    big_size(stream.len()) + stream
}

/// The bytes of an optional 32-byte value.
pub open spec fn optional_array(value: Option<[u8; 32]>) -> Seq<u8> {
    match value {
        None => optional(None),
        Some(bytes) => optional(Some(bytes@)),
    }
}

/// The number that stands for a status.
pub open spec fn status_tag(status: HTLCStatus) -> u8 {
    match status {
        HTLCStatus::Pending => 0,
        HTLCStatus::Succeeded => 1,
        HTLCStatus::Failed => 2,
    }
}

/// The bytes of a status: its number, then an empty stream.
pub open spec fn status_bytes(status: HTLCStatus) -> Seq<u8> {
    seq![status_tag(status)] + prefixed(Seq::empty())
}

/// The bytes of an amount: an optional number of eight bytes.
pub open spec fn amount_bytes(amount: MillisatAmount) -> Seq<u8> {
    match amount.0 {
        None => optional(None),
        Some(msat) => optional(Some(be_bytes(msat as nat, 8))),
    }
}

/// The fields of a record: the preimage under tag 0, the secret under 2,
/// the status under 4 and the amount under 6.
pub open spec fn record_fields(info: PaymentInfo) -> Seq<u8> {
    field(0, optional_array(info.preimage)) + field(2, optional_array(info.secret)) + field(
        4,
        status_bytes(info.status),
    ) + field(6, amount_bytes(info.amt_msat))
}

/// The bytes of a record.
pub open spec fn record_bytes(info: PaymentInfo) -> Seq<u8> {
    prefixed(record_fields(info))
}

/// The bytes of a run of entries: for each, the identifier and then the
/// record.
pub open spec fn entries_bytes(entries: Seq<([u8; 32], PaymentInfo)>) -> Seq<u8>
    decreases entries.len(),
{
    if entries.len() == 0 {
        Seq::empty()
    } else {
        entries_bytes(entries.drop_last()) + entries.last().0@ + record_bytes(entries.last().1)
    }
}

/// The bytes of a ledger with the given entries, in the given order: a
/// stream whose one field, under tag 0, is the table of the entries with
/// their number in front.
pub open spec fn ledger_bytes(entries: Seq<([u8; 32], PaymentInfo)>) -> Seq<u8> {
    prefixed(field(0, collection_length(entries.len()) + entries_bytes(entries)))
}

/// Adds the last `width` bytes of `value`, in big endian.
fn put_be(out: &mut Vec<u8>, value: u64, width: usize)
    ensures
        final(out)@ == old(out)@ + be_bytes(value as nat, width as nat),
    decreases width,
{
    if width == 0 {
        assert(out@ =~= old(out)@ + be_bytes(value as nat, 0));
    } else {
        put_be(out, value / 256, width - 1);
        out.push((value % 256) as u8);
        assert(out@ =~= old(out)@ + be_bytes(value as nat, width as nat));
    }
}

/// Adds a variable-length integer.
fn put_big_size(out: &mut Vec<u8>, value: u64)
    ensures
        final(out)@ == old(out)@ + big_size(value as nat),
{
    if value < 0xfd {
        out.push(value as u8);
    } else if value <= 0xffff {
        out.push(0xfd);
        put_be(out, value, 2);
    } else if value <= 0xffff_ffff {
        out.push(0xfe);
        put_be(out, value, 4);
    } else {
        out.push(0xff);
        put_be(out, value, 8);
    }
    assert(out@ =~= old(out)@ + big_size(value as nat));
}

/// Adds the bytes of a slice.
fn put_bytes(out: &mut Vec<u8>, bytes: &[u8])
    ensures
        final(out)@ == old(out)@ + bytes@,
{
    out.extend_from_slice(bytes);
}

/// Adds a field.
fn put_field(out: &mut Vec<u8>, tag: u64, value: &Vec<u8>)
    ensures
        final(out)@ == old(out)@ + field(tag as nat, value@),
{
    put_big_size(out, tag);
    put_big_size(out, value.len() as u64);
    put_bytes(out, value.as_slice());
    assert(out@ =~= old(out)@ + field(tag as nat, value@));
}

/// A stream with its length in front.
fn with_prefix(stream: &Vec<u8>) -> (r: Vec<u8>)
    ensures
        r@ == prefixed(stream@),
{
    let mut out: Vec<u8> = Vec::new();
    put_big_size(&mut out, stream.len() as u64);
    put_bytes(&mut out, stream.as_slice());
    assert(out@ =~= prefixed(stream@));
    out
}

/// The bytes of an optional 32-byte value.
fn encode_optional_array(value: &Option<[u8; 32]>) -> (r: Vec<u8>)
    ensures
        r@ == optional_array(*value),
{
    let mut out: Vec<u8> = Vec::new();
    match value {
        None => {
            out.push(0);
        },
        Some(bytes) => {
            put_big_size(&mut out, 33);
            put_bytes(&mut out, bytes.as_slice());
        },
    }
    assert(out@ =~= optional_array(*value));
    out
}

impl HTLCStatus {
    /// Writes the status in its stored form.
    pub fn encode(&self) -> (r: Vec<u8>)
        ensures
            r@ == status_bytes(*self),
    {
        let tag: u8 = match self {
            HTLCStatus::Pending => 0,
            HTLCStatus::Succeeded => 1,
            HTLCStatus::Failed => 2,
        };
        let mut out: Vec<u8> = Vec::new();
        out.push(tag);
        out.push(0);
        assert(out@ =~= status_bytes(*self));
        out
    }
}

impl MillisatAmount {
    /// Writes the amount in its stored form.
    pub fn write(&self) -> (r: Vec<u8>)
        ensures
            r@ == amount_bytes(*self),
    {
        let mut out: Vec<u8> = Vec::new();
        match self.0 {
            None => {
                out.push(0);
            },
            Some(msat) => {
                put_big_size(&mut out, 9);
                put_be(&mut out, msat, 8);
                assert(be_bytes(msat as nat, 8).len() == 8) by {
                    lemma_be_bytes_len(msat as nat, 8);
                }
            },
        }
        assert(out@ =~= amount_bytes(*self));
        out
    }
}

/// `be_bytes` gives as many bytes as asked for.
pub proof fn lemma_be_bytes_len(value: nat, width: nat)
    ensures
        be_bytes(value, width).len() == width,
    decreases width,
{
    if width > 0 {
        lemma_be_bytes_len(value / 256, (width - 1) as nat);
    }
}

impl PaymentInfo {
    /// Writes the record in its stored form.
    pub fn encode(&self) -> (r: Vec<u8>)
        ensures
            r@ == record_bytes(*self),
    {
        let mut fields: Vec<u8> = Vec::new();
        put_field(&mut fields, 0, &encode_optional_array(&self.preimage));
        put_field(&mut fields, 2, &encode_optional_array(&self.secret));
        put_field(&mut fields, 4, &self.status.encode());
        put_field(&mut fields, 6, &self.amt_msat.write());
        assert(fields@ =~= record_fields(*self));
        with_prefix(&fields)
    }
}

/// Writes a ledger with the given entries, in the given order.
pub fn encode_entries(entries: &Vec<([u8; 32], PaymentInfo)>) -> (r: Vec<u8>)
    ensures
        r@ == ledger_bytes(entries@),
{
    let n: usize = entries.len();
    let mut table: Vec<u8> = Vec::new();
    if (n as u64) < 0xffff {
        put_be(&mut table, n as u64, 2);
    } else {
        put_be(&mut table, 0xffff, 2);
        put_be(&mut table, n as u64 - 0xffff, 8);
    }
    assert(table@ =~= collection_length(n as nat));
    let mut i: usize = 0;
    assert(entries@.take(0) =~= Seq::<([u8; 32], PaymentInfo)>::empty());
    assert(table@ =~= collection_length(n as nat) + entries_bytes(entries@.take(0)));
    while i < n
        invariant
            n == entries@.len(),
            i <= n,
            table@ == collection_length(n as nat) + entries_bytes(entries@.take(i as int)),
        decreases n - i,
    {
        let ghost before = table@;
        put_bytes(&mut table, entries[i].0.as_slice());
        let record = entries[i].1.encode();
        put_bytes(&mut table, record.as_slice());
        proof {
            assert(entries@.take(i + 1).drop_last() =~= entries@.take(i as int));
            assert(entries@.take(i + 1).last() == entries@[i as int]);
            assert(table@ =~= collection_length(n as nat) + entries_bytes(entries@.take(i + 1)));
        }
        i = i + 1;
    }
    assert(entries@.take(n as int) =~= entries@);
    let mut stream: Vec<u8> = Vec::new();
    put_field(&mut stream, 0, &table);
    assert(stream@ =~= field(0, table@));
    with_prefix(&stream)
}

impl OutboundPaymentInfoStorage {
    /// Writes the ledger in its stored form. The order of the records in
    /// it is left open: the bytes are those of some listing of the
    /// ledger.
    pub fn encode(&self) -> (r: Vec<u8>)
        ensures
            exists|entries: Seq<([u8; 32], PaymentInfo)>|
                lists(entries, self@) && r@ == ledger_bytes(entries),
    {
        let entries = self.entries();
        encode_entries(&entries)
    }
}

impl InboundPaymentInfoStorage {
    /// Writes the ledger in its stored form. The order of the records in
    /// it is left open: the bytes are those of some listing of the
    /// ledger.
    pub fn encode(&self) -> (r: Vec<u8>)
        ensures
            exists|entries: Seq<([u8; 32], PaymentInfo)>|
                lists(entries, self@) && r@ == ledger_bytes(entries),
    {
        let entries = self.entries();
        encode_entries(&entries)
    }
}

/// `256` to the power `width`.
pub open spec fn pow256(width: nat) -> nat
    decreases width,
{
    if width == 0 {
        1
    } else {
        256 * pow256((width - 1) as nat)
    }
}

/// The number that bytes in big endian denote.
pub open spec fn be_value(bytes: Seq<u8>) -> nat
    decreases bytes.len(),
{
    if bytes.len() == 0 {
        0
    } else {
        be_value(bytes.drop_last()) * 256 + bytes.last() as nat
    }
}

/// What a reader makes of a variable-length integer at the start of
/// `bytes`: the value and the number of bytes it took. A value written in
/// more bytes than it needs is refused, and so is one that is cut short.
pub open spec fn big_size_read(bytes: Seq<u8>) -> Option<(nat, nat)> {
    if bytes.len() == 0 {
        None
    } else if bytes[0] == 0xff {
        if bytes.len() >= 9 && be_value(bytes.subrange(1, 9)) > 0xffff_ffff {
            Some((be_value(bytes.subrange(1, 9)), 9nat))
        } else {
            None
        }
    } else if bytes[0] == 0xfe {
        if bytes.len() >= 5 && be_value(bytes.subrange(1, 5)) > 0xffff {
            Some((be_value(bytes.subrange(1, 5)), 5nat))
        } else {
            None
        }
    } else if bytes[0] == 0xfd {
        if bytes.len() >= 3 && be_value(bytes.subrange(1, 3)) >= 0xfd {
            Some((be_value(bytes.subrange(1, 3)), 3nat))
        } else {
            None
        }
    } else {
        Some((bytes[0] as nat, 1nat))
    }
}

/// What a reader makes of an amount at the start of `bytes`: the amount
/// and the number of bytes it took. A length of zero is no amount; any
/// other length must leave room for the eight bytes of the number, which
/// are then read.
pub open spec fn amount_read(bytes: Seq<u8>) -> Option<(MillisatAmount, nat)> {
    match big_size_read(bytes) {
        None => None,
        Some((length, taken)) => if length == 0 {
            Some((MillisatAmount(None), taken))
        } else if length >= 9 && bytes.len() >= taken + 8 {
            Some(
                (
                    MillisatAmount(
                        Some(be_value(bytes.subrange(taken as int, taken as int + 8)) as u64),
                    ),
                    taken + 8,
                ),
            )
        } else {
            None
        },
    }
}

/// Bytes in big endian denote a number below `256` to the power of their
/// count.
pub proof fn lemma_be_value_bound(bytes: Seq<u8>)
    ensures
        be_value(bytes) < pow256(bytes.len()),
    decreases bytes.len(),
{
    if bytes.len() > 0 {
        lemma_be_value_bound(bytes.drop_last());
    }
}

/// A number written in enough bytes reads back as itself.
pub proof fn lemma_be_round_trip(value: nat, width: nat)
    requires
        value < pow256(width),
    ensures
        be_value(be_bytes(value, width)) == value,
    decreases width,
{
    if width > 0 {
        let shorter = be_bytes(value / 256, (width - 1) as nat);
        assert(be_bytes(value, width).drop_last() =~= shorter);
        lemma_be_round_trip(value / 256, (width - 1) as nat);
    }
}

/// The powers of `256` that the format uses.
pub proof fn lemma_pow256_values()
    ensures
        pow256(2) == 0x1_0000,
        pow256(4) == 0x1_0000_0000,
        pow256(8) == 0x1_0000_0000_0000_0000,
{
    reveal_with_fuel(pow256, 9);
}

/// A variable-length integer reads back as itself, whatever follows it.
pub proof fn lemma_big_size_round_trip(value: nat, rest: Seq<u8>)
    requires
        value <= u64::MAX,
    ensures
        big_size_read(big_size(value) + rest) == Some((value, big_size(value).len())),
{
    lemma_pow256_values();
    let bytes = big_size(value) + rest;
    let width: nat = if value < 0xfd {
        0
    } else if value <= 0xffff {
        2
    } else if value <= 0xffff_ffff {
        4
    } else {
        8
    };
    if width > 0 {
        lemma_be_bytes_len(value, width);
        lemma_be_round_trip(value, width);
        assert(bytes.subrange(1, 1 + width as int) =~= be_bytes(value, width));
    }
}

/// An amount reads back as itself, whatever follows it.
pub proof fn lemma_amount_round_trip(amount: MillisatAmount, rest: Seq<u8>)
    ensures
        amount_read(amount_bytes(amount) + rest) == Some((amount, amount_bytes(amount).len())),
{
    lemma_pow256_values();
    match amount.0 {
        None => {
            assert(amount_bytes(amount) + rest =~= big_size(0) + rest);
            lemma_big_size_round_trip(0, rest);
        },
        Some(msat) => {
            let number = be_bytes(msat as nat, 8);
            lemma_be_bytes_len(msat as nat, 8);
            lemma_be_round_trip(msat as nat, 8);
            let bytes = amount_bytes(amount) + rest;
            assert(bytes =~= big_size(9) + (number + rest));
            lemma_big_size_round_trip(9, number + rest);
            assert(bytes.subrange(1, 9) =~= number);
        },
    }
}

/// Reads `width` bytes in big endian, from position `at`.
pub(crate) fn read_be(bytes: &[u8], at: usize, width: usize) -> (r: u64)
    requires
        width <= 8,
        at + width <= bytes@.len(),
    ensures
        r as nat == be_value(bytes@.subrange(at as int, at + width)),
{
    let n: usize = bytes.len();
    let mut value: u64 = 0;
    let mut i: usize = 0;
    assert(bytes@.subrange(at as int, at as int) =~= Seq::<u8>::empty());
    while i < width
        invariant
            width <= 8,
            n == bytes@.len(),
            at + width <= n,
            i <= width,
            value as nat == be_value(bytes@.subrange(at as int, at + i)),
        decreases width - i,
    {
        proof {
            let upto = bytes@.subrange(at as int, at + i + 1);
            assert(upto.drop_last() =~= bytes@.subrange(at as int, at + i));
            assert(upto.last() == bytes@[at + i]);
            lemma_be_value_bound(upto);
            assert(pow256((i + 1) as nat) <= pow256(8)) by {
                reveal_with_fuel(pow256, 9);
            }
        }
        value = value * 256 + bytes[at + i] as u64;
        i = i + 1;
    }
    value
}

/// Reads a variable-length integer at the start of `bytes`.
pub(crate) fn read_big_size(bytes: &[u8]) -> (r: Option<(u64, usize)>)
    ensures
        r.is_some() == big_size_read(bytes@).is_some(),
        r matches Some((value, taken)) ==> big_size_read(bytes@) == Some(
            (value as nat, taken as nat),
        ),
{
    if bytes.len() == 0 {
        return None;
    }
    let first = bytes[0];
    if first == 0xff {
        if bytes.len() < 9 {
            return None;
        }
        let value = read_be(bytes, 1, 8);
        if value > 0xffff_ffff {
            Some((value, 9))
        } else {
            None
        }
    } else if first == 0xfe {
        if bytes.len() < 5 {
            return None;
        }
        let value = read_be(bytes, 1, 4);
        if value > 0xffff {
            Some((value, 5))
        } else {
            None
        }
    } else if first == 0xfd {
        if bytes.len() < 3 {
            return None;
        }
        let value = read_be(bytes, 1, 2);
        if value >= 0xfd {
            Some((value, 3))
        } else {
            None
        }
    } else {
        Some((first as u64, 1))
    }
}

impl MillisatAmount {
    /// Reads an amount in its stored form from the start of `bytes`.
    /// Gives the amount and the number of bytes that it took, or `None`
    /// where the bytes do not start with an amount.
    pub fn read(bytes: &[u8]) -> (r: Option<(MillisatAmount, usize)>)
        ensures
            r.is_some() == amount_read(bytes@).is_some(),
            r matches Some((amount, taken)) ==> amount_read(bytes@) == Some(
                (amount, taken as nat),
            ),
    {
        match read_big_size(bytes) {
            None => None,
            Some((length, taken)) => {
                if length == 0 {
                    Some((MillisatAmount(None), taken))
                } else if length >= 9 && bytes.len() - taken >= 8 {
                    let msat = read_be(bytes, taken, 8);
                    Some((MillisatAmount(Some(msat)), taken + 8))
                } else {
                    None
                }
            },
        }
    }
}

} // verus!
