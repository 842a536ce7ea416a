//! The payment ledger: one record for each payment attempt, found by the
//! payment's 32-byte identifier.
//!
//! A node keeps two ledgers, one of the payments it expects and one of the
//! payments it has sent.

use crate::bindings::{
    table_contents, table_entries, table_get, table_insert, table_new, PaymentTable,
};
use crate::decimal::{decimal_digits, decimal_text};
use vstd::prelude::*;
use vstd::seq_lib::seq_to_set_is_finite;
use vstd::string::*;

verus! {

/// How far a payment has come.
#[derive(Copy, Clone, Debug, PartialEq, Eq, Structural)]
pub enum HTLCStatus {
    /// Handed to the engine; no outcome yet.
    Pending,
    /// Settled: the preimage is known.
    Succeeded,
    /// Given up.
    Failed,
}

/// An amount in millisatoshis, or `None` where the amount is not known.
#[derive(Copy, Clone, Debug, PartialEq, Eq)]
pub struct MillisatAmount(pub Option<u64>);

impl MillisatAmount {
    /// The text shown for an amount: its decimal digits, or `unknown`.
    pub open spec fn text(self) -> Seq<char> {
        match self.0 {
            Some(amount) => decimal_digits(amount as nat),
            None => "unknown"@,
        }
    }

    /// The amount as an operator reads it.
    pub fn to_string(&self) -> (r: String)
        ensures
            r@ == self.text(),
    {
        match self.0 {
            Some(amount) => decimal_text(amount),
            None => String::from_str("unknown"),
        }
    }
}

/// What the ledger records of one payment attempt.
#[derive(Copy, Clone, Debug, PartialEq, Eq)]
pub struct PaymentInfo {
    /// The proof of payment, once the payment has settled.
    pub preimage: Option<[u8; 32]>,
    /// The payment secret, for a payment made against an invoice.
    pub secret: Option<[u8; 32]>,
    pub status: HTLCStatus,
    pub amt_msat: MillisatAmount,
}

impl PaymentInfo {
    /// The record of an attempt that has just been handed to the engine.
    pub open spec fn pending(secret: Option<[u8; 32]>, amt_msat: Option<u64>) -> PaymentInfo {
        PaymentInfo {
            preimage: None,
            secret,
            status: HTLCStatus::Pending,
            amt_msat: MillisatAmount(amt_msat),
        }
    }

    /// The record of an attempt that has just been handed to the engine.
    pub fn new_pending(secret: Option<[u8; 32]>, amt_msat: Option<u64>) -> (r: PaymentInfo)
        ensures
            r == PaymentInfo::pending(secret, amt_msat),
    {
        PaymentInfo {
            preimage: None,
            secret,
            status: HTLCStatus::Pending,
            amt_msat: MillisatAmount(amt_msat),
        }
    }

    /// A record is well formed where it holds a preimage only once the
    /// payment has succeeded.
    pub open spec fn wf(self) -> bool {
        self.preimage.is_some() ==> self.status == HTLCStatus::Succeeded
    }

    /// The record once the attempt has failed. Only a pending attempt can
    /// fail: a record that has its outcome stays as it is.
    pub open spec fn failed(self) -> PaymentInfo {
        if self.status == HTLCStatus::Pending {
            PaymentInfo { status: HTLCStatus::Failed, ..self }
        } else {
            self
        }
    }

    /// The record once the payment has succeeded, with the preimage that
    /// proves it. Only a pending attempt can succeed: a record that has
    /// its outcome stays as it is.
    pub open spec fn succeeded(self, preimage: [u8; 32]) -> PaymentInfo {
        if self.status == HTLCStatus::Pending {
            PaymentInfo { status: HTLCStatus::Succeeded, preimage: Some(preimage), ..self }
        } else {
            self
        }
    }

    /// Records that the attempt has failed.
    pub fn fail(self) -> (r: PaymentInfo)
        ensures
            r == self.failed(),
    {
        match self.status {
            HTLCStatus::Pending => PaymentInfo {
                preimage: self.preimage,
                secret: self.secret,
                status: HTLCStatus::Failed,
                amt_msat: self.amt_msat,
            },
            _ => self,
        }
    }

    /// Records that the payment has succeeded.
    pub fn succeed(self, preimage: [u8; 32]) -> (r: PaymentInfo)
        ensures
            r == self.succeeded(preimage),
    {
        match self.status {
            HTLCStatus::Pending => PaymentInfo {
                preimage: Some(preimage),
                secret: self.secret,
                status: HTLCStatus::Succeeded,
                amt_msat: self.amt_msat,
            },
            _ => self,
        }
    }
}

/// An attempt gets its outcome once and keeps it: a pending record that
/// fails or succeeds is pending no more, and a record that is not pending
/// is changed by neither. A well-formed record stays well formed, and a
/// new pending record is well formed.
pub proof fn lemma_outcome_is_final(record: PaymentInfo, preimage: [u8; 32])
    ensures
        record.status == HTLCStatus::Pending ==> record.failed().status == HTLCStatus::Failed
            && record.succeeded(preimage).status == HTLCStatus::Succeeded,
        record.status != HTLCStatus::Pending ==> record.failed() == record && record.succeeded(
            preimage,
        ) == record,
        record.failed().status != HTLCStatus::Pending,
        record.succeeded(preimage).status != HTLCStatus::Pending,
        record.wf() ==> record.failed().wf() && record.succeeded(preimage).wf(),
        forall|secret: Option<[u8; 32]>, amt_msat: Option<u64>|
            (#[trigger] PaymentInfo::pending(secret, amt_msat)).wf(),
{
}

/// A ledger is well formed where each of its records is.
pub open spec fn records_wf(ledger: Map<Seq<u8>, PaymentInfo>) -> bool {
    forall|id: Seq<u8>| ledger.contains_key(id) ==> (#[trigger] ledger[id]).wf()
}

/// The ledger with the record under `id` put through `change`, where
/// there is such a record.
pub open spec fn changed_at(
    ledger: Map<Seq<u8>, PaymentInfo>,
    id: Seq<u8>,
    change: spec_fn(PaymentInfo) -> PaymentInfo,
) -> Map<Seq<u8>, PaymentInfo> {
    if ledger.contains_key(id) {
        ledger.insert(id, change(ledger[id]))
    } else {
        ledger
    }
}

/// The ledger once the attempt under `id` has failed.
pub open spec fn failed_at(ledger: Map<Seq<u8>, PaymentInfo>, id: Seq<u8>) -> Map<
    Seq<u8>,
    PaymentInfo,
> {
    changed_at(ledger, id, |record: PaymentInfo| record.failed())
}

/// The ledger once the payment under `id` has succeeded.
pub open spec fn succeeded_at(
    ledger: Map<Seq<u8>, PaymentInfo>,
    id: Seq<u8>,
    preimage: [u8; 32],
) -> Map<Seq<u8>, PaymentInfo> {
    changed_at(ledger, id, |record: PaymentInfo| record.succeeded(preimage))
}

/// The ledger of payments that the node expects, by payment hash.
pub struct InboundPaymentInfoStorage {
    pub payments: PaymentTable,
}

/// The ledger of payments that the node has sent, by payment identifier.
pub struct OutboundPaymentInfoStorage {
    pub payments: PaymentTable,
}

impl View for InboundPaymentInfoStorage {
    type V = Map<Seq<u8>, PaymentInfo>;

    open spec fn view(&self) -> Map<Seq<u8>, PaymentInfo> {
        table_contents(self.payments)
    }
}

impl View for OutboundPaymentInfoStorage {
    type V = Map<Seq<u8>, PaymentInfo>;

    open spec fn view(&self) -> Map<Seq<u8>, PaymentInfo> {
        table_contents(self.payments)
    }
}

/// Whether `entries` lists `ledger`: each entry is a record of the
/// ledger, no identifier comes twice, and every identifier of the ledger
/// comes.
pub open spec fn lists(
    entries: Seq<([u8; 32], PaymentInfo)>,
    ledger: Map<Seq<u8>, PaymentInfo>,
) -> bool {
    &&& forall|i: int|
        0 <= i < entries.len() ==> ledger.contains_pair((#[trigger] entries[i]).0@, entries[i].1)
    &&& forall|i: int, j: int|
        0 <= i < j < entries.len() ==> (#[trigger] entries[i]).0@ != (#[trigger] entries[j]).0@
    &&& forall|id: Seq<u8>|
        ledger.contains_key(id) ==> exists|i: int|
            0 <= i < entries.len() && (#[trigger] entries[i]).0@ == id
}

/// A listing of a ledger has as many entries as the ledger has records,
/// and a ledger that has a listing is finite.
pub proof fn lemma_listing_length(
    entries: Seq<([u8; 32], PaymentInfo)>,
    ledger: Map<Seq<u8>, PaymentInfo>,
)
    requires
        lists(entries, ledger),
    ensures
        ledger.dom().finite(),
        ledger.dom().len() == entries.len(),
{
    let ids = Seq::new(entries.len(), |i: int| entries[i].0@);
    assert(ids.no_duplicates());
    assert forall|id: Seq<u8>| ledger.dom().contains(id) <==> ids.to_set().contains(id) by {
        if ledger.dom().contains(id) {
            let i = choose|i: int| 0 <= i < entries.len() && (#[trigger] entries[i]).0@ == id;
            assert(ids[i] == id);
        }
        if ids.to_set().contains(id) {
            let i = choose|i: int| 0 <= i < ids.len() && ids[i] == id;
            assert(ledger.contains_pair(entries[i].0@, entries[i].1));
        }
    }
    assert(ledger.dom() =~= ids.to_set());
    ids.unique_seq_to_set();
    seq_to_set_is_finite(ids);
}

/// Whether no identifier comes twice among `entries`.
pub open spec fn distinct_ids(entries: Seq<([u8; 32], PaymentInfo)>) -> bool {
    forall|i: int, j: int|
        0 <= i < j < entries.len() ==> (#[trigger] entries[i]).0@ != (#[trigger] entries[j]).0@
}

/// The table that holds `entries`, where no identifier comes twice among
/// them.
fn table_of(entries: &Vec<([u8; 32], PaymentInfo)>) -> (r: Option<PaymentTable>)
    ensures
        r.is_some() == distinct_ids(entries@),
        r matches Some(table) ==> lists(entries@, table_contents(table)),
{
    let mut table = table_new();
    let n: usize = entries.len();
    let mut i: usize = 0;
    while i < n
        invariant
            n == entries@.len(),
            i <= n,
            lists(entries@.take(i as int), table_contents(table)),
        decreases n - i,
    {
        let (id, info) = entries[i];
        let ghost before = table_contents(table);
        match table_get(&table, &id) {
            Some(_) => {
                proof {
                    let j = choose|j: int|
                        0 <= j < i && (#[trigger] entries@.take(i as int)[j]).0@ == id@;
                    assert(entries@[j].0@ == entries@[i as int].0@);
                }
                return None;
            },
            None => {
                table_insert(&mut table, id, info);
            },
        }
        proof {
            let so_far = entries@.take(i + 1);
            let after = table_contents(table);
            assert forall|k: int| 0 <= k < so_far.len() implies after.contains_pair(
                (#[trigger] so_far[k]).0@,
                so_far[k].1,
            ) by {
                if k < i {
                    assert(before.contains_pair(entries@.take(i as int)[k].0@, so_far[k].1));
                }
            }
            assert forall|a: int, b: int| 0 <= a < b < so_far.len() implies (
            #[trigger] so_far[a]).0@ != (#[trigger] so_far[b]).0@ by {
                if b < i {
                    assert(entries@.take(i as int)[a].0@ != entries@.take(i as int)[b].0@);
                } else {
                    assert(before.contains_pair(entries@.take(i as int)[a].0@, so_far[a].1));
                }
            }
            assert forall|key: Seq<u8>| after.contains_key(key) implies exists|k: int|
                0 <= k < so_far.len() && (#[trigger] so_far[k]).0@ == key by {
                if key == id@ {
                    assert(so_far[i as int].0@ == key);
                } else {
                    let k = choose|k: int|
                        0 <= k < i && (#[trigger] entries@.take(i as int)[k]).0@ == key;
                    assert(so_far[k].0@ == key);
                }
            }
        }
        i = i + 1;
    }
    assert(entries@.take(n as int) =~= entries@);
    Some(table)
}

impl InboundPaymentInfoStorage {
    /// The ledger that holds `entries`. `None` where an identifier comes
    /// twice among them.
    pub fn from_entries(entries: &Vec<([u8; 32], PaymentInfo)>) -> (r: Option<Self>)
        ensures
            r.is_some() == distinct_ids(entries@),
            r matches Some(ledger) ==> lists(entries@, ledger@),
    {
        match table_of(entries) {
            Some(payments) => Some(InboundPaymentInfoStorage { payments }),
            None => None,
        }
    }

    /// A ledger without records.
    pub fn new() -> (r: Self)
        ensures
            r@ == (Map::<Seq<u8>, PaymentInfo>::empty()),
    {
        InboundPaymentInfoStorage { payments: table_new() }
    }

    /// Records `info` under `payment_hash`, in place of any record that
    /// was there. Returns the record that was replaced.
    pub fn insert(&mut self, payment_hash: [u8; 32], info: PaymentInfo) -> (r: Option<
        PaymentInfo,
    >)
        ensures
            final(self)@ == old(self)@.insert(payment_hash@, info),
            r == if old(self)@.contains_key(payment_hash@) {
                Some(old(self)@[payment_hash@])
            } else {
                None
            },
    {
        table_insert(&mut self.payments, payment_hash, info)
    }

    /// The records with their payment hashes, in an order that is left
    /// open.
    pub fn entries(&self) -> (r: Vec<([u8; 32], PaymentInfo)>)
        ensures
            lists(r@, self@),
    {
        table_entries(&self.payments)
    }

    /// The number of records.
    pub fn len(&self) -> (r: usize)
        ensures
            self@.dom().finite(),
            r == self@.dom().len(),
    {
        let entries = table_entries(&self.payments);
        proof {
            lemma_listing_length(entries@, self@);
        }
        entries.len()
    }

    /// The record under `payment_hash`, if there is one.
    pub fn get(&self, payment_hash: &[u8; 32]) -> (r: Option<PaymentInfo>)
        ensures
            r == if self@.contains_key(payment_hash@) {
                Some(self@[payment_hash@])
            } else {
                None
            },
    {
        table_get(&self.payments, payment_hash)
    }

    /// Records that the attempt under `payment_hash` has failed, where it is
    /// pending; every other record stays as it was. Returns whether there
    /// is a record under `payment_hash`.
    pub fn mark_failed(&mut self, payment_hash: &[u8; 32]) -> (r: bool)
        ensures
            r == old(self)@.contains_key(payment_hash@),
            final(self)@ == failed_at(old(self)@, payment_hash@),
    {
        match table_get(&self.payments, payment_hash) {
            Some(info) => {
                table_insert(&mut self.payments, *payment_hash, info.fail());
                true
            },
            None => false,
        }
    }

    /// Records that the payment under `payment_hash` has succeeded, where it is
    /// pending; every other record stays as it was. Returns whether there
    /// is a record under `payment_hash`.
    pub fn mark_succeeded(&mut self, payment_hash: &[u8; 32], preimage: [u8; 32]) -> (r: bool)
        ensures
            r == old(self)@.contains_key(payment_hash@),
            final(self)@ == succeeded_at(old(self)@, payment_hash@, preimage),
    {
        match table_get(&self.payments, payment_hash) {
            Some(info) => {
                table_insert(&mut self.payments, *payment_hash, info.succeed(preimage));
                true
            },
            None => false,
        }
    }
}

impl OutboundPaymentInfoStorage {
    /// The ledger that holds `entries`. `None` where an identifier comes
    /// twice among them.
    pub fn from_entries(entries: &Vec<([u8; 32], PaymentInfo)>) -> (r: Option<Self>)
        ensures
            r.is_some() == distinct_ids(entries@),
            r matches Some(ledger) ==> lists(entries@, ledger@),
    {
        match table_of(entries) {
            Some(payments) => Some(OutboundPaymentInfoStorage { payments }),
            None => None,
        }
    }

    /// A ledger without records.
    pub fn new() -> (r: Self)
        ensures
            r@ == (Map::<Seq<u8>, PaymentInfo>::empty()),
    {
        OutboundPaymentInfoStorage { payments: table_new() }
    }

    /// Records `info` under `id`, in place of any record that was there.
    /// Returns the record that was replaced.
    pub fn insert(&mut self, id: [u8; 32], info: PaymentInfo) -> (r: Option<PaymentInfo>)
        ensures
            final(self)@ == old(self)@.insert(id@, info),
            r == if old(self)@.contains_key(id@) {
                Some(old(self)@[id@])
            } else {
                None
            },
    {
        table_insert(&mut self.payments, id, info)
    }

    /// The records with their identifiers, in an order that is left open.
    pub fn entries(&self) -> (r: Vec<([u8; 32], PaymentInfo)>)
        ensures
            lists(r@, self@),
    {
        table_entries(&self.payments)
    }

    /// The number of records.
    pub fn len(&self) -> (r: usize)
        ensures
            self@.dom().finite(),
            r == self@.dom().len(),
    {
        let entries = table_entries(&self.payments);
        proof {
            lemma_listing_length(entries@, self@);
        }
        entries.len()
    }

    /// The record under `id`, if there is one.
    pub fn get(&self, id: &[u8; 32]) -> (r: Option<PaymentInfo>)
        ensures
            r == if self@.contains_key(id@) {
                Some(self@[id@])
            } else {
                None
            },
    {
        table_get(&self.payments, id)
    }

    /// Records that the attempt under `id` has failed, where it is
    /// pending; every other record stays as it was. Returns whether there
    /// is a record under `id`.
    pub fn mark_failed(&mut self, id: &[u8; 32]) -> (r: bool)
        ensures
            r == old(self)@.contains_key(id@),
            final(self)@ == failed_at(old(self)@, id@),
    {
        match table_get(&self.payments, id) {
            Some(info) => {
                table_insert(&mut self.payments, *id, info.fail());
                true
            },
            None => false,
        }
    }

    /// Records that the payment under `id` has succeeded, where it is
    /// pending; every other record stays as it was. Returns whether there
    /// is a record under `id`.
    pub fn mark_succeeded(&mut self, id: &[u8; 32], preimage: [u8; 32]) -> (r: bool)
        ensures
            r == old(self)@.contains_key(id@),
            final(self)@ == succeeded_at(old(self)@, id@, preimage),
    {
        match table_get(&self.payments, id) {
            Some(info) => {
                table_insert(&mut self.payments, *id, info.succeed(preimage));
                true
            },
            None => false,
        }
    }
}

} // verus!
