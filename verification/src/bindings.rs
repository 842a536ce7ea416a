//! Bindings to the Lightning and secp256k1 crates.
//!
//! These are the only items of the crate whose contracts are assumed rather
//! than proved. Each one names the function it stands for and says what is
//! claimed of it.

use crate::ledger::PaymentInfo;
use crate::payment::OfferAmount;
use bitcoin::secp256k1::PublicKey;
use lightning::bolt11_invoice::Bolt11Invoice;
use lightning::bolt11_invoice::ParseOrSemanticError;
use lightning::offers::offer::Amount;
use lightning::offers::offer::Offer;
use lightning::onion_message::dns_resolution::HumanReadableName;
use std::str::FromStr;
use vstd::prelude::*;

verus! {

/// A point on the secp256k1 curve, as `secp256k1` holds it.
#[verifier::external_type_specification]
#[verifier::external_body]
pub struct ExPublicKey(PublicKey);

/// A BOLT 12 offer, parsed and checked by `lightning`.
#[verifier::external_type_specification]
#[verifier::external_body]
pub struct ExOffer(Offer);

/// A BOLT 11 invoice, parsed and with its signature checked by
/// `lightning_invoice`.
#[verifier::external_type_specification]
#[verifier::external_body]
pub struct ExBolt11Invoice(Bolt11Invoice);

/// Why `lightning_invoice` refused an invoice text.
#[verifier::external_type_specification]
#[verifier::external_body]
pub struct ExParseOrSemanticError(ParseOrSemanticError);

/// A BIP 353 human-readable name, checked by `lightning`.
#[verifier::external_type_specification]
#[verifier::external_body]
pub struct ExHumanReadableName(HumanReadableName);

/// What `PublicKey::from_slice` makes of `bytes`: the point they encode, or
/// `None` where they encode none.
pub uninterp spec fn parsed_public_key(bytes: Seq<u8>) -> Option<PublicKey>;

/// `PublicKey::from_slice`: parses a serialized curve point. The result is
/// a function of the bytes alone.
#[verifier::external_body]
pub(crate) fn public_key_from_slice(data: &[u8]) -> (r: Option<PublicKey>)
    ensures
        r == parsed_public_key(data@),
{
    match PublicKey::from_slice(data) {
        Ok(key) => Some(key),
        Err(_) => None,
    }
}

/// `PublicKey::eq`: whether two keys are the same point. Equal keys are
/// the same value, and only they.
#[verifier::external_body]
pub(crate) fn public_key_eq(a: &PublicKey, b: &PublicKey) -> (r: bool)
    ensures
        r == (*a == *b),
{
    a == b
}

/// What `Bolt11Invoice::from_str` makes of `text`.
pub uninterp spec fn parsed_invoice(text: Seq<char>) -> Result<Bolt11Invoice, ParseOrSemanticError>;

/// `Bolt11Invoice::from_str`: decodes an invoice and checks its signature.
/// The result is a function of the text alone.
#[verifier::external_body]
pub(crate) fn invoice_from_str(text: &str) -> (r: Result<Bolt11Invoice, ParseOrSemanticError>)
    ensures
        r == parsed_invoice(text@),
{
    Bolt11Invoice::from_str(text)
}

/// The amount that an invoice asks for, as
/// `Bolt11Invoice::amount_milli_satoshis` gives it.
pub uninterp spec fn invoice_amount_msat(invoice: Bolt11Invoice) -> Option<u64>;

/// `Bolt11Invoice::amount_milli_satoshis`: the amount in millisatoshis, or
/// `None` where the invoice names none.
#[verifier::external_body]
pub(crate) fn invoice_amount(invoice: &Bolt11Invoice) -> (r: Option<u64>)
    ensures
        r == invoice_amount_msat(*invoice),
{
    invoice.amount_milli_satoshis()
}

/// The payment hash of an invoice, as `Bolt11Invoice::payment_hash` gives
/// it.
pub uninterp spec fn invoice_payment_hash(invoice: Bolt11Invoice) -> [u8; 32];

/// `Bolt11Invoice::payment_hash`: the 32 bytes of the hash whose preimage
/// settles the invoice.
#[verifier::external_body]
pub(crate) fn invoice_hash(invoice: &Bolt11Invoice) -> (r: [u8; 32])
    ensures
        r == invoice_payment_hash(*invoice),
{
    bitcoin::hashes::Hash::to_byte_array(*invoice.payment_hash())
}

/// The payment secret of an invoice, as `Bolt11Invoice::payment_secret`
/// gives it.
pub uninterp spec fn invoice_payment_secret(invoice: Bolt11Invoice) -> [u8; 32];

/// `Bolt11Invoice::payment_secret`: the 32 bytes of the invoice's payment
/// secret.
#[verifier::external_body]
pub(crate) fn invoice_secret(invoice: &Bolt11Invoice) -> (r: [u8; 32])
    ensures
        r == invoice_payment_secret(*invoice),
{
    invoice.payment_secret().0
}

/// What `Offer::from_str` makes of `text`: the offer, or `None` where the
/// text is refused.
pub uninterp spec fn parsed_offer(text: Seq<char>) -> Option<Offer>;

/// `Offer::from_str`: decodes a BOLT 12 offer. The result is a function of
/// the text alone.
#[verifier::external_body]
pub(crate) fn offer_from_str(text: &str) -> (r: Option<Offer>)
    ensures
        r == parsed_offer(text@),
{
    match Offer::from_str(text) {
        Ok(offer) => Some(offer),
        Err(_) => None,
    }
}

/// The amount that an offer asks for, as `Offer::amount` gives it.
pub uninterp spec fn offer_amount(offer: Offer) -> Option<OfferAmount>;

/// `Offer::amount`: the minimum amount that the offer asks for, in bitcoin
/// or in another currency, or `None` where it names none.
#[verifier::external_body]
pub(crate) fn amount_of_offer(offer: &Offer) -> (r: Option<OfferAmount>)
    ensures
        r == offer_amount(*offer),
{
    match offer.amount() {
        Some(Amount::Bitcoin { amount_msats }) => Some(OfferAmount::Bitcoin { amount_msats }),
        Some(Amount::Currency { iso4217_code, amount }) => Some(
            OfferAmount::Currency { iso4217_code, amount },
        ),
        None => None,
    }
}

/// What `HumanReadableName::from_encoded` makes of `text`: the name, or
/// `None` where the text is refused.
pub uninterp spec fn parsed_name(text: Seq<char>) -> Option<HumanReadableName>;

/// `HumanReadableName::from_encoded`: reads a name written as
/// `user@domain`. The result is a function of the text alone.
#[verifier::external_body]
pub(crate) fn name_from_encoded(text: &str) -> (r: Option<HumanReadableName>)
    ensures
        r == parsed_name(text@),
{
    match HumanReadableName::from_encoded(text) {
        Ok(name) => Some(name),
        Err(()) => None,
    }
}

/// A table of payment records by 32-byte identifier, kept in the hash map
/// that `lightning` uses for its own tables
/// (`lightning::util::hash_tables::HashMap`).
///
/// That map has an allocator parameter which cannot be named outside its
/// crate, so its type cannot be made known to the verifier. The table is
/// held in this struct instead; the verifier sees nothing inside it and
/// knows of it only what `table_contents` and the functions below say.
#[verifier::external_body]
pub struct PaymentTable {
    entries: lightning::util::hash_tables::HashMap<[u8; 32], PaymentInfo>,
}

/// The records that a table holds, by the bytes of their identifier.
pub uninterp spec fn table_contents(table: PaymentTable) -> Map<Seq<u8>, PaymentInfo>;

/// `new_hash_map`: a table that holds nothing.
#[verifier::external_body]
pub(crate) fn table_new() -> (r: PaymentTable)
    ensures
        table_contents(r) == (Map::<Seq<u8>, PaymentInfo>::empty()),
{
    PaymentTable { entries: lightning::util::hash_tables::new_hash_map() }
}

/// `HashMap::insert`: afterwards the key maps to the new record and every
/// other key is as before. Returns the record that the key mapped to, if
/// it was present.
#[verifier::external_body]
pub(crate) fn table_insert(table: &mut PaymentTable, key: [u8; 32], record: PaymentInfo) -> (r:
    Option<PaymentInfo>)
    ensures
        table_contents(*final(table)) == table_contents(*old(table)).insert(key@, record),
        r == if table_contents(*old(table)).contains_key(key@) {
            Some(table_contents(*old(table))[key@])
        } else {
            None
        },
{
    table.entries.insert(key, record)
}

/// `HashMap::get`: the record that the key maps to, if it is present.
#[verifier::external_body]
pub(crate) fn table_get(table: &PaymentTable, key: &[u8; 32]) -> (r: Option<PaymentInfo>)
    ensures
        r == if table_contents(*table).contains_key(key@) {
            Some(table_contents(*table)[key@])
        } else {
            None
        },
{
    table.entries.get(key).copied()
}

/// `HashMap::iter`: every entry once, in an order that is left open. Each
/// pair handed out is in the table, no key comes twice, and every key of
/// the table comes.
#[verifier::external_body]
pub(crate) fn table_entries(table: &PaymentTable) -> (r: Vec<([u8; 32], PaymentInfo)>)
    ensures
        forall|i: int|
            0 <= i < r@.len() ==> table_contents(*table).contains_pair(
                (#[trigger] r@[i]).0@,
                r@[i].1,
            ),
        forall|i: int, j: int|
            0 <= i < j < r@.len() ==> (#[trigger] r@[i]).0@ != (#[trigger] r@[j]).0@,
        forall|key: Seq<u8>|
            table_contents(*table).contains_key(key) ==> exists|i: int|
                0 <= i < r@.len() && (#[trigger] r@[i]).0@ == key,
{
    table.entries.iter().map(|(key, record)| (*key, *record)).collect()
}

} // verus!
