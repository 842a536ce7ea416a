//! Invoices of the node's own: reading a request for one, and entering
//! the invoice in the ledger of expected payments.

use crate::bindings::{invoice_hash, invoice_payment_hash, invoice_payment_secret, invoice_secret};
use crate::decimal::{parse_u32, parse_u64, parsed_unsigned};
use crate::ledger::{InboundPaymentInfoStorage, PaymentInfo};
use crate::words::texts;
use lightning::bolt11_invoice::Bolt11Invoice;
use vstd::prelude::*;
use vstd::string::*;

verus! {

/// An invoice to create.
#[derive(Copy, Clone, Debug, PartialEq, Eq, Structural)]
pub struct InvoiceRequest {
    pub amount_msat: u64,
    /// The time for which the invoice can be paid, in seconds.
    pub expiry_secs: u32,
}

/// Why no invoice is created.
#[derive(Copy, Clone, Debug, PartialEq, Eq, Structural)]
pub enum GetInvoiceError {
    MissingAmount,
    /// The amount is no number of millisatoshis.
    InvalidAmount,
    MissingExpiry,
    /// The expiry is no number of seconds that fits in 32 bits.
    InvalidExpiry,
}

/// The request that the words after `getinvoice` make. The amount is
/// looked at first, then the expiry.
pub open spec fn invoice_request_of(args: Seq<Seq<char>>) -> Result<
    InvoiceRequest,
    GetInvoiceError,
> {
    if args.len() == 0 {
        Err(GetInvoiceError::MissingAmount)
    } else {
        match parsed_unsigned(args[0], u64::MAX as nat) {
            None => Err(GetInvoiceError::InvalidAmount),
            Some(amount) => if args.len() == 1 {
                Err(GetInvoiceError::MissingExpiry)
            } else {
                match parsed_unsigned(args[1], u32::MAX as nat) {
                    None => Err(GetInvoiceError::InvalidExpiry),
                    Some(expiry) => Ok(
                        InvoiceRequest {
                            amount_msat: amount as u64,
                            expiry_secs: expiry as u32,
                        },
                    ),
                }
            },
        }
    }
}

/// Reads the words after `getinvoice`.
pub fn parse_get_invoice(args: &Vec<String>) -> (r: Result<InvoiceRequest, GetInvoiceError>)
    ensures
        r == invoice_request_of(texts(args@)),
{
    if args.len() == 0 {
        return Err(GetInvoiceError::MissingAmount);
    }
    let amount_msat = match parse_u64(args[0].as_str()) {
        Some(amount) => amount,
        None => {
            return Err(GetInvoiceError::InvalidAmount);
        },
    };
    if args.len() == 1 {
        return Err(GetInvoiceError::MissingExpiry);
    }
    match parse_u32(args[1].as_str()) {
        Some(expiry_secs) => Ok(InvoiceRequest { amount_msat, expiry_secs }),
        None => Err(GetInvoiceError::InvalidExpiry),
    }
}

/// Enters an invoice that the engine has created for `amount_msat` in the
/// ledger of expected payments: a pending record with the invoice's
/// secret and the amount, under the invoice's payment hash.
pub fn record_invoice(
    ledger: &mut InboundPaymentInfoStorage,
    invoice: &Bolt11Invoice,
    amount_msat: u64,
)
    ensures
        final(ledger)@ == old(ledger)@.insert(
            invoice_payment_hash(*invoice)@,
            PaymentInfo::pending(Some(invoice_payment_secret(*invoice)), Some(amount_msat)),
        ),
{
    let payment_hash = invoice_hash(invoice);
    let secret = invoice_secret(invoice);
    ledger.insert(payment_hash, PaymentInfo::new_pending(Some(secret), Some(amount_msat)));
}

impl GetInvoiceError {
    /// What the operator is told.
    pub open spec fn message_text(self) -> Seq<char> {
        match self {
            GetInvoiceError::MissingAmount =>
                "ERROR: getinvoice requires an amount in millisatoshis"@,
            GetInvoiceError::InvalidAmount =>
                "ERROR: getinvoice provided payment amount was not a number"@,
            GetInvoiceError::MissingExpiry => "ERROR: getinvoice requires an expiry in seconds"@,
            GetInvoiceError::InvalidExpiry => "ERROR: getinvoice provided expiry was not a number"@,
        }
    }

    /// Writes what the operator is told.
    pub fn message(&self) -> (r: String)
        ensures
            r@ == self.message_text(),
    {
        match self {
            GetInvoiceError::MissingAmount => String::from_str(
                "ERROR: getinvoice requires an amount in millisatoshis",
            ),
            GetInvoiceError::InvalidAmount => String::from_str(
                "ERROR: getinvoice provided payment amount was not a number",
            ),
            GetInvoiceError::MissingExpiry => String::from_str(
                "ERROR: getinvoice requires an expiry in seconds",
            ),
            GetInvoiceError::InvalidExpiry => String::from_str(
                "ERROR: getinvoice provided expiry was not a number",
            ),
        }
    }
}

} // verus!
