//! Payment targets: telling an offer, a human-readable name and an invoice
//! apart, and settling the amount to pay.

use crate::bindings::{
    amount_of_offer, invoice_amount, invoice_amount_msat, invoice_from_str, invoice_hash,
    invoice_payment_hash, invoice_payment_secret, invoice_secret, name_from_encoded,
    offer_amount, offer_from_str, parsed_invoice, parsed_name, parsed_offer,
    parsed_public_key, public_key_from_slice,
};
use crate::decimal::{decimal_digits, decimal_text, parse_u64, parsed_unsigned};
use crate::ledger::PaymentInfo;
use crate::words::texts;
use bitcoin::secp256k1::PublicKey;
use lightning::bolt11_invoice::Bolt11Invoice;
use lightning::bolt11_invoice::ParseOrSemanticError;
use lightning::offers::offer::Offer;
use lightning::onion_message::dns_resolution::HumanReadableName;
use vstd::prelude::*;
use vstd::string::*;

verus! {

/// The amount that an offer asks for.
#[derive(Copy, Clone, Debug, PartialEq, Eq)]
pub enum OfferAmount {
    /// An amount of bitcoin, in millisatoshis.
    Bitcoin { amount_msats: u64 },
    /// An amount of another currency, named by its ISO 4217 code, in that
    /// currency's smallest unit.
    Currency { iso4217_code: [u8; 3], amount: u64 },
}

/// What a payment target text turned out to be, with what was parsed from
/// it.
#[derive(Debug, PartialEq)]
pub enum PaymentTarget {
    Offer(Offer),
    HumanReadableName(HumanReadableName),
    Bolt11Invoice(Bolt11Invoice),
    /// None of the three, with the reason why the text is no invoice.
    Unparseable(ParseOrSemanticError),
}

/// The target that three parse results stand for: the offer if there is
/// one, else the name if there is one, else the invoice or the reason why
/// there is none.
pub open spec fn classified(
    offer: Option<Offer>,
    name: Option<HumanReadableName>,
    invoice: Result<Bolt11Invoice, ParseOrSemanticError>,
) -> PaymentTarget {
    match offer {
        Some(offer) => PaymentTarget::Offer(offer),
        None => match name {
            Some(name) => PaymentTarget::HumanReadableName(name),
            None => match invoice {
                Ok(invoice) => PaymentTarget::Bolt11Invoice(invoice),
                Err(reason) => PaymentTarget::Unparseable(reason),
            },
        },
    }
}

/// Picks the target among the results of the three parsers, in the fixed
/// order offer, name, invoice.
pub fn classify_parsed(
    offer: Option<Offer>,
    name: Option<HumanReadableName>,
    invoice: Result<Bolt11Invoice, ParseOrSemanticError>,
) -> (r: PaymentTarget)
    ensures
        r == classified(offer, name, invoice),
{
    match offer {
        Some(offer) => PaymentTarget::Offer(offer),
        None => match name {
            Some(name) => PaymentTarget::HumanReadableName(name),
            None => match invoice {
                Ok(invoice) => PaymentTarget::Bolt11Invoice(invoice),
                Err(reason) => PaymentTarget::Unparseable(reason),
            },
        },
    }
}

/// Classifies a payment target text. The parsers are tried in the order
/// offer, name, invoice, and the first that accepts the text decides; a
/// later parser is not run once an earlier one has accepted.
pub fn classify(text: &str) -> (r: PaymentTarget)
    ensures
        r == classified(parsed_offer(text@), parsed_name(text@), parsed_invoice(text@)),
{
    match offer_from_str(text) {
        Some(offer) => PaymentTarget::Offer(offer),
        None => match name_from_encoded(text) {
            Some(name) => PaymentTarget::HumanReadableName(name),
            None => match invoice_from_str(text) {
                Ok(invoice) => PaymentTarget::Bolt11Invoice(invoice),
                Err(reason) => PaymentTarget::Unparseable(reason),
            },
        },
    }
}

/// Why a payment request was turned down before anything was handed to
/// the engine.
#[derive(Debug, PartialEq, Eq)]
pub enum SendPaymentError {
    /// The command names no target.
    MissingTarget,
    /// The amount given is no number of millisatoshis.
    InvalidAmount,
    /// The target is neither offer nor name nor invoice.
    InvalidInvoice(ParseOrSemanticError),
    /// The offer asks for an amount in another currency than bitcoin, the
    /// one given here, and the operator gave no amount.
    UnsupportedCurrency { iso4217_code: [u8; 3], amount: u64 },
    /// The operator's amount is not the amount that the offer asks for.
    OfferAmountMismatch { offer_msat: u64 },
    /// A name was given without an amount.
    NameWithoutAmount,
    /// No node of the network graph can resolve names.
    NoResolvers,
    /// The invoice leaves the amount open and the operator gave none.
    InvoiceWithoutAmount,
    /// The operator's amount is not the amount that the invoice asks for.
    InvoiceAmountMismatch { invoice_msat: u64 },
}

/// A payment request as the operator typed it: the target, classified,
/// and the amount if one was given.
#[derive(Debug, PartialEq)]
pub struct SendRequest {
    pub target: PaymentTarget,
    pub amount_msat: Option<u64>,
}

/// The request that the words after `sendpayment` make. The first word is
/// the target; the second, if there is one, must be the amount, and is
/// looked at before the target is.
pub open spec fn send_request_of(args: Seq<Seq<char>>) -> Result<SendRequest, SendPaymentError> {
    if args.len() == 0 {
        Err(SendPaymentError::MissingTarget)
    } else if args.len() >= 2 && parsed_unsigned(args[1], u64::MAX as nat).is_none() {
        Err(SendPaymentError::InvalidAmount)
    } else {
        Ok(
            SendRequest {
                target: classified(
                    parsed_offer(args[0]),
                    parsed_name(args[0]),
                    parsed_invoice(args[0]),
                ),
                amount_msat: if args.len() >= 2 {
                    Some(parsed_unsigned(args[1], u64::MAX as nat).unwrap() as u64)
                } else {
                    None
                },
            },
        )
    }
}

/// Reads the words after `sendpayment`.
pub fn parse_send_payment(args: &Vec<String>) -> (r: Result<SendRequest, SendPaymentError>)
    ensures
        r == send_request_of(texts(args@)),
{
    if args.len() == 0 {
        return Err(SendPaymentError::MissingTarget);
    }
    let mut amount_msat: Option<u64> = None;
    if args.len() >= 2 {
        match parse_u64(args[1].as_str()) {
            Some(amount) => {
                amount_msat = Some(amount);
            },
            None => {
                return Err(SendPaymentError::InvalidAmount);
            },
        }
    }
    let target = classify(args[0].as_str());
    Ok(SendRequest { target, amount_msat })
}

/// The amount to pay against an offer.
///
/// An amount in bitcoin that the offer names is the amount; an amount from
/// the operator must then equal it. Where the offer names no amount in
/// bitcoin, the operator's amount is the amount. An offer in another
/// currency without an amount from the operator is refused. Where neither
/// names an amount, the amount stays open.
pub open spec fn offer_amount_settled(
    asked: Option<OfferAmount>,
    operator_msat: Option<u64>,
) -> Result<Option<u64>, SendPaymentError> {
    match (asked, operator_msat) {
        (Some(OfferAmount::Bitcoin { amount_msats }), None) => Ok(Some(amount_msats)),
        (Some(OfferAmount::Bitcoin { amount_msats }), Some(given)) => if given == amount_msats {
            Ok(Some(amount_msats))
        } else {
            Err(SendPaymentError::OfferAmountMismatch { offer_msat: amount_msats })
        },
        (_, Some(given)) => Ok(Some(given)),
        (Some(OfferAmount::Currency { iso4217_code, amount }), None) => Err(
            SendPaymentError::UnsupportedCurrency { iso4217_code, amount },
        ),
        (None, None) => Ok(None),
    }
}

/// Settles the amount to pay against an offer.
pub fn settle_offer_amount(asked: Option<OfferAmount>, operator_msat: Option<u64>) -> (r: Result<
    Option<u64>,
    SendPaymentError,
>)
    ensures
        r == offer_amount_settled(asked, operator_msat),
{
    match asked {
        Some(OfferAmount::Bitcoin { amount_msats }) => match operator_msat {
            None => Ok(Some(amount_msats)),
            Some(given) => if given == amount_msats {
                Ok(Some(amount_msats))
            } else {
                Err(SendPaymentError::OfferAmountMismatch { offer_msat: amount_msats })
            },
        },
        Some(OfferAmount::Currency { iso4217_code, amount }) => match operator_msat {
            Some(given) => Ok(Some(given)),
            None => Err(SendPaymentError::UnsupportedCurrency { iso4217_code, amount }),
        },
        None => match operator_msat {
            Some(given) => Ok(Some(given)),
            None => Ok(None),
        },
    }
}

/// How the amount of an invoice payment is fixed.
#[derive(Copy, Clone, Debug, PartialEq, Eq, Structural)]
pub enum InvoiceAmount {
    /// The invoice names the amount.
    Fixed { amount_msat: u64 },
    /// The invoice leaves the amount open and the operator chose it.
    Chosen { amount_msat: u64 },
}

impl InvoiceAmount {
    /// The amount in millisatoshis.
    pub open spec fn msat(self) -> u64 {
        match self {
            InvoiceAmount::Fixed { amount_msat } => amount_msat,
            InvoiceAmount::Chosen { amount_msat } => amount_msat,
        }
    }
}

impl InvoiceAmount {
    /// Gives the amount in millisatoshis.
    pub fn amount_msat(&self) -> (r: u64)
        ensures
            r == self.msat(),
    {
        match self {
            InvoiceAmount::Fixed { amount_msat } => *amount_msat,
            InvoiceAmount::Chosen { amount_msat } => *amount_msat,
        }
    }
}

/// Whether the engine derives route parameters for a payment against an
/// invoice that asks for `asked_msat`. For an amount that the invoice
/// fixes it derives them only where the invoice names an amount, and for
/// an amount that the operator chose only where the invoice names none.
/// So it derives none for an invoice that names the amount zero, whose
/// amount is always left to the operator.
pub open spec fn parameters_derivable(asked_msat: Option<u64>, amount: InvoiceAmount) -> bool {
    match amount {
        InvoiceAmount::Fixed { .. } => asked_msat.is_some(),
        InvoiceAmount::Chosen { .. } => asked_msat.is_none(),
    }
}

/// Says whether the engine derives route parameters for a payment
/// against an invoice that asks for `asked_msat`.
pub fn can_derive_parameters(asked_msat: Option<u64>, amount: InvoiceAmount) -> (r: bool)
    ensures
        r == parameters_derivable(asked_msat, amount),
{
    match amount {
        InvoiceAmount::Fixed { .. } => asked_msat.is_some(),
        InvoiceAmount::Chosen { .. } => asked_msat.is_none(),
    }
}

/// Whether route parameters can be had for an amount settled against an
/// invoice: always, but for an invoice that names the amount zero.
pub proof fn lemma_settled_amount_derivable(asked_msat: Option<u64>, operator_msat: Option<u64>)
    requires
        invoice_amount_settled(asked_msat, operator_msat).is_ok(),
    ensures
        parameters_derivable(
            asked_msat,
            invoice_amount_settled(asked_msat, operator_msat).unwrap(),
        ) == (asked_msat != Some(0u64)),
{
}

/// The amount to pay against an invoice.
///
/// An invoice that names an amount other than zero fixes it; an amount
/// from the operator must then equal it. An invoice without an amount, or
/// with the amount zero, leaves the amount to the operator, who must give
/// one.
pub open spec fn invoice_amount_settled(
    asked_msat: Option<u64>,
    operator_msat: Option<u64>,
) -> Result<InvoiceAmount, SendPaymentError> {
    if asked_msat.is_none() || asked_msat == Some(0u64) {
        match operator_msat {
            Some(given) => Ok(InvoiceAmount::Chosen { amount_msat: given }),
            None => Err(SendPaymentError::InvoiceWithoutAmount),
        }
    } else if operator_msat.is_some() && operator_msat != asked_msat {
        Err(SendPaymentError::InvoiceAmountMismatch { invoice_msat: asked_msat.unwrap() })
    } else {
        Ok(InvoiceAmount::Fixed { amount_msat: asked_msat.unwrap() })
    }
}

/// Settles the amount to pay against an invoice.
pub fn settle_invoice_amount(asked_msat: Option<u64>, operator_msat: Option<u64>) -> (r: Result<
    InvoiceAmount,
    SendPaymentError,
>)
    ensures
        r == invoice_amount_settled(asked_msat, operator_msat),
{
    match asked_msat {
        Some(asked) if asked != 0 => match operator_msat {
            Some(given) if given != asked => Err(
                SendPaymentError::InvoiceAmountMismatch { invoice_msat: asked },
            ),
            _ => Ok(InvoiceAmount::Fixed { amount_msat: asked }),
        },
        _ => match operator_msat {
            Some(given) => Ok(InvoiceAmount::Chosen { amount_msat: given }),
            None => Err(SendPaymentError::InvoiceWithoutAmount),
        },
    }
}

/// What the network graph says of one node, as far as paying to a name
/// needs it.
#[derive(Copy, Clone, Debug)]
pub struct GraphNode {
    /// The node's identity: 33 bytes that should encode a curve point.
    pub node_id: [u8; 33],
    /// Whether the node has announced itself.
    pub announced: bool,
    /// Whether its announcement advertises DNS resolution.
    pub supports_dns_resolution: bool,
    /// Whether its announcement advertises onion messages.
    pub supports_onion_messages: bool,
}

/// The largest number of resolvers that a payment to a name is given.
pub const MAX_RESOLVERS: usize = 6;

impl GraphNode {
    /// Whether the node has announced both DNS resolution and onion
    /// messages. Either alone does not count: nodes are known that
    /// advertise the first without speaking it.
    pub open spec fn advertises_resolution(self) -> bool {
        self.announced && self.supports_dns_resolution && self.supports_onion_messages
    }

    /// Says whether the node has announced both DNS resolution and onion
    /// messages.
    pub fn offers_resolution(&self) -> (r: bool)
        ensures
            r == self.advertises_resolution(),
    {
        self.announced && self.supports_dns_resolution && self.supports_onion_messages
    }
}

/// Whether a node can be asked to resolve names: it advertises
/// resolution, and its identity is a curve point.
pub open spec fn resolves_names(node: GraphNode) -> bool {
    node.advertises_resolution() && parsed_public_key(node.node_id@).is_some()
}

/// The keys of all the nodes that can resolve names, in the order of the
/// nodes.
pub open spec fn resolvers_among(nodes: Seq<GraphNode>) -> Seq<PublicKey>
    decreases nodes.len(),
{
    if nodes.len() == 0 {
        Seq::empty()
    } else {
        let before = resolvers_among(nodes.drop_last());
        if resolves_names(nodes.last()) {
            before.push(parsed_public_key(nodes.last().node_id@).unwrap())
        } else {
            before
        }
    }
}

/// The resolvers chosen for a payment: the first `MAX_RESOLVERS` of the
/// nodes that can resolve names, or all of them where there are fewer.
pub open spec fn selected_resolvers(nodes: Seq<GraphNode>) -> Seq<PublicKey> {
    let all = resolvers_among(nodes);
    if all.len() <= MAX_RESOLVERS {
        all
    } else {
        all.take(MAX_RESOLVERS as int)
    }
}

/// The resolvers among the first nodes stay the first resolvers when more
/// nodes follow.
pub proof fn lemma_resolvers_prefix(nodes: Seq<GraphNode>, k: int)
    requires
        0 <= k <= nodes.len(),
    ensures
        resolvers_among(nodes.take(k)).len() <= resolvers_among(nodes).len(),
        resolvers_among(nodes.take(k)) == resolvers_among(nodes).take(
            resolvers_among(nodes.take(k)).len() as int,
        ),
    decreases nodes.len() - k,
{
    if k == nodes.len() {
        assert(nodes.take(k) =~= nodes);
        assert(resolvers_among(nodes).take(resolvers_among(nodes).len() as int)
            =~= resolvers_among(nodes));
    } else {
        lemma_resolvers_prefix(nodes, k + 1);
        let longer = nodes.take(k + 1);
        assert(longer.drop_last() =~= nodes.take(k));
        let short = resolvers_among(nodes.take(k));
        let long = resolvers_among(longer);
        assert(short =~= long.take(short.len() as int));
        assert(short =~= resolvers_among(nodes).take(short.len() as int));
    }
}

/// Where no node advertises resolution, no resolver is chosen.
pub proof fn lemma_no_resolvers(nodes: Seq<GraphNode>)
    requires
        forall|i: int| 0 <= i < nodes.len() ==> !(#[trigger] nodes[i]).advertises_resolution(),
    ensures
        selected_resolvers(nodes).len() == 0,
    decreases nodes.len(),
{
    if nodes.len() > 0 {
        assert(!resolves_names(nodes.last()));
        lemma_no_resolvers(nodes.drop_last());
    }
}

/// Chooses the nodes that a payment to a name asks for resolution: it
/// walks the nodes in order, takes each that can resolve names and stops
/// at `MAX_RESOLVERS`.
pub fn select_resolvers(nodes: &Vec<GraphNode>) -> (r: Vec<PublicKey>)
    ensures
        r@ == selected_resolvers(nodes@),
{
    let mut out: Vec<PublicKey> = Vec::new();
    let n: usize = nodes.len();
    let mut i: usize = 0;
    assert(nodes@.take(0) =~= Seq::<GraphNode>::empty());
    while i < n && out.len() < MAX_RESOLVERS
        invariant
            n == nodes@.len(),
            i <= n,
            out@ == resolvers_among(nodes@.take(i as int)),
            out@.len() <= MAX_RESOLVERS,
        decreases n - i,
    {
        let node = &nodes[i];
        assert(nodes@.take(i + 1).drop_last() =~= nodes@.take(i as int));
        assert(nodes@.take(i + 1).last() == nodes@[i as int]);
        if node.offers_resolution() {
            match public_key_from_slice(node.node_id.as_slice()) {
                Some(key) => {
                    out.push(key);
                },
                None => {},
            }
        }
        i = i + 1;
    }
    proof {
        lemma_resolvers_prefix(nodes@, i as int);
        if i == n {
            assert(nodes@.take(i as int) =~= nodes@);
        }
    }
    out
}

/// How a payment is handed to the engine.
#[allow(inconsistent_fields)]
#[derive(Debug, PartialEq)]
pub enum PaymentRoute {
    /// Pay an offer. Where the amount is `None`, neither the offer nor the
    /// operator named one.
    Offer { offer: Offer, amount_msat: Option<u64> },
    /// Pay to a name, with the nodes to ask for its resolution.
    Name { name: HumanReadableName, amount_msat: u64, resolvers: Vec<PublicKey> },
    /// Pay an invoice.
    Invoice { invoice: Bolt11Invoice, amount: InvoiceAmount },
}

/// A payment that has passed every check and can be dispatched.
#[derive(Debug, PartialEq)]
pub struct PaymentPlan {
    /// The identifier under which the ledger will hold the attempt.
    pub payment_id: [u8; 32],
    /// The record that the ledger will hold while the attempt is pending.
    pub record: PaymentInfo,
    pub route: PaymentRoute,
    /// Whether the operator must confirm before the payment is made.
    pub confirm: bool,
}

/// The plan to pay an offer that asks for `asked`, under the identifier
/// `fresh_id`. The operator confirms where the operator gave no amount.
pub open spec fn offer_plan(
    offer: Offer,
    asked: Option<OfferAmount>,
    operator_msat: Option<u64>,
    fresh_id: [u8; 32],
) -> Result<PaymentPlan, SendPaymentError> {
    match offer_amount_settled(asked, operator_msat) {
        Ok(amount_msat) => Ok(
            PaymentPlan {
                payment_id: fresh_id,
                record: PaymentInfo::pending(None, amount_msat),
                route: PaymentRoute::Offer { offer, amount_msat },
                confirm: operator_msat.is_none(),
            },
        ),
        Err(reason) => Err(reason),
    }
}

/// The plan to pay to a name, under the identifier `fresh_id`. A name
/// needs an amount from the operator and at least one resolver, and the
/// amount is looked at first.
pub open spec fn name_plan(
    name: HumanReadableName,
    operator_msat: Option<u64>,
    fresh_id: [u8; 32],
    resolvers: Vec<PublicKey>,
) -> Result<PaymentPlan, SendPaymentError> {
    match operator_msat {
        None => Err(SendPaymentError::NameWithoutAmount),
        Some(amount_msat) => if resolvers@.len() == 0 {
            Err(SendPaymentError::NoResolvers)
        } else {
            Ok(
                PaymentPlan {
                    payment_id: fresh_id,
                    record: PaymentInfo::pending(None, Some(amount_msat)),
                    route: PaymentRoute::Name { name, amount_msat, resolvers },
                    confirm: false,
                },
            )
        },
    }
}

/// The plan to pay an invoice with the given payment hash and secret that
/// asks for `asked_msat`. The payment hash is the identifier, and the
/// ledger records the amount that the invoice names.
pub open spec fn invoice_plan(
    invoice: Bolt11Invoice,
    payment_hash: [u8; 32],
    secret: [u8; 32],
    asked_msat: Option<u64>,
    operator_msat: Option<u64>,
) -> Result<PaymentPlan, SendPaymentError> {
    match invoice_amount_settled(asked_msat, operator_msat) {
        Ok(amount) => Ok(
            PaymentPlan {
                payment_id: payment_hash,
                record: PaymentInfo::pending(Some(secret), asked_msat),
                route: PaymentRoute::Invoice { invoice, amount },
                confirm: false,
            },
        ),
        Err(reason) => Err(reason),
    }
}

/// The plan for a request, or the reason why there is none.
///
/// An offer or a name is paid under the fresh identifier; an invoice under
/// its payment hash, so that the same invoice always has the same
/// identifier. Text that is none of the three has no plan.
pub open spec fn payment_plan_of(
    request: SendRequest,
    fresh_id: [u8; 32],
    resolvers: Vec<PublicKey>,
) -> Result<PaymentPlan, SendPaymentError> {
    match request.target {
        PaymentTarget::Offer(offer) => offer_plan(
            offer,
            offer_amount(offer),
            request.amount_msat,
            fresh_id,
        ),
        PaymentTarget::HumanReadableName(name) => name_plan(
            name,
            request.amount_msat,
            fresh_id,
            resolvers,
        ),
        PaymentTarget::Bolt11Invoice(invoice) => invoice_plan(
            invoice,
            invoice_payment_hash(invoice),
            invoice_payment_secret(invoice),
            invoice_amount_msat(invoice),
            request.amount_msat,
        ),
        PaymentTarget::Unparseable(reason) => Err(SendPaymentError::InvalidInvoice(reason)),
    }
}

/// Plans the payment of an offer that asks for `asked`.
pub fn plan_offer_payment(
    offer: Offer,
    asked: Option<OfferAmount>,
    operator_msat: Option<u64>,
    fresh_id: [u8; 32],
) -> (r: Result<PaymentPlan, SendPaymentError>)
    ensures
        r == offer_plan(offer, asked, operator_msat, fresh_id),
{
    match settle_offer_amount(asked, operator_msat) {
        Ok(amount_msat) => Ok(
            PaymentPlan {
                payment_id: fresh_id,
                record: PaymentInfo::new_pending(None, amount_msat),
                route: PaymentRoute::Offer { offer, amount_msat },
                confirm: operator_msat.is_none(),
            },
        ),
        Err(reason) => Err(reason),
    }
}

/// Plans a payment to a name.
pub fn plan_name_payment(
    name: HumanReadableName,
    operator_msat: Option<u64>,
    fresh_id: [u8; 32],
    resolvers: Vec<PublicKey>,
) -> (r: Result<PaymentPlan, SendPaymentError>)
    ensures
        r == name_plan(name, operator_msat, fresh_id, resolvers),
{
    match operator_msat {
        None => Err(SendPaymentError::NameWithoutAmount),
        Some(amount_msat) => if resolvers.len() == 0 {
            Err(SendPaymentError::NoResolvers)
        } else {
            Ok(
                PaymentPlan {
                    payment_id: fresh_id,
                    record: PaymentInfo::new_pending(None, Some(amount_msat)),
                    route: PaymentRoute::Name { name, amount_msat, resolvers },
                    confirm: false,
                },
            )
        },
    }
}

/// Plans the payment of an invoice with the given payment hash and secret
/// that asks for `asked_msat`.
pub fn plan_invoice_payment(
    invoice: Bolt11Invoice,
    payment_hash: [u8; 32],
    secret: [u8; 32],
    asked_msat: Option<u64>,
    operator_msat: Option<u64>,
) -> (r: Result<PaymentPlan, SendPaymentError>)
    ensures
        r == invoice_plan(invoice, payment_hash, secret, asked_msat, operator_msat),
{
    match settle_invoice_amount(asked_msat, operator_msat) {
        Ok(amount) => Ok(
            PaymentPlan {
                payment_id: payment_hash,
                record: PaymentInfo::new_pending(Some(secret), asked_msat),
                route: PaymentRoute::Invoice { invoice, amount },
                confirm: false,
            },
        ),
        Err(reason) => Err(reason),
    }
}

/// Plans the payment of a request. `fresh_id` is a new random identifier
/// and `resolvers` the nodes chosen by `select_resolvers`; an invoice uses
/// neither, an offer only the identifier.
pub fn plan_payment(request: SendRequest, fresh_id: [u8; 32], resolvers: Vec<PublicKey>) -> (r:
    Result<PaymentPlan, SendPaymentError>)
    ensures
        r == payment_plan_of(request, fresh_id, resolvers),
{
    let operator_msat = request.amount_msat;
    match request.target {
        PaymentTarget::Offer(offer) => {
            let asked = amount_of_offer(&offer);
            plan_offer_payment(offer, asked, operator_msat, fresh_id)
        },
        PaymentTarget::HumanReadableName(name) => plan_name_payment(
            name,
            operator_msat,
            fresh_id,
            resolvers,
        ),
        PaymentTarget::Bolt11Invoice(invoice) => {
            let payment_hash = invoice_hash(&invoice);
            let secret = invoice_secret(&invoice);
            let asked_msat = invoice_amount(&invoice);
            plan_invoice_payment(invoice, payment_hash, secret, asked_msat, operator_msat)
        },
        PaymentTarget::Unparseable(reason) => Err(SendPaymentError::InvalidInvoice(reason)),
    }
}

impl SendPaymentError {
    /// What the operator is told.
    pub open spec fn message_text(self) -> Seq<char> {
        match self {
            SendPaymentError::MissingTarget =>
                "ERROR: sendpayment requires an invoice: `sendpayment <invoice> [amount_msat]`"@,
            SendPaymentError::InvalidAmount => "ERROR: couldn't parse amount_msat"@,
            SendPaymentError::InvalidInvoice(_) => "ERROR: invalid invoice"@,
            SendPaymentError::UnsupportedCurrency { iso4217_code, amount } =>
                "ERROR: Cannot process non-Bitcoin-denominated offer value Some(Currency { iso4217_code: ["@
                    + decimal_digits(iso4217_code@[0] as nat) + ", "@ + decimal_digits(
                    iso4217_code@[1] as nat,
                ) + ", "@ + decimal_digits(iso4217_code@[2] as nat) + "], amount: "@
                    + decimal_digits(amount as nat) + " })"@,
            SendPaymentError::OfferAmountMismatch { offer_msat } =>
                "Amount didn't match offer of "@ + decimal_digits(offer_msat as nat) + "msat"@,
            SendPaymentError::NameWithoutAmount =>
                "Can't pay to a human-readable-name without an amount"@,
            SendPaymentError::NoResolvers =>
                "Failed to find any DNS resolving nodes, check your network graph is synced"@,
            SendPaymentError::InvoiceWithoutAmount =>
                "Need an amount for the given 0-value invoice"@,
            SendPaymentError::InvoiceAmountMismatch { invoice_msat } =>
                "Amount didn't match invoice value of "@ + decimal_digits(invoice_msat as nat)
                    + "msat"@,
        }
    }

    /// Writes what the operator is told.
    pub fn message(&self) -> (r: String)
        ensures
            r@ == self.message_text(),
    {
        match self {
            SendPaymentError::MissingTarget => String::from_str(
                "ERROR: sendpayment requires an invoice: `sendpayment <invoice> [amount_msat]`",
            ),
            SendPaymentError::InvalidAmount => String::from_str(
                "ERROR: couldn't parse amount_msat",
            ),
            SendPaymentError::InvalidInvoice(_) => String::from_str("ERROR: invalid invoice"),
            SendPaymentError::UnsupportedCurrency { iso4217_code, amount } => {
                let mut out = String::from_str(
                    "ERROR: Cannot process non-Bitcoin-denominated offer value Some(Currency { iso4217_code: [",
                );
                out.append(decimal_text(iso4217_code[0] as u64).as_str());
                out.append(", ");
                out.append(decimal_text(iso4217_code[1] as u64).as_str());
                out.append(", ");
                out.append(decimal_text(iso4217_code[2] as u64).as_str());
                out.append("], amount: ");
                out.append(decimal_text(*amount).as_str());
                out.append(" })");
                out
            },
            SendPaymentError::OfferAmountMismatch { offer_msat } => {
                let mut out = String::from_str("Amount didn't match offer of ");
                out.append(decimal_text(*offer_msat).as_str());
                out.append("msat");
                out
            },
            SendPaymentError::NameWithoutAmount => String::from_str(
                "Can't pay to a human-readable-name without an amount",
            ),
            SendPaymentError::NoResolvers => String::from_str(
                "Failed to find any DNS resolving nodes, check your network graph is synced",
            ),
            SendPaymentError::InvoiceWithoutAmount => String::from_str(
                "Need an amount for the given 0-value invoice",
            ),
            SendPaymentError::InvoiceAmountMismatch { invoice_msat } => {
                let mut out = String::from_str("Amount didn't match invoice value of ");
                out.append(decimal_text(*invoice_msat).as_str());
                out.append("msat");
                out
            },
        }
    }
}

/// The amount of an invoice and the amount of the operator are
/// reconciled as follows. Against an invoice that names an amount other
/// than zero, a payment goes ahead exactly where the operator gave no
/// amount or gave that amount, and any other amount is a mismatch.
/// Against an invoice that leaves the amount open, a payment goes ahead
/// exactly where the operator gave an amount, and pays that amount.
pub proof fn lemma_invoice_amount_rules(asked_msat: Option<u64>, operator_msat: Option<u64>)
    ensures
        asked_msat.is_some() && asked_msat != Some(0u64) ==> (invoice_amount_settled(
            asked_msat,
            operator_msat,
        ).is_ok() <==> operator_msat.is_none() || operator_msat == asked_msat),
        asked_msat.is_some() && asked_msat != Some(0u64) && operator_msat.is_some()
            && operator_msat != asked_msat ==> invoice_amount_settled(asked_msat, operator_msat)
            == Err::<InvoiceAmount, SendPaymentError>(
            SendPaymentError::InvoiceAmountMismatch { invoice_msat: asked_msat.unwrap() },
        ),
        asked_msat.is_none() || asked_msat == Some(0u64) ==> (invoice_amount_settled(
            asked_msat,
            operator_msat,
        ).is_ok() <==> operator_msat.is_some()),
        (asked_msat.is_none() || asked_msat == Some(0u64)) && operator_msat.is_some()
            ==> invoice_amount_settled(asked_msat, operator_msat) == Ok::<
            InvoiceAmount,
            SendPaymentError,
        >(InvoiceAmount::Chosen { amount_msat: operator_msat.unwrap() }),
        invoice_amount_settled(asked_msat, operator_msat).is_ok() ==> invoice_amount_settled(
            asked_msat,
            operator_msat,
        ).unwrap().msat() == if asked_msat.is_none() || asked_msat == Some(0u64) {
            operator_msat.unwrap()
        } else {
            asked_msat.unwrap()
        },
{
}

/// An invoice is always paid under its payment hash: whatever the fresh
/// identifier and the resolvers, two requests for the same invoice that
/// both have a plan have the same payment identifier.
pub proof fn lemma_invoice_identifier(
    invoice: Bolt11Invoice,
    first: SendRequest,
    second: SendRequest,
    first_id: [u8; 32],
    second_id: [u8; 32],
    first_resolvers: Vec<PublicKey>,
    second_resolvers: Vec<PublicKey>,
)
    requires
        first.target == PaymentTarget::Bolt11Invoice(invoice),
        second.target == PaymentTarget::Bolt11Invoice(invoice),
    ensures
        payment_plan_of(first, first_id, first_resolvers) matches Ok(plan) ==> plan.payment_id
            == invoice_payment_hash(invoice) && plan.route is Invoice && !plan.confirm,
        payment_plan_of(second, second_id, second_resolvers) matches Ok(plan) ==> plan.payment_id
            == invoice_payment_hash(invoice),
{
}

/// A payment to a name is refused where no node of the graph has
/// announced both DNS resolution and onion messages, whatever else the
/// request says.
pub proof fn lemma_name_needs_resolver(
    name: HumanReadableName,
    amount_msat: Option<u64>,
    fresh_id: [u8; 32],
    nodes: Seq<GraphNode>,
    resolvers: Vec<PublicKey>,
)
    requires
        resolvers@ == selected_resolvers(nodes),
        forall|i: int| 0 <= i < nodes.len() ==> !(#[trigger] nodes[i]).advertises_resolution(),
    ensures
        payment_plan_of(
            SendRequest { target: PaymentTarget::HumanReadableName(name), amount_msat },
            fresh_id,
            resolvers,
        ).is_err(),
        amount_msat.is_some() ==> payment_plan_of(
            SendRequest { target: PaymentTarget::HumanReadableName(name), amount_msat },
            fresh_id,
            resolvers,
        ) == Err::<PaymentPlan, SendPaymentError>(SendPaymentError::NoResolvers),
{
    lemma_no_resolvers(nodes);
}

} // verus!
