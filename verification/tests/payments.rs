use bitcoin::secp256k1::{PublicKey, Secp256k1, SecretKey};
use ldk::dispatch::{
    confirmation_prompt, read_confirmation, Confirmation, Dispatch, DispatchAction,
    DispatchEvent, DispatchPhase, PaymentOutcome, RETRY_TIMEOUT_SECS,
};
use ldk::hex_utils::to_compressed_pubkey;
use ldk::invoice::{parse_get_invoice, record_invoice, GetInvoiceError, InvoiceRequest};
use ldk::ledger::{
    HTLCStatus, InboundPaymentInfoStorage, MillisatAmount, OutboundPaymentInfoStorage,
    PaymentInfo,
};
use ldk::payment::{
    can_derive_parameters, classify, classify_parsed, parse_send_payment, plan_invoice_payment,
    plan_name_payment,
    plan_offer_payment, plan_payment, select_resolvers, settle_invoice_amount,
    settle_offer_amount, GraphNode, InvoiceAmount, OfferAmount, PaymentPlan, PaymentRoute,
    PaymentTarget, SendPaymentError, SendRequest, MAX_RESOLVERS,
};
use lightning::bolt11_invoice::{Bolt11Invoice, Currency, InvoiceBuilder};
use lightning::offers::offer::{Offer, OfferBuilder};
use lightning::onion_message::dns_resolution::HumanReadableName;
use lightning::types::payment::PaymentSecret;
use std::str::FromStr;
use std::time::Duration;

const HASH: [u8; 32] = [7; 32];
const SECRET: [u8; 32] = [0x11; 32];
const FRESH: [u8; 32] = [0xfe; 32];
const NODE: &str = "0279be667ef9dcbbac55a06295ce870b07029bfcdb2dce28d959f2815b16f81798";
const NO_AMOUNT_INVOICE: &str = "lnbc1pvjluezsp5zyg3zyg3zyg3zyg3zyg3zyg3zyg3zyg3zyg3zyg3zyg3zyg3zygspp5qqqsyqcyq5rqwzqfqqqsyqcyq5rqwzqfqqqsyqcyq5rqwzqfqypqdpl2pkx2ctnv5sxxmmwwd5kgetjypeh2ursdae8g6twvus8g6rfwvs8qun0dfjkxaq9qrsgq357wnc5r2ueh7ck6q93dj32dlqnls087fxdwk8qakdyafkq3yap9us6v52vjjsrvywa6rt52cm9r9zqt8r2t7mlcwspyetp5h2tztugp9lfyql";
const COFFEE_INVOICE: &str = "lnbc2500u1pvjluezsp5zyg3zyg3zyg3zyg3zyg3zyg3zyg3zyg3zyg3zyg3zyg3zyg3zygspp5qqqsyqcyq5rqwzqfqqqsyqcyq5rqwzqfqqqsyqcyq5rqwzqfqypqdq5xysxxatsyp3k7enxv4jsxqzpu9qrsgquk0rl77nj30yxdy8j9vdx85fkpmdla2087ne0xh8nhedh8w27kyke0lp53ut353s06fv3qfegext0eh0ymjpf39tuven09sam30g4vgpfna3rh";
const SPEC_HASH: [u8; 32] = [
    0x00, 0x01, 0x02, 0x03, 0x04, 0x05, 0x06, 0x07, 0x08, 0x09, 0x00, 0x01, 0x02, 0x03, 0x04, 0x05,
    0x06, 0x07, 0x08, 0x09, 0x00, 0x01, 0x02, 0x03, 0x04, 0x05, 0x06, 0x07, 0x08, 0x09, 0x01, 0x02,
];

fn node_key() -> PublicKey {
    to_compressed_pubkey(NODE).unwrap()
}

fn invoice_text(amount_msat: Option<u64>, hash: [u8; 32]) -> String {
    let key = SecretKey::from_slice(&[42u8; 32]).unwrap();
    let payment_hash: bitcoin::hashes::sha256::Hash = bitcoin::hashes::Hash::from_byte_array(hash);
    let builder = InvoiceBuilder::new(Currency::Bitcoin)
        .description("test".to_string())
        .payment_hash(payment_hash)
        .payment_secret(PaymentSecret(SECRET))
        .duration_since_epoch(Duration::from_secs(1_700_000_000))
        .min_final_cltv_expiry_delta(144);
    let signed = match amount_msat {
        Some(amount) => builder
            .amount_milli_satoshis(amount)
            .build_signed(|digest| Secp256k1::new().sign_ecdsa_recoverable(digest, &key)),
        None => builder.build_signed(|digest| Secp256k1::new().sign_ecdsa_recoverable(digest, &key)),
    };
    signed.unwrap().to_string()
}

fn invoice(amount_msat: Option<u64>) -> Bolt11Invoice {
    Bolt11Invoice::from_str(&invoice_text(amount_msat, HASH)).unwrap()
}

fn offer_text(amount_msat: Option<u64>) -> String {
    let builder = OfferBuilder::new(node_key());
    let offer = match amount_msat {
        Some(amount) => builder.amount_msats(amount).build(),
        None => builder.build(),
    };
    offer.unwrap().to_string()
}

fn offer(amount_msat: Option<u64>) -> Offer {
    Offer::from_str(&offer_text(amount_msat)).unwrap()
}

fn name() -> HumanReadableName {
    HumanReadableName::from_encoded("alice@example.com").unwrap()
}

fn words(list: &[&str]) -> Vec<String> {
    list.iter().map(|w| w.to_string()).collect()
}

fn request(target: PaymentTarget, amount_msat: Option<u64>) -> SendRequest {
    SendRequest { target, amount_msat }
}

fn pending(secret: Option<[u8; 32]>, amount: Option<u64>) -> PaymentInfo {
    PaymentInfo::new_pending(secret, amount)
}

fn invoice_plan(amount_msat: Option<u64>, operator_msat: Option<u64>) -> PaymentPlan {
    plan_payment(request(PaymentTarget::Bolt11Invoice(invoice(amount_msat)), operator_msat), FRESH, vec![]).unwrap()
}

fn resolver(id: [u8; 33]) -> GraphNode {
    GraphNode { node_id: id, announced: true, supports_dns_resolution: true, supports_onion_messages: true }
}

fn key_bytes(seed: u8) -> [u8; 33] {
    let secret = SecretKey::from_slice(&[seed; 32]).unwrap();
    PublicKey::from_secret_key(&Secp256k1::new(), &secret).serialize()
}

#[test]
fn offer_text_is_an_offer() {
    let text = offer_text(Some(5000));
    assert!(text.starts_with("lno1"));
    assert_eq!(classify(&text), PaymentTarget::Offer(Offer::from_str(&text).unwrap()));
}

#[test]
fn name_text_is_a_name() {
    assert_eq!(classify("alice@example.com"), PaymentTarget::HumanReadableName(name()));
    match classify("₿bob@pay.example.org") {
        PaymentTarget::HumanReadableName(found) => {
            assert_eq!(found.user(), "bob");
            assert_eq!(found.domain(), "pay.example.org");
        },
        other => panic!("{:?}", other),
    }
}

#[test]
fn invoice_text_is_an_invoice() {
    match classify(COFFEE_INVOICE) {
        PaymentTarget::Bolt11Invoice(found) => {
            assert_eq!(found.amount_milli_satoshis(), Some(250_000_000));
            assert_eq!(found.to_string(), COFFEE_INVOICE);
        },
        other => panic!("{:?}", other),
    }
    let text = invoice_text(Some(5000), HASH);
    assert_eq!(classify(&text), PaymentTarget::Bolt11Invoice(Bolt11Invoice::from_str(&text).unwrap()));
}

#[test]
fn other_text_is_unparseable() {
    for text in ["", "hello", "lnbc1notaninvoice", "lno1qqq", "@", "alice@", "a b@c.d"] {
        match classify(text) {
            PaymentTarget::Unparseable(reason) => {
                assert_eq!(Err(reason), Bolt11Invoice::from_str(text), "{:?}", text);
            },
            other => panic!("{:?}: {:?}", text, other),
        }
    }
}

#[test]
fn the_offer_wins_over_name_and_invoice() {
    let target = classify_parsed(Some(offer(None)), Some(name()), Ok(invoice(None)));
    assert_eq!(target, PaymentTarget::Offer(offer(None)));
    let target = classify_parsed(None, Some(name()), Ok(invoice(None)));
    assert_eq!(target, PaymentTarget::HumanReadableName(name()));
    let target = classify_parsed(None, None, Ok(invoice(None)));
    assert_eq!(target, PaymentTarget::Bolt11Invoice(invoice(None)));
    let reason = Bolt11Invoice::from_str("x").unwrap_err();
    let target = classify_parsed(None, None, Err(reason.clone()));
    assert_eq!(target, PaymentTarget::Unparseable(reason.clone()));
    let target = classify_parsed(None, Some(name()), Err(reason));
    assert_eq!(target, PaymentTarget::HumanReadableName(name()));
}

#[test]
fn sendpayment_needs_a_target() {
    assert_eq!(parse_send_payment(&words(&[])), Err(SendPaymentError::MissingTarget));
}

#[test]
fn sendpayment_checks_the_amount_before_the_target() {
    assert_eq!(parse_send_payment(&words(&["nonsense", "12x"])), Err(SendPaymentError::InvalidAmount));
    assert_eq!(parse_send_payment(&words(&[COFFEE_INVOICE, "-1"])), Err(SendPaymentError::InvalidAmount));
    assert_eq!(
        parse_send_payment(&words(&[COFFEE_INVOICE, "18446744073709551616"])),
        Err(SendPaymentError::InvalidAmount)
    );
}

#[test]
fn sendpayment_reads_target_and_amount() {
    let read = parse_send_payment(&words(&[COFFEE_INVOICE])).unwrap();
    assert_eq!(read.amount_msat, None);
    assert_eq!(read.target, PaymentTarget::Bolt11Invoice(Bolt11Invoice::from_str(COFFEE_INVOICE).unwrap()));
    let read = parse_send_payment(&words(&["alice@example.com", "1000", "ignored"])).unwrap();
    assert_eq!(read.amount_msat, Some(1000));
    assert_eq!(read.target, PaymentTarget::HumanReadableName(name()));
    let read = parse_send_payment(&words(&["junk", "5"])).unwrap();
    assert_eq!(read.amount_msat, Some(5));
    assert!(matches!(read.target, PaymentTarget::Unparseable(_)));
}

#[test]
fn invoice_amount_equal_to_operator_amount_proceeds() {
    assert_eq!(
        settle_invoice_amount(Some(5000), Some(5000)),
        Ok(InvoiceAmount::Fixed { amount_msat: 5000 })
    );
    assert_eq!(settle_invoice_amount(Some(5000), None), Ok(InvoiceAmount::Fixed { amount_msat: 5000 }));
}

#[test]
fn invoice_amount_other_than_operator_amount_is_a_mismatch() {
    assert_eq!(
        settle_invoice_amount(Some(5000), Some(6000)),
        Err(SendPaymentError::InvoiceAmountMismatch { invoice_msat: 5000 })
    );
    assert_eq!(
        settle_invoice_amount(Some(5000), Some(0)),
        Err(SendPaymentError::InvoiceAmountMismatch { invoice_msat: 5000 })
    );
}

#[test]
fn zero_amount_invoice_needs_the_operator_amount() {
    assert_eq!(settle_invoice_amount(None, None), Err(SendPaymentError::InvoiceWithoutAmount));
    assert_eq!(settle_invoice_amount(Some(0), None), Err(SendPaymentError::InvoiceWithoutAmount));
    assert_eq!(settle_invoice_amount(None, Some(1000)), Ok(InvoiceAmount::Chosen { amount_msat: 1000 }));
    assert_eq!(settle_invoice_amount(Some(0), Some(1000)), Ok(InvoiceAmount::Chosen { amount_msat: 1000 }));
}

#[test]
fn offer_amount_in_bitcoin_is_the_amount() {
    let asked = Some(OfferAmount::Bitcoin { amount_msats: 700 });
    assert_eq!(settle_offer_amount(asked, None), Ok(Some(700)));
    assert_eq!(settle_offer_amount(asked, Some(700)), Ok(Some(700)));
    assert_eq!(
        settle_offer_amount(asked, Some(701)),
        Err(SendPaymentError::OfferAmountMismatch { offer_msat: 700 })
    );
}

#[test]
fn offer_in_another_currency_needs_the_operator_amount() {
    let asked = Some(OfferAmount::Currency { iso4217_code: *b"USD", amount: 100 });
    assert_eq!(
        settle_offer_amount(asked, None),
        Err(SendPaymentError::UnsupportedCurrency { iso4217_code: *b"USD", amount: 100 })
    );
    assert_eq!(settle_offer_amount(asked, Some(900)), Ok(Some(900)));
}

#[test]
fn offer_without_amount_takes_the_operator_amount() {
    assert_eq!(settle_offer_amount(None, Some(900)), Ok(Some(900)));
    assert_eq!(settle_offer_amount(None, None), Ok(None));
}

#[test]
fn resolvers_need_both_features_and_a_valid_key() {
    let good = resolver(key_bytes(1));
    let nodes = vec![
        GraphNode { announced: false, ..resolver(key_bytes(2)) },
        GraphNode { supports_dns_resolution: false, ..resolver(key_bytes(3)) },
        GraphNode { supports_onion_messages: false, ..resolver(key_bytes(4)) },
        resolver([0; 33]),
        good,
    ];
    assert_eq!(select_resolvers(&nodes), vec![PublicKey::from_slice(&key_bytes(1)).unwrap()]);
    assert_eq!(select_resolvers(&nodes[..4].to_vec()), vec![]);
    assert_eq!(select_resolvers(&vec![]), vec![]);
}

#[test]
fn resolvers_are_capped_at_six_in_graph_order() {
    let nodes: Vec<GraphNode> = (1u8..=9).map(|seed| resolver(key_bytes(seed))).collect();
    let expected: Vec<PublicKey> =
        (1u8..=6).map(|seed| PublicKey::from_slice(&key_bytes(seed)).unwrap()).collect();
    assert_eq!(MAX_RESOLVERS, 6);
    assert_eq!(select_resolvers(&nodes), expected);
    assert_eq!(select_resolvers(&nodes[..6].to_vec()), expected);
    assert_eq!(select_resolvers(&nodes[..5].to_vec()), expected[..5].to_vec());
}

#[test]
fn offer_plan_uses_the_fresh_identifier() {
    let plan = plan_payment(request(PaymentTarget::Offer(offer(Some(5000))), Some(5000)), FRESH, vec![]).unwrap();
    assert_eq!(plan.payment_id, FRESH);
    assert_eq!(plan.record, pending(None, Some(5000)));
    assert_eq!(plan.route, PaymentRoute::Offer { offer: offer(Some(5000)), amount_msat: Some(5000) });
    assert!(!plan.confirm);
}

#[test]
fn offer_plan_asks_for_confirmation_without_operator_amount() {
    let plan = plan_payment(request(PaymentTarget::Offer(offer(Some(5000))), None), FRESH, vec![]).unwrap();
    assert!(plan.confirm);
    assert_eq!(plan.record, pending(None, Some(5000)));
    let plan = plan_payment(request(PaymentTarget::Offer(offer(None)), None), FRESH, vec![]).unwrap();
    assert!(plan.confirm);
    assert_eq!(plan.record, pending(None, None));
    assert_eq!(plan.route, PaymentRoute::Offer { offer: offer(None), amount_msat: None });
}

#[test]
fn offer_plan_rejects_a_conflicting_amount() {
    assert_eq!(
        plan_payment(request(PaymentTarget::Offer(offer(Some(5000))), Some(6000)), FRESH, vec![]),
        Err(SendPaymentError::OfferAmountMismatch { offer_msat: 5000 })
    );
}

#[test]
fn name_plan_needs_amount_and_resolvers() {
    let resolvers = vec![node_key()];
    assert_eq!(
        plan_payment(request(PaymentTarget::HumanReadableName(name()), None), FRESH, resolvers.clone()),
        Err(SendPaymentError::NameWithoutAmount)
    );
    assert_eq!(
        plan_payment(request(PaymentTarget::HumanReadableName(name()), None), FRESH, vec![]),
        Err(SendPaymentError::NameWithoutAmount)
    );
    assert_eq!(
        plan_payment(request(PaymentTarget::HumanReadableName(name()), Some(1000)), FRESH, vec![]),
        Err(SendPaymentError::NoResolvers)
    );
    let plan =
        plan_payment(request(PaymentTarget::HumanReadableName(name()), Some(1000)), FRESH, resolvers.clone()).unwrap();
    assert_eq!(plan.payment_id, FRESH);
    assert_eq!(plan.record, pending(None, Some(1000)));
    assert_eq!(plan.route, PaymentRoute::Name { name: name(), amount_msat: 1000, resolvers });
    assert!(!plan.confirm);
}

#[test]
fn name_is_rejected_when_no_node_resolves_and_the_ledger_stays() {
    let nodes = vec![
        GraphNode { supports_onion_messages: false, ..resolver(key_bytes(1)) },
        GraphNode { supports_dns_resolution: false, ..resolver(key_bytes(2)) },
    ];
    let ledger = OutboundPaymentInfoStorage::new();
    let read = parse_send_payment(&words(&["alice@example.com", "1000"])).unwrap();
    assert_eq!(plan_payment(read, FRESH, select_resolvers(&nodes)), Err(SendPaymentError::NoResolvers));
    assert_eq!(ledger.len(), 0);
}

#[test]
fn invoice_plan_uses_the_payment_hash() {
    let plan = invoice_plan(Some(5000), Some(5000));
    assert_eq!(plan.payment_id, HASH);
    assert_eq!(plan.record, pending(Some(SECRET), Some(5000)));
    assert_eq!(
        plan.route,
        PaymentRoute::Invoice { invoice: invoice(Some(5000)), amount: InvoiceAmount::Fixed { amount_msat: 5000 } }
    );
    assert!(!plan.confirm);
    let same = invoice_plan(Some(5000), None);
    assert_eq!(same.payment_id, plan.payment_id);
}

#[test]
fn invoice_plan_reads_the_published_example() {
    let read = parse_send_payment(&words(&[COFFEE_INVOICE, "250000000"])).unwrap();
    let plan = plan_payment(read, FRESH, vec![]).unwrap();
    assert_eq!(plan.payment_id, SPEC_HASH);
    assert_eq!(plan.record, pending(Some([0x11; 32]), Some(250_000_000)));
    let read = parse_send_payment(&words(&[NO_AMOUNT_INVOICE, "1000"])).unwrap();
    let plan = plan_payment(read, FRESH, vec![]).unwrap();
    assert_eq!(plan.payment_id, SPEC_HASH);
    assert_eq!(plan.record, pending(Some([0x11; 32]), None));
    assert!(matches!(plan.route, PaymentRoute::Invoice { amount: InvoiceAmount::Chosen { amount_msat: 1000 }, .. }));
}

#[test]
fn invoice_plan_rejects_a_mismatch_and_the_ledger_stays() {
    let ledger = OutboundPaymentInfoStorage::new();
    assert_eq!(
        plan_payment(request(PaymentTarget::Bolt11Invoice(invoice(Some(5000))), Some(6000)), FRESH, vec![]),
        Err(SendPaymentError::InvoiceAmountMismatch { invoice_msat: 5000 })
    );
    assert_eq!(ledger.len(), 0);
}

#[test]
fn zero_amount_invoice_without_operator_amount_is_rejected() {
    assert_eq!(
        plan_payment(request(PaymentTarget::Bolt11Invoice(invoice(None)), None), FRESH, vec![]),
        Err(SendPaymentError::InvoiceWithoutAmount)
    );
}

#[test]
fn zero_amount_invoice_with_operator_amount_pays_that_amount() {
    let plan = invoice_plan(None, Some(1000));
    assert_eq!(plan.payment_id, HASH);
    assert_eq!(
        plan.route,
        PaymentRoute::Invoice { invoice: invoice(None), amount: InvoiceAmount::Chosen { amount_msat: 1000 } }
    );
    assert_eq!(plan.record, pending(Some(SECRET), None));
}

#[test]
fn unparseable_target_has_no_plan() {
    let reason = Bolt11Invoice::from_str("junk").unwrap_err();
    assert_eq!(
        plan_payment(request(PaymentTarget::Unparseable(reason.clone()), Some(1)), FRESH, vec![]),
        Err(SendPaymentError::InvalidInvoice(reason))
    );
}

#[test]
fn payment_error_messages() {
    let reason = Bolt11Invoice::from_str("junk").unwrap_err();
    assert_eq!(
        SendPaymentError::MissingTarget.message(),
        "ERROR: sendpayment requires an invoice: `sendpayment <invoice> [amount_msat]`"
    );
    assert_eq!(SendPaymentError::InvalidAmount.message(), "ERROR: couldn't parse amount_msat");
    assert_eq!(SendPaymentError::InvalidInvoice(reason).message(), "ERROR: invalid invoice");
    assert_eq!(
        SendPaymentError::UnsupportedCurrency { iso4217_code: *b"USD", amount: 100 }.message(),
        "ERROR: Cannot process non-Bitcoin-denominated offer value Some(Currency { iso4217_code: [85, 83, 68], amount: 100 })"
    );
    let asked = Some(lightning::offers::offer::Amount::Currency { iso4217_code: [0, 9, 255], amount: u64::MAX });
    assert_eq!(
        SendPaymentError::UnsupportedCurrency { iso4217_code: [0, 9, 255], amount: u64::MAX }.message(),
        format!("ERROR: Cannot process non-Bitcoin-denominated offer value {:?}", asked)
    );
    assert_eq!(
        SendPaymentError::OfferAmountMismatch { offer_msat: 5000 }.message(),
        "Amount didn't match offer of 5000msat"
    );
    assert_eq!(
        SendPaymentError::NameWithoutAmount.message(),
        "Can't pay to a human-readable-name without an amount"
    );
    assert_eq!(
        SendPaymentError::NoResolvers.message(),
        "Failed to find any DNS resolving nodes, check your network graph is synced"
    );
    assert_eq!(SendPaymentError::InvoiceWithoutAmount.message(), "Need an amount for the given 0-value invoice");
    assert_eq!(
        SendPaymentError::InvoiceAmountMismatch { invoice_msat: 250_000_000 }.message(),
        "Amount didn't match invoice value of 250000000msat"
    );
}

#[test]
fn confirmation_is_read_from_the_first_letter() {
    assert_eq!(read_confirmation("Y\n"), Confirmation::Proceed);
    assert_eq!(read_confirmation("Yes"), Confirmation::Proceed);
    assert_eq!(read_confirmation("N\n"), Confirmation::Abort);
    assert_eq!(read_confirmation(""), Confirmation::Abort);
    assert_eq!(read_confirmation("y\n"), Confirmation::Repeat);
    assert_eq!(read_confirmation("\n"), Confirmation::Repeat);
    assert_eq!(read_confirmation(" Y"), Confirmation::Repeat);
    assert_eq!(
        confirmation_prompt(MillisatAmount(Some(5000))),
        "Paying offer for 5000 msat. Continue (Y/N)? >"
    );
    assert_eq!(
        confirmation_prompt(MillisatAmount(None)),
        "Paying offer for unknown msat. Continue (Y/N)? >"
    );
}

#[test]
fn name_dispatch_records_then_writes_then_submits() {
    let mut ledger = OutboundPaymentInfoStorage::new();
    let plan =
        plan_payment(request(PaymentTarget::HumanReadableName(name()), Some(1000)), FRESH, vec![node_key()]).unwrap();
    let (mut dispatch, action) = Dispatch::begin(&plan, &mut ledger);
    assert_eq!(action, DispatchAction::WriteSnapshot);
    assert_eq!(dispatch.phase, DispatchPhase::Persisting);
    assert_eq!(ledger.get(&FRESH), Some(pending(None, Some(1000))));
    assert_eq!(ledger.len(), 1);
    assert_eq!(dispatch.advance(DispatchEvent::SnapshotWritten, &mut ledger), DispatchAction::Submit);
    assert_eq!(dispatch.phase, DispatchPhase::Submitted);
    assert_eq!(
        dispatch.advance(DispatchEvent::EngineAnswered { accepted: true }, &mut ledger),
        DispatchAction::Report(PaymentOutcome::InFlight)
    );
    assert_eq!(dispatch.phase, DispatchPhase::Finished);
    assert_eq!(ledger.get(&FRESH), Some(pending(None, Some(1000))));
    assert_eq!(dispatch.advance(DispatchEvent::SnapshotWritten, &mut ledger), DispatchAction::Rest);
}

#[test]
fn refused_name_payment_is_marked_failed_and_written_again() {
    let mut ledger = OutboundPaymentInfoStorage::new();
    ledger.insert([9; 32], pending(None, Some(1)));
    let plan =
        plan_payment(request(PaymentTarget::HumanReadableName(name()), Some(1000)), FRESH, vec![node_key()]).unwrap();
    let (mut dispatch, _) = Dispatch::begin(&plan, &mut ledger);
    dispatch.advance(DispatchEvent::SnapshotWritten, &mut ledger);
    assert_eq!(
        dispatch.advance(DispatchEvent::EngineAnswered { accepted: false }, &mut ledger),
        DispatchAction::WriteSnapshot
    );
    assert_eq!(dispatch.phase, DispatchPhase::PersistingFailure);
    assert_eq!(ledger.get(&FRESH), Some(pending(None, Some(1000)).fail()));
    assert_eq!(ledger.get(&FRESH).unwrap().status, HTLCStatus::Failed);
    assert_eq!(ledger.get(&[9; 32]), Some(pending(None, Some(1))));
    assert_eq!(
        dispatch.advance(DispatchEvent::EngineAnswered { accepted: true }, &mut ledger),
        DispatchAction::WriteSnapshot
    );
    let stored = OutboundPaymentInfoStorage::decode(&ledger.encode()).unwrap();
    assert_eq!(
        dispatch.advance(DispatchEvent::SnapshotWritten, &mut ledger),
        DispatchAction::Report(PaymentOutcome::Refused)
    );
    assert_eq!(dispatch.phase, DispatchPhase::Finished);
    assert_eq!(stored.get(&FRESH).unwrap().status, HTLCStatus::Failed);
    assert_eq!(ledger.get(&FRESH).unwrap().status, HTLCStatus::Failed);
    assert_eq!(ledger.len(), 2);
}

#[test]
fn refused_offer_payment_is_marked_failed_and_written_again() {
    let mut ledger = OutboundPaymentInfoStorage::new();
    let plan = plan_payment(request(PaymentTarget::Offer(offer(Some(5000))), Some(5000)), FRESH, vec![]).unwrap();
    let (mut dispatch, action) = Dispatch::begin(&plan, &mut ledger);
    assert_eq!(action, DispatchAction::WriteSnapshot);
    assert_eq!(dispatch.advance(DispatchEvent::SnapshotWritten, &mut ledger), DispatchAction::Submit);
    assert_eq!(
        dispatch.advance(DispatchEvent::EngineAnswered { accepted: false }, &mut ledger),
        DispatchAction::WriteSnapshot
    );
    assert_eq!(ledger.get(&FRESH), Some(pending(None, Some(5000)).fail()));
    assert_eq!(
        dispatch.advance(DispatchEvent::SnapshotWritten, &mut ledger),
        DispatchAction::Report(PaymentOutcome::Refused)
    );
    assert_eq!(ledger.len(), 1);
    assert_eq!(ledger.get(&FRESH).unwrap().status, HTLCStatus::Failed);
    assert_eq!(dispatch.advance(DispatchEvent::SnapshotWritten, &mut ledger), DispatchAction::Rest);
}

#[test]
fn invoice_that_names_zero_ends_without_parameters() {
    let mut ledger = OutboundPaymentInfoStorage::new();
    let plan = plan_invoice_payment(invoice(None), [1; 32], [2; 32], Some(0), Some(1000)).unwrap();
    let (dispatch, action) = Dispatch::begin(&plan, &mut ledger);
    assert_eq!(action, DispatchAction::Report(PaymentOutcome::NoParameters));
    assert_eq!(dispatch.phase, DispatchPhase::Finished);
    assert!(!dispatch.attempt.derivable);
    assert_eq!(ledger.len(), 0);
    let plan = invoice_plan(None, Some(1000));
    let (dispatch, action) = Dispatch::begin(&plan, &mut ledger);
    assert_eq!(action, DispatchAction::DeriveParameters);
    assert!(dispatch.attempt.derivable);
}

#[test]
fn parameters_are_derived_as_the_engine_derives_them() {
    let named = invoice(Some(5000));
    let open = invoice(None);
    let fixed = InvoiceAmount::Fixed { amount_msat: 5000 };
    let chosen = InvoiceAmount::Chosen { amount_msat: 1000 };
    assert_eq!(
        can_derive_parameters(Some(5000), fixed),
        lightning::ln::bolt11_payment::payment_parameters_from_invoice(&named).is_ok()
    );
    assert_eq!(
        can_derive_parameters(None, fixed),
        lightning::ln::bolt11_payment::payment_parameters_from_invoice(&open).is_ok()
    );
    assert_eq!(
        can_derive_parameters(Some(5000), chosen),
        lightning::ln::bolt11_payment::payment_parameters_from_variable_amount_invoice(&named, 1000).is_ok()
    );
    assert_eq!(
        can_derive_parameters(None, chosen),
        lightning::ln::bolt11_payment::payment_parameters_from_variable_amount_invoice(&open, 1000).is_ok()
    );
    assert!(can_derive_parameters(Some(5000), fixed) && can_derive_parameters(None, chosen));
    assert!(!can_derive_parameters(None, fixed) && !can_derive_parameters(Some(0), chosen));
    assert!(!can_derive_parameters(Some(5000), chosen));
    assert_eq!(fixed.amount_msat(), 5000);
    assert_eq!(chosen.amount_msat(), 1000);
}

#[test]
fn offer_dispatch_waits_for_the_operator() {
    let mut ledger = OutboundPaymentInfoStorage::new();
    let plan = plan_payment(request(PaymentTarget::Offer(offer(Some(5000))), None), FRESH, vec![]).unwrap();
    let (mut dispatch, action) = Dispatch::begin(&plan, &mut ledger);
    assert_eq!(action, DispatchAction::AskConfirmation);
    assert_eq!(ledger.len(), 0);
    assert_eq!(
        dispatch.advance(DispatchEvent::Replied(read_confirmation("maybe")), &mut ledger),
        DispatchAction::AskConfirmation
    );
    assert_eq!(dispatch.advance(DispatchEvent::SnapshotWritten, &mut ledger), DispatchAction::AskConfirmation);
    assert_eq!(ledger.len(), 0);
    assert_eq!(
        dispatch.advance(DispatchEvent::Replied(read_confirmation("Y")), &mut ledger),
        DispatchAction::WriteSnapshot
    );
    assert_eq!(ledger.get(&FRESH), Some(pending(None, Some(5000))));
    assert_eq!(dispatch.advance(DispatchEvent::SnapshotWritten, &mut ledger), DispatchAction::Submit);
}

#[test]
fn declined_offer_leaves_the_ledger_alone() {
    let mut ledger = OutboundPaymentInfoStorage::new();
    let plan = plan_payment(request(PaymentTarget::Offer(offer(Some(5000))), None), FRESH, vec![]).unwrap();
    let (mut dispatch, _) = Dispatch::begin(&plan, &mut ledger);
    assert_eq!(
        dispatch.advance(DispatchEvent::Replied(read_confirmation("N")), &mut ledger),
        DispatchAction::Report(PaymentOutcome::Abandoned)
    );
    assert_eq!(dispatch.phase, DispatchPhase::Finished);
    assert_eq!(ledger.len(), 0);
}

#[test]
fn invoice_dispatch_derives_parameters_first() {
    let mut ledger = OutboundPaymentInfoStorage::new();
    let plan = invoice_plan(Some(5000), Some(5000));
    let (mut dispatch, action) = Dispatch::begin(&plan, &mut ledger);
    assert_eq!(action, DispatchAction::DeriveParameters);
    assert_eq!(ledger.len(), 0);
    assert_eq!(
        dispatch.advance(DispatchEvent::Derived { ok: true }, &mut ledger),
        DispatchAction::WriteSnapshot
    );
    assert_eq!(ledger.get(&HASH), Some(pending(Some(SECRET), Some(5000))));
    assert_eq!(dispatch.advance(DispatchEvent::SnapshotWritten, &mut ledger), DispatchAction::Submit);
    assert_eq!(
        dispatch.advance(DispatchEvent::EngineAnswered { accepted: true }, &mut ledger),
        DispatchAction::Report(PaymentOutcome::InFlight)
    );
    assert_eq!(ledger.get(&HASH).unwrap().status, HTLCStatus::Pending);
}

#[test]
fn invoice_without_parameters_is_not_recorded() {
    let mut ledger = OutboundPaymentInfoStorage::new();
    let plan = invoice_plan(Some(5000), None);
    let (mut dispatch, _) = Dispatch::begin(&plan, &mut ledger);
    assert_eq!(
        dispatch.advance(DispatchEvent::Derived { ok: false }, &mut ledger),
        DispatchAction::Report(PaymentOutcome::NoParameters)
    );
    assert_eq!(ledger.len(), 0);
}

#[test]
fn refused_invoice_payment_is_marked_failed_and_written_again() {
    let mut ledger = OutboundPaymentInfoStorage::new();
    ledger.insert([9; 32], pending(None, Some(1)));
    let plan = invoice_plan(Some(5000), None);
    let (mut dispatch, _) = Dispatch::begin(&plan, &mut ledger);
    dispatch.advance(DispatchEvent::Derived { ok: true }, &mut ledger);
    dispatch.advance(DispatchEvent::SnapshotWritten, &mut ledger);
    assert_eq!(
        dispatch.advance(DispatchEvent::EngineAnswered { accepted: false }, &mut ledger),
        DispatchAction::WriteSnapshot
    );
    assert_eq!(dispatch.phase, DispatchPhase::PersistingFailure);
    let failed = ledger.get(&HASH).unwrap();
    assert_eq!(failed.status, HTLCStatus::Failed);
    assert_eq!(failed.secret, Some(SECRET));
    assert_eq!(failed.amt_msat, MillisatAmount(Some(5000)));
    assert_eq!(ledger.get(&[9; 32]), Some(pending(None, Some(1))));
    assert_eq!(
        dispatch.advance(DispatchEvent::SnapshotWritten, &mut ledger),
        DispatchAction::Report(PaymentOutcome::Refused)
    );
    assert_eq!(dispatch.phase, DispatchPhase::Finished);
}

fn pay_invoice(ledger: &mut OutboundPaymentInfoStorage, text: &str, accepted: bool) -> [u8; 32] {
    let read = parse_send_payment(&words(&[text])).unwrap();
    let plan = plan_payment(read, [accepted as u8; 32], vec![]).unwrap();
    let (mut dispatch, _) = Dispatch::begin(&plan, ledger);
    dispatch.advance(DispatchEvent::Derived { ok: true }, ledger);
    dispatch.advance(DispatchEvent::SnapshotWritten, ledger);
    if dispatch.advance(DispatchEvent::EngineAnswered { accepted }, ledger) == DispatchAction::WriteSnapshot {
        dispatch.advance(DispatchEvent::SnapshotWritten, ledger);
    }
    assert_eq!(dispatch.phase, DispatchPhase::Finished);
    plan.payment_id
}

#[test]
fn same_invoice_twice_leaves_one_record_with_the_second_outcome() {
    let text = invoice_text(Some(5000), HASH);
    let mut ledger = OutboundPaymentInfoStorage::new();
    let first = pay_invoice(&mut ledger, &text, false);
    assert_eq!(ledger.get(&first).unwrap().status, HTLCStatus::Failed);
    let second = pay_invoice(&mut ledger, &text, true);
    assert_eq!(first, second);
    assert_eq!(first, HASH);
    assert_eq!(ledger.len(), 1);
    assert_eq!(ledger.get(&second).unwrap().status, HTLCStatus::Pending);
    let third = pay_invoice(&mut ledger, &text, false);
    assert_eq!(third, HASH);
    assert_eq!(ledger.len(), 1);
    assert_eq!(ledger.get(&third).unwrap().status, HTLCStatus::Failed);
}

#[test]
fn different_invoices_have_different_records() {
    let mut ledger = OutboundPaymentInfoStorage::new();
    let first = pay_invoice(&mut ledger, &invoice_text(Some(5000), [1; 32]), true);
    let second = pay_invoice(&mut ledger, &invoice_text(Some(5000), [2; 32]), false);
    assert_eq!((first, second), ([1; 32], [2; 32]));
    assert_eq!(ledger.len(), 2);
    assert_eq!(ledger.get(&first).unwrap().status, HTLCStatus::Pending);
    assert_eq!(ledger.get(&second).unwrap().status, HTLCStatus::Failed);
}

#[test]
fn outcome_messages() {
    let by_offer = PaymentRoute::Offer { offer: offer(None), amount_msat: Some(7) };
    let by_name = PaymentRoute::Name { name: name(), amount_msat: 7, resolvers: vec![node_key()] };
    let fixed = PaymentRoute::Invoice { invoice: invoice(Some(5000)), amount: InvoiceAmount::Fixed { amount_msat: 5000 } };
    let chosen = PaymentRoute::Invoice { invoice: invoice(None), amount: InvoiceAmount::Chosen { amount_msat: 1000 } };
    assert_eq!(PaymentOutcome::InFlight.message(&by_offer, ""), "Payment in flight");
    assert_eq!(PaymentOutcome::InFlight.message(&by_name, "unused"), "Payment in flight");
    assert_eq!(
        PaymentOutcome::InFlight.message(&fixed, NODE),
        format!("EVENT: initiated sending 5000 msats to {}", NODE)
    );
    assert_eq!(
        PaymentOutcome::InFlight.message(&chosen, NODE),
        format!("EVENT: initiated sending 1000 msats to {}", NODE)
    );
    assert_eq!(
        PaymentOutcome::Refused.message(&by_offer, "Err(InvalidAmount)"),
        "ERROR: Failed to pay: Err(InvalidAmount)"
    );
    assert_eq!(PaymentOutcome::Refused.message(&by_name, "unused"), "ERROR: Failed to pay");
    assert_eq!(
        PaymentOutcome::Refused.message(&fixed, "RouteNotFound"),
        "ERROR: failed to send payment: RouteNotFound"
    );
    assert_eq!(PaymentOutcome::Abandoned.message(&by_offer, "unused"), "");
    assert_eq!(PaymentOutcome::NoParameters.message(&fixed, "unused"), "Failed to parse invoice: ()");
    assert_eq!(RETRY_TIMEOUT_SECS, 10);
}

#[test]
fn getinvoice_reads_amount_and_expiry() {
    assert_eq!(
        parse_get_invoice(&words(&["5000", "3600"])),
        Ok(InvoiceRequest { amount_msat: 5000, expiry_secs: 3600 })
    );
    assert_eq!(
        parse_get_invoice(&words(&["18446744073709551615", "4294967295", "more"])),
        Ok(InvoiceRequest { amount_msat: u64::MAX, expiry_secs: u32::MAX })
    );
}

#[test]
fn getinvoice_checks_the_amount_first() {
    assert_eq!(parse_get_invoice(&words(&[])), Err(GetInvoiceError::MissingAmount));
    assert_eq!(parse_get_invoice(&words(&["x", "y"])), Err(GetInvoiceError::InvalidAmount));
    assert_eq!(parse_get_invoice(&words(&["x"])), Err(GetInvoiceError::InvalidAmount));
    assert_eq!(parse_get_invoice(&words(&["5000"])), Err(GetInvoiceError::MissingExpiry));
    assert_eq!(parse_get_invoice(&words(&["5000", "y"])), Err(GetInvoiceError::InvalidExpiry));
    assert_eq!(parse_get_invoice(&words(&["5000", "4294967296"])), Err(GetInvoiceError::InvalidExpiry));
}

#[test]
fn getinvoice_messages() {
    assert_eq!(
        GetInvoiceError::MissingAmount.message(),
        "ERROR: getinvoice requires an amount in millisatoshis"
    );
    assert_eq!(
        GetInvoiceError::InvalidAmount.message(),
        "ERROR: getinvoice provided payment amount was not a number"
    );
    assert_eq!(GetInvoiceError::MissingExpiry.message(), "ERROR: getinvoice requires an expiry in seconds");
    assert_eq!(GetInvoiceError::InvalidExpiry.message(), "ERROR: getinvoice provided expiry was not a number");
}

#[test]
fn created_invoice_is_recorded_under_its_hash() {
    let mut ledger = InboundPaymentInfoStorage::new();
    record_invoice(&mut ledger, &invoice(Some(5000)), 5000);
    assert_eq!(ledger.len(), 1);
    assert_eq!(ledger.get(&HASH), Some(pending(Some(SECRET), Some(5000))));
    record_invoice(&mut ledger, &Bolt11Invoice::from_str(COFFEE_INVOICE).unwrap(), 250_000_000);
    assert_eq!(ledger.len(), 2);
    assert_eq!(ledger.get(&SPEC_HASH), Some(pending(Some([0x11; 32]), Some(250_000_000))));
}

#[test]
fn invoice_plan_on_given_values() {
    let plan = plan_invoice_payment(invoice(None), [1; 32], [2; 32], Some(0), Some(1000)).unwrap();
    assert_eq!(plan.payment_id, [1; 32]);
    assert_eq!(plan.record, pending(Some([2; 32]), Some(0)));
    assert_eq!(
        plan.route,
        PaymentRoute::Invoice { invoice: invoice(None), amount: InvoiceAmount::Chosen { amount_msat: 1000 } }
    );
    assert_eq!(
        plan_invoice_payment(invoice(None), [1; 32], [2; 32], Some(0), None),
        Err(SendPaymentError::InvoiceWithoutAmount)
    );
    assert_eq!(
        plan_invoice_payment(invoice(None), [1; 32], [2; 32], Some(5000), Some(6000)),
        Err(SendPaymentError::InvoiceAmountMismatch { invoice_msat: 5000 })
    );
}

#[test]
fn offer_plan_on_given_values() {
    let dollars = Some(OfferAmount::Currency { iso4217_code: *b"USD", amount: 100 });
    assert_eq!(
        plan_offer_payment(offer(None), dollars, None, FRESH),
        Err(SendPaymentError::UnsupportedCurrency { iso4217_code: *b"USD", amount: 100 })
    );
    let plan = plan_offer_payment(offer(None), dollars, Some(900), FRESH).unwrap();
    assert_eq!(plan.record, pending(None, Some(900)));
    assert_eq!(plan.route, PaymentRoute::Offer { offer: offer(None), amount_msat: Some(900) });
    assert!(!plan.confirm);
}

#[test]
fn name_plan_on_given_values() {
    assert_eq!(plan_name_payment(name(), Some(1), FRESH, vec![]), Err(SendPaymentError::NoResolvers));
    assert_eq!(plan_name_payment(name(), None, FRESH, vec![node_key()]), Err(SendPaymentError::NameWithoutAmount));
    assert!(plan_name_payment(name(), Some(1), FRESH, vec![node_key()]).is_ok());
}

#[test]
fn a_node_must_advertise_both_features() {
    assert!(resolver([2; 33]).offers_resolution());
    assert!(!GraphNode { announced: false, ..resolver([2; 33]) }.offers_resolution());
    assert!(!GraphNode { supports_dns_resolution: false, ..resolver([2; 33]) }.offers_resolution());
    assert!(!GraphNode { supports_onion_messages: false, ..resolver([2; 33]) }.offers_resolution());
}

#[test]
fn in_flight_is_never_reported_before_the_ledger_is_written() {
    let mut ledger = OutboundPaymentInfoStorage::new();
    let plan =
        plan_payment(request(PaymentTarget::HumanReadableName(name()), Some(1000)), FRESH, vec![node_key()]).unwrap();
    let (mut dispatch, action) = Dispatch::begin(&plan, &mut ledger);
    assert_eq!(action, DispatchAction::WriteSnapshot);
    for _ in 0..3 {
        assert_eq!(
            dispatch.advance(DispatchEvent::EngineAnswered { accepted: true }, &mut ledger),
            DispatchAction::WriteSnapshot
        );
        assert_eq!(dispatch.phase, DispatchPhase::Persisting);
    }
    let stored = OutboundPaymentInfoStorage::decode(&ledger.encode()).unwrap();
    assert_eq!(dispatch.advance(DispatchEvent::SnapshotWritten, &mut ledger), DispatchAction::Submit);
    assert_eq!(
        dispatch.advance(DispatchEvent::EngineAnswered { accepted: true }, &mut ledger),
        DispatchAction::Report(PaymentOutcome::InFlight)
    );
    assert_eq!(stored.get(&FRESH), Some(plan.record));
    assert_eq!(stored.get(&FRESH), ledger.get(&FRESH));
}

#[test]
fn invoice_in_flight_is_never_reported_before_the_ledger_is_written() {
    let mut ledger = OutboundPaymentInfoStorage::new();
    let plan = invoice_plan(Some(5000), Some(5000));
    let (mut dispatch, _) = Dispatch::begin(&plan, &mut ledger);
    assert_eq!(
        dispatch.advance(DispatchEvent::EngineAnswered { accepted: true }, &mut ledger),
        DispatchAction::DeriveParameters
    );
    assert_eq!(dispatch.advance(DispatchEvent::SnapshotWritten, &mut ledger), DispatchAction::DeriveParameters);
    assert_eq!(ledger.len(), 0);
    dispatch.advance(DispatchEvent::Derived { ok: true }, &mut ledger);
    assert_eq!(
        dispatch.advance(DispatchEvent::EngineAnswered { accepted: true }, &mut ledger),
        DispatchAction::WriteSnapshot
    );
    assert_eq!(dispatch.advance(DispatchEvent::SnapshotWritten, &mut ledger), DispatchAction::Submit);
    assert_eq!(
        dispatch.advance(DispatchEvent::EngineAnswered { accepted: true }, &mut ledger),
        DispatchAction::Report(PaymentOutcome::InFlight)
    );
}
