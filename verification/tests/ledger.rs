use ldk::ledger::{
    HTLCStatus, InboundPaymentInfoStorage, MillisatAmount, OutboundPaymentInfoStorage,
    PaymentInfo,
};
use ldk::wire::encode_entries;
use lightning::util::ser::{BigSize, Writeable};

fn pending(secret: Option<[u8; 32]>, amount: Option<u64>) -> PaymentInfo {
    PaymentInfo::new_pending(secret, amount)
}

#[test]
fn pending_record_has_no_preimage() {
    let record = pending(Some([7; 32]), Some(5000));
    assert_eq!(record.preimage, None);
    assert_eq!(record.secret, Some([7; 32]));
    assert_eq!(record.status, HTLCStatus::Pending);
    assert_eq!(record.amt_msat, MillisatAmount(Some(5000)));
}

#[test]
fn amount_shows_as_number_or_unknown() {
    assert_eq!(MillisatAmount(Some(5000)).to_string(), "5000");
    assert_eq!(MillisatAmount(Some(0)).to_string(), "0");
    assert_eq!(MillisatAmount(None).to_string(), "unknown");
}

#[test]
fn new_ledger_is_empty() {
    let ledger = OutboundPaymentInfoStorage::new();
    assert_eq!(ledger.len(), 0);
    assert_eq!(ledger.get(&[0; 32]), None);
    assert!(ledger.entries().is_empty());
    assert_eq!(InboundPaymentInfoStorage::new().len(), 0);
}

#[test]
fn insert_adds_and_replaces() {
    let mut ledger = OutboundPaymentInfoStorage::new();
    let first = pending(None, Some(1));
    let second = pending(Some([2; 32]), Some(2));
    assert_eq!(ledger.insert([1; 32], first), None);
    assert_eq!(ledger.len(), 1);
    assert_eq!(ledger.get(&[1; 32]), Some(first));
    assert_eq!(ledger.insert([1; 32], second), Some(first));
    assert_eq!(ledger.len(), 1);
    assert_eq!(ledger.get(&[1; 32]), Some(second));
    assert_eq!(ledger.insert([9; 32], first), None);
    assert_eq!(ledger.len(), 2);
    assert_eq!(ledger.get(&[1; 32]), Some(second));
    assert_eq!(ledger.get(&[9; 32]), Some(first));
    assert_eq!(ledger.get(&[3; 32]), None);
}

#[test]
fn inbound_insert_adds_and_replaces() {
    let mut ledger = InboundPaymentInfoStorage::new();
    let first = pending(Some([1; 32]), Some(10));
    let second = pending(Some([2; 32]), Some(20));
    assert_eq!(ledger.insert([5; 32], first), None);
    assert_eq!(ledger.insert([5; 32], second), Some(first));
    assert_eq!(ledger.get(&[5; 32]), Some(second));
    assert_eq!(ledger.len(), 1);
}

#[test]
fn a_pending_attempt_can_fail() {
    let mut ledger = OutboundPaymentInfoStorage::new();
    let record = pending(Some([4; 32]), Some(77));
    let other = pending(None, None);
    ledger.insert([1; 32], record);
    ledger.insert([2; 32], other);
    assert!(ledger.mark_failed(&[1; 32]));
    let updated = ledger.get(&[1; 32]).unwrap();
    assert_eq!(updated.status, HTLCStatus::Failed);
    assert_eq!(updated.secret, record.secret);
    assert_eq!(updated.preimage, None);
    assert_eq!(updated.amt_msat, record.amt_msat);
    assert_eq!(ledger.get(&[2; 32]), Some(other));
    assert_eq!(ledger.len(), 2);
}

#[test]
fn a_pending_payment_can_succeed_with_its_preimage() {
    let mut ledger = InboundPaymentInfoStorage::new();
    let record = pending(Some([4; 32]), Some(77));
    ledger.insert([1; 32], record);
    assert!(ledger.mark_succeeded(&[1; 32], [0xab; 32]));
    let updated = ledger.get(&[1; 32]).unwrap();
    assert_eq!(updated.status, HTLCStatus::Succeeded);
    assert_eq!(updated.preimage, Some([0xab; 32]));
    assert_eq!(updated.secret, record.secret);
    assert_eq!(updated.amt_msat, record.amt_msat);
    let mut outbound = OutboundPaymentInfoStorage::new();
    outbound.insert([1; 32], record);
    assert!(outbound.mark_succeeded(&[1; 32], [0xcd; 32]));
    assert_eq!(outbound.get(&[1; 32]), Some(record.succeed([0xcd; 32])));
}

#[test]
fn an_outcome_is_never_changed() {
    let mut ledger = OutboundPaymentInfoStorage::new();
    ledger.insert([1; 32], pending(None, Some(1)));
    ledger.insert([2; 32], pending(None, Some(2)));
    ledger.mark_failed(&[1; 32]);
    ledger.mark_succeeded(&[2; 32], [9; 32]);
    let failed = ledger.get(&[1; 32]).unwrap();
    let succeeded = ledger.get(&[2; 32]).unwrap();
    assert!(ledger.mark_succeeded(&[1; 32], [7; 32]));
    assert!(ledger.mark_failed(&[1; 32]));
    assert!(ledger.mark_failed(&[2; 32]));
    assert!(ledger.mark_succeeded(&[2; 32], [7; 32]));
    assert_eq!(ledger.get(&[1; 32]), Some(failed));
    assert_eq!(ledger.get(&[2; 32]), Some(succeeded));
    assert_eq!(failed.status, HTLCStatus::Failed);
    assert_eq!(succeeded.preimage, Some([9; 32]));
    let mut inbound = InboundPaymentInfoStorage::new();
    inbound.insert([1; 32], pending(None, Some(1)));
    assert!(inbound.mark_failed(&[1; 32]));
    assert!(inbound.mark_succeeded(&[1; 32], [7; 32]));
    assert_eq!(inbound.get(&[1; 32]).unwrap().status, HTLCStatus::Failed);
    assert_eq!(inbound.get(&[1; 32]).unwrap().preimage, None);
}

#[test]
fn outcomes_of_one_record() {
    let record = pending(Some([1; 32]), Some(5));
    assert_eq!(record.fail().status, HTLCStatus::Failed);
    assert_eq!(record.fail().fail(), record.fail());
    assert_eq!(record.fail().succeed([2; 32]), record.fail());
    assert_eq!(record.succeed([2; 32]).status, HTLCStatus::Succeeded);
    assert_eq!(record.succeed([2; 32]).preimage, Some([2; 32]));
    assert_eq!(record.succeed([2; 32]).fail(), record.succeed([2; 32]));
    assert_eq!(record.succeed([2; 32]).succeed([3; 32]), record.succeed([2; 32]));
}

#[test]
fn marking_a_missing_record_changes_nothing() {
    let mut ledger = OutboundPaymentInfoStorage::new();
    ledger.insert([1; 32], pending(None, Some(1)));
    assert!(!ledger.mark_failed(&[2; 32]));
    assert!(!ledger.mark_succeeded(&[2; 32], [0; 32]));
    assert_eq!(ledger.len(), 1);
    assert_eq!(ledger.get(&[1; 32]), Some(pending(None, Some(1))));
}

#[test]
fn entries_list_every_record_once() {
    let mut ledger = OutboundPaymentInfoStorage::new();
    for i in 0u8..20 {
        ledger.insert([i; 32], pending(None, Some(i as u64)));
    }
    let mut entries = ledger.entries();
    entries.sort_by_key(|entry| entry.0);
    assert_eq!(entries.len(), 20);
    for (i, entry) in entries.iter().enumerate() {
        assert_eq!(entry.0, [i as u8; 32]);
        assert_eq!(entry.1, pending(None, Some(i as u64)));
    }
}

#[test]
fn status_is_stored_as_its_number_and_an_empty_stream() {
    assert_eq!(HTLCStatus::Pending.encode(), vec![0, 0]);
    assert_eq!(HTLCStatus::Succeeded.encode(), vec![1, 0]);
    assert_eq!(HTLCStatus::Failed.encode(), vec![2, 0]);
}

#[test]
fn amount_is_stored_as_optional_number() {
    assert_eq!(MillisatAmount(None).write(), vec![0]);
    assert_eq!(
        MillisatAmount(Some(5000)).write(),
        vec![9, 0, 0, 0, 0, 0, 0, 0x13, 0x88]
    );
    assert_eq!(
        MillisatAmount(Some(u64::MAX)).write(),
        vec![9, 0xff, 0xff, 0xff, 0xff, 0xff, 0xff, 0xff, 0xff]
    );
}

#[test]
fn amount_is_stored_as_the_engine_stores_optional_numbers() {
    for amount in [None, Some(0u64), Some(1), Some(255), Some(256), Some(5000), Some(u64::MAX)] {
        assert_eq!(MillisatAmount(amount).write(), amount.encode());
    }
}

fn expected_record(secret: [u8; 32], status: u8, amount: u64) -> Vec<u8> {
    let mut bytes = vec![53, 0, 1, 0, 2, 33, 33];
    bytes.extend_from_slice(&secret);
    bytes.extend_from_slice(&[4, 2, status, 0, 6, 9, 9]);
    bytes.extend_from_slice(&amount.to_be_bytes());
    bytes
}

#[test]
fn record_is_stored_as_four_fields() {
    let record = pending(Some([0x11; 32]), Some(5000));
    assert_eq!(record.encode(), expected_record([0x11; 32], 0, 5000));
    assert_eq!(record.encode().len(), 54);
}

#[test]
fn record_without_secret_and_amount_is_short() {
    let record = PaymentInfo {
        preimage: Some([0xaa; 32]),
        secret: None,
        status: HTLCStatus::Succeeded,
        amt_msat: MillisatAmount(None),
    };
    let mut expected = vec![45, 0, 33, 33];
    expected.extend_from_slice(&[0xaa; 32]);
    expected.extend_from_slice(&[2, 1, 0, 4, 2, 1, 0, 6, 1, 0]);
    assert_eq!(record.encode(), expected);
}

#[test]
fn empty_ledger_is_stored_as_an_empty_table() {
    assert_eq!(OutboundPaymentInfoStorage::new().encode(), vec![4, 0, 2, 0, 0]);
    assert_eq!(InboundPaymentInfoStorage::new().encode(), vec![4, 0, 2, 0, 0]);
    assert_eq!(encode_entries(&vec![]), vec![4, 0, 2, 0, 0]);
}

#[test]
fn ledger_with_one_record_is_stored_with_its_identifier() {
    let mut ledger = OutboundPaymentInfoStorage::new();
    ledger.insert([0x42; 32], pending(Some([0x11; 32]), Some(5000)));
    let mut expected = vec![90, 0, 88, 0, 1];
    expected.extend_from_slice(&[0x42; 32]);
    expected.extend_from_slice(&expected_record([0x11; 32], 0, 5000));
    assert_eq!(ledger.encode(), expected);
    assert_eq!(ledger.encode().len(), 91);
}

#[test]
fn entries_are_stored_in_the_order_given() {
    let first = ([1u8; 32], pending(Some([0x11; 32]), Some(1)));
    let second = ([2u8; 32], pending(Some([0x22; 32]), Some(2)));
    let bytes = encode_entries(&vec![first, second]);
    let mut table = vec![0, 2];
    table.extend_from_slice(&[1; 32]);
    table.extend_from_slice(&expected_record([0x11; 32], 0, 1));
    table.extend_from_slice(&[2; 32]);
    table.extend_from_slice(&expected_record([0x22; 32], 0, 2));
    assert_eq!(table.len(), 174);
    let mut expected = vec![176, 0, 174];
    expected.extend_from_slice(&table);
    assert_eq!(bytes, expected);
}

#[test]
fn long_tables_use_longer_sizes() {
    let entries: Vec<([u8; 32], PaymentInfo)> = (0u32..300)
        .map(|i| {
            let mut id = [0u8; 32];
            id[..4].copy_from_slice(&i.to_be_bytes());
            (id, pending(None, None))
        })
        .collect();
    let bytes = encode_entries(&entries);
    let record_len = 1 + 3 + 3 + 4 + 3;
    let table_len = 2 + 300 * (32 + record_len);
    let mut expected = BigSize(1 + 3 + table_len as u64).encode();
    expected.push(0);
    expected.extend_from_slice(&BigSize(table_len as u64).encode());
    expected.extend_from_slice(&[1, 44]);
    assert_eq!(expected[..4], [0xfd, 0x35, 0xee, 0]);
    assert_eq!(bytes[..expected.len()], expected[..]);
    assert_eq!(bytes.len(), 3 + 1 + 3 + table_len);
}

#[test]
fn stored_ledger_changes_with_the_status() {
    let mut ledger = OutboundPaymentInfoStorage::new();
    ledger.insert([0x42; 32], pending(Some([0x11; 32]), Some(5000)));
    ledger.mark_failed(&[0x42; 32]);
    let mut expected = vec![90, 0, 88, 0, 1];
    expected.extend_from_slice(&[0x42; 32]);
    expected.extend_from_slice(&expected_record([0x11; 32], 2, 5000));
    assert_eq!(ledger.encode(), expected);
}

#[test]
fn amount_reads_back() {
    for amount in [None, Some(0u64), Some(1), Some(5000), Some(1 << 40), Some(u64::MAX)] {
        let mut bytes = MillisatAmount(amount).write();
        let taken = bytes.len();
        assert_eq!(MillisatAmount::read(&bytes), Some((MillisatAmount(amount), taken)));
        bytes.extend_from_slice(&[0xde, 0xad]);
        assert_eq!(MillisatAmount::read(&bytes), Some((MillisatAmount(amount), taken)));
    }
}

#[test]
fn amount_is_not_read_from_short_or_padded_bytes() {
    assert_eq!(MillisatAmount::read(&[]), None);
    assert_eq!(MillisatAmount::read(&[9, 0, 0, 0, 0, 0, 0, 0]), None);
    assert_eq!(MillisatAmount::read(&[8, 0, 0, 0, 0, 0, 0, 0, 1]), None);
    assert_eq!(MillisatAmount::read(&[1]), None);
    assert_eq!(MillisatAmount::read(&[0xfd, 0, 9, 0, 0, 0, 0, 0, 0, 0, 1]), None);
    assert_eq!(MillisatAmount::read(&[0xfd, 0]), None);
    assert_eq!(MillisatAmount::read(&[0xfe, 0, 0, 0xff, 0xff, 1, 2, 3, 4, 5, 6, 7, 8]), None);
    assert_eq!(MillisatAmount::read(&[0xff, 0, 0, 0, 0, 0xff, 0xff, 0xff, 0xff, 1, 2, 3, 4, 5, 6, 7, 8]), None);
}

#[test]
fn amount_with_a_longer_length_is_read_as_eight_bytes() {
    assert_eq!(
        MillisatAmount::read(&[10, 0, 0, 0, 0, 0, 0, 0, 7, 0xaa]),
        Some((MillisatAmount(Some(7)), 9))
    );
    assert_eq!(
        MillisatAmount::read(&[0xfd, 1, 0, 0, 0, 0, 0, 0, 0, 1, 2]),
        Some((MillisatAmount(Some(0x0102)), 11))
    );
    assert_eq!(MillisatAmount::read(&[0]), Some((MillisatAmount(None), 1)));
}

#[test]
fn amount_is_read_as_the_engine_reads_optional_numbers() {
    let samples: Vec<Vec<u8>> = vec![
        vec![],
        vec![0],
        vec![0, 1, 2],
        vec![9, 0, 0, 0, 0, 0, 0, 0x13, 0x88],
        vec![9, 0, 0, 0, 0, 0, 0, 0x13],
        vec![8, 0, 0, 0, 0, 0, 0, 0x13, 0x88],
        vec![10, 0, 0, 0, 0, 0, 0, 0x13, 0x88, 0],
        vec![0xfd, 0, 9, 0, 0, 0, 0, 0, 0, 0, 1],
        vec![0xfd, 0, 0xfd, 0, 0, 0, 0, 0, 0, 0, 1],
        vec![0xfe, 0, 1, 0, 0, 0, 0, 0, 0, 0, 0, 0, 1],
        vec![0xff, 0, 0, 0, 1, 0, 0, 0, 0, 0, 0, 0, 0, 0, 0, 0, 1, 2],
    ];
    for bytes in samples {
        let mut reader = lightning::io::Cursor::new(bytes.clone());
        let expected: Result<Option<u64>, lightning::ln::msgs::DecodeError> =
            lightning::util::ser::Readable::read(&mut reader);
        let found = MillisatAmount::read(&bytes);
        match expected {
            Ok(amount) => {
                assert_eq!(found, Some((MillisatAmount(amount), reader.position() as usize)), "{:?}", bytes)
            },
            Err(_) => assert_eq!(found, None, "{:?}", bytes),
        }
    }
}

fn engine_field<T: Writeable>(tag: u64, value: &T) -> Vec<u8> {
    let mut bytes = BigSize(tag).encode();
    bytes.extend_from_slice(&BigSize(value.serialized_length() as u64).encode());
    bytes.extend_from_slice(&value.encode());
    bytes
}

fn engine_record(record: &PaymentInfo) -> Vec<u8> {
    let preimage = record.preimage.map(lightning::types::payment::PaymentPreimage);
    let secret = record.secret.map(lightning::types::payment::PaymentSecret);
    let status: Vec<u8> = match record.status {
        HTLCStatus::Pending => vec![0u8.encode(), BigSize(0).encode()].concat(),
        HTLCStatus::Succeeded => vec![1u8.encode(), BigSize(0).encode()].concat(),
        HTLCStatus::Failed => vec![2u8.encode(), BigSize(0).encode()].concat(),
    };
    let mut fields = engine_field(0, &preimage);
    fields.extend_from_slice(&engine_field(2, &secret));
    fields.extend_from_slice(&BigSize(4).encode());
    fields.extend_from_slice(&BigSize(status.len() as u64).encode());
    fields.extend_from_slice(&status);
    fields.extend_from_slice(&engine_field(6, &record.amt_msat.0));
    let mut bytes = BigSize(fields.len() as u64).encode();
    bytes.extend_from_slice(&fields);
    bytes
}

#[test]
fn record_is_stored_as_the_engine_writes_its_parts() {
    let records = [
        pending(None, None),
        pending(Some([0x11; 32]), Some(5000)),
        pending(Some([0x22; 32]), Some(u64::MAX)).fail(),
        pending(None, Some(0)).succeed([0x33; 32]),
    ];
    for record in records {
        assert_eq!(record.encode(), engine_record(&record));
    }
}

#[test]
fn table_is_stored_as_the_engine_writes_a_map() {
    let key = lightning::types::payment::PaymentHash([0x42; 32]);
    let value = lightning::types::payment::PaymentSecret([0x11; 32]);
    let mut map = lightning::util::hash_tables::new_hash_map();
    map.insert(key, value);
    let engine = map.encode();
    let mut ledger = OutboundPaymentInfoStorage::new();
    ledger.insert([0x42; 32], pending(None, None));
    let ours = ledger.encode();
    let header = BigSize(0).encode().len() + 2;
    assert_eq!(ours[header..header + 2 + 32], engine[..2 + 32]);
    let table = &ours[header..];
    assert_eq!(ours[..header], [vec![table.len() as u8 + 2, 0, table.len() as u8]].concat()[..]);
    assert_eq!(table[2 + 32..], engine_record(&pending(None, None))[..]);
}
