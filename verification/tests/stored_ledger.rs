use ldk::ledger::{
    HTLCStatus, InboundPaymentInfoStorage, MillisatAmount, OutboundPaymentInfoStorage,
    PaymentInfo,
};
use ldk::wire::encode_entries;
use ldk::wire_read::decode_entries;

fn record(seed: u8) -> PaymentInfo {
    let pending = PaymentInfo::new_pending(
        if seed % 2 == 0 { Some([seed; 32]) } else { None },
        if seed % 3 == 0 { None } else { Some(seed as u64 * 1_000_003) },
    );
    match seed % 4 {
        0 => pending,
        1 => pending.fail(),
        _ => pending.succeed([seed.wrapping_mul(7); 32]),
    }
}

fn entries(count: u32) -> Vec<([u8; 32], PaymentInfo)> {
    (0..count)
        .map(|i| {
            let mut id = [0u8; 32];
            id[..4].copy_from_slice(&i.to_be_bytes());
            id[31] = 0xee;
            (id, record(i as u8))
        })
        .collect()
}

fn sorted(mut list: Vec<([u8; 32], PaymentInfo)>) -> Vec<([u8; 32], PaymentInfo)> {
    list.sort_by_key(|entry| entry.0);
    list
}

#[test]
fn entries_read_back_in_order() {
    for count in [0u32, 1, 2, 7, 300] {
        let written = entries(count);
        assert_eq!(decode_entries(&encode_entries(&written)), Some(written));
    }
}

#[test]
fn many_entries_read_back() {
    let written = entries(70_000);
    let bytes = encode_entries(&written);
    assert_eq!((bytes[0], bytes[5], bytes[6]), (0xfe, 0, 0xfe));
    assert_eq!(bytes[11..21], [0xff, 0xff, 0, 0, 0, 0, 0, 0, 0x11, 0x71]);
    assert_eq!(decode_entries(&bytes), Some(written));
}

#[test]
fn ledger_reads_back() {
    let mut ledger = OutboundPaymentInfoStorage::new();
    for (id, info) in entries(40) {
        ledger.insert(id, info);
    }
    ledger.mark_failed(&entries(40)[4].0);
    let read = OutboundPaymentInfoStorage::decode(&ledger.encode()).unwrap();
    assert_eq!(read.len(), 40);
    assert_eq!(sorted(read.entries()), sorted(ledger.entries()));
    let mut inbound = InboundPaymentInfoStorage::new();
    inbound.insert([1; 32], record(1));
    inbound.insert([2; 32], record(2));
    let read = InboundPaymentInfoStorage::decode(&inbound.encode()).unwrap();
    assert_eq!(sorted(read.entries()), sorted(inbound.entries()));
}

#[test]
fn empty_ledger_reads_back() {
    let read = OutboundPaymentInfoStorage::decode(&[4, 0, 2, 0, 0]).unwrap();
    assert_eq!(read.len(), 0);
    assert_eq!(decode_entries(&[4, 0, 2, 0, 0]), Some(vec![]));
}

#[test]
fn record_statuses_read_back() {
    let written = vec![
        ([1u8; 32], PaymentInfo::new_pending(Some([9; 32]), Some(5000))),
        ([2u8; 32], PaymentInfo::new_pending(None, None).fail()),
        ([3u8; 32], PaymentInfo::new_pending(None, Some(u64::MAX)).succeed([8; 32])),
    ];
    let read = decode_entries(&encode_entries(&written)).unwrap();
    assert_eq!(read[0].1.status, HTLCStatus::Pending);
    assert_eq!(read[1].1.status, HTLCStatus::Failed);
    assert_eq!(read[2].1.status, HTLCStatus::Succeeded);
    assert_eq!(read[2].1.preimage, Some([8; 32]));
    assert_eq!(read[2].1.amt_msat, MillisatAmount(Some(u64::MAX)));
    assert_eq!(read[0].1.secret, Some([9; 32]));
}

#[test]
fn cut_or_padded_bytes_are_no_ledger() {
    let bytes = encode_entries(&entries(3));
    for cut in 0..bytes.len() {
        assert_eq!(decode_entries(&bytes[..cut]), None, "cut at {}", cut);
    }
    let mut padded = bytes.clone();
    padded.push(0);
    assert_eq!(decode_entries(&padded), None);
    assert_eq!(decode_entries(&[]), None);
}

#[test]
fn changed_structure_is_no_ledger() {
    let good = encode_entries(&entries(1));
    assert_eq!(decode_entries(&good), Some(entries(1)));
    let change = |at: usize, to: u8| {
        let mut bytes = good.clone();
        bytes[at] = to;
        decode_entries(&bytes)
    };
    assert_eq!(change(0, good[0] + 1), None);
    assert_eq!(change(1, 1), None);
    assert_eq!(change(2, good[2] - 1), None);
    assert_eq!(change(4, 2), None);
    let record = 5 + 32;
    assert_eq!(change(record, good[record] + 1), None);
    assert_eq!(change(record + 1, 1), None);
    assert_eq!(change(record + 2, 2), None);
    assert_eq!(change(record + 3, 1), None);
    assert!(change(5, 0x77).is_some());
}

#[test]
fn unknown_status_is_no_ledger() {
    let written = vec![([1u8; 32], PaymentInfo::new_pending(None, None))];
    let mut bytes = encode_entries(&written);
    let status = bytes.len() - 5;
    assert_eq!(bytes[status - 2..status + 2], [4, 2, 0, 0]);
    bytes[status] = 3;
    assert_eq!(decode_entries(&bytes), None);
    bytes[status] = 2;
    assert_eq!(decode_entries(&bytes).unwrap()[0].1.status, HTLCStatus::Failed);
    bytes[status + 1] = 1;
    assert_eq!(decode_entries(&bytes), None);
}

#[test]
fn sizes_in_a_longer_form_are_no_ledger() {
    let short = vec![4u8, 0, 2, 0, 0];
    assert!(decode_entries(&short).is_some());
    assert_eq!(decode_entries(&[0xfd, 0, 4, 0, 2, 0, 0]), None);
    assert_eq!(decode_entries(&[6, 0, 0xfd, 0, 2, 0, 0]), None);
    assert_eq!(decode_entries(&[6, 0xfd, 0, 0, 2, 0, 0]), None);
}

#[test]
fn an_identifier_twice_is_no_ledger() {
    let mut twice = entries(2);
    twice[1].0 = twice[0].0;
    let bytes = encode_entries(&twice);
    assert_eq!(decode_entries(&bytes), Some(twice.clone()));
    assert!(OutboundPaymentInfoStorage::decode(&bytes).is_none());
    assert!(InboundPaymentInfoStorage::decode(&bytes).is_none());
    assert!(OutboundPaymentInfoStorage::from_entries(&twice).is_none());
    assert!(InboundPaymentInfoStorage::from_entries(&twice).is_none());
}

#[test]
fn a_ledger_is_made_from_distinct_entries() {
    let ledger = OutboundPaymentInfoStorage::from_entries(&entries(5)).unwrap();
    assert_eq!(ledger.len(), 5);
    assert_eq!(sorted(ledger.entries()), entries(5));
    let ledger = InboundPaymentInfoStorage::from_entries(&vec![]).unwrap();
    assert_eq!(ledger.len(), 0);
}

#[test]
fn a_count_beyond_the_entries_is_no_ledger() {
    let mut bytes = encode_entries(&entries(2));
    assert_eq!(bytes[3..5], [0, 2]);
    bytes[4] = 3;
    assert_eq!(decode_entries(&bytes), None);
    bytes[4] = 1;
    assert_eq!(decode_entries(&bytes), None);
}
