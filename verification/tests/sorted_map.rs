use inscriber::sorted_map::SortedMap;
use inscriber::types::{OutPoint, Txid};

fn outpoint(first_byte: u8, vout: u32) -> OutPoint {
    let mut bytes = [0u8; 32];
    bytes[0] = first_byte;
    OutPoint { txid: Txid { bytes }, vout }
}

#[test]
fn lookup_after_insert_gives_the_value() {
    let mut m: SortedMap<OutPoint, u64> = SortedMap::new();
    assert_eq!(m.insert(outpoint(7, 1), 500), None);
    assert_eq!(m.get(&outpoint(7, 1)), Some(500));
    assert_eq!(m.get(&outpoint(7, 2)), None);
    assert!(m.contains_key(&outpoint(7, 1)));
    assert!(!m.contains_key(&outpoint(8, 1)));
}

#[test]
fn insert_replaces_and_returns_the_old_value() {
    let mut m: SortedMap<OutPoint, u64> = SortedMap::new();
    m.insert(outpoint(1, 0), 10);
    assert_eq!(m.insert(outpoint(1, 0), 20), Some(10));
    assert_eq!(m.len(), 1);
    assert_eq!(m.get(&outpoint(1, 0)), Some(20));
}

#[test]
fn entries_come_in_key_order() {
    let mut m: SortedMap<OutPoint, u64> = SortedMap::new();
    m.insert(outpoint(9, 0), 1);
    m.insert(outpoint(2, 5), 2);
    m.insert(outpoint(2, 1), 3);
    m.insert(outpoint(5, 0), 4);
    let keys: Vec<(u8, u32)> = (0..m.len())
        .map(|i| {
            let (k, _) = m.entry_at(i);
            (k.txid.bytes[0], k.vout)
        })
        .collect();
    assert_eq!(keys, vec![(2, 1), (2, 5), (5, 0), (9, 0)]);
}

#[test]
fn other_keys_are_untouched_by_insert() {
    let mut m: SortedMap<OutPoint, u64> = SortedMap::new();
    m.insert(outpoint(3, 3), 33);
    m.insert(outpoint(4, 4), 44);
    m.insert(outpoint(3, 3), 99);
    assert_eq!(m.get(&outpoint(4, 4)), Some(44));
}

#[test]
fn later_txid_bytes_decide_when_earlier_ones_agree() {
    let mut a = [0u8; 32];
    a[31] = 2;
    let mut b = [0u8; 32];
    b[31] = 1;
    let mut m: SortedMap<OutPoint, u64> = SortedMap::new();
    m.insert(OutPoint { txid: Txid { bytes: a }, vout: 0 }, 1);
    m.insert(OutPoint { txid: Txid { bytes: b }, vout: 7 }, 2);
    assert_eq!(m.entry_at(0).0.txid.bytes[31], 1);
    assert_eq!(m.entry_at(1).0.txid.bytes[31], 2);
}
