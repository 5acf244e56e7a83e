use inscriber::inscriber::{InscribeError, Inscriber, InscriptionMap, ParentInfo, UtxoMap};
use inscriber::sorted_map::SortedMap;
use inscriber::types::{InscriptionId, OutPoint, SatPoint, Tx, TxIn, TxOut, Txid};

fn txid(b: u8) -> Txid {
    Txid { bytes: [b; 32] }
}

fn outpoint(b: u8, vout: u32) -> OutPoint {
    OutPoint { txid: txid(b), vout }
}

fn satpoint(b: u8, vout: u32, offset: u64) -> SatPoint {
    SatPoint { outpoint: outpoint(b, vout), offset }
}

fn inscription(b: u8) -> InscriptionId {
    InscriptionId { txid: txid(b), index: 0 }
}

/// A pay-to-taproot locking script: a version 1 witness program.
fn p2tr(b: u8) -> Vec<u8> {
    let mut s = vec![0x51, 0x20];
    s.extend_from_slice(&[b; 32]);
    s
}

fn wallet(entries: &[(OutPoint, u64)]) -> UtxoMap {
    let mut m = SortedMap::new();
    for (o, v) in entries {
        m.insert(*o, *v);
    }
    m
}

fn inscribed(entries: &[(SatPoint, InscriptionId)]) -> InscriptionMap {
    let mut m = SortedMap::new();
    for (s, i) in entries {
        m.insert(*s, *i);
    }
    m
}

fn same_sat(a: &SatPoint, b: &SatPoint) -> bool {
    a.outpoint.txid.bytes == b.outpoint.txid.bytes
        && a.outpoint.vout == b.outpoint.vout
        && a.offset == b.offset
}

#[test]
fn first_cardinal_output_is_chosen() {
    let utxos = wallet(&[(outpoint(1, 0), 1000), (outpoint(2, 0), 2000), (outpoint(3, 0), 3000)]);
    let inscriptions = inscribed(&[(satpoint(1, 0, 0), inscription(9))]);
    let sp = Inscriber::select_satpoint(None, &inscriptions, &utxos, false).unwrap();
    assert!(same_sat(&sp, &satpoint(2, 0, 0)));
}

#[test]
fn no_cardinal_output_is_refused() {
    let utxos = wallet(&[(outpoint(1, 0), 1000)]);
    let inscriptions = inscribed(&[(satpoint(1, 0, 5), inscription(9))]);
    assert!(matches!(
        Inscriber::select_satpoint(None, &inscriptions, &utxos, false),
        Err(InscribeError::NoCardinalUtxos)
    ));
}

#[test]
fn given_sat_is_kept() {
    let utxos = wallet(&[]);
    let inscriptions = inscribed(&[]);
    let sp = Inscriber::select_satpoint(Some(satpoint(4, 2, 77)), &inscriptions, &utxos, false)
        .unwrap();
    assert!(same_sat(&sp, &satpoint(4, 2, 77)));
}

#[test]
fn inscribed_sat_is_refused_without_reinscribe() {
    let inscriptions = inscribed(&[(satpoint(4, 0, 0), inscription(9))]);
    match Inscriber::select_satpoint(Some(satpoint(4, 0, 0)), &inscriptions, &wallet(&[]), false) {
        Err(InscribeError::SatAlreadyInscribed { satpoint: s }) => {
            assert!(same_sat(&s, &satpoint(4, 0, 0)))
        }
        other => panic!("unexpected {:?}", other),
    }
}

#[test]
fn inscribed_sat_is_accepted_with_reinscribe() {
    let inscriptions = inscribed(&[(satpoint(4, 0, 0), inscription(9))]);
    let sp = Inscriber::select_satpoint(Some(satpoint(4, 0, 0)), &inscriptions, &wallet(&[]), true)
        .unwrap();
    assert!(same_sat(&sp, &satpoint(4, 0, 0)));
}

#[test]
fn other_sat_of_the_output_is_refused() {
    let inscriptions = inscribed(&[(satpoint(4, 0, 10), inscription(9))]);
    match Inscriber::select_satpoint(Some(satpoint(4, 0, 0)), &inscriptions, &wallet(&[]), false) {
        Err(InscribeError::UtxoAlreadyInscribed { outpoint: o, inscription: id, inscribed: s }) => {
            assert_eq!(o.txid.bytes, [4; 32]);
            assert_eq!(id.txid.bytes, [9; 32]);
            assert_eq!(s.offset, 10);
        }
        other => panic!("unexpected {:?}", other),
    }
}

#[test]
fn other_sat_of_the_output_is_refused_even_when_reinscribing() {
    let inscriptions =
        inscribed(&[(satpoint(4, 0, 0), inscription(8)), (satpoint(4, 0, 10), inscription(9))]);
    assert!(matches!(
        Inscriber::select_satpoint(Some(satpoint(4, 0, 0)), &inscriptions, &wallet(&[]), true),
        Err(InscribeError::UtxoAlreadyInscribed { .. })
    ));
}

#[test]
fn first_conflict_in_sat_order_decides_the_error() {
    let inscriptions =
        inscribed(&[(satpoint(4, 0, 0), inscription(8)), (satpoint(4, 0, 10), inscription(9))]);
    assert!(matches!(
        Inscriber::select_satpoint(Some(satpoint(4, 0, 10)), &inscriptions, &wallet(&[]), false),
        Err(InscribeError::UtxoAlreadyInscribed { .. })
    ));
    assert!(matches!(
        Inscriber::select_satpoint(Some(satpoint(4, 0, 0)), &inscriptions, &wallet(&[]), false),
        Err(InscribeError::SatAlreadyInscribed { .. })
    ));
}

#[test]
fn reinscribe_of_an_uninscribed_sat_is_refused() {
    let inscriptions = inscribed(&[(satpoint(5, 0, 0), inscription(9))]);
    assert!(matches!(
        Inscriber::select_satpoint(Some(satpoint(4, 0, 0)), &inscriptions, &wallet(&[]), true),
        Err(InscribeError::NotAReinscription)
    ));
}

#[test]
fn layout_without_parent() {
    let (inputs, outputs, commit_input) = Inscriber::reveal_inputs_and_outputs(&None, &p2tr(1));
    assert_eq!(commit_input, 0);
    assert_eq!(inputs.len(), 1);
    assert_eq!(inputs[0].txid.bytes, [0; 32]);
    assert_eq!(inputs[0].vout, u32::MAX);
    assert_eq!(outputs.len(), 1);
    assert_eq!(outputs[0].value, 0);
    assert_eq!(outputs[0].script_pubkey, p2tr(1));
}

#[test]
fn layout_with_parent_puts_it_first() {
    let parent = ParentInfo {
        destination: p2tr(2),
        location: satpoint(6, 1, 0),
        tx_out: TxOut { value: 546, script_pubkey: p2tr(3) },
    };
    let (inputs, outputs, commit_input) =
        Inscriber::reveal_inputs_and_outputs(&Some(parent), &p2tr(1));
    assert_eq!(commit_input, 1);
    assert_eq!(inputs.len(), 2);
    assert_eq!(inputs[0].txid.bytes, [6; 32]);
    assert_eq!(inputs[0].vout, 1);
    assert_eq!(inputs[1].vout, u32::MAX);
    assert_eq!(outputs[0].value, 546);
    assert_eq!(outputs[0].script_pubkey, p2tr(2));
    assert_eq!(outputs[1].value, 0);
    assert_eq!(outputs[1].script_pubkey, p2tr(1));
}

#[test]
fn reveal_transaction_shape_and_size() {
    let script = vec![7u8; 10];
    let control_block = vec![0xc0u8; 33];
    let (tx, vsize) = Inscriber::build_reveal_transaction(
        &control_block,
        vec![outpoint(1, 0)],
        0,
        vec![TxOut { value: 0, script_pubkey: p2tr(1) }],
        &script,
    );
    assert_eq!(tx.version, 1);
    assert_eq!(tx.lock_time, 0);
    assert_eq!(tx.input.len(), 1);
    assert_eq!(tx.input[0].sequence, 0xFFFF_FFFD);
    assert!(tx.input[0].witness.is_empty());
    assert!(tx.input[0].script_sig.is_empty());
    // weight: 4 * 53 (version, counts, output, lock time) + 4 * 41 (input)
    //   + 111 (witness: count, 64-byte signature, 10-byte script, 33-byte block) + 2 = 489
    assert_eq!(vsize, 123);
}

#[test]
fn reveal_size_counts_a_signature_on_other_inputs() {
    let script = vec![7u8; 10];
    let control_block = vec![0xc0u8; 33];
    let (_, vsize) = Inscriber::build_reveal_transaction(
        &control_block,
        vec![outpoint(2, 0), outpoint(1, 0)],
        1,
        vec![TxOut { value: 546, script_pubkey: p2tr(2) }, TxOut { value: 0, script_pubkey: p2tr(1) }],
        &script,
    );
    // non-input part 4 + 1 + 1 + 43 + 43 + 4 = 96, inputs 2 * 41,
    // witnesses 111 + 66, marker and flag 2: 384 + 328 + 177 + 2 = 891
    assert_eq!(vsize, 223);
}

fn commit_transaction() -> Tx {
    Tx {
        version: 2,
        lock_time: 0,
        input: vec![TxIn {
            previous_output: outpoint(1, 0),
            script_sig: vec![],
            sequence: 0xFFFF_FFFD,
            witness: vec![],
        }],
        output: vec![
            TxOut { value: 4000, script_pubkey: p2tr(8) },
            TxOut { value: 5000, script_pubkey: p2tr(9) },
        ],
    }
}

fn bitcoin_txid(tx: &Tx) -> [u8; 32] {
    let btc = bitcoin::Transaction {
        version: tx.version,
        lock_time: bitcoin::absolute::LockTime::from_consensus(tx.lock_time),
        input: tx
            .input
            .iter()
            .map(|i| bitcoin::TxIn {
                previous_output: bitcoin::OutPoint::new(
                    <bitcoin::Txid as bitcoin::hashes::Hash>::from_byte_array(i.previous_output.txid.bytes),
                    i.previous_output.vout,
                ),
                script_sig: bitcoin::ScriptBuf::from_bytes(i.script_sig.clone()),
                sequence: bitcoin::Sequence(i.sequence),
                witness: bitcoin::Witness::from_slice(&i.witness),
            })
            .collect(),
        output: tx
            .output
            .iter()
            .map(|o| bitcoin::TxOut {
                value: o.value,
                script_pubkey: bitcoin::ScriptBuf::from_bytes(o.script_pubkey.clone()),
            })
            .collect(),
    };
    <bitcoin::Txid as bitcoin::hashes::Hash>::to_byte_array(btc.txid())
}

#[test]
fn commit_output_is_found_by_script() {
    let commit = commit_transaction();
    assert_eq!(Inscriber::commit_output_position(&commit, &p2tr(9)), Some(1));
    assert_eq!(Inscriber::commit_output_position(&commit, &p2tr(7)), None);
}

#[test]
fn reveal_is_pointed_at_the_commit_output() {
    let commit = commit_transaction();
    let (mut inputs, mut outputs, commit_input) = Inscriber::reveal_inputs_and_outputs(&None, &p2tr(1));
    assert!(Inscriber::point_at_commit(
        &commit,
        &p2tr(9),
        &mut inputs,
        &mut outputs,
        commit_input,
        &p2tr(1)
    ));
    assert_eq!(inputs[0].vout, 1);
    assert_eq!(inputs[0].txid.bytes, bitcoin_txid(&commit));
    assert_ne!(inputs[0].txid.bytes, [0; 32]);
    assert_eq!(outputs[0].value, 5000);
    assert_eq!(outputs[0].script_pubkey, p2tr(1));
}

#[test]
fn missing_commit_output_changes_nothing() {
    let commit = commit_transaction();
    let (mut inputs, mut outputs, commit_input) = Inscriber::reveal_inputs_and_outputs(&None, &p2tr(1));
    assert!(!Inscriber::point_at_commit(
        &commit,
        &p2tr(3),
        &mut inputs,
        &mut outputs,
        commit_input,
        &p2tr(1)
    ));
    assert_eq!(inputs[0].vout, u32::MAX);
    assert_eq!(outputs[0].value, 0);
}

fn reveal_with_value(value: u64) -> Tx {
    let (tx, _) = Inscriber::build_reveal_transaction(
        &vec![0xc0; 33],
        vec![outpoint(1, 0)],
        0,
        vec![TxOut { value, script_pubkey: p2tr(1) }],
        &vec![7; 10],
    );
    tx
}

#[test]
fn fee_is_paid_from_the_commit_side_output() {
    let mut tx = reveal_with_value(1000);
    assert!(Inscriber::pay_reveal_fee(&mut tx, 0, 600).is_ok());
    assert_eq!(tx.output[0].value, 400);
}

#[test]
fn output_below_dust_is_refused() {
    // The dust threshold of a taproot output is 330 sats.
    let mut tx = reveal_with_value(1000);
    assert!(matches!(Inscriber::pay_reveal_fee(&mut tx, 0, 671), Err(InscribeError::DustOutput)));
    let mut tx = reveal_with_value(1000);
    assert!(Inscriber::pay_reveal_fee(&mut tx, 0, 670).is_ok());
    assert_eq!(tx.output[0].value, 330);
}

#[test]
fn fee_above_the_output_value_is_refused() {
    let mut tx = reveal_with_value(1000);
    assert!(matches!(
        Inscriber::pay_reveal_fee(&mut tx, 0, 1001),
        Err(InscribeError::InsufficientCommitValue)
    ));
    assert_eq!(tx.output[0].value, 1000);
}

#[test]
fn witness_is_signature_script_control_block() {
    let mut tx = reveal_with_value(1000);
    Inscriber::attach_reveal_witness(&mut tx, 0, vec![1; 64], &vec![7; 10], &vec![0xc0; 33]);
    assert_eq!(tx.input[0].witness, vec![vec![1u8; 64], vec![7u8; 10], vec![0xc0u8; 33]]);
}

#[test]
fn light_reveal_passes_the_weight_check() {
    let tx = reveal_with_value(1000);
    assert!(Inscriber::check_reveal_weight(&tx, false).is_ok());
}

#[test]
fn heavy_reveal_is_refused_unless_unlimited() {
    let (tx, _) = Inscriber::build_reveal_transaction(
        &vec![0xc0; 33],
        vec![outpoint(1, 0)],
        0,
        vec![TxOut { value: 1000, script_pubkey: vec![0x6a; 100_001] }],
        &vec![7; 10],
    );
    match Inscriber::check_reveal_weight(&tx, false) {
        Err(InscribeError::RevealTooHeavy { weight }) => assert_eq!(weight, 400_260),
        other => panic!("unexpected {:?}", other),
    }
    assert!(Inscriber::check_reveal_weight(&tx, true).is_ok());
}

#[test]
fn fee_is_inputs_minus_outputs() {
    let utxos = wallet(&[(outpoint(1, 0), 10_000)]);
    let commit = commit_transaction();
    assert_eq!(Inscriber::calculate_fee(&commit, &utxos), 1000);
    assert_eq!(Inscriber::fee_if_computable(&commit, &utxos), Some(1000));
}

#[test]
fn fee_of_unknown_input_is_not_computable() {
    let utxos = wallet(&[(outpoint(2, 0), 10_000)]);
    assert_eq!(Inscriber::fee_if_computable(&commit_transaction(), &utxos), None);
}

#[test]
fn fee_of_overspending_transaction_is_not_computable() {
    let utxos = wallet(&[(outpoint(1, 0), 8_999)]);
    assert_eq!(Inscriber::fee_if_computable(&commit_transaction(), &utxos), None);
}

#[test]
fn fee_of_overflowing_inputs_is_not_computable() {
    let utxos = wallet(&[(outpoint(1, 0), u64::MAX), (outpoint(2, 0), 1)]);
    let mut tx = commit_transaction();
    tx.input.push(TxIn {
        previous_output: outpoint(2, 0),
        script_sig: vec![],
        sequence: 0,
        witness: vec![],
    });
    assert_eq!(Inscriber::fee_if_computable(&tx, &utxos), None);
}

#[test]
fn reveal_pays_exactly_its_fee() {
    let commit = commit_transaction();
    let mut utxos = wallet(&[(outpoint(1, 0), 10_000)]);
    let (mut inputs, mut outputs, commit_input) = Inscriber::reveal_inputs_and_outputs(&None, &p2tr(1));
    assert!(Inscriber::point_at_commit(
        &commit,
        &p2tr(9),
        &mut inputs,
        &mut outputs,
        commit_input,
        &p2tr(1)
    ));
    let script = vec![7u8; 10];
    let control_block = vec![0xc0u8; 33];
    let (mut reveal, vsize) =
        Inscriber::build_reveal_transaction(&control_block, inputs, commit_input, outputs, &script);
    let fee = vsize as u64 * 2;
    Inscriber::pay_reveal_fee(&mut reveal, commit_input, fee).unwrap();
    Inscriber::attach_reveal_witness(&mut reveal, commit_input, vec![5; 64], &script, &control_block);
    Inscriber::check_reveal_weight(&reveal, false).unwrap();
    Inscriber::record_commit_output(&mut utxos, &commit, &reveal, commit_input);
    assert_eq!(utxos.get(&reveal.input[0].previous_output), Some(5000));
    assert_eq!(Inscriber::fee_if_computable(&reveal, &utxos), Some(fee));
    assert_eq!(Inscriber::total_fees(&commit, &reveal, &utxos), 1000 + fee);
}

#[test]
fn content_limit_applies_only_when_set() {
    assert!(Inscriber::content_too_large(401, Some(400)));
    assert!(!Inscriber::content_too_large(400, Some(400)));
    assert!(!Inscriber::content_too_large(1_000_000, None));
}

#[test]
fn recovery_descriptors() {
    assert_eq!(Inscriber::recovery_descriptor("cKey"), "rawtr(cKey)");
    assert_eq!(Inscriber::recovery_descriptor_with_checksum("cKey", "abcd1234"), "rawtr(cKey)#abcd1234");
}

#[test]
fn backup_needs_every_import_to_succeed() {
    assert!(Inscriber::imports_succeeded(&vec![]));
    assert!(Inscriber::imports_succeeded(&vec![true, true]));
    assert!(!Inscriber::imports_succeeded(&vec![true, false]));
}

#[test]
fn prevouts_are_parent_then_first_commit_output() {
    let commit = commit_transaction();
    let prevouts = Inscriber::reveal_prevouts(&commit, &None);
    assert_eq!(prevouts.len(), 1);
    assert_eq!(prevouts[0].value, 4000);
    let parent = ParentInfo {
        destination: p2tr(2),
        location: satpoint(6, 1, 0),
        tx_out: TxOut { value: 546, script_pubkey: p2tr(3) },
    };
    let prevouts = Inscriber::reveal_prevouts(&commit, &Some(parent));
    assert_eq!(prevouts.len(), 2);
    assert_eq!(prevouts[0].value, 546);
    assert_eq!(prevouts[0].script_pubkey, p2tr(3));
    assert_eq!(prevouts[1].value, 4000);
}

fn reveal_to(script_pubkey: Vec<u8>, value: u64) -> Tx {
    let (tx, _) = Inscriber::build_reveal_transaction(
        &vec![0xc0; 33],
        vec![outpoint(1, 0)],
        0,
        vec![TxOut { value, script_pubkey }],
        &vec![7; 10],
    );
    tx
}

#[test]
fn dust_threshold_of_a_legacy_output_is_546() {
    // 3 * (32 + 4 + 1 + 107 + 4 + 8 + 1 + 25) for a 25-byte pay-to-pubkey-hash script.
    let mut p2pkh = vec![0x76, 0xa9, 0x14];
    p2pkh.extend_from_slice(&[3; 20]);
    p2pkh.extend_from_slice(&[0x88, 0xac]);
    let mut tx = reveal_to(p2pkh.clone(), 1000);
    assert!(matches!(Inscriber::pay_reveal_fee(&mut tx, 0, 455), Err(InscribeError::DustOutput)));
    let mut tx = reveal_to(p2pkh, 1000);
    assert!(Inscriber::pay_reveal_fee(&mut tx, 0, 454).is_ok());
    assert_eq!(tx.output[0].value, 546);
}

#[test]
fn op_return_output_is_never_dust() {
    let mut tx = reveal_to(vec![0x6a, 0x01, 0x00], 1000);
    assert!(Inscriber::pay_reveal_fee(&mut tx, 0, 1000).is_ok());
    assert_eq!(tx.output[0].value, 0);
}

#[test]
fn reveal_size_does_not_depend_on_values_or_outpoints() {
    let script = vec![7u8; 10];
    let control_block = vec![0xc0u8; 33];
    let (_, a) = Inscriber::build_reveal_transaction(
        &control_block,
        vec![outpoint(1, 0)],
        0,
        vec![TxOut { value: 0, script_pubkey: p2tr(1) }],
        &script,
    );
    let (_, b) = Inscriber::build_reveal_transaction(
        &control_block,
        vec![outpoint(9, 4)],
        0,
        vec![TxOut { value: 123_456_789, script_pubkey: p2tr(1) }],
        &script,
    );
    assert_eq!(a, b);
}
