use inscriber::inscriber::{InscribeError, Inscriber, InscriptionMap, ParentInfo, UtxoMap};
use inscriber::polling::{Chain, ItemStep};
use inscriber::sorted_map::SortedMap;
use inscriber::types::{InscriptionId, OutPoint, SatPoint, Tx, TxIn, TxOut, Txid};

fn point(b: u8, vout: u32) -> OutPoint {
    OutPoint { txid: Txid { bytes: [b; 32] }, vout }
}

fn taproot_script(b: u8) -> Vec<u8> {
    let mut s = vec![0x51, 0x20];
    s.extend_from_slice(&[b; 32]);
    s
}

fn utxo_map(entries: &[(OutPoint, u64)]) -> UtxoMap {
    let mut m = SortedMap::new();
    for (o, v) in entries {
        m.insert(*o, *v);
    }
    m
}

fn inscription_map(entries: &[(SatPoint, InscriptionId)]) -> InscriptionMap {
    let mut m = SortedMap::new();
    for (s, i) in entries {
        m.insert(*s, *i);
    }
    m
}

/// An envelope as an inscription writes it: `OP_FALSE OP_IF "ord" ... OP_ENDIF`.
fn envelope() -> Vec<u8> {
    let mut e = vec![0x00, 0x63, 0x03, b'o', b'r', b'd', 0x01, 0x01, 0x0a];
    e.extend_from_slice(b"text/plain");
    e.push(0x00);
    e.push(0x05);
    e.extend_from_slice(b"hello");
    e.push(0x68);
    e
}

const WALLET_VALUE: u64 = 20_000;
const COMMIT_FEE: u64 = 500;
const POSTAGE: u64 = 10_000;

/// Spends the chosen sat's output: `target` to the commit script, the rest
/// less a fixed fee back as change.
fn build_commit(sp: SatPoint, script: Vec<u8>, target: u64) -> Option<Tx> {
    Some(Tx {
        version: 2,
        lock_time: 0,
        input: vec![TxIn { previous_output: sp.outpoint, script_sig: vec![], sequence: 0xFFFF_FFFD, witness: vec![] }],
        output: vec![
            TxOut { value: target, script_pubkey: script },
            TxOut { value: WALLET_VALUE - target - COMMIT_FEE, script_pubkey: taproot_script(5) },
        ],
    })
}

fn two_sats_per_vbyte(vsize: usize) -> u64 {
    2 * vsize as u64
}

fn to_bitcoin(tx: &Tx) -> bitcoin::Transaction {
    bitcoin::Transaction {
        version: tx.version,
        lock_time: bitcoin::absolute::LockTime::from_consensus(tx.lock_time),
        input: tx
            .input
            .iter()
            .map(|i| bitcoin::TxIn {
                previous_output: bitcoin::OutPoint::new(
                    <bitcoin::Txid as bitcoin::hashes::Hash>::from_byte_array(i.previous_output.txid.bytes),
                    i.previous_output.vout,
                ),
                script_sig: bitcoin::ScriptBuf::from_bytes(i.script_sig.clone()),
                sequence: bitcoin::Sequence(i.sequence),
                witness: bitcoin::Witness::from_slice(&i.witness),
            })
            .collect(),
        output: tx
            .output
            .iter()
            .map(|o| bitcoin::TxOut {
                value: o.value,
                script_pubkey: bitcoin::ScriptBuf::from_bytes(o.script_pubkey.clone()),
            })
            .collect(),
    }
}

#[test]
fn inscription_commits_reveals_signs_and_pays() {
    let utxos = utxo_map(&[(point(1, 0), WALLET_VALUE)]);
    let inscriptions = inscription_map(&[]);
    let destination = taproot_script(7);
    let env = envelope();
    let (commit, reveal, recovery, total) = Inscriber::create_inscription_transactions(
        None,
        None,
        &env,
        &inscriptions,
        utxos,
        &destination,
        build_commit,
        two_sats_per_vbyte,
        false,
        false,
        POSTAGE,
    )
    .unwrap();

    // The commit spends the chosen sat's output.
    assert_eq!(commit.input[0].previous_output.txid.bytes, [1; 32]);

    // The reveal spends the commit output, which is the first one.
    let commit_btc = to_bitcoin(&commit);
    assert_eq!(reveal.input.len(), 1);
    assert_eq!(
        reveal.input[0].previous_output.txid.bytes,
        <bitcoin::Txid as bitcoin::hashes::Hash>::to_byte_array(commit_btc.txid())
    );
    assert_eq!(reveal.input[0].previous_output.vout, 0);
    assert_eq!(reveal.input[0].sequence, 0xFFFF_FFFD);
    assert_eq!(reveal.version, 1);
    assert_eq!(reveal.lock_time, 0);

    // The witness: a 64-byte signature, `<key> OP_CHECKSIG` then the
    // envelope, and a 33-byte control block for a single leaf.
    let witness = &reveal.input[0].witness;
    assert_eq!(witness.len(), 3);
    assert_eq!(witness[0].len(), 64);
    let script = &witness[1];
    assert_eq!(script.len(), 34 + env.len());
    assert_eq!(script[0], 0x20);
    assert_eq!(script[33], 0xac);
    assert_eq!(&script[34..], &env[..]);
    assert_eq!(witness[2].len(), 33);

    // The estimate and the signed reveal have the same size, so the reveal
    // output keeps exactly the postage.
    assert_eq!(reveal.output.len(), 1);
    assert_eq!(reveal.output[0].script_pubkey, destination);
    assert_eq!(reveal.output[0].value, POSTAGE);
    let reveal_btc = to_bitcoin(&reveal);
    assert_eq!(commit.output[0].value, POSTAGE + 2 * reveal_btc.vsize() as u64);

    // The total is the commit's fee plus the reveal's.
    assert_eq!(total, COMMIT_FEE + commit.output[0].value - POSTAGE);

    // The signature verifies against the script-path sighash of the reveal.
    let secp = bitcoin::secp256k1::Secp256k1::new();
    let mut unsigned = reveal_btc.clone();
    unsigned.input[0].witness = bitcoin::Witness::new();
    let spent = vec![commit_btc.output[0].clone()];
    let leaf = bitcoin::taproot::TapLeafHash::from_script(
        bitcoin::Script::from_bytes(script),
        bitcoin::taproot::LeafVersion::TapScript,
    );
    let sighash = bitcoin::sighash::SighashCache::new(&unsigned)
        .taproot_script_spend_signature_hash(
            0,
            &bitcoin::sighash::Prevouts::All(&spent),
            leaf,
            bitcoin::sighash::TapSighashType::Default,
        )
        .unwrap();
    let key = bitcoin::secp256k1::XOnlyPublicKey::from_slice(&script[1..33]).unwrap();
    let sig = bitcoin::secp256k1::schnorr::Signature::from_slice(&witness[0]).unwrap();
    let msg = bitcoin::secp256k1::Message::from_slice(
        &<bitcoin::sighash::TapSighash as bitcoin::hashes::Hash>::to_byte_array(sighash),
    )
    .unwrap();
    assert!(secp.verify_schnorr(&sig, &msg, &key).is_ok());

    // The recovery key is the key of the commit output.
    let pair = bitcoin::secp256k1::KeyPair::from_seckey_slice(&secp, &recovery).unwrap();
    let tweaked = bitcoin::key::TweakedPublicKey::dangerous_assume_tweaked(pair.x_only_public_key().0);
    assert_eq!(
        bitcoin::ScriptBuf::new_v1_p2tr_tweaked(tweaked).into_bytes(),
        commit.output[0].script_pubkey
    );
}

#[test]
fn inscription_with_parent_spends_it_first() {
    let parent_out = point(3, 1);
    let utxos = utxo_map(&[(point(1, 0), WALLET_VALUE), (parent_out, 546)]);
    let inscriptions = inscription_map(&[(SatPoint { outpoint: parent_out, offset: 0 }, InscriptionId { txid: Txid { bytes: [3; 32] }, index: 0 })]);
    let parent = ParentInfo {
        destination: taproot_script(6),
        location: SatPoint { outpoint: parent_out, offset: 0 },
        tx_out: TxOut { value: 546, script_pubkey: taproot_script(4) },
    };
    let (commit, reveal, _, total) = Inscriber::create_inscription_transactions(
        Some(SatPoint { outpoint: point(1, 0), offset: 0 }),
        Some(parent),
        &envelope(),
        &inscriptions,
        utxos,
        &taproot_script(7),
        build_commit,
        two_sats_per_vbyte,
        false,
        false,
        POSTAGE,
    )
    .unwrap();
    assert_eq!(reveal.input.len(), 2);
    assert_eq!(reveal.input[0].previous_output.txid.bytes, [3; 32]);
    assert_eq!(reveal.input[0].previous_output.vout, 1);
    assert!(reveal.input[0].witness.is_empty());
    assert_eq!(reveal.input[1].witness.len(), 3);
    assert_eq!(reveal.output[0].value, 546);
    assert_eq!(reveal.output[0].script_pubkey, taproot_script(6));
    assert_eq!(reveal.output[1].value, POSTAGE);
    assert_eq!(total, COMMIT_FEE + commit.output[0].value - POSTAGE);
}

#[test]
fn inscription_refusal_of_the_sat_is_returned() {
    let utxos = utxo_map(&[(point(1, 0), WALLET_VALUE)]);
    let inscriptions = inscription_map(&[(SatPoint { outpoint: point(1, 0), offset: 3 }, InscriptionId { txid: Txid { bytes: [9; 32] }, index: 0 })]);
    let r = Inscriber::create_inscription_transactions(
        None, None, &envelope(), &inscriptions, utxos, &taproot_script(7),
        build_commit, two_sats_per_vbyte, false, false, POSTAGE,
    );
    assert!(matches!(r, Err(InscribeError::NoCardinalUtxos)));
}

#[test]
fn inscription_without_commit_is_refused() {
    let utxos = utxo_map(&[(point(1, 0), WALLET_VALUE)]);
    let r = Inscriber::create_inscription_transactions(
        None, None, &envelope(), &inscription_map(&[]), utxos, &taproot_script(7),
        |_: SatPoint, _: Vec<u8>, _: u64| -> Option<Tx> { None },
        two_sats_per_vbyte, false, false, POSTAGE,
    );
    assert!(matches!(r, Err(InscribeError::CommitNotBuilt)));
}

#[test]
fn inscription_without_commit_output_is_refused() {
    let utxos = utxo_map(&[(point(1, 0), WALLET_VALUE)]);
    let r = Inscriber::create_inscription_transactions(
        None, None, &envelope(), &inscription_map(&[]), utxos, &taproot_script(7),
        |sp: SatPoint, _: Vec<u8>, target: u64| build_commit(sp, taproot_script(2), target),
        two_sats_per_vbyte, false, false, POSTAGE,
    );
    assert!(matches!(r, Err(InscribeError::CommitOutputMissing)));
}

#[test]
fn inscription_with_overflowing_target_is_refused() {
    let utxos = utxo_map(&[(point(1, 0), WALLET_VALUE)]);
    let r = Inscriber::create_inscription_transactions(
        None, None, &envelope(), &inscription_map(&[]), utxos, &taproot_script(7),
        build_commit, |_: usize| u64::MAX, false, false, 1,
    );
    assert!(matches!(r, Err(InscribeError::CommitTargetOverflow)));
}

#[test]
fn inscription_with_short_commit_output_is_refused() {
    let utxos = utxo_map(&[(point(1, 0), WALLET_VALUE)]);
    let r = Inscriber::create_inscription_transactions(
        None, None, &envelope(), &inscription_map(&[]), utxos, &taproot_script(7),
        |sp: SatPoint, script: Vec<u8>, _: u64| build_commit(sp, script, 100),
        two_sats_per_vbyte, false, false, POSTAGE,
    );
    assert!(matches!(r, Err(InscribeError::InsufficientCommitValue)));
}

#[test]
fn inscription_left_as_dust_is_refused() {
    let utxos = utxo_map(&[(point(1, 0), WALLET_VALUE)]);
    let r = Inscriber::create_inscription_transactions(
        None, None, &envelope(), &inscription_map(&[]), utxos, &taproot_script(7),
        build_commit, two_sats_per_vbyte, false, false, 100,
    );
    assert!(matches!(r, Err(InscribeError::DustOutput)));
}

#[test]
fn heavy_inscription_is_refused_unless_unlimited() {
    let mut big = vec![0x00, 0x63];
    for _ in 0..800 {
        big.push(0x4d);
        big.extend_from_slice(&[0x08, 0x02]);
        big.extend_from_slice(&[0xab; 520]);
    }
    big.push(0x68);
    let wallet_value = 2_000_000;
    let commit = |sp: SatPoint, script: Vec<u8>, target: u64| -> Option<Tx> {
        Some(Tx {
            version: 2,
            lock_time: 0,
            input: vec![TxIn { previous_output: sp.outpoint, script_sig: vec![], sequence: 0xFFFF_FFFD, witness: vec![] }],
            output: vec![
                TxOut { value: target, script_pubkey: script },
                TxOut { value: wallet_value - target - COMMIT_FEE, script_pubkey: taproot_script(5) },
            ],
        })
    };
    let r = Inscriber::create_inscription_transactions(
        None, None, &big, &inscription_map(&[]), utxo_map(&[(point(1, 0), wallet_value)]),
        &taproot_script(7), commit, two_sats_per_vbyte, false, false, POSTAGE,
    );
    match r {
        Err(InscribeError::RevealTooHeavy { weight }) => assert!(weight > 400_000),
        _ => panic!("expected the reveal to be refused as too heavy"),
    }
    let r = Inscriber::create_inscription_transactions(
        None, None, &big, &inscription_map(&[]), utxo_map(&[(point(1, 0), wallet_value)]),
        &taproot_script(7), commit, two_sats_per_vbyte, true, false, POSTAGE,
    );
    assert!(r.is_ok());
}

#[test]
fn inscription_spending_unknown_outputs_is_refused() {
    let utxos = utxo_map(&[(point(1, 0), WALLET_VALUE)]);
    let r = Inscriber::create_inscription_transactions(
        None, None, &envelope(), &inscription_map(&[]), utxos, &taproot_script(7),
        |_: SatPoint, script: Vec<u8>, target: u64| build_commit(SatPoint { outpoint: point(8, 8), offset: 0 }, script, target),
        two_sats_per_vbyte, false, false, POSTAGE,
    );
    assert!(matches!(r, Err(InscribeError::FeesNotComputable)));
}

#[test]
fn oversized_content_is_skipped_first() {
    assert!(matches!(
        Inscriber::item_step(11, Some(10), "not an address", Chain::Bitcoin),
        ItemStep::TooLarge
    ));
}

#[test]
fn unparsable_target_is_skipped() {
    assert!(matches!(
        Inscriber::item_step(10, Some(10), "not an address", Chain::Bitcoin),
        ItemStep::BadTarget
    ));
}

#[test]
fn target_of_another_network_is_skipped() {
    assert!(matches!(
        Inscriber::item_step(1, None, "tb1qw508d6qejxtdg4y5r3zarvary0c5xw7kxpjzsx", Chain::Bitcoin),
        ItemStep::BadTarget
    ));
}

#[test]
fn valid_target_is_inscribed_to_its_script() {
    let mut expected = vec![0x00, 0x14];
    expected.extend_from_slice(&[
        0x75, 0x1e, 0x76, 0xe8, 0x19, 0x91, 0x96, 0xd4, 0x54, 0x94, 0x1c, 0x45, 0xd1, 0xb3, 0xa3,
        0x23, 0xf1, 0x43, 0x3b, 0xd6,
    ]);
    match Inscriber::item_step(1, None, "bc1qw508d6qejxtdg4y5r3zarvary0c5xw7kv8f3t4", Chain::Bitcoin) {
        ItemStep::Inscribe { destination } => assert_eq!(destination, expected),
        _ => panic!("expected the content to be inscribed"),
    }
    match Inscriber::item_step(1, Some(5), "tb1qw508d6qejxtdg4y5r3zarvary0c5xw7kxpjzsx", Chain::Testnet) {
        ItemStep::Inscribe { destination } => assert_eq!(destination, expected),
        _ => panic!("expected the content to be inscribed"),
    }
}

#[test]
fn inscription_with_a_given_key_uses_its_public_key() {
    let secret = [1u8; 32];
    let utxos = utxo_map(&[(point(1, 0), WALLET_VALUE)]);
    let (commit, reveal, recovery, _) = Inscriber::inscribe_with_key(
        secret,
        SatPoint { outpoint: point(1, 0), offset: 0 },
        None,
        &envelope(),
        utxos,
        &taproot_script(7),
        build_commit,
        two_sats_per_vbyte,
        false,
        POSTAGE,
    )
    .unwrap();
    let secp = bitcoin::secp256k1::Secp256k1::new();
    let pair = bitcoin::secp256k1::KeyPair::from_seckey_slice(&secp, &secret).unwrap();
    let key = pair.x_only_public_key().0.serialize();
    let script = &reveal.input[0].witness[1];
    assert_eq!(&script[1..33], &key[..]);
    assert_ne!(recovery, secret);
    // The commit output is the key-path output of the tweaked key.
    let tweaked = bitcoin::key::TapTweak::tap_tweak(
        pair,
        &secp,
        Some(bitcoin::taproot::TapNodeHash::from_script(
            bitcoin::Script::from_bytes(script),
            bitcoin::taproot::LeafVersion::TapScript,
        )),
    );
    assert_eq!(tweaked.to_inner().secret_bytes(), recovery);
    assert_eq!(
        bitcoin::ScriptBuf::new_v1_p2tr_tweaked(
            bitcoin::key::TweakedPublicKey::dangerous_assume_tweaked(tweaked.to_inner().x_only_public_key().0)
        )
        .into_bytes(),
        commit.output[0].script_pubkey
    );
}

const KEY: [u8; 32] = [1u8; 32];

fn leaf_script() -> Vec<u8> {
    vec![0x51]
}

fn control() -> Vec<u8> {
    vec![0xc0; 33]
}

/// A commit transaction paying `value` to the commit script `taproot_script(8)`
/// out of the wallet output `point(1, 0)`, with 1000 sats of change.
fn commit_paying(value: u64) -> Tx {
    Tx {
        version: 2,
        lock_time: 0,
        input: vec![TxIn { previous_output: point(1, 0), script_sig: vec![], sequence: 0xFFFF_FFFD, witness: vec![] }],
        output: vec![
            TxOut { value, script_pubkey: taproot_script(8) },
            TxOut { value: 1000, script_pubkey: taproot_script(5) },
        ],
    }
}

fn pointed(commit: &Tx, script: &Vec<u8>) -> (Tx, usize) {
    Inscriber::point_reveal(commit, &taproot_script(8), &None, &taproot_script(7), script, &control()).unwrap()
}

#[test]
fn reveal_is_pointed_at_the_first_commit_output_with_the_script() {
    let mut commit = commit_paying(7000);
    commit.output.insert(0, TxOut { value: 100, script_pubkey: taproot_script(9) });
    commit.output.push(TxOut { value: 8000, script_pubkey: taproot_script(8) });
    let (reveal, vsize) = pointed(&commit, &leaf_script());
    assert_eq!(reveal.input.len(), 1);
    assert_eq!(reveal.input[0].previous_output.vout, 1);
    assert_eq!(
        reveal.input[0].previous_output.txid.bytes,
        <bitcoin::Txid as bitcoin::hashes::Hash>::to_byte_array(to_bitcoin(&commit).txid())
    );
    assert!(reveal.input[0].witness.is_empty());
    assert_eq!(reveal.output.len(), 1);
    assert_eq!(reveal.output[0].value, 7000);
    assert_eq!(reveal.output[0].script_pubkey, taproot_script(7));
    // The same size as the estimate before the commit existed.
    let (inputs, outputs, ci) = Inscriber::reveal_inputs_and_outputs(&None, &taproot_script(7));
    let (_, estimate) = Inscriber::build_reveal_transaction(&control(), inputs, ci, outputs, &leaf_script());
    assert_eq!(vsize, estimate);
}

#[test]
fn reveal_without_commit_output_is_refused() {
    let commit = commit_paying(7000);
    let r = Inscriber::point_reveal(&commit, &taproot_script(3), &None, &taproot_script(7), &leaf_script(), &control());
    assert!(matches!(r, Err(InscribeError::CommitOutputMissing)));
}

fn wallet_for_commit() -> UtxoMap {
    utxo_map(&[(point(1, 0), 1000 + 1000 + 500)])
}

#[test]
fn completion_refuses_a_fee_above_the_commit_output() {
    let commit = commit_paying(1000);
    let (reveal, _) = pointed(&commit, &leaf_script());
    let r = Inscriber::sign_and_account(&KEY, &None, &leaf_script(), &control(), &commit, reveal, 1001, wallet_for_commit(), false);
    assert!(matches!(r, Err(InscribeError::InsufficientCommitValue)));
}

#[test]
fn completion_refuses_a_dust_remainder() {
    let commit = commit_paying(1000);
    let (reveal, _) = pointed(&commit, &leaf_script());
    let r = Inscriber::sign_and_account(&KEY, &None, &leaf_script(), &control(), &commit, reveal, 671, wallet_for_commit(), false);
    assert!(matches!(r, Err(InscribeError::DustOutput)));
}

#[test]
fn completion_refuses_unknown_outputs() {
    let commit = commit_paying(1000);
    let (reveal, _) = pointed(&commit, &leaf_script());
    let r = Inscriber::sign_and_account(&KEY, &None, &leaf_script(), &control(), &commit, reveal, 600, utxo_map(&[]), false);
    assert!(matches!(r, Err(InscribeError::FeesNotComputable)));
}

#[test]
fn completion_refuses_a_heavy_reveal_unless_unlimited() {
    let heavy = vec![0x51; 400_001];
    let commit = commit_paying(1000);
    let (reveal, _) = pointed(&commit, &heavy);
    match Inscriber::sign_and_account(&KEY, &None, &heavy, &control(), &commit, reveal, 600, wallet_for_commit(), false) {
        Err(InscribeError::RevealTooHeavy { weight }) => assert!(weight > 400_000),
        _ => panic!("expected the reveal to be refused as too heavy"),
    }
    let (reveal, _) = pointed(&commit, &heavy);
    assert!(Inscriber::sign_and_account(&KEY, &None, &heavy, &control(), &commit, reveal, 600, wallet_for_commit(), true).is_ok());
}

#[test]
fn completion_signs_the_script_path_sighash() {
    let commit = commit_paying(1000);
    let (reveal, _) = pointed(&commit, &leaf_script());
    let (signed, recovery, total) = Inscriber::sign_and_account(
        &KEY, &None, &leaf_script(), &control(), &commit, reveal, 600, wallet_for_commit(), false,
    )
    .unwrap();
    assert_eq!(signed.output[0].value, 400);
    assert_eq!(total, 500 + 600);
    assert_eq!(signed.input[0].witness.len(), 3);
    assert_eq!(signed.input[0].witness[1], leaf_script());
    assert_eq!(signed.input[0].witness[2], control());

    let secp = bitcoin::secp256k1::Secp256k1::new();
    let mut unsigned = to_bitcoin(&signed);
    unsigned.input[0].witness = bitcoin::Witness::new();
    let spent = vec![to_bitcoin(&commit).output[0].clone()];
    let leaf = bitcoin::taproot::TapLeafHash::from_script(
        bitcoin::Script::from_bytes(&leaf_script()),
        bitcoin::taproot::LeafVersion::TapScript,
    );
    let sighash = bitcoin::sighash::SighashCache::new(&unsigned)
        .taproot_script_spend_signature_hash(
            0,
            &bitcoin::sighash::Prevouts::All(&spent),
            leaf,
            bitcoin::sighash::TapSighashType::Default,
        )
        .unwrap();
    let pair = bitcoin::secp256k1::KeyPair::from_seckey_slice(&secp, &KEY).unwrap();
    let sig = bitcoin::secp256k1::schnorr::Signature::from_slice(&signed.input[0].witness[0]).unwrap();
    let msg = bitcoin::secp256k1::Message::from_slice(
        &<bitcoin::sighash::TapSighash as bitcoin::hashes::Hash>::to_byte_array(sighash),
    )
    .unwrap();
    assert!(secp.verify_schnorr(&sig, &msg, &pair.x_only_public_key().0).is_ok());
    assert!(bitcoin::secp256k1::SecretKey::from_slice(&recovery).is_ok());
}

#[test]
fn recovery_descriptor_holds_the_key_in_wallet_import_format() {
    let key = bitcoin::secp256k1::SecretKey::from_slice(&KEY).unwrap();
    let mainnet = bitcoin::PrivateKey::new(key, bitcoin::Network::Bitcoin).to_wif();
    let testnet = bitcoin::PrivateKey::new(key, bitcoin::Network::Testnet).to_wif();
    assert_eq!(Inscriber::recovery_key_descriptor(&KEY, Chain::Bitcoin), format!("rawtr({})", mainnet));
    assert_eq!(
        Inscriber::recovery_key_descriptor_with_checksum(&KEY, Chain::Regtest, "abcd"),
        format!("rawtr({})#abcd", testnet)
    );
}
