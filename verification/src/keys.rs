//! Keys, taproot commitments and signatures, through the `bitcoin` crate and
//! its `secp256k1`. Each contract here is believed, not proved.
use vstd::prelude::*;

use crate::chain::bitcoin_transaction;
use crate::polling::Chain;
use crate::reveal_tx::outputs_view;
use crate::types::{SpecTx, SpecTxOut, Tx, TxOut};

verus! {

/// The number that a byte string spells out, most significant byte first.
pub open spec fn big_endian_value(bytes: Seq<u8>) -> nat
    decreases bytes.len(),
{
    if bytes.len() == 0 {
        0
    } else {
        big_endian_value(bytes.drop_last()) * 256 + bytes.last() as nat
    }
}

/// The order of the secp256k1 group.
pub open spec fn secp256k1_order() -> nat {
    0xFFFF_FFFF_FFFF_FFFF_FFFF_FFFF_FFFF_FFFE_BAAE_DCE6_AF48_A03B_BFD2_5E8C_D036_4141nat
}

/// A secret key: 32 bytes spelling out a number between 1 and the group
/// order, exclusive.
pub open spec fn valid_secret_key(secret: Seq<u8>) -> bool {
    secret.len() == 32 && 0 < big_endian_value(secret) < secp256k1_order()
}

/// `<key> OP_CHECKSIG` for a 32-byte key: a push of 32 bytes, the key, and
/// the opcode.
pub open spec fn checksig_script_bytes(key: Seq<u8>) -> Seq<u8> {
    seq![0x20u8] + key + seq![0xacu8]
}

/// The x-only public key, serialized, of a secret key.
pub uninterp spec fn x_only_public_key_of(secret: Seq<u8>) -> Seq<u8>;

/// The locking script of the taproot output whose internal key is that of
/// `secret` and whose only leaf is `script`.
pub uninterp spec fn taproot_output_script_of(secret: Seq<u8>, script: Seq<u8>) -> Seq<u8>;

/// The serialized control block that proves `script` is that output's leaf.
pub uninterp spec fn taproot_control_block_of(secret: Seq<u8>, script: Seq<u8>) -> Seq<u8>;

/// The secret key of `secret` tweaked by the tree whose only leaf is `script`.
pub uninterp spec fn recovery_secret_key_of(secret: Seq<u8>, script: Seq<u8>) -> Seq<u8>;

/// The key-path locking script of the x-only public key of `secret`, taken
/// as an already tweaked output key.
pub uninterp spec fn key_path_script_of(secret: Seq<u8>) -> Seq<u8>;

/// The wallet import format of a secret key on `chain`, compressed.
pub uninterp spec fn wif_of(secret: Seq<u8>, chain: Chain) -> Seq<char>;

/// Whether `signature` is a valid BIP-340 signature of `message` under the
/// x-only public key `key`.
pub uninterp spec fn schnorr_signature_valid(key: Seq<u8>, message: Seq<u8>, signature: Seq<u8>) -> bool;

/// The hash that input `input` of `tx` signs when it spends the leaf
/// `script`, given the outputs all inputs spend.
pub uninterp spec fn script_spend_sighash_of(
    tx: SpecTx,
    input: nat,
    prevouts: Seq<SpecTxOut>,
    script: Seq<u8>,
) -> Seq<u8>;

/// `secp256k1::KeyPair::new` with the thread's random generator, then
/// `secret_bytes`. The key is random; its source draws 32 bytes until they
/// make a valid secret key, which is all that is claimed.
#[verifier::external_body]
pub(crate) fn generate_secret_key() -> (secret: [u8; 32])
    ensures
        valid_secret_key(secret@),
{
    bitcoin::key::UntweakedKeyPair::new(
        &bitcoin::secp256k1::Secp256k1::new(),
        &mut bitcoin::secp256k1::rand::thread_rng(),
    ).secret_bytes()
}

/// `secp256k1::XOnlyPublicKey::from_keypair` of the key pair of a valid
/// secret key, serialized: the result is the named public key.
#[verifier::external_body]
pub(crate) fn x_only_public_key(secret: &[u8; 32]) -> (key: [u8; 32])
    requires
        valid_secret_key(secret@),
    ensures
        key@ == x_only_public_key_of(secret@),
{
    let secp = bitcoin::secp256k1::Secp256k1::new();
    let pair = bitcoin::key::UntweakedKeyPair::from_seckey_slice(&secp, secret).unwrap();
    bitcoin::secp256k1::XOnlyPublicKey::from_keypair(&pair).0.serialize()
}

/// `bitcoin::script::Builder::push_slice` of a 32-byte key, then
/// `push_opcode(OP_CHECKSIG)`: the builder writes the push opcode `0x20`, the
/// key, and `0xac`.
#[verifier::external_body]
pub(crate) fn checksig_script(key: &[u8; 32]) -> (script: Vec<u8>)
    ensures
        script@ == checksig_script_bytes(key@),
{
    bitcoin::ScriptBuf::builder()
        .push_slice(*key)
        .push_opcode(bitcoin::blockdata::opcodes::all::OP_CHECKSIG)
        .into_script()
        .into_bytes()
}

/// `bitcoin::taproot::TaprootBuilder` with `script` as its only leaf,
/// finalized over the x-only key of `secret`: the locking script of its
/// output key and the serialized control block of the leaf, both named. A
/// single leaf at depth 0 always finalizes and always has a control block.
/// The key tweak inside panics only when the tweak hash is not below the
/// group order or cancels the key, which no input is known to reach; that
/// case is not excluded here.
#[verifier::external_body]
pub(crate) fn taproot_commitment(secret: &[u8; 32], script: &Vec<u8>) -> (r: (Vec<u8>, Vec<u8>))
    requires
        valid_secret_key(secret@),
    ensures
        r.0@ == taproot_output_script_of(secret@, script@),
        r.1@ == taproot_control_block_of(secret@, script@),
{
    let secp = bitcoin::secp256k1::Secp256k1::new();
    let pair = bitcoin::key::UntweakedKeyPair::from_seckey_slice(&secp, secret).unwrap();
    let internal = bitcoin::secp256k1::XOnlyPublicKey::from_keypair(&pair).0;
    let leaf = bitcoin::ScriptBuf::from_bytes(script.clone());
    let info = bitcoin::taproot::TaprootBuilder::new().add_leaf(0, leaf.clone()).unwrap()
        .finalize(&secp, internal).unwrap();
    let control = info.control_block(&(leaf, bitcoin::taproot::LeafVersion::TapScript)).unwrap();
    (bitcoin::ScriptBuf::new_v1_p2tr_tweaked(info.output_key()).into_bytes(), control.serialize())
}

/// `bitcoin::key::TapTweak::tap_tweak` of the key pair of `secret` by the
/// merkle root of the tree whose only leaf is `script`: the tweaked secret
/// key, named and valid (a key pair only ever holds a valid secret key), and
/// the key-path locking script of its x-only public key (named too). The
/// key pair's tweak and the public key's tweak inside `TaprootSpendInfo` use
/// the same tagged hash of the same x-only key and merkle root, so that
/// script is the taproot output script of `secret` and `script`, as claimed.
/// The same unreachable tweak panic as above is not excluded.
#[verifier::external_body]
pub(crate) fn recovery_key(secret: &[u8; 32], script: &Vec<u8>) -> (r: ([u8; 32], Vec<u8>))
    requires
        valid_secret_key(secret@),
    ensures
        r.0@ == recovery_secret_key_of(secret@, script@),
        valid_secret_key(r.0@),
        r.1@ == key_path_script_of(r.0@),
        r.1@ == taproot_output_script_of(secret@, script@),
{
    let secp = bitcoin::secp256k1::Secp256k1::new();
    let pair = bitcoin::key::UntweakedKeyPair::from_seckey_slice(&secp, secret).unwrap();
    let internal = bitcoin::secp256k1::XOnlyPublicKey::from_keypair(&pair).0;
    let info = bitcoin::taproot::TaprootBuilder::new()
        .add_leaf(0, bitcoin::ScriptBuf::from_bytes(script.clone())).unwrap()
        .finalize(&secp, internal).unwrap();
    let tweaked = bitcoin::key::TapTweak::tap_tweak(pair, &secp, info.merkle_root()).to_inner();
    let key = bitcoin::key::TweakedPublicKey::dangerous_assume_tweaked(tweaked.x_only_public_key().0);
    (tweaked.secret_bytes(), bitcoin::ScriptBuf::new_v1_p2tr_tweaked(key).into_bytes())
}

/// `bitcoin::sighash::SighashCache::taproot_script_spend_signature_hash` for
/// input `input` of `tx` spending the tapscript leaf `script`, with every
/// spent output given and the default sighash type: the named hash. For the
/// default sighash type its source refuses only a number of spent outputs
/// other than the number of inputs, which `requires` excludes; the index is
/// only written into the hashed data.
#[verifier::external_body]
pub(crate) fn script_spend_sighash(
    tx: &Tx,
    input: usize,
    prevouts: &Vec<TxOut>,
    script: &Vec<u8>,
) -> (hash: [u8; 32])
    requires
        prevouts@.len() == tx@.input.len(),
    ensures
        hash@ == script_spend_sighash_of(tx@, input as nat, outputs_view(prevouts@), script@),
{
    let spent: Vec<bitcoin::TxOut> = prevouts.iter().map(|o| bitcoin::TxOut {
        value: o.value, script_pubkey: bitcoin::ScriptBuf::from_bytes(o.script_pubkey.clone()),
    }).collect();
    let leaf = bitcoin::taproot::TapLeafHash::from_script(
        bitcoin::Script::from_bytes(script), bitcoin::taproot::LeafVersion::TapScript);
    let hash = bitcoin::sighash::SighashCache::new(&bitcoin_transaction(tx))
        .taproot_script_spend_signature_hash(input, &bitcoin::sighash::Prevouts::All(&spent), leaf,
            bitcoin::sighash::TapSighashType::Default).unwrap();
    <bitcoin::sighash::TapSighash as bitcoin::hashes::Hash>::to_byte_array(hash)
}

/// `secp256k1::Secp256k1::sign_schnorr` of a 32-byte message with the key
/// pair of `secret`, wrapped as a `bitcoin::taproot::Signature` of the
/// default sighash type and serialized. The signature uses fresh random
/// auxiliary data, so the bytes are not claimed: only that they are 64 and
/// make a valid BIP-340 signature of the message under the x-only key of
/// `secret`, as the signing algorithm guarantees.
#[verifier::external_body]
pub(crate) fn sign_schnorr(secret: &[u8; 32], message: &[u8; 32]) -> (signature: Vec<u8>)
    requires
        valid_secret_key(secret@),
    ensures
        signature@.len() == 64,
        schnorr_signature_valid(x_only_public_key_of(secret@), message@, signature@),
{
    let secp = bitcoin::secp256k1::Secp256k1::new();
    let pair = bitcoin::key::UntweakedKeyPair::from_seckey_slice(&secp, secret).unwrap();
    let message = bitcoin::secp256k1::Message::from_slice(message).unwrap();
    let sig = secp.sign_schnorr(&message, &pair);
    bitcoin::taproot::Signature { sig, hash_ty: bitcoin::sighash::TapSighashType::Default }.to_vec()
}

/// `bitcoin::PrivateKey::new` of a valid secret key for the chain's network,
/// then `to_wif`: the named text. `requires` excludes the secret keys that
/// `secp256k1::SecretKey::from_slice` refuses.
#[verifier::external_body]
pub(crate) fn wallet_import_format(secret: &[u8; 32], chain: Chain) -> (wif: String)
    requires
        valid_secret_key(secret@),
    ensures
        wif@ == wif_of(secret@, chain),
{
    let network = match chain {
        Chain::Bitcoin => bitcoin::Network::Bitcoin,
        Chain::Testnet => bitcoin::Network::Testnet,
        Chain::Signet => bitcoin::Network::Signet,
        Chain::Regtest => bitcoin::Network::Regtest,
    };
    let key = bitcoin::secp256k1::SecretKey::from_slice(secret).unwrap();
    bitcoin::PrivateKey::new(key, network).to_wif()
}

} // verus!
