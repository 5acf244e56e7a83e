//! Calls into the `bitcoin` crate. Each contract here is believed, not proved.
use vstd::prelude::*;

use crate::types::{OutPoint, SpecTx, Tx, Txid};

verus! {

#[verifier::external_type_specification]
#[verifier::external_body]
pub struct ExBitcoinTransaction(bitcoin::Transaction);

/// The weight in weight units that `bitcoin::Transaction::weight` gives a
/// transaction.
pub uninterp spec fn transaction_weight_units(tx: SpecTx) -> nat;

/// The id (hash bytes in internal order) that `bitcoin::Transaction::txid`
/// gives a transaction.
pub uninterp spec fn transaction_txid_bytes(tx: SpecTx) -> Seq<u8>;

/// Two transactions of the same serialized size: as many inputs, with
/// signature scripts of the same lengths and witnesses of as many items of
/// the same lengths, and as many outputs, with locking scripts of the same
/// lengths. Outpoints, sequence numbers, output values and the bytes inside
/// scripts and witnesses are not counted, only their lengths.
pub open spec fn same_size_layout(a: SpecTx, b: SpecTx) -> bool {
    &&& a.input.len() == b.input.len()
    &&& forall|i: int|
        0 <= i < a.input.len() ==> {
            &&& (#[trigger] a.input[i]).script_sig.len() == b.input[i].script_sig.len()
            &&& a.input[i].witness.len() == b.input[i].witness.len()
            &&& forall|j: int|
                0 <= j < a.input[i].witness.len() ==> (#[trigger] a.input[i].witness[j]).len()
                    == b.input[i].witness[j].len()
        }
    &&& a.output.len() == b.output.len()
    &&& forall|i: int|
        0 <= i < a.output.len() ==> (#[trigger] a.output[i]).script_pubkey.len()
            == b.output[i].script_pubkey.len()
}

/// The length of the compact-size prefix that precedes `n` bytes.
pub open spec fn compact_size_len(n: nat) -> nat {
    if n <= 0xFC {
        1
    } else if n <= 0xFFFF {
        3
    } else if n <= 0xFFFF_FFFF {
        5
    } else {
        9
    }
}

/// A script that starts with `OP_RETURN`.
pub open spec fn is_op_return_script(script: Seq<u8>) -> bool {
    script.len() > 0 && script[0] == 0x6a
}

/// A witness program: a version opcode (`OP_0` or `OP_1`..`OP_16`) and one
/// push of 2 to 40 bytes that fills the rest of the script.
pub open spec fn is_witness_program_script(script: Seq<u8>) -> bool {
    &&& 4 <= script.len() <= 42
    &&& (script[0] == 0 || (0x51 <= script[0] && script[0] <= 0x60))
    &&& 2 <= script[1] && script[1] <= 40
    &&& script.len() - 2 == script[1]
}

/// The dust threshold of an output locked by `script`, in sats: three sats
/// per byte of the output and of the input that would spend it, nothing for
/// an `OP_RETURN` output.
pub open spec fn dust_threshold(script: Seq<u8>) -> nat {
    let output_size = 8 + compact_size_len(script.len()) + script.len();
    3 * if is_op_return_script(script) {
        0
    } else if is_witness_program_script(script) {
        (32 + 4 + 1 + 26 + 4) + output_size
    } else {
        (32 + 4 + 1 + 107 + 4) + output_size
    }
}

/// Builds the `bitcoin` crate's value of a transaction, field for field.
#[verifier::external_body]
pub(crate) fn bitcoin_transaction(tx: &Tx) -> bitcoin::Transaction {
    let input = tx.input.iter().map(|i| bitcoin::TxIn {
        previous_output: bitcoin::OutPoint::new(
            <bitcoin::Txid as bitcoin::hashes::Hash>::from_byte_array(i.previous_output.txid.bytes),
            i.previous_output.vout),
        script_sig: bitcoin::ScriptBuf::from_bytes(i.script_sig.clone()),
        sequence: bitcoin::Sequence(i.sequence),
        witness: bitcoin::Witness::from_slice(&i.witness),
    }).collect();
    let output = tx.output.iter().map(|o| bitcoin::TxOut {
        value: o.value, script_pubkey: bitcoin::ScriptBuf::from_bytes(o.script_pubkey.clone()),
    }).collect();
    let lock_time = bitcoin::absolute::LockTime::from_consensus(tx.lock_time);
    bitcoin::Transaction { version: tx.version, lock_time, input, output }
}

/// `bitcoin::Transaction::weight`: the result is the named weight of the
/// transaction, whose definition is left to the crate. Its source
/// (`scaled_size`) sums the counts and lengths of the scripts and witness
/// items and fixed widths for every other field, so transactions of the same
/// size layout weigh the same; that much is claimed too.
#[verifier::external_body]
pub(crate) fn transaction_weight(tx: &Tx) -> (w: u64)
    ensures
        w == transaction_weight_units(tx@),
        forall|other: SpecTx| #[trigger]
            same_size_layout(other, tx@) ==> transaction_weight_units(other) == w,
{
    bitcoin_transaction(tx).weight().to_wu()
}

/// `bitcoin::Transaction::vsize`: documented as `ceil(weight / 4)`, which is
/// what is claimed, over the named weight; and, as for the weight, the same
/// for every transaction of the same size layout.
#[verifier::external_body]
pub(crate) fn transaction_vsize(tx: &Tx) -> (v: usize)
    ensures
        v == (transaction_weight_units(tx@) + 3) / 4,
        forall|other: SpecTx| #[trigger]
            same_size_layout(other, tx@) ==> v == (transaction_weight_units(other) + 3) / 4,
{
    bitcoin_transaction(tx).vsize()
}

/// `bitcoin::Transaction::txid`: the claim is that the 32 bytes returned are
/// the named id of the transaction.
#[verifier::external_body]
pub(crate) fn transaction_txid(tx: &Tx) -> (id: [u8; 32])
    ensures
        id@ == transaction_txid_bytes(tx@),
{
    <bitcoin::Txid as bitcoin::hashes::Hash>::to_byte_array(bitcoin_transaction(tx).txid())
}

/// `bitcoin::Script::dust_value`: its source charges the default dust relay
/// fee of 3 sats per byte on the output and on the input that spends it, as
/// `dust_threshold` states. Scripts too long for that product to fit in 64
/// bits are excluded.
#[verifier::external_body]
pub(crate) fn script_dust_value(script_pubkey: &Vec<u8>) -> (sats: u64)
    requires
        script_pubkey@.len() <= u64::MAX / 4,
    ensures
        sats == dust_threshold(script_pubkey@),
{
    bitcoin::Script::from_bytes(script_pubkey).dust_value().to_sat()
}

/// `bitcoin::taproot::Signature::from_slice` on 64 zero bytes, then `to_vec`:
/// a 64-byte slice parses as a signature with the default sighash type, which
/// serialises back to the same 64 bytes.
#[verifier::external_body]
pub(crate) fn placeholder_schnorr_signature() -> (sig: Vec<u8>)
    ensures
        sig@ == Seq::new(64, |i: int| 0u8),
{
    bitcoin::taproot::Signature::from_slice(
        &[0; bitcoin::secp256k1::constants::SCHNORR_SIGNATURE_SIZE],
    ).unwrap().to_vec()
}

/// `bitcoin::OutPoint::null`: the all-zero transaction id with index
/// `u32::MAX`, as its source defines it.
#[verifier::external_body]
pub(crate) fn null_outpoint() -> (o: OutPoint)
    ensures
        o.txid.bytes@ == Seq::new(32, |i: int| 0u8),
        o.vout == u32::MAX,
{
    let n = bitcoin::OutPoint::null();
    OutPoint {
        txid: Txid { bytes: <bitcoin::Txid as bitcoin::hashes::Hash>::to_byte_array(n.txid) },
        vout: n.vout,
    }
}

/// `bitcoin::Sequence::ENABLE_RBF_NO_LOCKTIME`, documented as `0xFFFFFFFD`.
#[verifier::external_body]
pub(crate) fn enable_rbf_no_locktime() -> (s: u32)
    ensures
        s == 0xFFFF_FFFD,
{
    bitcoin::Sequence::ENABLE_RBF_NO_LOCKTIME.0
}

/// `bitcoin::policy::MAX_STANDARD_TX_WEIGHT`, defined as `400_000`.
#[verifier::external_body]
pub(crate) fn max_standard_tx_weight() -> (w: u64)
    ensures
        w == 400_000,
{
    bitcoin::policy::MAX_STANDARD_TX_WEIGHT as u64
}

} // verus!
