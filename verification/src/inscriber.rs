//! The inscriber: its errors, results and inputs, and its small decisions.
use vstd::prelude::*;
use vstd::string::*;

use crate::keys::{valid_secret_key, wallet_import_format, wif_of};
use crate::polling::Chain;
use crate::sorted_map::SortedMap;
use crate::types::{InscriptionId, OutPoint, SatPoint, TxOut, Txid};

verus! {

/// The wallet's unspent outputs and their values in sats, in output order.
pub type UtxoMap = SortedMap<OutPoint, u64>;

/// The wallet's inscriptions by the sat they sit on, in sat order.
pub type InscriptionMap = SortedMap<SatPoint, InscriptionId>;

/// Why an inscription cannot be made.
#[derive(Clone, Copy, Debug)]
pub enum InscribeError {
    /// No sat was given and every wallet output already carries an inscription.
    NoCardinalUtxos,
    /// The sat already carries an inscription and reinscribing was not asked for.
    SatAlreadyInscribed { satpoint: SatPoint },
    /// Another sat of the same output already carries an inscription.
    UtxoAlreadyInscribed { outpoint: OutPoint, inscription: InscriptionId, inscribed: SatPoint },
    /// Reinscribing was asked for but the sat carries no inscription.
    NotAReinscription,
    /// The commit output cannot pay the reveal fee.
    InsufficientCommitValue,
    /// After the fee the reveal output would be below the dust threshold.
    DustOutput,
    /// The reveal transaction is heavier than the standardness limit.
    RevealTooHeavy { weight: u64 },
    /// The commit transaction could not be built.
    CommitNotBuilt,
    /// The commit transaction pays nothing to the commit script, or pays it
    /// at a position beyond the range of output indices.
    CommitOutputMissing,
    /// The estimated reveal fee plus the postage does not fit in 64 bits.
    CommitTargetOverflow,
    /// A fee cannot be reckoned over the wallet's outputs: an input spends an
    /// unknown output, a sum does not fit in 64 bits, or the outputs exceed
    /// the inputs.
    FeesNotComputable,
}

/// The result of an inscription: both transaction ids, the new inscription,
/// its parent if any, and the fees paid.
#[derive(Clone, Copy, Debug)]
pub struct Output {
    pub commit: Txid,
    pub inscription: InscriptionId,
    pub parent: Option<InscriptionId>,
    pub reveal: Txid,
    pub total_fees: u64,
}

/// A parent inscription spent alongside the reveal: where it sits, the
/// locking script it goes to, and the output that holds it.
#[derive(Debug)]
pub struct ParentInfo {
    pub destination: Vec<u8>,
    pub location: SatPoint,
    pub tx_out: TxOut,
}

/// The inscribing service.
#[derive(Debug)]
pub struct Inscriber {}

/// The descriptor that imports a recovery key: `rawtr(<wif>)`.
pub open spec fn spec_recovery_descriptor(wif: Seq<char>) -> Seq<char> {
    seq!['r', 'a', 'w', 't', 'r', '('] + wif + seq![')']
}

impl Inscriber {
    /// Whether content of `content_len` bytes exceeds the chain's size limit,
    /// when the chain has one; such content is skipped.
    pub fn content_too_large(content_len: usize, limit: Option<usize>) -> (r: bool)
        ensures
            r == match limit {
                Some(l) => content_len > l,
                None => false,
            },
    {
        match limit {
            Some(l) => content_len > l,
            None => false,
        }
    }

    /// The descriptor for a recovery key given in wallet import format,
    /// without checksum: `rawtr(<wif>)`.
    pub fn recovery_descriptor(wif: &str) -> (r: String)
        ensures
            r@ == spec_recovery_descriptor(wif@),
    {
        let open = "rawtr(";
        let close = ")";
        proof {
            reveal_strlit("rawtr(");
            reveal_strlit(")");
        }
        let mut r = String::from_str(open);
        r.append(wif);
        r.append(close);
        assert(r@ =~= spec_recovery_descriptor(wif@));
        r
    }

    /// The descriptor with its checksum appended: `rawtr(<wif>)#<checksum>`.
    pub fn recovery_descriptor_with_checksum(wif: &str, checksum: &str) -> (r: String)
        ensures
            r@ == spec_recovery_descriptor(wif@) + seq!['#'] + checksum@,
    {
        let mut r = Self::recovery_descriptor(wif);
        let hash = "#";
        proof {
            reveal_strlit("#");
        }
        r.append(hash);
        r.append(checksum);
        assert(r@ =~= spec_recovery_descriptor(wif@) + seq!['#'] + checksum@);
        r
    }

    /// The descriptor for the recovery key `recovery` on `chain`, without
    /// checksum: `rawtr(<wif>)` of the key's wallet import format.
    pub fn recovery_key_descriptor(recovery: &[u8; 32], chain: Chain) -> (r: String)
        requires
            valid_secret_key(recovery@),
        ensures
            r@ == spec_recovery_descriptor(wif_of(recovery@, chain)),
    {
        let wif = wallet_import_format(recovery, chain);
        Self::recovery_descriptor(wif.as_str())
    }

    /// That descriptor with its checksum appended: `rawtr(<wif>)#<checksum>`.
    pub fn recovery_key_descriptor_with_checksum(recovery: &[u8; 32], chain: Chain, checksum: &str) -> (r: String)
        requires
            valid_secret_key(recovery@),
        ensures
            r@ == spec_recovery_descriptor(wif_of(recovery@, chain)) + seq!['#'] + checksum@,
    {
        let wif = wallet_import_format(recovery, chain);
        Self::recovery_descriptor_with_checksum(wif.as_str(), checksum)
    }

    /// Whether every descriptor import succeeded; the backup fails otherwise.
    pub fn imports_succeeded(results: &Vec<bool>) -> (r: bool)
        ensures
            r == forall|i: int| 0 <= i < results@.len() ==> results@[i],
    {
        let n = results.len();
        for i in 0..n
            invariant
                n == results@.len(),
                forall|j: int| 0 <= j < i ==> results@[j],
        {
            if !results[i] {
                return false;
            }
        }
        true
    }
}

} // verus!
