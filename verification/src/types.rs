use vstd::prelude::*;

use crate::order::{
    bytes_lt, compare_bytes, lemma_bytes_lt_irreflexive, lemma_bytes_lt_total,
    lemma_bytes_lt_transitive, KeyOrder, MapKey,
};

verus! {

/// A transaction id, as the 32 bytes of its hash in internal byte order.
#[derive(Clone, Copy, Debug)]
pub struct Txid {
    pub bytes: [u8; 32],
}

/// A transaction output: the id of its transaction and its index there.
#[derive(Clone, Copy, Debug)]
pub struct OutPoint {
    pub txid: Txid,
    pub vout: u32,
}

/// A single sat: an output and the offset of the sat within it.
#[derive(Clone, Copy, Debug)]
pub struct SatPoint {
    pub outpoint: OutPoint,
    pub offset: u64,
}

/// An inscription: the reveal transaction and the index of the inscription in it.
#[derive(Clone, Copy, Debug)]
pub struct InscriptionId {
    pub txid: Txid,
    pub index: u32,
}

/// A transaction input: the output it spends, its script, its sequence
/// number and its witness stack.
#[derive(Debug)]
pub struct TxIn {
    pub previous_output: OutPoint,
    pub script_sig: Vec<u8>,
    pub sequence: u32,
    pub witness: Vec<Vec<u8>>,
}

/// A transaction output: its value in sats and its locking script.
#[derive(Debug)]
pub struct TxOut {
    pub value: u64,
    pub script_pubkey: Vec<u8>,
}

/// A transaction.
#[derive(Debug)]
pub struct Tx {
    pub version: i32,
    pub lock_time: u32,
    pub input: Vec<TxIn>,
    pub output: Vec<TxOut>,
}

/// The value of a transaction input.
pub struct SpecTxIn {
    pub previous_output: OutPoint,
    pub script_sig: Seq<u8>,
    pub sequence: u32,
    pub witness: Seq<Seq<u8>>,
}

/// The value of a transaction output.
pub struct SpecTxOut {
    pub value: u64,
    pub script_pubkey: Seq<u8>,
}

/// The value of a transaction.
pub struct SpecTx {
    pub version: i32,
    pub lock_time: u32,
    pub input: Seq<SpecTxIn>,
    pub output: Seq<SpecTxOut>,
}

impl View for TxIn {
    type V = SpecTxIn;

    open spec fn view(&self) -> SpecTxIn {
        SpecTxIn {
            previous_output: self.previous_output,
            script_sig: self.script_sig@,
            sequence: self.sequence,
            witness: self.witness@.map_values(|w: Vec<u8>| w@),
        }
    }
}

impl View for TxOut {
    type V = SpecTxOut;

    open spec fn view(&self) -> SpecTxOut {
        SpecTxOut { value: self.value, script_pubkey: self.script_pubkey@ }
    }
}

impl View for Tx {
    type V = SpecTx;

    open spec fn view(&self) -> SpecTx {
        SpecTx {
            version: self.version,
            lock_time: self.lock_time,
            input: self.input@.map_values(|i: TxIn| i@),
            output: self.output@.map_values(|o: TxOut| o@),
        }
    }
}

impl Clone for TxOut {
    fn clone(&self) -> (r: Self)
        ensures
            r@ == self@,
    {
        TxOut { value: self.value, script_pubkey: self.script_pubkey.clone() }
    }
}

proof fn lemma_txid_eq(a: Txid, b: Txid)
    requires
        a.bytes@ == b.bytes@,
    ensures
        a == b,
{
    assert(a.bytes =~= b.bytes) by {
        assert forall|i: int| 0 <= i < 32 implies a.bytes[i] == b.bytes[i] by {
            assert(a.bytes[i] == a.bytes@[i]);
            assert(b.bytes[i] == b.bytes@[i]);
        }
    }
}

impl Txid {
    /// Byte-wise equality of two ids.
    pub fn equals(&self, other: &Txid) -> (r: bool)
        ensures
            r == (*self == *other),
    {
        let c = compare_bytes(&self.bytes, &other.bytes);
        proof {
            if self.bytes@ == other.bytes@ {
                lemma_txid_eq(*self, *other);
            }
        }
        c == KeyOrder::Equal
    }
}

impl OutPoint {
    /// Equality of two outputs.
    pub fn equals(&self, other: &OutPoint) -> (r: bool)
        ensures
            r == (*self == *other),
    {
        self.txid.equals(&other.txid) && self.vout == other.vout
    }
}

impl SatPoint {
    /// Equality of two sats.
    pub fn equals(&self, other: &SatPoint) -> (r: bool)
        ensures
            r == (*self == *other),
    {
        self.outpoint.equals(&other.outpoint) && self.offset == other.offset
    }
}

/// Outputs are ordered by transaction id, then by index.
impl MapKey for OutPoint {
    open spec fn key_lt(self, other: Self) -> bool {
        bytes_lt(self.txid.bytes@, other.txid.bytes@) || (self.txid.bytes@ == other.txid.bytes@
            && self.vout < other.vout)
    }

    proof fn lemma_key_lt_irreflexive(a: Self) {
        lemma_bytes_lt_irreflexive(a.txid.bytes@);
    }

    proof fn lemma_key_lt_transitive(a: Self, b: Self, c: Self) {
        if bytes_lt(a.txid.bytes@, b.txid.bytes@) && bytes_lt(b.txid.bytes@, c.txid.bytes@) {
            lemma_bytes_lt_transitive(a.txid.bytes@, b.txid.bytes@, c.txid.bytes@);
        }
    }

    proof fn lemma_key_lt_total(a: Self, b: Self) {
        lemma_bytes_lt_total(a.txid.bytes@, b.txid.bytes@);
        if a.txid.bytes@ == b.txid.bytes@ {
            lemma_txid_eq(a.txid, b.txid);
        }
    }

    fn compare_key(&self, other: &Self) -> (r: KeyOrder) {
        proof {
            lemma_bytes_lt_irreflexive(self.txid.bytes@);
            if self.txid.bytes@ == other.txid.bytes@ {
                lemma_txid_eq(self.txid, other.txid);
            }
        }
        match compare_bytes(&self.txid.bytes, &other.txid.bytes) {
            KeyOrder::Less => KeyOrder::Less,
            KeyOrder::Greater => KeyOrder::Greater,
            KeyOrder::Equal => {
                if self.vout < other.vout {
                    KeyOrder::Less
                } else if self.vout > other.vout {
                    KeyOrder::Greater
                } else {
                    KeyOrder::Equal
                }
            },
        }
    }
}

/// Sats are ordered by output, then by offset.
impl MapKey for SatPoint {
    open spec fn key_lt(self, other: Self) -> bool {
        self.outpoint.key_lt(other.outpoint) || (self.outpoint == other.outpoint && self.offset
            < other.offset)
    }

    proof fn lemma_key_lt_irreflexive(a: Self) {
        OutPoint::lemma_key_lt_irreflexive(a.outpoint);
    }

    proof fn lemma_key_lt_transitive(a: Self, b: Self, c: Self) {
        if a.outpoint.key_lt(b.outpoint) && b.outpoint.key_lt(c.outpoint) {
            OutPoint::lemma_key_lt_transitive(a.outpoint, b.outpoint, c.outpoint);
        }
    }

    proof fn lemma_key_lt_total(a: Self, b: Self) {
        OutPoint::lemma_key_lt_total(a.outpoint, b.outpoint);
    }

    fn compare_key(&self, other: &Self) -> (r: KeyOrder) {
        proof {
            OutPoint::lemma_key_lt_irreflexive(self.outpoint);
            if self.outpoint.key_lt(other.outpoint) && other.outpoint.key_lt(self.outpoint) {
                OutPoint::lemma_key_lt_transitive(self.outpoint, other.outpoint, self.outpoint);
            }
        }
        match self.outpoint.compare_key(&other.outpoint) {
            KeyOrder::Less => KeyOrder::Less,
            KeyOrder::Greater => KeyOrder::Greater,
            KeyOrder::Equal => {
                if self.offset < other.offset {
                    KeyOrder::Less
                } else if self.offset > other.offset {
                    KeyOrder::Greater
                } else {
                    KeyOrder::Equal
                }
            },
        }
    }
}

} // verus!
