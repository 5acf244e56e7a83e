//! Laying out, sizing, paying for and completing the reveal transaction.
use vstd::prelude::*;

use crate::chain::{
    same_size_layout, enable_rbf_no_locktime, max_standard_tx_weight, null_outpoint, placeholder_schnorr_signature,
    dust_threshold, script_dust_value, transaction_txid, transaction_txid_bytes,
    transaction_vsize, transaction_weight, transaction_weight_units,
};
use crate::inscriber::{InscribeError, Inscriber, ParentInfo};
use crate::types::{OutPoint, SpecTx, SpecTxIn, SpecTxOut, Tx, TxIn, TxOut, Txid};

verus! {

/// The view of a list of outputs.
pub open spec fn outputs_view(outputs: Seq<TxOut>) -> Seq<SpecTxOut> {
    outputs.map_values(|o: TxOut| o@)
}

/// The null output that stands for the commit output until the commit
/// transaction exists.
pub open spec fn is_null_outpoint(o: OutPoint) -> bool {
    o.txid.bytes@ == Seq::new(32, |i: int| 0u8) && o.vout == u32::MAX
}

/// The reveal's inputs and outputs before the commit transaction exists: the
/// parent's output first when there is a parent, then a null input and an
/// empty output to the destination; and the position of that input.
pub open spec fn reveal_layout_holds(
    parent: Option<(OutPoint, Seq<u8>, u64)>,
    destination: Seq<u8>,
    inputs: Seq<OutPoint>,
    outputs: Seq<SpecTxOut>,
    commit_input: int,
) -> bool {
    match parent {
        None => {
            &&& inputs.len() == 1 && is_null_outpoint(inputs[0])
            &&& outputs == seq![SpecTxOut { value: 0, script_pubkey: destination }]
            &&& commit_input == 0
        },
        Some((location, parent_destination, parent_value)) => {
            &&& inputs.len() == 2 && inputs[0] == location && is_null_outpoint(inputs[1])
            &&& outputs == seq![
                SpecTxOut { value: parent_value, script_pubkey: parent_destination },
                SpecTxOut { value: 0, script_pubkey: destination },
            ]
            &&& commit_input == 1
        },
    }
}

/// The parent's location, destination script and value, if any.
pub open spec fn parent_view(parent_info: Option<ParentInfo>) -> Option<(OutPoint, Seq<u8>, u64)> {
    match parent_info {
        Some(p) => Some((p.location.outpoint, p.destination@, p.tx_out.value)),
        None => None,
    }
}

/// An unsigned reveal input spending `o`.
pub open spec fn unsigned_input(o: OutPoint) -> SpecTxIn {
    SpecTxIn {
        previous_output: o,
        script_sig: Seq::empty(),
        sequence: 0xFFFF_FFFD,
        witness: Seq::empty(),
    }
}

/// The unsigned reveal transaction: version 1, lock time 0, one replaceable
/// input with empty script and witness per outpoint, and the given outputs.
pub open spec fn spec_reveal_tx(inputs: Seq<OutPoint>, outputs: Seq<SpecTxOut>) -> SpecTx {
    SpecTx {
        version: 1,
        lock_time: 0,
        input: inputs.map_values(|o: OutPoint| unsigned_input(o)),
        output: outputs,
    }
}

/// 64 zero bytes: a signature of the right size for estimating weight.
pub open spec fn placeholder_signature() -> Seq<u8> {
    Seq::new(64, |i: int| 0u8)
}

/// The reveal transaction with the witnesses it will carry once signed, for
/// sizing: signature, script and control block on the commit input, a lone
/// signature on every other input.
pub open spec fn with_placeholder_witnesses(
    tx: SpecTx,
    commit_input: int,
    script: Seq<u8>,
    control_block: Seq<u8>,
) -> SpecTx {
    SpecTx {
        input: Seq::new(
            tx.input.len(),
            |i: int|
                SpecTxIn {
                    witness: if i == commit_input {
                        seq![placeholder_signature(), script, control_block]
                    } else {
                        seq![placeholder_signature()]
                    },
                    ..tx.input[i]
                },
        ),
        ..tx
    }
}

/// The position of the first output whose script is `script`.
pub open spec fn first_output_with_script(outputs: Seq<SpecTxOut>, script: Seq<u8>) -> Option<int>
    decreases outputs.len(),
{
    if outputs.len() == 0 {
        None
    } else if outputs[0].script_pubkey == script {
        Some(0)
    } else {
        match first_output_with_script(outputs.drop_first(), script) {
            Some(i) => Some(i + 1),
            None => None,
        }
    }
}

/// Byte-wise equality of two byte strings.
fn bytes_equal(a: &Vec<u8>, b: &Vec<u8>) -> (r: bool)
    ensures
        r == (a@ == b@),
{
    if a.len() != b.len() {
        return false;
    }
    let n = a.len();
    let mut i: usize = 0;
    while i < n
        invariant
            n == a@.len(),
            n == b@.len(),
            i <= n,
            forall|j: int| 0 <= j < i ==> a@[j] == b@[j],
        decreases n - i,
    {
        if a[i] != b[i] {
            return false;
        }
        i = i + 1;
    }
    assert(a@ =~= b@);
    true
}

/// Copies a list of outputs.
fn clone_outputs(outputs: &Vec<TxOut>) -> (r: Vec<TxOut>)
    ensures
        outputs_view(r@) == outputs_view(outputs@),
{
    let mut r: Vec<TxOut> = Vec::new();
    let n = outputs.len();
    for i in 0..n
        invariant
            n == outputs@.len(),
            r@.len() == i,
            forall|j: int| 0 <= j < i ==> (#[trigger] r@[j])@ == outputs@[j]@,
    {
        r.push(outputs[i].clone());
    }
    assert(outputs_view(r@) =~= outputs_view(outputs@));
    r
}

impl Inscriber {
    /// The reveal's inputs and outputs before the commit transaction exists,
    /// and the position of the input that will spend the commit output: the
    /// parent's output comes first when there is a parent.
    pub fn reveal_inputs_and_outputs(parent_info: &Option<ParentInfo>, destination: &Vec<u8>) -> (r: (
        Vec<OutPoint>,
        Vec<TxOut>,
        usize,
    ))
        ensures
            reveal_layout_holds(
                parent_view(*parent_info),
                destination@,
                r.0@,
                outputs_view(r.1@),
                r.2 as int,
            ),
    {
        let mut inputs: Vec<OutPoint> = Vec::new();
        inputs.push(null_outpoint());
        let mut outputs: Vec<TxOut> = Vec::new();
        outputs.push(TxOut { script_pubkey: destination.clone(), value: 0 });
        match parent_info {
            Some(parent) => {
                inputs.insert(0, parent.location.outpoint);
                outputs.insert(
                    0,
                    TxOut { script_pubkey: parent.destination.clone(), value: parent.tx_out.value },
                );
            },
            None => {},
        }
        let commit_input: usize = if parent_info.is_some() {
            1
        } else {
            0
        };
        assert(outputs_view(outputs@) =~= match parent_view(*parent_info) {
            None => seq![SpecTxOut { value: 0, script_pubkey: destination@ }],
            Some((l, d, v)) => seq![
                SpecTxOut { value: v, script_pubkey: d },
                SpecTxOut { value: 0, script_pubkey: destination@ },
            ],
        });
        (inputs, outputs, commit_input)
    }

    /// Builds the unsigned reveal transaction (version 1, lock time 0, one
    /// replaceable input per outpoint) and its virtual size once signed, which
    /// is what its fee is charged on.
    pub fn build_reveal_transaction(
        control_block: &Vec<u8>,
        inputs: Vec<OutPoint>,
        commit_input_index: usize,
        outputs: Vec<TxOut>,
        script: &Vec<u8>,
    ) -> (r: (Tx, usize))
        ensures
            r.0@ == spec_reveal_tx(inputs@, outputs_view(outputs@)),
            r.1 == (transaction_weight_units(
                with_placeholder_witnesses(r.0@, commit_input_index as int, script@, control_block@),
            ) + 3) / 4,
            forall|other: SpecTx|
                #[trigger] same_size_layout(
                    other,
                    with_placeholder_witnesses(r.0@, commit_input_index as int, script@, control_block@),
                ) ==> r.1 == (transaction_weight_units(other) + 3) / 4,
    {
        let sequence = enable_rbf_no_locktime();
        let signature = placeholder_schnorr_signature();
        let n = inputs.len();
        let mut tx_inputs: Vec<TxIn> = Vec::new();
        let mut sized_inputs: Vec<TxIn> = Vec::new();
        for i in 0..n
            invariant
                n == inputs@.len(),
                sequence == 0xFFFF_FFFD,
                signature@ == placeholder_signature(),
                tx_inputs@.len() == i,
                sized_inputs@.len() == i,
                forall|j: int|
                    0 <= j < i ==> (#[trigger] tx_inputs@[j])@ == unsigned_input(inputs@[j]),
                forall|j: int|
                    0 <= j < i ==> (#[trigger] sized_inputs@[j])@ == (SpecTxIn {
                        witness: if j == commit_input_index {
                            seq![placeholder_signature(), script@, control_block@]
                        } else {
                            seq![placeholder_signature()]
                        },
                        ..unsigned_input(inputs@[j])
                    }),
        {
            let unsigned = TxIn {
                previous_output: inputs[i],
                script_sig: Vec::new(),
                sequence,
                witness: Vec::new(),
            };
            assert(unsigned.witness@.map_values(|w: Vec<u8>| w@) =~= Seq::<Seq<u8>>::empty());
            assert(unsigned@ == unsigned_input(inputs@[i as int]));
            tx_inputs.push(unsigned);
            let mut witness: Vec<Vec<u8>> = Vec::new();
            witness.push(signature.clone());
            if i == commit_input_index {
                witness.push(script.clone());
                witness.push(control_block.clone());
            }
            assert(witness@.map_values(|w: Vec<u8>| w@) =~= if i == commit_input_index {
                seq![placeholder_signature(), script@, control_block@]
            } else {
                seq![placeholder_signature()]
            });
            sized_inputs.push(
                TxIn {
                    previous_output: inputs[i],
                    script_sig: Vec::new(),
                    sequence,
                    witness,
                },
            );
        }
        let sized = Tx {
            version: 1,
            lock_time: 0,
            input: sized_inputs,
            output: clone_outputs(&outputs),
        };
        let reveal_tx = Tx { version: 1, lock_time: 0, input: tx_inputs, output: outputs };
        assert(reveal_tx@.input =~= inputs@.map_values(|o: OutPoint| unsigned_input(o)));
        assert(reveal_tx@ == spec_reveal_tx(inputs@, outputs_view(reveal_tx.output@)));
        assert(sized@.input =~= with_placeholder_witnesses(
            reveal_tx@,
            commit_input_index as int,
            script@,
            control_block@,
        ).input);
        assert(sized@ == with_placeholder_witnesses(
            reveal_tx@,
            commit_input_index as int,
            script@,
            control_block@,
        ));
        let vsize = transaction_vsize(&sized);
        (reveal_tx, vsize)
    }
}


/// The reveal transaction after paying `fee` out of the commit-side output.
pub open spec fn with_output_value(tx: SpecTx, index: int, value: u64) -> SpecTx {
    SpecTx { output: tx.output.update(index, SpecTxOut { value, ..tx.output[index] }), ..tx }
}

/// The reveal transaction with `items` pushed onto the witness of input `index`.
pub open spec fn with_witness_items(tx: SpecTx, index: int, items: Seq<Seq<u8>>) -> SpecTx {
    SpecTx {
        input: tx.input.update(
            index,
            SpecTxIn { witness: tx.input[index].witness + items, ..tx.input[index] },
        ),
        ..tx
    }
}

/// The position of the reveal input that spends the commit output: after
/// the parent's input when there is a parent.
pub open spec fn commit_input_of(parent: Option<(OutPoint, Seq<u8>, u64)>) -> int {
    if parent is Some {
        1
    } else {
        0
    }
}

/// The unsigned reveal once it spends the commit output `spent`, worth
/// `value`: the parent's output first when there is a parent, then `spent`;
/// the parent's value back to its destination, then `value` to `destination`.
pub open spec fn unsigned_reveal(
    parent: Option<(OutPoint, Seq<u8>, u64)>,
    destination: Seq<u8>,
    spent: OutPoint,
    value: u64,
) -> SpecTx {
    let commit_out = SpecTxOut { value, script_pubkey: destination };
    match parent {
        None => spec_reveal_tx(seq![spent], seq![commit_out]),
        Some((location, parent_destination, parent_value)) => spec_reveal_tx(
            seq![location, spent],
            seq![SpecTxOut { value: parent_value, script_pubkey: parent_destination }, commit_out],
        ),
    }
}

/// That reveal after paying `fee` out of the commit-side output and pushing
/// `witness` onto the commit input.
pub open spec fn signed_reveal(
    parent: Option<(OutPoint, Seq<u8>, u64)>,
    destination: Seq<u8>,
    spent: OutPoint,
    value: u64,
    fee: u64,
    witness: Seq<Seq<u8>>,
) -> SpecTx {
    let commit_input = commit_input_of(parent);
    with_witness_items(
        with_output_value(
            unsigned_reveal(parent, destination, spent, value),
            commit_input,
            (value - fee) as u64,
        ),
        commit_input,
        witness,
    )
}

/// The virtual size of `tx` once its witnesses are in place, which its fee
/// is charged on.
pub open spec fn signed_vsize(tx: SpecTx, commit_input: int, script: Seq<u8>, control_block: Seq<u8>) -> int {
    ((transaction_weight_units(with_placeholder_witnesses(tx, commit_input, script, control_block)) + 3) / 4) as int
}

/// What `pay_reveal_fee` gives: refused when the output cannot pay `fee`;
/// otherwise the output is reduced by `fee`, and refused when what remains is
/// below the dust threshold of its script.
pub open spec fn spec_pay_reveal_fee(tx: SpecTx, commit_input: int, fee: u64) -> (
    Result<(), InscribeError>,
    SpecTx,
) {
    let value = tx.output[commit_input].value;
    if value < fee {
        (Err(InscribeError::InsufficientCommitValue), tx)
    } else {
        let paid = (value - fee) as u64;
        let next = with_output_value(tx, commit_input, paid);
        if paid < dust_threshold(tx.output[commit_input].script_pubkey) {
            (Err(InscribeError::DustOutput), next)
        } else {
            (Ok(()), next)
        }
    }
}

impl Inscriber {
    /// The position of the first output of `commit_tx` locked by `script`.
    pub fn commit_output_position(commit_tx: &Tx, script: &Vec<u8>) -> (r: Option<usize>)
        ensures
            match r {
                Some(i) => first_output_with_script(commit_tx@.output, script@) == Some(i as int),
                None => first_output_with_script(commit_tx@.output, script@) is None,
            },
    {
        let n = commit_tx.output.len();
        let mut i: usize = 0;
        let ghost outs = commit_tx@.output;
        assert(outs.skip(0) =~= outs);
        while i < n
            invariant
                outs == commit_tx@.output,
                n == outs.len(),
                i <= n,
                first_output_with_script(outs, script@) == match first_output_with_script(
                    outs.skip(i as int),
                    script@,
                ) {
                    Some(k) => Some(k + i),
                    None => None,
                },
            decreases n - i,
        {
            assert(outs.skip(i as int)[0] == outs[i as int]);
            assert(outs.skip(i as int).drop_first() =~= outs.skip(i + 1));
            if bytes_equal(&commit_tx.output[i].script_pubkey, script) {
                return Some(i);
            }
            i = i + 1;
        }
        None
    }

    /// Points the reveal at the commit transaction: the commit input now
    /// spends the first commit output locked by `commit_script`, and the
    /// commit-side reveal output sends that output's whole value to
    /// `destination`. Returns `false`, changing nothing, when no commit output
    /// has that script.
    pub fn point_at_commit(
        commit_tx: &Tx,
        commit_script: &Vec<u8>,
        inputs: &mut Vec<OutPoint>,
        outputs: &mut Vec<TxOut>,
        commit_input: usize,
        destination: &Vec<u8>,
    ) -> (found: bool)
        requires
            commit_input < old(inputs)@.len(),
            commit_input < old(outputs)@.len(),
            first_output_with_script(commit_tx@.output, commit_script@) matches Some(v) ==> v
                <= u32::MAX,
        ensures
            found == first_output_with_script(commit_tx@.output, commit_script@) is Some,
            !found ==> final(inputs)@ == old(inputs)@ && final(outputs)@ == old(outputs)@,
            found ==> {
                let v = first_output_with_script(commit_tx@.output, commit_script@).unwrap();
                &&& final(inputs)@ == old(inputs)@.update(
                    commit_input as int,
                    OutPoint {
                        txid: final(inputs)@[commit_input as int].txid,
                        vout: v as u32,
                    },
                )
                &&& final(inputs)@[commit_input as int].txid.bytes@ == transaction_txid_bytes(
                    commit_tx@,
                )
                &&& outputs_view(final(outputs)@) == outputs_view(old(outputs)@).update(
                    commit_input as int,
                    SpecTxOut { value: commit_tx@.output[v].value, script_pubkey: destination@ },
                )
            },
    {
        match Self::commit_output_position(commit_tx, commit_script) {
            None => false,
            Some(vout) => {
                proof {
                    lemma_first_output_with_script(commit_tx@.output, commit_script@);
                }
                let txid = Txid { bytes: transaction_txid(commit_tx) };
                inputs.set(commit_input, OutPoint { txid, vout: vout as u32 });
                let value = commit_tx.output[vout].value;
                let ghost before = outputs@;
                outputs.set(commit_input, TxOut { script_pubkey: destination.clone(), value });
                assert(outputs_view(outputs@) =~= outputs_view(before).update(
                    commit_input as int,
                    SpecTxOut { value: commit_tx@.output[vout as int].value, script_pubkey: destination@ },
                ));
                true
            },
        }
    }

    /// Pays the reveal fee out of the commit-side reveal output: refused when
    /// the output holds less than `fee`, or when what is left would be dust.
    pub fn pay_reveal_fee(reveal_tx: &mut Tx, commit_input: usize, fee: u64) -> (r: Result<
        (),
        InscribeError,
    >)
        requires
            commit_input < old(reveal_tx)@.output.len(),
            old(reveal_tx)@.output[commit_input as int].script_pubkey.len() <= u64::MAX / 4,
        ensures
            (r, final(reveal_tx)@) == spec_pay_reveal_fee(old(reveal_tx)@, commit_input as int, fee),
    {
        let value = reveal_tx.output[commit_input].value;
        if value < fee {
            return Err(InscribeError::InsufficientCommitValue);
        }
        let paid = value - fee;
        let mut out = reveal_tx.output[commit_input].clone();
        out.value = paid;
        let ghost before = reveal_tx@;
        reveal_tx.output.set(commit_input, out);
        assert(reveal_tx@.output =~= with_output_value(before, commit_input as int, paid).output);
        if paid < script_dust_value(&reveal_tx.output[commit_input].script_pubkey) {
            return Err(InscribeError::DustOutput);
        }
        Ok(())
    }

    /// Completes the witness of the commit input: signature, reveal script
    /// and control block, in that order.
    pub fn attach_reveal_witness(
        reveal_tx: &mut Tx,
        commit_input: usize,
        signature: Vec<u8>,
        script: &Vec<u8>,
        control_block: &Vec<u8>,
    )
        requires
            commit_input < old(reveal_tx)@.input.len(),
        ensures
            final(reveal_tx)@ == with_witness_items(
                old(reveal_tx)@,
                commit_input as int,
                seq![signature@, script@, control_block@],
            ),
    {
        let ghost before = reveal_tx@;
        let mut txin = reveal_tx.input.remove(commit_input);
        let ghost old_witness = txin.witness@;
        txin.witness.push(signature);
        txin.witness.push(script.clone());
        txin.witness.push(control_block.clone());
        assert(txin.witness@.map_values(|w: Vec<u8>| w@) =~= old_witness.map_values(
            |w: Vec<u8>| w@,
        ) + seq![signature@, script@, control_block@]);
        reveal_tx.input.insert(commit_input, txin);
        assert(reveal_tx@.input =~= with_witness_items(
            before,
            commit_input as int,
            seq![signature@, script@, control_block@],
        ).input);
    }

    /// Refuses a reveal heavier than the standardness limit of 400,000
    /// weight units, unless `no_limit` is set.
    pub fn check_reveal_weight(reveal_tx: &Tx, no_limit: bool) -> (r: Result<(), InscribeError>)
        ensures
            r == if !no_limit && transaction_weight_units(reveal_tx@) > 400_000 {
                Err(InscribeError::RevealTooHeavy { weight: transaction_weight_units(reveal_tx@) as u64 })
            } else {
                Ok(())
            },
            transaction_weight_units(reveal_tx@) <= u64::MAX,
            forall|other: SpecTx|
                #[trigger] same_size_layout(other, reveal_tx@) ==> transaction_weight_units(other)
                    == transaction_weight_units(reveal_tx@),
    {
        let weight = transaction_weight(reveal_tx);
        if !no_limit && weight > max_standard_tx_weight() {
            return Err(InscribeError::RevealTooHeavy { weight });
        }
        Ok(())
    }
}

pub proof fn lemma_first_output_with_script(outputs: Seq<SpecTxOut>, script: Seq<u8>)
    ensures
        first_output_with_script(outputs, script) matches Some(i) ==> 0 <= i < outputs.len()
            && outputs[i].script_pubkey == script,
    decreases outputs.len(),
{
    if outputs.len() > 0 {
        lemma_first_output_with_script(outputs.drop_first(), script);
    }
}

/// The outputs the reveal spends, in input order, for its signature hash:
/// the parent's output first when there is a parent, then the commit
/// transaction's first output.
pub open spec fn spec_reveal_prevouts(commit_tx: SpecTx, parent_info: Option<ParentInfo>) -> Seq<
    SpecTxOut,
> {
    match parent_info {
        Some(p) => seq![p.tx_out@, commit_tx.output[0]],
        None => seq![commit_tx.output[0]],
    }
}

impl Inscriber {
    /// The outputs the reveal spends, for computing its signature hash.
    pub fn reveal_prevouts(commit_tx: &Tx, parent_info: &Option<ParentInfo>) -> (r: Vec<TxOut>)
        requires
            commit_tx@.output.len() > 0,
        ensures
            outputs_view(r@) == spec_reveal_prevouts(commit_tx@, *parent_info),
    {
        let mut prevouts: Vec<TxOut> = Vec::new();
        prevouts.push(commit_tx.output[0].clone());
        match parent_info {
            Some(p) => {
                prevouts.insert(0, p.tx_out.clone());
            },
            None => {},
        }
        assert(outputs_view(prevouts@) =~= spec_reveal_prevouts(commit_tx@, *parent_info));
        prevouts
    }
}

} // verus!
