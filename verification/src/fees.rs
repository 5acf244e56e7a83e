//! Fees of transactions over the wallet's outputs.
use vstd::prelude::*;

use crate::inscriber::{Inscriber, UtxoMap};
use crate::reveal_tx::outputs_view;
use crate::sorted_map::{lookup, spec_insert};
use crate::types::{OutPoint, SpecTx, SpecTxIn, SpecTxOut, Tx, TxOut};

verus! {

/// Sum of a list of output values.
pub open spec fn sum_output_values(outputs: Seq<SpecTxOut>) -> int
    decreases outputs.len(),
{
    if outputs.len() == 0 {
        0
    } else {
        sum_output_values(outputs.drop_last()) + outputs.last().value
    }
}

/// Every input spends an output that `utxos` knows.
pub open spec fn inputs_known(inputs: Seq<SpecTxIn>, utxos: Seq<(OutPoint, u64)>) -> bool {
    forall|i: int| 0 <= i < inputs.len() ==> lookup(utxos, (#[trigger] inputs[i]).previous_output) is Some
}

/// Sum of the values, as `utxos` gives them, of the outputs the inputs spend.
pub open spec fn sum_input_values(inputs: Seq<SpecTxIn>, utxos: Seq<(OutPoint, u64)>) -> int
    decreases inputs.len(),
{
    if inputs.len() == 0 {
        0
    } else {
        sum_input_values(inputs.drop_last(), utxos) + lookup(
            utxos,
            inputs.last().previous_output,
        ).unwrap()
    }
}

/// The fee of `tx` can be computed: every input is known, both sums fit in
/// 64 bits, and the outputs do not exceed the inputs.
pub open spec fn fee_computable(tx: SpecTx, utxos: Seq<(OutPoint, u64)>) -> bool {
    &&& inputs_known(tx.input, utxos)
    &&& sum_input_values(tx.input, utxos) <= u64::MAX
    &&& sum_output_values(tx.output) <= sum_input_values(tx.input, utxos)
}

/// The fee of `tx`: what its inputs spend minus what its outputs pay.
pub open spec fn spec_fee(tx: SpecTx, utxos: Seq<(OutPoint, u64)>) -> int {
    sum_input_values(tx.input, utxos) - sum_output_values(tx.output)
}

/// The wallet's outputs once the commit output spent by the reveal's commit
/// input is recorded with its value.
pub open spec fn with_commit_recorded(
    utxos: Seq<(OutPoint, u64)>,
    commit_tx: SpecTx,
    reveal_tx: SpecTx,
    commit_input: int,
) -> Seq<(OutPoint, u64)> {
    let spent = reveal_tx.input[commit_input].previous_output;
    spec_insert(utxos, spent, commit_tx.output[spent.vout as int].value)
}

proof fn lemma_sum_outputs_prefix(outputs: Seq<SpecTxOut>, i: int)
    requires
        0 <= i < outputs.len(),
    ensures
        sum_output_values(outputs.take(i + 1)) == sum_output_values(outputs.take(i))
            + outputs[i].value,
{
    assert(outputs.take(i + 1).drop_last() =~= outputs.take(i));
}

proof fn lemma_sum_inputs_prefix(inputs: Seq<SpecTxIn>, utxos: Seq<(OutPoint, u64)>, i: int)
    requires
        0 <= i < inputs.len(),
    ensures
        sum_input_values(inputs.take(i + 1), utxos) == sum_input_values(inputs.take(i), utxos)
            + lookup(utxos, inputs[i].previous_output).unwrap(),
{
    assert(inputs.take(i + 1).drop_last() =~= inputs.take(i));
}

/// Partial sums of non-negative values never exceed the whole sum.
proof fn lemma_sum_outputs_monotone(outputs: Seq<SpecTxOut>, i: int)
    requires
        0 <= i <= outputs.len(),
    ensures
        0 <= sum_output_values(outputs.take(i)) <= sum_output_values(outputs),
    decreases outputs.len() - i,
{
    if i < outputs.len() {
        lemma_sum_outputs_prefix(outputs, i);
        lemma_sum_outputs_monotone(outputs, i + 1);
        lemma_sum_outputs_nonneg(outputs.take(i));
    } else {
        assert(outputs.take(i) =~= outputs);
        lemma_sum_outputs_nonneg(outputs);
    }
}

proof fn lemma_sum_outputs_nonneg(outputs: Seq<SpecTxOut>)
    ensures
        0 <= sum_output_values(outputs),
    decreases outputs.len(),
{
    if outputs.len() > 0 {
        lemma_sum_outputs_nonneg(outputs.drop_last());
    }
}

proof fn lemma_sum_inputs_nonneg(inputs: Seq<SpecTxIn>, utxos: Seq<(OutPoint, u64)>)
    ensures
        0 <= sum_input_values(inputs, utxos),
    decreases inputs.len(),
{
    if inputs.len() > 0 {
        lemma_sum_inputs_nonneg(inputs.drop_last(), utxos);
    }
}

proof fn lemma_sum_inputs_monotone(inputs: Seq<SpecTxIn>, utxos: Seq<(OutPoint, u64)>, i: int)
    requires
        0 <= i <= inputs.len(),
    ensures
        0 <= sum_input_values(inputs.take(i), utxos) <= sum_input_values(inputs, utxos),
    decreases inputs.len() - i,
{
    if i < inputs.len() {
        lemma_sum_inputs_prefix(inputs, utxos, i);
        lemma_sum_inputs_monotone(inputs, utxos, i + 1);
        lemma_sum_inputs_nonneg(inputs.take(i), utxos);
    } else {
        assert(inputs.take(i) =~= inputs);
        lemma_sum_inputs_nonneg(inputs, utxos);
    }
}

/// Input sums read only the spent outpoints.
proof fn lemma_sum_inputs_by_outpoints(a: Seq<SpecTxIn>, b: Seq<SpecTxIn>, utxos: Seq<(OutPoint, u64)>)
    requires
        a.len() == b.len(),
        forall|i: int| 0 <= i < a.len() ==> (#[trigger] a[i]).previous_output == b[i].previous_output,
    ensures
        sum_input_values(a, utxos) == sum_input_values(b, utxos),
        inputs_known(a, utxos) == inputs_known(b, utxos),
    decreases a.len(),
{
    if a.len() > 0 {
        lemma_sum_inputs_by_outpoints(a.drop_last(), b.drop_last(), utxos);
        assert(a.last() == a[a.len() - 1]);
        if inputs_known(b, utxos) {
            assert forall|i: int| 0 <= i < a.len() implies lookup(utxos, (#[trigger] a[i]).previous_output) is Some by {
                assert(lookup(utxos, b[i].previous_output) is Some);
            }
        }
        if inputs_known(a, utxos) {
            assert forall|i: int| 0 <= i < b.len() implies lookup(utxos, (#[trigger] b[i]).previous_output) is Some by {
                assert(lookup(utxos, a[i].previous_output) is Some);
            }
        }
    }
}

/// Output sums read only the values.
proof fn lemma_sum_outputs_by_values(a: Seq<SpecTxOut>, b: Seq<SpecTxOut>)
    requires
        a.len() == b.len(),
        forall|i: int| 0 <= i < a.len() ==> (#[trigger] a[i]).value == b[i].value,
    ensures
        sum_output_values(a) == sum_output_values(b),
    decreases a.len(),
{
    if a.len() > 0 {
        lemma_sum_outputs_by_values(a.drop_last(), b.drop_last());
    }
}

/// The fee of a transaction, and whether it can be computed, depend only on
/// the outpoints its inputs spend and the values of its outputs: not on
/// scripts or witnesses.
pub proof fn lemma_fee_by_outpoints_and_values(a: SpecTx, b: SpecTx, utxos: Seq<(OutPoint, u64)>)
    requires
        a.input.len() == b.input.len(),
        forall|i: int| 0 <= i < a.input.len() ==> (#[trigger] a.input[i]).previous_output
            == b.input[i].previous_output,
        a.output.len() == b.output.len(),
        forall|i: int| 0 <= i < a.output.len() ==> (#[trigger] a.output[i]).value == b.output[i].value,
    ensures
        fee_computable(a, utxos) == fee_computable(b, utxos),
        spec_fee(a, utxos) == spec_fee(b, utxos),
{
    lemma_sum_inputs_by_outpoints(a.input, b.input, utxos);
    lemma_sum_outputs_by_values(a.output, b.output);
}

impl Inscriber {
    /// The fee `tx` pays: the values of the outputs its inputs spend, as
    /// `utxos` records them, minus the values of its outputs.
    pub fn calculate_fee(tx: &Tx, utxos: &UtxoMap) -> (fee: u64)
        requires
            fee_computable(tx@, utxos@),
        ensures
            fee == spec_fee(tx@, utxos@),
    {
        let ghost ins = tx@.input;
        let ghost outs = tx@.output;
        let n = tx.input.len();
        let mut spent: u64 = 0;
        for i in 0..n
            invariant
                n == ins.len(),
                ins == tx@.input,
                fee_computable(tx@, utxos@),
                spent == sum_input_values(ins.take(i as int), utxos@),
        {
            proof {
                lemma_sum_inputs_prefix(ins, utxos@, i as int);
                lemma_sum_inputs_monotone(ins, utxos@, i + 1);
            }
            assert(lookup(utxos@, ins[i as int].previous_output) is Some);
            let value = utxos.get(&tx.input[i].previous_output).unwrap();
            spent = spent + value;
        }
        assert(ins.take(n as int) =~= ins);
        let m = tx.output.len();
        let mut paid: u64 = 0;
        for j in 0..m
            invariant
                m == outs.len(),
                outs == tx@.output,
                fee_computable(tx@, utxos@),
                spent == sum_input_values(ins, utxos@),
                paid == sum_output_values(outs.take(j as int)),
        {
            proof {
                lemma_sum_outputs_prefix(outs, j as int);
                lemma_sum_outputs_monotone(outs, j + 1);
            }
            paid = paid + tx.output[j].value;
        }
        assert(outs.take(m as int) =~= outs);
        spent - paid
    }

    /// The fee of `tx` when it can be computed, `None` when an input spends
    /// an unknown output, a sum overflows, or the outputs exceed the inputs.
    pub fn fee_if_computable(tx: &Tx, utxos: &UtxoMap) -> (r: Option<u64>)
        ensures
            r == if fee_computable(tx@, utxos@) {
                Some(spec_fee(tx@, utxos@) as u64)
            } else {
                None
            },
            r matches Some(f) ==> f == spec_fee(tx@, utxos@),
    {
        let ghost ins = tx@.input;
        let ghost outs = tx@.output;
        let n = tx.input.len();
        let mut spent: u64 = 0;
        for i in 0..n
            invariant
                n == ins.len(),
                ins == tx@.input,
                inputs_known(ins.take(i as int), utxos@),
                spent == sum_input_values(ins.take(i as int), utxos@),
        {
            proof {
                lemma_sum_inputs_prefix(ins, utxos@, i as int);
            }
            match utxos.get(&tx.input[i].previous_output) {
                None => {
                    assert(!inputs_known(ins, utxos@)) by {
                        assert(lookup(utxos@, ins[i as int].previous_output) is None);
                    }
                    return None;
                },
                Some(value) => {
                    if spent > u64::MAX - value {
                        proof {
                            lemma_sum_inputs_monotone(ins, utxos@, i + 1);
                        }
                        return None;
                    }
                    spent = spent + value;
                    assert(inputs_known(ins.take(i + 1), utxos@)) by {
                        assert forall|k: int| 0 <= k < i + 1 implies lookup(
                            utxos@,
                            (#[trigger] ins.take(i + 1)[k]).previous_output,
                        ) is Some by {
                            if k < i {
                                assert(ins.take(i + 1)[k] == ins.take(i as int)[k]);
                            }
                        }
                    }
                },
            }
        }
        assert(ins.take(n as int) =~= ins);
        let m = tx.output.len();
        let mut paid: u64 = 0;
        for j in 0..m
            invariant
                m == outs.len(),
                outs == tx@.output,
                ins == tx@.input,
                inputs_known(ins, utxos@),
                spent == sum_input_values(ins, utxos@),
                paid == sum_output_values(outs.take(j as int)),
                paid <= spent,
        {
            proof {
                lemma_sum_outputs_prefix(outs, j as int);
            }
            let value = tx.output[j].value;
            assert(outs[j as int] == tx.output@[j as int]@);
            if value > spent - paid {
                proof {
                    lemma_sum_outputs_monotone(outs, j + 1);
                    assert(sum_output_values(outs.take(j + 1)) == paid + value);
                }
                return None;
            }
            paid = paid + value;
        }
        assert(outs.take(m as int) =~= outs);
        Some(spent - paid)
    }

    /// Records the commit output that the reveal's commit input spends, with
    /// its value, among the wallet's outputs.
    pub fn record_commit_output(
        utxos: &mut UtxoMap,
        commit_tx: &Tx,
        reveal_tx: &Tx,
        commit_input: usize,
    )
        requires
            commit_input < reveal_tx@.input.len(),
            (reveal_tx@.input[commit_input as int].previous_output.vout as int)
                < commit_tx@.output.len(),
        ensures
            final(utxos)@ == with_commit_recorded(
                old(utxos)@,
                commit_tx@,
                reveal_tx@,
                commit_input as int,
            ),
    {
        let spent = reveal_tx.input[commit_input].previous_output;
        let value = commit_tx.output[spent.vout as usize].value;
        utxos.insert(spent, value);
    }

    /// The fees of the commit and reveal transactions together.
    pub fn total_fees(commit_tx: &Tx, reveal_tx: &Tx, utxos: &UtxoMap) -> (r: u64)
        requires
            fee_computable(commit_tx@, utxos@),
            fee_computable(reveal_tx@, utxos@),
            spec_fee(commit_tx@, utxos@) + spec_fee(reveal_tx@, utxos@) <= u64::MAX,
        ensures
            r == spec_fee(commit_tx@, utxos@) + spec_fee(reveal_tx@, utxos@),
    {
        Self::calculate_fee(commit_tx, utxos) + Self::calculate_fee(reveal_tx, utxos)
    }
}

} // verus!
