//! Making an inscription: choosing the sat, committing to the reveal script
//! under a fresh key, building, paying for and signing the reveal, and
//! reckoning the fees of both transactions.
use vstd::prelude::*;

use crate::chain::{dust_threshold, same_size_layout, transaction_txid_bytes, transaction_weight_units};
use crate::fees::{fee_computable, lemma_fee_by_outpoints_and_values, spec_fee, with_commit_recorded};
use crate::inscriber::{InscribeError, Inscriber, InscriptionMap, ParentInfo, UtxoMap};
use crate::keys::{
    checksig_script, checksig_script_bytes, generate_secret_key, key_path_script_of, recovery_key,
    recovery_secret_key_of, schnorr_signature_valid, script_spend_sighash,
    script_spend_sighash_of, sign_schnorr, taproot_commitment, taproot_control_block_of,
    taproot_output_script_of, valid_secret_key, x_only_public_key, x_only_public_key_of,
};
use crate::laws::law_reveal_pays_its_fee;
use crate::reveal_tx::{
    commit_input_of, first_output_with_script, outputs_view, parent_view,
    placeholder_signature, reveal_layout_holds, signed_reveal, signed_vsize, spec_reveal_prevouts,
    spec_reveal_tx, unsigned_reveal, with_output_value, with_placeholder_witnesses,
    with_witness_items,
};
use crate::select::spec_select_satpoint;
use crate::sorted_map::lookup;
use crate::types::{OutPoint, SatPoint, SpecTx, SpecTxOut, Tx};

verus! {

/// The reveal script: a check of a signature by the x-only key of `secret`,
/// then the inscription's envelope.
pub open spec fn reveal_script_of(secret: Seq<u8>, envelope: Seq<u8>) -> Seq<u8> {
    checksig_script_bytes(x_only_public_key_of(secret)) + envelope
}

/// `reveal_fee` may answer `fee` when asked for a reveal of `vsize` virtual bytes.
pub open spec fn fee_charged<F: Fn(usize) -> u64>(reveal_fee: F, vsize: int, fee: u64) -> bool {
    0 <= vsize <= usize::MAX && call_ensures(reveal_fee, (vsize as usize,), fee)
}

/// `build_commit` may answer `commit` when asked to send `target` sats from
/// `satpoint` to an output locked by `script`.
pub open spec fn commit_built_by<B: FnOnce(SatPoint, Vec<u8>, u64) -> Option<Tx>>(
    build_commit: B,
    satpoint: SatPoint,
    script: Seq<u8>,
    target: u64,
    commit: Tx,
) -> bool {
    exists|s: Vec<u8>|
        s@ == script && #[trigger] call_ensures(build_commit, (satpoint, s, target), Some(commit))
}

/// `build_commit` may answer that it cannot build the commit when asked to
/// send `target` sats from `satpoint` to an output locked by `script`.
pub open spec fn commit_refused_by<B: FnOnce(SatPoint, Vec<u8>, u64) -> Option<Tx>>(
    build_commit: B,
    satpoint: SatPoint,
    script: Seq<u8>,
    target: u64,
) -> bool {
    exists|s: Vec<u8>|
        s@ == script && #[trigger] call_ensures(build_commit, (satpoint, s, target), None::<Tx>)
}

/// The wallet records the parent's output with the value the parent's
/// information gives, that output is not the one `spent`, and the two values
/// add up within 64 bits.
pub open spec fn parent_accounted(
    parent: Option<(OutPoint, Seq<u8>, u64)>,
    utxos: Seq<(OutPoint, u64)>,
    spent: OutPoint,
    value: u64,
) -> bool {
    parent matches Some((location, _, parent_value)) ==> {
        &&& location != spent
        &&& lookup(utxos, location) == Some(parent_value)
        &&& parent_value + value <= u64::MAX
    }
}

/// Some outpoint; the size of a reveal does not depend on which.
pub open spec fn any_outpoint() -> OutPoint {
    vstd::pervasive::arbitrary()
}

/// The virtual size of the signed reveal of this layout: what the reveal fee
/// is asked for, both for the estimate and for the reveal itself.
pub open spec fn layout_vsize(
    parent: Option<(OutPoint, Seq<u8>, u64)>,
    destination: Seq<u8>,
    script: Seq<u8>,
    control_block: Seq<u8>,
) -> int {
    signed_vsize(
        unsigned_reveal(parent, destination, any_outpoint(), 0),
        commit_input_of(parent),
        script,
        control_block,
    )
}

/// The reveal after paying `fee` out of output `commit_input`.
pub open spec fn paid_reveal(reveal: SpecTx, commit_input: int, fee: u64) -> SpecTx {
    with_output_value(reveal, commit_input, (reveal.output[commit_input].value - fee) as u64)
}

/// How completing `reveal` turns out, in the order of the checks: the
/// commit-side output cannot pay `fee`; what is left would be dust; the
/// signed reveal would be heavier than the standardness limit while
/// `no_limit` is off; or the fees of the commit and of the paid reveal
/// cannot be reckoned over the wallet's outputs with the commit output
/// recorded, or their sum does not fit in 64 bits.
pub open spec fn completion_outcome(
    reveal: SpecTx,
    commit_input: int,
    fee: u64,
    script: Seq<u8>,
    control_block: Seq<u8>,
    commit: SpecTx,
    utxos: Seq<(OutPoint, u64)>,
    no_limit: bool,
) -> Result<(), InscribeError> {
    let out = reveal.output[commit_input];
    let paid = paid_reveal(reveal, commit_input, fee);
    let weight = transaction_weight_units(
        with_witness_items(paid, commit_input, seq![placeholder_signature(), script, control_block]),
    );
    let recorded = with_commit_recorded(utxos, commit, reveal, commit_input);
    if out.value < fee {
        Err(InscribeError::InsufficientCommitValue)
    } else if out.value - fee < dust_threshold(out.script_pubkey) {
        Err(InscribeError::DustOutput)
    } else if !no_limit && weight > 400_000 {
        Err(InscribeError::RevealTooHeavy { weight: weight as u64 })
    } else if !fee_computable(commit, recorded) || !fee_computable(paid, recorded) || spec_fee(
        commit,
        recorded,
    ) + spec_fee(paid, recorded) > u64::MAX {
        Err(InscribeError::FeesNotComputable)
    } else {
        Ok(())
    }
}

/// `reveal` is the unsigned reveal pointed at the commit output of `commit`
/// locked by `commit_script`, of virtual size `vsize` once signed.
pub open spec fn reveal_pointed(
    parent: Option<(OutPoint, Seq<u8>, u64)>,
    destination: Seq<u8>,
    commit: SpecTx,
    commit_script: Seq<u8>,
    script: Seq<u8>,
    control_block: Seq<u8>,
    reveal: SpecTx,
    vsize: int,
) -> bool {
    let ci = commit_input_of(parent);
    let spent = reveal.input[ci].previous_output;
    &&& first_output_with_script(commit.output, commit_script) == Some(spent.vout as int)
    &&& spent.txid.bytes@ == transaction_txid_bytes(commit)
    &&& reveal == unsigned_reveal(parent, destination, spent, commit.output[spent.vout as int].value)
    &&& vsize == signed_vsize(reveal, ci, script, control_block)
    &&& vsize == layout_vsize(parent, destination, script, control_block)
}

/// Two placeholder-witnessed reveals of the same layout have the same size,
/// whatever they spend and pay.
proof fn lemma_reveal_sizes(
    parent: Option<(OutPoint, Seq<u8>, u64)>,
    destination: Seq<u8>,
    a: OutPoint,
    a_value: u64,
    b: OutPoint,
    b_value: u64,
    script: Seq<u8>,
    control_block: Seq<u8>,
)
    ensures
        same_size_layout(
            with_placeholder_witnesses(
                unsigned_reveal(parent, destination, a, a_value),
                commit_input_of(parent),
                script,
                control_block,
            ),
            with_placeholder_witnesses(
                unsigned_reveal(parent, destination, b, b_value),
                commit_input_of(parent),
                script,
                control_block,
            ),
        ),
{
    let ci = commit_input_of(parent);
    let x = with_placeholder_witnesses(unsigned_reveal(parent, destination, a, a_value), ci, script, control_block);
    let y = with_placeholder_witnesses(unsigned_reveal(parent, destination, b, b_value), ci, script, control_block);
    assert(x.input.len() == y.input.len());
    assert forall|i: int| 0 <= i < x.input.len() implies {
        &&& (#[trigger] x.input[i]).script_sig.len() == y.input[i].script_sig.len()
        &&& x.input[i].witness.len() == y.input[i].witness.len()
        &&& forall|j: int|
            0 <= j < x.input[i].witness.len() ==> (#[trigger] x.input[i].witness[j]).len()
                == y.input[i].witness[j].len()
    } by {
        assert(x.input[i].witness == y.input[i].witness);
        assert(x.input[i].script_sig == y.input[i].script_sig);
    }
    assert forall|i: int| 0 <= i < x.output.len() implies (#[trigger] x.output[i]).script_pubkey.len()
        == y.output[i].script_pubkey.len() by {
        assert(x.output[i].script_pubkey == y.output[i].script_pubkey);
    }
}

/// A witness pushed on a reveal input weighs by its items' lengths alone.
proof fn lemma_witness_sizes(tx: SpecTx, index: int, a: Seq<Seq<u8>>, b: Seq<Seq<u8>>)
    requires
        0 <= index < tx.input.len(),
        a.len() == b.len(),
        forall|j: int| 0 <= j < a.len() ==> (#[trigger] a[j]).len() == b[j].len(),
    ensures
        same_size_layout(with_witness_items(tx, index, a), with_witness_items(tx, index, b)),
{
    let x = with_witness_items(tx, index, a);
    let y = with_witness_items(tx, index, b);
    assert forall|i: int| 0 <= i < x.input.len() implies {
        &&& (#[trigger] x.input[i]).script_sig.len() == y.input[i].script_sig.len()
        &&& x.input[i].witness.len() == y.input[i].witness.len()
        &&& forall|j: int|
            0 <= j < x.input[i].witness.len() ==> (#[trigger] x.input[i].witness[j]).len()
                == y.input[i].witness[j].len()
    } by {
        if i == index {
            let w = tx.input[i].witness;
            assert forall|j: int| 0 <= j < x.input[i].witness.len() implies (#[trigger] x.input[i].witness[j]).len()
                == y.input[i].witness[j].len() by {
                if j >= w.len() {
                    assert(x.input[i].witness[j] == a[j - w.len()]);
                    assert(y.input[i].witness[j] == b[j - w.len()]);
                }
            }
        }
    }
}

/// What an inscription made with the secret key `secret` on `satpoint`
/// consists of. The reveal script commits to the envelope under the key; the
/// commit transaction is what `build_commit` gave for the taproot output of
/// that script and the estimated reveal fee plus the postage; the reveal
/// spends the first commit output to that script (after the parent's output,
/// if any), pays out of it the fee `reveal_fee` gave for its signed size, and
/// carries a valid signature by the key over its script-path signature hash,
/// the script and the control block; the recovery key is the tweaked key;
/// the reveal is within the weight limit unless `no_limit`; and `total` is
/// the two fees over the wallet's outputs with the commit output recorded,
/// the reveal's being exactly its fee when the parent's output is recorded as
/// the parent's information says.
pub open spec fn inscription_made<
    B: FnOnce(SatPoint, Vec<u8>, u64) -> Option<Tx>,
    F: Fn(usize) -> u64,
>(
    secret: Seq<u8>,
    satpoint: SatPoint,
    parent_info: Option<ParentInfo>,
    envelope: Seq<u8>,
    utxos: Seq<(OutPoint, u64)>,
    destination: Seq<u8>,
    build_commit: B,
    reveal_fee: F,
    no_limit: bool,
    postage: u64,
    commit: Tx,
    reveal: SpecTx,
    recovery: Seq<u8>,
    total: u64,
) -> bool {
    let script = reveal_script_of(secret, envelope);
    let commit_script = taproot_output_script_of(secret, script);
    let control_block = taproot_control_block_of(secret, script);
    let parent = parent_view(parent_info);
    let ci = commit_input_of(parent);
    let spent = reveal.input[ci].previous_output;
    let value = commit@.output[spent.vout as int].value;
    let unsigned = unsigned_reveal(parent, destination, spent, value);
    let vsize = layout_vsize(parent, destination, script, control_block);
    let signature = reveal.input[ci].witness[0];
    let recorded = with_commit_recorded(utxos, commit@, reveal, ci);
    &&& first_output_with_script(commit@.output, commit_script) == Some(spent.vout as int)
    &&& spent.txid.bytes@ == transaction_txid_bytes(commit@)
    &&& signature.len() == 64
    &&& exists|estimate: u64, fee: u64|
        #![trigger fee_charged(reveal_fee, vsize, estimate), fee_charged(reveal_fee, vsize, fee)]
        {
            &&& fee_charged(reveal_fee, vsize, estimate)
            &&& estimate + postage <= u64::MAX
            &&& commit_built_by(build_commit, satpoint, commit_script, (estimate + postage) as u64, commit)
            &&& fee_charged(reveal_fee, vsize, fee)
            &&& completion_outcome(unsigned, ci, fee, script, control_block, commit@, utxos, no_limit) is Ok
            &&& reveal == signed_reveal(parent, destination, spent, value, fee, seq![signature, script, control_block])
            &&& schnorr_signature_valid(
                x_only_public_key_of(secret),
                script_spend_sighash_of(
                    paid_reveal(unsigned, ci, fee),
                    ci as nat,
                    spec_reveal_prevouts(commit@, parent_info),
                    script,
                ),
                signature,
            )
            &&& parent_accounted(parent, utxos, spent, value) ==> spec_fee(reveal, recorded) == fee
        }
    &&& recovery == recovery_secret_key_of(secret, script)
    &&& valid_secret_key(recovery)
    &&& key_path_script_of(recovery) == commit_script
    &&& !no_limit ==> transaction_weight_units(reveal) <= 400_000
    &&& total == spec_fee(commit@, recorded) + spec_fee(reveal, recorded)
}

/// Why an inscription with the secret key `secret` on `satpoint` is refused
/// with `e`: the estimated reveal fee plus the postage overflows; or, for a
/// target that is an estimate `reveal_fee` may give plus the postage, the
/// commit builder gives nothing for that target, or the commit it gives has
/// no output to the commit script within the range of output indices, or,
/// for that commit and the fee `reveal_fee` may give, completing the pointed
/// reveal is refused with `e`.
pub open spec fn inscription_refused<
    B: FnOnce(SatPoint, Vec<u8>, u64) -> Option<Tx>,
    F: Fn(usize) -> u64,
>(
    secret: Seq<u8>,
    satpoint: SatPoint,
    parent_info: Option<ParentInfo>,
    envelope: Seq<u8>,
    utxos: Seq<(OutPoint, u64)>,
    destination: Seq<u8>,
    build_commit: B,
    reveal_fee: F,
    no_limit: bool,
    postage: u64,
    e: InscribeError,
) -> bool {
    let script = reveal_script_of(secret, envelope);
    let commit_script = taproot_output_script_of(secret, script);
    let control_block = taproot_control_block_of(secret, script);
    let parent = parent_view(parent_info);
    let vsize = layout_vsize(parent, destination, script, control_block);
    if e is CommitTargetOverflow {
        exists|estimate: u64| #[trigger] fee_charged(reveal_fee, vsize, estimate) && estimate + postage > u64::MAX
    } else if e is CommitNotBuilt {
        exists|estimate: u64, target: u64|
            #![trigger fee_charged(reveal_fee, vsize, estimate), commit_refused_by(build_commit, satpoint, commit_script, target)]
            {
                &&& fee_charged(reveal_fee, vsize, estimate)
                &&& target == estimate + postage
                &&& commit_refused_by(build_commit, satpoint, commit_script, target)
            }
    } else if e is CommitOutputMissing {
        exists|estimate: u64, target: u64, commit: Tx|
            #![trigger fee_charged(reveal_fee, vsize, estimate), commit_built_by(build_commit, satpoint, commit_script, target, commit)]
            {
                &&& fee_charged(reveal_fee, vsize, estimate)
                &&& target == estimate + postage
                &&& commit_built_by(build_commit, satpoint, commit_script, target, commit)
                &&& (first_output_with_script(commit@.output, commit_script) is None
                    || first_output_with_script(commit@.output, commit_script)->Some_0 > u32::MAX)
            }
    } else {
        exists|estimate: u64, target: u64, commit: Tx, fee: u64, reveal: SpecTx|
            #![trigger fee_charged(reveal_fee, vsize, estimate), commit_built_by(build_commit, satpoint, commit_script, target, commit), fee_charged(reveal_fee, vsize, fee), reveal_pointed(parent, destination, commit@, commit_script, script, control_block, reveal, vsize)]
            {
                &&& fee_charged(reveal_fee, vsize, estimate)
                &&& target == estimate + postage
                &&& commit_built_by(build_commit, satpoint, commit_script, target, commit)
                &&& reveal_pointed(parent, destination, commit@, commit_script, script, control_block, reveal, vsize)
                &&& fee_charged(reveal_fee, vsize, fee)
                &&& completion_outcome(reveal, commit_input_of(parent), fee, script, control_block, commit@, utxos, no_limit) == Err::<(), InscribeError>(e)
            }
    }
}

/// A refusal that comes after the sat is chosen: from the commit, the
/// reveal's fee, the weight limit or the fees.
pub open spec fn is_inscribing_refusal(e: InscribeError) -> bool {
    ||| e is CommitTargetOverflow
    ||| e is CommitNotBuilt
    ||| e is CommitOutputMissing
    ||| e is InsufficientCommitValue
    ||| e is DustOutput
    ||| e is RevealTooHeavy
    ||| e is FeesNotComputable
}

impl Inscriber {
    /// Points the reveal at the commit transaction `commit`: the reveal's
    /// layout (the parent's output first when there is a parent), with the
    /// commit input spending the first commit output locked by
    /// `commit_script` and the destination receiving that output's value, and
    /// its virtual size once signed. Refused exactly when no commit output has
    /// that script, or the first one sits beyond the range of output indices.
    pub fn point_reveal(
        commit: &Tx,
        commit_script: &Vec<u8>,
        parent_info: &Option<ParentInfo>,
        destination: &Vec<u8>,
        script: &Vec<u8>,
        control_block: &Vec<u8>,
    ) -> (r: Result<(Tx, usize), InscribeError>)
        ensures
            r is Err <==> (first_output_with_script(commit@.output, commit_script@) is None
                || first_output_with_script(commit@.output, commit_script@)->Some_0 > u32::MAX),
            r is Err ==> r == Err::<(Tx, usize), InscribeError>(InscribeError::CommitOutputMissing),
            r matches Ok((reveal, vsize)) ==> reveal_pointed(
                parent_view(*parent_info),
                destination@,
                commit@,
                commit_script@,
                script@,
                control_block@,
                reveal@,
                vsize as int,
            ),
    {
        let (mut inputs, mut outputs, ci) = Self::reveal_inputs_and_outputs(parent_info, destination);
        let ghost parent = parent_view(*parent_info);
        let ghost layout_inputs = inputs@;
        let ghost layout_outputs = outputs@;
        assert(reveal_layout_holds(parent, destination@, layout_inputs, outputs_view(layout_outputs), ci as int));
        assert(outputs_view(layout_outputs).len() == layout_outputs.len());
        assert(ci < layout_inputs.len() && ci < layout_outputs.len());
        let vout = match Self::commit_output_position(commit, commit_script) {
            Some(v) => v,
            None => {
                return Err(InscribeError::CommitOutputMissing);
            },
        };
        if vout > 0xFFFF_FFFF {
            return Err(InscribeError::CommitOutputMissing);
        }
        proof {
            crate::reveal_tx::lemma_first_output_with_script(commit@.output, commit_script@);
            match parent {
                None => {},
                Some(_) => {},
            }
            assert(ci as int == commit_input_of(parent));
        }
        let found = Self::point_at_commit(commit, commit_script, &mut inputs, &mut outputs, ci, destination);
        assert(found);
        let ghost spent = inputs@[ci as int];
        let ghost value = commit@.output[vout as int].value;
        assert(outputs_view(outputs@) == outputs_view(layout_outputs).update(
            ci as int,
            SpecTxOut { value, script_pubkey: destination@ },
        ));
        proof {
            assert(spec_reveal_tx(inputs@, outputs_view(outputs@)) == unsigned_reveal(
                parent,
                destination@,
                spent,
                value,
            )) by {
                match parent {
                    None => {
                        assert(inputs@ =~= seq![spent]);
                        assert(outputs_view(outputs@) =~= seq![SpecTxOut { value, script_pubkey: destination@ }]);
                    },
                    Some((location, parent_destination, parent_value)) => {
                        assert(inputs@ =~= seq![location, spent]);
                        assert(outputs_view(outputs@) =~= seq![
                            SpecTxOut { value: parent_value, script_pubkey: parent_destination },
                            SpecTxOut { value, script_pubkey: destination@ },
                        ]);
                    },
                }
            }
        }
        let (reveal, vsize) = Self::build_reveal_transaction(control_block, inputs, ci, outputs, script);
        proof {
            lemma_reveal_sizes(parent, destination@, any_outpoint(), 0, spent, value, script@, control_block@);
            assert(reveal@.input[ci as int].previous_output == spent);
        }
        Ok((reveal, vsize))
    }

    /// Completes the pointed reveal: pays `fee` out of the commit-side
    /// output, signs the commit input's script path with the key `secret`
    /// over the outputs the reveal spends (the parent's output, then the
    /// commit transaction's first output), pushes signature, script and
    /// control block, checks the weight, and reckons the fees of `commit` and
    /// of the reveal with the commit output recorded among the wallet's
    /// outputs. Refused exactly as `completion_outcome` says.
    pub fn sign_and_account(
        secret: &[u8; 32],
        parent_info: &Option<ParentInfo>,
        script: &Vec<u8>,
        control_block: &Vec<u8>,
        commit: &Tx,
        reveal: Tx,
        fee: u64,
        utxos: UtxoMap,
        no_limit: bool,
    ) -> (r: Result<(Tx, [u8; 32], u64), InscribeError>)
        requires
            valid_secret_key(secret@),
            commit@.output.len() > 0,
            reveal@.input.len() == commit_input_of(parent_view(*parent_info)) + 1,
            reveal@.output.len() == commit_input_of(parent_view(*parent_info)) + 1,
            reveal@.output[commit_input_of(parent_view(*parent_info))].script_pubkey.len()
                <= u64::MAX / 4,
            reveal@.input[commit_input_of(parent_view(*parent_info))].previous_output.vout
                < commit@.output.len(),
        ensures
            completion_outcome(
                reveal@,
                commit_input_of(parent_view(*parent_info)),
                fee,
                script@,
                control_block@,
                commit@,
                utxos@,
                no_limit,
            ) matches Err(e) ==> r == Err::<(Tx, [u8; 32], u64), InscribeError>(e),
            completion_outcome(
                reveal@,
                commit_input_of(parent_view(*parent_info)),
                fee,
                script@,
                control_block@,
                commit@,
                utxos@,
                no_limit,
            ) is Ok ==> r is Ok,
            r matches Ok((signed, recovery, total)) ==> ({
                let ci = commit_input_of(parent_view(*parent_info));
                let paid = paid_reveal(reveal@, ci, fee);
                let signature = signed@.input[ci].witness[reveal@.input[ci].witness.len() as int];
                let recorded = with_commit_recorded(utxos@, commit@, reveal@, ci);
                &&& signed@ == with_witness_items(paid, ci, seq![signature, script@, control_block@])
                &&& signature.len() == 64
                &&& schnorr_signature_valid(
                    x_only_public_key_of(secret@),
                    script_spend_sighash_of(
                        paid,
                        ci as nat,
                        spec_reveal_prevouts(commit@, *parent_info),
                        script@,
                    ),
                    signature,
                )
                &&& recovery@ == recovery_secret_key_of(secret@, script@)
                &&& valid_secret_key(recovery@)
                &&& key_path_script_of(recovery@) == taproot_output_script_of(secret@, script@)
                &&& !no_limit ==> transaction_weight_units(signed@) <= 400_000
                &&& total == spec_fee(commit@, recorded) + spec_fee(signed@, recorded)
                &&& spec_fee(signed@, recorded) == spec_fee(paid, recorded)
            }),
    {
        let ghost parent = parent_view(*parent_info);
        let ghost ci_spec = commit_input_of(parent);
        let ci: usize = if parent_info.is_some() {
            1
        } else {
            0
        };
        assert(ci == ci_spec);
        let ghost unsigned = reveal@;
        let ghost outcome = completion_outcome(unsigned, ci_spec, fee, script@, control_block@, commit@, utxos@, no_limit);
        let mut utxos = utxos;
        let ghost utxos0 = utxos@;
        let mut reveal = reveal;
        match Self::pay_reveal_fee(&mut reveal, ci, fee) {
            Ok(()) => {},
            Err(e) => {
                return Err(e);
            },
        }
        let ghost paid = reveal@;
        assert(paid == paid_reveal(unsigned, ci_spec, fee));
        let prevouts = Self::reveal_prevouts(commit, parent_info);
        proof {
            match parent_info {
                Some(_) => {},
                None => {},
            }
            assert(prevouts@.len() == outputs_view(prevouts@).len());
        }
        let sighash = script_spend_sighash(&reveal, ci, &prevouts, script);
        let signature = sign_schnorr(secret, &sighash);
        let ghost signature_bytes = signature@;
        Self::attach_reveal_witness(&mut reveal, ci, signature, script, control_block);
        let (recovery, _) = recovery_key(secret, script);
        proof {
            let w = unsigned.input[ci_spec].witness;
            assert(reveal@.input[ci_spec].witness[w.len() as int] == signature_bytes);
            lemma_witness_sizes(
                paid,
                ci_spec,
                seq![placeholder_signature(), script@, control_block@],
                seq![signature_bytes, script@, control_block@],
            );
        }
        match Self::check_reveal_weight(&reveal, no_limit) {
            Ok(()) => {},
            Err(e) => {
                return Err(e);
            },
        }
        Self::record_commit_output(&mut utxos, commit, &reveal, ci);
        assert(utxos@ == with_commit_recorded(utxos0, commit@, unsigned, ci_spec));
        proof {
            assert forall|i: int| 0 <= i < reveal@.input.len() implies (#[trigger] reveal@.input[i]).previous_output
                == paid.input[i].previous_output by {}
            assert forall|i: int| 0 <= i < reveal@.output.len() implies (#[trigger] reveal@.output[i]).value
                == paid.output[i].value by {}
            lemma_fee_by_outpoints_and_values(reveal@, paid, utxos@);
        }
        let commit_fee = match Self::fee_if_computable(commit, &utxos) {
            Some(f) => f,
            None => {
                return Err(InscribeError::FeesNotComputable);
            },
        };
        let reveal_paid = match Self::fee_if_computable(&reveal, &utxos) {
            Some(f) => f,
            None => {
                return Err(InscribeError::FeesNotComputable);
            },
        };
        let total = match commit_fee.checked_add(reveal_paid) {
            Some(t) => t,
            None => {
                return Err(InscribeError::FeesNotComputable);
            },
        };
        Ok((reveal, recovery, total))
    }

    /// Makes an inscription on `satpoint` with the secret key `secret`: the
    /// commit transaction that `build_commit` builds to the taproot output of
    /// the reveal script, the signed reveal that spends it, the recovery key,
    /// and the fees of both. `reveal_fee` prices a reveal of a virtual size,
    /// first to set the commit's target (with the postage), then to pay the
    /// reveal. A refusal comes exactly as `inscription_refused` describes:
    /// the target overflows, `build_commit` gives nothing, the commit lacks
    /// the commit output, or completing the reveal is refused.
    pub fn inscribe_with_key<B: FnOnce(SatPoint, Vec<u8>, u64) -> Option<Tx>, F: Fn(usize) -> u64>(
        secret: [u8; 32],
        satpoint: SatPoint,
        parent_info: Option<ParentInfo>,
        envelope: &Vec<u8>,
        utxos: UtxoMap,
        destination: &Vec<u8>,
        build_commit: B,
        reveal_fee: F,
        no_limit: bool,
        postage: u64,
    ) -> (r: Result<(Tx, Tx, [u8; 32], u64), InscribeError>)
        requires
            valid_secret_key(secret@),
            destination@.len() <= u64::MAX / 4,
            forall|sp: SatPoint, s: Vec<u8>, v: u64| call_requires(build_commit, (sp, s, v)),
            forall|n: usize| call_requires(reveal_fee, (n,)),
        ensures
            r matches Ok((commit, reveal, recovery, total)) ==> inscription_made(
                secret@,
                satpoint,
                parent_info,
                envelope@,
                utxos@,
                destination@,
                build_commit,
                reveal_fee,
                no_limit,
                postage,
                commit,
                reveal@,
                recovery@,
                total,
            ),
            r matches Err(e) ==> is_inscribing_refusal(e) && inscription_refused(
                secret@,
                satpoint,
                parent_info,
                envelope@,
                utxos@,
                destination@,
                build_commit,
                reveal_fee,
                no_limit,
                postage,
                e,
            ),
    {
        let key = x_only_public_key(&secret);
        let mut script = checksig_script(&key);
        let mut tail = envelope.clone();
        assert(tail@ == envelope@);
        script.append(&mut tail);
        assert(script@ == reveal_script_of(secret@, envelope@));
        let (commit_script, control_block) = taproot_commitment(&secret, &script);
        let ghost parent = parent_view(parent_info);
        let ghost vsize_spec = layout_vsize(parent, destination@, script@, control_block@);
        let (inputs, outputs, ci) = Self::reveal_inputs_and_outputs(&parent_info, destination);
        let ghost layout_inputs = inputs@;
        let ghost layout_outputs = outputs@;
        assert(reveal_layout_holds(parent, destination@, layout_inputs, outputs_view(layout_outputs), ci as int));
        proof {
            assert(spec_reveal_tx(layout_inputs, outputs_view(layout_outputs)) == unsigned_reveal(
                parent,
                destination@,
                layout_inputs[ci as int],
                0,
            )) by {
                match parent {
                    None => {
                        assert(layout_inputs =~= seq![layout_inputs[0]]);
                    },
                    Some((location, parent_destination, parent_value)) => {
                        assert(layout_inputs =~= seq![location, layout_inputs[1]]);
                    },
                }
            }
            lemma_reveal_sizes(parent, destination@, any_outpoint(), 0, layout_inputs[ci as int], 0, script@, control_block@);
        }
        let (_, estimate_vsize) = Self::build_reveal_transaction(&control_block, inputs, ci, outputs, &script);
        assert(estimate_vsize == vsize_spec);
        let estimate = reveal_fee(estimate_vsize);
        assert(fee_charged(reveal_fee, vsize_spec, estimate));
        let target = match estimate.checked_add(postage) {
            Some(t) => t,
            None => {
                return Err(InscribeError::CommitTargetOverflow);
            },
        };
        let asked = commit_script.clone();
        let ghost asked_view = asked;
        let commit = match build_commit(satpoint, asked, target) {
            Some(c) => c,
            None => {
                assert(call_ensures(build_commit, (satpoint, asked_view, target), None::<Tx>));
                assert(commit_refused_by(build_commit, satpoint, commit_script@, target));
                return Err(InscribeError::CommitNotBuilt);
            },
        };
        assert(call_ensures(build_commit, (satpoint, asked_view, target), Some(commit)));
        assert(commit_built_by(build_commit, satpoint, commit_script@, target, commit));
        let (reveal, vsize) = match Self::point_reveal(
            &commit,
            &commit_script,
            &parent_info,
            destination,
            &script,
            &control_block,
        ) {
            Ok(p) => p,
            Err(e) => {
                return Err(e);
            },
        };
        let fee = reveal_fee(vsize);
        assert(fee_charged(reveal_fee, vsize_spec, fee));
        let ghost unsigned = reveal@;
        let ghost ci_spec = commit_input_of(parent);
        let ghost spent = unsigned.input[ci_spec].previous_output;
        let ghost value = commit@.output[spent.vout as int].value;
        proof {
            crate::reveal_tx::lemma_first_output_with_script(commit@.output, commit_script@);
            match parent {
                None => {},
                Some(_) => {},
            }
            assert(ci == ci_spec);
            assert(reveal_pointed(parent, destination@, commit@, commit_script@, script@, control_block@, unsigned, vsize_spec));
        }
        match Self::sign_and_account(
            &secret,
            &parent_info,
            &script,
            &control_block,
            &commit,
            reveal,
            fee,
            utxos,
            no_limit,
        ) {
            Err(e) => {
                assert(completion_outcome(unsigned, ci_spec, fee, script@, control_block@, commit@, utxos@, no_limit) == Err::<(), InscribeError>(e));
                return Err(e);
            },
            Ok((signed, recovery, total)) => {
                proof {
                    let signature = signed@.input[ci_spec].witness[0];
                    let witness = seq![signature, script@, control_block@];
                    assert(unsigned.input[ci_spec].witness.len() == 0);
                    assert(signed@ == signed_reveal(parent, destination@, spent, value, fee, witness));
                    assert(signed@.input[ci_spec].previous_output == spent);
                    if parent_accounted(parent, utxos@, spent, value) {
                        law_reveal_pays_its_fee(parent, destination@, spent, value, fee, utxos@, witness);
                    }
                }
                Ok((commit, signed, recovery, total))
            },
        }
    }

    /// Builds the commit and reveal transactions of an inscription and signs
    /// the reveal with a fresh random key: the sat is chosen and checked as
    /// `select_satpoint` does, and a refusal there is returned as it is;
    /// otherwise the inscription is made, or refused, as `inscribe_with_key`
    /// does with a valid secret key that the result does not reveal.
    pub fn create_inscription_transactions<
        B: FnOnce(SatPoint, Vec<u8>, u64) -> Option<Tx>,
        F: Fn(usize) -> u64,
    >(
        satpoint: Option<SatPoint>,
        parent_info: Option<ParentInfo>,
        envelope: &Vec<u8>,
        inscriptions: &InscriptionMap,
        utxos: UtxoMap,
        destination: &Vec<u8>,
        build_commit: B,
        reveal_fee: F,
        no_limit: bool,
        reinscribe: bool,
        postage: u64,
    ) -> (r: Result<(Tx, Tx, [u8; 32], u64), InscribeError>)
        requires
            destination@.len() <= u64::MAX / 4,
            forall|sp: SatPoint, s: Vec<u8>, v: u64| call_requires(build_commit, (sp, s, v)),
            forall|n: usize| call_requires(reveal_fee, (n,)),
        ensures
            spec_select_satpoint(satpoint, inscriptions@, utxos@, reinscribe) matches Err(e) ==> r
                == Err::<(Tx, Tx, [u8; 32], u64), InscribeError>(e),
            r matches Ok((commit, reveal, recovery, total)) ==> {
                &&& spec_select_satpoint(satpoint, inscriptions@, utxos@, reinscribe) is Ok
                &&& exists|secret: Seq<u8>|
                    valid_secret_key(secret) && #[trigger] inscription_made(
                        secret,
                        spec_select_satpoint(satpoint, inscriptions@, utxos@, reinscribe)->Ok_0,
                        parent_info,
                        envelope@,
                        utxos@,
                        destination@,
                        build_commit,
                        reveal_fee,
                        no_limit,
                        postage,
                        commit,
                        reveal@,
                        recovery@,
                        total,
                    )
            },
            r matches Err(e) ==> spec_select_satpoint(satpoint, inscriptions@, utxos@, reinscribe)
                == Err::<SatPoint, InscribeError>(e) || {
                &&& spec_select_satpoint(satpoint, inscriptions@, utxos@, reinscribe) is Ok
                &&& is_inscribing_refusal(e)
                &&& exists|secret: Seq<u8>|
                    valid_secret_key(secret) && #[trigger] inscription_refused(
                        secret,
                        spec_select_satpoint(satpoint, inscriptions@, utxos@, reinscribe)->Ok_0,
                        parent_info,
                        envelope@,
                        utxos@,
                        destination@,
                        build_commit,
                        reveal_fee,
                        no_limit,
                        postage,
                        e,
                    )
            },
    {
        let chosen = match Self::select_satpoint(satpoint, inscriptions, &utxos, reinscribe) {
            Ok(sp) => sp,
            Err(e) => {
                return Err(e);
            },
        };
        let secret = generate_secret_key();
        let ghost utxos0 = utxos@;
        let r = Self::inscribe_with_key(
            secret,
            chosen,
            parent_info,
            envelope,
            utxos,
            destination,
            build_commit,
            reveal_fee,
            no_limit,
            postage,
        );
        assert(r is Ok ==> inscription_made(
            secret@,
            chosen,
            parent_info,
            envelope@,
            utxos0,
            destination@,
            build_commit,
            reveal_fee,
            no_limit,
            postage,
            r->Ok_0.0,
            r->Ok_0.1@,
            r->Ok_0.2@,
            r->Ok_0.3,
        ));
        assert(r is Err ==> inscription_refused(
            secret@,
            chosen,
            parent_info,
            envelope@,
            utxos0,
            destination@,
            build_commit,
            reveal_fee,
            no_limit,
            postage,
            r->Err_0,
        ));
        r
    }
}

} // verus!
