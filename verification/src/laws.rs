//! Properties that the inscribing steps keep together.
use vstd::prelude::*;

use crate::fees::{fee_computable, spec_fee, sum_input_values, sum_output_values};
use crate::reveal_tx::signed_reveal;
use crate::select::{first_cardinal, outpoint_inscribed, scan_inscriptions, spec_select_satpoint};
use crate::order::MapKey;
use crate::sorted_map::{keys_increasing, law_lookup_after_insert, law_lookup_other_after_insert, lookup, spec_insert};
use crate::inscriber::InscribeError;
use crate::types::{InscriptionId, OutPoint, SatPoint};

verus! {

proof fn lemma_scan_ok(inscriptions: Seq<(SatPoint, InscriptionId)>, satpoint: SatPoint, reinscribe: bool)
    ensures
        scan_inscriptions(inscriptions, satpoint, reinscribe) matches Ok(found) ==> {
            &&& forall|i: int|
                0 <= i < inscriptions.len() && (#[trigger] inscriptions[i]).0.outpoint
                    == satpoint.outpoint ==> reinscribe && inscriptions[i].0 == satpoint
            &&& found == exists|i: int|
                0 <= i < inscriptions.len() && (#[trigger] inscriptions[i]).0 == satpoint
        },
    decreases inscriptions.len(),
{
    if inscriptions.len() > 0 {
        let rest = inscriptions.drop_first();
        lemma_scan_ok(rest, satpoint, reinscribe);
        if let Ok(found) = scan_inscriptions(inscriptions, satpoint, reinscribe) {
            assert forall|i: int|
                0 <= i < inscriptions.len() && (#[trigger] inscriptions[i]).0.outpoint
                    == satpoint.outpoint implies reinscribe && inscriptions[i].0 == satpoint by {
                if i > 0 {
                    assert(inscriptions[i] == rest[i - 1]);
                }
            }
            if found {
                if inscriptions[0].0 != satpoint {
                    let k = choose|k: int| 0 <= k < rest.len() && (#[trigger] rest[k]).0 == satpoint;
                    assert(inscriptions[k + 1] == rest[k]);
                }
            } else {
                assert forall|i: int| 0 <= i < inscriptions.len() implies (
                #[trigger] inscriptions[i]).0 != satpoint by {
                    if i > 0 {
                        assert(inscriptions[i] == rest[i - 1]);
                    }
                }
            }
        }
    }
}

proof fn lemma_first_cardinal(utxos: Seq<(OutPoint, u64)>, inscriptions: Seq<(SatPoint, InscriptionId)>)
    ensures
        first_cardinal(utxos, inscriptions) matches Some(o) ==> {
            &&& lookup(utxos, o) is Some
            &&& !outpoint_inscribed(inscriptions, o)
        },
    decreases utxos.len(),
{
    if utxos.len() > 0 && outpoint_inscribed(inscriptions, utxos[0].0) {
        lemma_first_cardinal(utxos.drop_first(), inscriptions);
    }
}

/// Among the wallet's outputs in key order, the first that carries no
/// inscription is the least such output, and there is none exactly when every
/// output carries an inscription.
pub proof fn law_first_cardinal_is_least(
    utxos: Seq<(OutPoint, u64)>,
    inscriptions: Seq<(SatPoint, InscriptionId)>,
)
    requires
        keys_increasing(utxos),
    ensures
        first_cardinal(utxos, inscriptions) is None <==> forall|i: int|
            0 <= i < utxos.len() ==> outpoint_inscribed(inscriptions, (#[trigger] utxos[i]).0),
        first_cardinal(utxos, inscriptions) matches Some(o) ==> forall|i: int|
            0 <= i < utxos.len() && !outpoint_inscribed(inscriptions, (#[trigger] utxos[i]).0)
                ==> o == utxos[i].0 || o.key_lt(utxos[i].0),
    decreases utxos.len(),
{
    if utxos.len() > 0 {
        let t = utxos.drop_first();
        assert(keys_increasing(t)) by {
            assert forall|i: int, j: int| #![trigger t[i], t[j]] 0 <= i < j < t.len() implies t[i].0.key_lt(
                t[j].0,
            ) by {
                assert(t[i] == utxos[i + 1]);
                assert(t[j] == utxos[j + 1]);
            }
        }
        law_first_cardinal_is_least(t, inscriptions);
        if !outpoint_inscribed(inscriptions, utxos[0].0) {
            assert forall|i: int|
                0 <= i < utxos.len() && !outpoint_inscribed(inscriptions, (#[trigger] utxos[i]).0)
                    implies utxos[0].0 == utxos[i].0 || utxos[0].0.key_lt(utxos[i].0) by {
                if i > 0 {
                    assert(utxos[0].0.key_lt(utxos[i].0));
                }
            }
        } else {
            assert forall|i: int| 0 < i < utxos.len() implies #[trigger] utxos[i] == t[i - 1] by {}
            if first_cardinal(t, inscriptions) is None {
                assert forall|i: int| 0 <= i < utxos.len() implies outpoint_inscribed(
                    inscriptions,
                    (#[trigger] utxos[i]).0,
                ) by {
                    if i > 0 {
                        assert(utxos[i] == t[i - 1]);
                    }
                }
            }
        }
    }
}

/// Walking the inscriptions refuses a sat only for an inscription on it or
/// on its output.
pub proof fn law_sat_refused_only_for_inscriptions(
    inscriptions: Seq<(SatPoint, InscriptionId)>,
    satpoint: SatPoint,
    reinscribe: bool,
)
    ensures
        scan_inscriptions(inscriptions, satpoint, reinscribe) matches Err(e) ==> (
        e is SatAlreadyInscribed || e is UtxoAlreadyInscribed),
    decreases inscriptions.len(),
{
    if inscriptions.len() > 0 {
        law_sat_refused_only_for_inscriptions(inscriptions.drop_first(), satpoint, reinscribe);
    }
}

/// The sat chosen for an inscription never shares its output with another
/// inscribed sat; when reinscribing, the sat itself carries an inscription,
/// and otherwise its output carries none; and a sat chosen by the wallet is
/// the first sat of one of its outputs that carries no inscription.
pub proof fn law_selected_sat_is_free(
    satpoint: Option<SatPoint>,
    inscriptions: Seq<(SatPoint, InscriptionId)>,
    utxos: Seq<(OutPoint, u64)>,
    reinscribe: bool,
)
    ensures
        spec_select_satpoint(satpoint, inscriptions, utxos, reinscribe) matches Ok(sp) ==> {
            &&& forall|i: int|
                0 <= i < inscriptions.len() && (#[trigger] inscriptions[i]).0.outpoint
                    == sp.outpoint ==> reinscribe && inscriptions[i].0 == sp
            &&& reinscribe ==> exists|i: int|
                0 <= i < inscriptions.len() && (#[trigger] inscriptions[i]).0 == sp
            &&& !reinscribe ==> !outpoint_inscribed(inscriptions, sp.outpoint)
            &&& satpoint is None ==> lookup(utxos, sp.outpoint) is Some && sp.offset == 0
        },
{
    lemma_first_cardinal(utxos, inscriptions);
    if let Ok(sp) = spec_select_satpoint(satpoint, inscriptions, utxos, reinscribe) {
        lemma_scan_ok(inscriptions, sp, reinscribe);
    }
}

/// Once the reveal spends the commit output (and the parent's output, if
/// any), returns the parent's value to it, sends the commit value less `fee`
/// to the destination and carries any witness, its fee, reckoned over the
/// wallet's outputs with the commit output recorded, is exactly `fee`.
pub proof fn law_reveal_pays_its_fee(
    parent: Option<(OutPoint, Seq<u8>, u64)>,
    destination: Seq<u8>,
    commit_outpoint: OutPoint,
    commit_value: u64,
    fee: u64,
    utxos: Seq<(OutPoint, u64)>,
    witness: Seq<Seq<u8>>,
)
    requires
        fee <= commit_value,
        parent matches Some((location, _, value)) ==> {
            &&& location != commit_outpoint
            &&& lookup(utxos, location) == Some(value)
            &&& value + commit_value <= u64::MAX
        },
    ensures
        ({
            let reveal = signed_reveal(parent, destination, commit_outpoint, commit_value, fee, witness);
            let recorded = spec_insert(utxos, commit_outpoint, commit_value);
            fee_computable(reveal, recorded) && spec_fee(reveal, recorded) == fee
        }),
{
    let recorded = spec_insert(utxos, commit_outpoint, commit_value);
    let reveal = signed_reveal(parent, destination, commit_outpoint, commit_value, fee, witness);
    law_lookup_after_insert(utxos, commit_outpoint, commit_value);
    match parent {
        None => {
            assert(reveal.input.len() == 1);
            assert(reveal.input[0].previous_output == commit_outpoint);
            assert(reveal.input.drop_last().len() == 0);
            assert(sum_input_values(reveal.input.drop_last(), recorded) == 0);
            assert(reveal.input.last() == reveal.input[0]);
            assert(sum_input_values(reveal.input, recorded) == commit_value);
            assert(reveal.output.len() == 1);
            assert(reveal.output.drop_last().len() == 0);
            assert(sum_output_values(reveal.output.drop_last()) == 0);
            assert(reveal.output.last() == reveal.output[0]);
            assert(reveal.output[0].value == commit_value - fee);
            assert(sum_output_values(reveal.output) == commit_value - fee);
        },
        Some((location, parent_destination, value)) => {
            law_lookup_other_after_insert(utxos, commit_outpoint, commit_value, location);
            assert(reveal.input.len() == 2);
            assert(reveal.input[0].previous_output == location);
            assert(reveal.input[1].previous_output == commit_outpoint);
            let first_in = reveal.input.drop_last();
            assert(first_in.len() == 1 && first_in[0] == reveal.input[0]);
            assert(first_in.drop_last().len() == 0);
            assert(sum_input_values(first_in.drop_last(), recorded) == 0);
            assert(sum_input_values(first_in, recorded) == value);
            assert(sum_input_values(reveal.input, recorded) == value + commit_value);
            let first_out = reveal.output.drop_last();
            assert(first_out.len() == 1 && first_out[0] == reveal.output[0]);
            assert(first_out.drop_last().len() == 0);
            assert(sum_output_values(first_out.drop_last()) == 0);
            assert(sum_output_values(first_out) == value);
            assert(reveal.output[0].value == value);
            assert(reveal.output[1].value == commit_value - fee);
            assert(sum_output_values(reveal.output) == value + commit_value - fee);
        },
    }
}


/// The output the wallet picks is one of its outputs.
proof fn lemma_first_cardinal_member(utxos: Seq<(OutPoint, u64)>, inscriptions: Seq<(SatPoint, InscriptionId)>)
    ensures
        first_cardinal(utxos, inscriptions) matches Some(c) ==> exists|k: int|
            0 <= k < utxos.len() && (#[trigger] utxos[k]).0 == c,
    decreases utxos.len(),
{
    if utxos.len() > 0 {
        let rest = utxos.drop_first();
        lemma_first_cardinal_member(rest, inscriptions);
        if outpoint_inscribed(inscriptions, utxos[0].0) {
            if let Some(c) = first_cardinal(rest, inscriptions) {
                let k = choose|k: int| 0 <= k < rest.len() && (#[trigger] rest[k]).0 == c;
                assert(utxos[k + 1] == rest[k]);
            }
        }
    }
}

/// With no inscription on the sat's output, walking the inscriptions finds
/// no conflict and no inscription on the sat.
proof fn lemma_scan_free_output(
    inscriptions: Seq<(SatPoint, InscriptionId)>,
    satpoint: SatPoint,
    reinscribe: bool,
)
    requires
        forall|i: int| 0 <= i < inscriptions.len() ==> (#[trigger] inscriptions[i]).0.outpoint
            != satpoint.outpoint,
    ensures
        scan_inscriptions(inscriptions, satpoint, reinscribe) == Ok::<bool, InscribeError>(false),
    decreases inscriptions.len(),
{
    if inscriptions.len() > 0 {
        let rest = inscriptions.drop_first();
        assert forall|i: int| 0 <= i < rest.len() implies (#[trigger] rest[i]).0.outpoint
            != satpoint.outpoint by {
            assert(rest[i] == inscriptions[i + 1]);
        }
        assert(inscriptions[0].0.outpoint != satpoint.outpoint);
        lemma_scan_free_output(rest, satpoint, reinscribe);
    }
}

/// A given sat whose output (same transaction id and output index) carries
/// no inscription is accepted as it is when not reinscribing, whatever other
/// outputs, of the same transaction or not, carry.
pub proof fn law_free_sat_is_accepted(
    satpoint: SatPoint,
    inscriptions: Seq<(SatPoint, InscriptionId)>,
    utxos: Seq<(OutPoint, u64)>,
)
    requires
        forall|i: int| 0 <= i < inscriptions.len() ==> (#[trigger] inscriptions[i]).0.outpoint
            != satpoint.outpoint,
    ensures
        spec_select_satpoint(Some(satpoint), inscriptions, utxos, false) == Ok::<SatPoint, InscribeError>(satpoint),
{
    lemma_scan_free_output(inscriptions, satpoint, false);
}

/// When the wallet chooses, and `o` is the least of its outputs that carry no
/// inscription, the first sat of `o` is chosen and accepted when not
/// reinscribing, whatever other outputs carry.
pub proof fn law_least_free_output_is_chosen(
    inscriptions: Seq<(SatPoint, InscriptionId)>,
    utxos: Seq<(OutPoint, u64)>,
    o: OutPoint,
)
    requires
        keys_increasing(utxos),
        exists|j: int| 0 <= j < utxos.len() && (#[trigger] utxos[j]).0 == o,
        forall|i: int| 0 <= i < inscriptions.len() ==> (#[trigger] inscriptions[i]).0.outpoint != o,
        forall|j: int|
            0 <= j < utxos.len() && (#[trigger] utxos[j]).0 != o && (forall|i: int|
                0 <= i < inscriptions.len() ==> (#[trigger] inscriptions[i]).0.outpoint
                    != utxos[j].0) ==> o.key_lt(utxos[j].0),
    ensures
        spec_select_satpoint(None, inscriptions, utxos, false) == Ok::<SatPoint, InscribeError>(
            SatPoint { outpoint: o, offset: 0 },
        ),
{
    law_first_cardinal_is_least(utxos, inscriptions);
    let j = choose|j: int| 0 <= j < utxos.len() && (#[trigger] utxos[j]).0 == o;
    assert(!outpoint_inscribed(inscriptions, utxos[j].0));
    let c = first_cardinal(utxos, inscriptions).unwrap();
    lemma_first_cardinal_member(utxos, inscriptions);
    assert(c == o) by {
        let k = choose|k: int| 0 <= k < utxos.len() && (#[trigger] utxos[k]).0 == c;
        if c != o {
            assert(c.key_lt(o));
            assert(!outpoint_inscribed(inscriptions, c)) by {
                lemma_first_cardinal(utxos, inscriptions);
            }
            assert forall|i: int| 0 <= i < inscriptions.len() implies (#[trigger] inscriptions[i]).0.outpoint
                != utxos[k].0 by {}
            assert(o.key_lt(utxos[k].0));
            OutPoint::lemma_key_lt_transitive(c, o, c);
            OutPoint::lemma_key_lt_irreflexive(c);
        }
    }
    lemma_scan_free_output(inscriptions, SatPoint { outpoint: o, offset: 0 }, false);
}

/// Walking the inscriptions refuses the sat only for an entry that exists:
/// the sat itself, when not reinscribing, or another sat of the very same
/// output (same transaction id and output index).
proof fn lemma_scan_refusal_causes(
    inscriptions: Seq<(SatPoint, InscriptionId)>,
    satpoint: SatPoint,
    reinscribe: bool,
)
    ensures
        scan_inscriptions(inscriptions, satpoint, reinscribe) matches Err(e) ==> match e {
            InscribeError::SatAlreadyInscribed { satpoint: sp } => sp == satpoint && !reinscribe
                && exists|i: int| 0 <= i < inscriptions.len() && (#[trigger] inscriptions[i]).0 == sp,
            InscribeError::UtxoAlreadyInscribed { outpoint, inscription, inscribed } => {
                &&& outpoint == satpoint.outpoint
                &&& inscribed.outpoint == outpoint
                &&& inscribed != satpoint
                &&& exists|i: int|
                    0 <= i < inscriptions.len() && #[trigger] inscriptions[i] == (inscribed, inscription)
            },
            _ => false,
        },
    decreases inscriptions.len(),
{
    if inscriptions.len() > 0 {
        let rest = inscriptions.drop_first();
        lemma_scan_refusal_causes(rest, satpoint, reinscribe);
        assert forall|i: int| 0 <= i < rest.len() implies #[trigger] rest[i] == inscriptions[i + 1] by {}
        if let Err(e) = scan_inscriptions(rest, satpoint, reinscribe) {
            match e {
                InscribeError::SatAlreadyInscribed { satpoint: sp } => {
                    let i = choose|i: int| 0 <= i < rest.len() && (#[trigger] rest[i]).0 == sp;
                    assert(inscriptions[i + 1].0 == sp);
                },
                InscribeError::UtxoAlreadyInscribed { outpoint, inscription, inscribed } => {
                    let i = choose|i: int| 0 <= i < rest.len() && #[trigger] rest[i] == (inscribed, inscription);
                    assert(inscriptions[i + 1] == (inscribed, inscription));
                },
                _ => {},
            }
        }
        assert(inscriptions[0] == inscriptions[0]);
    }
}

/// With no wallet output chosen, every output carries an inscription.
proof fn lemma_no_cardinal(utxos: Seq<(OutPoint, u64)>, inscriptions: Seq<(SatPoint, InscriptionId)>)
    ensures
        first_cardinal(utxos, inscriptions) is None ==> forall|j: int|
            0 <= j < utxos.len() ==> outpoint_inscribed(inscriptions, (#[trigger] utxos[j]).0),
    decreases utxos.len(),
{
    if utxos.len() > 0 {
        let rest = utxos.drop_first();
        lemma_no_cardinal(rest, inscriptions);
        assert forall|j: int| 0 < j < utxos.len() implies #[trigger] utxos[j] == rest[j - 1] by {}
    }
}

/// Every refusal of a sat names its cause among the inputs: the wallet has no
/// output without inscriptions; the sat itself carries an inscription and
/// reinscribing is off; another sat of the very same output as the sat (same
/// transaction id and output index) carries the named inscription; or
/// reinscribing is on and no inscription sits on the given sat.
pub proof fn law_refusals_name_their_cause(
    satpoint: Option<SatPoint>,
    inscriptions: Seq<(SatPoint, InscriptionId)>,
    utxos: Seq<(OutPoint, u64)>,
    reinscribe: bool,
)
    ensures
        spec_select_satpoint(satpoint, inscriptions, utxos, reinscribe) matches Err(e) ==> match e {
            InscribeError::NoCardinalUtxos => satpoint is None && forall|j: int|
                0 <= j < utxos.len() ==> outpoint_inscribed(inscriptions, (#[trigger] utxos[j]).0),
            InscribeError::SatAlreadyInscribed { satpoint: sp } => {
                &&& !reinscribe
                &&& exists|i: int| 0 <= i < inscriptions.len() && (#[trigger] inscriptions[i]).0 == sp
                &&& satpoint matches Some(given) ==> sp == given
            },
            InscribeError::UtxoAlreadyInscribed { outpoint, inscription, inscribed } => {
                &&& inscribed.outpoint == outpoint
                &&& exists|i: int|
                    0 <= i < inscriptions.len() && #[trigger] inscriptions[i] == (inscribed, inscription)
                &&& satpoint matches Some(given) ==> outpoint == given.outpoint && inscribed != given
                &&& satpoint is None ==> lookup(utxos, outpoint) is Some
            },
            InscribeError::NotAReinscription => reinscribe && (satpoint matches Some(given) ==> forall|i: int|
                0 <= i < inscriptions.len() ==> (#[trigger] inscriptions[i]).0 != given),
            _ => false,
        },
{
    lemma_no_cardinal(utxos, inscriptions);
    lemma_first_cardinal(utxos, inscriptions);
    let chosen = match satpoint {
        Some(sp) => Some(sp),
        None => match first_cardinal(utxos, inscriptions) {
            Some(o) => Some(SatPoint { outpoint: o, offset: 0 }),
            None => None,
        },
    };
    if let Some(sp) = chosen {
        lemma_scan_refusal_causes(inscriptions, sp, reinscribe);
        lemma_scan_ok(inscriptions, sp, reinscribe);
    }
}

/// Reinscribing a given sat that carries an inscription, on an output whose
/// other sats carry none, is accepted as it is.
pub proof fn law_reinscription_is_accepted(
    satpoint: SatPoint,
    inscriptions: Seq<(SatPoint, InscriptionId)>,
    utxos: Seq<(OutPoint, u64)>,
)
    requires
        exists|i: int| 0 <= i < inscriptions.len() && (#[trigger] inscriptions[i]).0 == satpoint,
        forall|i: int|
            0 <= i < inscriptions.len() && (#[trigger] inscriptions[i]).0.outpoint == satpoint.outpoint
                ==> inscriptions[i].0 == satpoint,
    ensures
        spec_select_satpoint(Some(satpoint), inscriptions, utxos, true) == Ok::<SatPoint, InscribeError>(satpoint),
{
    lemma_scan_refusal_causes(inscriptions, satpoint, true);
    lemma_scan_ok(inscriptions, satpoint, true);
    if let Err(e) = scan_inscriptions(inscriptions, satpoint, true) {
        if let InscribeError::UtxoAlreadyInscribed { outpoint, inscription, inscribed } = e {
            let i = choose|i: int| 0 <= i < inscriptions.len() && #[trigger] inscriptions[i] == (inscribed, inscription);
            assert(inscriptions[i].0.outpoint == satpoint.outpoint);
        }
    }
}

} // verus!
