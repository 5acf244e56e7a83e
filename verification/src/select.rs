//! Choosing the sat to inscribe.
use vstd::prelude::*;

use crate::inscriber::{InscribeError, Inscriber, InscriptionMap, UtxoMap};
use crate::laws::{
    law_first_cardinal_is_least, law_free_sat_is_accepted, law_refusals_name_their_cause,
    law_sat_refused_only_for_inscriptions, law_selected_sat_is_free,
};
use crate::order::MapKey;
use crate::sorted_map::{keys_increasing, lookup};
use crate::types::{InscriptionId, OutPoint, SatPoint};

verus! {

/// Some inscription sits on a sat of output `o`.
pub open spec fn outpoint_inscribed(inscriptions: Seq<(SatPoint, InscriptionId)>, o: OutPoint) -> bool {
    exists|i: int| 0 <= i < inscriptions.len() && (#[trigger] inscriptions[i]).0.outpoint == o
}

/// The first wallet output, in order, that carries no inscription.
pub open spec fn first_cardinal(
    utxos: Seq<(OutPoint, u64)>,
    inscriptions: Seq<(SatPoint, InscriptionId)>,
) -> Option<OutPoint>
    decreases utxos.len(),
{
    if utxos.len() == 0 {
        None
    } else if !outpoint_inscribed(inscriptions, utxos[0].0) {
        Some(utxos[0].0)
    } else {
        first_cardinal(utxos.drop_first(), inscriptions)
    }
}

/// Walks the inscriptions in order against the chosen sat: `Ok(found)` tells
/// whether the sat itself carries one, an error is the first conflict met.
pub open spec fn scan_inscriptions(
    inscriptions: Seq<(SatPoint, InscriptionId)>,
    satpoint: SatPoint,
    reinscribe: bool,
) -> Result<bool, InscribeError>
    decreases inscriptions.len(),
{
    if inscriptions.len() == 0 {
        Ok(false)
    } else {
        let (inscribed, id) = inscriptions[0];
        if inscribed == satpoint {
            if reinscribe {
                match scan_inscriptions(inscriptions.drop_first(), satpoint, reinscribe) {
                    Ok(_) => Ok(true),
                    Err(e) => Err(e),
                }
            } else {
                Err(InscribeError::SatAlreadyInscribed { satpoint })
            }
        } else if inscribed.outpoint == satpoint.outpoint {
            Err(
                InscribeError::UtxoAlreadyInscribed {
                    outpoint: satpoint.outpoint,
                    inscription: id,
                    inscribed,
                },
            )
        } else {
            scan_inscriptions(inscriptions.drop_first(), satpoint, reinscribe)
        }
    }
}

/// The sat to inscribe: the one given, or else the first sat of the first
/// wallet output without inscriptions; refused when it conflicts with an
/// existing inscription or when a reinscription is asked for but this is none.
pub open spec fn spec_select_satpoint(
    satpoint: Option<SatPoint>,
    inscriptions: Seq<(SatPoint, InscriptionId)>,
    utxos: Seq<(OutPoint, u64)>,
    reinscribe: bool,
) -> Result<SatPoint, InscribeError> {
    let chosen = match satpoint {
        Some(sp) => Some(sp),
        None => match first_cardinal(utxos, inscriptions) {
            Some(o) => Some(SatPoint { outpoint: o, offset: 0 }),
            None => None,
        },
    };
    match chosen {
        None => Err(InscribeError::NoCardinalUtxos),
        Some(sp) => match scan_inscriptions(inscriptions, sp, reinscribe) {
            Err(e) => Err(e),
            Ok(found) => if reinscribe && !found {
                Err(InscribeError::NotAReinscription)
            } else {
                Ok(sp)
            },
        },
    }
}

/// Combines what was found before position `i` with the scan from `i` on.
pub open spec fn scan_with_found(r: Result<bool, InscribeError>, found: bool) -> Result<
    bool,
    InscribeError,
> {
    match r {
        Ok(f) => Ok(f || found),
        Err(e) => Err(e),
    }
}

impl Inscriber {
    /// Whether some inscription sits on a sat of output `o`.
    fn outpoint_inscribed(inscriptions: &InscriptionMap, o: &OutPoint) -> (r: bool)
        ensures
            r == outpoint_inscribed(inscriptions@, *o),
    {
        let n = inscriptions.len();
        let mut i: usize = 0;
        while i < n
            invariant
                n == inscriptions@.len(),
                i <= n,
                forall|j: int| 0 <= j < i ==> (#[trigger] inscriptions@[j]).0.outpoint != *o,
            decreases n - i,
        {
            let (sp, _) = inscriptions.entry_at(i);
            if sp.outpoint.equals(o) {
                return true;
            }
            i = i + 1;
        }
        false
    }

    /// The first wallet output, in order, that carries no inscription.
    fn first_cardinal(inscriptions: &InscriptionMap, utxos: &UtxoMap) -> (r: Option<OutPoint>)
        ensures
            r == first_cardinal(utxos@, inscriptions@),
            keys_increasing(utxos@),
    {
        let n = utxos.len();
        let mut i: usize = 0;
        assert(utxos@.skip(0) =~= utxos@);
        while i < n
            invariant
                n == utxos@.len(),
                i <= n,
                first_cardinal(utxos@, inscriptions@) == first_cardinal(
                    utxos@.skip(i as int),
                    inscriptions@,
                ),
            decreases n - i,
        {
            let (o, _) = utxos.entry_at(i);
            assert(utxos@.skip(i as int)[0] == utxos@[i as int]);
            assert(utxos@.skip(i as int).drop_first() =~= utxos@.skip(i + 1));
            if !Self::outpoint_inscribed(inscriptions, &o) {
                return Some(o);
            }
            i = i + 1;
        }
        None
    }

    /// Walks the inscriptions in order against the chosen sat.
    fn scan_inscriptions(inscriptions: &InscriptionMap, satpoint: &SatPoint, reinscribe: bool) -> (r:
        Result<bool, InscribeError>)
        ensures
            r == scan_inscriptions(inscriptions@, *satpoint, reinscribe),
    {
        let n = inscriptions.len();
        let mut i: usize = 0;
        let mut found = false;
        let ghost s = inscriptions@;
        assert(s.skip(0) =~= s);
        while i < n
            invariant
                s == inscriptions@,
                n == s.len(),
                i <= n,
                scan_inscriptions(s, *satpoint, reinscribe) == scan_with_found(
                    scan_inscriptions(s.skip(i as int), *satpoint, reinscribe),
                    found,
                ),
            decreases n - i,
        {
            let (inscribed, id) = inscriptions.entry_at(i);
            assert(s.skip(i as int)[0] == s[i as int]);
            assert(s.skip(i as int).drop_first() =~= s.skip(i + 1));
            if inscribed.equals(satpoint) {
                if reinscribe {
                    found = true;
                    i = i + 1;
                    continue;
                } else {
                    return Err(InscribeError::SatAlreadyInscribed { satpoint: *satpoint });
                }
            }
            if inscribed.outpoint.equals(&satpoint.outpoint) {
                return Err(
                    InscribeError::UtxoAlreadyInscribed {
                        outpoint: satpoint.outpoint,
                        inscription: id,
                        inscribed,
                    },
                );
            }
            i = i + 1;
        }
        Ok(found)
    }

    /// Chooses the sat to inscribe and checks it against the wallet's
    /// inscriptions: the given sat, or else the first sat of the first output
    /// without inscriptions. Refused when no such output exists, when the sat
    /// is already inscribed and `reinscribe` is off, when another sat of its
    /// output is inscribed, or when `reinscribe` is on but the sat is not
    /// inscribed.
    pub fn select_satpoint(
        satpoint: Option<SatPoint>,
        inscriptions: &InscriptionMap,
        utxos: &UtxoMap,
        reinscribe: bool,
    ) -> (r: Result<SatPoint, InscribeError>)
        ensures
            r == spec_select_satpoint(satpoint, inscriptions@, utxos@, reinscribe),
            r matches Ok(sp) ==> {
                &&& forall|i: int|
                    0 <= i < inscriptions@.len() && (#[trigger] inscriptions@[i]).0.outpoint
                        == sp.outpoint ==> reinscribe && inscriptions@[i].0 == sp
                &&& reinscribe ==> exists|i: int|
                    0 <= i < inscriptions@.len() && (#[trigger] inscriptions@[i]).0 == sp
                &&& !reinscribe ==> !outpoint_inscribed(inscriptions@, sp.outpoint)
            },
            satpoint matches Some(sp) ==> (!reinscribe && (forall|i: int|
                0 <= i < inscriptions@.len() ==> (#[trigger] inscriptions@[i]).0.outpoint
                    != sp.outpoint) ==> r == Ok::<SatPoint, InscribeError>(sp)),
            r matches Err(InscribeError::UtxoAlreadyInscribed { outpoint, inscription, inscribed }) ==> {
                &&& inscribed.outpoint == outpoint
                &&& exists|i: int|
                    0 <= i < inscriptions@.len() && #[trigger] inscriptions@[i] == (inscribed, inscription)
                &&& satpoint matches Some(given) ==> outpoint == given.outpoint && inscribed != given
            },
            satpoint is None ==> (r == Err::<SatPoint, InscribeError>(InscribeError::NoCardinalUtxos)
                <==> forall|i: int|
                0 <= i < utxos@.len() ==> outpoint_inscribed(inscriptions@, (#[trigger] utxos@[i]).0)),
            satpoint is None ==> (r matches Ok(sp) ==> {
                &&& sp.offset == 0
                &&& lookup(utxos@, sp.outpoint) is Some
                &&& forall|i: int|
                    0 <= i < utxos@.len() && !outpoint_inscribed(inscriptions@, (#[trigger] utxos@[i]).0)
                        ==> sp.outpoint == utxos@[i].0 || sp.outpoint.key_lt(utxos@[i].0)
            }),
    {
        proof {
            law_selected_sat_is_free(satpoint, inscriptions@, utxos@, reinscribe);
            law_refusals_name_their_cause(satpoint, inscriptions@, utxos@, reinscribe);
            if let Some(sp) = satpoint {
                if !reinscribe && forall|i: int|
                    0 <= i < inscriptions@.len() ==> (#[trigger] inscriptions@[i]).0.outpoint != sp.outpoint {
                    law_free_sat_is_accepted(sp, inscriptions@, utxos@);
                }
            }
            if let Some(o) = first_cardinal(utxos@, inscriptions@) {
                law_sat_refused_only_for_inscriptions(
                    inscriptions@,
                    SatPoint { outpoint: o, offset: 0 },
                    reinscribe,
                );
            }
        }
        let chosen = match satpoint {
            Some(sp) => sp,
            None => match Self::first_cardinal(inscriptions, utxos) {
                Some(o) => {
                    proof {
                        law_first_cardinal_is_least(utxos@, inscriptions@);
                    }
                    SatPoint { outpoint: o, offset: 0 }
                },
                None => {
                    proof {
                        law_first_cardinal_is_least(utxos@, inscriptions@);
                    }
                    return Err(InscribeError::NoCardinalUtxos);
                },
            },
        };
        match Self::scan_inscriptions(inscriptions, &chosen, reinscribe) {
            Err(e) => Err(e),
            Ok(found) => {
                if reinscribe && !found {
                    Err(InscribeError::NotAReinscription)
                } else {
                    Ok(chosen)
                }
            },
        }
    }
}

} // verus!
