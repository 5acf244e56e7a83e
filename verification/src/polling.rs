//! What the polling loop decides for each paid content: skip it, refuse its
//! target, or inscribe it to the target's locking script.
use vstd::prelude::*;

use crate::inscriber::Inscriber;

verus! {

/// The chain the service inscribes on.
#[derive(Clone, Copy, Debug, PartialEq, Eq, Structural)]
pub enum Chain {
    Bitcoin,
    Testnet,
    Signet,
    Regtest,
}

/// The locking script of the address that `target` spells, when it parses as
/// an address and is valid on `chain`.
pub uninterp spec fn target_script(target: Seq<char>, chain: Chain) -> Option<Seq<u8>>;

/// `bitcoin::Address::<NetworkUnchecked>::from_str`, then `require_network`
/// for the chain's network, then `script_pubkey`: the named script, or
/// `None` when either step refuses the text.
#[verifier::external_body]
pub(crate) fn parse_target(target: &str, chain: Chain) -> (r: Option<Vec<u8>>)
    ensures
        r is None <==> target_script(target@, chain) is None,
        r matches Some(s) ==> target_script(target@, chain) == Some(s@),
{
    let network = match chain {
        Chain::Bitcoin => bitcoin::Network::Bitcoin,
        Chain::Testnet => bitcoin::Network::Testnet,
        Chain::Signet => bitcoin::Network::Signet,
        Chain::Regtest => bitcoin::Network::Regtest,
    };
    match target.parse::<bitcoin::Address<bitcoin::address::NetworkUnchecked>>() {
        Ok(address) => match address.require_network(network) {
            Ok(address) => Some(address.script_pubkey().into_bytes()),
            Err(_) => None,
        },
        Err(_) => None,
    }
}

/// What to do with one paid content.
#[derive(Debug)]
pub enum ItemStep {
    /// The content exceeds the chain's size limit: skip it.
    TooLarge,
    /// The target is no address valid on the chain: skip it.
    BadTarget,
    /// Inscribe the content to this locking script.
    Inscribe { destination: Vec<u8> },
}

impl Inscriber {
    /// Decides what to do with content of `content_len` bytes paid to
    /// `target`: content over the chain's limit is skipped first; then a
    /// target that is not an address of the chain is skipped; otherwise the
    /// content is inscribed to the target's locking script.
    pub fn item_step(content_len: usize, limit: Option<usize>, target: &str, chain: Chain) -> (r:
        ItemStep)
        ensures
            (limit matches Some(l) && content_len > l) ==> r is TooLarge,
            !(limit matches Some(l) && content_len > l) ==> match r {
                ItemStep::TooLarge => false,
                ItemStep::BadTarget => target_script(target@, chain) is None,
                ItemStep::Inscribe { destination } => target_script(target@, chain) == Some(
                    destination@,
                ),
            },
    {
        if Self::content_too_large(content_len, limit) {
            return ItemStep::TooLarge;
        }
        match parse_target(target, chain) {
            None => ItemStep::BadTarget,
            Some(destination) => ItemStep::Inscribe { destination },
        }
    }
}

} // verus!
