//! Verified core of an inscription service: the rules that pick the sat to
//! inscribe, lay out and finish the reveal transaction, account for fees,
//! and normalise e-mail addresses.

pub mod email;
pub mod order;
pub mod types;
pub mod sorted_map;
pub mod chain;
pub mod keys;
pub mod inscriber;
pub mod select;
pub mod reveal_tx;
pub mod fees;
pub mod inscribe;
pub mod laws;
pub mod polling;
