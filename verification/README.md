# inscriber

The verified core of a service that inscribes paid content on Bitcoin sats.

- `src/` — the library, verified with Verus:
  - `email.rs`: the main address of a labelled e-mail address;
  - `order.rs`, `sorted_map.rs`: ordered maps keyed by outputs and sats, as the
    wallet's outputs and inscriptions are kept;
  - `types.rs`: transaction ids, outputs, sats, inscriptions and transactions;
  - `inscriber.rs`: errors, results and small decisions of the service;
  - `select.rs`: choosing the sat to inscribe;
  - `reveal_tx.rs`: laying out, sizing, paying for and completing the reveal
    transaction;
  - `fees.rs`: fees of transactions over the wallet's outputs;
  - `inscribe.rs`: making an inscription from start to end: the sat, the
    taproot commitment, the commit, pointing the reveal at it, and paying,
    signing and accounting for the reveal, each step with the exact
    conditions of its refusals;
  - `polling.rs`: what the polling loop decides for each paid content;
  - `laws.rs`: properties the steps keep together;
  - `chain.rs`, `keys.rs`: the calls into the `bitcoin` crate (transactions,
    keys, taproot, signature hashes, signatures and wallet import format)
    and what is believed of them.
- `app/` — the runtime around it: the payments database, node calls, the
  commit transaction builder and fee rate, and conversion to the `bitcoin`
  crate's types.
- `tests/` — tests of the library.
