# Vortex

Cross-chain intent settlement on Stellar, with its rules proved in Verus.

Users submit swap intents ("1 ETH on Ethereum for at least 3 500 USDC on
Stellar"). Bonded solvers claim and fill them. A solver that claims an intent and
does not fill it in time is slashed, and the intent is open again.

## Layout

- `src/settlement/` - the settlement contract. `intent_rules.rs`, `solvers.rs`,
  `admin.rs` and `allowlist.rs` say what each call does, as a step from a state to
  a refusal or to a new state with effects; the methods of `IntentSettlement` are
  proved to do just that. `laws.rs`, `governance_laws.rs`, `footprint.rs` and
  `history.rs` prove what holds of all calls and all histories. `limits.rs` tells,
  before a call, whether its sums fit their types.
- `src/proof_registry.rs` - records of source-chain deposits, decoded from relayed
  messages.
- `src/solver_registry/` - staked bonds, reputation, and the tiers they earn.
- `src/host.rs` - the calls into the contract host: SHA-256 and XDR.
- `src/table.rs`, `src/tally.rs`, `src/encoding.rs`, `src/reputation.rs` - finite
  maps, sums over them, byte encodings, and the reputation formula.
- `app/` - the contracts as deployed: storage, authorization, transfers, events.
- `tests/` - scenarios on concrete values.

## How a call works

A call takes an `Invocation`: the ledger time, the contract's own address, and the
addresses that have authorized the call. It returns the effects that the ledger is
to carry out, in order, or an `Abort`: an error of the contract, or an address
whose authorization is still needed. A call that aborts leaves the state as it
was.
