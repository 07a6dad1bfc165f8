# anchor_token

The Anchor token (ANC) contracts for CosmWasm, with their logic verified by
Verus.

- `src/` is the verified library. Each contract's steps are functions from
  the values the contract reads from its store to the values it writes back
  (or the error it answers with), with `requires`/`ensures` contracts over
  mathematical models:
  - `voting_escrow`: locks, user and total voting power checkpoints, the
    scheduled slope changes, voting power queries;
  - `gauge_controller`: gauge weights, their decay and history;
  - `staking` and `schedule`: rewards released along distribution schedules
    and shared through a global reward index;
  - `vesting`: vesting accounts and claims;
  - `gov`: governance staking shares, voting rewards and withdrawals;
  - `airdrop`: Merkle roots and claims;
  - `distributor`, `collector`: whitelisted spending, the split between
    governance and the burn;
  - `math`, `tax`, `common`: fixed-point decimals, the stability tax, query
    order.
  Beside the functions stand the laws the contracts keep (`lemma_*` proof
  functions), and, for each function whose inputs must not overflow, a
  function that tests those inputs (`*_is_defined`).
- `app/` holds the contracts' entry points: storage, messages, queries to
  other contracts, and the conversions between the chain's types and the
  library's.
- `tests/` runs the library on concrete values.
