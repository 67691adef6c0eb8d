# microfinance_platform

A verified model of a microfinance lending platform built from small ledger
components: a lending pool with a vault per currency, an AI credit scorer and
its oracle, an interest rate calculator and its economic oracle, an insurance
pool, a reputation registry, an impact tracker and a cross-chain liquidity pool.

- `src/` is the library, verified with Verus. Each component is a module with
  its state, its invariant (`wf`) and its operations, each stated by
  `requires`/`ensures` over spec views. `decimal.rs` holds fixed-point
  arithmetic on the same 192-bit counts of attos as scrypto's `Decimal`, to
  which every operation is delegated; `set_sum.rs` holds
  order-independent sums used by liquidation; `laws.rs` holds properties that
  span operations.
- `tests/` exercises the library on concrete values.
- `app/` holds the ledger blueprints: they keep state on the ledger, move real
  vaults and buckets, call the other components, and leave every decision to
  the library.
