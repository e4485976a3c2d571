# AstraPort

The contracts of a portfolio platform, as a Verus library: prediction markets,
governance with a treasury, a tamper-evident audit log, fee management,
emergency controls, asset management and a price feed.

## Layout

- `src/base`: addresses, symbols, bytes, tables and arithmetic that the
  contracts share.
- `src/prediction`: markets, the constant-product pool, the order book,
  resolution and settlement.
- `src/governance`: proposals, votes, delegation, the timelock and the treasury.
- `src/audit`: the hash-chained log, queries, retention and exports.
- `src/fee`: fee structures, waivers, collection, distribution and reports.
- `src/emergency`: pause, safe mode, circuit breaker, rate limits, incidents.
- `src/asset`: portfolios of assets and their values.
- `src/pricefeed`: providers, validation, aggregation, cache and history.
- `tests`: the library as its callers see it.
- `app`: the contracts on the Soroban host.

## How a contract is modelled

Each contract works on an environment: plain values for its storage, the ledger
time, the addresses that authorised the call, and the events that it emits. The
view of an environment is a state of maps and sequences. Every entry point
states, as a function on states, what it returns and what it leaves behind, for
every outcome. What holds across entry points is proved in the `laws` module of
each contract. What holds after any sequence of calls is proved in the `history`
modules of assets, the audit log, fees, governance and the prediction markets.

The hash of the audit log comes from the Soroban host. Its value is named, not
described: the proofs hold for any hash function.
