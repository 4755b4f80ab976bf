# optimal_sizing

Profit-maximizing trade sizing against decentralized-exchange pricing curves,
written in Verus: every sizing routine, pool constructor, ABI codec and text
format in `src/` carries a contract that Verus proves.

## Layout

- `src/decimal.rs` — `Dec`, a fixed-point decimal holding what
  `rust_decimal::Decimal` holds; its arithmetic is `rust_decimal`'s, called
  through trusted wrappers whose results are named in the contracts.
- `src/curves/` — the seven curve families (constant product, StableSwap,
  WooFi PMM, concentrated liquidity, weighted pools, DODO PMM, CryptoSwap):
  constructors, quotes and optimal sizing, each against its own spec.
- `src/profit.rs`, `src/gas.rs`, `src/slippage.rs`, `src/traits.rs`,
  `src/types.rs`, `src/error.rs` — shared sizing vocabulary.
- `src/route.rs` — multi-hop routes sized as a whole.
- `src/optimality.rs` — the exact-arithmetic laws behind the proven-optimal
  tier: constant-product gross profit rises to its peak and falls after it,
  also across the ranges of a concentrated-liquidity pool.
- `src/multicall.rs`, `src/integration.rs` — Multicall3 `aggregate3`
  calldata and result codec, ABI slot helpers, and the sizing of pools read
  from chain.
- `src/watch/` — the watcher's configuration, pool cache (a state machine
  over chain heads) and opportunity evaluation.
- `src/cli.rs`, `src/wasm.rs`, `src/bench.rs`, `src/text.rs` — route leg
  specifications, the text-in/text-out entry points used by the bindings,
  the grid-search comparison and its report, and integer text.
- `app/` — the programs (`cli`, `watch`, `integration`, `bench`) and the
  Python and WebAssembly bindings: argument parsing, files, network calls,
  timing and printing around the library.
- `tests/` — tests run against the compiled library.
