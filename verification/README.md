# arbitro

The core of a DEX arbitrage engine for EVM chains, verified with Verus.

`src/` is the library. Every function in it has a contract that Verus
proves:

- `uint`, `address`: 256-bit numbers and addresses as limbs, with their
  numeric value as the model; arithmetic goes through `ethers` behind
  trusted wrappers.
- `tick_math`, `v2_pool`, `v3_pool_sim`, `v_pool_sim`: tick and bitmap
  math, Uniswap V3's square-root price of a tick (proved to grow strictly
  over the whole tick scale) and the tick of a price, and swap quotes of
  constant-product and concentrated-liquidity pools (the V3 quote as a walk
  over the pool's ticks).
- `abi`, `pool_action`, `block_decoder`: pool events read from logs,
  pending transactions decoded against the known ABIs, and the pool
  actions they stand for.
- `mapped_vec`, `keyed`, `pair`, `dex`, `factory`, `chain_src`, `seeker`,
  `arbitro`, `simulacrum`: the bookkeeping that ties pools to tokens,
  exchanges and factories.
- `mult_provider`, `chain_svc`, `ws_manager`, `supervisor`: the decisions
  of the retry loop, of the log subscriptions and of the supervisor.
- `anvil_test`: the input of the forge script that replays a trade path.

`app/` is the program around it: configuration, providers, websocket
subscriptions and contract calls, which hand plain values to the library.

`tests/` runs the library on concrete values.
