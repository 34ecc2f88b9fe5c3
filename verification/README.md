# hodlers

Verified core of a pipeline that credits Stellar traders with points for
their XLM swaps on Phoenix.

- `src/phoenix.rs` — accumulates the fields of one swap from its contract
  events and decides the trader's signed XLM delta.
- `src/circuit.rs` — what the circuit component does per event: the state
  key, the payload to emit, the compare-and-swap retry decision.
- `src/xdr.rs`, `src/payload.rs`, `src/abi.rs` — the XDR and Ethereum-ABI
  encodings, through `stellar_xdr` and `alloy_sol_types`.
- `src/hodlers.rs` — the points ledger's arithmetic and its storage model.
- `src/handler.rs` — the envelope handler as a state machine over the
  results of its storage reads and contract calls, with its replay and
  authentication laws.
- `app/` — the Soroban contracts and WASI components that run the library
  against the host.
