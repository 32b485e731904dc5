# pwasm_contract

Contracts that answer messages and keep their state in a store of 32-byte blocks, as a
library whose behaviour is stated in contracts and proved with Verus.

- `src/shim.rs`, `src/keys.rs`, `src/eth_state.rs`: the store, the keys that follow each
  other, and readers and writers of bytes in consecutive blocks. `src/eth_laws.rs` states
  what a reader gets back of what a writer stored.
- `src/wire*.rs`, `src/plain.rs`, `src/source.rs`, `src/digits.rs`: values and their bytes.
- `src/marker.rs`, `src/getter.rs`: one value of the state.
- `src/signature.rs`, `src/sol_arrays.rs`, `src/tuple_sig*.rs`, `src/message.rs`,
  `src/keccak.rs`: signatures, selectors and requests.
- `src/handlers.rs`, `src/response.rs`, `src/contract.rs`, `src/env.rs`: handlers,
  contracts and their environment. `src/contract_laws.rs` states which handler answers a
  call, and with what.
- `src/example.rs`: a contract with a running sum.
- `app/`: a store that the whole process shares, and contracts made of plain functions.
