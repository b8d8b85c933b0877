# substrate_ipfs

The runtime logic of three Substrate pallets that keep knowledge blocks on IPFS,
written in Verus and verified.

- `src/market.rs`: the knowledge market (permissions of knowledge blocks, listing them for sale).
- `src/knowledge.rs`: the knowledge pallet (creating and modifying knowledge blocks, the
  callback of the offchain worker, gateway URLs of stored files).
- `src/ipfs_core.rs`: IPFS commands, requests and responses, and the decisions of the
  offchain worker (request identifiers, locks, parsing of responses).
- `src/content.rs`: the content of a knowledge block and the `Sellable` trait.
- `src/rpc.rs`: the handle of the RPC methods.
- `src/storage.rs`: the key-value storage every pallet keeps its items in.
- `src/primitives.rs`: SCALE encoding, BLAKE2 hashing and UTF-8 validation.
- `src/dispatch.rs`: origins and dispatch errors.

Each pallet is a struct holding its storage and the events it deposited; each call is a
method whose contract gives the state after the call as a function of the state before.

`app/` holds the glue around the library: it drives the processing of command requests
against the node's offchain storage (through `sp_io`) and the local IPFS node, sends the
signed callbacks, and answers the RPC methods; the IPFS node, the keystore and the runtime
API are reached through traits that the embedding node implements.
