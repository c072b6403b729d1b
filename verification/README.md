# keepme

The logic of the Keep.me asset-control server, verified with Verus.

- `src/utils.rs`: reading UTF-8 buffers and splitting request paths into
  segments, with the laws of splitting (segments are well formed, only slashes
  are lost, joining and splitting round-trip, splitting is idempotent).
- `src/identity/`: accounts with secp256k1 / Ethereum key pairs, identities and
  authentication.
- `src/wallets/bitcoin.rs`: Bitcoin Core JSON-RPC messages, wallet connection
  and request headers.
- `src/server.rs`: the HTTP API's routing table, CORS headers and login with
  signed JSON Web Tokens, and the server state `KeepmeCore`.
- `app/`: the program: hyper server (wrapping `KeepmeCore` for hyper's `Handler`) and client, JSON (de)serialisation and
  logging around the library.
