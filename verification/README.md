# kfilesync

A LAN file-sharing and folder-sync core: paired devices, shared folders with
per-member permissions, chunked transfers with resumable progress, version
vectors, sync planning with conflict copies, and the wire and storage formats
those use.

- `src/` is the verified library. Apart from small trusted wrappers around
  outside calls, whose contracts state what the outside code documents,
  every function there is verified, and its contract states what can be
  known of its result (constructors of unit types and the clock read have
  nothing to state). The domain model (`model/`), the pure services (`service/`), the
  per-step decisions of the application flows (`application/`), the protocol
  DTOs and text formats (`dto.rs`, `wire.rs`, `client.rs`, `server.rs`) and
  the security helpers (`security.rs`, `nonce_validator.rs`, `keystore.rs`)
  are proved against their specifications. Public `proof fn`s state the laws
  the library keeps (version-vector order, membership and permission rules,
  plan/permission agreement, round trips of stored names).
- `app/` is the unverified runtime around it: SQLite storage, the HTTPS peer
  server and client, mDNS and subnet discovery, the file watcher, keystores,
  and the async flows that carry out what the library decides.
- `tests/` exercises the library on concrete values.
