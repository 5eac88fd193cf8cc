# ws-net

A WebSocket tunnel whose core is verified with Verus. One access process listens on local
ports and forwards TCP connections and HTTP requests through encrypted WebSocket connections
to one or more gateways, which reach the targets in their networks.

- `src/` is the verified library: configuration and routing, the frame format and its
  encryption, the handshake, the state of both ends of a connection, batching, forwarding
  decisions and HTTP header rules. Every function states what it does, and the functions
  named `law_...` state what holds of them together.
- `app/` holds the two programs around it (`access` and `gateway`): sockets, timers, files,
  JSON and TOML. It performs the steps that the library decides on.
- `tests/` runs the library on concrete values.

What is taken on trust stands in the functions marked `external_body`: the calls into `ring`
in `src/primitives.rs` (HKDF-SHA256, ChaCha20-Poly1305, X25519), those into `dashmap` in
`src/stream_table.rs`, and `std::str::from_utf8` in `src/frames.rs`.

```text
ws_net gateway --config gateway.toml
ws_net access --config access.toml
```

An access configuration names its gateways and the listeners that use them:

```toml
[access]
gateway_pool_size = 8

[[gateways]]
name = "primary"
server_url = "wss://gateway.example/tunnel"
token = "a strong random secret"

[[listeners]]
name = "mysql"
mode = "tcp"
gateway = "primary"
listen = "127.0.0.1:3308"
host = "10.0.0.10"
port = 3306
```

The matching gateway configuration:

```toml
[gateway]
listen = "0.0.0.0:8443"
path = "/tunnel"

[auth]
access_token = "a strong random secret"
```
