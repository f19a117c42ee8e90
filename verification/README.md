# turn_proxy

The decision logic of a UDP proxy that tunnels traffic through TURN/DTLS
providers, verified with Verus.

- `src/` is the verified library:
  - `client_config`, `server_config`: merging the command line into the
    configuration file, and provider defaults;
  - `address`: turning `ip:port` or `host:port` texts into socket addresses
    (port parsing, splitting at the last `:`, the lookup plan), the listening
    address and the client's outgoing interface;
  - `dns`: the name servers of the client's own resolver;
  - `balancer`, `worker`: the round-robin balanced connection over several
    sub-connections, its health bookkeeping, datagram hand-over, and the
    per-sub-connection reconnect state machine with its back-off;
  - `flow`: the state machine of one forwarding direction;
  - `listening`: the providers' priority order, the client's provider
    rotation and the server's accept decisions.
- `app/` is the unverified I/O around it: command-line parsing, file
  reading, TOML, DNS resolvers, the async connection types and loops, which
  perform what the library decides.
- `tests/` runs the library on concrete values.
