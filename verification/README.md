# rvpnse

A SoftEther SSL-VPN client library whose logic is verified with Verus.

- `src/` — the verified library: the PACK and packet wire formats, the
  configuration rules, connection limits and retry bookkeeping, cluster node
  selection and failover, the client's state machine, the tunnel's addressing
  and the routing, DNS and interface commands it plans, the text readers for
  system command output, and the codes and buffers of the C interface. Calls
  into `ring`, `rand`, `fastrand`, `uuid`, `regex` and the standard library
  that Verus does not specify go through small trusted wrappers whose
  contracts are stated next to them.
- `app/` — the command-line client and the C interface around the library:
  TOML configuration files, the HTTPS exchanges, TLS, the TUN device and the
  execution of the planned system commands.
- `tests/` — tests of the library's public functions.
