# openvpn_flutter_rust

OpenVPN management for the Windows side of a Flutter plugin, with its core
verified by Verus.

- `src/` is the verified library: how OpenVPN output, log and status lines
  move the connection stage and statistics, the configuration rewrite per
  Windows driver, the decisions taken while a connection is brought up
  (driver order, fallbacks, process liveness), the management interface
  protocol, and the Interactive Service wire format (UTF-16 startup buffer
  and reply parsing).  `text.rs` and `utf16.rs` hold the verified text and
  UTF-16 operations these are built on.
- `app/` is the unverified shell: the C entry points called from Dart, the
  Tokio runtime and background tasks, processes, files, sockets and the
  Win32 pipe calls.  Every decision it takes is a call into the library.
- `tests/` runs the library on concrete inputs.
