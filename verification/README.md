# mmo_server

The core of an MMO server emulator, verified with Verus.

- `src/` is the verified library: the length-prefixed framing and field readers of the
  wire protocol (`msg_util`), datagram messages (`message`), object deltas and
  acknowledgements (`objdelta`, `objack`), sessions and the session table (`session`,
  `global_state`), what the game server does with each datagram (`game_server`), and the
  login service's decisions and replies, and the reading of its PEM certificate and key
  files (`auth`, `auth_service`). Byte buffers of the
  `bytes` crate are seen through `buffer`, as the sequence of bytes they hold.
- `app/` runs the two services: the TLS listener, file reads and the SQLite user
  database for the login service,
  UDP sockets for the game server, and the command line (`auth` or `game`).
- `tests/` runs the library on concrete inputs.
