# pet_pvp

Rules of a small networked 2D brawler (authoritative server, predicting
client), written in Verus and proved against their contracts.

- `src/app_state.rs` — the application phases (Menu, Lobby, InGame,
  GameOver), the rule that physics runs only in a match, and the law that
  every transition moves one phase forward.
- `src/protocol.rs` — channel and protocol constants, the input record and
  the client/server messages. Floating-point fields travel as their
  IEEE-754 bit patterns.
- `src/server.rs` — the roster of connected players, the last applied
  input tick per player, connection events, validation of received inputs,
  the per-frame snapshot list and the server's start-of-game rule.
- `src/client.rs` — the frame counter, the buffer of unconfirmed inputs,
  input capture, reconciliation of server snapshots (pruning confirmed
  inputs), and the client's menu and game-start rules.
- `app/` — the Bevy programs (`server`, `client`, and the physics
  playground) that read the keyboard and the network, run the physics and
  the floating-point movement, and apply what the library decides.
- `tests/` — executable scenarios for the library.
