# monopoly_core

Networked Monopoly whose rules are a Verus-verified library.

- `src/` — the library, verified with Verus: board, players, dice, rent,
  buying and auctions, buildings and mortgages, jail, movement, trading,
  bankruptcy, card decks, board and deck loading, message framing, the
  server's lobby and message engine (`engine.rs`, with `guard.rs` deciding
  whether a message is in range), and the client's screen logic
  (`controls.rs`, `screens.rs`, and `panels.rs` for what the tooltips, the
  property cards and the action panel show). `laws.rs` proves properties that span
  several operations; `ownership.rs` proves that the board and the players'
  property lists agree at the start of a game and after every message.
- `tests/` — tests of the library on concrete games.
- `app/` — the program around the library: `monopoly server` hosts a game
  over TCP (tokio, bincode, TOML configuration), `monopoly client` opens the
  macroquad window. Drawing and pointer geometry use floating point and
  stay there.

The server reads `config/boards/standard.toml` and
`config/cards/standard.toml` when the host starts the game; the client reads
its theme from `config/ui.toml` if present.
