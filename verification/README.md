# grate_bot

The verified core of a Discord bot for the Grate server: Grateic Phone (a
drawing-and-prompt telephone game), Hytale server management, per-server
settings, and build verification.

- `src/` is the library, checked by Verus. `state.rs` is the game state
  machine, `games.rs` the table of running games (one per server, no player
  in two games), `game_laws.rs` the laws of a full and a short game,
  `submission.rs` turns a direct message into a submission, and `commands.rs`,
  `status.rs`, `messages.rs`, `choices.rs` produce the texts the bot sends.
  `hytale.rs` holds the Hytale configuration, script commands and replies,
  `hytale_config.rs` the edit of the server's `config.json` that sets the
  bot's password entry and keeps every other member,
  `settings.rs` the per-server settings with their read-after-write laws,
  and `bot.rs` the help text, build report and command channel rule.
- `app/` is the Discord program around it: slash commands, events, DMs,
  the settings file, the management script and the public address lookup.
- `tests/` runs the library on concrete cases.
