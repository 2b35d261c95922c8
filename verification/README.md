# smash

The rules of two Minecraft minigames, Super Smash Mobs and Bedwars, as a
library whose functions are proved against their contracts with Verus. Two
small wrappers around std (`String::push`, and `str`'s `Debug` formatting)
are trusted rather than proved; their contracts say what std documents.

What a game server decides rather than does lives here: the arena file
format and the blocks each brush covers, the chat commands' replies and
manifests, the sidebar, titles and build stamp, lives and who won, the kit
selector's podiums, the order abilities sit on the hotbar, and Bedwars' chat
cooldown, doors, bows, flight toggle and regeneration clock.

## Layout

- `src/` — the verified library. `map.rs` and `brush.rs` read arenas;
  `command.rs` answers `/kit`, `/kits`, `/abilities`, `/podiums` and
  `/crystal`; `scoreboard.rs`, `hud.rs`, `lives.rs`, `build_stamp.rs` and
  `selector.rs` decide what a player sees; `ability.rs`, `kit.rs`,
  `vitals.rs` and `arena.rs` hold the smaller rules; `bedwars/` is the second
  game; `text.rs` and `literal.rs` are the character and number primitives
  the rest is written with. Public `law_*` proof functions state what holds
  across calls.
- `tests/` — the library exercised on concrete values.
- `app/` — a small command-line program that reads arena files and a build
  stamp directory, and the floating-point rules (fall damage, regeneration
  rate, a bow's draw, tick-time averages) that the library leaves to its
  caller.
