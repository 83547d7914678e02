# rustyhack

The server side of a small multiplayer rogue-like, with its game rules
written in Verus and proved against their contracts.

- `src/` is the verified library: reading map files into tile grids, map
  exits and spawn definitions, counting and respawning monsters, monster
  movement, the player requests (joining, logging out, moving, picking up,
  dropping, changing map), collisions with tiles and with other entities,
  levelling, and what is broadcast to which player. The laws that the game
  keeps across several calls are stated as public proof functions named
  `law_...`.
- `tests/` runs the library on concrete cases.
- `app/` is the program around it: the UDP and TCP sockets, the asset files,
  the entity store, the wire formats, and the combat and health rules, which
  compute with floating point.
