# openfront_client

A game client for OpenFront.io, split into a verified library and a thin
program around it.

`src/` is the library, checked by Verus:

- `map` — the tile map: row-major layout, terrain bits, per-tile owner and
  fallout words, neighbours and borders.
- `territory` — player colours and the RGBA territory texture painted from the
  map.
- `hex` — the hexagonal demonstration grid and its tile ownership.
- `world` — the demonstration map with its islands and starting territories.
- `state` — players, territories and units, and where a structure may be built.
- `schemas` — the messages exchanged with the server.
- `transport` — worker selection for a game, the messages the client sends, and
  the reconnecting socket loop as a state machine.
- `identity` — the client id and token, reused from storage or generated.
- `input`, `ui` — what keys and clicks mean, the menu and overlay state, and
  when the public-lobby listing is refreshed.

`app/` holds the engine systems, the socket and HTTP I/O, the JSON encodings
and everything drawn with floating point. `tests/` runs the library on
concrete values.
