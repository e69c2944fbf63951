# chess_server

A small chess web service: visitors register, sign in and play against a chess
engine over a WebSocket.

- `src/` is the library, written in Verus and verified:
  - `models` — the session store and the account store, whose entries can be
    listed (with the invariant that
    every username leads to an account);
  - `utils` — the password/session hash (SHA-256, unpadded base64);
  - `routing` — what each page decides: registration, sign-in, sign-out,
    username lookups, the home page and the game page;
  - `game` — the browser's move format, its translation to the chess crate's
    square numbering, and the bot game state machine (every recorded move is legal);
  - `stockfish_interface` — engine admission counting, the UCI `position` command
    and reading the engine's `bestmove` line.
- `app/` is the Rocket server around it: routes, cookies, templates, the WebSocket
  loop and the engine process.
- `tests/` runs the library on concrete cases.
