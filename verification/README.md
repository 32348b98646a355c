# mamut_chess

A terminal chess game between two people or against the Stockfish engine,
with its rules written as a library whose behaviour is stated and proved.

- `src/board.rs` — piece codes, the board, and the squares each piece may go to.
- `src/rules.rs` — check, checkmate, and whether a move may be played.
- `src/command.rs` — move commands `row:col>row:col` and algebraic squares.
- `src/turn.rs` — playing a move (between people or against the engine),
  promotion, and the engine's reply.
- `src/fen.rs` — the position in Forsyth-Edwards notation.
- `src/engine.rs` — the script that asks the engine, and reading its answer.
- `src/game.rs` — the game state and the decisions of the key loop.
- `src/laws.rs` — what every move keeps.
- `app/main.rs` — drawing, keys, and running the engine (terminal front end).
