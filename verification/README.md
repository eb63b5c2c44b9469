# rust_tetris

The rules of a falling-block puzzle game, verified with Verus, and an SDL2
window around them.

- `src/pieces.rs`: the seven kinds of piece, their layouts in the four rotation
  states, the wall-kick tables and the colours.
- `src/playfield.rs`: collision tests, locking a piece, clearing full lines and
  the points they earn.
- `src/tetromino.rs`: new pieces at their spawn position (kinds drawn with
  `rand`) and rotation with wall kicks.
- `src/game.rs`: the game as a state machine whose methods answer player input
  and timer events, each keeping the state consistent.
- `src/render.rs`: the rectangles that draw a bordered block and bitmap text.
- `app/`: the SDL2 program: window, input, timers, font data and drawing.
