# tetris_sprint_lkp

A solver for the 40-line sprint of Techmino that looks for the run with the
fewest key presses, and writes it as a Techmino replay. The library is written
in Verus: its functions carry contracts that Verus proves.

## Layout

- `src/bagrng.rs`, `src/bagrng/techmino.rs`: Techmino's piece generator (a
  xorshift64* generator and a 7-bag shuffle) and the seed rule for sprints.
- `src/bitboard.rs` and `src/bitboard/`: the two boards, column heights for the
  beam search and a six-row cell board for the endgame, with piece drops and
  line clears; `src/bitboard/count.rs` counts their cells across a drop.
- `src/movegen.rs`: every placement of a piece, the keys each one costs, and
  the key sequences a replay plays for a path.
- `src/evaluator.rs`: the integer features of a board that the beam search
  weighs.
- `src/endgame.rs`: the exhaustive endgame search with its transposition
  table; `src/endgame/budget.rs` shows that its bound on the pieces still
  needed never cuts a solution.
- `src/search.rs`: the bookkeeping of the beam search: paths, the choice
  between solutions, the diversity buckets of a layer.
- `src/replay.rs`, `src/replay/`: the replay writers, the DAS rules they keep,
  and the Techmino file format (varints, zlib, base64).
- `app/`: the command-line program: seeds drawn at random, the parallel beam
  search with its floating-point scores, and the replay metadata.
- `tests/`: tests on concrete values.
