# arcana_holdem

Verified game logic of a heads-up Texas Hold'em table whose cards are dealt
privately by a multi-party computation and revealed by the players at showdown.

- `src/` — the library, verified with Verus:
  - `shuffle`, `arcium_compute`, `encrypted_ixs`: the deal circuit's shuffle
    (a linear congruential generator driving oblivious swaps) and the masking of
    hole cards by XOR;
  - `hand`: scoring of five cards and the best five of seven;
  - `state`, `errors`: the table account, phases, actions, events, errors;
  - `instructions`: each instruction as a function from the accounts it reads
    to the updated table and what is left to transfer or report;
  - `keccak`: the hash that binds each mask to the table;
  - `protocol`: properties of the game as a whole (what every instruction keeps,
    where the chips go, what the players recover from the deal).
- `tests/`: tests on concrete values.
- `app/`: the Solana program around the library (account validation, lamport
  transfers, the deal request and callback, events).
