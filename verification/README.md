# prox casino

A terminal casino with blackjack and slots, played on virtual chips. The
game rules, the key handling, the frame-by-frame state of the casino and the
save's history live in the library under `src/`, where Verus proves their
contracts; `app/` runs the terminal, the clock and the save file around it.

- `src/games/` — the blackjack table and the slot machines
- `src/app/` — the casino's state: keys, frames, the feed and the books
- `src/models/`, `src/storage/`, `src/services/` — player, statistics, save paths
- `src/ui/` — the text the screens show
- `src/utils/` — number and chip formatting, text helpers
- `app/` — terminal drawing, input, save file I/O, the main loop
- `tests/` — tests of the library
