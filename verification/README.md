# insights

Services that collect TF2 scrim logs from logs.tf, file them with the RGL teams of their
players, match them with demos from demos.tf, and analyze the demos for bomb attempts
(a soldier's or demoman's rocket jump into the enemy team: the damage dealt and taken,
and how the attempt ended).

## Layout

- `src/` is the verified library (Verus):
  - `attempt`, `ledger`, `tracker`: the bomb-attempt state machine; `analyzer` and
    `insights_analyzer` are its two configurations (two- and three-second timeouts,
    all hurt events or only those between two jumpers); `laws` holds its properties.
  - `summary`, `breakdown`: per-player tallies of the attempts of a demo.
  - `collect`, `ids`, `text`: log-id collection, id lists and decimal text.
  - `importer`, `assoc`, `rgl`: telling the two teams of a log apart and the
    player-to-team tables.
  - `steam_id`, `steam_account`: steam3 ids to 64-bit ids.
  - `db`, `log`, `demos`, `cache`, `urls`, `maps`: rows, records, addresses and map names.
- `tests/`: tests of the library.
- `app/`: the programs and AWS Lambda handlers around the library (HTTP, database,
  demo parsing), one subcommand each.
