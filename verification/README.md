# rchess

A terminal chess client and the relay server its online games go through.

- `src/` is the library, verified with Verus: the board and its legal moves (`engine`), the
  search (`ai`, `tt`, `sort`), the opening book (`book`), move notation and PGN (`notation`,
  `pgn`, `export`), the settings file (`config`), analysis over UCI (`analysis`), puzzles
  (`puzzle`), the game state of the client (`game`, `play`, `ui_text`, `pieces`, `chat`,
  `network`), its game screen as a state machine (`client_game`: moves, undo, selection,
  promotion, typed moves, replay, draw offers and the server's messages), how each square
  of the board is drawn (`board_view`), the online setup screen (`online_setup`), the settings screen
  (`settings_screen`), and the server
  side: its protocol and rooms (`relay`), passwords, tokens and invite links (`auth`), rate limits (`buckets`, `room_chat`), the admin API (`admin`), room
  files (`persist`) and its settings (`server_config`). `config_law` and `persist_law` hold
  the proofs that the two file formats read back what they write.
- `app/` is the program around it: the ratatui client (with `--connect` for online games),
  the tokio server, the analysis thread and the puzzle fetcher.
- `tests/` runs the library on concrete games, files and server sessions.
