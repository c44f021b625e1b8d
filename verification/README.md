# yt_yapper

The verified core of YT-Yapper, a Discord music bot, written in Verus.

- `src/` is the library. It holds the per-channel track queues and the requests the queue
  task carries out on them (`queue`), the pages of a queue (`models::pagination`), the
  `H:MM:SS` times the bot shows and reads (`commands::utils`), what a `play` request asks
  for (`commands::music`) and the decisions of the other commands and player events.
  Every function there carries a contract that Verus proves; the `law_*` proof functions
  state properties that span several functions (first-in first-out queues, pages that
  partition a queue, times that read back as written).
- `app/` is the bot around it: Discord commands and events, the queue task's loop, the
  Spotify, Last.fm and database calls.
- `tests/` runs the library on concrete values.
