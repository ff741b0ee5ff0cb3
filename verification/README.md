# herobot

Moderation logic for a Discord server, verified with Verus.

- `src/` is the verified library: durations, case records and the `/cases`
  query, spam detection (honeypot, invites, image floods), channel purges,
  support tickets, the text of replies and log entries. Each public function
  states its result in its contract; the laws the commands promise (a written
  duration reads back as itself, searches match substrings, pinned messages are
  never purged, ticket counters are kept apart, ...) are public proof functions.
- `app/` is the bot around it: Discord commands and events, the SQLite store,
  timers. It hands the library plain values and acts on what comes back.
- `tests/` runs the library on concrete values.
