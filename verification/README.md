# CafeBot

A Discord bot for a small server: games for money (blackjack, coin flips, rock
paper scissors, scratch-off tickets), a daily streak, a shop, tic-tac-toe against
the bot, custom commands with text pipes, help pages, and a handful of fun replies.

- `src/` is the library, verified with Verus: every rule, game engine, text
  transformation and reply of the bot, each with its contract. The games are
  state machines: they take an event (a reaction, a timeout) and return the next
  state and the actions to carry out.
- `app/` is the program around it: the Discord client (serenity), the SQLite
  database (rusqlite), web requests for xkcd and Wikipedia, and the hourly
  interest job. It waits for events, hands them to the library and carries out
  what comes back.
- `tests/` runs the library on concrete values.
