# secret_santa

A Discord bot that runs a Secret Santa event: people join with a button,
write letters, are matched with a giftee, and submit their gift.

- `src/` is the verified library (Verus):
  - `phase.rs`: the three phases (Join, Swap, Read), their stored names,
    and the rules for moving between them;
  - `users.rs`: the table of participants and every statement on it
    (lookups, updates, matching in a circle, the matching order);
  - `table_laws.rs`: what holds across those statements;
  - `commands.rs`: the decisions of the bot's commands and join button;
  - `report.rs`: the status report and the text revealing the order;
  - `running.rs`: one multi-step action per user at a time.
- `app/` is the bot itself: Discord (poise, serenity), the SQLite
  database (rusqlite), and the runtime (tokio). Each command loads the
  table, lets the library decide and update it, stores it back and
  answers.
- `tests/` runs the library on concrete values.
