# register

A cash register for Smålands Nation in Halmstad: a menu of items, receipts
rung up from it, the receipts of the last day, and sales summaries per
payment method.

- `src/` is the library, verified with Verus. It holds the register's data
  (items, receipts, summaries) and the decisions of its screens: what each
  event does to a screen's state and what it asks the program to do. The
  receipts are kept in `indexmap` maps and a summary's items in an
  `indexmap` set, reached through a few trusted wrappers in `src/lines.rs`
  and `src/sets.rs` whose contracts state what the crate's source does.
- `app/` is the program around it: the SQLite database (`rusqlite`), the
  PDF receipts and summaries (`genpdf`), the printer, and the user's folders.
  It reads rows into plain values, hands them to the library, and writes out
  what the library computes.
- `tests/` runs the library on concrete values.
