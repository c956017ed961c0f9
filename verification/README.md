# ledger_ui

The page logic of a bookkeeping web front end (journal entries, opening
balances, products, roles, SAF-T export and account correspondences, scanned
invoices, reports, and the account pages), written in Verus with its
behaviour stated in `requires`/`ensures` contracts and proved.

- `src/` is the verified library. The shared pieces are `text` (character
  views of strings, splitting, searching, case-folded search, URL encoding),
  `numtext` (reading and writing integers), `groups` (grouping, counting and
  stable ordering of rows by key) and `answers` (how a server's answer reads,
  shared messages, the starfield). Each page has a module of its own; the
  account pages (`login`, `register`, `profile`, `reset_password`) are state
  machines that take the page's state and an event and give the next state
  and the action to perform.
- `tests/` runs the library on concrete values.
- `app/` is the browser side: JSON in and out, local storage, the clock,
  the timed upload loop, and the money columns (floats).

Outside crates: `urlencoding` (percent-encoding of the entry search),
`base64` (the content of uploaded files), and `serde`, `serde_json`,
`js-sys`, `web-sys`, `gloo-timers` in `app/`.
