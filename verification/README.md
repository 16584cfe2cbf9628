# hydrangea

An IRC bot whose commands and session decisions are written in Verus and
proved against their contracts.

- `src/`: the verified library. Each command (`mktpl`, `showtpl`, `rmtpl`,
  `lstpl`, `lasttpl`, `mkword`, `rmword`, `abuse`, `theo`, `smoke`, `smoko`,
  `define`, the CBC title lookup, link titles, `help`, `rmbot`) takes the
  message and the database and returns the messages to send, with a contract
  over a model of the database (`store::DbState`). `src/laws.rs` proves what
  holds across commands. Calls into pickledb, fancy-regex, handlebars,
  linkify, urlparse, base64 and rand go through small trusted wrappers in
  `src/store.rs` and `src/outside.rs`.
- `app/`: the program around it: connecting to IRC, HTTP requests, reading
  the fortune file, the clock, and the serde forms of the library's types.
- `tests/`: tests of the library on concrete messages and databases.
