# KeePassRX library

A verified library for KeePassRX, a read-only KeePass password manager. Verus proves the
library (`src/`) against the contracts its functions state. `app/` holds the ordinary Rust
around it: the program's entry point, file and directory work, and the parts that compute in
floating point or call into C.

## Layout

- `src/rx/`: the database model. It covers loading groups and entries from a file's contents
  (`kdbx`, `rx_loader`, `rx_db`), containers and views (`rx_container`, `virtual_hierarchy`),
  the query languages (`keepass_query`, `kpxc_search`, `search`), ordering (`sort_order`),
  one-time passwords (`otp`), metadata and saved searches (`metadata`), entry details
  (`entry_view`), and wiping secrets when a database is closed (`close`).
- `src/gui/`: what the user interface decides. It covers the container stack, list rows,
  the database chooser and companion key files, attachments, the session's master password
  (`session`), and directory migration.
- `src/crypto.rs`, `src/easy_open.rs`: sealing the master password under its short "easy
  open" password, and values sealed under a session master key.
- `src/mirror/`: the logic of the `mirror_from` attribute. It reads the arguments, parses
  source files, chooses roots and files, and ranks candidates.
- `src/message.rs`: messages of the user interface as they are handed to the translator.
- `src/outside.rs`, `src/index_set.rs`: the calls into outside crates, each with the contract
  the library relies on.
- `tests/`: tests of the library.
