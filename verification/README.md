# kurou

A small window into Discord servers for an assistant: it reads, it keeps an archive, a mention
inbox and a moderation ledger, and it speaks where it may. The rules of the house are a library
whose functions state what they do and are proved to do it; the program around it talks to
Discord, SQLite and the network.

## Layout

- `src/` is the library. Nothing in it does I/O: it decides, and what it decides is a plain value.
  - `server/boot.rs` reads the settings: who wears which hat, which gateway is opened for whom.
  - `server/mod.rs` and `server/tools/` are the tools: what a request asks for, who may ask it,
    with which bot it is done and which row is written.
  - `gateway.rs` turns events into rows of the archive, the inbox and the ledger.
  - `archive.rs`, `mentions.rs`, `modlog.rs`, `layout.rs` and `ledger.rs` write the statements
    that the database runs; `archive_meaning.rs`, `ledger_meaning.rs` and `sql_meaning.rs` say
    what those statements mean, `server/tools/scan_meaning.rs` and
    `server/tools/sweep_meaning.rs` what a scan finds in the archive and over the wire.
  - `discord/` models what Discord sends and renders it; `wall/` is the watch-wall.
  - `auth.rs` and `oauth.rs` guard the door, `uploads.rs` holds files until they are sent,
    `wake.rs` signs the taps on the perch, `scheduler.rs` ends what was meant to end.
  - `text.rs`, `numeral.rs`, `json.rs`, `clock.rs`, `sql.rs` and `assoc.rs` are the groundwork.
- `app/` is the program: arguments, HTTP, the database connection, the Discord client and the
  MCP tools.
  `rmcp-macros` is named in `Cargo.toml` only to hold it to the version of `rmcp`, which uses it.
- `tests/` runs the library on given values, the statements against SQLite in memory.

## How it is stated

A request is answered by the first thing that is wrong with it, and a spec function names that
thing: `reaction_fault`, `archive_fault` and their like. Where nothing is wrong, the contract
says what the plan holds. Laws that span several functions are public proof functions whose
names begin with `lemma_`; each says its law in words.

What other crates compute is called through small wrappers marked `external_body`. Each says in
its comment which function it calls and what it claims of it.
