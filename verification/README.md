# decisionbot

An SMS bot that keeps a user's contacts and groups: users register with
`name`, look up commands with `h` and `info`, list what they have with
`contacts`, and build or delete groups and contacts with `group`, `delete`
and `confirm`.

The crate is a library verified with Verus: every reply the bot sends and
every command it reads from a message is an executable function whose
contract states the result exactly. So are the decisions on what a search
stores as pending and on what a confirmation adds, deletes or clears, down
to whether the pending action ends; `app/` runs the queries that carry them
out.

- `src/text.rs`: characters, decimal numbers, trimming, splitting, joining,
  lexicographic order.
- `src/util.rs`: phone numbers in E.164 form, selection lists such as
  `1b, 2a`, numbered contact lists, the reply builder.
- `src/command_word.rs`, `src/command.rs`: the command words and the
  commands read from the words of a message; help and info texts.
- `src/sms.rs`: how an incoming message is routed (registration, reply,
  command) and the TwiML answer.
- `src/listing.rs`, `src/prompt.rs`: the numbered lists and reminders, and
  what a deletion search stores as pending.
- `src/group.rs`, `src/delete.rs`, `src/confirm.rs`,
  `src/word_confirm.rs`: searching, group naming, and what a confirmation
  adds, deletes or refuses.
- `src/name.rs`, `src/info.rs`, `src/help.rs`, `src/friends.rs`: the
  remaining commands.
- `src/properties.rs`: properties that span several functions, proved.
- `src/unicode.rs`, `src/nonempty.rs`: the calls into std's Unicode tables
  and into the `non-empty-string` crate, with their trusted contracts.

`app/` is the server around the library: the HTTP endpoint (axum), the
SQLite queries (sqlx) and the outgoing messages.
