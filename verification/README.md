# doit

The logic of the Doit desktop todo application as a verified library: the
todo list and its views (today, calendar, timeline, statistics), the
category and tag dialogs, the settings dialog, and the WebDAV backup and
sync protocol. Verus verifies every function in `src/`: the library's
operations against contracts of their own, trait methods against the
contracts of their traits. The clock reading behind label ids has no
contract, since any value is a possible reading. The calls into chrono,
base64 and the standard library that the logic relies on sit behind small
trusted wrappers whose contracts say what those functions are documented
to do.

- `src/types.rs` – the data model (todos, labels, settings, snapshots).
- `src/todos.rs` – the list operations and the views computed from it.
- `src/timeline.rs`, `src/stats.rs` – the timeline and statistics views.
- `src/session.rs` – start-up, key presses, long presses, display choices.
- `src/labels.rs` – category and tag editing with fresh, unique ids.
- `src/settings.rs`, `src/backup.rs` – the two dialogs.
- `src/webdav.rs`, `src/http.rs` – WebDAV requests, responses and messages.
- `src/dates.rs`, `src/text.rs`, `src/sort.rs` – calendar arithmetic, text
  handling and a stable sort.
- `src/assets.rs` – the icon lookup and listing.
- `src/laws.rs` – properties across operations.
- `app/` – a command-line front end: JSON files, the HTTP transport and the
  clock-driven commands.
