# messages_server

A small HTTP and Socket.IO server that exposes the macOS Messages database
(`~/Library/Messages/chat.db`) to BlueBubbles-style clients.

- `src/` is the verified library (Verus): conversions between the Unix and
  Apple time bases, the newest-first ordering and paging of messages, the
  assembly of chats, messages and attachments from database rows (image sizes
  are decoded with the `image` crate), chat statistics, the decisions taken on
  request parameters (password, extras, counts, time bounds) and the JSON
  envelopes of responses.
- `app/` is the server around it: the SQLite queries (`rusqlite`), the HTTP
  routes (`axum`), the Socket.IO namespace (`socketioxide`) and the JSON
  encoding (`serde`).
- `tests/` exercises the library.
