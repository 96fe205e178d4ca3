# clipchamp

Cross-platform network clipboard sync: one machine runs the server (hub),
the others connect as clients, and clipboard changes propagate in real time
over TCP as length-prefixed MessagePack frames.

The library in `src/` is verified with Verus:

- `protocol`: the messages, BLAKE3 content hashes, and the frame codec
  (`[4-byte big-endian length][payload]`), with the proofs that a frame reads
  back as its payload and that a partial frame is left waiting.
- `buffer`: the `bytes::BytesMut` operations the codec relies on.
- `history`: the bounded server history (deduplication of the newest entry,
  eviction of the oldest, newest-first listing, lookup by hash; images inline
  unless the history is kept on disk) and, in
  `history::cli`, the conversation of the `history` command.
- `server`, `client`: what each side does with every message, whom a
  broadcast reaches, the advertised port and the reconnection back-off.
- `clipboard`: content constructors, previews, what a clipboard read gives
  (text, a URL, or an image as PNG) and how content is written back, and the
  watcher that drops repeated changes and the process's own echo.
- `png`: PNG encoding and decoding through the `image` crate.
- `config`: the configuration model, its documented defaults and its checks.
- `discovery`, `text`: mDNS names; decimal and hexadecimal rendering.

`app/` is the program around it: the command line, sockets and tasks, the
platform clipboard, mDNS, MessagePack and the files on disk.
