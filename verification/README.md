# p2p-test

A rendezvous server for peers, and its client. Clients register with the server over UDP; the
server tells those that are alive of each other's addresses, and they ping each other there. A
client that falls silent is thrown out, and registers again when it learns of it.

- `src/` is the library, verified with Verus: client ids and their base-62 text, the messages, the
  server's table of clients, what the server and a client do with each packet, and, in `laws.rs`,
  what they bring about together.
- `tests/` are its tests.
- `app/` is the program around it: sockets, timers, logging, arguments, and the encoding of
  messages on the wire.
