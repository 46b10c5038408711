# eleven100p

A client for the [Model Context Protocol](https://modelcontextprotocol.io), with its logic verified
by Verus.

- `src/` is the library. It reads and writes nothing itself: a call gives the text to send, and a
  text that has arrived gives what to hand to which caller. `client` holds the open requests, the
  opening of a connection and the streams of tool events; `rpc` the messages; `types` and `decode`
  the types of the protocol and how they are read out of JSON; `message` what is said of JSON that is
  wrong; `transport` the framing of messages on the standard streams of a process and on a stream of
  server-sent events; `laws` what holds of the client as a whole. `codec` holds what the library
  relies on of `serde_json` and `serde`.
- `app/` is the async client around it: the processes, the sockets and the tasks.
- `tests/` runs the library.
