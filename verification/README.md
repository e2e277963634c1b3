# binky

A message passing library: agents registered with a router exchange values
locally, and through bridges with remote routers.

- `src/` is the verified library: the generational storages that hold agents
  (`storage`, `slab`), the bit layout of keys, the router's state and its
  decisions (`router`), sessions and their backlog (`router::session`, `queue`),
  retry strategies (`retry`), the session negotiation of bridged connections
  and what their reading half does with what it reads (`bridge`), the frames
  on a connection (`bridge::frame`: a four-byte big-endian length, then the
  message; length zero is a heartbeat), and the encoding of keys in the two
  wire formats (`serializer`).
- `app/` is the runtime around it: the router loop, agents, sessions and
  listeners and the reading and writing halves of connections on tokio and
  flume channels, and serde for values of any type.
- `tests/` exercises the library.
