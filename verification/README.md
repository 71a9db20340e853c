# udp_cluster

A small cluster that talks over UDP: servers that report their load to each
other and elect, on a ring, a server to take down for a while; and client
processes whose middleware spreads the requests of 500 client threads over the
servers round robin, stepping over a server announced down.

- `src/` is the library, verified with Verus: the wire format of a message
  (`message`), the ring election (`election`), the server's decisions and load
  levels (`server`), its load log (`server_log`), which servers are up
  (`states`), a client thread's request loop (`client`), the middleware's
  round robin (`middleware`) and the client statistics (`stats`).
- `app/` is the program around it: sockets, threads, channels, files and
  clocks. `server <id> <log file>` runs a server; `client <sender port>
  <middleware port> <log file>` runs a client process.
- `tests/` runs the library on concrete values.
