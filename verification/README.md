# mdns_rr

A relay node that joins a libp2p network (mDNS discovery, request-response,
gossipsub), consumes Kafka topics and serves WebSocket clients, with an HTTP
command endpoint; plus a WebSocket load client and a standalone WebSocket bridge.

- `src/` is the library, verified with Verus: the command language of the HTTP
  endpoint (`command`), the swarm's peer bookkeeping and reactions (`swarm`), the
  WebSocket server's clients and reactions (`ws_server`), the Kafka handler and
  consumer manager (`kafka`), the statistics tables (`stats`), the client's
  counting and reconnection policy (`client`), the bridge's console and messages
  (`console`), the JSON texts (`json`), configuration (`settings`), messages
  (`message`), the ordered text-keyed map they share (`string_map`) and decimal
  text (`text`).
- `app/` is the program around it: `main` (the node by default, `client [url]`,
  `bridge`), configuration loading, sockets, the libp2p swarm, Kafka consumers,
  the HTTP server and the metrics endpoint.
- `tests/` exercises the library.

The maps keyed by text (the WebSocket clients, the swarm's peers, the Kafka tasks,
the statistics and the command arguments) are `StringMap`, a vector of entries
with the invariant that no key occurs twice. vstd's specification of `HashMap`
holds only for key types that obey its hash-table key model, which it grants to
the primitive integer types, `bool` and boxes of them; for `String` keys that fact
can only be assumed, which this library does not do, so over a `HashMap<String, _>`
not even the length after one insertion can be proved.
