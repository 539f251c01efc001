# quiclime

A relay through which Minecraft players reach hosts that have no public address. A host keeps a
QUIC connection to the relay, gets a domain assigned over its control channel, and is then handed
the players who ask for that domain.

`src/` is the verified library. It holds every decision that the relay takes, with contracts that
Verus proves:

- `control`: the conversation with one host over its control channel, as a state machine;
- `proto`: the messages of that conversation;
- `minecraft`: which players get through to a host, and what the others are told;
- `disconnect`: the packets in which a player who is turned away is told so;
- `netty`: the wire format of those packets;
- `web`: the answers to ticket requests, and the other HTTP answers;
- `blocklist`: which clients are restricted;
- `telemetry`: the record of each connection;
- `certs`: the certificates and the key for the QUIC endpoint, read with `rustls-pki-types`;
- `text`: numbers as text.

`app/` is the rest: sockets, HTTP, JSON, the telemetry database and the clock. It takes the routing
table and the reading of player packets from the binary that runs it, through the traits in
`app/services.rs`.
