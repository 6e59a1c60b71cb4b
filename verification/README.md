# PocketStation Relay connector

Publishes independent PocketStation audio stems to PocketStation Relay, as a connector of
PocketStation Core.

The rules of the connector are a Verus library: what a route configuration is and when it is
valid, how captured frames become packets, what happens to encoded frames on their way, in
which order a publisher does things, how signaling and STUN messages are written and read,
and what a publication comes to. Every function states what it does, and Verus proves it.

```text
application stem ──→ application AudioBus ──┐
                                            ├─ grouped Relay publisher
microphone stem  ──→ microphone AudioBus  ──┘
```

## Layout

| Where | What |
|---|---|
| `src/configuration*.rs`, `src/ice_server.rs`, `src/redacted.rs` | routes, their checks, their stored and their shown forms |
| `src/connector.rs`, `src/manifest.rs` | the connector and its manifest |
| `src/runtime.rs`, `src/receipts.rs`, `src/outcomes.rs` | groups of routes, receipts and results |
| `src/relay_error.rs` | what is reported to Core |
| `src/audio/` | packets, the encoder's session, delivery to the publisher |
| `src/rtc/` | offers, signaling, STUN, the handshake and the publisher |
| `src/bounded_queue.rs` | the queue between the stages |
| `src/text.rs`, `src/numeral.rs`, `src/json.rs` | texts, numerals and JSON |
| `src/boundary.rs`, `src/manifest.rs` | what is relied on of outside crates, with contracts |
| `tests/` | tests of the library |
| `app/` | sockets, threads, the Opus codec, and Core's traits around the library |

Files whose names end in `_laws` hold what spans several functions: that stored routes read
back, that packets do not depend on how wide the captured frames are, that lanes take turns
fairly, that an offer declares each medium as it is. Laws about a single file stand at its
end.

## The application side

The library asks for nothing but plain values. Whoever runs a connector owns the sockets and
threads, performs the step that the library names, and hands back what came of it. `app/`
does that. It needs PocketStation Core with its `opus-codec` feature, and with it libopus.
