# rekt_broker

A publish/subscribe broker over UDP for the RekT protocol (Rapid Knot
Transfer), whose decisions are proved with Verus.

Clients connect with a CONNECT datagram and get an identifier, subscribe
to topics (directly, or through objects that group topics), publish DATA
that the broker forwards to the other subscribers, answer the broker's
PINGs and prove they are alive within each heartbeat period; four silent
periods in a row end the session.

## Layout

- `src/` — the verified library.
  - `bytes`, `collections`, `hash`: little-endian encoding, helpers over
    hash maps of sets, the FNV-1a hash of topic paths.
  - `messages`: the current protocol. `datagrams` and `enums` encode and
    decode every datagram; `broker` holds the broker's state; `session`
    (connections, pings, heartbeats), `manager` (data and topic requests)
    and `objects` (object requests) take the decisions; `dispatch`
    answers any incoming datagram; `laws` states what every decision
    keeps and what one decision gives the next.
  - `asyncbroker`: the first asynchronous broker, whose topics form a
    tree with one level for each name of a path (`topic_v2`), with its
    settings (`config`), its log rule (`server_lib`), its state and
    decisions (`broker`, `dispatch`) and its laws.
  - `legacy`: the datagrams of the first version of the protocol.
  - `proto`: the prototype's datagrams, topic trees, server, client and
    the rule that accepts answers typed on its terminal (`cli`).
- `tests/`: tests of the library on concrete values.
- `app/`: the program. It reads `config.toml`, binds the socket, and runs
  the tasks that receive datagrams, send pings and watch heartbeats; each
  task asks the library what to do and performs the sends it returns.
  `--legacy` runs the first asynchronous broker.

Every function of the library whose result does not rest on chance
states it in its contract; the library does no I/O and takes the time
and the sender's address as arguments. Random numbers come from `rand`,
UTF-8 checks from `String::from_utf8` and regular-expression matches
from `regex`: these three calls, and the specifications that vstd gives
to the standard library, are taken on trust.
