# ballgame

The verified core of a two-player game in which each player sees the other's
pointer: peers find each other by multicasting hello datagrams, pair, and then
exchange pointer positions over UDP.

* `src/fetch.rs` — the hello datagram, the rule that admits a responder as a
  peer, and the state of a pairing or connected peer connection.
* `src/network.rs` — the client link: pairing and position exchange as step
  functions from stage, link and event to next stage, link and action; the
  position datagram; game messages.
* `src/game.rs` — the pointer positions of a game session.
* `app/` — sockets, bitcode message encoding, the rapier physics world and the
  game session that drives the step functions, plus the discovery demo program.
