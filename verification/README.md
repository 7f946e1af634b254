# easechat

A message exchange nexus with channel subscriptions. Clients connect over
websockets, identify as an endpoint, subscribe to channels for a limited
time, and send texts that the nexus relays to every other listener of the
channel.

`src/` is the verified library (Verus):

* `reader` – the length-prefixed fields of the text protocol;
* `protocol` – version 1 of the protocol: what each message asks for;
* `adapt` – version 2 of the protocol, as its adapter reads it;
* `legacy` – the first nexus: its commands and console;
* `frame` – the relay frame sent to listeners, and the proof that a frame
  with ASCII fields reads back with the field readers (for other text the
  byte-length prefix and the character-counting reader disagree);
* `registry` – endpoints, channels, subscriptions and their expiry;
* `service` – the same registry under the names of version 2;
* `console` – the operator's commands;
* `clock` – the wall clock (nanoseconds since the Unix epoch) against which
  subscriptions expire.

`app/` holds the programs around it: the websocket servers, the console loop
and the SQLite recorder demos. `tests/` exercises the library.
