# cloudmqtt

An MQTT toolkit whose logic is verified with Verus: the client's and the
server's protocol decisions, the wire framing, and the checks of a
conformance tester for MQTT clients.

- `src/` is the verified library. Each public function states what it
  returns or changes in its `ensures`; the `lemma_*` proof functions state
  the laws that span several functions (what a read gives back of a write,
  what an acknowledgement completes, what a reconnect sends again).
- `app/` is the program around it: a TCP server and the
  conformance tester, both driving the library's decisions.
- `tests/` runs the library on concrete values.
