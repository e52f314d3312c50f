# anthropic_messages

Lets a session that speaks in provider-neutral items work with a model behind
the Anthropic Messages API.

- `src/` is the library, verified with Verus. `request` turns a conversation
  into the body of a Messages request, `stream` turns the events of the answer
  into those that the session reads, and `tools` and `tool_names` keep the names
  of tools straight on the way there and back. `request_laws`, `stream_laws` and
  `tool_laws` state and prove what holds of these together.
- `value` is the boundary to `serde_json`: its contracts are what the proofs
  take on trust.
- `app/` sends the requests and polls the event streams.
- `tests/` runs the library.
