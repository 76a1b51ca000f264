# zeroclaw-nats-agent

ZeroClaw's host for the Synadia Agent Protocol for NATS, as a Verus-verified
library plus a thin asynchronous driver.

- `src/` — the verified library:
  - `subject`: verb-first subjects `agents.<verb>.<agent>.<owner>.<name>`.
  - `envelope`: prompt payloads (plain text or JSON envelope with base64 attachments).
  - `json`, `stream`: JSON string literals and `{"type":..,"data":..}` stream chunks.
  - `heartbeat`: heartbeat payload and its JSON bytes.
  - `sessions`: session keys and the table of per-session agents.
  - `prompt`: admission of prompt requests and the prompt stream state machine,
    with the proofs that the reply traffic is either a lone error reply or an
    ack followed by response/query chunks and error replies, with at most one
    terminator, last; and that a turn starts only after the ack.
  - `host`: server list, authentication plan, service and endpoint metadata.
- `app/` — the NATS connection, service registration, prompt handling loop and
  heartbeat task, driving the library; the ZeroClaw runtime is reached through
  the `AgentRuntime` trait.
- `tests/` — tests of the library on concrete values.
