# backend

The rules of a local chat backend that talks to OpenRouter, written in Verus
and proved against their contracts.

- `src/` is the verified library:
  - `text`: trimming, counting and building strings by Unicode scalar values.
  - `json`: the JSON values the provider answers with, parsed by `serde_json`.
  - `provider`: provider errors, request bodies and headers, upstream statuses,
    completion replies.
  - `sse`: what one line of the provider's event stream means, and a decoder
    that cuts the byte stream into lines whatever the chunking.
  - `error`: the error answers of the API (code, HTTP status, client message).
  - `chat`: message and title validation, the prompt sent to the provider,
    and the streamed assistant reply.
  - `conversations`: conversation ids, the answers for what is not there, and
    the listing order.
  - `guard`: the loopback host and trusted-origin checks on requests.
  - `config`: configuration from environment values and the bind-address check.
  - `db`: the connection-pool size.
- `app/` holds the HTTP server (axum), SQLite storage (sqlx), the HTTP client
  (reqwest) and environment reading, which call into the library.
- `tests/` runs the library on concrete values.

The laws of the library (idempotent normalisation, chunk-independent stream
decoding, a unique listing order, error answers that hide provider details,
and others) are public proof functions beside the code they speak of.
