# rinha_backend

The logic of a payments API (`POST /payments`, `GET /payments-summary`),
verified with Verus.

- `src/` is the verified library: query-string decoding (`query`), amounts
  and their conversion to cents through `rust_decimal` (`amount`), RFC 3339
  instants through `chrono` (`instant`), the shared per-processor totals and
  the record log with summaries over a time range (`shared_mem`), the
  request/response values (`models`), the delivery policy for forwarding
  payments (`processor`), the payment service's rules (`services`),
  routing (`server`) and the summary endpoint's computation (`handlers`).
- `app/` is the program around it: the HTTP server, the memory-mapped
  totals file, the forwarding worker with its HTTP calls, the SQLite
  repository, and the serde copies of the library's types.
- `tests/` exercises the library on concrete values.
