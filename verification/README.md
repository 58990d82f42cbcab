# soroban_pulse

The logic of a Soroban event service, verified with Verus.

- `src/` is the library. `aggregation` validates JSONB paths against an
  allowlist and builds the parameterised SQL of grouped aggregations;
  `saved_queries` holds the request types of stored queries, their paging and
  the errors the handlers answer; `sms` decides which events are sent as SMS,
  to whom, with which text, and reads Twilio's answers; `text` holds the
  character-level string operations they are built from; `error` the error
  type.
- `app/` is the service around it: the axum handlers, the sqlx queries, the
  reqwest calls to Twilio, the tokio task of the notifier, and the serde
  forms of the library's types.
- `tests/` runs the library on concrete inputs.
