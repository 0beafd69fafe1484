# xarf

Parsing, validation and generation of XARF v4 abuse reports (the eXtended
Abuse Reporting Format), with conversion of XARF v3 input, written in Verus.
Each public function carries a contract over a mathematical model of the
JSON documents it reads and writes, and Verus proves the code against it.

## Layout

- `src/json.rs` — the JSON document model (`JsonValue`, `JsonMap` with
  sorted, duplicate-free keys) and its spec view `Json`.
- `src/model.rs` — `Report`, `Contact`, `Evidence`, `Category`, their JSON
  form and the reading back of it.
- `src/round_trip.rs` — laws relating the two directions: a report written
  to JSON reads back as itself, and the like.
- `src/schemas.rs` — the schema registry: known categories and types, field
  lists taken from the schemas, and the strict-mode promotion of
  recommended fields to required ones.
- `src/validator.rs`, `src/parser.rs` — validation against the schemas and
  the parse pipeline built on it.
- `src/v3_compat.rs` — detection and conversion of XARF v3 reports;
  `src/v3_laws.rs` — what every successful conversion produces.
- `src/generator.rs` — `ReportBuilder`, `create_report` and evidence.
- `src/hex.rs`, `src/text.rs` — small verified text helpers.
- `src/engine.rs`, `src/crypto.rs`, `src/fresh.rs` — the trusted boundary:
  `serde_json`, `jsonschema`, the digest crates, `base64`, `uuid` and
  `chrono`, each call behind a function whose contract states what the
  crate provides.
- `app/` — the unverified shell: loading the schema files from disk,
  `serde` and `thiserror` copies of the public types, and entry points that
  take `serde_json::Value`.

The registry is built from the schema documents the caller supplies
(`SchemaSources`), so every function that needs the schemas takes a
`&SchemaRegistry`.
