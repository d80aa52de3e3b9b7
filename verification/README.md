# wa_api_rs

A WhatsApp Cloud API client library whose logic is verified with Verus.

- `src/` is the verified library: configuration and its validation, recipients, outbound
  message payloads and their JSON shape, Graph API request descriptions, MIME type
  normalization, webhook challenge and signature verification, and webhook payload parsing.
  JSON is held in the library's own `JsonValue`, whose model is `Json`.
- HMAC-SHA256 (`hmac`, `sha2`) and hex encoding (`hex`) are called through small trusted
  wrappers in `src/crypto.rs`.
- `app/` connects the library to `serde`/`serde_json` (JSON conversion, serde-enabled copies
  of the response types), `thiserror` (a displayable error) and `reqwest` (HTTP error mapping).
- `tests/` runs the library on concrete values.
