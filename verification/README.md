# sairgent_kernel

The decision core of the Sairgent multi-agent kernel, written in Verus: every
function in `src/` carries a contract that Verus proves, except the thin
wrappers over outside code, marked `#[verifier::external_body]`, whose
contracts are trusted rather than proved:

- serde_json (`json.rs`): `json_parse`, `json_text`, the value readers
  (`json_field`, `json_as_str`, `json_as_i64`, `json_as_bool`,
  `json_is_number`, `json_is_object`, `json_has_key`, `json_array_items`,
  `json_object_entries`, `json_clone`) and builders (`json_null`,
  `json_string_value`, `json_u64_value`, `json_i64_value`,
  `json_empty_array`, `json_empty_object`, `json_array_of_one`,
  `json_object_insert`);
- sha2 (`audit.rs`): `sha256_digest`;
- uuid (`commands.rs`, `ids.rs`): `uuid_is_valid`, `uuid_v4_from_bytes`;
- std (`paths.rs`, `text.rs`, `fit.rs`): `path_extension`, `path_parent`,
  `path_join`, `path_strip_prefix`, `push_char`, `to_lowercase`,
  `to_uppercase`, `is_alphanumeric`.

Random bytes for fresh ids are drawn by the caller (`app/`) and passed in.

- `src/` — the library. Delegation and review decisions of the work-order
  loop (`hsm`, `fit`), worker side-channel policy (`worker`), agent
  manifests and capability grants (`manifest`), the audit hash chain
  (`audit`), the runtime event bus and replay (`workspace`, `signals`),
  schedules and the calendar (`schedule`, `calendar`, `cron`, `recurring`),
  the operator chat (`sairgent`, `chat`), webhook admission (`webhook`),
  command validation (`commands`), runtime seeding (`seeding`, `kernel`),
  settings and credentials (`settings`, `credentials`), and the text, JSON
  and path helpers they share.
- `tests/` — tests of the library's public functions.
- `app/` — the console program: reading input, talking to the process
  environment and decoding JSON into the library's types.
