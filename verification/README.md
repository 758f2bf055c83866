# zizq

A client library for the [Zizq](https://zizq.io) job queue, written and
verified in Verus.

`src/` is the verified library. It holds what a client decides and computes:

- `json`, `json_text`, `number_text`, `name_order`, `wire`, `decode`: JSON
  values, their compact and canonical text, and reading and writing typed
  fields;
- `jq_path`, `jq_parse`, `jq_expr`, `hashable`: jq paths into payloads, their
  parser, filter expressions, and the parts of a payload that a key hashes;
- `unique_key`, `attrs`, `derive`: uniqueness keys, and how a job type's
  `#[zizq(...)]` attributes turn into defaults and keys;
- `enqueue`, `bulk_enqueue`, `failure`, `job_patch`, `budget`, `cron`: what is
  sent to the server;
- `job_filter`, `list_jobs`, `list_errors`, `count_jobs`, `delete_jobs`,
  `patch_jobs`, `budget_jobs`: which jobs an operation selects, and paging;
- `client`, `calls`, `request`, `urls`, `encode`, `format`, `error`: addressing
  requests, encoding bodies and judging responses;
- `frames`, `take`: the framing of the job stream;
- `dispatch`, `retry`, `acks`, `worker`, `router`: the decisions of a worker as
  state machines;
- `jobs`, `resources`, `timestamp`, `duration`, `range_filter`, `text`: the
  types that the rest is made of.

Properties that hold across functions are proof functions whose names begin
with `law_`; the longer ones are in `jq_laws`, `pick_laws`, `json_laws`,
`canonical_laws`, `order_laws` and `frame_laws`.

What is taken from other crates without proof is marked `external_body`,
`external_type_specification` or `assume_specification`, each with a comment
that says what is claimed: URL handling from `url`, SHA-256 from `sha2`, string
tokens from `serde_json`, MessagePack from `rmp-serde`, the stream buffer from
`bytes`, and the clock from `time`.

`app/` is the asynchronous client around the library: HTTP, timers, tasks,
serde and the derive macro's token streams. `tests/` runs the library.
