# patch_batch

A library that applies patches to files all at once or not at all.

A patch is played through on an overlay of the files that it touches, which gives one batch of
mutations with its net effect. The batch is checked against what the files hold, carried out one
mutation at a time, and undone when a mutation fails. Each file is looked at before it changes and
after; what somebody else has put there in the meantime is never overwritten. The outcome says
whether the batch was committed, rejected before anything changed, rolled back, or left in a state
that could not be put right, and then which files may differ.

The library decides and does not act. A task is a value that names its next request to a filesystem
or a helper process; the caller carries the request out and hands the reply back. That is what makes
the laws possible: they speak of every history of requests and replies, whatever fails and whenever.

- `src/` holds the verified library. `lib.rs` says which module does what.
- `tests/` runs it against filesystems in memory that can be told to fail.
- `app/` carries requests out on a real filesystem and on real helper processes.

Outside crates are called in three places: `base64` in `base64_codec.rs`, `serde_json` in
`setup_payload.rs` and `uuid` in `quarantine.rs`. What is taken on trust of each call stands above it.
