# outbound-manifest

Review, seal and verify the exact content of an outbound message (e-mail, Slack/Discord,
social post, form submission) before it is sent. Recipients, the final body and attachments
are recorded in one JSON manifest; after the user approves the reviewed content, `seal`
records the SHA-256 of that content, and `verify` (run right before pressing "send")
fails if anything changed since. Nothing here sends messages.

A body file may start with a preamble: notes above the first line that holds only `---`.
Only the text below that line is checked, reviewed and hashed, so notes added to the
preamble after approval do not invalidate it.

## Layout

- `src/` is the verified library (Verus). `check::check` and `check::verify` decide a
  manifest against what was observed of its files and are specified by `check_outcome` and
  `verify_outcome`; `seal::seal` records an approval; `run::run` decides each command;
  `laws` and `body` hold the proofs of the properties that span operations (sealing then
  verifying succeeds, preamble edits do not change any outcome).
- `app/` is the command-line front end: argument parsing, file reading and writing,
  JSON (de)serialization of the manifest, printing.
- `tests/` runs the library on concrete values.
