# rein_ops

The decisions of a personal-memory service, verified with Verus: which memories
are duplicates and how they are merged, when a cold memory gets an archival
summary and which summaries are refused, how living summaries of concepts are
made and shown, how a runtime judge is calibrated against a nightly one, and
what every request handler answers.

## Layout

- `src/` is the library. Everything in it is verified.
  - `dedup/`: the scan for duplicates, the sweep over embeddings, and the merges.
    `lossless.rs` proves that a merge keeps every line.
  - `cold_archive_summary/`: prompts, the contract a summary must meet, claims on
    rows, and the fuse that gives a row up. `escaping.rs` proves that a user's
    text cannot pass for the markup of a prompt.
  - `concept_summary/`: prompts, the guard on writes, whether a summary is shown, and
    what a judge is sent.
  - `judge_calibration/`: the consumer of verdict pairs, the archive, the nightly
    run, and where first weights come from.
  - `handlers/`: what each request is checked for, does and shows.
  - `text.rs`, `time.rs`, `json.rs`, `hash.rs`: texts, instants, JSON objects and
    digests. The few facts taken on trust from `std`, `chrono`, `serde_json` and
    `sha2` stand here, each with a comment that says what is claimed.
- `tests/` runs the library on examples.
- `app/` is ordinary Rust around the library: the database, the models, files,
  the adapters, and what is computed with floating-point numbers.

## How the parts meet

Work that alternates with a database or a model is a state machine in `src/`:
`DedupScan`, `VecRow`, `StrikeFuse`, `EntryRun`. It says what to do next, `app/`
does it and reports back. Numbers that are only shown reach the library as text,
and comparisons of floating-point numbers reach it as their outcome.

Claims and guarded writes are statements that the database runs. `ColdRow` with
`claim_order`, `try_claim_cron`, `release_cron_claim`, `reap_emitted_cron_claim`
and `write_living_summary_if_revision_unchanged` say the same of a row's value:
each reads and sets the columns that its statement in `app/` reads and sets. What
is proved of claims is proved of these functions, and holds of the database as
far as the statements agree with them.
