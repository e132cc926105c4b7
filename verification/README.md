# basevn-migro

A config-driven ETL tool that migrates records from CSV files, spreadsheets
and REST APIs to the Base.vn platform, with its decisions verified in Verus.

Layout:

- `src/` — the verified library: records and values (`data`), job
  configuration and its `${NAME}` environment references (`config`), field mapping, filtering and transformer chains
  (`transform`), CSV decoding and extraction and REST API pagination by
  offset, page or cursor (`extract`), load results,
  response reading, retry and rate recovery (`load`), checkpoints, progress
  and sync modes (`operations`), and the decisions of the `migrate` and
  `status` commands (`cli`): resuming past a checkpoint's offset, batching,
  and writing batches as a full sync (clear, then insert) or an incremental
  one (upsert by a key field).
- `app/` — the `migro` command: argument parsing, file and network I/O,
  the async extractor and loader interfaces, the token-bucket rate limiter,
  the audit log and the progress bar.
- `tests/` — tests of the library.
