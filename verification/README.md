# Chimely

The inbox of a notification service, as a verified library.

A subscriber's inbox merges direct notifications with the environment's
broadcasts. Read, seen and archive state is a watermark per subscriber plus
per-item exceptions that outrank it. The library decides every request from
rows that the caller has read, and hands back what is to be written.

* `src/api/inbox/`: rows and their meaning, marking and archiving, the merged
  keyset list, the counts, the cursor, the validator and the list request.
  `laws.rs` proves that each request keeps the maintained counters in step with
  the items and that the counts then agree with the list; `history.rs` that they
  agree after any sequence of arrivals, requests, jobs and preference changes,
  once every due delivery has run.
  `effects.rs` says what each request does and leaves alone. `pages.rs` relates
  one page to the next, `walks.rs` proves that following the cursors shows the
  whole view once, whatever the page size, `views.rs` how the three views share
  out the inbox, and `reading.rs` how far the rows have to be read.
* `src/http/`: endpoints and planes, readiness, and query strings without
  credentials.
* `src/openapi/`: the fixed parts of the API document and its export in the
  3.0.3 dialect, with the laws of the conversion.
* `src/ids.rs`, `src/encoding.rs`, `src/text.rs`, `src/tally.rs`: typed
  identifiers, text forms, numerals and counting.
* `src/outside.rs`: the calls into other crates. What stands there is trusted;
  everything else is proved.
* `app/`: the server around the library, with Postgres, routing and the
  generated document.
