# minigun

An HTTP load-testing tool: it sends `n` requests over `m` connections to a
target URL and reports how long they took and which status codes came back.

- `src/` is the verified library (Verus): option parsing, the round-robin
  split of request numbers over connections with its laws (every request
  sent exactly once, shares balanced, shares summing to `n`), the record of
  each request's outcome, nanosecond time arithmetic, and the statistics of
  the summary (counts per class of status code, floor average time).
- `app/` is the command itself: argument parsing with structopt, the async
  pipeline that sends the requests with surf, and the printing of progress,
  tables and JSON/RON lines.
- `tests/` exercises the library on concrete values.
