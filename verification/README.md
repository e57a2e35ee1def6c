# crontimes

Projects when a cron expression fires, starting from a given timestamp. The cron
arithmetic is [`croner`](https://crates.io/crates/croner)'s, the zones are
[`chrono-tz`](https://crates.io/crates/chrono-tz)'s; what is built on them is verified
with [Verus](https://github.com/verus-lang/verus).

- `src/` is the verified library: parsing and stepping through fire times
  (`schedule`, `zone`, `calendar`), the table function `cron_fire_times` (`arguments`,
  `function`, `table`), its scan in growing batches (`scan`, `producer`), and the laws
  that every series keeps (`laws`).
- `app/` is the worker that serves the function to DuckDB over Arrow IPC.
- `tests/` runs the library with the real crates.

```sql
-- the next five daily 09:00 fires after a start
SELECT * FROM crontimes.main.cron_fire_times('0 9 * * *', TIMESTAMP '2026-06-18 00:00:00', "end" := 5);
```

A `TIMESTAMP` start fires in plain wall-clock time; a `TIMESTAMPTZ` start fires by the wall
clock of the session's time zone. The start is the lower bound: if it matches the schedule it
fires once, and otherwise the first row is strictly after it. `end` is a number of occurrences, an exclusive upper bound,
or left out: then the series runs up to year 4096.
