# pgspawn

Durable background jobs for PostgreSQL and Tokio, with their rules verified.

`src/` is a library verified with Verus. It holds what happens to jobs, workers and schedules:

- `job`, `rows`, `error`, `config`, `environment`, `time`, `text`, `json`: the values it works on.
- `table`, `change`, `batch`, `listing`, `soundness`, `roster`, `timetable`, `queue`: the stored rows
  and the operations on them. `Queue` is the whole, and its methods say in their contracts what
  becomes of it.
- `calendar`, `zone`, `schedule`, `cron`: when schedules fall due.
- `worker`, `supervisor`, `loops`, `claimed`, `registry`, `reply`: what a worker decides, one event
  at a time.
- `laws`, `schedule_laws`, `part_laws`: what holds of all this as a whole, proved from the contracts.
  The last is on operations on some of the stored jobs, which is how `app/` runs them.
- `source`, `zone`, `json`: the few calls into other crates, with what is claimed of them.

`app/` is the crate that applications use. It loads rows from PostgreSQL, asks the library what
becomes of them, and stores the answer; it runs handlers, timers and loops on Tokio, and tells the
library what happened.

`tests/` runs the library.
