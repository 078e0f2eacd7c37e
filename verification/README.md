# orchestrator

A cluster manager for shell and Spark jobs: a controller that queues jobs by
resource category, runs them on the local machine or on workers it starts on
compute farms, and watches Spark applications; and a worker agent that runs
the jobs handed to it.

## Layout

- `src/` — the library, verified with Verus: job and worker records,
  resource specs and categories, the job scheduler's queues and retries, the
  local executor's resource accounting, the worker manager's worker tables,
  farm protocol settings, Spark helpers, and the text they produce and read.
  The scheduler, the worker manager and the local executor are state
  machines: each message is a function from state to the next state and the
  actions to perform.
- `app/` — the programs around the library: the HTTP API, the message loops
  that perform the actions (processes, files, the job and worker tables on
  disk, HTTP and gRPC calls), logging and command-line handling.
- `tests/` — tests of the library's public functions.
