# workflow-engine

The core of a workflow engine backed by Postgres: executors claim scheduled workflow runs and
run their tasks on remote task services, a job worker starts workflow runs on a schedule or at an
interval, and an HTTP API manages workflows, tasks, runs, executors and jobs.

## Layout

- `src/` is the library, verified with Verus. It holds the decisions of the engine: what an
  executor does on each event and at shutdown, how a workflow run worker steps through its
  tasks, which job runs next and when, the checks made before database calls, request
  validation, notification payload parsing, the order of the database build scripts, and the
  API response format. Contracts are stated over spec functions; the general properties are
  public proof functions (`lemma_*`).
- `tests/` exercises the library on concrete values.
- `app/` is the program around the library: Postgres access with sqlx, LISTEN/NOTIFY channels,
  the executor and job worker event loops on tokio, remote task calls with reqwest and
  MessagePack, error emails with lettre, the actix-web API server and the database build. Run it
  with one of `executor`, `job-worker`, `api-server` or `db-build` as first argument; the
  database is given by `WE_HOST`, `WE_PORT`, `WE_DB`, `WE_USER` and `WE_PASSWORD`.
