# ferrus

Deterministic orchestration of AI agents in a supervisor and executor workflow.
A supervisor defines tasks and judges submissions; executors implement them.
Tasks, runs and events live in SQLite tables, the state of the task under way in
a file, and HQ is an interactive shell that starts the agents.

## Layout

- `src/` is the verified library: the rules of the workflow, with contracts that
  Verus proves.
  - `project/`: the runtime tables. Leases and claims (`claims.rs`), the life of a
    task (`tasks.rs`) and of a run (`runs.rs`), recovery after a crash
    (`recovery.rs`), listings, ids, registration and the doctor's checks.
  - `hq/`: the shell. Commands and their dispatch, what a change of state starts
    and stops (`transition.rs`), which queued tasks are started (`schedule.rs`),
    specifications and batches of tasks, the line editor (`tui.rs`), what is drawn
    (`screen.rs`), and headless agents (`agent_manager.rs`).
  - `agents/`: how each backend is launched and which tools it may use.
  - `cli/commands/`: setting a project up and registering agents.
  - `nano/`: streamed model responses (`providers/sse.rs`) and private storage.
  - `config.rs`, `state.rs`, `pty.rs`, `runtime_table.rs`, `checks/`: settings, the
    state machine's data, terminal input and output, tables as text, checks.
  - `json.rs`, `clock.rs`, `text.rs`, `rows.rs`: documents, time, text and sorting.
- `tests/` runs the library on concrete values.
- `app/` is the program around it: argument handling, files, the database,
  processes and the terminal. The coordination server is not part of it, so
  `ferrus serve` and `/check` without `--force` are refused.

## Trust

Nothing in `src/` is assumed of this library's own code. What is assumed of
`chrono`, `serde_json`, `toml`, `shlex` and a few functions of the standard library
stands in the contracts of small private functions marked
`#[verifier::external_body]`, each with a comment that names the function it calls.

Time is always an argument, and so is everything else that depends on the machine:
which processes are alive, which files exist, what git says.
