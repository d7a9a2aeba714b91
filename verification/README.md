# algojudge-external-runner

A Runner that judges nothing: it claims jobs of an external problem type,
forwards the solution to the judging system that owns that type (UVa Online
Judge, `uva@1`), waits for that system to decide, and reports its verdict back
to the AlgoJudge Server.

## Layout

- `src/` — the library, verified with Verus: reading the configuration and
  refusing one that cannot work (`config`), reading a problem's documents and
  choosing a language (`integration`, `uva::problem`, `uva::language`), what
  the archive's pages and answers mean (`uva::site`, `uva::uhunt`,
  `uva::verdict`), the set of submissions waiting for an answer and their
  renewal counts (`pending`), when to ask again (`schedule`), what to do about
  a lease (`lease`), the result documents (`report`), and the choices the loop
  makes between two waits — what to do before a claim, with a job that
  arrives, with an answer, a refusal or a failed renewal (`run`). JSON
  documents are modelled in `json`, and text in `text`.
- `app/` — the program around it: reading the environment, the HTTP clients
  for our own Server, onlinejudge.org and uHunt, and the loop itself — the
  three concurrent waits, their timers and wake-ups, the stop signal, and the
  calls that perform what the library decided.
- `tests/` — the library's tests.
