# doneyet

A terminal watcher for CI workflow runs (GitHub Actions): it follows a run until it is
done and exits with the run's conclusion (`0` pass, `1` fail, `2` cancelled or timed out,
`130` interrupted, `4` error).

## Layout

- `src/` is the verified library. Every function in it carries a Verus contract:
  - `model`, `event`, `diff`: runs, jobs, steps and their phases, and the events that lead
    from one snapshot of a run to the next.
  - `logtail`, `stats`, `time`: log tails kept per job, duration statistics for the ETA,
    spans of time.
  - `github`, `link`, `status`, `retry`, `etag`, `token`, `webhook`: the GitHub adapter's
    decisions — addresses, pagination, what each answer means, when to retry, the ETag
    cache, token precedence, webhook signatures and hints.
  - `engine`: the decisions of the watch, commit-watch and dashboard loops.
  - `cli`: argument rewriting, repository resolution, configuration paths, hooks,
    completion paths and exit codes.
- `app/` is the program around it: the command line, HTTP, the webhook listener, the
  terminal, files and processes, and the loops that wait on them.
- `tests/` runs the library on concrete values.

## Not included

Recording a watch to JSONL (`--record`) and replaying a recording (`doneyet replay`) are
left out: the record format and the replay belong to the themed rendering layer, which is
not part of this project. The program prints plain text instead.
