# loom

The front end of a concurrency model checker: mocks of the standard synchronization types,
the tracing of their operations, and the downgrading of their memory orderings.

- `src/` is the verified library. It decides and computes, without input or output: which
  ordering an operation uses, what the runtime of a model is asked for, what the trace and the
  script of the collected downgrades consist of. Its contracts are proved by Verus.
- `app/` is ordinary Rust around it: the environment variables, the files, the locks, and the
  calls into the runtime that executes a model.
- `tests/` runs the library on concrete values.

| Module | What it holds |
| --- | --- |
| `downgrade` | the `LOOM_DOWNGRADE` variable, the selected and the collected operations, the script |
| `trace` | the `LOOM_TRACE` file |
| `sync::atomic` | atomic objects and fences |
| `cell` | the checked `Cell` |
| `order`, `rt`, `text` | memory orderings, locations and values, strings |

What holds of the library as a whole is stated by the public proof functions named `law_*`.
