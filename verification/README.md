# drift-sdk

The SDK with which a Drift Atomic function reaches its slice: state (`backbone`),
identity (`deed`), other slices (`slice`), and the requests that it serves.

The logic is a library verified with Verus. It plans each request as a value and
reads each reply as a value; sending, listening and the environment are left to the
thin crate around it.

## Layout

- `src/`: the verified library.
  - `backbone`, `deed`, `slices`, `http`, `serve`: what each function asks for, and
    how its answer is read.
  - `transport`, `wire`: where a call goes, and what goes over the wire.
  - `local`: the store that serves calls when no slice is running. `local::laws`
    states what holds of it as a whole.
  - `json`, `document`, `table`, `query`, `percent`, `text`: values, their border
    with `serde_json`, maps by name, paths and characters.
- `app/`: the SDK as a function uses it, on `serde_json::Value`. It reads the
  environment, sends requests with `ureq`, and runs the local servers.
- `tests/`: examples of each, run against the compiled library.

## What is trusted

`serde_json` parses and writes JSON text, and its numbers and documents are taken
apart and put together behind a handful of functions in `document`. From the
standard library, `str::to_lowercase`, `str::to_uppercase`,
`String::from_utf8_lossy` and `String::push` are called the same way. Each of these
functions says in its doc comment what it claims.
