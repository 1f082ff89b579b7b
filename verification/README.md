# rivect

The decision core of a local agent runtime, verified with Verus: what a request
may do, what a configuration means, which model connection receives a request,
and how an effect crosses the sandbox boundary of the operating system.

- `src/` is the library. Every executable function states what it returns or
  changes; the laws that span several functions are the public proof functions
  whose names begin with `law_`.
  - `config` reads, edits and publishes the configuration document.
  - `policy` holds grants, deny rules and permission modes.
  - `providers` and `model` rank connections, dispatch manifests and account
    for them.
  - `executor` and `helper` decide the steps of an effect behind the boundary.
  - `commands`, `controller`, `owner` and `cli` answer requests.
- `tests/` runs the library on concrete values.
- `app/` is the program around it: files, processes, sockets, the native secret
  stores and the request loop. It performs what the library decides and hands
  the outcome back.

The library calls `toml_edit`, `serde_json`, `sha2`, `uuid`,
`unicode-normalization` and `focaccia` behind small wrappers whose contracts
are assumed; each says which function it calls and what it claims of it.
