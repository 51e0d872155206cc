# cargo-tsn

`cargo tsn` manages ts-native projects: it scaffolds new projects, adds FFI
functions to a project's plugin crates, detects the plugins that TypeScript
sources need and generates plugin templates and entry-point manifests for
them, and publishes plugins as Codeberg releases.

The crate is verified with Verus.

- `src/` is the library, verified, with a contract on every function: type
  inference, plugin detection on call sites, grouping and classification of
  plugins, the complete text of every generated file, the plan of steps that
  `prepare` carries out, the function wizard as a state machine, and the
  names, URLs and choices used while publishing and downloading releases,
  with the order of the requests of an upload as a state machine.
  Public proof functions named `law_*` state properties that span several
  functions, such as "a dry run only prints" or "detection finds exactly the
  plugins whose API functions are called".
- `app/` is the command line: argument parsing, the terminal dialogue, file
  and network I/O, TypeScript parsing with swc, archives and JSON. It hands
  the library plain values and carries out what the library returns. The
  one thing it keeps of its own is the listing of installed plugins, which
  reads their priority as a TOML number.
- `tests/` runs the library on concrete inputs.
