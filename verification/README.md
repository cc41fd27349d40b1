# tuggy

A library that plans multiplatform Docker buildx image builds, verified with
Verus, and a command line tool around it.

- `src/` is the verified library:
  - `text.rs`: splitting, line breaking, joining and ordering of strings;
  - `platform.rs`: platform identifiers (`os/arch`), their order and sorting;
  - `pattern.rs`: regular expressions (through the `regex` crate) and the
    skip pattern that filters fringe platforms;
  - `inspect.rs`: reading the available platforms out of `docker buildx
    inspect` output;
  - `command.rs`: the `docker` invocations and their failures;
  - `config.rs`: the configuration and the plan of a build, with its laws;
  - `run.rs`: the decisions between commands: a sequence that stops at the
    first failure, and a build that provisions the builder, reads its
    platforms, then runs its plan;
  - `error.rs`: the error type.
- `app/main.rs` parses the command line, reads `tuggy.toml`, runs each
  command that the library hands out and reports its outcome back.
- `tests/` exercises the library on concrete values.
