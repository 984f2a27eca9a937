# dependency-factory

A type-safe dependency-injection container, verified with Verus.
Resources are built on first request, cached as `Arc<T>`, and resolved
recursively from their declared dependencies.

- **Singletons**: one instance per type (`Singleton`).
- **Queries**: one instance per key value (`Query`).

A build receives a `DependencyFactoryHandle` that carries the chain of
requests it runs in; a request for a resource that the same chain is
already building is reported as a `CycleError` with the path through the
cycle. Errors carry `while building <name>` frames, innermost first.

## Layout

- `src/keymap.rs`: the cache of one key type: values per key and the
  builds in progress, with its laws (a read gives back the last write, a
  failed build leaves no claim, a second request in the same chain is a
  cycle, other chains go ahead). They hold for keys whose `Hash` and `Eq`
  agree with equality: integer keys, among them the one key under which
  each singleton is cached, and query keys that keep to that. The
  factory reaches its caches through a lock and a type-erased map, so its
  own contracts do not speak of what the caches hold.
- `src/factory.rs`: the factory, its handles, `Singleton` and `Query`,
  and the two halves of a build request.
- `src/error.rs`: `BuildError`, `CycleError` and their texts.
- `src/shared.rs`: the trusted part: std's `Mutex`, `Weak` and the
  type-erased map of caches, which Verus cannot look into.
- `src/derive.rs`: the text that `#[derive(Singleton)]` expands to.
- `src/release/`: the release process: changelog edits, manifest edits
  (through `toml_edit`, with each document seen as a tree of items),
  branch, tag and version checks, the wait for crates.io to list a
  release, and paths.
- `src/text.rs`, `src/version.rs`: characters, lines, decimal numbers,
  and semantic versions (read by `semver`).
- `app/`: the `xtask` program, which runs git, gh, cargo and curl, reads
  and writes the files, and reports.
