# doclib

A tag-indexed catalog for books and articles, as a Verus-verified library.

- `src/` is the library, every function with a contract proved by Verus:
  - `domain/`, `application/`, `cli/`: documents and their validation, the
    create / list / search / update / delete use cases over a repository, and
    the command line's input parsing and table layout.
  - `config.rs`, `path.rs`: the configuration (stores, cache, openers) and
    Unix path text, with `~` expansion.
  - `cache.rs`: content hashes and the least-recently-opened eviction plan.
  - `db.rs`: the catalog's full-text search expression and listing query.
  - `commands/`: the decisions behind each command — converging stores,
    orphan detection, deletion records, sync gaps, readable export names,
    import entries, restore merging, stats, `show` fields.
  - `text.rs`, `words.rs`, `order.rs`: string, line/word and ordering
    helpers the rest is specified with.
- `app/` holds what talks to the outside world: the terminal prompts, the
  TOML configuration file, the SQLite catalog and the file system.
- `tests/` runs the library on concrete values.
