# gitmind

Auto-generates context documentation for a code base: it walks a repository,
parses each source file with tree-sitter, and gathers modules, public
interfaces, language statistics and declared dependencies.

The library under `src/` is written in Verus and verified:

- `text`, `path` — string and path primitives (trimming, lines, words,
  splitting, path components, extensions) stated as spec functions.
- `scanner` — languages, symbols, syntax trees as plain values
  (`scanner::syntax`), symbol extraction from a tree (`scanner::extract`),
  and the scan of one file (`select_language`, `source_file`).
- `analyzer` — module names (`naming`, with the laws on leading directories
  in `prefixes`), module descriptions (`describe`),
  manifest parsing for `Cargo.toml`, `package.json`, `go.mod`,
  `pyproject.toml` and `requirements.txt` (`manifest`, `documents`,
  `dependencies`), line statistics (`stats`), and `analyze`, which assembles
  the project analysis.

Calls into tree-sitter, `toml`, `serde_json` and a few `std` functions go
through `#[verifier::external_body]` wrappers whose contracts name what the
outside code returns.

`app/` holds the command-line program (`gitmind sync`, `gitmind stats`): it
walks the directory with `ignore`, reads files and manifests, and prints what
the library computes. `tests/` exercises the library on concrete inputs.
