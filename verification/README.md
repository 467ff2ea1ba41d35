# whittle

Lint and auto-normalize Conventional Commit messages, with the logic proved
in Verus.

- `src/` is the verified library: parsing (through `git_conventional`), the
  normalization pipeline, the lint rules, the guidance that teaches them,
  and `evaluate`, which judges a commit message file's content in `check` or
  `fix` mode and says what to report and what to write.
  - `src/laws.rs` and `src/idempotence.rs` hold the properties proved across
    functions: `check` never writes, `fix` only writes a message that parses,
    a passing `check` prints nothing and leaves `fix` only the formatting,
    guidance never repeats itself, and the description cleanup settles in
    one pass; the whole normalization does too, provided lowercasing and the
    replace rules leave its result unchanged.
- `app/` is the `whittle` command: argument parsing, reading the file and
  `whittle.toml`, writing the result, and printing the human or JSON report.
- `tests/` runs the library on concrete messages.
