# workday-launcher

Runs a program only on working days: weekends and public holidays are skipped, and
transferred working days run. Holiday data comes from local JSON files; a configuration
file in TOML names the program, its arguments, the holiday files and the policy for days
that no file lists (`allow` or `deny`); `invert = true` runs only on holidays and weekends.

Layout:

- `src/` — the verified library:
  - `calendar.rs` — calendar days as `chrono` knows them (validity, day of the week,
    parsing of `YYYY-MM-DD`);
  - `holidays.rs` — holiday entries and files, and the index of entries by day;
  - `decision.rs` — the rule that decides whether to run on a day;
  - `config.rs` — the configuration, path resolution and the search for the
    configuration file;
  - `laws.rs` — properties of the index and of the decisions over all inputs.
- `app/main.rs` — the command-line program: reads files, parses TOML and JSON, runs the
  program.
- `tests/` — tests of the library.
