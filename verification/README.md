# baiban

A project scaffolding tool: it keeps a list of project templates (built-in
ones and the user's own in `~/.baiban/templates.toml`), clones the chosen
template's Git repository, optionally through a GitHub mirror, and prepares
the new project (fresh Git history, package name set).

## Layout

- `src/` — the verified library (Verus).
  - `text.rs`: trimming, prefixes, joining, the order of names.
  - `config.rs`: templates and settings; merging built-in and user templates
    (user templates override, sorted by name), lookup, adding and removing
    user templates, mirror priority and URL rewriting, configuration paths
    (joined by the platform's own path rule).
  - `template.rs`: the clone (with its fallback to the default branch) and the
    post-processing as state machines driven by the caller.
  - `manifest.rs`: JSON values as plain data, setting a field, and renaming
    the package in `package.json`.
  - `create.rs`, `remove.rs`: the `create` and `template remove` commands as
    state machines driven by the caller.
  - `ui.rs`: checking prompt answers.
  - `cli.rs`: the commands as plain data.
- `app/` — the program: command-line parsing, prompts, terminal output,
  reading and writing TOML files, running `git`.
- `tests/` — tests of the library.
