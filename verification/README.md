# ohmypi_prompt_files

The decisions behind Oh My Pi's prompt files, verified with Verus: the
instruction files `AGENTS.md` and `SYSTEM.md`, and the slash-command
templates `commands/<slug>.md` under the agent directory (`~/.omp/agent`).

Every write is guarded by a revision, the lower-case hexadecimal SHA-256
digest of the file's bytes (`missing` for a file that does not exist): a
replace, an upsert or a delete goes through only when the caller names the
current revision.

- `src/` is the library. Its services take the stored state of each file as
  plain values (`None` when absent, `Some(bytes)` when present) and say what
  to write or remove, and what a read gives back.
  - `prompt_files.rs`: instruction files: read, replace, delete, content checks.
  - `templates.rs`: templates: slug checks, file names, listing, upsert, delete.
  - `discovery.rs`: the skill-discovery settings and their configuration keys.
  - `revision.rs`, `text.rs`: revisions, hexadecimal text, string helpers.
  - `external.rs`: the calls into `sha2` and `std` that carry trusted contracts.
- `app/` performs the file-system work (locking, reading, atomic writes,
  renames) around the library.
- `tests/` runs the library on concrete values.
