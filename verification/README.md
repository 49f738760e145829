# changelog

The changelog part of a bot that watches a repository. When a pull request is
merged, the bot reads the changelog section of its text and writes it to a YAML
file; when changelogs are pushed or written, it waits for things to calm down,
brings its checkout up to date, announces each changelog and has a script put
them into the public one.

- `src/` is the library, verified with Verus: `body` and `body_laws` (the
  section of a pull request's text), `entry` (changelogs and their entries), `events`
  (configuration and events), `pull_request` and `push` (what an event leads
  to), `manager` (when a run starts), `run` (what a run does next), `logs` and
  `text`.
- `app/` runs what the library decides: processes, files, threads and YAML.
- `tests/` runs the library.

Regular expressions are those of the `regex` crate. What the library relies on
of it stands in the contracts of three functions: `captures` and `captures_iter`
in `body`, `is_match` in `push`.
