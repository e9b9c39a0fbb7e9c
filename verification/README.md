# bornengine_cli

`bornengine` creates, builds, runs and manages BornEngine game projects on top
of the Perry TypeScript compiler. This crate holds its decisions as a library
verified with Verus, and a thin binary around it.

## Layout

- `src/` — the verified library. Every function carries a `requires`/`ensures`
  contract over mathematical models (`Seq`, `Set`, views of the data types):
  - `platform` — host platforms, Perry's targets, the targets an installed
    Perry advertises (read from `perry compile --help`), and the choice of a
    build target;
  - `engine`, `engine_package` — engine releases chosen from npm registry
    metadata, and the engine dependency read, set and removed in
    `package.json`;
  - `project` — project names, npm names, the files of a new project and the
    recognition of a BornEngine project;
  - `build_artifacts`, `paths` — where builds go, the record of the files they
    created, and which recorded paths cleaning may touch;
  - `config`, `package_manager`, `process`, `versions`, `ui` — settings,
    package managers, Perry's command lines, semantic versions and styled
    terminal text;
  - `commands` — the choices behind each command, including the interactive
    `create` wizard as a state machine;
  - `json`, `text`, `string_set`, `error` — the supporting values.
- `app/` — the binary: command-line parsing, files, network, processes and
  prompts; it hands plain values to the library and acts on what it returns.
- `tests/` — tests of the library on concrete values.

Laws that relate several functions (for example that a dependency that was
set is read back, or that every file a build records is one that cleaning
accepts) are public proof functions next to the functions they speak of.
