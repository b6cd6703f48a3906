# forgeiso_engine

ForgeISO builds, inspects, verifies, compares and customises Linux ISO
images on a local machine. This crate is its engine, written in Verus: the
decisions of every pipeline are executable functions whose contracts are
proved.

## Layout

- `src/` — the verified library.
  - `config`, `error`, `events`: configurations, their validation, errors
    and pipeline phases.
  - `yaml`, `autoinstall`: the autoinstall document tree, generating a
    document from an injection configuration and merging one into existing
    user-data; the merge laws (other top-level entries and other sections
    kept, identity overridden, ssh keys merged, late commands appended) are
    proof functions here.
  - `iso`: metadata inference from volume labels, `.disk/info`, `.treeinfo`
    and `arch/version`, boot support and the primary volume descriptor.
  - `orchestrator`: file names, `xorriso` and `qemu` command lines, checksum
    lookup, file-list comparison, smoke-test verdicts, host checks.
  - `scanner`, `report`: scan plans, severity counting and gates, report
    pages.
  - `policy`, `release_tracker`: release lifecycle policy and release lists.
  - `workspace`: run directories and confinement of joined paths.
  - `modules`, `backends`, `runtime`: build modules, container run specs and
    distribution build scripts.
  - `cli`, `desktop`, `gui`, `tui`: the decisions of the command line, the
    desktop shell, the wizard and the terminal form.
  - `text`: string and sequence specifications with their executable
    counterparts.
  - `digest`: SHA-256 of a byte stream as lowercase hex.
- `app/` — the program around the library: the `forgeiso` command line, the
  terminal front end (when invoked as `forgeiso-tui`), processes, files,
  downloads and JSON/YAML text. The desktop front ends (the egui wizard and
  the Tauri shell) are not built here, as their toolkits are not among the
  crate's dependencies; their decisions are in `src/gui.rs` and
  `src/desktop.rs`.
- `tests/` — tests of the library on concrete values.
