# autopoietic

The record and decision logic of the Autopoietic OS tools, verified with
Verus: journal records, the organ registry, proposal validation and patch
application, the offline verification and promotion runs, install planning
and install verification, evidence bundles, and the self-state summaries.

Layout:

- `src/` is the verified library. Each public function states in its
  contract what it returns. Some properties that span several functions, or
  that restate a contract in plainer terms, are public proof functions
  (`lemma_...`); the others follow from the contracts but are not written
  out.
  - `records`, `strmap`: the record types and an ordered text table.
  - `text`, `lines`, `paths`: text, line and path handling with their specs.
  - `patch`, `checks`: unified-diff parsing and application, proposal
    validation, check allowlisting.
  - `verify_run`, `promote_run`: the verification and promotion runs as
    state machines; the caller performs each requested action.
  - `install_plan`, `install_verify`: install plans, seed manifests and
    their verification.
  - `evidence`, `digest`: evidence bundles and content digests (SHA-256 via
    the `sha2` crate).
  - `journal`, `organs`, `suggest`, `cli`, `introspect`: journal entries,
    the organ registry, registry suggestions, the organ command grammar and
    the self-state summaries.
- `tests/` exercises the library on concrete values.
- `app/` is the program around it: command-line parsing, JSON files and
  journals, worktrees, processes and the file system. It holds serializable
  copies of the library's records.
