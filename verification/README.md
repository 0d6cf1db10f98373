# pelper

A terminal DX helper that brings everyday developer tools into one TUI. Its
first feature, **Projects**, scans root directories for git repositories, lists
them with branch, dirty state, ahead/behind counts and last-commit time, shows
each project's local branches, fast-forwards default branches (stashing and
restoring local work), and prunes branches whose upstream is gone behind a
two-step confirmation.

## Layout

- `src/` — the library, verified with Verus. Every function carries a
  `requires`/`ensures` contract over mathematical models (`Seq`, `nat`, views
  of each type), and the properties that span functions are stated and proved
  as public proof functions (`lemma_*`).
  - `text`, `split`, `numbers`, `sorting` — text, line/word splitting,
    decimal numbers and a stable keyed sort, each specified by spec functions.
  - `repo`, `branches`, `order`, `time`, `version`, `gitio` — reading git's
    output: `status --porcelain=v2`, `for-each-ref`, `ls-remote`, and
    relative times.
  - `update`, `prune` — updating a repository and looking for prunable
    branches, each as a state machine that asks for one `git` call at a time
    and is told its result.
  - `scan`, `report`, `config` — ordering projects, dealing work to workers,
    the headless commands' decisions and texts, configuration defaults.
  - `states`, `tui`, `display`, `help` — the interactive screens: every key
    press and clock tick as a function from state to state plus the work it
    asks for, and what each cell of each screen says.
- `tests/` — tests of the library on concrete values.
- `app/` — the program around the library: command-line parsing, the
  configuration file, running `git`, worker threads, and drawing with
  ratatui.

Outside calls that the library makes (`str::to_lowercase`, `String::push`,
the clock, `directories` for the home directory) go through small trusted
wrappers whose contracts say only what their documentation promises.
