# cxprof

Isolated Codex profiles: each named profile is a private `CODEX_HOME` that a
profile switcher creates, lists, opens and removes, and in which it starts the
installed Codex CLI.

The library under `src/` holds the switcher's logic with its specifications,
checked by Verus:

- `paths`: paths as component sequences (Unix paths, and Windows paths with
  their drive or UNC prefixes), the storage root, lexical normalization, and
  how paths are shown.
- `profile`, `config`: profile names, the ownership marker and the Codex
  configuration every profile must keep.
- `store`, `listing`: creating, opening, checking, listing and removing
  profiles. Each is a procedure that asks for one filesystem operation at a
  time and decides from its outcome.
- `codex`: finding the Codex executable and the processes started for a
  profile.
- `report`: confirmation of a removal, the lines of a listing and the health
  check.

`app/` is the command-line program: it reads the environment, performs the
filesystem operations and process launches the procedures ask for, and
prints what the library says.
