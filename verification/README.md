# clserver

A command-line manager for Minecraft, Velocity and Hytale game servers that
run in `screen` sessions: start, stop (through RCON or a stop command),
restart, local `rsync` mirrors, remote restic or kopia backups, restores,
daily fleet maintenance and Discord summaries.

## Layout

- `src/` is the verified library (Verus). It holds the configuration model
  and its validation, the env-file and `server.properties` readers, the RCON
  packet format, restic and kopia output parsing, byte and duration
  formatting, the `validate-config` report and the `--fix` rewrite of
  `clserver.toml`, and the decisions of the server operations: which command
  runs with which arguments, the friendly-stop and stop/work/restart state
  machines, the maintenance task list, and the reports built from their
  results. Progress messages and prompts that accompany outside work stay in
  `app/`.
- `app/` is the program around it: the command line (clap), logging
  (tracing), reading `clserver.toml` (serde and toml_edit), and the outside
  work that the library asks for — running `screen`, `rsync`, `restic` and
  `kopia`, talking to RCON over TCP, posting to Discord, reading the clock,
  the disk and the terminal.
- `tests/` runs the library on concrete values.
